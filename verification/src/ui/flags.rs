//! Flags of the application state.

use vstd::prelude::*;

verus! {

/// One property of the application state.
#[derive(Debug, Clone, Copy, PartialEq, Eq, Structural)]
pub enum AppFlag {
    /// Application should continue running.
    ShouldRun,
    /// Whether table of contents should be displayed.
    ShouldShowToc,
    /// Whether search yields no results.
    HasNoResults,
    /// Are we searching case-sensitively?
    IsCaseSensitive,
    /// Are we searching with regex?
    IsUsingRegex,
}

/// The bit that stands for a flag.
pub open spec fn bit_of(flag: AppFlag) -> u8 {
    match flag {
        AppFlag::ShouldRun => 1,
        AppFlag::ShouldShowToc => 2,
        AppFlag::HasNoResults => 4,
        AppFlag::IsCaseSensitive => 8,
        AppFlag::IsUsingRegex => 16,
    }
}

fn flag_bit(flag: AppFlag) -> (bit: u8)
    ensures
        bit == bit_of(flag),
{
    match flag {
        AppFlag::ShouldRun => 1,
        AppFlag::ShouldShowToc => 2,
        AppFlag::HasNoResults => 4,
        AppFlag::IsCaseSensitive => 8,
        AppFlag::IsUsingRegex => 16,
    }
}

/// The flags that are set, one bit for each.
#[derive(Debug, Clone, Copy, PartialEq, Eq, Structural)]
pub struct AppStateFlags {
    bits: u8,
}

impl View for AppStateFlags {
    type V = Set<AppFlag>;

    closed spec fn view(&self) -> Set<AppFlag> {
        Set::new(|flag: AppFlag| self.bits & bit_of(flag) != 0)
    }
}

proof fn lemma_bits(bits: u8, m: u8, n: u8)
    by (bit_vector)
    requires
        m == 1 || m == 2 || m == 4 || m == 8 || m == 16,
        n == 1 || n == 2 || n == 4 || n == 8 || n == 16,
    ensures
        bits & m == 0 || bits & m == m,
        (bits | m) & n == (if m == n {
            m
        } else {
            bits & n
        }),
        (bits & !m) & n == (if m == n {
            0
        } else {
            bits & n
        }),
        ((bits ^ m) & n == 0) == (if m == n {
            bits & n != 0
        } else {
            bits & n == 0
        }),
{
}

/// A set of flags with one of them switched over.
pub open spec fn toggled(flags: Set<AppFlag>, flag: AppFlag) -> Set<AppFlag> {
    if flags.contains(flag) {
        flags.remove(flag)
    } else {
        flags.insert(flag)
    }
}

impl AppStateFlags {
    /// Whether a flag is set.
    pub fn contains(&self, flag: AppFlag) -> (r: bool)
        ensures
            r == self@.contains(flag),
    {
        let bit: u8 = flag_bit(flag);
        proof {
            lemma_bits(self.bits, bit, bit);
        }
        self.bits & bit == bit
    }

    /// Sets a flag.
    pub fn insert(&mut self, flag: AppFlag)
        ensures
            final(self)@ == old(self)@.insert(flag),
    {
        let bit: u8 = flag_bit(flag);
        self.bits = self.bits | bit;
        proof {
            assert forall|f: AppFlag|
                self@.contains(f) == old(self)@.insert(flag).contains(f) by {
                lemma_bits(old(self).bits, bit, bit_of(f));
            }
        }
    }

    /// Clears a flag.
    pub fn remove(&mut self, flag: AppFlag)
        ensures
            final(self)@ == old(self)@.remove(flag),
    {
        let bit: u8 = flag_bit(flag);
        self.bits = self.bits & !bit;
        proof {
            assert forall|f: AppFlag|
                self@.contains(f) == old(self)@.remove(flag).contains(f) by {
                lemma_bits(old(self).bits, bit, bit_of(f));
            }
        }
    }

    /// Switches a flag over.
    pub fn toggle(&mut self, flag: AppFlag)
        ensures
            final(self)@ == toggled(old(self)@, flag),
    {
        let bit: u8 = flag_bit(flag);
        self.bits = self.bits ^ bit;
        proof {
            assert forall|f: AppFlag|
                self@.contains(f) == toggled(old(self)@, flag).contains(f) by {
                lemma_bits(old(self).bits, bit, bit_of(f));
            }
        }
    }
}

impl Default for AppStateFlags {
    fn default() -> (r: Self)
        ensures
            r@ == set![AppFlag::ShouldRun],
    {
        let r = AppStateFlags { bits: 1 };
        proof {
            assert forall|f: AppFlag|
                r@.contains(f) == set![AppFlag::ShouldRun].contains(f) by {
                let n: u8 = bit_of(f);
                assert(1u8 & n == (if n == 1 {
                    1u8
                } else {
                    0
                })) by (bit_vector)
                    requires
                        n == 1 || n == 2 || n == 4 || n == 8 || n == 16,
                ;
            }
        }
        r
    }
}

/// Switching a flag over twice changes nothing, and switching it over once
/// leaves every other flag as it is.
pub proof fn law_toggle(flags: Set<AppFlag>, flag: AppFlag, other: AppFlag)
    ensures
        toggled(toggled(flags, flag), flag) == flags,
        toggled(flags, flag).contains(flag) == !flags.contains(flag),
        other != flag ==> toggled(flags, flag).contains(other) == flags.contains(other),
{
    assert(toggled(toggled(flags, flag), flag) =~= flags);
}

} // verus!
