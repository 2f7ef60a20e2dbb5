//! What the program does with its arguments.

use vstd::prelude::*;

use crate::text;
use crate::types::RfcNum;

verus! {

/// The arguments of the program.
#[derive(Debug, Clone, Copy)]
pub struct Arguments {
    pub clear_cache: bool,
    pub clear_logs: bool,
    pub list: bool,
    pub offline: bool,
    pub rfc_number: Option<RfcNum>,
}

/// What the program is asked to do.
#[derive(Debug, Clone, Copy)]
pub enum StartupAction {
    ClearCache,
    ClearLogs,
    ListCached,
    Open(RfcNum),
    /// There is nothing to do without the number of an RFC.
    MissingNumber,
}

/// Decides what to do. The maintenance actions come first, in this order.
pub fn startup_action(arguments: &Arguments) -> (r: StartupAction)
    ensures
        r == (if arguments.clear_cache {
            StartupAction::ClearCache
        } else if arguments.clear_logs {
            StartupAction::ClearLogs
        } else if arguments.list {
            StartupAction::ListCached
        } else {
            match arguments.rfc_number {
                Some(number) => StartupAction::Open(number),
                None => StartupAction::MissingNumber,
            }
        }),
{
    if arguments.clear_cache {
        StartupAction::ClearCache
    } else if arguments.clear_logs {
        StartupAction::ClearLogs
    } else if arguments.list {
        StartupAction::ListCached
    } else {
        match arguments.rfc_number {
            Some(number) => StartupAction::Open(number),
            None => StartupAction::MissingNumber,
        }
    }
}

/// Where the text of an RFC comes from.
#[derive(Debug, Clone, Copy, PartialEq, Eq, Structural)]
pub enum ContentSource {
    /// The copy in the cache.
    Cache,
    /// The network.
    Network,
    /// Nowhere: there is no copy, and the network is not to be used.
    Unavailable,
}

/// Decides where the text of an RFC comes from. The network is asked only for
/// what is not in the cache.
pub fn content_source(is_cached: bool, is_offline: bool) -> (r: ContentSource)
    ensures
        r is Cache <==> is_cached,
        r is Network <==> !is_cached && !is_offline,
        r is Unavailable <==> !is_cached && is_offline,
{
    if is_cached {
        ContentSource::Cache
    } else if is_offline {
        ContentSource::Unavailable
    } else {
        ContentSource::Network
    }
}

/// The error for an RFC that has no copy in the cache in offline mode.
pub open spec fn unavailable_text_of(rfc_number: RfcNum) -> Seq<char> {
    "Unable to access RFC "@ + text::decimal(rfc_number.value())
        + " - network access disabled in offline mode and RFC not cached locally"@
}

/// Writes the error for an RFC that has no copy in the cache in offline mode.
pub fn unavailable_text(rfc_number: RfcNum) -> (r: String)
    ensures
        r@ == unavailable_text_of(rfc_number),
{
    let mut out = "Unable to access RFC ".to_owned();
    text::push_decimal(&mut out, rfc_number.get() as usize);
    out.append(" - network access disabled in offline mode and RFC not cached locally");
    out
}

} // verus!
