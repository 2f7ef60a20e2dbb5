//! Regular expressions, as the `regex` crate compiles and runs them.
//!
//! What a regular expression matches is decided by the `regex` crate; the
//! functions `regex_compiles_with`, `regex_matches`, `regex_groups` and
//! `regex_spans` are names for its answers.

use regex::Regex;
use vstd::prelude::*;

use crate::std_text;
use crate::text;
use crate::types::MatchSpan;

verus! {

/// Matches the heading line of a table of contents, such as `Contents` or
/// `3. Table of Contents`.
pub const TOC_HEADER: &'static str =
    "^((?:Table of Contents|Contents)|(?:TABLE OF CONTENTS)|(?:\\d+\\.?\\s+Table of Contents))$";

/// Matches a numbered row of a table of contents, such as `2.1  Terminology`
/// or `1. Introduction.......5`. The groups are the label and the title; the
/// page number behind the dots belongs to neither.
pub const TOC_NUMBERED_ROW: &'static str = "^\\s*(\\d+(?:\\.\\d+)*\\.?)\\s+(.*?)(?:\\.{2,}\\s*\\d+)?$";

/// Matches an appendix row of a table of contents, such as
/// `Appendix A. Packet Format`, with the same two groups.
pub const TOC_APPENDIX_ROW: &'static str = "^\\s*(Appendix\\s+[A-Z]\\.?)\\s+(.*?)(?:\\.{2,}\\s*\\d+)?$";

/// Matches a numbered section heading that starts in the first column.
pub const SECTION_HEADING: &'static str = "^(\\d+(?:\\.\\d+)*\\.)\\s+\\S";

/// Matches the end of a row of a table of contents that names a page: two or
/// more dots and a number, as the row patterns take them.
pub const TOC_PAGE_NUMBER: &'static str = "\\.{2,}\\s*\\d+$";

/// Whether a pattern is one of the two for rows of a table of contents.
pub open spec fn is_row_pattern(pattern: Seq<char>) -> bool {
    pattern == TOC_NUMBERED_ROW@ || pattern == TOC_APPENDIX_ROW@
}

/// Whether a pattern is one of the five fixed ones above.
pub open spec fn is_fixed_pattern(pattern: Seq<char>) -> bool {
    ||| pattern == TOC_HEADER@
    ||| is_row_pattern(pattern)
    ||| pattern == SECTION_HEADING@
    ||| pattern == TOC_PAGE_NUMBER@
}

/// A text without the ASCII digits at its end.
pub open spec fn without_digits(s: Seq<char>) -> Seq<char>
    decreases s.len(),
{
    if s.len() > 0 && '0' <= s.last() <= '9' {
        without_digits(s.drop_last())
    } else {
        s
    }
}

/// Whether a text ends in two or more dots and a number in ASCII digits.
pub open spec fn ends_in_dots_and_number(s: Seq<char>) -> bool {
    let dotted = std_text::trimmed_end(without_digits(s));
    &&& without_digits(s).len() < s.len()
    &&& dotted.len() >= 2
    &&& dotted[dotted.len() - 1] == '.'
    &&& dotted[dotted.len() - 2] == '.'
}

/// Whether a character has a meaning of its own in a regular expression.
pub open spec fn is_meta_character(c: char) -> bool {
    ||| c == '\\'
    ||| c == '.'
    ||| c == '+'
    ||| c == '*'
    ||| c == '?'
    ||| c == '('
    ||| c == ')'
    ||| c == '|'
    ||| c == '['
    ||| c == ']'
    ||| c == '{'
    ||| c == '}'
    ||| c == '^'
    ||| c == '$'
    ||| c == '#'
    ||| c == '&'
    ||| c == '-'
    ||| c == '~'
}

/// A text with a backslash in front of each meta character.
pub open spec fn escaped(s: Seq<char>) -> Seq<char>
    decreases s.len(),
{
    if s.len() == 0 {
        s
    } else if is_meta_character(s[0]) {
        seq!['\\', s[0]] + escaped(s.drop_first())
    } else {
        seq![s[0]] + escaped(s.drop_first())
    }
}

/// Prefix of a pattern that is to be matched without regard to case.
pub const CASE_PREFIX: &'static str = "(?i)";

/// Characters of a literal text whose pattern is sure to be compiled.
pub const MAX_SURE_LITERAL: usize = 1000;

/// The pattern for a literal text.
pub open spec fn literal_pattern(literal: Seq<char>, ignores_case: bool) -> Seq<char> {
    if ignores_case {
        CASE_PREFIX@ + escaped(literal)
    } else {
        escaped(literal)
    }
}

/// Whether a text holds nothing but ASCII characters.
pub open spec fn is_ascii_text(s: Seq<char>) -> bool {
    forall|i: int| 0 <= i < s.len() ==> (#[trigger] s[i]) as u32 <= 0x7f
}

/// A character with an ASCII capital made small.
pub open spec fn ascii_lower(c: char) -> char {
    if 'A' <= c <= 'Z' {
        (c as u8 + 0x20) as char
    } else {
        c
    }
}

/// What of a text counts in a comparison: all of it, or all but the case of
/// ASCII letters.
pub open spec fn folded(s: Seq<char>, ignores_case: bool) -> Seq<char> {
    if ignores_case {
        Seq::new(s.len(), |i: int| ascii_lower(s[i]))
    } else {
        s
    }
}

/// Whether a text is one in which the comparison without regard to case is that
/// of ASCII letters.
pub open spec fn is_comparable(s: Seq<char>, ignores_case: bool) -> bool {
    ignores_case ==> is_ascii_text(s)
}

/// Whether a literal text stands somewhere in a line.
pub open spec fn holds_literal(line: Seq<char>, literal: Seq<char>, ignores_case: bool) -> bool {
    contains_text(folded(line, ignores_case), folded(literal, ignores_case))
}

/// Whether a span of a line covers a literal text.
pub open spec fn covers_literal(
    line: Seq<char>,
    span: MatchSpan,
    literal: Seq<char>,
    ignores_case: bool,
) -> bool {
    match text::byte_slice(line, span.start as int, span.end as int) {
        Some(part) => folded(part, ignores_case) == folded(literal, ignores_case),
        None => false,
    }
}

/// Whether a literal text stands at character `at` of a line.
pub open spec fn stands_at(
    line: Seq<char>,
    literal: Seq<char>,
    ignores_case: bool,
    at: int,
) -> bool {
    &&& 0 <= at <= line.len() - literal.len()
    &&& folded(line, ignores_case).subrange(at, at + literal.len()) == folded(
        literal,
        ignores_case,
    )
}

/// Whether one of some spans of a line shares a character with the range from
/// character `from` to character `to`.
pub open spec fn meets_span(line: Seq<char>, spans: Seq<MatchSpan>, from: int, to: int) -> bool {
    exists|i: int|
        0 <= i < spans.len() && text::chars_before(line, (#[trigger] spans[i]).start as int) < to
            && from < text::chars_before(line, spans[i].end as int)
}

/// Whether no place of a line where a literal text stands is left out by some
/// spans: each meets one of them.
pub open spec fn meets_all_places(
    line: Seq<char>,
    spans: Seq<MatchSpan>,
    literal: Seq<char>,
    ignores_case: bool,
) -> bool {
    forall|at: int| #[trigger]
        stands_at(line, literal, ignores_case, at) ==> meets_span(
            line,
            spans,
            at,
            at + literal.len(),
        )
}

/// `regex::escape`: puts a backslash in front of each meta character.
pub assume_specification[ regex::escape ](literal: &str) -> (r: String)
    ensures
        r@ == escaped(literal@),
;

/// Whether `Regex::new` accepts a pattern on a machine with pointers of so many
/// bits: the pattern is well formed and its program stays within the default
/// size limit, which is one in bytes.
pub uninterp spec fn regex_compiles_with(pattern: Seq<char>, pointer_bits: nat) -> bool;

/// Whether `Regex::new` accepts a pattern on this machine.
pub open spec fn regex_compiles(pattern: Seq<char>) -> bool {
    regex_compiles_with(pattern, usize::BITS as nat)
}

/// Whether `Regex::is_match` finds a match of a pattern anywhere in a text.
pub uninterp spec fn regex_matches(pattern: Seq<char>, text: Seq<char>) -> bool;

/// The capture groups of the first match of a pattern in a text, as
/// `Regex::captures` gives them: the whole match first, then each group, which
/// may have taken no part in the match.
pub uninterp spec fn regex_groups(pattern: Seq<char>, text: Seq<char>) -> Option<
    Seq<Option<Seq<char>>>,
>;

/// The byte ranges of the successive matches of a pattern in a text, as
/// `Regex::find_iter` gives them.
pub uninterp spec fn regex_spans(pattern: Seq<char>, text: Seq<char>) -> Seq<MatchSpan>;

/// Spans that lie on character boundaries of a text, one after the other and
/// without overlap.
pub open spec fn spans_in_order(text: Seq<char>, spans: Seq<MatchSpan>) -> bool {
    &&& forall|i: int|
        0 <= i < spans.len() ==> {
            &&& (#[trigger] spans[i]).start <= spans[i].end
            &&& text::on_boundary(text, spans[i].start as int)
            &&& text::on_boundary(text, spans[i].end as int)
        }
    &&& forall|i: int, j: int|
        0 <= i < j < spans.len() ==> {
            &&& (#[trigger] spans[i]).end <= (#[trigger] spans[j]).start
            &&& spans[i].start < spans[j].start
        }
}

/// Whether `part` stands somewhere in `whole`.
pub open spec fn contains_text(whole: Seq<char>, part: Seq<char>) -> bool {
    exists|i: int|
        0 <= i <= whole.len() - part.len() && #[trigger] whole.subrange(i, i + part.len()) == part
}

/// The texts of capture groups.
pub open spec fn group_views(groups: Seq<Option<String>>) -> Seq<Option<Seq<char>>> {
    Seq::new(
        groups.len(),
        |i: int|
            match groups[i] {
                Some(g) => Some(g@),
                None => None,
            },
    )
}

#[verifier::external_type_specification]
#[verifier::external_body]
pub struct ExRegex(Regex);

/// A compiled regular expression, together with the pattern it came from.
///
/// Only `Pattern::compile` makes one, so `regex` is always the compiled form
/// of `text`.
pub struct Pattern {
    text: String,
    regex: Regex,
}

impl View for Pattern {
    type V = Seq<char>;

    closed spec fn view(&self) -> Seq<char> {
        self.text@
    }
}

impl Pattern {
    /// Compiles a pattern with `Regex::new`, and gives `None` where that
    /// returns an error.
    ///
    /// The contract adds to the name that the five fixed patterns of this
    /// module are accepted, and the patterns of literal texts up to a length at
    /// which their programs are far below the size limit.
    #[verifier::external_body]
    pub(crate) fn compile(text: &str) -> (r: Option<Pattern>)
        ensures
            r is Some == regex_compiles_with(text@, usize::BITS as nat),
            r matches Some(p) ==> p@ == text@,
            is_fixed_pattern(text@) ==> r is Some,
            forall|literal: Seq<char>, ignores_case: bool| #[trigger]
                literal_pattern(literal, ignores_case) == text@ && literal.len()
                    <= MAX_SURE_LITERAL ==> r is Some,
    {
        match Regex::new(text) {
            Ok(regex) => Some(Pattern { text: String::from(text), regex }),
            Err(_) => None,
        }
    }

    /// Tests a text with `Regex::is_match`.
    ///
    /// The contract adds to the name what the pattern of a page number means in
    /// an ASCII text. In other texts it takes the decimal digits of every
    /// script.
    #[verifier::external_body]
    pub(crate) fn is_match(&self, text: &str) -> (r: bool)
        ensures
            r == regex_matches(self@, text@),
            self@ == TOC_PAGE_NUMBER@ && is_ascii_text(text@) ==> r == ends_in_dots_and_number(
                text@,
            ),
    {
        self.regex.is_match(text)
    }

    /// The groups of the first match, from `Regex::captures`.
    ///
    /// The contract adds to the name that each of the two row patterns has two
    /// groups besides the whole match, and that both take part in every match.
    #[verifier::external_body]
    pub(crate) fn groups(&self, text: &str) -> (r: Option<Vec<Option<String>>>)
        ensures
            r is Some == regex_groups(self@, text@) is Some,
            r matches Some(g) ==> group_views(g@) == regex_groups(self@, text@)->0,
            is_row_pattern(self@) ==> (r matches Some(g) ==> g@.len() == 3 && g@[1] is Some
                && g@[2] is Some),
    {
        self.regex.captures(text).map(
            |found| found.iter().map(|g| g.map(|m| String::from(m.as_str()))).collect(),
        )
    }

    /// The ranges of all matches, from `Regex::find_iter`.
    ///
    /// The contract adds to the name that successive matches lie on character
    /// boundaries, in order and without overlap. Of the pattern of a literal text
    /// it adds that there is a match exactly if the text stands somewhere, that
    /// each match covers it, and that each place where it stands meets a match,
    /// as the iteration goes on to the next match behind the last one. Where
    /// case is ignored this is said of ASCII texts only, in which the Unicode
    /// folding of the crate comes down to that of ASCII letters.
    #[verifier::external_body]
    pub(crate) fn spans(&self, text: &str) -> (r: Vec<MatchSpan>)
        ensures
            r@ == regex_spans(self@, text@),
            spans_in_order(text@, r@),
            forall|literal: Seq<char>, ignores_case: bool| #[trigger]
                literal_pattern(literal, ignores_case) == self@ && literal.len() > 0
                    && is_comparable(literal, ignores_case) && is_comparable(text@, ignores_case)
                    ==> {
                    &&& r@.len() > 0 <==> holds_literal(text@, literal, ignores_case)
                    &&& forall|i: int|
                        0 <= i < r@.len() ==> covers_literal(
                            text@,
                            #[trigger] r@[i],
                            literal,
                            ignores_case,
                        )
                    &&& meets_all_places(text@, r@, literal, ignores_case)
                },
    {
        self.regex.find_iter(text).map(|found| found.range()).collect()
    }
}

} // verus!
