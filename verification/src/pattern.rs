//! Regular expressions, as the `regex` crate compiles and matches them.

use vstd::prelude::*;
use vstd::string::*;
use vstd::utf8::*;

verus! {

/// A compiled regular expression of the `regex` crate.
#[verifier::external_type_specification]
#[verifier::external_body]
pub struct ExRegex(regex::Regex);

/// A compiled pattern with the text it was compiled from. Only
/// [`Pattern::compile`] makes one.
pub struct Pattern {
    text: String,
    regex: regex::Regex,
}

impl View for Pattern {
    type V = Seq<char>;

    /// The text that the pattern was compiled from.
    closed spec fn view(&self) -> Seq<char> {
        self.text@
    }
}

/// Why `regex::Regex::new` does not compile a pattern, if it does not: the text
/// of its error. Beside the syntax, the size of what is compiled counts, and
/// that depends on the width of a machine word.
pub uninterp spec fn regex_error(pattern: Seq<char>, word_bits: nat) -> Option<Seq<char>>;

/// The text of the first match of a pattern, as `regex::Regex::find` finds it.
pub uninterp spec fn first_match(pattern: Seq<char>, text: Seq<char>) -> Option<Seq<char>>;

/// The byte ranges of the successive matches of a pattern, as
/// `regex::Regex::find_iter` yields them.
pub uninterp spec fn all_matches(pattern: Seq<char>, text: Seq<char>) -> Seq<(usize, usize)>;

/// Why this machine does not compile a pattern, if it does not.
pub open spec fn error_in(pattern: Seq<char>) -> Option<Seq<char>> {
    regex_error(pattern, usize::BITS as nat)
}

/// Whether `part` stands somewhere in `text`.
pub open spec fn quotes(text: Seq<char>, part: Seq<char>) -> bool {
    exists|from: int, to: int|
        0 <= from <= to <= text.len() && part == #[trigger] text.subrange(from, to)
}

/// Whether a byte range can be cut out of a text: it lies inside, and both its
/// ends fall between characters.
pub open spec fn is_range_of(text: Seq<char>, range: (usize, usize)) -> bool {
    &&& range.0 <= range.1 <= encode_utf8(text).len()
    &&& is_char_boundary(encode_utf8(text), range.0 as int)
    &&& is_char_boundary(encode_utf8(text), range.1 as int)
}

/// Whether ranges come one behind the other: none begins before an earlier one
/// has ended.
pub open spec fn successive(ranges: Seq<(usize, usize)>) -> bool {
    forall|i: int, j: int|
        0 <= i < j < ranges.len() ==> (#[trigger] ranges[i]).1 <= (#[trigger] ranges[j]).0
}

impl Pattern {
    /// Compiles a pattern with `regex::Regex::new`. Where that fails, the error
    /// is turned into its text by its `Display` impl.
    #[verifier::external_body]
    pub(crate) fn compile(text: &str) -> (r: Result<Pattern, String>)
        ensures
            match r {
                Ok(pattern) => regex_error(text@, usize::BITS as nat) is None && pattern@ == text@,
                Err(why) => regex_error(text@, usize::BITS as nat) == Some(why@),
            },
    {
        match regex::Regex::new(text) {
            Ok(regex) => Ok(Pattern { text: text.to_string(), regex }),
            Err(e) => Err(e.to_string()),
        }
    }

    /// Asks `regex::Regex::is_match` whether the pattern matches anywhere in the
    /// text, which is when there is a first match.
    #[verifier::external_body]
    pub(crate) fn is_match(&self, text: &str) -> (r: bool)
        ensures
            r == (first_match(self@, text@) is Some),
    {
        self.regex.is_match(text)
    }

    /// The text of the first match, found by `regex::Regex::find`. It is a part
    /// of what was searched.
    #[verifier::external_body]
    pub(crate) fn find(&self, text: &str) -> (r: Option<String>)
        ensures
            match r {
                Some(found) => first_match(self@, text@) == Some(found@) && quotes(text@, found@),
                None => first_match(self@, text@) is None,
            },
    {
        self.regex.find(text).map(|m| m.as_str().to_string())
    }

    /// The byte ranges of the matches, in the order in which
    /// `regex::Regex::find_iter` yields them: successive and without overlap. Each
    /// can be cut out of what was searched.
    #[verifier::external_body]
    pub(crate) fn find_iter(&self, text: &str) -> (r: Vec<(usize, usize)>)
        ensures
            r@ == all_matches(self@, text@),
            successive(r@),
            forall|i: int| 0 <= i < r@.len() ==> is_range_of(text@, #[trigger] r@[i]),
    {
        self.regex.find_iter(text).map(|m| (m.start(), m.end())).collect()
    }
}

} // verus!
