//! The compiled search pattern, backed by the `regex` crate.
use vstd::prelude::*;
use vstd::string::StringSliceAdditionalSpecFns;

verus! {

#[verifier::external_type_specification]
#[verifier::external_body]
pub struct ExRegex(regex::Regex);

#[verifier::external_type_specification]
#[verifier::external_body]
pub struct ExRegexError(regex::Error);

/// Whether `pattern` compiles as a regular expression, with case folding
/// when `case_insensitive` is set.
pub uninterp spec fn pattern_compiles(pattern: Seq<char>, case_insensitive: bool) -> bool;

/// Whether the regular expression `pattern` (case-folded when
/// `case_insensitive` is set) matches anywhere in `text`.
pub uninterp spec fn pattern_finds(pattern: Seq<char>, case_insensitive: bool, text: Seq<char>) -> bool;

/// The byte ranges of the successive non-overlapping occurrences of the
/// regular expression `pattern` in `text`, left to right.
pub uninterp spec fn pattern_spans(pattern: Seq<char>, case_insensitive: bool, text: Seq<char>) -> Seq<(usize, usize)>;

/// Relies on regex::RegexBuilder (new, case_insensitive, build): the pattern is
/// compiled, and the build fails exactly when it is not a valid expression.
#[verifier::external_body]
fn build_regex(pattern: &str, case_insensitive: bool) -> (r: Result<regex::Regex, regex::Error>)
    ensures
        r is Ok <==> pattern_compiles(pattern@, case_insensitive),
{
    regex::RegexBuilder::new(pattern).case_insensitive(case_insensitive).build()
}

/// A compiled pattern, together with the text and case mode it came from.
pub struct Matcher {
    regex: regex::Regex,
    pattern: Ghost<Seq<char>>,
    case_insensitive: Ghost<bool>,
}

/// Relies on regex::Regex::is_match: true exactly when the compiled pattern
/// matches somewhere in `text`.
#[verifier::external_body]
fn regex_is_match(m: &Matcher, text: &str) -> (r: bool)
    ensures
        r == pattern_finds(m.pattern(), m.case_insensitive(), text@),
{
    m.regex.is_match(text)
}

/// Relies on regex::Regex::find_iter with Match::start and Match::end: the
/// successive non-overlapping matches, as byte ranges of `text`.
#[verifier::external_body]
fn regex_find_spans(m: &Matcher, text: &str) -> (r: Vec<(usize, usize)>)
    ensures
        r@ == pattern_spans(m.pattern(), m.case_insensitive(), text@),
        forall|k: int| 0 <= k < r@.len() ==> #[trigger] r@[k].0 <= r@[k].1 <= text.spec_bytes().len(),
        forall|k: int| 0 <= k < r@.len() - 1 ==> #[trigger] r@[k].1 <= r@[k + 1].0,
{
    m.regex.find_iter(text).map(|f| (f.start(), f.end())).collect()
}

impl Matcher {
    /// The pattern text this matcher was compiled from.
    pub closed spec fn pattern(&self) -> Seq<char> {
        self.pattern@
    }

    /// Whether this matcher ignores case.
    pub closed spec fn case_insensitive(&self) -> bool {
        self.case_insensitive@
    }

    /// Compiles `pattern`; fails with the regex engine's error exactly when the
    /// pattern is not a valid expression.
    pub fn new(pattern: &str, case_insensitive: bool) -> (r: Result<Matcher, regex::Error>)
        ensures
            r is Ok <==> pattern_compiles(pattern@, case_insensitive),
            r matches Ok(m) ==> m.pattern() == pattern@ && m.case_insensitive() == case_insensitive,
    {
        match build_regex(pattern, case_insensitive) {
            Ok(regex) => Ok(
                Matcher { regex, pattern: Ghost(pattern@), case_insensitive: Ghost(case_insensitive) },
            ),
            Err(e) => Err(e),
        }
    }

    /// Whether the pattern matches anywhere in `text`.
    pub fn is_match(&self, text: &str) -> (r: bool)
        ensures
            r == pattern_finds(self.pattern(), self.case_insensitive(), text@),
    {
        regex_is_match(self, text)
    }

    /// The byte ranges of every occurrence of the pattern in `text`, in
    /// order and without overlap.
    pub fn find_spans(&self, text: &str) -> (r: Vec<(usize, usize)>)
        ensures
            r@ == pattern_spans(self.pattern(), self.case_insensitive(), text@),
            forall|k: int| 0 <= k < r@.len() ==> #[trigger] r@[k].0 <= r@[k].1 <= text.spec_bytes().len(),
            forall|k: int| 0 <= k < r@.len() - 1 ==> #[trigger] r@[k].1 <= r@[k + 1].0,
    {
        regex_find_spans(self, text)
    }
}

} // verus!
