use vstd::prelude::*;

verus! {

#[verifier::external_type_specification]
#[verifier::external_body]
pub struct ExRegex(regex::Regex);

#[verifier::external_type_specification]
#[verifier::external_body]
pub struct ExRegexError(regex::Error);

/// Whether the regular expression `pattern` finds a match anywhere in `text`.
pub uninterp spec fn pattern_finds(pattern: Seq<char>, text: Seq<char>) -> bool;

/// Whether `pattern` compiles to a regular expression under the default
/// limits.
pub uninterp spec fn regex_compiles(pattern: Seq<char>) -> bool;

/// A compiled ignore pattern together with the text it was compiled from.
///
/// Only `compile_regex` builds one, so the compiled expression always
/// belongs to `source`.
pub struct IgnorePattern {
    regex: regex::Regex,
    source: String,
}

/// The text of an ignore pattern that does not compile.
pub struct PatternError {
    pub pattern: String,
}

/// Relies on regex::Regex::new: whether it succeeds depends on the text
/// alone, and on success the compiled expression is kept beside the text it
/// came from.
#[verifier::external_body]
fn compile_regex(source: String) -> (r: Result<IgnorePattern, regex::Error>)
    ensures
        r is Ok <==> regex_compiles(source@),
        r matches Ok(p) ==> p.source@ == source@,
{
    match regex::Regex::new(&source) {
        Ok(regex) => Ok(IgnorePattern { regex, source }),
        Err(e) => Err(e),
    }
}

/// Relies on regex::Regex::find: whether the expression finds a match
/// anywhere in `text`.
#[verifier::external_body]
fn regex_finds(p: &IgnorePattern, text: &str) -> (r: bool)
    ensures
        r == pattern_finds(p.source@, text@),
{
    p.regex.find(text).is_some()
}

impl View for IgnorePattern {
    type V = Seq<char>;

    closed spec fn view(&self) -> Seq<char> {
        self.source@
    }
}

impl IgnorePattern {
    /// Compiles `pattern`; a pattern that does not compile is reported with
    /// its text.
    pub fn new(pattern: &str) -> (r: Result<IgnorePattern, PatternError>)
        ensures
            r is Ok <==> regex_compiles(pattern@),
            r matches Ok(p) ==> p@ == pattern@,
            r matches Err(e) ==> e.pattern@ == pattern@,
    {
        let source = pattern.to_string();
        match compile_regex(source) {
            Ok(p) => Ok(p),
            Err(_) => Err(PatternError { pattern: pattern.to_string() }),
        }
    }

    /// Whether `name` is to be ignored: the pattern finds a match anywhere
    /// in it.
    pub fn is_ignored(&self, name: &str) -> (r: bool)
        ensures
            r == pattern_finds(self@, name@),
    {
        regex_finds(self, name)
    }
}

} // verus!
