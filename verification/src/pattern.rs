use vstd::prelude::*;

verus! {

/// Whether the `regex` crate compiles `pattern` into a regular expression.
pub uninterp spec fn regex_compiles(pattern: Seq<char>) -> bool;

/// Whether the regular expression that the `regex` crate compiles from
/// `pattern` is found somewhere in `text`.
pub uninterp spec fn regex_is_match(pattern: Seq<char>, text: Seq<char>) -> bool;

/// Calls `regex::Regex::new` and says whether it returned a regular
/// expression. Trusted: the answer depends on the pattern alone, and is
/// what `regex_compiles` stands for.
#[verifier::external_body]
fn regex_accepts(pattern: &str) -> (accepted: bool)
    ensures
        accepted == regex_compiles(pattern@),
{
    regex::Regex::new(pattern).is_ok()
}

/// Calls `regex::Regex::is_match` on the regular expression compiled from
/// `pattern`. Trusted: the search is unanchored, its answer depends on the
/// pattern and the text alone, and is what `regex_is_match` stands for.
/// A pattern that does not compile is left out.
#[verifier::external_body]
fn regex_search(pattern: &str, text: &str) -> (found: bool)
    requires
        regex_compiles(pattern@),
    ensures
        found == regex_is_match(pattern@, text@),
{
    regex::Regex::new(pattern).unwrap().is_match(text)
}

/// The pattern `.*`, which every text matches.
pub open spec fn match_all_source() -> Seq<char> {
    seq!['.', '*']
}

/// Whether `pattern` can be searched for: it is `.*` or it compiles.
pub open spec fn pattern_valid(pattern: Seq<char>) -> bool {
    pattern == match_all_source() || regex_compiles(pattern)
}

/// Whether `pattern` is found somewhere in `text`. The pattern `.*` is
/// found in every text, the empty one too.
pub open spec fn pattern_accepts(pattern: Seq<char>, text: Seq<char>) -> bool {
    pattern == match_all_source() || regex_is_match(pattern, text)
}

/// Whether `source` is the pattern `.*`.
fn is_match_all(source: &str) -> (yes: bool)
    ensures
        yes == (source@ == match_all_source()),
{
    if source.unicode_len() != 2 {
        return false;
    }
    let first = source.get_char(0);
    let second = source.get_char(1);
    proof {
        if first == '.' && second == '*' {
            assert(source@ =~= match_all_source());
        }
    }
    first == '.' && second == '*'
}

/// A regular expression that can be searched for, held as its source text.
///
/// The pattern `.*` is answered without a search, since every text matches
/// it; every other pattern is compiled and searched by the `regex` crate.
#[derive(Debug)]
pub struct Pattern {
    source: String,
}

impl View for Pattern {
    type V = Seq<char>;

    closed spec fn view(&self) -> Seq<char> {
        self.source@
    }
}

impl Pattern {
    #[verifier::type_invariant]
    spec fn searchable(self) -> bool {
        pattern_valid(self.source@)
    }

    /// The pattern with the source text `source`, if that can be searched
    /// for.
    pub fn new(source: &str) -> (pattern: Option<Pattern>)
        ensures
            pattern is Some == pattern_valid(source@),
            pattern matches Some(p) ==> p@ == source@,
    {
        if is_match_all(source) || regex_accepts(source) {
            Some(Pattern { source: source.to_owned() })
        } else {
            None
        }
    }

    /// The pattern `.*`.
    pub fn match_all() -> (pattern: Pattern)
        ensures
            pattern@ == match_all_source(),
    {
        proof {
            reveal_strlit(".*");
            assert(".*"@ =~= match_all_source());
        }
        Pattern { source: ".*".to_owned() }
    }

    /// The source text.
    pub fn as_str(&self) -> (source: &str)
        ensures
            source@ == self@,
    {
        self.source.as_str()
    }

    /// Whether the pattern is found somewhere in `text`.
    pub fn is_match(&self, text: &str) -> (found: bool)
        ensures
            found == pattern_accepts(self@, text@),
    {
        proof {
            use_type_invariant(self);
        }
        if is_match_all(self.source.as_str()) {
            true
        } else {
            regex_search(self.source.as_str(), text)
        }
    }
}

impl Clone for Pattern {
    fn clone(&self) -> (copy: Self)
        ensures
            copy@ == self@,
    {
        proof {
            use_type_invariant(self);
        }
        Pattern { source: self.source.clone() }
    }
}

} // verus!
