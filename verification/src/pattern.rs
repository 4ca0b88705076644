//! Regular expressions and glob patterns.
//!
//! Regular expressions are compiled and run by the `regex` crate. This module
//! gives that crate's two entry points their contracts, over the set of texts
//! that an expression matches, and translates glob patterns into expressions.

use crate::text::{chars_of, string_of};
use regex::Regex;
use vstd::prelude::*;

verus! {

/// A compiled regular expression of the `regex` crate.
#[verifier::external_type_specification]
#[verifier::external_body]
pub struct ExRegex(regex::Regex);

/// The error that the `regex` crate gives for an expression it cannot compile.
#[verifier::external_type_specification]
#[verifier::external_body]
pub struct ExRegexError(regex::Error);

/// What a compiled expression holds: the texts in which it finds a match.
pub uninterp spec fn regex_language(re: regex::Regex) -> Set<Seq<char>>;

/// What `Regex::new` makes of the expression `pattern`: `None` where it does
/// not compile, and else the texts in which the compiled expression finds a
/// match.
pub uninterp spec fn pattern_language(pattern: Seq<char>) -> Option<Set<Seq<char>>>;

/// `Regex::new` compiles an expression with the crate's default options. It
/// fails exactly on the expressions for which `pattern_language` is `None`, and
/// the expression it returns matches the texts of `pattern_language`.
pub assume_specification[ regex::Regex::new ](re: &str) -> (r: Result<regex::Regex, regex::Error>)
    ensures
        match r {
            Ok(compiled) => pattern_language(re@) == Some(regex_language(compiled)),
            Err(_) => pattern_language(re@) is None,
        },
;

/// `Regex::is_match` tells whether the expression finds a match anywhere in
/// `haystack`.
pub assume_specification[ regex::Regex::is_match ](re: &regex::Regex, haystack: &str) -> (b: bool)
    ensures
        b == regex_language(*re).contains(haystack@),
;

/// Whether the expression `pattern` compiles and finds a match in `text`.
pub open spec fn pattern_accepts(pattern: Seq<char>, text: Seq<char>) -> bool {
    match pattern_language(pattern) {
        Some(language) => language.contains(text),
        None => false,
    }
}

/// The regular expression for one character of a glob pattern: `*` stands for
/// any run of characters, `?` for one character, and `.` for itself.
pub open spec fn glob_char_regex(c: char) -> Seq<char> {
    if c == '.' {
        seq!['\\', '.']
    } else if c == '*' {
        seq!['.', '*']
    } else if c == '?' {
        seq!['.']
    } else {
        seq![c]
    }
}

/// The regular expression for the characters of a glob pattern, one after
/// another.
pub open spec fn glob_body(glob: Seq<char>) -> Seq<char>
    decreases glob.len(),
{
    if glob.len() == 0 {
        Seq::empty()
    } else {
        glob_body(glob.drop_last()) + glob_char_regex(glob.last())
    }
}

/// The regular expression that a glob pattern is translated to. It is anchored
/// at both ends, so that it matches whole texts only.
pub open spec fn glob_regex(glob: Seq<char>) -> Seq<char> {
    seq!['^'] + glob_body(glob) + seq!['$']
}

/// Whether the glob pattern `glob` matches the whole of `text`. A glob whose
/// translation does not compile matches nothing.
pub open spec fn glob_matches(glob: Seq<char>, text: Seq<char>) -> bool {
    pattern_accepts(glob_regex(glob), text)
}

/// Translates a glob pattern into an anchored regular expression.
pub fn glob_to_regex(glob: &str) -> (r: String)
    ensures
        r@ == glob_regex(glob@),
{
    let g = chars_of(glob);
    let mut out: Vec<char> = Vec::new();
    out.push('^');
    let mut i: usize = 0;
    while i < g.len()
        invariant
            i <= g.len(),
            out@ == seq!['^'] + glob_body(g@.take(i as int)),
        decreases g.len() - i,
    {
        let c = g[i];
        proof {
            assert(g@.take(i + 1).drop_last() =~= g@.take(i as int));
            assert(g@.take(i + 1).last() == c);
        }
        let ghost before = out@;
        if c == '.' {
            out.push('\\');
            out.push('.');
        } else if c == '*' {
            out.push('.');
            out.push('*');
        } else if c == '?' {
            out.push('.');
        } else {
            out.push(c);
        }
        assert(out@ =~= before + glob_char_regex(c));
        assert(out@ =~= seq!['^'] + glob_body(g@.take(i + 1)));
        i += 1;
    }
    assert(g@.take(g@.len() as int) =~= g@);
    out.push('$');
    assert(out@ =~= glob_regex(glob@));
    string_of(&out)
}

/// Whether the expression `pattern` compiles and finds a match in `text`.
pub fn pattern_is_match(pattern: &str, text: &str) -> (b: bool)
    ensures
        b == pattern_accepts(pattern@, text@),
{
    match Regex::new(pattern) {
        Ok(re) => re.is_match(text),
        Err(_) => false,
    }
}

/// Whether the glob pattern matches the whole of `text`: `*` matches any run of
/// characters, `?` one character, every other character itself.
pub fn glob_match(pattern: &str, text: &str) -> (b: bool)
    ensures
        b == glob_matches(pattern@, text@),
{
    let source = glob_to_regex(pattern);
    pattern_is_match(source.as_str(), text)
}

} // verus!
