//! The JSONPath expressions that the engine evaluates.
//!
//! Expressions are evaluated by the `jsonpath_lib` crate, which stops the
//! program on a few forms. Outside a filter it is a slice whose step is zero.
//! Inside a filter it is a list of quoted keys, a slice or a union; an index
//! behind a path, which on some documents takes away the term that a
//! comparison then misses; a path from the root with a literal on its right;
//! and a number that is not finite.
//!
//! This module reads the characters of an expression as the crate's tokenizer
//! does. It accepts the filters of the form that `filter_end` describes, of
//! which none holds such a form, and refuses every other filter; it refuses a
//! slice whose step holds no digit but `0`. Every other expression is
//! evaluated.

use crate::text::{chars_of, is_white_space};
use vstd::prelude::*;

verus! {

/// Whether the tokenizer takes `c` as a token of its own.
pub open spec fn is_special(c: char) -> bool {
    c == '.' || c == '*' || c == '[' || c == ']' || c == '(' || c == ')' || c == '@' || c == '?'
        || c == ',' || c == ':' || c == '<' || c == '>' || c == '=' || c == '&' || c == '|' || c
        == '!'
}

/// Whether `c` is a character that only a filter holds outside quotes.
pub open spec fn is_filter_only(c: char) -> bool {
    c == '(' || c == ')' || c == '@' || c == '?' || c == '<' || c == '>' || c == '=' || c == '&'
        || c == '|' || c == '!'
}

/// Whether `c` opens and closes a quoted text.
pub open spec fn is_quote(c: char) -> bool {
    c == '\'' || c == '"'
}

/// Whether `c` is a decimal digit.
pub open spec fn is_digit(c: char) -> bool {
    '0' <= c && c <= '9'
}

/// Whether `c` can stand in a name inside a filter: it is no token of its own,
/// no white space, no quote, no `$` and no `\`.
pub open spec fn is_plain(c: char) -> bool {
    !is_special(c) && !is_white_space(c) && !is_quote(c) && c != '$' && c != '\\'
}

/// A class of characters of which an expression holds runs.
#[derive(Debug, Clone, Copy, PartialEq, Eq, Structural)]
pub enum CharRun {
    /// White space.
    Space,
    /// The characters of a name inside a filter.
    Plain,
    /// Decimal digits.
    Digits,
    /// The characters that the tokenizer joins to one key.
    Token,
}

impl CharRun {
    /// Whether `c` belongs to the class.
    pub open spec fn spec_holds(self, c: char) -> bool {
        match self {
            CharRun::Space => is_white_space(c),
            CharRun::Plain => is_plain(c),
            CharRun::Digits => is_digit(c),
            CharRun::Token => !is_special(c) && !is_white_space(c),
        }
    }

    /// Whether `c` belongs to the class.
    #[verifier::when_used_as_spec(spec_holds)]
    pub fn holds(self, c: char) -> (b: bool)
        ensures
            b == self.spec_holds(c),
    {
        let special = c == '.' || c == '*' || c == '[' || c == ']' || c == '(' || c == ')' || c
            == '@' || c == '?' || c == ',' || c == ':' || c == '<' || c == '>' || c == '=' || c
            == '&' || c == '|' || c == '!';
        match self {
            CharRun::Space => c.is_whitespace(),
            CharRun::Plain => !special && !c.is_whitespace() && c != '\'' && c != '"' && c != '$'
                && c != '\\',
            CharRun::Digits => '0' <= c && c <= '9',
            CharRun::Token => !special && !c.is_whitespace(),
        }
    }
}

/// The end of the run of characters of `run` that begins at position `i`.
pub open spec fn run_end(p: Seq<char>, i: int, run: CharRun) -> int
    decreases p.len() - i,
{
    if 0 <= i < p.len() && run.spec_holds(p[i]) {
        run_end(p, i + 1, run)
    } else {
        i
    }
}

/// The position after the quoted text that begins at position `i`, behind its
/// opening quote `q`. There is none where the text holds `\` or is not closed.
pub open spec fn quote_end(p: Seq<char>, i: int, q: char) -> Option<int>
    decreases p.len() - i,
{
    if i < 0 || i >= p.len() || p[i] == '\\' {
        None
    } else if p[i] == q {
        Some(i + 1)
    } else {
        quote_end(p, i + 1, q)
    }
}

/// The position of `c` behind the white space that begins at position `i`,
/// where `c` stands there.
pub open spec fn closing(p: Seq<char>, i: int, c: char) -> Option<int> {
    let at = run_end(p, i, CharRun::Space);
    if 0 <= at < p.len() && p[at] == c {
        Some(at)
    } else {
        None
    }
}

/// The position after the step `['name']` that begins at position `i`: `[`,
/// one quoted text and `]`, with white space or none around the text.
pub open spec fn quoted_step_end(p: Seq<char>, i: int) -> Option<int> {
    let open = run_end(p, i + 1, CharRun::Space);
    if 0 <= i < open && open < p.len() && p[i] == '[' && is_quote(p[open]) {
        match quote_end(p, open + 1, p[open]) {
            Some(after) => match closing(p, after, ']') {
                Some(close) => Some(close + 1),
                None => None,
            },
            None => None,
        }
    } else {
        None
    }
}

/// The end of the steps of a path in a filter, which begin at position `i`.
/// A step is `.name` or `['name']`. There is none where a `.` is followed by
/// no name, or a `[` by anything but one quoted text and `]`.
pub open spec fn names_end(p: Seq<char>, i: int) -> Option<int>
    decreases p.len() - i,
{
    let end = run_end(p, i + 1, CharRun::Plain);
    if 0 <= i < p.len() && p[i] == '.' {
        if i + 1 < end <= p.len() {
            names_end(p, end)
        } else {
            None
        }
    } else if 0 <= i < p.len() && p[i] == '[' {
        match quoted_step_end(p, i) {
            Some(after) => if i < after <= p.len() {
                names_end(p, after)
            } else {
                None
            },
            None => None,
        }
    } else {
        Some(i)
    }
}

/// The end of the comparison operator at position `i`: `==`, `!=`, `<=`, `>=`,
/// `<` or `>`.
pub open spec fn op_end(p: Seq<char>, i: int) -> Option<int> {
    if i < 0 || i >= p.len() {
        None
    } else if p[i] == '=' || p[i] == '!' {
        if i + 1 < p.len() && p[i + 1] == '=' {
            Some(i + 2)
        } else {
            None
        }
    } else if p[i] == '<' || p[i] == '>' {
        if i + 1 < p.len() && p[i + 1] == '=' {
            Some(i + 2)
        } else {
            Some(i + 1)
        }
    } else {
        None
    }
}

/// The end of the number at position `i`: an optional `-`, one to fifteen
/// digits and, optionally, `.` and one to fifteen digits.
pub open spec fn number_end(p: Seq<char>, i: int) -> Option<int> {
    let start = if 0 <= i < p.len() && p[i] == '-' {
        i + 1
    } else {
        i
    };
    let whole = run_end(p, start, CharRun::Digits);
    if whole == start || whole - start > 15 {
        None
    } else if whole < p.len() && p[whole] == '.' {
        let fraction = run_end(p, whole + 1, CharRun::Digits);
        if fraction == whole + 1 || fraction - (whole + 1) > 15 {
            None
        } else {
            Some(fraction)
        }
    } else {
        Some(whole)
    }
}

/// The end of the word `true` or `false` at position `i`.
pub open spec fn word_end(p: Seq<char>, i: int) -> Option<int> {
    if 0 <= i && i + 4 <= p.len() && p[i] == 't' && p[i + 1] == 'r' && p[i + 2] == 'u' && p[i + 3]
        == 'e' {
        Some(i + 4)
    } else if 0 <= i && i + 5 <= p.len() && p[i] == 'f' && p[i + 1] == 'a' && p[i + 2] == 'l' && p[i
        + 3] == 's' && p[i + 4] == 'e' {
        Some(i + 5)
    } else {
        None
    }
}

/// The end of the literal at position `i`: a quoted text, `true`, `false` or a
/// number.
pub open spec fn literal_end(p: Seq<char>, i: int) -> Option<int> {
    if i < 0 || i >= p.len() {
        None
    } else if is_quote(p[i]) {
        quote_end(p, i + 1, p[i])
    } else if p[i] == 't' || p[i] == 'f' {
        word_end(p, i)
    } else {
        number_end(p, i)
    }
}

/// Whether a path begins at position `i`: a relative one with `@`, or one
/// from the root of the document with `$`.
pub open spec fn is_path_at(p: Seq<char>, i: int) -> bool {
    0 <= i < p.len() && (p[i] == '@' || p[i] == '$')
}

/// Whether a path from the root of the document begins at position `i`.
pub open spec fn is_rooted_at(p: Seq<char>, i: int) -> bool {
    0 <= i < p.len() && p[i] == '$'
}

/// The end of the term at position `i`: a path, which is `@` or `$` and any
/// number of steps, or a literal.
pub open spec fn term_end(p: Seq<char>, i: int) -> Option<int> {
    if is_path_at(p, i) {
        names_end(p, i + 1)
    } else {
        literal_end(p, i)
    }
}

/// The end of the comparison at position `i`: a term and, optionally, an
/// operator and a second term. A path from the root is compared, and on its
/// right stands a path.
pub open spec fn comparison_end(p: Seq<char>, i: int) -> Option<int> {
    match term_end(p, i) {
        Some(left) => match op_end(p, run_end(p, left, CharRun::Space)) {
            Some(after_op) => {
                let right = run_end(p, after_op, CharRun::Space);
                if is_rooted_at(p, i) && !is_path_at(p, right) {
                    None
                } else {
                    term_end(p, right)
                }
            },
            None => if is_rooted_at(p, i) {
                None
            } else {
                Some(left)
            },
        },
        None => None,
    }
}

/// Whether `p` holds `&&` or `||` at position `i`.
pub open spec fn joins_conditions(p: Seq<char>, i: int) -> bool {
    0 <= i && i + 1 < p.len() && ((p[i] == '&' && p[i + 1] == '&') || (p[i] == '|' && p[i + 1]
        == '|'))
}

/// The position of the `)` that ends the conditions of a filter, read from
/// position `i` on, where `depth` groups are open and `after_operand` tells
/// whether a comparison or a group has just ended. Where none has, a `(` opens
/// a group, and a comparison is read otherwise. Where one has, a `)` closes a
/// group or, where none is open, the filter; `&&` or `||` asks for another
/// comparison or group.
pub open spec fn conditions_end(p: Seq<char>, i: int, depth: nat, after_operand: bool) -> Option<
    int,
>
    decreases p.len() - i,
{
    let at = run_end(p, i, CharRun::Space);
    if !(0 <= i <= at < p.len()) {
        None
    } else if !after_operand {
        if p[at] == '(' {
            conditions_end(p, at + 1, depth + 1, false)
        } else {
            match comparison_end(p, at) {
                Some(end) => if at < end <= p.len() {
                    conditions_end(p, end, depth, true)
                } else {
                    None
                },
                None => None,
            }
        }
    } else if p[at] == ')' {
        if depth == 0 {
            Some(at)
        } else {
            conditions_end(p, at + 1, (depth - 1) as nat, true)
        }
    } else if joins_conditions(p, at) {
        conditions_end(p, at + 2, depth, false)
    } else {
        None
    }
}

/// The position after a filter of the accepted form, whose conditions begin
/// at position `i`, behind `[?(`. The conditions are comparisons with `&&` or
/// `||` between them, and groups of them in `(` and `)`. A comparison is
/// `term op term` or one term, and a term is a path or a literal. A path is
/// `@` or `$` and any number of steps `.name` or `['name']`. White space may
/// stand where the tokenizer skips it.
pub open spec fn filter_end(p: Seq<char>, i: int) -> Option<int> {
    match conditions_end(p, i, 0, false) {
        Some(close) => match closing(p, close + 1, ']') {
            Some(end) => Some(end + 1),
            None => None,
        },
        None => None,
    }
}

/// The position at which the conditions of a filter begin, where a filter
/// begins at position `i`: the expression holds `[`, white space or none,
/// and `?(` there.
pub open spec fn filter_start(p: Seq<char>, i: int) -> Option<int> {
    let at = run_end(p, i + 1, CharRun::Space);
    if 0 <= i < at && at + 1 < p.len() && p[i] == '[' && p[at] == '?' && p[at + 1] == '(' {
        Some(at + 2)
    } else {
        None
    }
}

/// Whether one of the characters of `p` from `from` up to `to` is a digit
/// other than `0`.
pub open spec fn has_nonzero_digit(p: Seq<char>, from: int, to: int) -> bool {
    exists|k: int| from <= k < to && 0 <= k < p.len() && '1' <= #[trigger] p[k] && p[k] <= '9'
}

/// Whether the step of a slice, which begins at position `i` behind the
/// second `:`, may be zero: there is a step, and it holds no digit other than
/// `0`.
pub open spec fn zero_step(p: Seq<char>, i: int) -> bool {
    let start = run_end(p, i, CharRun::Space);
    let end = run_end(p, start, CharRun::Token);
    end > start && !has_nonzero_digit(p, start, end)
}

/// How far the tokenizer is in a token.
#[derive(Debug, Clone, Copy, PartialEq, Eq, Structural)]
pub enum Lexing {
    /// Between two tokens.
    Boundary,
    /// Inside a key, in which a quote is a character like any other.
    InKey,
    /// Inside a quoted text that the given quote closes.
    InQuote(char),
}

/// Whether the expression `p` is accepted from position `i` on, where the
/// tokenizer is in the state `lexing`, `in_bracket` tells whether a `[` is
/// open, and `colons` is the number of `:` since that `[`, counted up to two.
pub open spec fn safe_from(p: Seq<char>, i: int, lexing: Lexing, in_bracket: bool, colons: nat) -> bool
    decreases p.len() - i,
{
    if i < 0 || i >= p.len() {
        !(lexing is InQuote)
    } else if p[i] == '\\' {
        false
    } else if lexing is InQuote {
        safe_from(
            p,
            i + 1,
            if p[i] == lexing->InQuote_0 {
                Lexing::Boundary
            } else {
                lexing
            },
            in_bracket,
            colons,
        )
    } else if is_quote(p[i]) {
        safe_from(
            p,
            i + 1,
            if lexing is InKey {
                Lexing::InKey
            } else {
                Lexing::InQuote(p[i])
            },
            in_bracket,
            colons,
        )
    } else if filter_start(p, i) is Some {
        match filter_end(p, filter_start(p, i)->Some_0) {
            Some(end) => safe_from(
                p,
                if end > i {
                    end
                } else {
                    i + 1
                },
                Lexing::Boundary,
                false,
                0,
            ),
            None => false,
        }
    } else if p[i] == '[' {
        safe_from(p, i + 1, Lexing::Boundary, true, 0)
    } else if p[i] == ']' {
        safe_from(p, i + 1, Lexing::Boundary, false, 0)
    } else if p[i] == ':' {
        if in_bracket && colons >= 1 && zero_step(p, i + 1) {
            false
        } else {
            safe_from(
                p,
                i + 1,
                Lexing::Boundary,
                in_bracket,
                if colons < 2 {
                    colons + 1
                } else {
                    colons
                },
            )
        }
    } else if is_filter_only(p[i]) {
        false
    } else if is_special(p[i]) || is_white_space(p[i]) {
        safe_from(p, i + 1, Lexing::Boundary, in_bracket, colons)
    } else {
        safe_from(p, i + 1, Lexing::InKey, in_bracket, colons)
    }
}

/// The JSONPath expressions that the engine evaluates. Refused are the
/// expressions that hold, outside quoted texts:
///
/// - a slice with a step that may be zero, `[from:to:0]`;
/// - `(`, `)`, `@`, `?`, `<`, `>`, `=`, `&`, `|` or `!` anywhere but in a
///   filter `[?(conditions)]`. Its conditions are comparisons with `&&` or `||`
///   between them, and groups of them in `(` and `)`. A comparison is
///   `term op term` or one term. A term is a path or a literal. A path is `@`
///   or `$` and any number of steps `.name` or `['name']`; one that begins
///   with `$` is compared, and with a path where it stands on the left. A
///   literal is a quoted text, `true`, `false` or a number of at most fifteen
///   digits before and after its point. The operator is `==`, `!=`, `<`, `<=`,
///   `>` or `>=`;
///
/// and the expressions that hold `\` or a quoted text that is not closed.
pub open spec fn path_is_safe(path: Seq<char>) -> bool {
    safe_from(path, 0, Lexing::Boundary, false, 0)
}

/// Whether an optional position of the program is the given optional
/// position.
pub open spec fn same_end(found: Option<usize>, end: Option<int>) -> bool {
    match (found, end) {
        (Some(a), Some(b)) => a == b,
        (None, None) => true,
        _ => false,
    }
}

/// The end of the run of characters of `run` that begins at position `i`.
fn skip_run(p: &Vec<char>, i: usize, run: CharRun) -> (end: usize)
    requires
        i <= p.len(),
    ensures
        end == run_end(p@, i as int, run),
        i <= end <= p.len(),
{
    let mut end: usize = i;
    while end < p.len() && run.holds(p[end])
        invariant
            i <= end <= p.len(),
            run_end(p@, i as int, run) == run_end(p@, end as int, run),
        decreases p.len() - end,
    {
        end += 1;
    }
    end
}

/// The position after the quoted text that begins at position `i`.
fn find_quote_end(p: &Vec<char>, i: usize, q: char) -> (end: Option<usize>)
    requires
        i <= p.len(),
    ensures
        same_end(end, quote_end(p@, i as int, q)),
        end matches Some(e) ==> i < e <= p.len(),
{
    let mut at: usize = i;
    while at < p.len()
        invariant
            i <= at <= p.len(),
            quote_end(p@, i as int, q) == quote_end(p@, at as int, q),
        decreases p.len() - at,
    {
        if p[at] == '\\' {
            return None;
        }
        if p[at] == q {
            return Some(at + 1);
        }
        at += 1;
    }
    None
}

/// The position of `c` behind the white space that begins at position `i`.
fn find_closing(p: &Vec<char>, i: usize, c: char) -> (at: Option<usize>)
    requires
        i <= p.len(),
    ensures
        same_end(at, closing(p@, i as int, c)),
        at matches Some(a) ==> i <= a < p.len(),
{
    let at = skip_run(p, i, CharRun::Space);
    if at < p.len() && p[at] == c {
        Some(at)
    } else {
        None
    }
}

/// The position after the step `['name']` that begins at position `i`.
fn match_quoted_step(p: &Vec<char>, i: usize) -> (end: Option<usize>)
    requires
        i < p.len(),
    ensures
        same_end(end, quoted_step_end(p@, i as int)),
        end matches Some(e) ==> i < e <= p.len(),
{
    if p[i] != '[' {
        return None;
    }
    let open = skip_run(p, i + 1, CharRun::Space);
    if open >= p.len() || !(p[open] == '\'' || p[open] == '"') {
        return None;
    }
    let after = match find_quote_end(p, open + 1, p[open]) {
        Some(after) => after,
        None => {
            return None;
        },
    };
    match find_closing(p, after, ']') {
        Some(close) => Some(close + 1),
        None => None,
    }
}

/// The end of the steps of a path in a filter, which begin at position `i`.
fn skip_names(p: &Vec<char>, i: usize) -> (end: Option<usize>)
    requires
        i <= p.len(),
    ensures
        same_end(end, names_end(p@, i as int)),
        end matches Some(e) ==> i <= e <= p.len(),
{
    let mut at: usize = i;
    while at < p.len() && (p[at] == '.' || p[at] == '[')
        invariant
            i <= at <= p.len(),
            names_end(p@, i as int) == names_end(p@, at as int),
        decreases p.len() - at,
    {
        if p[at] == '.' {
            let end = skip_run(p, at + 1, CharRun::Plain);
            if end == at + 1 {
                return None;
            }
            at = end;
        } else {
            match match_quoted_step(p, at) {
                Some(end) => {
                    at = end;
                },
                None => {
                    return None;
                },
            }
        }
    }
    Some(at)
}

/// The end of the comparison operator at position `i`.
fn match_op(p: &Vec<char>, i: usize) -> (end: Option<usize>)
    requires
        i <= p.len(),
    ensures
        same_end(end, op_end(p@, i as int)),
        end matches Some(e) ==> i < e <= p.len(),
{
    if i >= p.len() {
        return None;
    }
    let followed = p.len() - i > 1 && p[i + 1] == '=';
    if p[i] == '=' || p[i] == '!' {
        if followed {
            Some(i + 2)
        } else {
            None
        }
    } else if p[i] == '<' || p[i] == '>' {
        if followed {
            Some(i + 2)
        } else {
            Some(i + 1)
        }
    } else {
        None
    }
}

/// The end of the number at position `i`.
fn match_number(p: &Vec<char>, i: usize) -> (end: Option<usize>)
    requires
        i <= p.len(),
    ensures
        same_end(end, number_end(p@, i as int)),
        end matches Some(e) ==> i < e <= p.len(),
{
    let start = if i < p.len() && p[i] == '-' {
        i + 1
    } else {
        i
    };
    let whole = skip_run(p, start, CharRun::Digits);
    if whole == start || whole - start > 15 {
        return None;
    }
    if whole < p.len() && p[whole] == '.' {
        let fraction = skip_run(p, whole + 1, CharRun::Digits);
        if fraction == whole + 1 || fraction - (whole + 1) > 15 {
            None
        } else {
            Some(fraction)
        }
    } else {
        Some(whole)
    }
}

/// The end of the word `true` or `false` at position `i`.
fn match_word(p: &Vec<char>, i: usize) -> (end: Option<usize>)
    requires
        i <= p.len(),
    ensures
        same_end(end, word_end(p@, i as int)),
        end matches Some(e) ==> i < e <= p.len(),
{
    let left = p.len() - i;
    if left >= 4 && p[i] == 't' && p[i + 1] == 'r' && p[i + 2] == 'u' && p[i + 3] == 'e' {
        Some(i + 4)
    } else if left >= 5 && p[i] == 'f' && p[i + 1] == 'a' && p[i + 2] == 'l' && p[i + 3] == 's'
        && p[i + 4] == 'e' {
        Some(i + 5)
    } else {
        None
    }
}

/// The end of the literal at position `i`.
fn match_literal(p: &Vec<char>, i: usize) -> (end: Option<usize>)
    requires
        i <= p.len(),
    ensures
        same_end(end, literal_end(p@, i as int)),
        end matches Some(e) ==> i < e <= p.len(),
{
    if i >= p.len() {
        None
    } else if p[i] == '\'' || p[i] == '"' {
        find_quote_end(p, i + 1, p[i])
    } else if p[i] == 't' || p[i] == 'f' {
        match_word(p, i)
    } else {
        match_number(p, i)
    }
}

/// The end of the term at position `i`.
fn match_term(p: &Vec<char>, i: usize) -> (end: Option<usize>)
    requires
        i <= p.len(),
    ensures
        same_end(end, term_end(p@, i as int)),
        end matches Some(e) ==> i < e <= p.len(),
{
    if i < p.len() && (p[i] == '@' || p[i] == '$') {
        skip_names(p, i + 1)
    } else {
        match_literal(p, i)
    }
}

/// The end of the comparison at position `i`.
fn match_comparison(p: &Vec<char>, i: usize) -> (end: Option<usize>)
    requires
        i <= p.len(),
    ensures
        same_end(end, comparison_end(p@, i as int)),
        end matches Some(e) ==> i < e <= p.len(),
{
    let rooted = i < p.len() && p[i] == '$';
    let left = match match_term(p, i) {
        Some(left) => left,
        None => {
            return None;
        },
    };
    let op = skip_run(p, left, CharRun::Space);
    match match_op(p, op) {
        Some(after_op) => {
            let right = skip_run(p, after_op, CharRun::Space);
            if rooted && !(right < p.len() && (p[right] == '@' || p[right] == '$')) {
                None
            } else {
                match_term(p, right)
            }
        },
        None => if rooted {
            None
        } else {
            Some(left)
        },
    }
}

/// The position of the `)` that ends the conditions of a filter, which begin
/// at position `i`.
fn match_conditions(p: &Vec<char>, i: usize) -> (end: Option<usize>)
    requires
        i <= p.len(),
    ensures
        same_end(end, conditions_end(p@, i as int, 0, false)),
        end matches Some(e) ==> i <= e < p.len(),
{
    let mut from: usize = i;
    let mut depth: usize = 0;
    let mut after_operand = false;
    loop
        invariant
            i <= from <= p.len(),
            depth <= from - i,
            conditions_end(p@, i as int, 0, false) == conditions_end(
                p@,
                from as int,
                depth as nat,
                after_operand,
            ),
        decreases p.len() - from,
    {
        let at = skip_run(p, from, CharRun::Space);
        if at >= p.len() {
            return None;
        }
        if !after_operand {
            if p[at] == '(' {
                depth += 1;
                from = at + 1;
            } else {
                match match_comparison(p, at) {
                    Some(end) => {
                        from = end;
                        after_operand = true;
                    },
                    None => {
                        return None;
                    },
                }
            }
        } else if p[at] == ')' {
            if depth == 0 {
                return Some(at);
            }
            depth -= 1;
            from = at + 1;
        } else {
            let joined = p.len() - at > 1 && ((p[at] == '&' && p[at + 1] == '&') || (p[at] == '|'
                && p[at + 1] == '|'));
            if !joined {
                return None;
            }
            from = at + 2;
            after_operand = false;
        }
    }
}

/// The position after a filter of the accepted form whose conditions begin at
/// position `i`.
fn match_filter(p: &Vec<char>, i: usize) -> (end: Option<usize>)
    requires
        i <= p.len(),
    ensures
        same_end(end, filter_end(p@, i as int)),
        end matches Some(e) ==> i < e <= p.len(),
{
    let close = match match_conditions(p, i) {
        Some(close) => close,
        None => {
            return None;
        },
    };
    match find_closing(p, close + 1, ']') {
        Some(end) => Some(end + 1),
        None => None,
    }
}

/// The position at which the conditions of a filter begin, where a filter
/// begins at position `i`.
fn find_filter_start(p: &Vec<char>, i: usize) -> (start: Option<usize>)
    requires
        i < p.len(),
    ensures
        same_end(start, filter_start(p@, i as int)),
        start matches Some(s) ==> i < s <= p.len(),
{
    if p[i] != '[' {
        return None;
    }
    let at = skip_run(p, i + 1, CharRun::Space);
    if p.len() - at > 1 && p[at] == '?' && p[at + 1] == '(' {
        Some(at + 2)
    } else {
        None
    }
}

/// Whether the step of a slice that begins at position `i` may be zero.
fn is_zero_step(p: &Vec<char>, i: usize) -> (b: bool)
    requires
        i <= p.len(),
    ensures
        b == zero_step(p@, i as int),
{
    let start = skip_run(p, i, CharRun::Space);
    let end = skip_run(p, start, CharRun::Token);
    if end == start {
        return false;
    }
    let mut k: usize = start;
    while k < end
        invariant
            start <= k <= end <= p.len(),
            start < end,
            start == run_end(p@, i as int, CharRun::Space),
            end == run_end(p@, start as int, CharRun::Token),
            !has_nonzero_digit(p@, start as int, k as int),
        decreases end - k,
    {
        if '1' <= p[k] && p[k] <= '9' {
            assert(has_nonzero_digit(p@, start as int, end as int));
            return false;
        }
        assert forall|j: int|
            start <= j < k + 1 && 0 <= j < p@.len() implies !('1' <= #[trigger] p@[j] && p@[j]
            <= '9') by {
            if j < k {
                assert(!has_nonzero_digit(p@, start as int, k as int));
            }
        }
        k += 1;
    }
    true
}

/// Whether the engine evaluates the expression `path`.
pub fn is_safe_path(path: &str) -> (b: bool)
    ensures
        b == path_is_safe(path@),
{
    let p = chars_of(path);
    let mut i: usize = 0;
    let mut lexing = Lexing::Boundary;
    let mut in_bracket = false;
    let mut colons: u8 = 0;
    while i < p.len()
        invariant
            i <= p.len(),
            p@ == path@,
            colons <= 2,
            path_is_safe(path@) == safe_from(p@, i as int, lexing, in_bracket, colons as nat),
        decreases p.len() - i,
    {
        let c = p[i];
        if c == '\\' {
            return false;
        }
        let start = find_filter_start(&p, i);
        if let Lexing::InQuote(q) = lexing {
            if c == q {
                lexing = Lexing::Boundary;
            }
            i += 1;
        } else if c == '\'' || c == '"' {
            if !matches!(lexing, Lexing::InKey) {
                lexing = Lexing::InQuote(c);
            }
            i += 1;
        } else if let Some(start) = start {
            match match_filter(&p, start) {
                Some(end) => {
                    i = end;
                    lexing = Lexing::Boundary;
                    in_bracket = false;
                    colons = 0;
                },
                None => {
                    return false;
                },
            }
        } else if c == '[' {
            lexing = Lexing::Boundary;
            in_bracket = true;
            colons = 0;
            i += 1;
        } else if c == ']' {
            lexing = Lexing::Boundary;
            in_bracket = false;
            colons = 0;
            i += 1;
        } else if c == ':' {
            if in_bracket && colons >= 1 && is_zero_step(&p, i + 1) {
                return false;
            }
            lexing = Lexing::Boundary;
            if colons < 2 {
                colons += 1;
            }
            i += 1;
        } else if c == '(' || c == ')' || c == '@' || c == '?' || c == '<' || c == '>' || c == '='
            || c == '&' || c == '|' || c == '!' {
            return false;
        } else if c == '.' || c == '*' || c == ',' || c.is_whitespace() {
            lexing = Lexing::Boundary;
            i += 1;
        } else {
            lexing = Lexing::InKey;
            i += 1;
        }
    }
    !matches!(lexing, Lexing::InQuote(_))
}

} // verus!
