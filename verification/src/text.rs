//! Strings as sequences of characters.
//!
//! The contracts of this library speak of a string by its view, a `Seq<char>`.
//! The functions here are the string operations that the rule engine needs,
//! each with a spec function that says what it computes.

use vstd::prelude::*;

verus! {

/// Whether `c` is white space: one of the code points with the Unicode
/// property `White_Space`. These are U+0009 to U+000D, U+0020, U+0085, U+00A0,
/// U+1680, U+2000 to U+200A, U+2028, U+2029, U+202F, U+205F and U+3000.
pub open spec fn is_white_space(c: char) -> bool {
    let n = c as u32;
    ||| 0x09 <= n <= 0x0D
    ||| n == 0x20
    ||| n == 0x85
    ||| n == 0xA0
    ||| n == 0x1680
    ||| 0x2000 <= n <= 0x200A
    ||| n == 0x2028
    ||| n == 0x2029
    ||| n == 0x202F
    ||| n == 0x205F
    ||| n == 0x3000
}

/// `char::is_whitespace` tells whether a character has the Unicode property
/// `White_Space`.
pub assume_specification[ char::is_whitespace ](c: char) -> (b: bool)
    ensures
        b == is_white_space(c),
;

/// The lower-case form of a text, as `str::to_lowercase` gives it.
pub uninterp spec fn lowercase_of(s: Seq<char>) -> Seq<char>;

/// `str::to_lowercase` computes `lowercase_of`.
pub assume_specification[ str::to_lowercase ](s: &str) -> (r: String)
    ensures
        r@ == lowercase_of(s@),
;

/// The upper-case form of a text, as `str::to_uppercase` gives it.
pub uninterp spec fn uppercase_of(s: Seq<char>) -> Seq<char>;

/// `str::to_uppercase` computes `uppercase_of`.
pub assume_specification[ str::to_uppercase ](s: &str) -> (r: String)
    ensures
        r@ == uppercase_of(s@),
;

/// `String::push` appends one character.
pub assume_specification[ String::push ](s: &mut String, c: char)
    ensures
        final(s)@ == old(s)@.push(c),
;

/// A class of characters that can be stripped from the ends of a text.
#[derive(Debug, Clone, Copy, PartialEq, Eq, Structural)]
pub enum CharClass {
    /// White space, as `is_white_space` defines it.
    WhiteSpace,
    /// The double quote `"`.
    Quote,
    /// The slash `/`.
    Slash,
}

impl CharClass {
    /// Whether `c` belongs to the class.
    pub open spec fn spec_holds(self, c: char) -> bool {
        match self {
            CharClass::WhiteSpace => is_white_space(c),
            CharClass::Quote => c == '"',
            CharClass::Slash => c == '/',
        }
    }

    /// Whether `c` belongs to the class.
    #[verifier::when_used_as_spec(spec_holds)]
    pub fn holds(self, c: char) -> (b: bool)
        ensures
            b == self.spec_holds(c),
    {
        match self {
            CharClass::WhiteSpace => c.is_whitespace(),
            CharClass::Quote => c == '"',
            CharClass::Slash => c == '/',
        }
    }
}

/// `s` without its longest prefix of characters of `class`.
pub open spec fn strip_start(s: Seq<char>, class: CharClass) -> Seq<char>
    decreases s.len(),
{
    if s.len() > 0 && class.spec_holds(s[0]) {
        strip_start(s.drop_first(), class)
    } else {
        s
    }
}

/// `s` without its longest suffix of characters of `class`.
pub open spec fn strip_end(s: Seq<char>, class: CharClass) -> Seq<char>
    decreases s.len(),
{
    if s.len() > 0 && class.spec_holds(s.last()) {
        strip_end(s.drop_last(), class)
    } else {
        s
    }
}

/// `s` without the characters of `class` at its two ends.
pub open spec fn strip(s: Seq<char>, class: CharClass) -> Seq<char> {
    strip_end(strip_start(s, class), class)
}

/// `s` without leading and trailing white space.
pub open spec fn trimmed(s: Seq<char>) -> Seq<char> {
    strip(s, CharClass::WhiteSpace)
}

/// The longest prefix of `s` that holds no white space.
pub open spec fn leading_word(s: Seq<char>) -> Seq<char>
    decreases s.len(),
{
    if s.len() > 0 && !is_white_space(s[0]) {
        seq![s[0]] + leading_word(s.drop_first())
    } else {
        Seq::empty()
    }
}

/// The first run of characters of `s` that are not white space, or the empty
/// text where `s` has none.
pub open spec fn first_token(s: Seq<char>) -> Seq<char> {
    leading_word(strip_start(s, CharClass::WhiteSpace))
}

/// Whether `s` holds `pattern` at position `at`.
pub open spec fn occurs_at(s: Seq<char>, pattern: Seq<char>, at: int) -> bool {
    &&& 0 <= at
    &&& at + pattern.len() <= s.len()
    &&& s.subrange(at, at + pattern.len()) == pattern
}

/// `s` with every occurrence of `pattern` replaced by `value`, the occurrences
/// taken from left to right and not overlapping. An empty `pattern` occurs
/// nowhere.
pub open spec fn replace_all(s: Seq<char>, pattern: Seq<char>, value: Seq<char>) -> Seq<char>
    decreases s.len(),
{
    if pattern.len() == 0 || s.len() < pattern.len() {
        s
    } else if occurs_at(s, pattern, 0) {
        value + replace_all(s.skip(pattern.len() as int), pattern, value)
    } else {
        seq![s[0]] + replace_all(s.drop_first(), pattern, value)
    }
}

/// The decimal digit for `d`, for `d` below ten.
pub open spec fn digit_char(d: nat) -> char {
    if d == 0 {
        '0'
    } else if d == 1 {
        '1'
    } else if d == 2 {
        '2'
    } else if d == 3 {
        '3'
    } else if d == 4 {
        '4'
    } else if d == 5 {
        '5'
    } else if d == 6 {
        '6'
    } else if d == 7 {
        '7'
    } else if d == 8 {
        '8'
    } else {
        '9'
    }
}

/// `n` written in decimal, without leading zeros.
pub open spec fn decimal(n: nat) -> Seq<char>
    decreases n,
{
    if n < 10 {
        seq![digit_char(n)]
    } else {
        decimal(n / 10).push(digit_char(n % 10))
    }
}

/// The texts of `parts` in order, with `separator` between neighbours.
pub open spec fn join(parts: Seq<Seq<char>>, separator: Seq<char>) -> Seq<char>
    decreases parts.len(),
{
    if parts.len() == 0 {
        Seq::empty()
    } else if parts.len() == 1 {
        parts[0]
    } else {
        join(parts.drop_last(), separator) + separator + parts.last()
    }
}

/// The upper-case form of an ASCII letter; any other character is unchanged.
pub open spec fn ascii_upper_char(c: char) -> char {
    if 'a' <= c && c <= 'z' {
        ((c as u8) - 32) as char
    } else {
        c
    }
}

/// `s` with its ASCII letters in upper case.
pub open spec fn ascii_upper(s: Seq<char>) -> Seq<char> {
    Seq::new(s.len(), |i: int| ascii_upper_char(s[i]))
}

/// The views of the strings of `v`.
pub open spec fn views(v: Seq<String>) -> Seq<Seq<char>> {
    Seq::new(v.len(), |i: int| v[i]@)
}

/// The characters of `s`, in order.
pub fn chars_of(s: &str) -> (v: Vec<char>)
    ensures
        v@ == s@,
{
    let mut v: Vec<char> = Vec::new();
    for c in it: s.chars()
        invariant
            v@ == it.seq().take(it.index() as int),
            it.seq() == s@,
    {
        v.push(c);
    }
    v
}

/// The string made of the characters of `v`, in order.
pub fn string_of(v: &Vec<char>) -> (s: String)
    ensures
        s@ == v@,
{
    let mut s = String::new();
    let mut i: usize = 0;
    while i < v.len()
        invariant
            i <= v.len(),
            s@ == v@.take(i as int),
        decreases v.len() - i,
    {
        s.push(v[i]);
        i += 1;
    }
    s
}

/// Appends the characters of `s` to `out`.
pub fn push_str_chars(out: &mut Vec<char>, s: &str)
    ensures
        final(out)@ == old(out)@ + s@,
{
    for c in it: s.chars()
        invariant
            out@ == old(out)@ + it.seq().take(it.index() as int),
            it.seq() == s@,
    {
        out.push(c);
    }
}

/// Whether two texts hold the same characters.
pub fn same_text(a: &str, b: &str) -> (r: bool)
    ensures
        r == (a@ == b@),
{
    let x = chars_of(a);
    let y = chars_of(b);
    if x.len() != y.len() {
        return false;
    }
    let mut i: usize = 0;
    while i < x.len()
        invariant
            i <= x.len(),
            x.len() == y.len(),
            x@ == a@,
            y@ == b@,
            forall|j: int| 0 <= j < i ==> x@[j] == y@[j],
        decreases x.len() - i,
    {
        if x[i] != y[i] {
            return false;
        }
        i += 1;
    }
    assert(x@ =~= y@);
    true
}

/// Characters of the class at the start of a text can be skipped before the
/// start is stripped.
proof fn lemma_strip_start_skip(s: Seq<char>, class: CharClass, i: int)
    requires
        0 <= i <= s.len(),
        forall|j: int| 0 <= j < i ==> class.spec_holds(#[trigger] s[j]),
    ensures
        strip_start(s, class) == strip_start(s.skip(i), class),
    decreases i,
{
    if i > 0 {
        assert(s.drop_first().skip(i - 1) =~= s.skip(i));
        lemma_strip_start_skip(s.drop_first(), class, i - 1);
    } else {
        assert(s.skip(0) =~= s);
    }
}

/// Characters of the class at the end of a text can be dropped before the
/// end is stripped.
proof fn lemma_strip_end_take(s: Seq<char>, class: CharClass, n: int)
    requires
        0 <= n <= s.len(),
        forall|j: int| n <= j < s.len() ==> class.spec_holds(#[trigger] s[j]),
    ensures
        strip_end(s, class) == strip_end(s.take(n), class),
    decreases s.len() - n,
{
    if n < s.len() {
        assert(s.drop_last().take(n) =~= s.take(n));
        lemma_strip_end_take(s.drop_last(), class, n);
    } else {
        assert(s.take(n) =~= s);
    }
}

/// `s` without the characters of `class` at its two ends.
pub fn strip_chars(s: &str, class: CharClass) -> (r: String)
    ensures
        r@ == strip(s@, class),
{
    let v = chars_of(s);
    let mut start: usize = 0;
    while start < v.len() && class.holds(v[start])
        invariant
            start <= v.len(),
            forall|j: int| 0 <= j < start ==> class.spec_holds(#[trigger] v@[j]),
        decreases v.len() - start,
    {
        start += 1;
    }
    let mut end: usize = v.len();
    while end > start && class.holds(v[end - 1])
        invariant
            start <= end <= v.len(),
            forall|j: int| end <= j < v.len() ==> class.spec_holds(#[trigger] v@[j]),
        decreases end,
    {
        end -= 1;
    }
    let mut out: Vec<char> = Vec::new();
    let mut i: usize = start;
    while i < end
        invariant
            start <= i <= end <= v.len(),
            out@ == v@.subrange(start as int, i as int),
        decreases end - i,
    {
        out.push(v[i]);
        i += 1;
    }
    proof {
        let rest = v@.skip(start as int);
        lemma_strip_start_skip(v@, class, start as int);
        assert(strip_start(rest, class) == rest);
        let n = end - start;
        assert forall|j: int| n <= j < rest.len() implies class.spec_holds(#[trigger] rest[j]) by {
            assert(rest[j] == v@[j + start]);
        }
        lemma_strip_end_take(rest, class, n as int);
        assert(rest.take(n as int) =~= v@.subrange(start as int, end as int));
        let kept = rest.take(n as int);
        if n > 0 {
            assert(kept.last() == v@[end - 1]);
        }
        assert(strip_end(kept, class) == kept);
    }
    string_of(&out)
}

/// `s` without the characters of `class` at its start.
pub fn strip_start_chars(s: &str, class: CharClass) -> (r: String)
    ensures
        r@ == strip_start(s@, class),
{
    let v = chars_of(s);
    let mut start: usize = 0;
    while start < v.len() && class.holds(v[start])
        invariant
            start <= v.len(),
            forall|j: int| 0 <= j < start ==> class.spec_holds(#[trigger] v@[j]),
        decreases v.len() - start,
    {
        start += 1;
    }
    let mut out: Vec<char> = Vec::new();
    let mut i: usize = start;
    while i < v.len()
        invariant
            start <= i <= v.len(),
            out@ == v@.subrange(start as int, i as int),
        decreases v.len() - i,
    {
        out.push(v[i]);
        i += 1;
    }
    proof {
        let rest = v@.skip(start as int);
        lemma_strip_start_skip(v@, class, start as int);
        assert(strip_start(rest, class) == rest);
        assert(out@ =~= rest);
    }
    string_of(&out)
}

/// `s` without leading and trailing white space.
pub fn trim(s: &str) -> (r: String)
    ensures
        r@ == trimmed(s@),
{
    strip_chars(s, CharClass::WhiteSpace)
}

/// The leading word of a text is its prefix up to the first white space.
proof fn lemma_leading_word_prefix(s: Seq<char>, n: int)
    requires
        0 <= n <= s.len(),
        forall|j: int| 0 <= j < n ==> !is_white_space(#[trigger] s[j]),
        n == s.len() || is_white_space(s[n]),
    ensures
        leading_word(s) == s.take(n),
    decreases n,
{
    if n > 0 {
        let t = s.drop_first();
        assert forall|j: int| 0 <= j < n - 1 implies !is_white_space(#[trigger] t[j]) by {
            assert(t[j] == s[j + 1]);
        }
        lemma_leading_word_prefix(t, n - 1);
        assert(seq![s[0]] + t.take(n - 1) =~= s.take(n));
    } else {
        assert(s.take(0) =~= Seq::<char>::empty());
    }
}

/// The first run of characters of `s` that are not white space.
pub fn first_word(s: &str) -> (r: String)
    ensures
        r@ == first_token(s@),
{
    let v = chars_of(s);
    let mut start: usize = 0;
    while start < v.len() && v[start].is_whitespace()
        invariant
            start <= v.len(),
            forall|j: int| 0 <= j < start ==> is_white_space(#[trigger] v@[j]),
        decreases v.len() - start,
    {
        start += 1;
    }
    let mut out: Vec<char> = Vec::new();
    let mut i: usize = start;
    while i < v.len() && !v[i].is_whitespace()
        invariant
            start <= i <= v.len(),
            out@ == v@.subrange(start as int, i as int),
            forall|j: int| start <= j < i ==> !is_white_space(#[trigger] v@[j]),
        decreases v.len() - i,
    {
        out.push(v[i]);
        i += 1;
    }
    proof {
        let rest = v@.skip(start as int);
        lemma_strip_start_skip(v@, CharClass::WhiteSpace, start as int);
        assert(strip_start(rest, CharClass::WhiteSpace) == rest);
        let n = i - start;
        assert forall|j: int| 0 <= j < n implies !is_white_space(#[trigger] rest[j]) by {
            assert(rest[j] == v@[j + start]);
        }
        lemma_leading_word_prefix(rest, n as int);
        assert(rest.take(n as int) =~= v@.subrange(start as int, i as int));
    }
    string_of(&out)
}

/// Whether `v` holds `pattern` at position `at`.
fn holds_at(v: &Vec<char>, pattern: &Vec<char>, at: usize) -> (r: bool)
    requires
        at <= v.len(),
    ensures
        r == occurs_at(v@, pattern@, at as int),
{
    if pattern.len() > v.len() - at {
        return false;
    }
    let mut k: usize = 0;
    while k < pattern.len()
        invariant
            k <= pattern.len(),
            at + pattern.len() <= v.len(),
            forall|j: int| 0 <= j < k ==> v@[at + j] == pattern@[j],
        decreases pattern.len() - k,
    {
        if v[at + k] != pattern[k] {
            proof {
                let sub = v@.subrange(at as int, at + pattern.len());
                assert(sub[k as int] == v@[at + k]);
            }
            return false;
        }
        k += 1;
    }
    assert(v@.subrange(at as int, at + pattern.len()) =~= pattern@);
    true
}

/// Whether `s` begins with `prefix`.
pub fn starts_with_str(s: &str, prefix: &str) -> (b: bool)
    ensures
        b == occurs_at(s@, prefix@, 0),
{
    let v = chars_of(s);
    let p = chars_of(prefix);
    holds_at(&v, &p, 0)
}

/// Whether `s` holds `pattern` somewhere.
pub open spec fn contains_text(s: Seq<char>, pattern: Seq<char>) -> bool {
    exists|at: int| occurs_at(s, pattern, at)
}

/// Whether `s` holds `pattern` somewhere. The empty pattern is held by every
/// text.
pub fn contains_str(s: &str, pattern: &str) -> (b: bool)
    ensures
        b == contains_text(s@, pattern@),
{
    let v = chars_of(s);
    let p = chars_of(pattern);
    if p.len() > v.len() {
        return false;
    }
    let last = v.len() - p.len();
    let mut at: usize = 0;
    while at < last
        invariant
            at <= last,
            last == v.len() - p.len(),
            p.len() <= v.len(),
            v@ == s@,
            p@ == pattern@,
            forall|j: int| 0 <= j < at ==> !occurs_at(v@, p@, j),
        decreases last - at,
    {
        if holds_at(&v, &p, at) {
            return true;
        }
        at += 1;
    }
    holds_at(&v, &p, last)
}

/// `s` with every occurrence of `pattern` replaced by `value`.
pub fn substitute(s: &str, pattern: &str, value: &str) -> (r: String)
    ensures
        r@ == replace_all(s@, pattern@, value@),
{
    let v = chars_of(s);
    let p = chars_of(pattern);
    let w = chars_of(value);
    if p.len() == 0 {
        return string_of(&v);
    }
    let mut out: Vec<char> = Vec::new();
    let mut i: usize = 0;
    proof {
        assert(v@.skip(0) =~= v@);
        assert(out@ + replace_all(v@, p@, w@) =~= replace_all(v@, p@, w@));
    }
    while i < v.len()
        invariant
            i <= v.len(),
            p.len() > 0,
            p@ == pattern@,
            w@ == value@,
            out@ + replace_all(v@.skip(i as int), p@, w@) == replace_all(v@, p@, w@),
        decreases v.len() - i,
    {
        let ghost rest = v@.skip(i as int);
        if holds_at(&v, &p, i) {
            proof {
                assert(rest.subrange(0, p@.len() as int) =~= v@.subrange(
                    i as int,
                    i + p@.len(),
                ));
                assert(occurs_at(rest, p@, 0));
                assert(rest.skip(p@.len() as int) =~= v@.skip(i + p@.len()));
                assert((out@ + w@) + replace_all(v@.skip(i + p@.len()), p@, w@) =~= out@ + (w@
                    + replace_all(v@.skip(i + p@.len()), p@, w@)));
            }
            let mut k: usize = 0;
            let ghost before = out@;
            while k < w.len()
                invariant
                    k <= w.len(),
                    out@ == before + w@.take(k as int),
                decreases w.len() - k,
            {
                out.push(w[k]);
                k += 1;
            }
            assert(w@.take(w@.len() as int) =~= w@);
            i += p.len();
        } else {
            proof {
                if rest.len() >= p@.len() {
                    assert(rest.subrange(0, p@.len() as int) =~= v@.subrange(
                        i as int,
                        i + p@.len(),
                    ));
                    assert(!occurs_at(rest, p@, 0));
                    assert(rest.drop_first() =~= v@.skip(i + 1));
                    assert((out@.push(v@[i as int])) + replace_all(v@.skip(i + 1), p@, w@) =~= out@
                        + (seq![rest[0]] + replace_all(v@.skip(i + 1), p@, w@)));
                }
            }
            if v.len() - i < p.len() {
                // What is left is shorter than the pattern: it is copied as it is.
                let ghost before = out@;
                let start = i;
                while i < v.len()
                    invariant
                        start <= i <= v.len(),
                        out@ == before + v@.subrange(start as int, i as int),
                    decreases v.len() - i,
                {
                    out.push(v[i]);
                    i += 1;
                }
                proof {
                    assert(v@.subrange(start as int, v@.len() as int) =~= rest);
                    assert(v@.skip(v@.len() as int) =~= Seq::<char>::empty());
                    assert(replace_all(Seq::<char>::empty(), p@, w@) =~= Seq::<char>::empty());
                    assert(out@ + Seq::<char>::empty() =~= out@);
                }
            } else {
                out.push(v[i]);
                i += 1;
            }
        }
    }
    proof {
        assert(v@.skip(v@.len() as int) =~= Seq::<char>::empty());
        assert(out@ + Seq::<char>::empty() =~= out@);
    }
    string_of(&out)
}

/// The decimal digit for `d`.
fn digit_of(d: usize) -> (c: char)
    requires
        d < 10,
    ensures
        c == digit_char(d as nat),
{
    if d == 0 {
        '0'
    } else if d == 1 {
        '1'
    } else if d == 2 {
        '2'
    } else if d == 3 {
        '3'
    } else if d == 4 {
        '4'
    } else if d == 5 {
        '5'
    } else if d == 6 {
        '6'
    } else if d == 7 {
        '7'
    } else if d == 8 {
        '8'
    } else {
        '9'
    }
}

/// Appends the decimal form of `n` to `out`.
pub fn push_decimal(out: &mut Vec<char>, n: usize)
    ensures
        final(out)@ == old(out)@ + decimal(n as nat),
    decreases n,
{
    if n < 10 {
        out.push(digit_of(n));
        assert(old(out)@.push(digit_char(n as nat)) =~= old(out)@ + decimal(n as nat));
    } else {
        push_decimal(out, n / 10);
        out.push(digit_of(n % 10));
        assert((old(out)@ + decimal((n / 10) as nat)).push(digit_char((n % 10) as nat)) =~= old(
            out,
        )@ + decimal(n as nat));
    }
}

/// `n` written in decimal.
pub fn decimal_string(n: usize) -> (s: String)
    ensures
        s@ == decimal(n as nat),
{
    let mut out: Vec<char> = Vec::new();
    push_decimal(&mut out, n);
    assert(Seq::<char>::empty() + decimal(n as nat) =~= decimal(n as nat));
    string_of(&out)
}

/// The strings of `parts` in order, with `separator` between neighbours.
pub fn join_with(parts: &Vec<String>, separator: &str) -> (r: String)
    ensures
        r@ == join(views(parts@), separator@),
{
    let mut out: Vec<char> = Vec::new();
    let mut i: usize = 0;
    while i < parts.len()
        invariant
            i <= parts.len(),
            out@ == join(views(parts@).take(i as int), separator@),
        decreases parts.len() - i,
    {
        let ghost done = views(parts@).take(i as int);
        let ghost next = views(parts@).take(i + 1);
        proof {
            assert(next.drop_last() =~= done);
            assert(next.last() == parts@[i as int]@);
        }
        if i > 0 {
            push_str_chars(&mut out, separator);
        } else {
            assert(out@ =~= Seq::<char>::empty());
        }
        push_str_chars(&mut out, parts[i].as_str());
        proof {
            if i == 0 {
                assert(next.len() == 1);
                assert(Seq::<char>::empty() + parts@[0]@ =~= next[0]);
            }
        }
        i += 1;
    }
    assert(views(parts@).take(parts@.len() as int) =~= views(parts@));
    string_of(&out)
}

/// The upper-case form of an ASCII letter; any other character is unchanged.
pub fn to_ascii_upper(c: char) -> (r: char)
    ensures
        r == ascii_upper_char(c),
{
    if 'a' <= c && c <= 'z' {
        ((c as u8) - 32) as char
    } else {
        c
    }
}

/// Whether two texts are equal once their ASCII letters are put in upper case.
pub fn eq_ignore_ascii_case(a: &str, b: &str) -> (r: bool)
    ensures
        r == (ascii_upper(a@) == ascii_upper(b@)),
{
    let x = chars_of(a);
    let y = chars_of(b);
    if x.len() != y.len() {
        assert(ascii_upper(a@).len() != ascii_upper(b@).len());
        return false;
    }
    let mut i: usize = 0;
    while i < x.len()
        invariant
            i <= x.len(),
            x.len() == y.len(),
            x@ == a@,
            y@ == b@,
            forall|j: int| 0 <= j < i ==> ascii_upper_char(x@[j]) == ascii_upper_char(y@[j]),
        decreases x.len() - i,
    {
        if to_ascii_upper(x[i]) != to_ascii_upper(y[i]) {
            assert(ascii_upper(a@)[i as int] != ascii_upper(b@)[i as int]);
            return false;
        }
        i += 1;
    }
    assert(ascii_upper(a@) =~= ascii_upper(b@));
    true
}

/// The views of a list with one more string are the views of the list with
/// one more text.
pub proof fn lemma_views_push(list: Seq<String>, item: String)
    ensures
        views(list.push(item)) == views(list).push(item@),
{
    assert(views(list.push(item)) =~= views(list).push(item@));
}

/// A copy of a list of strings.
pub fn copy_strings(list: &Vec<String>) -> (copy: Vec<String>)
    ensures
        views(copy@) == views(list@),
{
    let mut copy: Vec<String> = Vec::new();
    let mut i: usize = 0;
    while i < list.len()
        invariant
            i <= list.len(),
            copy@.len() == i,
            forall|j: int| 0 <= j < i ==> (#[trigger] copy@[j])@ == list@[j]@,
        decreases list.len() - i,
    {
        copy.push(list[i].clone());
        i += 1;
    }
    assert(views(copy@) =~= views(list@));
    copy
}

/// The pieces of `s` between its commas, in order. A text without comma is one
/// piece, and so is the empty text.
pub open spec fn split_commas(s: Seq<char>) -> Seq<Seq<char>>
    decreases s.len(),
{
    if s.len() == 0 {
        seq![Seq::empty()]
    } else if s.last() == ',' {
        split_commas(s.drop_last()).push(Seq::empty())
    } else {
        split_commas(s.drop_last()).drop_last().push(
            split_commas(s.drop_last()).last().push(s.last()),
        )
    }
}

/// The pieces of `s` between its commas.
pub fn split_on_commas(s: &str) -> (pieces: Vec<String>)
    ensures
        views(pieces@) == split_commas(s@),
{
    let v = chars_of(s);
    let mut pieces: Vec<String> = Vec::new();
    let mut current: Vec<char> = Vec::new();
    let mut i: usize = 0;
    proof {
        assert(v@.take(0) =~= Seq::<char>::empty());
        assert(views(pieces@).push(current@) =~= seq![Seq::<char>::empty()]);
    }
    while i < v.len()
        invariant
            i <= v.len(),
            views(pieces@).push(current@) == split_commas(v@.take(i as int)),
        decreases v.len() - i,
    {
        let ghost before = split_commas(v@.take(i as int));
        proof {
            assert(v@.take(i + 1).drop_last() =~= v@.take(i as int));
            assert(v@.take(i + 1).last() == v@[i as int]);
            assert(before.drop_last() =~= views(pieces@));
            assert(before.last() == current@);
        }
        if v[i] == ',' {
            let piece = string_of(&current);
            proof {
                lemma_views_push(pieces@, piece);
            }
            pieces.push(piece);
            current = Vec::new();
        } else {
            current.push(v[i]);
        }
        i += 1;
    }
    assert(v@.take(v@.len() as int) =~= v@);
    let piece = string_of(&current);
    proof {
        lemma_views_push(pieces@, piece);
    }
    pieces.push(piece);
    pieces
}

/// The texts of `s` without repetitions: each text at the place of its first
/// occurrence.
pub open spec fn distinct(s: Seq<Seq<char>>) -> Seq<Seq<char>>
    decreases s.len(),
{
    if s.len() == 0 {
        Seq::empty()
    } else if distinct(s.drop_last()).contains(s.last()) {
        distinct(s.drop_last())
    } else {
        distinct(s.drop_last()).push(s.last())
    }
}

/// Every distinct text of a list is a text of the list.
proof fn lemma_distinct_sound(s: Seq<Seq<char>>, j: int) -> (k: int)
    requires
        0 <= j < distinct(s).len(),
    ensures
        0 <= k < s.len(),
        s[k] == distinct(s)[j],
    decreases s.len(),
{
    let before = distinct(s.drop_last());
    if j < before.len() {
        lemma_distinct_sound(s.drop_last(), j)
    } else {
        s.len() - 1
    }
}

/// Every text of a list is among its distinct texts.
proof fn lemma_distinct_complete(s: Seq<Seq<char>>, k: int) -> (j: int)
    requires
        0 <= k < s.len(),
    ensures
        0 <= j < distinct(s).len(),
        distinct(s)[j] == s[k],
    decreases s.len(),
{
    let before = distinct(s.drop_last());
    if k < s.len() - 1 {
        lemma_distinct_complete(s.drop_last(), k)
    } else if before.contains(s.last()) {
        choose|j: int| 0 <= j < before.len() && before[j] == s.last()
    } else {
        before.len() as int
    }
}

/// The distinct texts of a list hold no text twice, and hold the same texts as
/// the list.
pub proof fn lemma_distinct(s: Seq<Seq<char>>)
    ensures
        distinct(s).no_duplicates(),
        distinct(s).len() <= s.len(),
        distinct(s).to_set() == s.to_set(),
    decreases s.len(),
{
    if s.len() > 0 {
        lemma_distinct(s.drop_last());
    }
    assert forall|t: Seq<char>| distinct(s).to_set().contains(t) <==> s.to_set().contains(t) by {
        if distinct(s).contains(t) {
            let j = choose|j: int| 0 <= j < distinct(s).len() && distinct(s)[j] == t;
            let k = lemma_distinct_sound(s, j);
        }
        if s.contains(t) {
            let k = choose|k: int| 0 <= k < s.len() && s[k] == t;
            let j = lemma_distinct_complete(s, k);
        }
    }
    assert(distinct(s).to_set() =~= s.to_set());
}

} // verus!
