//! Character-level building blocks: decimal and hexadecimal rendering,
//! joining, substring search and replacement, and the std text functions
//! that the formatting code relies on.
use vstd::prelude::*;

verus! {

// ---------------------------------------------------------------------------
// std text functions
// ---------------------------------------------------------------------------

/// Appends one character to a string (std's `String::push`).
#[verifier::external_body]
pub(crate) fn push_char(s: &mut String, c: char)
    ensures
        final(s)@ == old(s)@.push(c),
{
    s.push(c);
}

/// What std's `str::to_uppercase` returns for a text (Unicode upper-case
/// mapping, which may change the length of the text).
pub uninterp spec fn uppercase_of(s: Seq<char>) -> Seq<char>;

/// std's `str::to_uppercase`: the Unicode upper-case mapping of the text.
/// The contract only names the result; the mapping itself is std's.
#[verifier::external_body]
pub(crate) fn to_upper(s: &str) -> (r: String)
    ensures
        r@ == uppercase_of(s@),
{
    s.to_uppercase()
}

/// A character with Unicode's `White_Space` property, as
/// `char::is_whitespace` tests it.
pub open spec fn is_white_space(c: char) -> bool {
    ||| ('\t' <= c && c <= '\r')
    ||| c == ' '
    ||| c == '\u{85}'
    ||| c == '\u{a0}'
    ||| c == '\u{1680}'
    ||| ('\u{2000}' <= c && c <= '\u{200a}')
    ||| c == '\u{2028}'
    ||| c == '\u{2029}'
    ||| c == '\u{202f}'
    ||| c == '\u{205f}'
    ||| c == '\u{3000}'
}

/// The text without the white space at its start.
pub open spec fn trim_start_ws(s: Seq<char>) -> Seq<char>
    decreases s.len(),
{
    if s.len() > 0 && is_white_space(s[0]) {
        trim_start_ws(s.skip(1))
    } else {
        s
    }
}

/// The text without the white space at its end.
pub open spec fn trim_end_ws(s: Seq<char>) -> Seq<char>
    decreases s.len(),
{
    if s.len() > 0 && is_white_space(s.last()) {
        trim_end_ws(s.drop_last())
    } else {
        s
    }
}

/// `str::trim`: the text without the white space at either end.
pub open spec fn trimmed(s: Seq<char>) -> Seq<char> {
    trim_end_ws(trim_start_ws(s))
}

fn is_white_space_exec(c: char) -> (r: bool)
    ensures
        r == is_white_space(c),
{
    ('\t' <= c && c <= '\r') || c == ' ' || c == '\u{85}' || c == '\u{a0}' || c == '\u{1680}'
        || ('\u{2000}' <= c && c <= '\u{200a}') || c == '\u{2028}' || c == '\u{2029}'
        || c == '\u{202f}' || c == '\u{205f}' || c == '\u{3000}'
}

/// `s.trim()`, as an owned string.
pub(crate) fn trim_text(s: &str) -> (r: String)
    ensures
        r@ == trimmed(s@),
{
    let cs = chars_of(s);
    let mut i: usize = 0;
    assert(cs@.skip(0) =~= cs@);
    while i < cs.len() && is_white_space_exec(cs[i])
        invariant
            cs@ == s@,
            i <= cs@.len(),
            trim_start_ws(cs@.skip(i as int)) == trim_start_ws(s@),
        decreases cs.len() - i,
    {
        assert(cs@.skip(i as int).skip(1) =~= cs@.skip(i + 1));
        i += 1;
    }
    let mut j: usize = cs.len();
    assert(cs@.subrange(i as int, j as int) =~= cs@.skip(i as int));
    while j > i && is_white_space_exec(cs[j - 1])
        invariant
            cs@ == s@,
            i <= j <= cs@.len(),
            trim_end_ws(cs@.subrange(i as int, j as int)) == trimmed(s@),
        decreases j - i,
    {
        assert(cs@.subrange(i as int, j as int).drop_last() =~= cs@.subrange(i as int, j - 1));
        j -= 1;
    }
    let mut r = String::new();
    push_chars(&mut r, &cs, i, j);
    assert(r@ =~= cs@.subrange(i as int, j as int));
    r
}

// ---------------------------------------------------------------------------
// conversions between strings and character vectors
// ---------------------------------------------------------------------------

/// The characters of a string slice, in order.
pub fn chars_of(s: &str) -> (r: Vec<char>)
    ensures
        r@ == s@,
{
    let mut r: Vec<char> = Vec::new();
    for c in it: s.chars()
        invariant
            r@ == it.seq().take(it.index() as int),
            it.seq() == s@,
    {
        r.push(c);
    }
    r
}

/// Appends a run of characters to a string.
pub(crate) fn push_chars(s: &mut String, cs: &Vec<char>, from: usize, to: usize)
    requires
        from <= to <= cs@.len(),
    ensures
        final(s)@ == old(s)@ + cs@.subrange(from as int, to as int),
{
    let mut i = from;
    while i < to
        invariant
            from <= i <= to <= cs@.len(),
            s@ == old(s)@ + cs@.subrange(from as int, i as int),
        decreases to - i,
    {
        push_char(s, cs[i]);
        assert(cs@.subrange(from as int, i + 1) == cs@.subrange(from as int, i as int).push(
            cs@[i as int],
        ));
        i += 1;
    }
}

/// A string holding exactly the given characters.
pub fn string_of(cs: &Vec<char>) -> (r: String)
    ensures
        r@ == cs@,
{
    let mut s = String::new();
    push_chars(&mut s, cs, 0, cs.len());
    assert(cs@.subrange(0, cs@.len() as int) == cs@);
    s
}

/// An owned copy of a string slice.
pub fn owned(s: &str) -> (r: String)
    ensures
        r@ == s@,
{
    let mut r = String::new();
    r.append(s);
    r
}

/// Character-wise equality of two texts.
pub fn text_eq(a: &str, b: &str) -> (r: bool)
    ensures
        r == (a@ == b@),
{
    let x = chars_of(a);
    let y = chars_of(b);
    if x.len() != y.len() {
        return false;
    }
    let mut i: usize = 0;
    while i < x.len()
        invariant
            x@ == a@,
            y@ == b@,
            x@.len() == y@.len(),
            i <= x@.len(),
            forall|j: int| 0 <= j < i ==> x@[j] == y@[j],
        decreases x.len() - i,
    {
        if x[i] != y[i] {
            return false;
        }
        i += 1;
    }
    assert(x@ =~= y@);
    true
}

// ---------------------------------------------------------------------------
// decimal and hexadecimal rendering
// ---------------------------------------------------------------------------

/// The character of a decimal digit.
pub open spec fn digit_char(d: int) -> char {
    (48 + d) as char
}

/// The decimal digits of a natural number, most significant first, with no
/// leading zeros (`0` is written as one digit).
pub open spec fn dec_digits(n: nat) -> Seq<char>
    decreases n,
{
    if n < 10 {
        seq![digit_char(n as int)]
    } else {
        dec_digits(n / 10).push(digit_char((n % 10) as int))
    }
}

/// How `{}` renders an integer: a minus sign for negative numbers, then the
/// decimal digits of its magnitude.
pub open spec fn int_text(i: int) -> Seq<char> {
    if i < 0 {
        seq!['-'] + dec_digits((-i) as nat)
    } else {
        dec_digits(i as nat)
    }
}

fn digit(d: u64) -> (c: char)
    requires
        d < 10,
    ensures
        c == digit_char(d as int),
{
    let b: u8 = 48 + d as u8;
    b as char
}

/// Appends the decimal digits of `n`.
pub fn push_digits(s: &mut String, n: u64)
    ensures
        final(s)@ == old(s)@ + dec_digits(n as nat),
    decreases n,
{
    let ghost start = s@;
    if n >= 10 {
        push_digits(s, n / 10);
    }
    push_char(s, digit(n % 10));
    proof {
        if n >= 10 {
            assert(dec_digits(n as nat) == dec_digits((n / 10) as nat).push(
                digit_char((n % 10) as int),
            ));
            assert(s@ =~= start + dec_digits(n as nat));
        } else {
            assert(s@ =~= start + dec_digits(n as nat));
        }
    }
}

/// Appends an integer as `{}` renders it.
pub fn push_int(s: &mut String, v: i128)
    requires
        -0x1_0000_0000_0000_0000 < v < 0x1_0000_0000_0000_0000,
    ensures
        final(s)@ == old(s)@ + int_text(v as int),
{
    let ghost start = s@;
    if v < 0 {
        push_char(s, '-');
        let m: u64 = (0 - v) as u64;
        push_digits(s, m);
        assert(s@ =~= start + int_text(v as int));
    } else {
        push_digits(s, v as u64);
    }
}

/// `{}` applied to an integer.
pub fn int_to_string(v: i128) -> (r: String)
    requires
        -0x1_0000_0000_0000_0000 < v < 0x1_0000_0000_0000_0000,
    ensures
        r@ == int_text(v as int),
{
    let mut s = String::new();
    push_int(&mut s, v);
    assert(s@ =~= int_text(v as int));
    s
}

/// The character of a lower-case hexadecimal digit.
pub open spec fn hex_char(d: int) -> char {
    if d < 10 {
        (48 + d) as char
    } else {
        (87 + d) as char
    }
}

/// The last `k` hexadecimal digits of `v`, zero-padded.
pub open spec fn hex_fixed(v: nat, k: nat) -> Seq<char>
    decreases k,
{
    if k == 0 {
        seq![]
    } else {
        hex_fixed(v / 16, (k - 1) as nat).push(hex_char((v % 16) as int))
    }
}

/// How `{:016x}` renders a `u64`: sixteen lower-case hexadecimal digits.
pub open spec fn hex16(v: u64) -> Seq<char> {
    hex_fixed(v as nat, 16)
}

fn push_hex_fixed(s: &mut String, v: u64, k: u64)
    requires
        k <= 16,
    ensures
        final(s)@ == old(s)@ + hex_fixed(v as nat, k as nat),
    decreases k,
{
    let ghost start = s@;
    if k == 0 {
        assert(s@ =~= start + hex_fixed(v as nat, 0));
        return;
    }
    push_hex_fixed(s, v / 16, k - 1);
    let d = v % 16;
    let c: char = if d < 10 {
        let b: u8 = 48 + d as u8;
        b as char
    } else {
        let b: u8 = 87 + d as u8;
        b as char
    };
    push_char(s, c);
    assert(s@ =~= start + hex_fixed(v as nat, k as nat));
}

/// `format!("{:016x}", v)`.
pub fn hex16_text(v: u64) -> (r: String)
    ensures
        r@ == hex16(v),
{
    let mut s = String::new();
    push_hex_fixed(&mut s, v, 16);
    assert(s@ =~= hex16(v));
    s
}

// ---------------------------------------------------------------------------
// joining
// ---------------------------------------------------------------------------

/// The texts of a sequence of strings.
pub open spec fn texts(v: Seq<String>) -> Seq<Seq<char>> {
    Seq::new(v.len(), |i: int| v[i]@)
}

/// `parts.join(sep)`: the parts with `sep` between each neighbouring pair.
pub open spec fn join(parts: Seq<Seq<char>>, sep: Seq<char>) -> Seq<char>
    decreases parts.len(),
{
    if parts.len() == 0 {
        seq![]
    } else if parts.len() == 1 {
        parts[0]
    } else {
        join(parts.drop_last(), sep) + sep + parts.last()
    }
}

/// `parts.join(sep)` on owned strings.
pub fn join_strings(parts: &Vec<String>, sep: &str) -> (r: String)
    ensures
        r@ == join(texts(parts@), sep@),
{
    let mut r = String::new();
    let mut i: usize = 0;
    while i < parts.len()
        invariant
            i <= parts@.len(),
            r@ == join(texts(parts@).take(i as int), sep@),
        decreases parts.len() - i,
    {
        let ghost before = r@;
        assert(texts(parts@).take(i + 1).drop_last() =~= texts(parts@).take(i as int));
        if i > 0 {
            r.append(sep);
        }
        r.append(parts[i].as_str());
        proof {
            if i == 0 {
                assert(before =~= Seq::<char>::empty());
                assert(r@ =~= join(texts(parts@).take(1), sep@));
            } else {
                assert(r@ =~= join(texts(parts@).take(i + 1), sep@));
            }
        }
        i += 1;
    }
    assert(texts(parts@).take(parts@.len() as int) =~= texts(parts@));
    r
}

// ---------------------------------------------------------------------------
// substring search and replacement
// ---------------------------------------------------------------------------

/// `pat` occurs in `s` at position `i`.
pub open spec fn occurs_at(s: Seq<char>, pat: Seq<char>, i: int) -> bool {
    0 <= i && i + pat.len() <= s.len() && s.subrange(i, i + pat.len()) == pat
}

/// `s.contains(pat)`.
pub open spec fn has_sub(s: Seq<char>, pat: Seq<char>) -> bool {
    exists|i: int| occurs_at(s, pat, i)
}

/// `s.replace(from, to)` for a non-empty pattern: the occurrences of `from`
/// found left to right, without overlapping, are replaced by `to`.
pub open spec fn replace_all(s: Seq<char>, from: Seq<char>, to: Seq<char>) -> Seq<char>
    recommends
        from.len() > 0,
    decreases s.len(),
{
    if s.len() == 0 || from.len() == 0 {
        s
    } else if occurs_at(s, from, 0) {
        to + replace_all(s.skip(from.len() as int), from, to)
    } else {
        seq![s[0]] + replace_all(s.skip(1), from, to)
    }
}

fn occurs_at_exec(s: &Vec<char>, pat: &Vec<char>, i: usize) -> (r: bool)
    requires
        i <= s@.len(),
    ensures
        r == occurs_at(s@, pat@, i as int),
{
    if pat.len() > s.len() - i {
        return false;
    }
    let mut j: usize = 0;
    while j < pat.len()
        invariant
            i + pat@.len() <= s@.len(),
            s@.len() == s.len(),
            j <= pat@.len(),
            forall|k: int| 0 <= k < j ==> s@[i + k] == pat@[k],
        decreases pat.len() - j,
    {
        if s[i + j] != pat[j] {
            assert(s@.subrange(i as int, i + pat@.len())[j as int] != pat@[j as int]);
            return false;
        }
        j += 1;
    }
    assert(s@.subrange(i as int, i + pat@.len()) =~= pat@);
    true
}

/// `s.contains(pat)`.
pub fn contains_text(s: &str, pat: &str) -> (r: bool)
    ensures
        r == has_sub(s@, pat@),
{
    let cs = chars_of(s);
    let ps = chars_of(pat);
    let mut i: usize = 0;
    loop
        invariant
            cs@ == s@,
            ps@ == pat@,
            i <= cs@.len(),
            forall|k: int| 0 <= k < i ==> !occurs_at(s@, pat@, k),
        ensures
            i == cs@.len(),
            forall|k: int| 0 <= k <= i ==> !occurs_at(s@, pat@, k),
        decreases cs.len() - i,
    {
        if occurs_at_exec(&cs, &ps, i) {
            return true;
        }
        if i == cs.len() {
            break;
        }
        i += 1;
    }
    assert forall|k: int| !occurs_at(s@, pat@, k) by {
        if 0 <= k <= i {
        }
    }
    false
}

/// `s.replace(from, to)` for a non-empty pattern.
pub fn replace_text(s: &str, from: &str, to: &str) -> (r: String)
    requires
        from@.len() > 0,
    ensures
        r@ == replace_all(s@, from@, to@),
{
    let cs = chars_of(s);
    let fs = chars_of(from);
    let mut r = String::new();
    let mut i: usize = 0;
    assert(cs@.skip(0) =~= cs@);
    assert(r@ + replace_all(s@, from@, to@) =~= replace_all(s@, from@, to@));
    while i < cs.len()
        invariant
            cs@ == s@,
            fs@ == from@,
            fs@.len() > 0,
            i <= cs@.len(),
            r@ + replace_all(cs@.skip(i as int), from@, to@) == replace_all(s@, from@, to@),
        decreases cs.len() - i,
    {
        let ghost rest = cs@.skip(i as int);
        let hit = occurs_at_exec(&cs, &fs, i);
        assert(occurs_at(rest, from@, 0) == occurs_at(cs@, from@, i as int)) by {
            if i + from@.len() <= cs@.len() {
                assert(rest.subrange(0, from@.len() as int) =~= cs@.subrange(
                    i as int,
                    i + from@.len(),
                ));
            }
        }
        if hit {
            r.append(to);
            assert(rest.skip(from@.len() as int) =~= cs@.skip(i + from@.len()));
            i += fs.len();
        } else {
            push_char(&mut r, cs[i]);
            assert(rest.skip(1) =~= cs@.skip(i + 1));
            assert(rest[0] == cs@[i as int]);
            i += 1;
        }
    }
    assert(cs@.skip(i as int).len() == 0);
    r
}

/// A text with no occurrence of the pattern is left as it is by `replace_all`.
pub proof fn lemma_replace_absent(s: Seq<char>, from: Seq<char>, to: Seq<char>)
    requires
        from.len() > 0,
        !has_sub(s, from),
    ensures
        replace_all(s, from, to) == s,
    decreases s.len(),
{
    if s.len() > 0 {
        assert(!occurs_at(s, from, 0));
        assert(!has_sub(s.skip(1), from)) by {
            assert forall|k: int| !occurs_at(s.skip(1), from, k) by {
                if occurs_at(s.skip(1), from, k) {
                    assert(s.subrange(k + 1, k + 1 + from.len()) =~= s.skip(1).subrange(
                        k,
                        k + from.len(),
                    ));
                    assert(occurs_at(s, from, k + 1));
                }
            }
        }
        lemma_replace_absent(s.skip(1), from, to);
        assert(s =~= seq![s[0]] + s.skip(1));
    }
}

/// As long as the result of `replace_all` shows no first character of the
/// replacement, it is the text itself.
pub proof fn lemma_replace_prefix(s: Seq<char>, from: Seq<char>, to: Seq<char>, n: int)
    requires
        from.len() > 0,
        to.len() > 0,
        0 <= n <= replace_all(s, from, to).len(),
        forall|j: int| 0 <= j < n ==> replace_all(s, from, to)[j] != to[0],
    ensures
        n <= s.len(),
        s.take(n) == replace_all(s, from, to).take(n),
    decreases s.len(),
{
    let r = replace_all(s, from, to);
    if n == 0 {
        assert(s.take(0) =~= r.take(0));
    } else if s.len() == 0 {
    } else if occurs_at(s, from, 0) {
        assert(r[0] == to[0]);
    } else {
        let r1 = replace_all(s.skip(1), from, to);
        assert(r == seq![s[0]] + r1);
        assert forall|j: int| 0 <= j < n - 1 implies r1[j] != to[0] by {
            assert(r[j + 1] == r1[j]);
        }
        lemma_replace_prefix(s.skip(1), from, to, n - 1);
        assert(s.take(n) =~= seq![s[0]] + s.skip(1).take(n - 1));
        assert(r.take(n) =~= seq![s[0]] + r1.take(n - 1));
    }
}

/// `s.trim_end_matches(c)`: `s` without the run of `c` at its end.
pub open spec fn trim_end_char(s: Seq<char>, c: char) -> Seq<char>
    decreases s.len(),
{
    if s.len() > 0 && s.last() == c {
        trim_end_char(s.drop_last(), c)
    } else {
        s
    }
}

/// `s.trim_end_matches(c)`.
pub fn trim_end_char_text(s: &str, c: char) -> (r: String)
    ensures
        r@ == trim_end_char(s@, c),
{
    let cs = chars_of(s);
    let mut n = cs.len();
    assert(cs@.take(n as int) =~= cs@);
    while n > 0 && cs[n - 1] == c
        invariant
            cs@ == s@,
            n <= cs@.len(),
            trim_end_char(cs@.take(n as int), c) == trim_end_char(s@, c),
        decreases n,
    {
        assert(cs@.take(n as int).drop_last() =~= cs@.take(n - 1));
        n -= 1;
    }
    let mut r = String::new();
    push_chars(&mut r, &cs, 0, n);
    assert(cs@.subrange(0, n as int) =~= cs@.take(n as int));
    assert(cs@.take(cs@.len() as int) =~= cs@);
    r
}

/// The text of an optional string.
pub open spec fn opt_text(o: Option<String>) -> Option<Seq<char>> {
    match o {
        Some(s) => Some(s@),
        None => None,
    }
}

} // verus!
