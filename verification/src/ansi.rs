//! Removing ANSI escape sequences from text.
use vstd::prelude::*;

use crate::text::{chars_of, push_char};

verus! {

/// An ASCII letter (`char::is_ascii_alphabetic`).
pub open spec fn is_ascii_letter(c: char) -> bool {
    ('a' <= c && c <= 'z') || ('A' <= c && c <= 'Z')
}

/// Where an escape sequence whose parameters start at `j` ends: just after
/// its first ASCII letter, or at the end of the text when there is none.
pub open spec fn csi_end(s: Seq<char>, j: int) -> int
    decreases s.len() - j,
{
    if j >= s.len() {
        s.len() as int
    } else if is_ascii_letter(s[j]) {
        j + 1
    } else {
        csi_end(s, j + 1)
    }
}

pub proof fn lemma_csi_end(s: Seq<char>, j: int)
    requires
        0 <= j <= s.len(),
    ensures
        j <= csi_end(s, j) <= s.len(),
    decreases s.len() - j,
{
    if j < s.len() && !is_ascii_letter(s[j]) {
        lemma_csi_end(s, j + 1);
    }
}

/// The text from position `i` on with its escape sequences removed: an ESC
/// followed by `[` drops everything up to and including the next ASCII
/// letter; an ESC not followed by `[` is dropped alone.
pub open spec fn strip_from(s: Seq<char>, i: int) -> Seq<char>
    decreases s.len() - i,
{
    if i < 0 || i >= s.len() {
        seq![]
    } else if s[i] == '\x1b' {
        if i + 1 < s.len() && s[i + 1] == '[' {
            proof {
                lemma_csi_end(s, i + 2);
            }
            strip_from(s, csi_end(s, i + 2))
        } else {
            strip_from(s, i + 1)
        }
    } else {
        seq![s[i]] + strip_from(s, i + 1)
    }
}

/// The text with its ANSI escape sequences removed.
pub open spec fn stripped(s: Seq<char>) -> Seq<char> {
    strip_from(s, 0)
}

fn is_ascii_letter_exec(c: char) -> (r: bool)
    ensures
        r == is_ascii_letter(c),
{
    ('a' <= c && c <= 'z') || ('A' <= c && c <= 'Z')
}

/// Removes ANSI escape sequences (such as `\x1b[1m`) from a text.
pub fn strip_ansi(s: &str) -> (r: String)
    ensures
        r@ == stripped(s@),
{
    let cs = chars_of(s);
    let mut out = String::new();
    let mut i: usize = 0;
    while i < cs.len()
        invariant
            cs@ == s@,
            i <= cs@.len(),
            out@ + strip_from(s@, i as int) == stripped(s@),
        decreases cs.len() - i,
    {
        let c = cs[i];
        if c == '\x1b' {
            if i + 1 < cs.len() && cs[i + 1] == '[' {
                let mut j = i + 2;
                while j < cs.len()
                    invariant
                        cs@ == s@,
                        i + 2 <= j <= cs@.len(),
                        csi_end(s@, j as int) == csi_end(s@, i + 2),
                    ensures
                        i + 2 <= j <= cs@.len(),
                        csi_end(s@, j as int) == csi_end(s@, i + 2),
                        j == cs@.len() || is_ascii_letter(cs@[j as int]),
                    decreases cs.len() - j,
                {
                    if is_ascii_letter_exec(cs[j]) {
                        break;
                    }
                    j += 1;
                }
                let end = if j < cs.len() {
                    j + 1
                } else {
                    j
                };
                assert(end as int == csi_end(s@, i + 2));
                i = end;
            } else {
                i += 1;
            }
        } else {
            let ghost before = out@;
            push_char(&mut out, c);
            assert(before + strip_from(s@, i as int) =~= out@ + strip_from(s@, i + 1));
            i += 1;
        }
    }
    assert(strip_from(s@, i as int) =~= Seq::<char>::empty());
    assert(out@ =~= stripped(s@));
    out
}

proof fn lemma_csi_shift(a: Seq<char>, b: Seq<char>, j: int)
    requires
        0 <= j,
    ensures
        csi_end(a + b, a.len() + j) == a.len() + csi_end(b, j),
    decreases b.len() - j,
{
    if j < b.len() {
        assert((a + b)[a.len() + j] == b[j]);
        if !is_ascii_letter(b[j]) {
            lemma_csi_shift(a, b, j + 1);
        }
    }
}

/// Stripping the end of a text that follows `a` is stripping that end alone.
pub proof fn lemma_strip_shift(a: Seq<char>, b: Seq<char>, i: int)
    requires
        0 <= i,
    ensures
        strip_from(a + b, a.len() + i) == strip_from(b, i),
    decreases b.len() - i,
{
    let s = a + b;
    let k = a.len() + i;
    if i < b.len() {
        assert(s[k] == b[i]);
        if b[i] == '\x1b' {
            if i + 1 < b.len() && b[i + 1] == '[' {
                assert(s[k + 1] == b[i + 1]);
                lemma_csi_shift(a, b, i + 2);
                lemma_csi_end(b, i + 2);
                lemma_strip_shift(a, b, csi_end(b, i + 2));
            } else {
                if i + 1 < b.len() {
                    assert(s[k + 1] == b[i + 1]);
                }
                lemma_strip_shift(a, b, i + 1);
            }
        } else {
            lemma_strip_shift(a, b, i + 1);
        }
    }
}

proof fn lemma_csi_scan(s: Seq<char>, j: int, m: int)
    requires
        0 <= j <= m < s.len(),
        is_ascii_letter(s[m]),
        forall|t: int| j <= t < m ==> !is_ascii_letter(s[t]),
    ensures
        csi_end(s, j) == m + 1,
    decreases m - j,
{
    if j < m {
        lemma_csi_scan(s, j + 1, m);
    }
}

/// A colour code (ESC, `[`, parameters without letters, a final letter)
/// followed by a visible character strips to that character.
pub proof fn lemma_code_then_char(code: Seq<char>, g: char, r: Seq<char>)
    requires
        code.len() >= 3,
        code[0] == '\x1b',
        code[1] == '[',
        is_ascii_letter(code.last()),
        forall|t: int| 2 <= t < code.len() - 1 ==> !is_ascii_letter(code[t]),
        g != '\x1b',
    ensures
        stripped(code + seq![g] + r) == seq![g] + stripped(r),
{
    let a = code + seq![g];
    let s = a + r;
    assert(s =~= code + seq![g] + r);
    assert(s[0] == '\x1b');
    assert(s[1] == '[');
    assert forall|t: int| 2 <= t < code.len() - 1 implies !is_ascii_letter(s[t]) by {
        assert(s[t] == code[t]);
    }
    assert(s[code.len() - 1] == code.last());
    lemma_csi_scan(s, 2, code.len() - 1);
    assert(s[code.len() as int] == g);
    lemma_strip_shift(a, r, 0);
    assert(strip_from(s, code.len() as int) == seq![g] + strip_from(s, (code.len() + 1) as int));
}

/// A text that is only a colour code strips to nothing.
pub proof fn lemma_code_alone(code: Seq<char>)
    requires
        code.len() >= 3,
        code[0] == '\x1b',
        code[1] == '[',
        is_ascii_letter(code.last()),
        forall|t: int| 2 <= t < code.len() - 1 ==> !is_ascii_letter(code[t]),
    ensures
        stripped(code) == Seq::<char>::empty(),
{
    lemma_csi_scan(code, 2, code.len() - 1);
    assert(strip_from(code, code.len() as int) =~= Seq::<char>::empty());
    assert(strip_from(code, 0) == strip_from(code, code.len() as int));
}

proof fn lemma_strip_no_escape(s: Seq<char>, i: int)
    ensures
        forall|k: int| 0 <= k < strip_from(s, i).len() ==> strip_from(s, i)[k] != '\x1b',
    decreases s.len() - i,
{
    if i < 0 || i >= s.len() {
    } else if s[i] == '\x1b' {
        if i + 1 < s.len() && s[i + 1] == '[' {
            lemma_csi_end(s, i + 2);
            lemma_strip_no_escape(s, csi_end(s, i + 2));
            assert(strip_from(s, i) == strip_from(s, csi_end(s, i + 2)));
        } else {
            lemma_strip_no_escape(s, i + 1);
            assert(strip_from(s, i) == strip_from(s, i + 1));
        }
    } else {
        lemma_strip_no_escape(s, i + 1);
        let rest = strip_from(s, i + 1);
        assert(strip_from(s, i) == seq![s[i]] + rest);
        assert forall|k: int| 0 <= k < strip_from(s, i).len() implies strip_from(s, i)[k]
            != '\x1b' by {
            if k > 0 {
                assert(strip_from(s, i)[k] == rest[k - 1]);
            }
        }
    }
}

proof fn lemma_strip_plain(t: Seq<char>, i: int)
    requires
        0 <= i <= t.len(),
        forall|k: int| 0 <= k < t.len() ==> t[k] != '\x1b',
    ensures
        strip_from(t, i) == t.subrange(i, t.len() as int),
    decreases t.len() - i,
{
    if i < t.len() {
        lemma_strip_plain(t, i + 1);
        assert(t.subrange(i, t.len() as int) =~= seq![t[i]] + t.subrange(i + 1, t.len() as int));
    } else {
        assert(t.subrange(i, i) =~= Seq::<char>::empty());
    }
}

/// Stripping leaves no escape character behind, so stripping the result
/// again changes nothing.
pub proof fn law_strip_ansi_idempotent(s: Seq<char>)
    ensures
        forall|k: int| 0 <= k < stripped(s).len() ==> stripped(s)[k] != '\x1b',
        stripped(stripped(s)) == stripped(s),
{
    lemma_strip_no_escape(s, 0);
    lemma_strip_plain(stripped(s), 0);
    assert(stripped(s).subrange(0, stripped(s).len() as int) =~= stripped(s));
}

/// `a` is `b` with some characters left out: `idx` gives, in increasing
/// order, the position in `b` of each character of `a`.
pub open spec fn embeds(a: Seq<char>, b: Seq<char>, idx: Seq<int>) -> bool {
    &&& idx.len() == a.len()
    &&& forall|j: int| 0 <= j < idx.len() ==> 0 <= #[trigger] idx[j] < b.len() && b[idx[j]] == a[j]
    &&& forall|j: int, k: int| 0 <= j < k < idx.len() ==> #[trigger] idx[j] < #[trigger] idx[k]
}

/// `a` is a subsequence of `b`.
pub open spec fn subsequence_of(a: Seq<char>, b: Seq<char>) -> bool {
    exists|idx: Seq<int>| #[trigger] embeds(a, b, idx)
}

proof fn lemma_strip_positions(s: Seq<char>, i: int) -> (idx: Seq<int>)
    requires
        0 <= i,
    ensures
        idx.len() == strip_from(s, i).len(),
        forall|j: int|
            0 <= j < idx.len() ==> i <= #[trigger] idx[j] < s.len() && s[idx[j]] == strip_from(
                s,
                i,
            )[j],
        forall|j: int, k: int| 0 <= j < k < idx.len() ==> #[trigger] idx[j] < #[trigger] idx[k],
    decreases s.len() - i,
{
    if i >= s.len() {
        Seq::empty()
    } else if s[i] == '\x1b' {
        if i + 1 < s.len() && s[i + 1] == '[' {
            lemma_csi_end(s, i + 2);
            assert(strip_from(s, i) == strip_from(s, csi_end(s, i + 2)));
            lemma_strip_positions(s, csi_end(s, i + 2))
        } else {
            assert(strip_from(s, i) == strip_from(s, i + 1));
            lemma_strip_positions(s, i + 1)
        }
    } else {
        let r = lemma_strip_positions(s, i + 1);
        let rest = strip_from(s, i + 1);
        let idx = seq![i] + r;
        assert(strip_from(s, i) == seq![s[i]] + rest);
        assert forall|j: int| 0 <= j < idx.len() implies i <= #[trigger] idx[j] < s.len() && s[idx[j]]
            == strip_from(s, i)[j] by {
            if j > 0 {
                assert(idx[j] == r[j - 1]);
                assert(strip_from(s, i)[j] == rest[j - 1]);
            }
        }
        assert forall|j: int, k: int| 0 <= j < k < idx.len() implies #[trigger] idx[j]
            < #[trigger] idx[k] by {
            assert(idx[k] == r[k - 1]);
            if j > 0 {
                assert(idx[j] == r[j - 1]);
            } else {
                assert(r[k - 1] >= i + 1);
            }
        }
        idx
    }
}

/// Stripping only leaves characters out (the result is a subsequence of the
/// text), and a text without escape characters is left as it is.
pub proof fn law_strip_ansi_keeps_text(s: Seq<char>)
    ensures
        subsequence_of(stripped(s), s),
        (forall|k: int| 0 <= k < s.len() ==> s[k] != '\x1b') ==> stripped(s) == s,
{
    let idx = lemma_strip_positions(s, 0);
    assert(embeds(stripped(s), s, idx));
    if forall|k: int| 0 <= k < s.len() ==> s[k] != '\x1b' {
        lemma_strip_plain(s, 0);
        assert(s.subrange(0, s.len() as int) =~= s);
    }
}

} // verus!
