//! API addresses and the small text renderings shared by the app and the
//! status-line program: the coloured usage bar and elapsed-time text.
use vstd::prelude::*;

use crate::text::{
    occurs_at, lemma_replace_absent, lemma_replace_prefix, contains_text, has_sub, int_text, owned, push_int, replace_all, replace_text, trim_end_char,
    trim_end_char_text,
};

verus! {

/// Path of the account balance report.
pub const API_PATH_BALANCE: &'static str = "/api/biz/account/query-customer-account-report";

/// Path of the coding-plan quota report.
pub const API_PATH_CODING_PLAN: &'static str = "/api/monitor/usage/quota/limit";

/// Path of the chat-completions endpoint.
pub const API_PATH_CHAT_COMPLETIONS: &'static str = "/api/paas/v4/chat/completions";

/// The balance service's base address for an API endpoint: the mainland
/// service answers balance queries on `www.bigmodel.cn`, so `open.bigmodel.cn`
/// becomes `www.bigmodel.cn` in an endpoint on `bigmodel.cn`; any other
/// endpoint is used as it is.
pub open spec fn balance_base(endpoint: Seq<char>) -> Seq<char> {
    if has_sub(endpoint, "bigmodel.cn"@) {
        replace_all(endpoint, "open.bigmodel.cn"@, "www.bigmodel.cn"@)
    } else {
        endpoint
    }
}

/// The balance service's base address for an API endpoint.
pub fn balance_base_url(endpoint: &str) -> (r: String)
    ensures
        r@ == balance_base(endpoint@),
{
    if contains_text(endpoint, "bigmodel.cn") {
        proof {
            reveal_strlit("open.bigmodel.cn");
        }
        replace_text(endpoint, "open.bigmodel.cn", "www.bigmodel.cn")
    } else {
        owned(endpoint)
    }
}

/// A full URL: the base without its trailing slashes, then the path.
pub fn build_url(base: &str, path: &str) -> (r: String)
    ensures
        r@ == trim_end_char(base@, '/') + path@,
{
    let mut r = trim_end_char_text(base, '/');
    r.append(path);
    r
}

// ---------------------------------------------------------------------------
// the usage bar
// ---------------------------------------------------------------------------

/// A percentage limited to 0..=100.
pub open spec fn clamp_pct(p: int) -> int {
    if p < 0 {
        0
    } else if p > 100 {
        100
    } else {
        p
    }
}

/// The bar's colour: red from 85%, yellow from 70%, green below.
pub open spec fn bar_color(p: int) -> Seq<char> {
    if p >= 85 {
        "\x1b[31m"@
    } else if p >= 70 {
        "\x1b[33m"@
    } else {
        "\x1b[32m"@
    }
}

/// The code that restores the default colour.
pub open spec fn reset_code() -> Seq<char> {
    "\x1b[0m"@
}

/// The circle that the usage falls in: each circle stands for 5%, and from
/// 50% on every circle is full.
pub open spec fn active_circle(p: int, len: nat) -> int {
    if clamp_pct(p) >= 50 {
        len as int
    } else {
        clamp_pct(p) / 5
    }
}

/// The partly filled circle for 1, 2, or 3-4 points into a 5% step.
pub open spec fn part_glyph(sub: int) -> Seq<char> {
    if sub == 1 {
        "◔"@
    } else if sub == 2 {
        "◑"@
    } else {
        "◕"@
    }
}

/// The `i`-th circle of the bar: full and coloured before the active circle;
/// the active circle coloured and partly filled or empty; after it, empty in
/// the default colour.
pub open spec fn bar_cell(p: int, len: nat, i: int) -> Seq<char> {
    let a = active_circle(p, len);
    let sub = clamp_pct(p) % 5;
    if i < a {
        bar_color(p) + "●"@
    } else if i == a && sub > 0 {
        bar_color(p) + part_glyph(sub)
    } else if i == a {
        bar_color(p) + "○"@
    } else {
        reset_code() + "○"@
    }
}

/// The first `k` circles of the bar.
pub open spec fn bar_cells(p: int, len: nat, k: nat) -> Seq<char>
    decreases k,
{
    if k == 0 {
        seq![]
    } else {
        bar_cells(p, len, (k - 1) as nat) + bar_cell(p, len, k - 1)
    }
}

/// The coloured usage bar of `len` circles, ending with the colour reset.
pub open spec fn status_bar(p: int, len: nat) -> Seq<char> {
    bar_cells(p, len, len) + reset_code()
}

/// The coloured usage bar of `length` circles for a usage percentage.
pub fn format_status_bar(percentage: i64, length: usize) -> (r: String)
    ensures
        r@ == status_bar(percentage as int, length as nat),
{
    let pct: i64 = if percentage < 0 {
        0
    } else if percentage > 100 {
        100
    } else {
        percentage
    };
    let active_index: usize = if pct >= 50 {
        length
    } else {
        (pct / 5) as usize
    };
    let sub_pct = pct % 5;
    let color = if percentage >= 85 {
        "\x1b[31m"
    } else if percentage >= 70 {
        "\x1b[33m"
    } else {
        "\x1b[32m"
    };
    let reset = "\x1b[0m";
    let mut bar = String::new();
    let mut i: usize = 0;
    while i < length
        invariant
            i <= length,
            pct == clamp_pct(percentage as int),
            active_index as int == active_circle(percentage as int, length as nat),
            sub_pct == pct % 5,
            color@ == bar_color(percentage as int),
            reset@ == reset_code(),
            bar@ == bar_cells(percentage as int, length as nat, i as nat),
        decreases length - i,
    {
        let ghost before = bar@;
        if i < active_index {
            bar.append(color);
            bar.append("●");
        } else if i == active_index && sub_pct > 0 {
            let ch = if sub_pct == 1 {
                "◔"
            } else if sub_pct == 2 {
                "◑"
            } else {
                "◕"
            };
            bar.append(color);
            bar.append(ch);
        } else if i == active_index {
            bar.append(color);
            bar.append("○");
        } else {
            bar.append(reset);
            bar.append("○");
        }
        assert(bar@ =~= before + bar_cell(percentage as int, length as nat, i as int));
        i += 1;
    }
    bar.append(reset);
    bar
}

// ---------------------------------------------------------------------------
// elapsed time
// ---------------------------------------------------------------------------

/// Integer division rounding toward zero, as Rust's `/` does.
pub open spec fn tdiv(a: int, b: int) -> int {
    if a >= 0 {
        a / b
    } else {
        -((-a) / b)
    }
}

/// The remainder of `tdiv`, with the sign of `a`, as Rust's `%` does.
pub open spec fn trem(a: int, b: int) -> int {
    a - b * tdiv(a, b)
}

/// `"{h}h {m}m"` for a duration in milliseconds, or `"{m}m"` when it is under
/// an hour (whole seconds, hours and minutes, each rounded toward zero).
pub open spec fn remaining_text(ms: int) -> Seq<char> {
    let secs = tdiv(ms, 1000);
    let h = tdiv(secs, 3600);
    let m = tdiv(trem(secs, 3600), 60);
    if h > 0 {
        int_text(h) + "h "@ + int_text(m) + "m"@
    } else {
        int_text(m) + "m"@
    }
}

/// Rust's `a / b` on an `i64` and a positive divisor.
fn tdiv_i64(a: i64, b: i64) -> (r: i64)
    requires
        b > 0,
    ensures
        r as int == tdiv(a as int, b as int),
{
    if a >= 0 {
        ((a as u64) / (b as u64)) as i64
    } else {
        let m: u64 = (0 - (a as i128)) as u64;
        let q: u64 = m / (b as u64);
        assert(q <= m);
        (0 - (q as i128)) as i64
    }
}

/// `"{h}h {m}m"` or `"{m}m"` for a duration in milliseconds.
pub fn format_remaining(ms: i64) -> (r: String)
    ensures
        r@ == remaining_text(ms as int),
{
    let secs = tdiv_i64(ms, 1000);
    let h = tdiv_i64(secs, 3600);
    let rem128: i128 = secs as i128 - 3600 * (h as i128);
    assert(-3600 < rem128 < 3600);
    let rem: i64 = rem128 as i64;
    let m = tdiv_i64(rem, 60);
    let mut s = String::new();
    if h > 0 {
        push_int(&mut s, h as i128);
        s.append("h ");
        push_int(&mut s, m as i128);
        s.append("m");
    } else {
        push_int(&mut s, m as i128);
        s.append("m");
    }
    assert(s@ =~= remaining_text(ms as int));
    s
}

// ---------------------------------------------------------------------------
// what the bar shows
// ---------------------------------------------------------------------------

/// The `i`-th circle the bar shows: full before the active circle, partly
/// filled or empty at it, empty after it.
pub open spec fn bar_glyph(p: int, len: nat, i: int) -> char {
    let a = active_circle(p, len);
    let sub = clamp_pct(p) % 5;
    if i < a {
        '●'
    } else if i == a && sub > 0 {
        if sub == 1 {
            '◔'
        } else if sub == 2 {
            '◑'
        } else {
            '◕'
        }
    } else {
        '○'
    }
}

/// The circles the bar shows, once the colour codes are taken out.
pub open spec fn bar_glyphs(p: int, len: nat) -> Seq<char> {
    Seq::new(len, |i: int| bar_glyph(p, len, i))
}

/// The circles from the `i`-th on, with their colour codes.
pub open spec fn cells_from(p: int, len: nat, i: int) -> Seq<char>
    decreases len - i,
{
    if i >= len {
        seq![]
    } else {
        bar_cell(p, len, i) + cells_from(p, len, i + 1)
    }
}

proof fn lemma_cells_split(p: int, len: nat, k: nat)
    requires
        k <= len,
    ensures
        bar_cells(p, len, k) + cells_from(p, len, k as int) == bar_cells(p, len, len),
    decreases len - k,
{
    if k < len {
        lemma_cells_split(p, len, k + 1);
        assert(bar_cells(p, len, (k + 1) as nat) == bar_cells(p, len, k) + bar_cell(p, len, k as int));
        assert(bar_cells(p, len, k) + cells_from(p, len, k as int) =~= bar_cells(p, len, (k + 1) as nat)
            + cells_from(p, len, (k + 1) as int));
    } else {
        assert(bar_cells(p, len, k) + cells_from(p, len, k as int) =~= bar_cells(p, len, k));
    }
}

proof fn lemma_codes()
    ensures
        "\x1b[31m"@ =~= seq!['\x1b', '[', '3', '1', 'm'],
        "\x1b[33m"@ =~= seq!['\x1b', '[', '3', '3', 'm'],
        "\x1b[32m"@ =~= seq!['\x1b', '[', '3', '2', 'm'],
        "\x1b[0m"@ =~= seq!['\x1b', '[', '0', 'm'],
        "●"@ =~= seq!['●'],
        "◔"@ =~= seq!['◔'],
        "◑"@ =~= seq!['◑'],
        "◕"@ =~= seq!['◕'],
        "○"@ =~= seq!['○'],
{
    reveal_strlit("\x1b[31m");
    reveal_strlit("\x1b[33m");
    reveal_strlit("\x1b[32m");
    reveal_strlit("\x1b[0m");
    reveal_strlit("●");
    reveal_strlit("◔");
    reveal_strlit("◑");
    reveal_strlit("◕");
    reveal_strlit("○");
}

/// A colour code the bar uses: ESC, `[`, digits, `m`.
pub open spec fn is_color_code(code: Seq<char>) -> bool {
    &&& code.len() >= 3
    &&& code[0] == '\x1b'
    &&& code[1] == '['
    &&& crate::ansi::is_ascii_letter(code.last())
    &&& forall|t: int| 2 <= t < code.len() - 1 ==> !crate::ansi::is_ascii_letter(#[trigger] code[t])
}

proof fn lemma_code_forms(p: int)
    ensures
        is_color_code(bar_color(p)),
        is_color_code(reset_code()),
{
    lemma_codes();
}

proof fn lemma_cell_shape(p: int, len: nat, i: int)
    ensures
        exists|code: Seq<char>|
            is_color_code(code) && bar_cell(p, len, i) == code + seq![bar_glyph(p, len, i)],
{
    lemma_codes();
    lemma_code_forms(p);
    let a = active_circle(p, len);
    let sub = clamp_pct(p) % 5;
    if i < a {
        assert(bar_cell(p, len, i) == bar_color(p) + seq![bar_glyph(p, len, i)]);
    } else if i == a && sub > 0 {
        assert(bar_cell(p, len, i) == bar_color(p) + seq![bar_glyph(p, len, i)]);
    } else if i == a {
        assert(bar_cell(p, len, i) == bar_color(p) + seq![bar_glyph(p, len, i)]);
    } else {
        assert(bar_cell(p, len, i) == reset_code() + seq![bar_glyph(p, len, i)]);
    }
}

proof fn lemma_strip_cells(p: int, len: nat, i: int)
    requires
        0 <= i <= len,
    ensures
        crate::ansi::stripped(cells_from(p, len, i) + reset_code()) == bar_glyphs(p, len).skip(i),
    decreases len - i,
{
    lemma_code_forms(p);
    if i == len {
        crate::ansi::lemma_code_alone(reset_code());
        assert(cells_from(p, len, i) + reset_code() =~= reset_code());
        assert(bar_glyphs(p, len).skip(i) =~= Seq::<char>::empty());
    } else {
        lemma_strip_cells(p, len, i + 1);
        lemma_cell_shape(p, len, i);
        let code = choose|code: Seq<char>|
            is_color_code(code) && bar_cell(p, len, i) == code + seq![bar_glyph(p, len, i)];
        let g = bar_glyph(p, len, i);
        let rest = cells_from(p, len, i + 1) + reset_code();
        assert(cells_from(p, len, i) + reset_code() =~= code + seq![g] + rest);
        crate::ansi::lemma_code_then_char(code, g, rest);
        assert(bar_glyphs(p, len).skip(i) =~= seq![g] + bar_glyphs(p, len).skip(i + 1));
    }
}

/// With its colour codes taken out (`strip_ansi`), the usage bar
/// (`format_status_bar`) is exactly `length` circles: full ones before the
/// 5% step the usage has reached, a partly filled or empty one at it, empty
/// ones after it.
pub proof fn law_bar_shows_circles(p: int, len: nat)
    ensures
        crate::ansi::stripped(status_bar(p, len)) == bar_glyphs(p, len),
        crate::ansi::stripped(status_bar(p, len)).len() == len,
{
    lemma_cells_split(p, len, 0);
    assert(bar_cells(p, len, 0) =~= Seq::<char>::empty());
    assert(cells_from(p, len, 0) =~= bar_cells(p, len, len));
    lemma_strip_cells(p, len, 0);
    assert(bar_glyphs(p, len).skip(0) =~= bar_glyphs(p, len));
}

proof fn lemma_mainland_replaced(s: Seq<char>)
    ensures
        !has_sub(replace_all(s, "open.bigmodel.cn"@, "www.bigmodel.cn"@), "open.bigmodel.cn"@),
    decreases s.len(),
{
    reveal_strlit("open.bigmodel.cn");
    reveal_strlit("www.bigmodel.cn");
    let f = "open.bigmodel.cn"@;
    let t = "www.bigmodel.cn"@;
    let r = replace_all(s, f, t);
    if s.len() == 0 {
        assert forall|k: int| !occurs_at(r, f, k) by {}
    } else if occurs_at(s, f, 0) {
        let s1 = s.skip(f.len() as int);
        lemma_mainland_replaced(s1);
        let r1 = replace_all(s1, f, t);
        assert(r == t + r1);
        assert forall|k: int| !occurs_at(r, f, k) by {
            if occurs_at(r, f, k) {
                let w = r.subrange(k, k + f.len());
                assert(w[0] == r[k]);
                assert(w[1] == r[k + 1]);
                if k >= t.len() {
                    assert(r1.subrange(k - t.len(), k - t.len() + f.len()) =~= w);
                    assert(occurs_at(r1, f, k - t.len()));
                } else {
                    assert(r[k] == t[k]);
                    assert(r[k + 1] == if k + 1 < t.len() { t[k + 1] } else { r1[0] });
                }
            }
        }
    } else {
        let s1 = s.skip(1);
        lemma_mainland_replaced(s1);
        let r1 = replace_all(s1, f, t);
        assert(r == seq![s[0]] + r1);
        assert forall|k: int| !occurs_at(r, f, k) by {
            if occurs_at(r, f, k) {
                let w = r.subrange(k, k + f.len());
                if k >= 1 {
                    assert(r1.subrange(k - 1, k - 1 + f.len()) =~= w);
                    assert(occurs_at(r1, f, k - 1));
                } else {
                    assert forall|j: int| 0 <= j < f.len() implies r[j] != t[0] by {
                        assert(r[j] == w[j]);
                    }
                    lemma_replace_prefix(s, f, t, f.len() as int);
                    assert(r.take(f.len() as int) =~= w);
                    assert(s.subrange(0, f.len() as int) =~= s.take(f.len() as int));
                    assert(occurs_at(s, f, 0));
                }
            }
        }
    }
}

/// The balance base address (`balance_base_url`) is the endpoint with every
/// `open.bigmodel.cn` replaced by `www.bigmodel.cn` (`str::replace`); none is
/// left, an endpoint without one is used as it is, and taking the base
/// address again changes nothing.
pub proof fn law_balance_base(e: Seq<char>)
    ensures
        balance_base(e) == replace_all(e, "open.bigmodel.cn"@, "www.bigmodel.cn"@),
        !has_sub(balance_base(e), "open.bigmodel.cn"@),
        !has_sub(e, "open.bigmodel.cn"@) ==> balance_base(e) == e,
        balance_base(balance_base(e)) == balance_base(e),
{
    reveal_strlit("open.bigmodel.cn");
    reveal_strlit("www.bigmodel.cn");
    reveal_strlit("bigmodel.cn");
    let f = "open.bigmodel.cn"@;
    let t = "www.bigmodel.cn"@;
    if !has_sub(e, "bigmodel.cn"@) {
        assert(!has_sub(e, f)) by {
            assert forall|k: int| !occurs_at(e, f, k) by {
                if occurs_at(e, f, k) {
                    assert(e.subrange(k + 5, k + 16) =~= e.subrange(k, k + 16).subrange(5, 16));
                    assert(e.subrange(k + 5, k + 16) =~= "bigmodel.cn"@);
                    assert(occurs_at(e, "bigmodel.cn"@, k + 5));
                }
            }
        }
        lemma_replace_absent(e, f, t);
    }
    lemma_mainland_replaced(e);
    if !has_sub(e, f) {
        lemma_replace_absent(e, f, t);
    }
    let b = balance_base(e);
    lemma_replace_absent(b, f, t);
}

} // verus!
