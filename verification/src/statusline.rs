//! The status line: its segments (plan tier, balance, Git branch, model,
//! context, quotas), how they are grouped into rows and rendered, the older
//! one-block status text, and the tray tooltip.
use vstd::prelude::*;

use crate::quota::QuotaData;
use crate::text::{int_text, join, join_strings, opt_text, owned, push_int, texts, to_upper, uppercase_of};
use crate::utils::{
    active_circle, bar_cell, bar_cells, bar_color, clamp_pct, format_remaining, format_status_bar,
    remaining_text, status_bar,
};

verus! {

/// The width, in circles, of the status line's usage bars.
pub const BAR_WIDTH: usize = 10;

/// A usage bar followed by the percentage: `"{bar} {p}%"`.
pub open spec fn bar_with_pct(p: int) -> Seq<char> {
    status_bar(p, 10) + " "@ + int_text(p) + "%"@
}

/// A usage bar of `BAR_WIDTH` circles followed by the percentage.
pub fn progress_bar_pct(percentage: i64) -> (r: String)
    ensures
        r@ == bar_with_pct(percentage as int),
{
    let mut s = format_status_bar(percentage, BAR_WIDTH);
    s.append(" ");
    push_int(&mut s, percentage as i128);
    s.append("%");
    s
}

/// `"ZhipuKit {LEVEL}"`, the plan level in upper case.
pub fn format_tier(level: &str) -> (r: String)
    ensures
        r@ == "ZhipuKit "@ + uppercase_of(level@),
{
    let mut s = owned("ZhipuKit ");
    let up = to_upper(level);
    s.append(up.as_str());
    s
}

/// `"¥{amount}"`, for an amount already written out.
pub fn format_balance_text(amount: &str) -> (r: String)
    ensures
        r@ == "¥"@ + amount@,
{
    let mut s = owned("¥");
    s.append(amount);
    s
}

/// `"Git ({branch})"`.
pub fn format_git(branch: &str) -> (r: String)
    ensures
        r@ == "Git ("@ + branch@ + ")"@,
{
    let mut s = owned("Git (");
    s.append(branch);
    s.append(")");
    s
}

/// `"Model ({model})"`.
pub fn format_model(model: &str) -> (r: String)
    ensures
        r@ == "Model ("@ + model@ + ")"@,
{
    let mut s = owned("Model (");
    s.append(model);
    s.append(")");
    s
}

/// How long a window of `window_ms` that resets at `reset` has been running
/// at `now`: the window less the time still to go, never below zero.
pub open spec fn elapsed_in_window(window_ms: int, reset: int, now: int) -> int {
    let remaining = if reset - now > 0 {
        reset - now
    } else {
        0
    };
    if window_ms - remaining > 0 {
        window_ms - remaining
    } else {
        0
    }
}

fn elapsed_in_window_exec(window_ms: i64, reset: i64, now: i64) -> (r: i64)
    requires
        0 <= window_ms,
    ensures
        r as int == elapsed_in_window(window_ms as int, reset as int, now as int),
        0 <= r <= window_ms,
{
    let d: i128 = reset as i128 - now as i128;
    let remaining: i128 = if d > 0 {
        d
    } else {
        0
    };
    let e: i128 = window_ms as i128 - remaining;
    if e > 0 {
        e as i64
    } else {
        0
    }
}

/// The five-hour window in milliseconds.
pub open spec fn hour5_window() -> int {
    18_000_000int
}

/// The thirty-day window in milliseconds.
pub open spec fn mcp_window() -> int {
    2_592_000_000int
}

/// `" ({elapsed}/5h)"` when the window's reset time is known.
pub open spec fn hour5_suffix(next_reset: Option<i64>, now: int) -> Seq<char> {
    match next_reset {
        Some(reset) => " ("@ + remaining_text(elapsed_in_window(hour5_window(), reset as int, now))
            + "/5h)"@,
        None => seq![],
    }
}

fn push_hour5_suffix(s: &mut String, next_reset: Option<i64>, now_ms: i64)
    ensures
        final(s)@ == old(s)@ + hour5_suffix(next_reset, now_ms as int),
{
    let ghost start = s@;
    if let Some(reset) = next_reset {
        let elapsed = elapsed_in_window_exec(5 * 3600 * 1000, reset, now_ms);
        s.append(" (");
        let t = format_remaining(elapsed);
        s.append(t.as_str());
        s.append("/5h)");
        assert(s@ =~= start + hour5_suffix(next_reset, now_ms as int));
    } else {
        assert(s@ =~= start + hour5_suffix(next_reset, now_ms as int));
    }
}

/// `"5h {bar} {p}%"`, then `" ({elapsed}/5h)"` when the reset time is known.
pub open spec fn hour5_text(pct: int, next_reset: Option<i64>, now: int) -> Seq<char> {
    "5h "@ + bar_with_pct(pct) + hour5_suffix(next_reset, now)
}

/// The five-hour quota segment.
pub fn format_hour5(pct: i64, next_reset: Option<i64>, now_ms: i64) -> (r: String)
    ensures
        r@ == hour5_text(pct as int, next_reset, now_ms as int),
{
    let mut s = owned("5h ");
    let bar = progress_bar_pct(pct);
    s.append(bar.as_str());
    push_hour5_suffix(&mut s, next_reset, now_ms);
    assert(s@ =~= hour5_text(pct as int, next_reset, now_ms as int));
    s
}

/// Integer division rounding toward zero for any non-zero divisor, as Rust's
/// `/` does.
pub open spec fn tquot(a: int, b: int) -> int {
    let q = (if a >= 0 {
        a
    } else {
        -a
    }) / (if b >= 0 {
        b
    } else {
        -b
    });
    if (a >= 0) == (b > 0) || a == 0 {
        q
    } else {
        -q
    }
}

/// The MCP usage percentage: `used * 100 / total` (rounded toward zero),
/// at most 100.
pub open spec fn mcp_pct(used: int, total: int) -> int {
    let p = tquot(used * 100, total);
    if p < 100 {
        p
    } else {
        100
    }
}

/// `used * 100 / total`, at most 100; results below zero, which all draw
/// the same empty bar, are reported as -1.
pub fn mcp_percent(used: i64, total: i64) -> (r: i64)
    requires
        total != 0,
    ensures
        mcp_pct(used as int, total as int) >= 0 ==> r as int == mcp_pct(used as int, total as int),
        mcp_pct(used as int, total as int) < 0 ==> r == -1,
{
    let a: i128 = used as i128 * 100;
    let b: i128 = total as i128;
    let ua: u128 = if a >= 0 {
        a as u128
    } else {
        (0 - a) as u128
    };
    let ub: u128 = if b >= 0 {
        b as u128
    } else {
        (0 - b) as u128
    };
    let q: u128 = ua / ub;
    assert(q <= ua);
    let neg = !((a >= 0) == (b > 0) || a == 0);
    if neg && q > 0 {
        -1
    } else if q >= 100 {
        100
    } else {
        q as i64
    }
}

proof fn lemma_bar_cells_same(p1: int, p2: int, len: nat, k: nat)
    requires
        clamp_pct(p1) == clamp_pct(p2),
        bar_color(p1) == bar_color(p2),
    ensures
        bar_cells(p1, len, k) == bar_cells(p2, len, k),
    decreases k,
{
    if k > 0 {
        lemma_bar_cells_same(p1, p2, len, (k - 1) as nat);
        assert(bar_cell(p1, len, k - 1) == bar_cell(p2, len, k - 1));
    }
}

/// Every percentage below zero draws the same bar.
pub proof fn lemma_negative_bars(p1: int, p2: int, len: nat)
    requires
        p1 < 0,
        p2 < 0,
    ensures
        status_bar(p1, len) == status_bar(p2, len),
{
    lemma_bar_cells_same(p1, p2, len, len);
}

/// `" ({sep}{d}d {h}h/30d"` part: the days and hours of the thirty-day window
/// that have passed, when its reset time is known.
pub open spec fn mcp_time(next_reset: Option<i64>, now: int, sep: Seq<char>) -> Seq<char> {
    match next_reset {
        Some(reset) => {
            let e = elapsed_in_window(mcp_window(), reset as int, now);
            sep + int_text(e / 86400000) + "d "@ + int_text((e % 86400000) / 3600000)
                + "h/30d"@
        },
        None => seq![],
    }
}

fn push_mcp_time(s: &mut String, next_reset: Option<i64>, now_ms: i64, sep: &str)
    ensures
        final(s)@ == old(s)@ + mcp_time(next_reset, now_ms as int, sep@),
{
    let ghost start = s@;
    if let Some(reset) = next_reset {
        let e = elapsed_in_window_exec(30 * 24 * 3600 * 1000, reset, now_ms);
        let d = e / (24 * 3600 * 1000);
        let h = (e % (24 * 3600 * 1000)) / (3600 * 1000);
        s.append(sep);
        push_int(s, d as i128);
        s.append("d ");
        push_int(s, h as i128);
        s.append("h/30d");
        assert(s@ =~= start + mcp_time(next_reset, now_ms as int, sep@));
    } else {
        assert(s@ =~= start + mcp_time(next_reset, now_ms as int, sep@));
    }
}

/// `"MCP {bar} ({used}/{total}, {d}d {h}h/30d)"`, the time part only when the
/// reset time is known.
pub open spec fn mcp_text(used: int, total: int, next_reset: Option<i64>, now: int) -> Seq<char> {
    "MCP "@ + status_bar(mcp_pct(used, total), 10) + " ("@ + int_text(used) + "/"@ + int_text(total)
        + mcp_time(next_reset, now, ", "@) + ")"@
}

/// The MCP quota segment.
pub fn format_mcp(used: i64, total: i64, next_reset: Option<i64>, now_ms: i64) -> (r: String)
    requires
        total != 0,
    ensures
        r@ == mcp_text(used as int, total as int, next_reset, now_ms as int),
{
    let pct = mcp_percent(used, total);
    proof {
        if mcp_pct(used as int, total as int) < 0 {
            lemma_negative_bars(mcp_pct(used as int, total as int), -1, 10);
        }
    }
    let mut s = owned("MCP ");
    let bar = format_status_bar(pct, BAR_WIDTH);
    s.append(bar.as_str());
    s.append(" (");
    push_int(&mut s, used as i128);
    s.append("/");
    push_int(&mut s, total as i128);
    push_mcp_time(&mut s, next_reset, now_ms, ", ");
    s.append(")");
    assert(s@ =~= mcp_text(used as int, total as int, next_reset, now_ms as int));
    s
}

// ---------------------------------------------------------------------------
// rows of segments
// ---------------------------------------------------------------------------

/// The texts of rows of strings.
pub open spec fn rows_view(rows: Seq<Vec<String>>) -> Seq<Seq<Seq<char>>> {
    Seq::new(rows.len(), |i: int| texts(rows[i]@))
}

/// A one-segment list when the segment is there.
pub open spec fn maybe(o: Option<Seq<char>>) -> Seq<Seq<char>> {
    match o {
        Some(t) => seq![t],
        None => seq![],
    }
}

/// The rows that are not empty, in order.
pub open spec fn non_empty_rows(rows: Seq<Seq<Seq<char>>>) -> Seq<Seq<Seq<char>>> {
    rows.filter(|r: Seq<Seq<char>>| r.len() > 0)
}

proof fn lemma_rows_kept(rows: Seq<Seq<Seq<char>>>, k: int)
    requires
        0 <= k < rows.len(),
        rows[k].len() > 0,
    ensures
        non_empty_rows(rows).contains(rows[k]),
{
    rows.lemma_filter_contains(|r: Seq<Seq<char>>| r.len() > 0, k);
}

proof fn lemma_rows_not_empty(rows: Seq<Seq<Seq<char>>>, i: int)
    requires
        0 <= i < non_empty_rows(rows).len(),
    ensures
        non_empty_rows(rows)[i].len() > 0,
{
    rows.lemma_filter_pred(|r: Seq<Seq<char>>| r.len() > 0, i);
}

/// The status line's rows: the plan tier, balance and Git branch; the model
/// and context; the five-hour and MCP quotas (MCP only with a positive
/// total). Empty rows are left out.
pub open spec fn segment_rows(
    q: QuotaData,
    balance: Option<Seq<char>>,
    context: Option<Seq<char>>,
    model: Option<Seq<char>>,
    git_branch: Option<Seq<char>>,
    now: int,
) -> Seq<Seq<Seq<char>>> {
    let row0 = maybe(
        match q.level {
            Some(l) => Some("ZhipuKit "@ + uppercase_of(l@)),
            None => None,
        },
    ) + maybe(
        match balance {
            Some(b) => Some("¥"@ + b),
            None => None,
        },
    ) + maybe(
        match git_branch {
            Some(g) => Some("Git ("@ + g + ")"@),
            None => None,
        },
    );
    let row1 = maybe(
        match model {
            Some(m) => Some("Model ("@ + m + ")"@),
            None => None,
        },
    ) + maybe(context);
    let row2 = maybe(
        match q.hour5_pct {
            Some(p) => Some(hour5_text(p as int, q.hour5_next_reset, now)),
            None => None,
        },
    ) + maybe(
        match (q.mcp_used, q.mcp_total) {
            (Some(u), Some(t)) => if t > 0 {
                Some(mcp_text(u as int, t as int, q.mcp_next_reset, now))
            } else {
                None
            },
            _ => None,
        },
    );
    non_empty_rows(seq![row0, row1, row2])
}

fn push_some(row: &mut Vec<String>, s: Option<String>)
    ensures
        texts(final(row)@) == texts(old(row)@) + maybe(opt_text(s)),
{
    let ghost before = texts(row@);
    match s {
        Some(t) => {
            let ghost tv = t@;
            row.push(t);
            assert(texts(row@) =~= before + seq![tv]);
        },
        None => {
            assert(texts(row@) =~= before + Seq::<Seq<char>>::empty());
        },
    }
}

/// The status line's rows of segments. The balance and the context segments,
/// which are worked out from floating-point figures, come ready-made.
pub fn build_segments(
    quota: &QuotaData,
    balance_text: Option<&str>,
    context_text: Option<&str>,
    model: Option<&str>,
    git_branch: Option<&str>,
    now_ms: i64,
) -> (r: Vec<Vec<String>>)
    ensures
        rows_view(r@) == segment_rows(
            *quota,
            match balance_text {
                Some(b) => Some(b@),
                None => None,
            },
            match context_text {
                Some(c) => Some(c@),
                None => None,
            },
            match model {
                Some(m) => Some(m@),
                None => None,
            },
            match git_branch {
                Some(g) => Some(g@),
                None => None,
            },
            now_ms as int,
        ),
{
    let mut row0: Vec<String> = Vec::new();
    assert(texts(row0@) =~= Seq::<Seq<char>>::empty());
    push_some(
        &mut row0,
        match &quota.level {
            Some(l) => Some(format_tier(l.as_str())),
            None => None,
        },
    );
    push_some(
        &mut row0,
        match balance_text {
            Some(b) => Some(format_balance_text(b)),
            None => None,
        },
    );
    push_some(
        &mut row0,
        match git_branch {
            Some(g) => Some(format_git(g)),
            None => None,
        },
    );
    let mut row1: Vec<String> = Vec::new();
    assert(texts(row1@) =~= Seq::<Seq<char>>::empty());
    push_some(
        &mut row1,
        match model {
            Some(m) => Some(format_model(m)),
            None => None,
        },
    );
    push_some(
        &mut row1,
        match context_text {
            Some(c) => Some(owned(c)),
            None => None,
        },
    );
    let mut row2: Vec<String> = Vec::new();
    assert(texts(row2@) =~= Seq::<Seq<char>>::empty());
    push_some(
        &mut row2,
        match quota.hour5_pct {
            Some(p) => Some(format_hour5(p, quota.hour5_next_reset, now_ms)),
            None => None,
        },
    );
    let mcp = match (quota.mcp_used, quota.mcp_total) {
        (Some(u), Some(t)) => if t > 0 {
            Some(format_mcp(u, t, quota.mcp_next_reset, now_ms))
        } else {
            None
        },
        _ => None,
    };
    push_some(&mut row2, mcp);
    let ghost v0 = texts(row0@);
    let ghost v1 = texts(row1@);
    let ghost v2 = texts(row2@);
    let mut rows: Vec<Vec<String>> = Vec::new();
    if row0.len() > 0 {
        rows.push(row0);
    }
    if row1.len() > 0 {
        rows.push(row1);
    }
    if row2.len() > 0 {
        rows.push(row2);
    }
    proof {
        let all: Seq<Seq<Seq<char>>> = seq![v0, v1, v2];
        let pred = |r: Seq<Seq<char>>| r.len() > 0;
        reveal_with_fuel(Seq::filter, 4);
        assert(all.drop_last().drop_last().drop_last() =~= Seq::<Seq<Seq<char>>>::empty());
        assert(all.drop_last().drop_last() =~= seq![v0]);
        assert(all.drop_last() =~= seq![v0, v1]);
        assert(rows_view(rows@) =~= non_empty_rows(all));
    }
    rows
}

/// The rendered status line: each row's segments joined by `" | "`, the
/// rows that are not empty joined by newlines.
pub open spec fn rendered_lines(rows: Seq<Seq<Seq<char>>>) -> Seq<Seq<char>>
    decreases rows.len(),
{
    if rows.len() == 0 {
        seq![]
    } else {
        let r = rendered_lines(rows.drop_last());
        let line = join(rows.last(), " | "@);
        if line.len() > 0 {
            r.push(line)
        } else {
            r
        }
    }
}

/// The status line's text for rows of segments.
pub fn render_segments(rows: &Vec<Vec<String>>) -> (r: String)
    ensures
        r@ == join(rendered_lines(rows_view(rows@)), "\n"@),
{
    let ghost rv = rows_view(rows@);
    let mut lines: Vec<String> = Vec::new();
    let mut i: usize = 0;
    assert(texts(lines@) =~= rendered_lines(rv.take(0)));
    while i < rows.len()
        invariant
            i <= rows@.len(),
            rv == rows_view(rows@),
            texts(lines@) == rendered_lines(rv.take(i as int)),
        decreases rows.len() - i,
    {
        assert(rv.take(i + 1).drop_last() =~= rv.take(i as int));
        let line = join_strings(&rows[i], " | ");
        if line.as_str().unicode_len() > 0 {
            let ghost before = texts(lines@);
            let ghost lv = line@;
            lines.push(line);
            assert(texts(lines@) =~= before.push(lv));
        }
        i += 1;
    }
    assert(rv.take(rows@.len() as int) =~= rv);
    join_strings(&lines, "\n")
}

// ---------------------------------------------------------------------------
// the one-block status text and the tray tooltip
// ---------------------------------------------------------------------------

/// The first line of the one-block status text: plan level (in upper case),
/// then the balance and the Git branch when there are any.
pub open spec fn status_head(level: Seq<char>, balance: Option<Seq<char>>, git: Seq<char>) -> Seq<char> {
    "ZhipuKit "@ + uppercase_of(level) + match balance {
        Some(b) => " | ¥"@ + b,
        None => seq![],
    } + if git.len() > 0 {
        " | Git ("@ + git + ")"@
    } else {
        seq![]
    }
}

/// The head line, then the quota parts joined by `" | "` on a second line
/// when there are any.
pub open spec fn status_block(head: Seq<char>, parts: Seq<Seq<char>>) -> Seq<char> {
    if parts.len() == 0 {
        head
    } else {
        head + "\n"@ + join(parts, " | "@)
    }
}

/// The status program's text for its quota data: the plan level ("unknown"
/// when not known), the balance and Git branch; then the five-hour part (with
/// its bar) and the MCP part (with its bar; only for a positive total).
pub open spec fn status_text_of(
    q: QuotaData,
    balance: Option<Seq<char>>,
    git: Seq<char>,
    hour5_bar: Seq<char>,
    mcp_bar: Seq<char>,
    now: int,
) -> Seq<char> {
    let level = match q.level {
        Some(l) => l@,
        None => "unknown"@,
    };
    let hour5 = match q.hour5_pct {
        Some(p) => Some("5h "@ + hour5_bar + hour5_suffix(q.hour5_next_reset, now)),
        None => None,
    };
    let mcp = match (q.mcp_used, q.mcp_total) {
        (Some(u), Some(t)) => if t > 0 {
            Some(
                "MCP "@ + mcp_bar + " ("@ + int_text(u as int) + "/"@ + int_text(t as int) + mcp_time(
                    q.mcp_next_reset,
                    now,
                    " | "@,
                ) + ")"@,
            )
        } else {
            None
        },
        _ => None,
    };
    status_block(status_head(level, balance, git), maybe(hour5) + maybe(mcp))
}

fn push_head(s: &mut String, balance: Option<&str>, git: &str)
    ensures
        final(s)@ == old(s)@ + match balance {
            Some(b) => " | ¥"@ + b@,
            None => seq![],
        } + if git@.len() > 0 {
            " | Git ("@ + git@ + ")"@
        } else {
            seq![]
        },
{
    let ghost start = s@;
    if let Some(b) = balance {
        s.append(" | ¥");
        s.append(b);
    }
    let ghost mid = s@;
    if git.unicode_len() > 0 {
        s.append(" | Git (");
        s.append(git);
        s.append(")");
    }
    assert(s@ =~= start + match balance {
        Some(b) => " | ¥"@ + b@,
        None => seq![],
    } + if git@.len() > 0 {
        " | Git ("@ + git@ + ")"@
    } else {
        seq![]
    });
}

fn finish_block(head: String, parts: &Vec<String>) -> (r: String)
    ensures
        r@ == status_block(head@, texts(parts@)),
{
    if parts.len() == 0 {
        head
    } else {
        let mut s = head;
        s.append("\n");
        let j = join_strings(parts, " | ");
        s.append(j.as_str());
        s
    }
}

/// The status program's text. The two bars, drawn from floating-point
/// figures, come ready-made.
pub fn status_text(
    quota: &QuotaData,
    balance_text: Option<&str>,
    git_branch: &str,
    hour5_bar: &str,
    mcp_bar: &str,
    now_ms: i64,
) -> (r: String)
    ensures
        r@ == status_text_of(
            *quota,
            match balance_text {
                Some(b) => Some(b@),
                None => None,
            },
            git_branch@,
            hour5_bar@,
            mcp_bar@,
            now_ms as int,
        ),
{
    let mut head = owned("ZhipuKit ");
    let up = match &quota.level {
        Some(l) => to_upper(l.as_str()),
        None => to_upper("unknown"),
    };
    head.append(up.as_str());
    push_head(&mut head, balance_text, git_branch);
    let mut parts: Vec<String> = Vec::new();
    assert(texts(parts@) =~= Seq::<Seq<char>>::empty());
    let hour5 = match quota.hour5_pct {
        Some(_) => {
            let mut s = owned("5h ");
            s.append(hour5_bar);
            push_hour5_suffix(&mut s, quota.hour5_next_reset, now_ms);
            Some(s)
        },
        None => None,
    };
    push_some(&mut parts, hour5);
    let mcp = match (quota.mcp_used, quota.mcp_total) {
        (Some(u), Some(t)) => if t > 0 {
            let mut s = owned("MCP ");
            s.append(mcp_bar);
            s.append(" (");
            push_int(&mut s, u as i128);
            s.append("/");
            push_int(&mut s, t as i128);
            push_mcp_time(&mut s, quota.mcp_next_reset, now_ms, " | ");
            s.append(")");
            Some(s)
        } else {
            None
        },
        _ => None,
    };
    push_some(&mut parts, mcp);
    let r = finish_block(head, &parts);
    assert(r@ =~= status_text_of(
        *quota,
        match balance_text {
            Some(b) => Some(b@),
            None => None,
        },
        git_branch@,
        hour5_bar@,
        mcp_bar@,
        now_ms as int,
    ));
    r
}

/// A reset time when it is positive.
pub open spec fn positive_time(t: i64) -> Option<i64> {
    if t > 0 {
        Some(t)
    } else {
        None
    }
}

/// The app's status text kept for the status line: plan level in upper case,
/// balance and Git branch; the five-hour part (when its percentage is
/// positive) as `"5h {bar} {p}%"`, the status program's format; the MCP
/// part when the total is positive.
pub open spec fn tray_status_text_of(
    p: crate::quota::CodingPlanInfo,
    amount: Seq<char>,
    git: Seq<char>,
    hour5_bar: Seq<char>,
    mcp_bar: Seq<char>,
    now: int,
) -> Seq<char> {
    let hour5 = if p.hour5_percentage > 0 {
        Some(
            "5h "@ + hour5_bar + " "@ + int_text(p.hour5_percentage as int) + "%"@ + hour5_suffix(
                positive_time(p.hour5_next_reset),
                now,
            ),
        )
    } else {
        None
    };
    let mcp = if p.mcp_total > 0 {
        Some(
            "MCP "@ + mcp_bar + " ("@ + int_text(p.mcp_used as int) + "/"@ + int_text(
                p.mcp_total as int,
            ) + mcp_time(positive_time(p.mcp_next_reset), now, " | "@) + ")"@,
        )
    } else {
        None
    };
    status_block(status_head(p.level@, Some(amount), git), maybe(hour5) + maybe(mcp))
}

/// The app's status text for the status line. The bars, drawn from
/// floating-point figures, come ready-made.
pub fn tray_status_text(
    plan: &crate::quota::CodingPlanInfo,
    amount: &str,
    git_branch: &str,
    hour5_bar: &str,
    mcp_bar: &str,
    now_ms: i64,
) -> (r: String)
    ensures
        r@ == tray_status_text_of(*plan, amount@, git_branch@, hour5_bar@, mcp_bar@, now_ms as int),
{
    let mut head = owned("ZhipuKit ");
    let up = to_upper(plan.level.as_str());
    head.append(up.as_str());
    push_head(&mut head, Some(amount), git_branch);
    let mut parts: Vec<String> = Vec::new();
    assert(texts(parts@) =~= Seq::<Seq<char>>::empty());
    let hour5 = if plan.hour5_percentage > 0 {
        let mut s = owned("5h ");
        s.append(hour5_bar);
        s.append(" ");
        push_int(&mut s, plan.hour5_percentage as i128);
        s.append("%");
        let reset = if plan.hour5_next_reset > 0 {
            Some(plan.hour5_next_reset)
        } else {
            None
        };
        push_hour5_suffix(&mut s, reset, now_ms);
        Some(s)
    } else {
        None
    };
    push_some(&mut parts, hour5);
    let mcp = if plan.mcp_total > 0 {
        let mut s = owned("MCP ");
        s.append(mcp_bar);
        s.append(" (");
        push_int(&mut s, plan.mcp_used as i128);
        s.append("/");
        push_int(&mut s, plan.mcp_total as i128);
        let reset = if plan.mcp_next_reset > 0 {
            Some(plan.mcp_next_reset)
        } else {
            None
        };
        push_mcp_time(&mut s, reset, now_ms, " | ");
        s.append(")");
        Some(s)
    } else {
        None
    };
    push_some(&mut parts, mcp);
    let r = finish_block(head, &parts);
    assert(r@ =~= tray_status_text_of(*plan, amount@, git_branch@, hour5_bar@, mcp_bar@, now_ms as int));
    r
}

/// The tray tooltip's parts: the balance; the five-hour percentage, the
/// weekly one when positive, and the MCP calls when the total is positive.
pub open spec fn tooltip_parts(balance: Option<Seq<char>>, plan: Option<crate::quota::CodingPlanInfo>) -> Seq<
    Seq<char>,
> {
    maybe(
        match balance {
            Some(b) => Some("¥"@ + b),
            None => None,
        },
    ) + match plan {
        Some(p) => seq!["5h "@ + int_text(p.hour5_percentage as int) + "%"@] + maybe(
            if p.weekly_percentage > 0 {
                Some("周 "@ + int_text(p.weekly_percentage as int) + "%"@)
            } else {
                None
            },
        ) + maybe(
            if p.mcp_total > 0 {
                Some("MCP "@ + int_text(p.mcp_used as int) + "/"@ + int_text(p.mcp_total as int))
            } else {
                None
            },
        ),
        None => seq![],
    }
}

/// The tray tooltip: its parts joined by `" | "`, or `"ZhipuKit"` when there
/// are none.
pub open spec fn tooltip_of(balance: Option<Seq<char>>, plan: Option<crate::quota::CodingPlanInfo>) -> Seq<
    char,
> {
    if tooltip_parts(balance, plan).len() == 0 {
        "ZhipuKit"@
    } else {
        join(tooltip_parts(balance, plan), " | "@)
    }
}

/// The tray tooltip for the balance (an amount already written out) and the
/// coding plan, each when known.
pub fn tray_tooltip(balance: Option<&str>, plan: Option<&crate::quota::CodingPlanInfo>) -> (r: String)
    ensures
        r@ == tooltip_of(
            match balance {
                Some(b) => Some(b@),
                None => None,
            },
            match plan {
                Some(p) => Some(*p),
                None => None,
            },
        ),
{
    let mut parts: Vec<String> = Vec::new();
    assert(texts(parts@) =~= Seq::<Seq<char>>::empty());
    push_some(
        &mut parts,
        match balance {
            Some(b) => Some(format_balance_text(b)),
            None => None,
        },
    );
    if let Some(p) = plan {
        let mut s = owned("5h ");
        push_int(&mut s, p.hour5_percentage as i128);
        s.append("%");
        push_some(&mut parts, Some(s));
        let weekly = if p.weekly_percentage > 0 {
            let mut w = owned("周 ");
            push_int(&mut w, p.weekly_percentage as i128);
            w.append("%");
            Some(w)
        } else {
            None
        };
        push_some(&mut parts, weekly);
        let mcp = if p.mcp_total > 0 {
            let mut m = owned("MCP ");
            push_int(&mut m, p.mcp_used as i128);
            m.append("/");
            push_int(&mut m, p.mcp_total as i128);
            Some(m)
        } else {
            None
        };
        push_some(&mut parts, mcp);
    }
    let ghost bv = match balance {
        Some(b) => Some(b@),
        None => None,
    };
    let ghost pv = match plan {
        Some(p) => Some(*p),
        None => None,
    };
    assert(texts(parts@) =~= tooltip_parts(bv, pv));
    if parts.len() == 0 {
        owned("ZhipuKit")
    } else {
        join_strings(&parts, " | ")
    }
}

/// A row that holds `seg`.
pub open spec fn shows(rows: Seq<Seq<Seq<char>>>, seg: Seq<char>) -> bool {
    exists|i: int| 0 <= i < rows.len() && #[trigger] rows[i].contains(seg)
}

proof fn lemma_shows(rows3: Seq<Seq<Seq<char>>>, k: int, j: int)
    requires
        0 <= k < rows3.len(),
        0 <= j < rows3[k].len(),
    ensures
        shows(non_empty_rows(rows3), rows3[k][j]),
{
    lemma_rows_kept(rows3, k);
    let rows = non_empty_rows(rows3);
    let i = choose|i: int| 0 <= i < rows.len() && rows[i] == rows3[k];
    assert(rows[i].contains(rows3[k][j]));
}

/// Every segment that the figures and texts call for is shown on the status
/// line (the tier for a known plan level, the balance, the Git branch, the
/// model, the context, the five-hour window whenever its percentage is
/// known, and the MCP calls for a positive total), and no row is empty.
pub proof fn law_segments_shown(
    q: QuotaData,
    balance: Option<Seq<char>>,
    context: Option<Seq<char>>,
    model: Option<Seq<char>>,
    git_branch: Option<Seq<char>>,
    now: int,
)
    ensures
        forall|i: int|
            0 <= i < segment_rows(q, balance, context, model, git_branch, now).len() ==> (
            #[trigger] segment_rows(q, balance, context, model, git_branch, now)[i]).len() > 0,
        q.level matches Some(l) ==> shows(
            segment_rows(q, balance, context, model, git_branch, now),
            "ZhipuKit "@ + uppercase_of(l@),
        ),
        balance matches Some(b) ==> shows(
            segment_rows(q, balance, context, model, git_branch, now),
            "¥"@ + b,
        ),
        git_branch matches Some(g) ==> shows(
            segment_rows(q, balance, context, model, git_branch, now),
            "Git ("@ + g + ")"@,
        ),
        model matches Some(m) ==> shows(
            segment_rows(q, balance, context, model, git_branch, now),
            "Model ("@ + m + ")"@,
        ),
        context matches Some(c) ==> shows(segment_rows(q, balance, context, model, git_branch, now), c),
        q.hour5_pct matches Some(p) ==> shows(
            segment_rows(q, balance, context, model, git_branch, now),
            hour5_text(p as int, q.hour5_next_reset, now),
        ),
        (q.mcp_used matches Some(u) && q.mcp_total matches Some(t) && t > 0) ==> shows(
            segment_rows(q, balance, context, model, git_branch, now),
            mcp_text(q.mcp_used.unwrap() as int, q.mcp_total.unwrap() as int, q.mcp_next_reset, now),
        ),
{
    let rows = segment_rows(q, balance, context, model, git_branch, now);
    let row0a = maybe(
        match q.level {
            Some(l) => Some("ZhipuKit "@ + uppercase_of(l@)),
            None => None,
        },
    );
    let row0b = maybe(
        match balance {
            Some(b) => Some("¥"@ + b),
            None => None,
        },
    );
    let row0c = maybe(
        match git_branch {
            Some(g) => Some("Git ("@ + g + ")"@),
            None => None,
        },
    );
    let row1a = maybe(
        match model {
            Some(m) => Some("Model ("@ + m + ")"@),
            None => None,
        },
    );
    let row1b = maybe(context);
    let row2a = maybe(
        match q.hour5_pct {
            Some(p) => Some(hour5_text(p as int, q.hour5_next_reset, now)),
            None => None,
        },
    );
    let row2b = maybe(
        match (q.mcp_used, q.mcp_total) {
            (Some(u), Some(t)) => if t > 0 {
                Some(mcp_text(u as int, t as int, q.mcp_next_reset, now))
            } else {
                None
            },
            _ => None,
        },
    );
    let rows3 = seq![row0a + row0b + row0c, row1a + row1b, row2a + row2b];
    assert(rows == non_empty_rows(rows3));
    assert forall|i: int| 0 <= i < rows.len() implies (#[trigger] rows[i]).len() > 0 by {
        lemma_rows_not_empty(rows3, i);
    }
    if q.level is Some {
        lemma_shows(rows3, 0, 0);
    }
    if balance is Some {
        lemma_shows(rows3, 0, row0a.len() as int);
    }
    if git_branch is Some {
        lemma_shows(rows3, 0, (row0a.len() + row0b.len()) as int);
    }
    if model is Some {
        lemma_shows(rows3, 1, 0);
    }
    if context is Some {
        lemma_shows(rows3, 1, row1a.len() as int);
    }
    if q.hour5_pct is Some {
        lemma_shows(rows3, 2, 0);
    }
    if q.mcp_used is Some && q.mcp_total is Some && q.mcp_total.unwrap() > 0 {
        lemma_shows(rows3, 2, row2a.len() as int);
    }
}

} // verus!
