//! The coding-plan quota: the data kept about it, how the API's replies are
//! read into it, and the cache of it that the status-line program keeps.
use vstd::prelude::*;

use crate::json::{
    compact_json, field, field_of, flag_of, int_of, items_of, items_view, opt_view, parse_json,
    parsed_json, render_compact, text_of, Json, JsonVal,
};
use crate::text::{opt_text, owned};

verus! {

/// The quota figures that the status line shows (the account balance, a
/// floating-point amount, is kept beside it by the caller).
pub struct QuotaData {
    pub level: Option<String>,
    pub hour5_pct: Option<i64>,
    pub hour5_next_reset: Option<i64>,
    pub weekly_pct: Option<i64>,
    pub weekly_next_reset: Option<i64>,
    pub mcp_used: Option<i64>,
    pub mcp_total: Option<i64>,
    pub mcp_next_reset: Option<i64>,
}

/// Quota data with nothing known.
pub open spec fn no_quota(q: QuotaData) -> bool {
    &&& q.level is None
    &&& q.hour5_pct is None
    &&& q.hour5_next_reset is None
    &&& q.weekly_pct is None
    &&& q.weekly_next_reset is None
    &&& q.mcp_used is None
    &&& q.mcp_total is None
    &&& q.mcp_next_reset is None
}

impl Default for QuotaData {
    fn default() -> (r: Self)
        ensures
            no_quota(r),
    {
        QuotaData {
            level: None,
            hour5_pct: None,
            hour5_next_reset: None,
            weekly_pct: None,
            weekly_next_reset: None,
            mcp_used: None,
            mcp_total: None,
            mcp_next_reset: None,
        }
    }
}

/// The values of a `QuotaData`.
pub struct QuotaView {
    pub level: Option<Seq<char>>,
    pub hour5_pct: Option<i64>,
    pub hour5_next_reset: Option<i64>,
    pub weekly_pct: Option<i64>,
    pub weekly_next_reset: Option<i64>,
    pub mcp_used: Option<i64>,
    pub mcp_total: Option<i64>,
    pub mcp_next_reset: Option<i64>,
}

pub open spec fn quota_view(q: QuotaData) -> QuotaView {
    QuotaView {
        level: opt_text(q.level),
        hour5_pct: q.hour5_pct,
        hour5_next_reset: q.hour5_next_reset,
        weekly_pct: q.weekly_pct,
        weekly_next_reset: q.weekly_next_reset,
        mcp_used: q.mcp_used,
        mcp_total: q.mcp_total,
        mcp_next_reset: q.mcp_next_reset,
    }
}

/// Nothing known.
pub open spec fn empty_quota() -> QuotaView {
    QuotaView {
        level: None,
        hour5_pct: None,
        hour5_next_reset: None,
        weekly_pct: None,
        weekly_next_reset: None,
        mcp_used: None,
        mcp_total: None,
        mcp_next_reset: None,
    }
}

/// `o.and_then(|v| v.as_str()).unwrap_or(d)`.
pub open spec fn text_or(o: Option<JsonVal>, d: Seq<char>) -> Seq<char> {
    match text_of(o) {
        Some(s) => s,
        None => d,
    }
}

/// `o.and_then(|v| v.as_i64()).unwrap_or(d)`.
pub open spec fn int_or(o: Option<JsonVal>, d: i64) -> i64 {
    match int_of(o) {
        Some(i) => i,
        None => d,
    }
}

/// The kind of a quota limit (`type`), or empty.
pub open spec fn limit_kind(l: JsonVal) -> Seq<char> {
    text_or(field(l, "type"@), Seq::empty())
}

/// Takes one quota limit into account: `TIME_LIMIT` gives the MCP figures;
/// the first `TOKENS_LIMIT` the five-hour window and any later one the
/// weekly window (percentage 0 when missing); other limits are ignored.
/// The count is that of the `TOKENS_LIMIT` entries seen so far.
pub open spec fn take_limit(st: (QuotaView, int), l: JsonVal) -> (QuotaView, int) {
    let (q, n) = st;
    if limit_kind(l) == "TIME_LIMIT"@ {
        (
            QuotaView {
                mcp_total: int_of(field(l, "usage"@)),
                mcp_used: int_of(field(l, "currentValue"@)),
                mcp_next_reset: int_of(field(l, "nextResetTime"@)),
                ..q
            },
            n,
        )
    } else if limit_kind(l) == "TOKENS_LIMIT"@ {
        let pct = int_or(field(l, "percentage"@), 0);
        let next = int_of(field(l, "nextResetTime"@));
        if n == 0 {
            (QuotaView { hour5_pct: Some(pct), hour5_next_reset: next, ..q }, n + 1)
        } else {
            (QuotaView { weekly_pct: Some(pct), weekly_next_reset: next, ..q }, n + 1)
        }
    } else {
        st
    }
}

/// The limits taken into account in order.
pub open spec fn take_limits(st: (QuotaView, int), ls: Seq<JsonVal>) -> (QuotaView, int)
    decreases ls.len(),
{
    if ls.len() == 0 {
        st
    } else {
        take_limit(take_limits(st, ls.drop_last()), ls.last())
    }
}

/// A quota limit whose `type` is `kind`.
pub open spec fn has_type(l: JsonVal, kind: Seq<char>) -> bool {
    text_of(field(l, "type"@)) == Some(kind)
}

/// How many limits in a list are of type `kind`.
pub open spec fn count_type(ls: Seq<JsonVal>, kind: Seq<char>) -> nat
    decreases ls.len(),
{
    if ls.len() == 0 {
        0
    } else {
        count_type(ls.drop_last(), kind) + if has_type(ls.last(), kind) {
            1nat
        } else {
            0nat
        }
    }
}

proof fn lemma_count_step(s: Seq<JsonVal>, kind: Seq<char>, j: int)
    requires
        0 <= j < s.len(),
    ensures
        count_type(s.take(j + 1), kind) == count_type(s.take(j), kind) + if has_type(s[j], kind) {
            1nat
        } else {
            0nat
        },
{
    assert(s.take(j + 1).drop_last() =~= s.take(j));
}

proof fn lemma_count_prefix(s: Seq<JsonVal>, kind: Seq<char>, k: int)
    requires
        0 <= k <= s.len(),
    ensures
        count_type(s.take(k), kind) <= count_type(s, kind),
    decreases s.len() - k,
{
    if k < s.len() {
        lemma_count_prefix(s, kind, k + 1);
        lemma_count_step(s, kind, k);
    } else {
        assert(s.take(k) =~= s);
    }
}

proof fn lemma_kinds(l: JsonVal)
    ensures
        (limit_kind(l) == "TIME_LIMIT"@) == has_type(l, "TIME_LIMIT"@),
        (limit_kind(l) == "TOKENS_LIMIT"@) == has_type(l, "TOKENS_LIMIT"@),
        !(has_type(l, "TIME_LIMIT"@) && has_type(l, "TOKENS_LIMIT"@)),
{
    reveal_strlit("TIME_LIMIT");
    reveal_strlit("TOKENS_LIMIT");
    assert("TIME_LIMIT"@.len() != "TOKENS_LIMIT"@.len());
}

/// The percentage of a limit, 0 when missing.
pub open spec fn limit_pct(l: JsonVal) -> i64 {
    match int_of(field(l, "percentage"@)) {
        Some(p) => p,
        None => 0,
    }
}

proof fn lemma_take_limits(base: QuotaView, ls: Seq<JsonVal>)
    requires
        base.hour5_pct is None,
        base.hour5_next_reset is None,
        base.weekly_pct is None,
        base.weekly_next_reset is None,
        base.mcp_used is None,
        base.mcp_total is None,
        base.mcp_next_reset is None,
    ensures
        ({
            let tok = "TOKENS_LIMIT"@;
            let time = "TIME_LIMIT"@;
            let r = take_limits((base, 0), ls);
            &&& r.1 == count_type(ls, tok)
            &&& r.0.level == base.level
            &&& forall|j: int|
                0 <= j < ls.len() && has_type(ls[j], tok) && count_type(ls.take(j), tok) == 0
                    ==> r.0.hour5_pct == Some(limit_pct(#[trigger] ls[j])) && r.0.hour5_next_reset
                    == int_of(field(ls[j], "nextResetTime"@))
            &&& count_type(ls, tok) == 0 ==> r.0.hour5_pct is None && r.0.hour5_next_reset is None
            &&& forall|j: int|
                0 <= j < ls.len() && has_type(ls[j], tok) && count_type(ls.take(j), tok) >= 1
                    && count_type(ls.take(j + 1), tok) == count_type(ls, tok) ==> r.0.weekly_pct
                    == Some(limit_pct(#[trigger] ls[j])) && r.0.weekly_next_reset == int_of(
                    field(ls[j], "nextResetTime"@),
                )
            &&& count_type(ls, tok) <= 1 ==> r.0.weekly_pct is None && r.0.weekly_next_reset is None
            &&& forall|j: int|
                0 <= j < ls.len() && has_type(ls[j], time) && count_type(ls.take(j + 1), time)
                    == count_type(ls, time) ==> r.0.mcp_total == int_of(field(#[trigger] ls[j], "usage"@))
                    && r.0.mcp_used == int_of(field(ls[j], "currentValue"@)) && r.0.mcp_next_reset
                    == int_of(field(ls[j], "nextResetTime"@))
            &&& count_type(ls, time) == 0 ==> r.0.mcp_total is None && r.0.mcp_used is None
                && r.0.mcp_next_reset is None
        }),
    decreases ls.len(),
{
    let tok = "TOKENS_LIMIT"@;
    let time = "TIME_LIMIT"@;
    if ls.len() > 0 {
        let pre = ls.drop_last();
        let l = ls.last();
        let n = ls.len() - 1;
        lemma_take_limits(base, pre);
        lemma_kinds(l);
        let rp = take_limits((base, 0), pre);
        let r = take_limits((base, 0), ls);
        assert(r == take_limit(rp, l));
        assert(ls[n] == l);
        assert(ls.take(n) =~= pre);
        assert(ls.take(n + 1) =~= ls);
        assert forall|j: int|
            0 <= j < ls.len() && has_type(ls[j], tok) && count_type(ls.take(j), tok) == 0 implies r.0.hour5_pct
            == Some(limit_pct(#[trigger] ls[j])) && r.0.hour5_next_reset == int_of(
            field(ls[j], "nextResetTime"@),
        ) by {
            if j < n {
                assert(ls[j] == pre[j]);
                assert(ls.take(j) =~= pre.take(j));
                lemma_count_step(pre, tok, j);
                lemma_count_prefix(pre, tok, j + 1);
            }
        }
        assert forall|j: int|
            0 <= j < ls.len() && has_type(ls[j], tok) && count_type(ls.take(j), tok) >= 1
                && count_type(ls.take(j + 1), tok) == count_type(ls, tok) implies r.0.weekly_pct
            == Some(limit_pct(#[trigger] ls[j])) && r.0.weekly_next_reset == int_of(
            field(ls[j], "nextResetTime"@),
        ) by {
            if j < n {
                assert(ls[j] == pre[j]);
                assert(ls.take(j) =~= pre.take(j));
                assert(ls.take(j + 1) =~= pre.take(j + 1));
                lemma_count_prefix(pre, tok, j + 1);
            }
        }
        assert forall|j: int|
            0 <= j < ls.len() && has_type(ls[j], time) && count_type(ls.take(j + 1), time) == count_type(
                ls,
                time,
            ) implies r.0.mcp_total == int_of(field(#[trigger] ls[j], "usage"@)) && r.0.mcp_used
            == int_of(field(ls[j], "currentValue"@)) && r.0.mcp_next_reset == int_of(
            field(ls[j], "nextResetTime"@),
        ) by {
            if j < n {
                assert(ls[j] == pre[j]);
                assert(ls.take(j + 1) =~= pre.take(j + 1));
                lemma_count_prefix(pre, time, j + 1);
            }
        }
    }
}

/// A member read as an `i64`, 0 when missing.
pub open spec fn int_or_zero(l: JsonVal, k: Seq<char>) -> i64 {
    match int_of(field(l, k)) {
        Some(v) => v,
        None => 0,
    }
}

proof fn lemma_take_plan_limits(ls: Seq<JsonVal>)
    ensures
        ({
            let tok = "TOKENS_LIMIT"@;
            let time = "TIME_LIMIT"@;
            let r = take_plan_limits(((0, 0, 0, 0, 0, 0, 0, 0), 0), ls);
            let p = r.0;
            &&& r.1 == count_type(ls, tok)
            &&& forall|j: int|
                0 <= j < ls.len() && has_type(ls[j], tok) && count_type(ls.take(j), tok) == 0
                    ==> p.0 == int_or_zero(#[trigger] ls[j], "percentage"@) && p.1 == int_or_zero(
                    ls[j],
                    "nextResetTime"@,
                )
            &&& count_type(ls, tok) == 0 ==> p.0 == 0 && p.1 == 0
            &&& forall|j: int|
                0 <= j < ls.len() && has_type(ls[j], tok) && count_type(ls.take(j), tok) >= 1
                    && count_type(ls.take(j + 1), tok) == count_type(ls, tok) ==> p.2 == int_or_zero(
                    #[trigger] ls[j],
                    "percentage"@,
                ) && p.3 == int_or_zero(ls[j], "nextResetTime"@)
            &&& count_type(ls, tok) <= 1 ==> p.2 == 0 && p.3 == 0
            &&& forall|j: int|
                0 <= j < ls.len() && has_type(ls[j], time) && count_type(ls.take(j + 1), time)
                    == count_type(ls, time) ==> p.4 == int_or_zero(#[trigger] ls[j], "usage"@) && p.5
                    == int_or_zero(ls[j], "currentValue"@) && p.6 == int_or_zero(ls[j], "remaining"@)
                    && p.7 == int_or_zero(ls[j], "nextResetTime"@)
            &&& count_type(ls, time) == 0 ==> p.4 == 0 && p.5 == 0 && p.6 == 0 && p.7 == 0
        }),
    decreases ls.len(),
{
    let tok = "TOKENS_LIMIT"@;
    let time = "TIME_LIMIT"@;
    if ls.len() > 0 {
        let pre = ls.drop_last();
        let l = ls.last();
        let n = ls.len() - 1;
        lemma_take_plan_limits(pre);
        lemma_kinds(l);
        let rp = take_plan_limits(((0, 0, 0, 0, 0, 0, 0, 0), 0), pre);
        let r = take_plan_limits(((0, 0, 0, 0, 0, 0, 0, 0), 0), ls);
        assert(r == take_plan_limit(rp, l));
        assert(ls[n] == l);
        assert(ls.take(n) =~= pre);
        assert(ls.take(n + 1) =~= ls);
        assert forall|j: int|
            0 <= j < ls.len() && has_type(ls[j], tok) && count_type(ls.take(j), tok) == 0 implies r.0.0
            == int_or_zero(#[trigger] ls[j], "percentage"@) && r.0.1 == int_or_zero(
            ls[j],
            "nextResetTime"@,
        ) by {
            if j < n {
                assert(ls[j] == pre[j]);
                assert(ls.take(j) =~= pre.take(j));
                lemma_count_step(pre, tok, j);
                lemma_count_prefix(pre, tok, j + 1);
            }
        }
        assert forall|j: int|
            0 <= j < ls.len() && has_type(ls[j], tok) && count_type(ls.take(j), tok) >= 1
                && count_type(ls.take(j + 1), tok) == count_type(ls, tok) implies r.0.2 == int_or_zero(
            #[trigger] ls[j],
            "percentage"@,
        ) && r.0.3 == int_or_zero(ls[j], "nextResetTime"@) by {
            if j < n {
                assert(ls[j] == pre[j]);
                assert(ls.take(j) =~= pre.take(j));
                assert(ls.take(j + 1) =~= pre.take(j + 1));
                lemma_count_prefix(pre, tok, j + 1);
            }
        }
        assert forall|j: int|
            0 <= j < ls.len() && has_type(ls[j], time) && count_type(ls.take(j + 1), time) == count_type(
                ls,
                time,
            ) implies r.0.4 == int_or_zero(#[trigger] ls[j], "usage"@) && r.0.5 == int_or_zero(
            ls[j],
            "currentValue"@,
        ) && r.0.6 == int_or_zero(ls[j], "remaining"@) && r.0.7 == int_or_zero(
            ls[j],
            "nextResetTime"@,
        ) by {
            if j < n {
                assert(ls[j] == pre[j]);
                assert(ls.take(j + 1) =~= pre.take(j + 1));
                lemma_count_prefix(pre, time, j + 1);
            }
        }
    }
}

/// What `query_coding_plan` makes of a reply: the error "not successful"
/// with the reply's `msg` (or "未知错误") unless `success` is true; the error
/// "no data" without `data`; else the plan's `level` ("unknown" when
/// missing), the five-hour figures of the first `TOKENS_LIMIT` limit whatever
/// limits of other types come before it, the weekly figures of the last one
/// when there are two or more, and the MCP figures of the last `TIME_LIMIT`
/// limit, each 0 when missing.
pub proof fn law_coding_plan(reply: JsonVal, plan: JsonVal, ls: Seq<JsonVal>)
    ensures
        field(reply, "success"@) != Some(JsonVal::Bool(true)) ==> plan_info_in(reply) == Err::<
            (Seq<char>, (i64, i64, i64, i64, i64, i64, i64, i64)),
            _,
        >(
            Some(
                match text_of(field(reply, "msg"@)) {
                    Some(m) => m,
                    None => "未知错误"@,
                },
            ),
        ),
        field(reply, "success"@) == Some(JsonVal::Bool(true)) && field(reply, "data"@) is None
            ==> plan_info_in(reply) == Err::<(Seq<char>, (i64, i64, i64, i64, i64, i64, i64, i64)), _>(
            None::<Seq<char>>,
        ),
        ({
            let tok = "TOKENS_LIMIT"@;
            let time = "TIME_LIMIT"@;
            field(reply, "success"@) == Some(JsonVal::Bool(true)) && field(reply, "data"@) == Some(plan)
                && field(plan, "limits"@) == Some(JsonVal::Arr(ls)) ==> {
                &&& plan_info_in(reply) is Ok
                &&& plan_info_in(reply)->Ok_0.0 == match text_of(field(plan, "level"@)) {
                    Some(v) => v,
                    None => "unknown"@,
                }
                &&& forall|j: int|
                    0 <= j < ls.len() && has_type(ls[j], tok) && count_type(ls.take(j), tok) == 0
                        ==> plan_info_in(reply)->Ok_0.1.0 == int_or_zero(#[trigger] ls[j], "percentage"@)
                        && plan_info_in(reply)->Ok_0.1.1 == int_or_zero(ls[j], "nextResetTime"@)
                &&& count_type(ls, tok) == 0 ==> plan_info_in(reply)->Ok_0.1.0 == 0
                    && plan_info_in(reply)->Ok_0.1.1 == 0
                &&& forall|j: int|
                    0 <= j < ls.len() && has_type(ls[j], tok) && count_type(ls.take(j), tok) >= 1
                        && count_type(ls.take(j + 1), tok) == count_type(ls, tok)
                        ==> plan_info_in(reply)->Ok_0.1.2 == int_or_zero(#[trigger] ls[j], "percentage"@)
                        && plan_info_in(reply)->Ok_0.1.3 == int_or_zero(ls[j], "nextResetTime"@)
                &&& count_type(ls, tok) <= 1 ==> plan_info_in(reply)->Ok_0.1.2 == 0
                    && plan_info_in(reply)->Ok_0.1.3 == 0
                &&& forall|j: int|
                    0 <= j < ls.len() && has_type(ls[j], time) && count_type(ls.take(j + 1), time)
                        == count_type(ls, time) ==> plan_info_in(reply)->Ok_0.1.4 == int_or_zero(
                        #[trigger] ls[j],
                        "usage"@,
                    ) && plan_info_in(reply)->Ok_0.1.5 == int_or_zero(ls[j], "currentValue"@)
                        && plan_info_in(reply)->Ok_0.1.6 == int_or_zero(ls[j], "remaining"@)
                        && plan_info_in(reply)->Ok_0.1.7 == int_or_zero(ls[j], "nextResetTime"@)
                &&& count_type(ls, time) == 0 ==> plan_info_in(reply)->Ok_0.1.4 == 0
                    && plan_info_in(reply)->Ok_0.1.5 == 0 && plan_info_in(reply)->Ok_0.1.6 == 0
                    && plan_info_in(reply)->Ok_0.1.7 == 0
            }
        }),
{
    lemma_take_plan_limits(ls);
}

/// What a coding-plan reply gives: nothing unless `success` is true and
/// there is `data`; then the plan's `level`; the five-hour figures of the
/// first `TOKENS_LIMIT` limit, whatever limits of other types come before
/// it; the weekly figures of the last one when there are two or more; the
/// MCP figures of the last `TIME_LIMIT` limit; each missing when there is no
/// such limit.
pub proof fn law_plan_quota(reply: JsonVal, plan: JsonVal, ls: Seq<JsonVal>)
    ensures
        field(reply, "success"@) != Some(JsonVal::Bool(true)) ==> plan_quota_in(reply) == empty_quota(),
        field(reply, "data"@) is None ==> plan_quota_in(reply) == empty_quota(),
        ({
            let q = plan_quota_in(reply);
            let tok = "TOKENS_LIMIT"@;
            let time = "TIME_LIMIT"@;
            field(reply, "success"@) == Some(JsonVal::Bool(true)) && field(reply, "data"@) == Some(plan)
                && field(plan, "limits"@) == Some(JsonVal::Arr(ls)) ==> {
                &&& q.level == text_of(field(plan, "level"@))
                &&& forall|j: int|
                    0 <= j < ls.len() && has_type(ls[j], tok) && count_type(ls.take(j), tok) == 0
                        ==> q.hour5_pct == Some(limit_pct(#[trigger] ls[j])) && q.hour5_next_reset
                        == int_of(field(ls[j], "nextResetTime"@))
                &&& count_type(ls, tok) == 0 ==> q.hour5_pct is None && q.hour5_next_reset is None
                &&& forall|j: int|
                    0 <= j < ls.len() && has_type(ls[j], tok) && count_type(ls.take(j), tok) >= 1
                        && count_type(ls.take(j + 1), tok) == count_type(ls, tok) ==> q.weekly_pct
                        == Some(limit_pct(#[trigger] ls[j])) && q.weekly_next_reset == int_of(
                        field(ls[j], "nextResetTime"@),
                    )
                &&& count_type(ls, tok) <= 1 ==> q.weekly_pct is None && q.weekly_next_reset is None
                &&& forall|j: int|
                    0 <= j < ls.len() && has_type(ls[j], time) && count_type(ls.take(j + 1), time)
                        == count_type(ls, time) ==> q.mcp_total == int_of(
                        field(#[trigger] ls[j], "usage"@),
                    ) && q.mcp_used == int_of(field(ls[j], "currentValue"@)) && q.mcp_next_reset
                        == int_of(field(ls[j], "nextResetTime"@))
                &&& count_type(ls, time) == 0 ==> q.mcp_total is None && q.mcp_used is None
                    && q.mcp_next_reset is None
            }
        }),
{
    if field(reply, "success"@) == Some(JsonVal::Bool(true)) && field(reply, "data"@) == Some(plan)
        && field(plan, "limits"@) == Some(JsonVal::Arr(ls)) {
        let base = QuotaView { level: text_of(field(plan, "level"@)), ..empty_quota() };
        lemma_take_limits(base, ls);
    }
}

/// `o.and_then(|v| v.as_bool()).unwrap_or(false)`.
pub open spec fn is_true(o: Option<JsonVal>) -> bool {
    flag_of(o) == Some(true)
}

/// The quota that a coding-plan reply reports: nothing unless `success` is
/// true and there is `data`; then the plan `level` and the `limits`.
pub open spec fn plan_quota_in(reply: JsonVal) -> QuotaView {
    if is_true(field(reply, "success"@)) && field(reply, "data"@) is Some {
        let plan = field(reply, "data"@).unwrap();
        let base = QuotaView { level: text_of(field(plan, "level"@)), ..empty_quota() };
        match items_of(field(plan, "limits"@)) {
            Some(ls) => take_limits((base, 0), ls).0,
            None => base,
        }
    } else {
        empty_quota()
    }
}

fn json_text_or(o: Option<&Json>, d: &str) -> (r: String)
    ensures
        r@ == text_or(opt_view(o), d@),
{
    match o {
        Some(v) => match v.as_str() {
            Some(s) => s.clone(),
            None => owned(d),
        },
        None => owned(d),
    }
}

fn json_int(o: Option<&Json>) -> (r: Option<i64>)
    ensures
        r == int_of(opt_view(o)),
{
    match o {
        Some(v) => v.as_i64(),
        None => None,
    }
}

fn json_int_or(o: Option<&Json>, d: i64) -> (r: i64)
    ensures
        r == int_or(opt_view(o), d),
{
    match json_int(o) {
        Some(i) => i,
        None => d,
    }
}

fn json_is_true(o: Option<&Json>) -> (r: bool)
    ensures
        r == is_true(opt_view(o)),
{
    match o {
        Some(v) => match v.as_bool() {
            Some(b) => b,
            None => false,
        },
        None => false,
    }
}

fn limit_kind_is(l: &Json, kind: &str) -> (r: bool)
    ensures
        r == (limit_kind(l@) == kind@),
{
    let t = json_text_or(l.get("type"), "");
    proof {
        reveal_strlit("");
        assert(""@ =~= Seq::<char>::empty());
    }
    crate::text::text_eq(t.as_str(), kind)
}

/// The quota that a coding-plan reply reports.
pub fn plan_quota(reply: &Json) -> (r: QuotaData)
    ensures
        quota_view(r) == plan_quota_in(reply@),
        opt_text(r.level) == plan_quota_in(reply@).level,
        r.hour5_pct == plan_quota_in(reply@).hour5_pct,
        r.hour5_next_reset == plan_quota_in(reply@).hour5_next_reset,
        r.weekly_pct == plan_quota_in(reply@).weekly_pct,
        r.weekly_next_reset == plan_quota_in(reply@).weekly_next_reset,
        r.mcp_used == plan_quota_in(reply@).mcp_used,
        r.mcp_total == plan_quota_in(reply@).mcp_total,
        r.mcp_next_reset == plan_quota_in(reply@).mcp_next_reset,
{
    let mut q = QuotaData::default();
    if !json_is_true(reply.get("success")) {
        return q;
    }
    let plan = match reply.get("data") {
        Some(p) => p,
        None => return q,
    };
    q.level = match plan.get("level") {
        Some(l) => match l.as_str() {
            Some(s) => Some(s.clone()),
            None => None,
        },
        None => None,
    };
    let limits = match plan.get("limits") {
        Some(l) => l.as_array(),
        None => None,
    };
    let ghost base = quota_view(q);
    assert(base == QuotaView { level: text_of(field(plan@, "level"@)), ..empty_quota() });
    match limits {
        Some(ls) => {
            let ghost lv = items_view(ls@);
            let mut n: u64 = 0;
            let mut i: usize = 0;
            while i < ls.len()
                invariant
                    i <= ls@.len(),
                    lv == items_view(ls@),
                    n <= i,
                    (quota_view(q), n as int) == take_limits((base, 0), lv.take(i as int)),
                decreases ls.len() - i,
            {
                assert(lv.take(i + 1).drop_last() =~= lv.take(i as int));
                let l = &ls[i];
                if limit_kind_is(l, "TIME_LIMIT") {
                    q.mcp_total = json_int(l.get("usage"));
                    q.mcp_used = json_int(l.get("currentValue"));
                    q.mcp_next_reset = json_int(l.get("nextResetTime"));
                } else if limit_kind_is(l, "TOKENS_LIMIT") {
                    let pct = json_int_or(l.get("percentage"), 0);
                    let next = json_int(l.get("nextResetTime"));
                    if n == 0 {
                        q.hour5_pct = Some(pct);
                        q.hour5_next_reset = next;
                    } else {
                        q.weekly_pct = Some(pct);
                        q.weekly_next_reset = next;
                    }
                    n += 1;
                }
                i += 1;
            }
            assert(lv.take(ls@.len() as int) =~= lv);
        },
        None => {},
    }
    q
}

// ---------------------------------------------------------------------------
// the app's coding-plan figures
// ---------------------------------------------------------------------------

/// The coding plan's figures as the app shows them (0 for anything the reply
/// leaves out).
pub struct CodingPlanInfo {
    pub level: String,
    pub hour5_percentage: i64,
    pub hour5_next_reset: i64,
    pub weekly_percentage: i64,
    pub weekly_next_reset: i64,
    pub mcp_total: i64,
    pub mcp_used: i64,
    pub mcp_remaining: i64,
    pub mcp_next_reset: i64,
}

/// One quota limit as the API reports it.
pub struct CodingQuotaLimit {
    pub limit_type: String,
    pub percentage: i64,
    pub usage: i64,
    pub current_value: i64,
    pub remaining: i64,
}

/// The numbers of a `CodingPlanInfo`, in field order.
pub open spec fn plan_numbers(p: CodingPlanInfo) -> (i64, i64, i64, i64, i64, i64, i64, i64) {
    (
        p.hour5_percentage,
        p.hour5_next_reset,
        p.weekly_percentage,
        p.weekly_next_reset,
        p.mcp_total,
        p.mcp_used,
        p.mcp_remaining,
        p.mcp_next_reset,
    )
}

/// Takes one quota limit into the app's figures: like `take_limit`, with 0
/// for every missing number, and the remaining MCP calls as well.
pub open spec fn take_plan_limit(
    st: ((i64, i64, i64, i64, i64, i64, i64, i64), int),
    l: JsonVal,
) -> ((i64, i64, i64, i64, i64, i64, i64, i64), int) {
    let (p, n) = st;
    let pct = int_or(field(l, "percentage"@), 0);
    let next = int_or(field(l, "nextResetTime"@), 0);
    if limit_kind(l) == "TIME_LIMIT"@ {
        (
            (
                p.0,
                p.1,
                p.2,
                p.3,
                int_or(field(l, "usage"@), 0),
                int_or(field(l, "currentValue"@), 0),
                int_or(field(l, "remaining"@), 0),
                next,
            ),
            n,
        )
    } else if limit_kind(l) == "TOKENS_LIMIT"@ {
        if n == 0 {
            ((pct, next, p.2, p.3, p.4, p.5, p.6, p.7), n + 1)
        } else {
            ((p.0, p.1, pct, next, p.4, p.5, p.6, p.7), n + 1)
        }
    } else {
        st
    }
}

/// The limits taken into the app's figures in order.
pub open spec fn take_plan_limits(
    st: ((i64, i64, i64, i64, i64, i64, i64, i64), int),
    ls: Seq<JsonVal>,
) -> ((i64, i64, i64, i64, i64, i64, i64, i64), int)
    decreases ls.len(),
{
    if ls.len() == 0 {
        st
    } else {
        take_plan_limit(take_plan_limits(st, ls.drop_last()), ls.last())
    }
}

/// Why a coding-plan reply gives no figures.
pub enum PlanReplyError {
    /// `success` is not true; the reply's `msg`, or "未知错误" (unknown
    /// error) without one.
    Failed(String),
    /// The reply has no `data`.
    MissingData,
}

/// What `query_coding_plan` makes of a reply: an error when `success` is not
/// true (with the reply's message) or there is no `data`; else the plan
/// `level` ("unknown" when missing) and the figures of its `limits`.
pub open spec fn plan_info_in(reply: JsonVal) -> Result<
    (Seq<char>, (i64, i64, i64, i64, i64, i64, i64, i64)),
    Option<Seq<char>>,
> {
    if !is_true(field(reply, "success"@)) {
        Err(Some(text_or(field(reply, "msg"@), "未知错误"@)))
    } else if field(reply, "data"@) is None {
        Err(None)
    } else {
        let plan = field(reply, "data"@).unwrap();
        let ls = match items_of(field(plan, "limits"@)) {
            Some(ls) => ls,
            None => Seq::empty(),
        };
        Ok(
            (
                text_or(field(plan, "level"@), "unknown"@),
                take_plan_limits(((0, 0, 0, 0, 0, 0, 0, 0), 0), ls).0,
            ),
        )
    }
}

/// The app's coding-plan figures from a reply.
pub fn coding_plan_from_reply(reply: &Json) -> (r: Result<CodingPlanInfo, PlanReplyError>)
    ensures
        match r {
            Ok(p) => plan_info_in(reply@) == Ok::<_, Option<Seq<char>>>((p.level@, plan_numbers(p))),
            Err(PlanReplyError::Failed(m)) => plan_info_in(reply@) == Err::<
                (Seq<char>, (i64, i64, i64, i64, i64, i64, i64, i64)),
                _,
            >(Some(m@)),
            Err(PlanReplyError::MissingData) => plan_info_in(reply@) == Err::<
                (Seq<char>, (i64, i64, i64, i64, i64, i64, i64, i64)),
                _,
            >(None::<Seq<char>>),
        },
        r is Ok <==> plan_info_in(reply@) is Ok,
        r matches Ok(p) ==> ({
            let t = plan_info_in(reply@)->Ok_0;
            &&& p.level@ == t.0
            &&& p.hour5_percentage == t.1.0
            &&& p.hour5_next_reset == t.1.1
            &&& p.weekly_percentage == t.1.2
            &&& p.weekly_next_reset == t.1.3
            &&& p.mcp_total == t.1.4
            &&& p.mcp_used == t.1.5
            &&& p.mcp_remaining == t.1.6
            &&& p.mcp_next_reset == t.1.7
        }),
{
    if !json_is_true(reply.get("success")) {
        return Err(PlanReplyError::Failed(json_text_or(reply.get("msg"), "未知错误")));
    }
    let plan = match reply.get("data") {
        Some(p) => p,
        None => return Err(PlanReplyError::MissingData),
    };
    let level = json_text_or(plan.get("level"), "unknown");
    let limits = match plan.get("limits") {
        Some(l) => l.as_array(),
        None => None,
    };
    let empty: Vec<Json> = Vec::new();
    let ls: &Vec<Json> = match limits {
        Some(ls) => ls,
        None => &empty,
    };
    assert(items_view(empty@) =~= Seq::<JsonVal>::empty());
    let ghost lv = items_view(ls@);
    let mut p: (i64, i64, i64, i64, i64, i64, i64, i64) = (0, 0, 0, 0, 0, 0, 0, 0);
    let mut n: u64 = 0;
    let mut i: usize = 0;
    while i < ls.len()
        invariant
            i <= ls@.len(),
            lv == items_view(ls@),
            n <= i,
            (p, n as int) == take_plan_limits(((0, 0, 0, 0, 0, 0, 0, 0), 0), lv.take(i as int)),
        decreases ls.len() - i,
    {
        assert(lv.take(i + 1).drop_last() =~= lv.take(i as int));
        let l = &ls[i];
        let pct = json_int_or(l.get("percentage"), 0);
        let next = json_int_or(l.get("nextResetTime"), 0);
        if limit_kind_is(l, "TIME_LIMIT") {
            p.4 = json_int_or(l.get("usage"), 0);
            p.5 = json_int_or(l.get("currentValue"), 0);
            p.6 = json_int_or(l.get("remaining"), 0);
            p.7 = next;
        } else if limit_kind_is(l, "TOKENS_LIMIT") {
            if n == 0 {
                p.0 = pct;
                p.1 = next;
            } else {
                p.2 = pct;
                p.3 = next;
            }
            n += 1;
        }
        i += 1;
    }
    assert(lv.take(ls@.len() as int) =~= lv);
    Ok(
        CodingPlanInfo {
            level,
            hour5_percentage: p.0,
            hour5_next_reset: p.1,
            weekly_percentage: p.2,
            weekly_next_reset: p.3,
            mcp_total: p.4,
            mcp_used: p.5,
            mcp_remaining: p.6,
            mcp_next_reset: p.7,
        },
    )
}

// ---------------------------------------------------------------------------
// token counting
// ---------------------------------------------------------------------------

/// Token counts of a chat-completion request.
#[derive(Clone, Copy, Debug, PartialEq, Eq, Structural)]
pub struct TokenCountResult {
    pub prompt_tokens: i64,
    pub completion_tokens: i64,
    pub total_tokens: i64,
}

/// The token counts in a chat-completion reply's `usage` (0 for a missing
/// count), or `None` without `usage`.
pub open spec fn token_counts_in(reply: JsonVal) -> Option<TokenCountResult> {
    match field(reply, "usage"@) {
        Some(u) => Some(
            TokenCountResult {
                prompt_tokens: int_or(field(u, "prompt_tokens"@), 0),
                completion_tokens: int_or(field(u, "completion_tokens"@), 0),
                total_tokens: int_or(field(u, "total_tokens"@), 0),
            },
        ),
        None => None,
    }
}

/// The token counts in a chat-completion reply.
pub fn token_count_from_reply(reply: &Json) -> (r: Option<TokenCountResult>)
    ensures
        r == token_counts_in(reply@),
{
    match reply.get("usage") {
        Some(u) => Some(
            TokenCountResult {
                prompt_tokens: json_int_or(u.get("prompt_tokens"), 0),
                completion_tokens: json_int_or(u.get("completion_tokens"), 0),
                total_tokens: json_int_or(u.get("total_tokens"), 0),
            },
        ),
        None => None,
    }
}

/// The chat-completion request that counts the tokens of `text`: one user
/// message and a one-token completion.
pub open spec fn token_request_json(model: Seq<char>, text: Seq<char>) -> JsonVal {
    JsonVal::Obj(
        seq![
            ("model"@, JsonVal::Str(model)),
            (
                "messages"@,
                JsonVal::Arr(
                    seq![
                        JsonVal::Obj(
                            seq![
                                ("role"@, JsonVal::Str("user"@)),
                                ("content"@, JsonVal::Str(text)),
                            ],
                        ),
                    ],
                ),
            ),
            ("max_tokens"@, JsonVal::Num(Some(1), "1"@)),
        ],
    )
}

/// The chat-completion request that counts the tokens of `text`.
pub fn token_count_request(model: &str, text: &str) -> (r: Json)
    ensures
        r@ == token_request_json(model@, text@),
{
    let mut msg: Vec<(String, Json)> = Vec::new();
    msg.push((owned("role"), Json::text("user")));
    msg.push((owned("content"), Json::text(text)));
    proof {
        crate::json::lemma_object_view(msg);
        assert(crate::json::entries_view(msg@) =~= seq![
            ("role"@, JsonVal::Str("user"@)),
            ("content"@, JsonVal::Str(text@)),
        ]);
    }
    let m = Json::Object(msg);
    let ghost mv = m@;
    let mut msgs: Vec<Json> = Vec::new();
    msgs.push(m);
    proof {
        crate::json::lemma_array_view(msgs);
        assert(items_view(msgs@) =~= seq![mv]);
    }
    let mut es: Vec<(String, Json)> = Vec::new();
    es.push((owned("model"), Json::text(model)));
    es.push((owned("messages"), Json::Array(msgs)));
    es.push((owned("max_tokens"), Json::Number(Some(1), owned("1"))));
    proof {
        crate::json::lemma_object_view(es);
        assert(crate::json::entries_view(es@) =~= token_request_json(model@, text@)->Obj_0);
    }
    Json::Object(es)
}

// ---------------------------------------------------------------------------
// balance replies
// ---------------------------------------------------------------------------

/// The part of a balance reply that holds the figures: its `data`, or the
/// reply itself.
pub open spec fn balance_figures_in(reply: JsonVal) -> JsonVal {
    match field(reply, "data"@) {
        Some(d) => d,
        None => reply,
    }
}

/// The part of a balance reply that holds the figures.
pub fn balance_figures(reply: &Json) -> (r: Json)
    ensures
        r@ == balance_figures_in(reply@),
{
    match reply.get("data") {
        Some(d) => d.copy(),
        None => reply.copy(),
    }
}

/// What `query_balance` reads the figures from: `data` when present, else
/// the reply itself when it has `balance` or `availableBalance`, else nothing
/// (a reply of unknown shape).
pub open spec fn balance_payload_in(reply: JsonVal) -> Option<JsonVal> {
    match field(reply, "data"@) {
        Some(d) => Some(d),
        None => if field(reply, "balance"@) is Some || field(reply, "availableBalance"@) is Some {
            Some(reply)
        } else {
            None
        },
    }
}

/// What `query_balance` reads the figures from.
pub fn balance_payload(reply: &Json) -> (r: Option<Json>)
    ensures
        crate::json::opt_json_view(r) == balance_payload_in(reply@),
{
    match reply.get("data") {
        Some(d) => Some(d.copy()),
        None => if reply.get("balance").is_some() || reply.get("availableBalance").is_some() {
            Some(reply.copy())
        } else {
            None
        },
    }
}

/// The coding-plan data that the periodic refresh passes on: the reply's
/// `data`, when `success` is true.
pub open spec fn plan_update_in(reply: JsonVal) -> Option<JsonVal> {
    if is_true(field(reply, "success"@)) {
        field(reply, "data"@)
    } else {
        None
    }
}

/// The coding-plan data that the periodic refresh passes on.
pub fn plan_update(reply: &Json) -> (r: Option<Json>)
    ensures
        crate::json::opt_json_view(r) == plan_update_in(reply@),
{
    if json_is_true(reply.get("success")) {
        match reply.get("data") {
            Some(d) => Some(d.copy()),
            None => None,
        }
    } else {
        None
    }
}

// ---------------------------------------------------------------------------
// API settings
// ---------------------------------------------------------------------------

/// The API key and endpoint that the quota queries use: the key from
/// `env.ANTHROPIC_AUTH_TOKEN` (nothing when it is missing or empty) and the
/// endpoint from `zhipuEndpoint` or the default one.
pub open spec fn quota_api_in(raw: JsonVal) -> Option<(Seq<char>, Seq<char>)> {
    let key = match text_of(field_of(field(raw, "env"@), "ANTHROPIC_AUTH_TOKEN"@)) {
        Some(k) => k,
        None => Seq::empty(),
    };
    if key.len() == 0 {
        None
    } else {
        Some(
            (
                key,
                match text_of(field(raw, "zhipuEndpoint"@)) {
                    Some(e) => e,
                    None => crate::settings::default_endpoint(),
                },
            ),
        )
    }
}

/// The API key and endpoint that the quota queries use, or `None` when no
/// API key is configured.
pub fn quota_api_settings(raw: &Json) -> (r: Option<(String, String)>)
    ensures
        match r {
            Some((k, e)) => quota_api_in(raw@) == Some((k@, e@)),
            None => quota_api_in(raw@) is None,
        },
{
    let key = crate::settings::text_field(raw.get("env"), "ANTHROPIC_AUTH_TOKEN");
    let key = match key {
        Some(k) => k,
        None => String::new(),
    };
    if key.as_str().unicode_len() == 0 {
        return None;
    }
    let endpoint = match crate::settings::text_field(Some(raw), "zhipuEndpoint") {
        Some(e) => e,
        None => crate::settings::default_endpoint_text(),
    };
    Some((key, endpoint))
}

/// The balance and coding-plan URLs for an API endpoint.
pub fn quota_urls(endpoint: &str) -> (r: (String, String))
    ensures
        r.0@ == crate::text::trim_end_char(crate::utils::balance_base(endpoint@), '/')
            + crate::utils::API_PATH_BALANCE@,
        r.1@ == crate::text::trim_end_char(endpoint@, '/') + crate::utils::API_PATH_CODING_PLAN@,
{
    let base = crate::utils::balance_base_url(endpoint);
    (
        crate::utils::build_url(base.as_str(), crate::utils::API_PATH_BALANCE),
        crate::utils::build_url(endpoint, crate::utils::API_PATH_CODING_PLAN),
    )
}

// ---------------------------------------------------------------------------
// the status-line cache
// ---------------------------------------------------------------------------

/// What `std::hash::DefaultHasher::new()` yields after hashing a text (`str`'s
/// `Hash`) and finishing.
pub uninterp spec fn default_hash(text: Seq<char>) -> u64;

/// Hashes a text with std's `DefaultHasher` (the same as hashing it through
/// `BuildHasherDefault<DefaultHasher>::hash_one`). The contract names the
/// result; the hash algorithm is std's.
#[verifier::external_body]
fn hash_text(s: &str) -> (r: u64)
    ensures
        r == default_hash(s@),
{
    std::hash::BuildHasher::hash_one(
        &std::hash::BuildHasherDefault::<std::collections::hash_map::DefaultHasher>::default(),
        s,
    )
}

/// The digest that ties a cache to an API key and endpoint: 16 hex digits of
/// the hash of `"{api_key}\n{endpoint}"`.
pub open spec fn config_digest(api_key: Seq<char>, endpoint: Seq<char>) -> Seq<char> {
    crate::text::hex16(default_hash(api_key + "\n"@ + endpoint))
}

/// The digest that ties a cache to an API key and endpoint.
pub fn config_hash(api_key: &str, endpoint: &str) -> (r: String)
    ensures
        r@ == config_digest(api_key@, endpoint@),
{
    let mut t = owned(api_key);
    t.append("\n");
    t.append(endpoint);
    crate::text::hex16_text(hash_text(t.as_str()))
}

/// `cached_at` and `key_hash` of a cache document.
pub open spec fn cache_stamp(cache: JsonVal) -> (Option<i64>, Seq<char>) {
    (int_of(field(cache, "cached_at"@)), text_or(field(cache, "key_hash"@), Seq::empty()))
}

/// The cache was written for this API key and endpoint (its `key_hash`,
/// or empty, equals the expected digest).
pub open spec fn cache_matches(cache: JsonVal, expected: Seq<char>) -> bool {
    cache_stamp(cache).1 == expected
}

/// The cache is still good at `now`: it has a `cached_at` time no longer than
/// the lifetime ago, and it was written for this key and endpoint.
pub open spec fn cache_fresh_at(cache: JsonVal, now: int, lifetime_secs: int, expected: Seq<char>) -> bool {
    match cache_stamp(cache).0 {
        Some(at) => now - at <= lifetime_secs * 1000 && cache_matches(cache, expected),
        None => false,
    }
}

/// Whether a cache was written for this key and endpoint.
pub fn cache_hash_matches(cache: &Json, expected: &str) -> (r: bool)
    ensures
        r == cache_matches(cache@, expected@),
{
    let h = json_text_or(cache.get("key_hash"), "");
    proof {
        reveal_strlit("");
        assert(""@ =~= Seq::<char>::empty());
    }
    crate::text::text_eq(h.as_str(), expected)
}

/// Whether a cache is still good at `now_ms`.
pub fn cache_fresh(cache: &Json, now_ms: i64, lifetime_secs: i64, expected: &str) -> (r: bool)
    ensures
        r == cache_fresh_at(cache@, now_ms as int, lifetime_secs as int, expected@),
{
    match json_int(cache.get("cached_at")) {
        Some(at) => {
            let age: i128 = now_ms as i128 - at as i128;
            let limit: i128 = lifetime_secs as i128 * 1000;
            if age > limit {
                false
            } else {
                cache_hash_matches(cache, expected)
            }
        },
        None => false,
    }
}

/// The status text kept in the older cache, when it was written no more than
/// five minutes before `now`.
pub open spec fn cached_output_in(cache: JsonVal, now: int) -> Option<Seq<char>> {
    match int_of(field(cache, "cached_at"@)) {
        Some(at) => if now - at > 300000 {
            None
        } else {
            text_of(field(cache, "output"@))
        },
        None => None,
    }
}

/// The status text kept in the older cache, when it is still good.
pub fn cached_output(cache: &Json, now_ms: i64) -> (r: Option<String>)
    ensures
        opt_text(r) == cached_output_in(cache@, now_ms as int),
{
    match json_int(cache.get("cached_at")) {
        Some(at) => {
            let age: i128 = now_ms as i128 - at as i128;
            if age > 300000 {
                None
            } else {
                crate::settings::text_field(Some(cache), "output")
            }
        },
        None => None,
    }
}

/// The older cache document: the time it was written and the status text.
pub open spec fn status_cache_json(now: i64, output: Seq<char>) -> JsonVal {
    JsonVal::Obj(
        seq![
            ("cached_at"@, JsonVal::Num(Some(now), crate::text::int_text(now as int))),
            ("output"@, JsonVal::Str(output)),
        ],
    )
}

/// The older cache document for a status text written at `now_ms`.
pub fn status_cache(now_ms: i64, output: &str) -> (r: Json)
    ensures
        r@ == status_cache_json(now_ms, output@),
{
    let t = crate::text::int_to_string(now_ms as i128);
    let mut es: Vec<(String, Json)> = Vec::new();
    es.push((owned("cached_at"), Json::Number(Some(now_ms), t)));
    es.push((owned("output"), Json::text(output)));
    proof {
        crate::json::lemma_object_view(es);
        assert(crate::json::entries_view(es@) =~= status_cache_json(now_ms, output@)->Obj_0);
    }
    Json::Object(es)
}

/// A quota document stamped with the time it was written and the digest of
/// the API key and endpoint it belongs to (members added to an object; any
/// other document is left as it is).
pub open spec fn stamped(cache: JsonVal, now: i64, digest: Seq<char>) -> JsonVal {
    crate::json::insert_if_object(
        crate::json::insert_if_object(
            cache,
            "cached_at"@,
            JsonVal::Num(Some(now), crate::text::int_text(now as int)),
        ),
        "key_hash"@,
        JsonVal::Str(digest),
    )
}

/// Stamps a quota document with the time and the digest.
pub fn stamp_cache(cache: Json, now_ms: i64, digest: &str) -> (r: Json)
    ensures
        r@ == stamped(cache@, now_ms, digest@),
{
    let mut c = cache;
    let t = crate::text::int_to_string(now_ms as i128);
    c.insert("cached_at", Json::Number(Some(now_ms), t));
    c.insert("key_hash", Json::text(digest));
    c
}

/// The cache file's text for the serialized quota data written at `now`
/// for an API key and endpoint: the quota document (an empty object when the
/// text is not JSON), stamped, written out compactly.
pub open spec fn cache_file_text(quota: Seq<char>, now: i64, api_key: Seq<char>, endpoint: Seq<char>) -> Seq<
    char,
> {
    let doc = match parsed_json(quota) {
        Some(v) => v,
        None => JsonVal::Obj(Seq::empty()),
    };
    compact_json(stamped(doc, now, config_digest(api_key, endpoint)))
}

/// The cache file's text for serialized quota data.
pub fn cache_file(quota_json: &str, now_ms: i64, api_key: &str, endpoint: &str) -> (r: String)
    ensures
        r@ == cache_file_text(quota_json@, now_ms, api_key@, endpoint@),
{
    let doc = match parse_json(quota_json) {
        Some(v) => v,
        None => Json::empty_object(),
    };
    let digest = config_hash(api_key, endpoint);
    let stamped_doc = stamp_cache(doc, now_ms, digest.as_str());
    render_compact(&stamped_doc)
}

/// Whether the cache file's text holds a cache that is still good at `now`
/// for this API key and endpoint.
pub open spec fn cache_text_fresh(
    content: Seq<char>,
    now: int,
    lifetime_secs: int,
    api_key: Seq<char>,
    endpoint: Seq<char>,
) -> bool {
    match parsed_json(content) {
        Some(c) => cache_fresh_at(c, now, lifetime_secs, config_digest(api_key, endpoint)),
        None => false,
    }
}

/// Whether the cache file's text holds a cache that is still good.
pub fn cache_file_fresh(
    content: &str,
    now_ms: i64,
    lifetime_secs: i64,
    api_key: &str,
    endpoint: &str,
) -> (r: bool)
    ensures
        r == cache_text_fresh(content@, now_ms as int, lifetime_secs as int, api_key@, endpoint@),
{
    match parse_json(content) {
        Some(c) => {
            let digest = config_hash(api_key, endpoint);
            cache_fresh(&c, now_ms, lifetime_secs, digest.as_str())
        },
        None => false,
    }
}

/// Whether the cache file's text holds a cache written for this API key and
/// endpoint, however old.
pub open spec fn cache_text_matches(content: Seq<char>, api_key: Seq<char>, endpoint: Seq<char>) -> bool {
    match parsed_json(content) {
        Some(c) => cache_matches(c, config_digest(api_key, endpoint)),
        None => false,
    }
}

/// Whether the cache file's text holds a cache written for this API key and
/// endpoint, however old.
pub fn cache_file_matches(content: &str, api_key: &str, endpoint: &str) -> (r: bool)
    ensures
        r == cache_text_matches(content@, api_key@, endpoint@),
{
    match parse_json(content) {
        Some(c) => {
            let digest = config_hash(api_key, endpoint);
            cache_hash_matches(&c, digest.as_str())
        },
        None => false,
    }
}

/// A quota document stamped for an API key and endpoint at `written` is
/// still good at `now` for that key and endpoint exactly when no more than
/// the lifetime has passed, reading it gives back every member of the quota
/// document, and it is refused for any other digest.
pub proof fn law_cache_stamp_fresh(
    cache: JsonVal,
    written: i64,
    now: int,
    lifetime_secs: int,
    api_key: Seq<char>,
    endpoint: Seq<char>,
    other_digest: Seq<char>,
)
    requires
        cache is Obj,
    ensures
        cache_fresh_at(
            stamped(cache, written, config_digest(api_key, endpoint)),
            now,
            lifetime_secs,
            config_digest(api_key, endpoint),
        ) == (now - written <= lifetime_secs * 1000),
        cache_matches(
            stamped(cache, written, config_digest(api_key, endpoint)),
            config_digest(api_key, endpoint),
        ),
        forall|k: Seq<char>|
            k != "cached_at"@ && k != "key_hash"@ ==> #[trigger] field(
                stamped(cache, written, config_digest(api_key, endpoint)),
                k,
            ) == field(cache, k),
        other_digest != config_digest(api_key, endpoint) ==> !cache_matches(
            stamped(cache, written, config_digest(api_key, endpoint)),
            other_digest,
        ) && !cache_fresh_at(
            stamped(cache, written, config_digest(api_key, endpoint)),
            now,
            lifetime_secs,
            other_digest,
        ),
{
    reveal_strlit("cached_at");
    reveal_strlit("key_hash");
    assert("cached_at"@.len() != "key_hash"@.len());
    let d = config_digest(api_key, endpoint);
    let n = JsonVal::Num(Some(written), crate::text::int_text(written as int));
    crate::json::lemma_field_with(cache, "cached_at"@, n, "cached_at"@);
    let c1 = crate::json::with_field(cache, "cached_at"@, n);
    crate::json::lemma_field_with(c1, "key_hash"@, JsonVal::Str(d), "key_hash"@);
    crate::json::lemma_field_with(c1, "key_hash"@, JsonVal::Str(d), "cached_at"@);
    assert forall|k: Seq<char>| k != "cached_at"@ && k != "key_hash"@ implies #[trigger] field(
        stamped(cache, written, d),
        k,
    ) == field(cache, k) by {
        crate::json::lemma_field_with(cache, "cached_at"@, n, k);
        crate::json::lemma_field_with(c1, "key_hash"@, JsonVal::Str(d), k);
    }
}

/// The token counts are read from `usage`: each from its own member, 0 when
/// missing; nothing without `usage`.
pub proof fn law_token_counts(reply: JsonVal)
    ensures
        token_counts_in(reply) is Some <==> field(reply, "usage"@) is Some,
        token_counts_in(reply) matches Some(t) ==> {
            &&& t.prompt_tokens == int_or_zero(field(reply, "usage"@).unwrap(), "prompt_tokens"@)
            &&& t.completion_tokens == int_or_zero(field(reply, "usage"@).unwrap(), "completion_tokens"@)
            &&& t.total_tokens == int_or_zero(field(reply, "usage"@).unwrap(), "total_tokens"@)
        },
{
}

/// The quota queries use the API key `env.ANTHROPIC_AUTH_TOKEN`, and none
/// are made without a non-empty key; the endpoint is `zhipuEndpoint` when it
/// is a text, else the mainland endpoint.
pub proof fn law_quota_api(raw: JsonVal)
    ensures
        quota_api_in(raw) is Some <==> (match text_of(field_of(field(raw, "env"@), "ANTHROPIC_AUTH_TOKEN"@)) {
            Some(k) => k.len() > 0,
            None => false,
        }),
        quota_api_in(raw) matches Some(ke) ==> Some(ke.0) == text_of(
            field_of(field(raw, "env"@), "ANTHROPIC_AUTH_TOKEN"@),
        ) && ke.1 == match text_of(field(raw, "zhipuEndpoint"@)) {
            Some(e) => e,
            None => "https://open.bigmodel.cn"@,
        },
{
}

} // verus!
