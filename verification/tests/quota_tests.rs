use zhipukit::json::Json;
use zhipukit::quota::{
    balance_figures, balance_payload, cache_file, cache_file_fresh, cache_file_matches,
    cached_output, coding_plan_from_reply, config_hash, plan_quota, plan_update,
    quota_api_settings, quota_urls, status_cache, token_count_from_reply, token_count_request,
    PlanReplyError, QuotaData, TokenCountResult,
};

fn doc(text: &str) -> Json {
    Json::parse(text).expect("test document is JSON")
}

const PLAN_REPLY: &str = r#"{"success":true,"data":{"level":"pro","limits":[
    {"type":"TOKENS_LIMIT","percentage":12,"nextResetTime":1000},
    {"type":"TIME_LIMIT","usage":100,"currentValue":30,"remaining":70,"nextResetTime":2000},
    {"type":"TOKENS_LIMIT","percentage":3},
    {"type":"OTHER","percentage":99}]}}"#;

#[test]
fn plan_quota_reads_limits() {
    let q = plan_quota(&doc(PLAN_REPLY));
    assert_eq!(q.level.as_deref(), Some("pro"));
    assert_eq!((q.hour5_pct, q.hour5_next_reset), (Some(12), Some(1000)));
    assert_eq!((q.weekly_pct, q.weekly_next_reset), (Some(3), None));
    assert_eq!((q.mcp_used, q.mcp_total, q.mcp_next_reset), (Some(30), Some(100), Some(2000)));
}

#[test]
fn plan_quota_needs_success_and_data() {
    let q = plan_quota(&doc(r#"{"success":false,"data":{"level":"pro"}}"#));
    assert!(q.level.is_none() && q.hour5_pct.is_none());
    let q = plan_quota(&doc(r#"{"data":{"level":"pro"}}"#));
    assert!(q.level.is_none());
    let q = plan_quota(&doc(r#"{"success":true,"data":{"level":7,"limits":{}}}"#));
    assert!(q.level.is_none() && q.mcp_total.is_none());
    let q = plan_quota(&doc(r#"{"success":true,"data":{"limits":[{"type":"TOKENS_LIMIT"}]}}"#));
    assert_eq!(q.hour5_pct, Some(0));
}

#[test]
fn coding_plan_figures() {
    let p = match coding_plan_from_reply(&doc(PLAN_REPLY)) {
        Ok(p) => p,
        Err(_) => panic!("the reply has figures"),
    };
    assert_eq!(p.level, "pro");
    assert_eq!(
        (p.hour5_percentage, p.hour5_next_reset, p.weekly_percentage, p.weekly_next_reset),
        (12, 1000, 3, 0)
    );
    assert_eq!((p.mcp_total, p.mcp_used, p.mcp_remaining, p.mcp_next_reset), (100, 30, 70, 2000));
    let p = match coding_plan_from_reply(&doc(r#"{"success":true,"data":{}}"#)) {
        Ok(p) => p,
        Err(_) => panic!("the reply has data"),
    };
    assert_eq!(p.level, "unknown");
    assert_eq!(p.mcp_total, 0);
}

#[test]
fn coding_plan_errors() {
    match coding_plan_from_reply(&doc(r#"{"success":false,"msg":"token expired"}"#)) {
        Err(PlanReplyError::Failed(m)) => assert_eq!(m, "token expired"),
        _ => panic!("expected a failure"),
    }
    match coding_plan_from_reply(&doc(r#"{"code":401}"#)) {
        Err(PlanReplyError::Failed(m)) => assert_eq!(m, "未知错误"),
        _ => panic!("expected a failure"),
    }
    match coding_plan_from_reply(&doc(r#"{"success":true}"#)) {
        Err(PlanReplyError::MissingData) => {}
        _ => panic!("expected missing data"),
    }
}

#[test]
fn token_counts() {
    let r = token_count_from_reply(&doc(r#"{"usage":{"prompt_tokens":5,"total_tokens":6}}"#));
    assert_eq!(r, Some(TokenCountResult { prompt_tokens: 5, completion_tokens: 0, total_tokens: 6 }));
    assert_eq!(token_count_from_reply(&doc(r#"{"choices":[]}"#)), None);
    assert_eq!(
        token_count_request("glm-4", "hi \"there\"").to_text(),
        r#"{"max_tokens":1,"messages":[{"content":"hi \"there\"","role":"user"}],"model":"glm-4"}"#
    );
}

#[test]
fn balance_replies() {
    let p = balance_payload(&doc(r#"{"data":{"availableBalance":1.5},"balance":3}"#)).unwrap();
    assert_eq!(p.to_text(), r#"{"availableBalance":1.5}"#);
    let p = balance_payload(&doc(r#"{"balance":2}"#)).unwrap();
    assert_eq!(p.to_text(), r#"{"balance":2}"#);
    assert!(balance_payload(&doc(r#"{"x":1}"#)).is_none());
    assert_eq!(balance_figures(&doc(r#"{"x":1}"#)).to_text(), r#"{"x":1}"#);
    assert_eq!(balance_figures(&doc(r#"{"data":[1]}"#)).to_text(), "[1]");
}

#[test]
fn plan_updates() {
    let d = plan_update(&doc(r#"{"success":true,"data":{"level":"pro"}}"#)).unwrap();
    assert_eq!(d.to_text(), r#"{"level":"pro"}"#);
    assert!(plan_update(&doc(r#"{"success":"true","data":{}}"#)).is_none());
    assert!(plan_update(&doc(r#"{"success":true}"#)).is_none());
}

#[test]
fn api_settings_and_urls() {
    let (k, e) = quota_api_settings(&doc(r#"{"env":{"ANTHROPIC_AUTH_TOKEN":"key"}}"#)).unwrap();
    assert_eq!((k.as_str(), e.as_str()), ("key", "https://open.bigmodel.cn"));
    let (_, e) = quota_api_settings(&doc(
        r#"{"env":{"ANTHROPIC_AUTH_TOKEN":"key"},"zhipuEndpoint":"https://api.z.ai/api"}"#,
    ))
    .unwrap();
    assert_eq!(e, "https://api.z.ai/api");
    assert!(quota_api_settings(&doc("{}")).is_none());
    assert!(quota_api_settings(&doc(r#"{"env":{"ANTHROPIC_AUTH_TOKEN":""}}"#)).is_none());
    let (b, p) = quota_urls("https://open.bigmodel.cn/");
    assert_eq!(b, "https://www.bigmodel.cn/api/biz/account/query-customer-account-report");
    assert_eq!(p, "https://open.bigmodel.cn/api/monitor/usage/quota/limit");
    let (b, p) = quota_urls("https://api.z.ai/api");
    assert_eq!(b, "https://api.z.ai/api/api/biz/account/query-customer-account-report");
    assert_eq!(p, "https://api.z.ai/api/api/monitor/usage/quota/limit");
}

#[test]
fn config_hash_is_sixteen_hex_digits() {
    let h = config_hash("key", "https://open.bigmodel.cn");
    assert_eq!(h.len(), 16);
    assert!(h.chars().all(|c| c.is_ascii_digit() || ('a'..='f').contains(&c)));
    assert_eq!(h, config_hash("key", "https://open.bigmodel.cn"));
    assert_ne!(h, config_hash("key", "https://api.z.ai"));
    assert_ne!(config_hash("a", "b\nc"), "a\nb\nc");
}

#[test]
fn cache_written_then_read() {
    let text = cache_file(r#"{"level":"pro","hour5_pct":3}"#, 1_000, "k", "e");
    let stamped = Json::parse(&text).unwrap();
    let h = config_hash("k", "e");
    assert_eq!(
        stamped.to_text(),
        format!(r#"{{"cached_at":1000,"hour5_pct":3,"key_hash":"{}","level":"pro"}}"#, h)
    );
    assert!(cache_file_fresh(&text, 1_000 + 300_000, 300, "k", "e"));
    assert!(!cache_file_fresh(&text, 1_000 + 300_001, 300, "k", "e"));
    assert!(!cache_file_fresh(&text, 2_000, 300, "other", "e"));
    assert!(cache_file_matches(&text, "k", "e"));
    assert!(!cache_file_matches(&text, "k", "e2"));
    assert!(!cache_file_fresh("garbage", 1_000, 300, "k", "e"));
    assert!(!cache_file_fresh(r#"{"key_hash":"x"}"#, 1_000, 300, "k", "e"));
    let text = cache_file("oops", 5, "k", "e");
    assert!(cache_file_fresh(&text, 5, 0, "k", "e"));
}

#[test]
fn older_cache_lasts_five_minutes() {
    let c = status_cache(1_000, "ZhipuKit PRO");
    assert_eq!(c.to_text(), r#"{"cached_at":1000,"output":"ZhipuKit PRO"}"#);
    assert_eq!(cached_output(&c, 301_000).as_deref(), Some("ZhipuKit PRO"));
    assert_eq!(cached_output(&c, 301_001), None);
    assert_eq!(cached_output(&Json::parse(r#"{"output":"x"}"#).unwrap(), 0), None);
}

#[test]
fn quota_default_is_empty() {
    let q = QuotaData::default();
    assert!(q.level.is_none() && q.mcp_used.is_none() && q.weekly_pct.is_none());
}
