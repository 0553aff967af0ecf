use zhipukit::json::Json;
use zhipukit::settings::{
    apply_claude_config, bar_colors_of, broken_plugins, cache_duration_of, claude_config_of,
    command_path_text, config_keys_of, enabled_plugin_keys, hook_installed, load_settings,
    plugin_install_paths, prune_plugins_exec, read_cache_duration, read_config_keys,
    segment_config_of, setup_hook_settings, split_plugin_key, with_bar_colors,
    with_cache_duration, with_endpoint, with_segment_config, BarColors, SegmentConfig,
};

fn doc(text: &str) -> Json {
    Json::parse(text).expect("test document is JSON")
}

fn compact(j: &Json) -> String {
    j.to_text()
}

const MARKER: &str = "zhipukit-status-plugin";

#[test]
fn parse_and_render_pretty() {
    let j = doc(r#"{"b":1,"a":[true,null,"x"],"c":{"d":-2.5}}"#);
    assert_eq!(
        j.to_pretty_text(),
        "{\n  \"a\": [\n    true,\n    null,\n    \"x\"\n  ],\n  \"b\": 1,\n  \"c\": {\n    \"d\": -2.5\n  }\n}"
    );
    assert!(Json::parse("not json").is_none());
    assert!(Json::parse("").is_none());
}

#[test]
fn large_numbers_survive_a_round_trip() {
    let j = doc(r#"{"n":18446744073709551615,"m":-9223372036854775808}"#);
    assert_eq!(compact(&j), r#"{"m":-9223372036854775808,"n":18446744073709551615}"#);
}

#[test]
fn load_settings_falls_back_to_empty_object() {
    assert_eq!(compact(&load_settings(None)), "{}");
    assert_eq!(compact(&load_settings(Some("{oops"))), "{}");
    assert_eq!(compact(&load_settings(Some(r#"{"a":1}"#))), r#"{"a":1}"#);
}

#[test]
fn claude_config_reads_model_and_env() {
    let raw = doc(
        r#"{"model":"glm-4.6","env":{"ANTHROPIC_AUTH_TOKEN":"tok","ANTHROPIC_BASE_URL":"https://x","API_TIMEOUT_MS":3000000}}"#,
    );
    let c = claude_config_of(&raw, vec!["p@m".to_string()]);
    assert_eq!(c.model.as_deref(), Some("glm-4.6"));
    assert_eq!(c.anthropic_auth_token.as_deref(), Some("tok"));
    assert_eq!(c.anthropic_base_url.as_deref(), Some("https://x"));
    assert_eq!(c.anthropic_default_haiku_model, None);
    // a number is not a text setting
    assert_eq!(c.api_timeout_ms, None);
    assert_eq!(c.broken_plugins, vec!["p@m".to_string()]);
}

#[test]
fn claude_config_round_trip() {
    let raw = doc(r#"{"model":"old","other":true,"env":{"ANTHROPIC_BASE_URL":"https://keep"}}"#);
    let updated = apply_claude_config(
        raw,
        Some("glm-4.6".to_string()),
        Some("secret".to_string()),
        None,
        Some("glm-4.5-air".to_string()),
        None,
        None,
        Some("3000000".to_string()),
    );
    let c = claude_config_of(&updated, vec![]);
    assert_eq!(c.model.as_deref(), Some("glm-4.6"));
    assert_eq!(c.anthropic_auth_token.as_deref(), Some("secret"));
    assert_eq!(c.anthropic_base_url.as_deref(), Some("https://keep"));
    assert_eq!(c.anthropic_default_haiku_model.as_deref(), Some("glm-4.5-air"));
    assert_eq!(c.anthropic_default_sonnet_model, None);
    assert_eq!(c.api_timeout_ms.as_deref(), Some("3000000"));
    assert_eq!(
        compact(&updated),
        r#"{"env":{"ANTHROPIC_AUTH_TOKEN":"secret","ANTHROPIC_BASE_URL":"https://keep","ANTHROPIC_DEFAULT_HAIKU_MODEL":"glm-4.5-air","API_TIMEOUT_MS":"3000000"},"model":"glm-4.6","other":true}"#
    );
}

#[test]
fn claude_config_adds_env_block() {
    let updated = apply_claude_config(Json::Null, None, None, None, None, None, None, None);
    assert_eq!(compact(&updated), r#"{"env":{}}"#);
    let updated = apply_claude_config(doc("{}"), None, Some("t".to_string()), None, None, None, None, None);
    assert_eq!(compact(&updated), r#"{"env":{"ANTHROPIC_AUTH_TOKEN":"t"}}"#);
}

#[test]
fn segment_config_defaults_and_values() {
    assert_eq!(segment_config_of(&doc("{}")), SegmentConfig::default());
    let raw = doc(r#"{"zhipuSegments":{"git":false,"cacheTime":false,"mcp":"no"}}"#);
    let c = segment_config_of(&raw);
    assert!(c.tier && c.balance && c.model && c.context && c.hour5);
    assert!(!c.git && !c.cache_time);
    // not a boolean: the default (shown)
    assert!(c.mcp);
    assert_eq!(segment_config_of(&doc(r#"{"zhipuSegments":[1]}"#)), SegmentConfig::default());
}

#[test]
fn segment_config_round_trip() {
    let c = SegmentConfig {
        tier: false,
        balance: true,
        git: false,
        model: true,
        context: false,
        hour5: true,
        mcp: false,
        cache_time: true,
    };
    let raw = with_segment_config(doc(r#"{"x":1}"#), &c);
    assert_eq!(segment_config_of(&raw), c);
    assert_eq!(
        compact(&raw),
        r#"{"x":1,"zhipuSegments":{"balance":true,"cacheTime":true,"context":false,"git":false,"hour5":true,"mcp":false,"model":true,"tier":false}}"#
    );
}

#[test]
fn bar_colors_defaults_and_round_trip() {
    let d = bar_colors_of(&doc("{}"));
    assert_eq!((d.normal.as_str(), d.warning.as_str(), d.danger.as_str()), ("green", "yellow", "red"));
    let partial = bar_colors_of(&doc(r#"{"zhipuBarColors":{"warning":"orange","danger":7}}"#));
    assert_eq!(
        (partial.normal.as_str(), partial.warning.as_str(), partial.danger.as_str()),
        ("green", "orange", "red")
    );
    let c = BarColors { normal: "cyan".to_string(), warning: "magenta".to_string(), danger: "white".to_string() };
    let raw = with_bar_colors(doc(r#"{"a":1}"#), &c);
    let back = bar_colors_of(&raw);
    assert_eq!((back.normal.as_str(), back.warning.as_str(), back.danger.as_str()), ("cyan", "magenta", "white"));
    // a document that is not an object is left as it is
    assert_eq!(compact(&with_bar_colors(doc("[1]"), &c)), "[1]");
    assert_eq!(compact(&with_bar_colors(Json::Null, &c)), "null");
}

#[test]
fn endpoint_and_keys() {
    let raw = doc(r#"{"env":{"ANTHROPIC_AUTH_TOKEN":"k"},"model":""}"#);
    let (key, endpoint, model) = config_keys_of(&raw);
    assert_eq!(key.as_deref(), Some("k"));
    assert_eq!(endpoint.as_deref(), Some("https://open.bigmodel.cn"));
    assert_eq!(model, None);
    let raw = with_endpoint(raw, "https://api.z.ai/api");
    let (key, endpoint, _) = config_keys_of(&raw);
    assert_eq!(key.as_deref(), Some("k"));
    assert_eq!(endpoint.as_deref(), Some("https://api.z.ai/api"));
    assert_eq!(read_config_keys(None), (None, None, None));
    assert_eq!(read_config_keys(Some("[")), (None, None, None));
    assert_eq!(
        read_config_keys(Some(r#"{"env":{"ANTHROPIC_AUTH_TOKEN":""},"model":"glm"}"#)),
        (None, Some("https://open.bigmodel.cn".to_string()), Some("glm".to_string()))
    );
}

#[test]
fn cache_duration_values() {
    assert_eq!(cache_duration_of(&doc("{}")), 300);
    assert_eq!(cache_duration_of(&doc(r#"{"zhipuCacheDuration":-5}"#)), 300);
    assert_eq!(cache_duration_of(&doc(r#"{"zhipuCacheDuration":1.5}"#)), 300);
    assert_eq!(cache_duration_of(&with_cache_duration(doc("{}"), 600)), 600);
    assert_eq!(cache_duration_of(&with_cache_duration(doc("{}"), 0)), 300);
    assert_eq!(cache_duration_of(&with_cache_duration(doc("{}"), u64::MAX)), 300);
    assert_eq!(compact(&with_cache_duration(doc("{}"), u64::MAX)), r#"{"zhipuCacheDuration":18446744073709551615}"#);
    assert_eq!(read_cache_duration(None), 300);
    assert_eq!(read_cache_duration(Some(r#"{"zhipuCacheDuration":60}"#)), 60);
}

#[test]
fn hook_enabled_installs_status_line() {
    let raw = doc(r#"{"model":"m","statusLine":{"type":"command","command":"old"}}"#);
    assert!(!hook_installed(&raw, MARKER));
    let cmd = "/Apps/ZhipuKit/zhipukit-status-plugin";
    let out = setup_hook_settings(raw, &vec![], true, cmd, MARKER);
    assert!(hook_installed(&out, MARKER));
    assert_eq!(
        compact(&out),
        r#"{"model":"m","statusLine":{"command":"/Apps/ZhipuKit/zhipukit-status-plugin","type":"command"}}"#
    );
}

#[test]
fn hook_disabled_removes_status_line_and_old_hooks() {
    let raw = doc(
        r#"{"statusLine":{"command":"/x/zhipukit-status-plugin"},"hooks":{"SessionStart":[{"hooks":[{"command":"/x/zhipukit-status-plugin --hook"}]}]},"keep":1}"#,
    );
    assert!(hook_installed(&raw, MARKER));
    let out = setup_hook_settings(raw, &vec![], false, "", MARKER);
    assert!(!hook_installed(&out, MARKER));
    assert_eq!(compact(&out), r#"{"keep":1}"#);
}

#[test]
fn hook_setup_keeps_other_session_hooks() {
    let raw = doc(
        r#"{"hooks":{"SessionStart":[{"hooks":[{"command":"zhipukit-status-plugin"}]},{"hooks":[{"command":"other"}]}],"Stop":[]}}"#,
    );
    let out = setup_hook_settings(raw, &vec![], false, "", MARKER);
    assert_eq!(
        compact(&out),
        r#"{"hooks":{"SessionStart":[{"hooks":[{"command":"other"}]}],"Stop":[]}}"#
    );
    let raw = doc(r#"{"hooks":{"SessionStart":[{"hooks":[{"command":"zhipukit-status-plugin"}]}],"Stop":[]}}"#);
    let out = setup_hook_settings(raw, &vec![], false, "", MARKER);
    assert_eq!(compact(&out), r#"{"hooks":{"Stop":[]}}"#);
}

#[test]
fn hook_setup_prunes_broken_plugins() {
    let raw = doc(r#"{"enabledPlugins":{"a@m":true,"b@m":true}}"#);
    let out = setup_hook_settings(raw, &vec!["a@m".to_string()], false, "", MARKER);
    assert_eq!(compact(&out), r#"{"enabledPlugins":{"b@m":true}}"#);
    let raw = doc(r#"{"enabledPlugins":{"a@m":true}}"#);
    let out = prune_plugins_exec(raw, &vec!["a@m".to_string()]);
    assert_eq!(compact(&out), "{}");
}

#[test]
fn hook_status_on_non_object_settings() {
    assert!(!hook_installed(&doc("[]"), MARKER));
    assert!(!hook_installed(&doc(r#"{"hooks":{"SessionStart":"x"}}"#), MARKER));
}

#[test]
fn command_path_uses_forward_slashes() {
    assert_eq!(command_path_text(r"C:\Program Files\ZhipuKit\a.exe"), "C:/Program Files/ZhipuKit/a.exe");
}

#[test]
fn plugin_references() {
    let raw = doc(r#"{"enabledPlugins":{"a@m":true,"b@m":false,"c@n":"yes","d":true}}"#);
    assert_eq!(enabled_plugin_keys(&raw), vec!["a@m".to_string(), "d".to_string()]);
    assert!(enabled_plugin_keys(&doc("{}")).is_empty());
    let installed = doc(
        r#"{"plugins":{"a@m":[{"installPath":"/p/1"},{"x":1},{"installPath":"/p/2"}],"d":{"installPath":"/q"}}}"#,
    );
    assert_eq!(plugin_install_paths(&installed, "a@m"), vec!["/p/1".to_string(), "/p/2".to_string()]);
    assert!(plugin_install_paths(&installed, "d").is_empty());
    assert!(plugin_install_paths(&installed, "zz").is_empty());
    assert_eq!(split_plugin_key("name@market"), Some(("name".to_string(), "market".to_string())));
    assert_eq!(split_plugin_key("a@b@c"), Some(("a".to_string(), "b@c".to_string())));
    assert_eq!(split_plugin_key("@m"), Some(("".to_string(), "m".to_string())));
    assert_eq!(split_plugin_key("plain"), None);
    let keys = vec!["a".to_string(), "b".to_string(), "c".to_string()];
    assert_eq!(
        broken_plugins(&keys, &vec![true, false, false], &vec![false, true, false]),
        vec!["c".to_string()]
    );
}

#[test]
fn hook_setup_twice_is_once() {
    let raw = doc(
        r#"{"enabledPlugins":{"a@m":true,"b@m":false},"hooks":{"SessionStart":[{"hooks":[{"command":"x/zhipukit-status-plugin"}]},{"hooks":[{"command":"other"}]}]},"keep":[1]}"#,
    );
    let broken = vec!["a@m".to_string()];
    for enabled in [true, false] {
        let cmd = "/Apps/zhipukit-status-plugin";
        let once = setup_hook_settings(raw.copy(), &broken, enabled, cmd, MARKER);
        let twice = setup_hook_settings(once.copy(), &broken, enabled, cmd, MARKER);
        assert_eq!(compact(&twice), compact(&once));
        assert_eq!(hook_installed(&once, MARKER), enabled);
    }
}
