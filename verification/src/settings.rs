//! The coding assistant's `settings.json`: what the app reads from it and how it
//! rewrites it (model and API settings, the status-line command, display
//! options), all as operations on the parsed document.
use vstd::prelude::*;

use crate::json::{
    lemma_with_same, lemma_without_absent, assignable, field, field_of, lemma_field_with, opt_view, parse_json, parsed_json, text_of,
    with_field, without_field, lemma_field_without, items_of, members_of, flag_of, int_of, lookup,
    insert_if_object, u64_number, items_view, drop_entries, Json,
    JsonVal,
};
use crate::text::{chars_of, contains_text, has_sub, opt_text, owned, replace_all, replace_text, texts};

verus! {

/// The settings key of the coding assistant's environment block.
pub open spec fn env_key() -> Seq<char> {
    "env"@
}

/// Reads a text member of an optional document.
pub fn text_field(j: Option<&Json>, key: &str) -> (r: Option<String>)
    ensures
        opt_text(r) == text_of(field_of(opt_view(j), key@)),
{
    match j {
        Some(d) => match d.get(key) {
            Some(v) => match v.as_str() {
                Some(s) => Some(s.clone()),
                None => None,
            },
            None => None,
        },
        None => None,
    }
}

/// The settings document to edit: the parsed file, or an empty object when
/// there is no file or it is not JSON.
pub open spec fn loaded_settings(content: Option<Seq<char>>) -> JsonVal {
    match content {
        Some(t) => match parsed_json(t) {
            Some(v) => v,
            None => JsonVal::Obj(Seq::empty()),
        },
        None => JsonVal::Obj(Seq::empty()),
    }
}

/// Loads the settings document to edit from the file's text (`None` when
/// the file does not exist); text that is not JSON gives an empty object.
pub fn load_settings(content: Option<&str>) -> (r: Json)
    ensures
        r@ == loaded_settings(
            match content {
                Some(t) => Some(t@),
                None => None,
            },
        ),
{
    match content {
        Some(t) => match parse_json(t) {
            Some(v) => v,
            None => Json::empty_object(),
        },
        None => Json::empty_object(),
    }
}

// ---------------------------------------------------------------------------
// model and API settings
// ---------------------------------------------------------------------------

/// The coding assistant's model and API settings, as `read_claude_config` reports
/// them, plus the enabled plugins that are not properly installed.
pub struct ClaudeCodeConfig {
    pub model: Option<String>,
    pub anthropic_auth_token: Option<String>,
    pub anthropic_base_url: Option<String>,
    pub anthropic_default_haiku_model: Option<String>,
    pub anthropic_default_sonnet_model: Option<String>,
    pub anthropic_default_opus_model: Option<String>,
    pub api_timeout_ms: Option<String>,
    pub broken_plugins: Vec<String>,
}

/// The seven model and API settings, each present or absent.
pub struct ClaudeFields {
    pub model: Option<Seq<char>>,
    pub auth_token: Option<Seq<char>>,
    pub base_url: Option<Seq<char>>,
    pub haiku_model: Option<Seq<char>>,
    pub sonnet_model: Option<Seq<char>>,
    pub opus_model: Option<Seq<char>>,
    pub timeout_ms: Option<Seq<char>>,
}

/// A text member of the environment block.
pub open spec fn env_text(raw: JsonVal, k: Seq<char>) -> Option<Seq<char>> {
    text_of(field_of(field(raw, env_key()), k))
}

/// The model and API settings found in a settings document: `model` at the
/// top level, the others as text members of `env`.
pub open spec fn claude_fields(raw: JsonVal) -> ClaudeFields {
    ClaudeFields {
        model: text_of(field(raw, "model"@)),
        auth_token: env_text(raw, "ANTHROPIC_AUTH_TOKEN"@),
        base_url: env_text(raw, "ANTHROPIC_BASE_URL"@),
        haiku_model: env_text(raw, "ANTHROPIC_DEFAULT_HAIKU_MODEL"@),
        sonnet_model: env_text(raw, "ANTHROPIC_DEFAULT_SONNET_MODEL"@),
        opus_model: env_text(raw, "ANTHROPIC_DEFAULT_OPUS_MODEL"@),
        timeout_ms: env_text(raw, "API_TIMEOUT_MS"@),
    }
}

/// The fields of a `ClaudeCodeConfig`, as texts.
pub open spec fn config_fields(c: ClaudeCodeConfig) -> ClaudeFields {
    ClaudeFields {
        model: opt_text(c.model),
        auth_token: opt_text(c.anthropic_auth_token),
        base_url: opt_text(c.anthropic_base_url),
        haiku_model: opt_text(c.anthropic_default_haiku_model),
        sonnet_model: opt_text(c.anthropic_default_sonnet_model),
        opus_model: opt_text(c.anthropic_default_opus_model),
        timeout_ms: opt_text(c.api_timeout_ms),
    }
}

/// The configuration that `read_claude_config` reports for a settings
/// document and the list of broken plugin references found for it.
pub fn claude_config_of(raw: &Json, broken_plugins: Vec<String>) -> (r: ClaudeCodeConfig)
    ensures
        config_fields(r) == claude_fields(raw@),
        r.broken_plugins@ == broken_plugins@,
        opt_text(r.model) == text_of(field(raw@, "model"@)),
        opt_text(r.anthropic_auth_token) == text_of(
            field_of(field(raw@, "env"@), "ANTHROPIC_AUTH_TOKEN"@),
        ),
        opt_text(r.anthropic_base_url) == text_of(field_of(field(raw@, "env"@), "ANTHROPIC_BASE_URL"@)),
        opt_text(r.anthropic_default_haiku_model) == text_of(
            field_of(field(raw@, "env"@), "ANTHROPIC_DEFAULT_HAIKU_MODEL"@),
        ),
        opt_text(r.anthropic_default_sonnet_model) == text_of(
            field_of(field(raw@, "env"@), "ANTHROPIC_DEFAULT_SONNET_MODEL"@),
        ),
        opt_text(r.anthropic_default_opus_model) == text_of(
            field_of(field(raw@, "env"@), "ANTHROPIC_DEFAULT_OPUS_MODEL"@),
        ),
        opt_text(r.api_timeout_ms) == text_of(field_of(field(raw@, "env"@), "API_TIMEOUT_MS"@)),
{
    proof {
        law_claude_fields_keys(raw@);
    }
    let env = raw.get("env");
    ClaudeCodeConfig {
        model: text_field(Some(raw), "model"),
        anthropic_auth_token: text_field(env, "ANTHROPIC_AUTH_TOKEN"),
        anthropic_base_url: text_field(env, "ANTHROPIC_BASE_URL"),
        anthropic_default_haiku_model: text_field(env, "ANTHROPIC_DEFAULT_HAIKU_MODEL"),
        anthropic_default_sonnet_model: text_field(env, "ANTHROPIC_DEFAULT_SONNET_MODEL"),
        anthropic_default_opus_model: text_field(env, "ANTHROPIC_DEFAULT_OPUS_MODEL"),
        api_timeout_ms: text_field(env, "API_TIMEOUT_MS"),
        broken_plugins,
    }
}

/// `doc[k] = v` when a new value is given, else the document unchanged.
pub open spec fn put_text(j: JsonVal, k: Seq<char>, v: Option<Seq<char>>) -> JsonVal {
    match v {
        Some(s) => with_field(j, k, JsonVal::Str(s)),
        None => j,
    }
}

/// Adds an empty `env` block when the document has none.
pub open spec fn ensure_env(j: JsonVal) -> JsonVal {
    if field(j, env_key()) is None {
        with_field(j, env_key(), JsonVal::Obj(Seq::empty()))
    } else {
        j
    }
}

/// `doc["env"][k] = v` when a new value is given, else the document
/// unchanged.
pub open spec fn put_env_text(j: JsonVal, k: Seq<char>, v: Option<Seq<char>>) -> JsonVal {
    match v {
        Some(s) => with_field(
            j,
            env_key(),
            with_field(field(j, env_key()).unwrap(), k, JsonVal::Str(s)),
        ),
        None => j,
    }
}

/// Whether any of the environment settings is given.
pub open spec fn touches_env(u: ClaudeFields) -> bool {
    u.auth_token is Some || u.base_url is Some || u.haiku_model is Some || u.sonnet_model is Some
        || u.opus_model is Some || u.timeout_ms is Some
}

/// The inputs on which `save_claude_config` edits without panicking: the
/// document is an object or `null`, and when an environment setting is
/// written, the existing `env` member (if any) is an object or `null`.
pub open spec fn claude_update_allowed(raw: JsonVal, u: ClaudeFields) -> bool {
    &&& assignable(raw)
    &&& touches_env(u) ==> match field(raw, env_key()) {
        Some(e) => assignable(e),
        None => true,
    }
}

/// The settings document after `save_claude_config` writes the given
/// settings: `model` at the top level, an `env` block made sure of, then each
/// given environment setting written into it.
pub open spec fn claude_settings_updated(raw: JsonVal, u: ClaudeFields) -> JsonVal {
    let r1 = put_text(raw, "model"@, u.model);
    let r2 = ensure_env(r1);
    let r3 = put_env_text(r2, "ANTHROPIC_AUTH_TOKEN"@, u.auth_token);
    let r4 = put_env_text(r3, "ANTHROPIC_BASE_URL"@, u.base_url);
    let r5 = put_env_text(r4, "ANTHROPIC_DEFAULT_HAIKU_MODEL"@, u.haiku_model);
    let r6 = put_env_text(r5, "ANTHROPIC_DEFAULT_SONNET_MODEL"@, u.sonnet_model);
    let r7 = put_env_text(r6, "ANTHROPIC_DEFAULT_OPUS_MODEL"@, u.opus_model);
    put_env_text(r7, "API_TIMEOUT_MS"@, u.timeout_ms)
}

fn put_env(raw: &mut Json, key: &str, v: &Option<String>)
    requires
        assignable(old(raw)@),
        v is Some ==> field(old(raw)@, env_key()) is Some && assignable(
            field(old(raw)@, env_key()).unwrap(),
        ),
    ensures
        final(raw)@ == put_env_text(old(raw)@, key@, opt_text(*v)),
{
    if let Some(s) = v {
        let mut env = raw.get("env").unwrap().copy();
        env.set(key, Json::Str(s.clone()));
        raw.set("env", env);
    }
}

proof fn lemma_env_step(j: JsonVal, k: Seq<char>, v: Option<Seq<char>>)
    requires
        assignable(j),
        field(j, env_key()) is Some,
        assignable(field(j, env_key()).unwrap()),
    ensures
        assignable(put_env_text(j, k, v)),
        field(put_env_text(j, k, v), env_key()) is Some,
        assignable(field(put_env_text(j, k, v), env_key()).unwrap()),
{
    if let Some(s) = v {
        let e = field(j, env_key()).unwrap();
        lemma_field_with(e, k, JsonVal::Str(s), k);
        lemma_field_with(j, env_key(), with_field(e, k, JsonVal::Str(s)), env_key());
    }
}

/// The settings document after `save_claude_config` writes the given
/// settings (each `None` leaves its setting as it was).
pub fn apply_claude_config(
    raw: Json,
    model: Option<String>,
    anthropic_auth_token: Option<String>,
    anthropic_base_url: Option<String>,
    anthropic_default_haiku_model: Option<String>,
    anthropic_default_sonnet_model: Option<String>,
    anthropic_default_opus_model: Option<String>,
    api_timeout_ms: Option<String>,
) -> (r: Json)
    requires
        claude_update_allowed(
            raw@,
            ClaudeFields {
                model: opt_text(model),
                auth_token: opt_text(anthropic_auth_token),
                base_url: opt_text(anthropic_base_url),
                haiku_model: opt_text(anthropic_default_haiku_model),
                sonnet_model: opt_text(anthropic_default_sonnet_model),
                opus_model: opt_text(anthropic_default_opus_model),
                timeout_ms: opt_text(api_timeout_ms),
            },
        ),
    ensures
        r@ == claude_settings_updated(
            raw@,
            ClaudeFields {
                model: opt_text(model),
                auth_token: opt_text(anthropic_auth_token),
                base_url: opt_text(anthropic_base_url),
                haiku_model: opt_text(anthropic_default_haiku_model),
                sonnet_model: opt_text(anthropic_default_sonnet_model),
                opus_model: opt_text(anthropic_default_opus_model),
                timeout_ms: opt_text(api_timeout_ms),
            },
        ),
        text_of(field(r@, "model"@)) == match model {
            Some(v) => Some(v@),
            None => text_of(field(raw@, "model"@)),
        },
        text_of(field_of(field(r@, "env"@), "ANTHROPIC_AUTH_TOKEN"@)) == match anthropic_auth_token {
            Some(v) => Some(v@),
            None => text_of(field_of(field(raw@, "env"@), "ANTHROPIC_AUTH_TOKEN"@)),
        },
        text_of(field_of(field(r@, "env"@), "ANTHROPIC_BASE_URL"@)) == match anthropic_base_url {
            Some(v) => Some(v@),
            None => text_of(field_of(field(raw@, "env"@), "ANTHROPIC_BASE_URL"@)),
        },
        text_of(field_of(field(r@, "env"@), "ANTHROPIC_DEFAULT_HAIKU_MODEL"@)) == match anthropic_default_haiku_model {
            Some(v) => Some(v@),
            None => text_of(field_of(field(raw@, "env"@), "ANTHROPIC_DEFAULT_HAIKU_MODEL"@)),
        },
        text_of(field_of(field(r@, "env"@), "ANTHROPIC_DEFAULT_SONNET_MODEL"@)) == match anthropic_default_sonnet_model {
            Some(v) => Some(v@),
            None => text_of(field_of(field(raw@, "env"@), "ANTHROPIC_DEFAULT_SONNET_MODEL"@)),
        },
        text_of(field_of(field(r@, "env"@), "ANTHROPIC_DEFAULT_OPUS_MODEL"@)) == match anthropic_default_opus_model {
            Some(v) => Some(v@),
            None => text_of(field_of(field(raw@, "env"@), "ANTHROPIC_DEFAULT_OPUS_MODEL"@)),
        },
        text_of(field_of(field(r@, "env"@), "API_TIMEOUT_MS"@)) == match api_timeout_ms {
            Some(v) => Some(v@),
            None => text_of(field_of(field(raw@, "env"@), "API_TIMEOUT_MS"@)),
        },
{
    let ghost u = ClaudeFields {
        model: opt_text(model),
        auth_token: opt_text(anthropic_auth_token),
        base_url: opt_text(anthropic_base_url),
        haiku_model: opt_text(anthropic_default_haiku_model),
        sonnet_model: opt_text(anthropic_default_sonnet_model),
        opus_model: opt_text(anthropic_default_opus_model),
        timeout_ms: opt_text(api_timeout_ms),
    };
    let ghost raw0 = raw@;
    let mut raw = raw;
    proof {
        reveal_strlit("model");
        reveal_strlit("env");
        assert("model"@.len() != "env"@.len());
        assert("model"@ != env_key());
    }
    if let Some(m) = model {
        proof {
            lemma_field_with(raw0, "model"@, JsonVal::Str(m@), env_key());
        }
        raw.set("model", Json::Str(m));
    }
    assert(raw@ == put_text(raw0, "model"@, u.model));
    assert(assignable(raw@));
    assert(touches_env(u) ==> match field(raw@, env_key()) {
        Some(e) => assignable(e),
        None => true,
    });
    let ghost r1 = raw@;
    if raw.get("env").is_none() {
        proof {
            lemma_field_with(r1, env_key(), JsonVal::Obj(Seq::empty()), env_key());
        }
        raw.set("env", Json::empty_object());
    }
    assert(raw@ == ensure_env(r1));
    proof {
        if touches_env(u) {
            lemma_field_with(r1, env_key(), JsonVal::Obj(Seq::empty()), env_key());
        }
    }
    assert(assignable(raw@));
    assert(field(raw@, env_key()) is Some);
    assert(touches_env(u) ==> assignable(field(raw@, env_key()).unwrap()));
    let ghost r2 = raw@;
    proof {
        if touches_env(u) {
            lemma_env_step(r2, "ANTHROPIC_AUTH_TOKEN"@, u.auth_token);
            let r3 = put_env_text(r2, "ANTHROPIC_AUTH_TOKEN"@, u.auth_token);
            lemma_env_step(r3, "ANTHROPIC_BASE_URL"@, u.base_url);
            let r4 = put_env_text(r3, "ANTHROPIC_BASE_URL"@, u.base_url);
            lemma_env_step(r4, "ANTHROPIC_DEFAULT_HAIKU_MODEL"@, u.haiku_model);
            let r5 = put_env_text(r4, "ANTHROPIC_DEFAULT_HAIKU_MODEL"@, u.haiku_model);
            lemma_env_step(r5, "ANTHROPIC_DEFAULT_SONNET_MODEL"@, u.sonnet_model);
            let r6 = put_env_text(r5, "ANTHROPIC_DEFAULT_SONNET_MODEL"@, u.sonnet_model);
            lemma_env_step(r6, "ANTHROPIC_DEFAULT_OPUS_MODEL"@, u.opus_model);
        }
    }
    put_env(&mut raw, "ANTHROPIC_AUTH_TOKEN", &anthropic_auth_token);
    put_env(&mut raw, "ANTHROPIC_BASE_URL", &anthropic_base_url);
    put_env(&mut raw, "ANTHROPIC_DEFAULT_HAIKU_MODEL", &anthropic_default_haiku_model);
    put_env(&mut raw, "ANTHROPIC_DEFAULT_SONNET_MODEL", &anthropic_default_sonnet_model);
    put_env(&mut raw, "ANTHROPIC_DEFAULT_OPUS_MODEL", &anthropic_default_opus_model);
    put_env(&mut raw, "API_TIMEOUT_MS", &api_timeout_ms);
    proof {
        law_claude_settings_written(raw0, u);
    }
    raw
}

/// Each written setting replaces the old one; the others stay as they were.
pub open spec fn merged_fields(u: ClaudeFields, old: ClaudeFields) -> ClaudeFields {
    ClaudeFields {
        model: if u.model is Some { u.model } else { old.model },
        auth_token: if u.auth_token is Some { u.auth_token } else { old.auth_token },
        base_url: if u.base_url is Some { u.base_url } else { old.base_url },
        haiku_model: if u.haiku_model is Some { u.haiku_model } else { old.haiku_model },
        sonnet_model: if u.sonnet_model is Some { u.sonnet_model } else { old.sonnet_model },
        opus_model: if u.opus_model is Some { u.opus_model } else { old.opus_model },
        timeout_ms: if u.timeout_ms is Some { u.timeout_ms } else { old.timeout_ms },
    }
}

proof fn lemma_claude_keys_distinct()
    ensures
        "model"@ != env_key(),
        "ANTHROPIC_AUTH_TOKEN"@.len() == 20,
        "ANTHROPIC_BASE_URL"@.len() == 18,
        "ANTHROPIC_DEFAULT_HAIKU_MODEL"@.len() == 29,
        "ANTHROPIC_DEFAULT_SONNET_MODEL"@.len() == 30,
        "ANTHROPIC_DEFAULT_OPUS_MODEL"@.len() == 28,
        "API_TIMEOUT_MS"@.len() == 14,
{
    reveal_strlit("model");
    reveal_strlit("env");
    reveal_strlit("ANTHROPIC_AUTH_TOKEN");
    reveal_strlit("ANTHROPIC_BASE_URL");
    reveal_strlit("ANTHROPIC_DEFAULT_HAIKU_MODEL");
    reveal_strlit("ANTHROPIC_DEFAULT_SONNET_MODEL");
    reveal_strlit("ANTHROPIC_DEFAULT_OPUS_MODEL");
    reveal_strlit("API_TIMEOUT_MS");
    assert("model"@.len() != "env"@.len());
}

proof fn lemma_put_env_read(j: JsonVal, k: Seq<char>, v: Option<Seq<char>>, k2: Seq<char>)
    requires
        assignable(j),
        field(j, env_key()) is Some,
        assignable(field(j, env_key()).unwrap()),
        "model"@ != env_key(),
    ensures
        env_text(put_env_text(j, k, v), k2) == (if k2 == k && v is Some {
            v
        } else {
            env_text(j, k2)
        }),
        text_of(field(put_env_text(j, k, v), "model"@)) == text_of(field(j, "model"@)),
{
    if let Some(s) = v {
        let e = field(j, env_key()).unwrap();
        lemma_field_with(e, k, JsonVal::Str(s), k2);
        lemma_field_with(j, env_key(), with_field(e, k, JsonVal::Str(s)), "model"@);
    }
}

/// Writing model and API settings (`save_claude_config`) and reading them
/// back (`read_claude_config`) gives each written value, and the earlier
/// value of every setting that was not written.
pub proof fn law_claude_config_round_trip(raw: JsonVal, u: ClaudeFields)
    requires
        claude_update_allowed(raw, u),
    ensures
        claude_fields(claude_settings_updated(raw, u)) == merged_fields(u, claude_fields(raw)),
{
    lemma_claude_keys_distinct();
    let r1 = put_text(raw, "model"@, u.model);
    if let Some(m) = u.model {
        lemma_field_with(raw, "model"@, JsonVal::Str(m), env_key());
        lemma_field_with(raw, "model"@, JsonVal::Str(m), "model"@);
    }
    let r2 = ensure_env(r1);
    lemma_field_with(r1, env_key(), JsonVal::Obj(Seq::empty()), "model"@);
    lemma_field_with(r1, env_key(), JsonVal::Obj(Seq::empty()), env_key());
    assert(assignable(r2));
    assert(field(r2, env_key()) is Some);
    if !touches_env(u) {
        assert(claude_settings_updated(raw, u) == r2);
        // an added empty env block holds no settings
        assert forall|k: Seq<char>| env_text(r2, k) == env_text(raw, k) by {
            if field(r1, env_key()) is None {
                assert(field(r2, env_key()) == Some(JsonVal::Obj(Seq::empty())));
            }
        }
    } else {
        assert(assignable(field(r2, env_key()).unwrap()));
        assert forall|k: Seq<char>| env_text(r2, k) == env_text(raw, k) by {
            if field(r1, env_key()) is None {
                assert(field(r2, env_key()) == Some(JsonVal::Obj(Seq::empty())));
            }
        }
        let r3 = put_env_text(r2, "ANTHROPIC_AUTH_TOKEN"@, u.auth_token);
        lemma_env_step(r2, "ANTHROPIC_AUTH_TOKEN"@, u.auth_token);
        let r4 = put_env_text(r3, "ANTHROPIC_BASE_URL"@, u.base_url);
        lemma_env_step(r3, "ANTHROPIC_BASE_URL"@, u.base_url);
        let r5 = put_env_text(r4, "ANTHROPIC_DEFAULT_HAIKU_MODEL"@, u.haiku_model);
        lemma_env_step(r4, "ANTHROPIC_DEFAULT_HAIKU_MODEL"@, u.haiku_model);
        let r6 = put_env_text(r5, "ANTHROPIC_DEFAULT_SONNET_MODEL"@, u.sonnet_model);
        lemma_env_step(r5, "ANTHROPIC_DEFAULT_SONNET_MODEL"@, u.sonnet_model);
        let r7 = put_env_text(r6, "ANTHROPIC_DEFAULT_OPUS_MODEL"@, u.opus_model);
        lemma_env_step(r6, "ANTHROPIC_DEFAULT_OPUS_MODEL"@, u.opus_model);
        let r8 = put_env_text(r7, "API_TIMEOUT_MS"@, u.timeout_ms);
        assert forall|k2: Seq<char>| #![auto]
            env_text(r8, k2) == (if k2 == "API_TIMEOUT_MS"@ && u.timeout_ms is Some {
                u.timeout_ms
            } else if k2 == "ANTHROPIC_DEFAULT_OPUS_MODEL"@ && u.opus_model is Some {
                u.opus_model
            } else if k2 == "ANTHROPIC_DEFAULT_SONNET_MODEL"@ && u.sonnet_model is Some {
                u.sonnet_model
            } else if k2 == "ANTHROPIC_DEFAULT_HAIKU_MODEL"@ && u.haiku_model is Some {
                u.haiku_model
            } else if k2 == "ANTHROPIC_BASE_URL"@ && u.base_url is Some {
                u.base_url
            } else if k2 == "ANTHROPIC_AUTH_TOKEN"@ && u.auth_token is Some {
                u.auth_token
            } else {
                env_text(raw, k2)
            }) by {
            lemma_put_env_read(r2, "ANTHROPIC_AUTH_TOKEN"@, u.auth_token, k2);
            lemma_put_env_read(r3, "ANTHROPIC_BASE_URL"@, u.base_url, k2);
            lemma_put_env_read(r4, "ANTHROPIC_DEFAULT_HAIKU_MODEL"@, u.haiku_model, k2);
            lemma_put_env_read(r5, "ANTHROPIC_DEFAULT_SONNET_MODEL"@, u.sonnet_model, k2);
            lemma_put_env_read(r6, "ANTHROPIC_DEFAULT_OPUS_MODEL"@, u.opus_model, k2);
            lemma_put_env_read(r7, "API_TIMEOUT_MS"@, u.timeout_ms, k2);
        }
        lemma_put_env_read(r2, "ANTHROPIC_AUTH_TOKEN"@, u.auth_token, "model"@);
        lemma_put_env_read(r3, "ANTHROPIC_BASE_URL"@, u.base_url, "model"@);
        lemma_put_env_read(r4, "ANTHROPIC_DEFAULT_HAIKU_MODEL"@, u.haiku_model, "model"@);
        lemma_put_env_read(r5, "ANTHROPIC_DEFAULT_SONNET_MODEL"@, u.sonnet_model, "model"@);
        lemma_put_env_read(r6, "ANTHROPIC_DEFAULT_OPUS_MODEL"@, u.opus_model, "model"@);
        lemma_put_env_read(r7, "API_TIMEOUT_MS"@, u.timeout_ms, "model"@);
        assert(env_text(r8, "ANTHROPIC_AUTH_TOKEN"@) == merged_fields(u, claude_fields(raw)).auth_token);
        assert(env_text(r8, "ANTHROPIC_BASE_URL"@) == merged_fields(u, claude_fields(raw)).base_url);
        assert(env_text(r8, "ANTHROPIC_DEFAULT_HAIKU_MODEL"@) == merged_fields(u, claude_fields(raw)).haiku_model);
        assert(env_text(r8, "ANTHROPIC_DEFAULT_SONNET_MODEL"@) == merged_fields(u, claude_fields(raw)).sonnet_model);
        assert(env_text(r8, "ANTHROPIC_DEFAULT_OPUS_MODEL"@) == merged_fields(u, claude_fields(raw)).opus_model);
        assert(env_text(r8, "API_TIMEOUT_MS"@) == merged_fields(u, claude_fields(raw)).timeout_ms);
    }
}

// ---------------------------------------------------------------------------
// status-line display options
// ---------------------------------------------------------------------------

/// Which status-line segments are shown.
#[derive(Clone, Copy, Debug, PartialEq, Eq, Structural)]
pub struct SegmentConfig {
    pub tier: bool,
    pub balance: bool,
    pub git: bool,
    pub model: bool,
    pub context: bool,
    pub hour5: bool,
    pub mcp: bool,
    pub cache_time: bool,
}

/// Every segment shown.
pub open spec fn all_segments() -> SegmentConfig {
    SegmentConfig {
        tier: true,
        balance: true,
        git: true,
        model: true,
        context: true,
        hour5: true,
        mcp: true,
        cache_time: true,
    }
}

impl Default for SegmentConfig {
    fn default() -> (r: Self)
        ensures
            r == all_segments(),
    {
        SegmentConfig {
            tier: true,
            balance: true,
            git: true,
            model: true,
            context: true,
            hour5: true,
            mcp: true,
            cache_time: true,
        }
    }
}

/// `o.and_then(|v| v.as_bool()).unwrap_or(d)`.
pub open spec fn flag_or(o: Option<JsonVal>, d: bool) -> bool {
    match flag_of(o) {
        Some(b) => b,
        None => d,
    }
}

/// The segment options stored under `zhipuSegments`: each flag as stored,
/// or shown when it is missing or not a boolean; all shown when there is no
/// `zhipuSegments` object.
pub open spec fn segment_config_in(raw: JsonVal) -> SegmentConfig {
    match members_of(field(raw, "zhipuSegments"@)) {
        Some(es) => SegmentConfig {
            tier: flag_or(lookup(es, "tier"@), true),
            balance: flag_or(lookup(es, "balance"@), true),
            git: flag_or(lookup(es, "git"@), true),
            model: flag_or(lookup(es, "model"@), true),
            context: flag_or(lookup(es, "context"@), true),
            hour5: flag_or(lookup(es, "hour5"@), true),
            mcp: flag_or(lookup(es, "mcp"@), true),
            cache_time: flag_or(lookup(es, "cacheTime"@), true),
        },
        None => all_segments(),
    }
}

/// The object that `save_segment_config` stores.
pub open spec fn segment_json(c: SegmentConfig) -> JsonVal {
    JsonVal::Obj(
        seq![
            ("tier"@, JsonVal::Bool(c.tier)),
            ("balance"@, JsonVal::Bool(c.balance)),
            ("git"@, JsonVal::Bool(c.git)),
            ("model"@, JsonVal::Bool(c.model)),
            ("context"@, JsonVal::Bool(c.context)),
            ("hour5"@, JsonVal::Bool(c.hour5)),
            ("mcp"@, JsonVal::Bool(c.mcp)),
            ("cacheTime"@, JsonVal::Bool(c.cache_time)),
        ],
    )
}

fn flag_member(m: &Vec<(String, Json)>, key: &str, d: bool) -> (r: bool)
    ensures
        r == flag_or(lookup(crate::json::entries_view(m@), key@), d),
{
    proof {
        crate::json::lemma_lookup_index(crate::json::entries_view(m@), key@);
    }
    match crate::json::entry_index(m, key) {
        Some(i) => match m[i].1.as_bool() {
            Some(b) => b,
            None => d,
        },
        None => d,
    }
}

/// The segment options that `read_segment_config` reports for a settings
/// document.
pub fn segment_config_of(raw: &Json) -> (r: SegmentConfig)
    ensures
        r == segment_config_in(raw@),
{
    let seg = match raw.get("zhipuSegments") {
        Some(v) => v.as_object(),
        None => None,
    };
    match seg {
        Some(m) => SegmentConfig {
            tier: flag_member(m, "tier", true),
            balance: flag_member(m, "balance", true),
            git: flag_member(m, "git", true),
            model: flag_member(m, "model", true),
            context: flag_member(m, "context", true),
            hour5: flag_member(m, "hour5", true),
            mcp: flag_member(m, "mcp", true),
            cache_time: flag_member(m, "cacheTime", true),
        },
        None => SegmentConfig::default(),
    }
}

/// The settings document after `save_segment_config` stores the options.
pub fn with_segment_config(raw: Json, c: &SegmentConfig) -> (r: Json)
    requires
        assignable(raw@),
    ensures
        r@ == with_field(raw@, "zhipuSegments"@, segment_json(*c)),
{
    let mut es: Vec<(String, Json)> = Vec::new();
    es.push((owned("tier"), Json::Bool(c.tier)));
    es.push((owned("balance"), Json::Bool(c.balance)));
    es.push((owned("git"), Json::Bool(c.git)));
    es.push((owned("model"), Json::Bool(c.model)));
    es.push((owned("context"), Json::Bool(c.context)));
    es.push((owned("hour5"), Json::Bool(c.hour5)));
    es.push((owned("mcp"), Json::Bool(c.mcp)));
    es.push((owned("cacheTime"), Json::Bool(c.cache_time)));
    proof {
        crate::json::lemma_object_view(es);
        assert(crate::json::entries_view(es@) =~= segment_json(*c)->Obj_0);
    }
    let mut raw = raw;
    raw.set("zhipuSegments", Json::Object(es));
    raw
}

proof fn lemma_segment_keys()
    ensures
        "tier"@ != "balance"@,
        "tier"@ != "git"@,
        "tier"@ != "model"@,
        "tier"@ != "context"@,
        "tier"@ != "hour5"@,
        "tier"@ != "mcp"@,
        "tier"@ != "cacheTime"@,
        "balance"@ != "git"@,
        "balance"@ != "model"@,
        "balance"@ != "context"@,
        "balance"@ != "hour5"@,
        "balance"@ != "mcp"@,
        "balance"@ != "cacheTime"@,
        "git"@ != "model"@,
        "git"@ != "context"@,
        "git"@ != "hour5"@,
        "git"@ != "mcp"@,
        "git"@ != "cacheTime"@,
        "model"@ != "context"@,
        "model"@ != "hour5"@,
        "model"@ != "mcp"@,
        "model"@ != "cacheTime"@,
        "context"@ != "hour5"@,
        "context"@ != "mcp"@,
        "context"@ != "cacheTime"@,
        "hour5"@ != "mcp"@,
        "hour5"@ != "cacheTime"@,
        "mcp"@ != "cacheTime"@,
{
    reveal_strlit("tier");
    reveal_strlit("balance");
    reveal_strlit("git");
    reveal_strlit("model");
    reveal_strlit("context");
    reveal_strlit("hour5");
    reveal_strlit("mcp");
    reveal_strlit("cacheTime");
    assert("tier"@.len() == 4 && "cacheTime"@.len() == 9 && "model"@.len() == 5 && "mcp"@.len() == 3);
    assert("balance"@[0] != "context"@[0]);
    assert("git"@[0] != "mcp"@[0]);
    assert("model"@[0] != "hour5"@[0]);
}

/// Storing segment options (`save_segment_config`) and reading them back
/// (`read_segment_config`) gives the stored options.
pub proof fn law_segment_config_round_trip(raw: JsonVal, c: SegmentConfig)
    requires
        assignable(raw),
    ensures
        segment_config_in(with_field(raw, "zhipuSegments"@, segment_json(c))) == c,
{
    lemma_segment_keys();
    lemma_field_with(raw, "zhipuSegments"@, segment_json(c), "zhipuSegments"@);
    let es = segment_json(c)->Obj_0;
    reveal_with_fuel(lookup, 9);
    assert(es.drop_last().drop_last().drop_last().drop_last().drop_last().drop_last().drop_last() =~= seq![("tier"@, JsonVal::Bool(c.tier))]);
}

/// The progress-bar colours shown for normal, warning and danger levels.
pub struct BarColors {
    pub normal: String,
    pub warning: String,
    pub danger: String,
}

/// The colour names of a `BarColors`.
pub open spec fn bar_colors_view(c: BarColors) -> (Seq<char>, Seq<char>, Seq<char>) {
    (c.normal@, c.warning@, c.danger@)
}

/// Green, yellow and red.
pub open spec fn default_bar_colors() -> (Seq<char>, Seq<char>, Seq<char>) {
    ("green"@, "yellow"@, "red"@)
}

impl Default for BarColors {
    fn default() -> (r: Self)
        ensures
            bar_colors_view(r) == default_bar_colors(),
    {
        BarColors { normal: owned("green"), warning: owned("yellow"), danger: owned("red") }
    }
}

/// `o.and_then(|v| v.as_str()).unwrap_or(d)`.
pub open spec fn text_or(o: Option<JsonVal>, d: Seq<char>) -> Seq<char> {
    match text_of(o) {
        Some(s) => s,
        None => d,
    }
}

/// The colours stored under `zhipuBarColors`: each as stored, or its default
/// when missing or not a string; all defaults without a `zhipuBarColors`
/// object.
pub open spec fn bar_colors_in(raw: JsonVal) -> (Seq<char>, Seq<char>, Seq<char>) {
    match members_of(field(raw, "zhipuBarColors"@)) {
        Some(es) => (
            text_or(lookup(es, "normal"@), "green"@),
            text_or(lookup(es, "warning"@), "yellow"@),
            text_or(lookup(es, "danger"@), "red"@),
        ),
        None => default_bar_colors(),
    }
}

fn text_member(m: &Vec<(String, Json)>, key: &str, d: &str) -> (r: String)
    ensures
        r@ == text_or(lookup(crate::json::entries_view(m@), key@), d@),
{
    proof {
        crate::json::lemma_lookup_index(crate::json::entries_view(m@), key@);
    }
    match crate::json::entry_index(m, key) {
        Some(i) => match m[i].1.as_str() {
            Some(s) => s.clone(),
            None => owned(d),
        },
        None => owned(d),
    }
}

/// The colours that `read_bar_colors` reports for a settings document.
pub fn bar_colors_of(raw: &Json) -> (r: BarColors)
    ensures
        bar_colors_view(r) == bar_colors_in(raw@),
        r.normal@ == match text_of(field_of(field(raw@, "zhipuBarColors"@), "normal"@)) {
            Some(s) => s,
            None => "green"@,
        },
        r.warning@ == match text_of(field_of(field(raw@, "zhipuBarColors"@), "warning"@)) {
            Some(s) => s,
            None => "yellow"@,
        },
        r.danger@ == match text_of(field_of(field(raw@, "zhipuBarColors"@), "danger"@)) {
            Some(s) => s,
            None => "red"@,
        },
{
    proof {
        law_bar_colors_keys(raw@);
    }
    let colors = match raw.get("zhipuBarColors") {
        Some(v) => v.as_object(),
        None => None,
    };
    match colors {
        Some(m) => BarColors {
            normal: text_member(m, "normal", "green"),
            warning: text_member(m, "warning", "yellow"),
            danger: text_member(m, "danger", "red"),
        },
        None => BarColors::default(),
    }
}

/// The object that `save_bar_colors` stores.
pub open spec fn bar_colors_json(c: (Seq<char>, Seq<char>, Seq<char>)) -> JsonVal {
    JsonVal::Obj(
        seq![
            ("normal"@, JsonVal::Str(c.0)),
            ("warning"@, JsonVal::Str(c.1)),
            ("danger"@, JsonVal::Str(c.2)),
        ],
    )
}

/// The settings document after `save_bar_colors` stores the colours; a
/// document that is not an object is left as it is.
pub fn with_bar_colors(raw: Json, c: &BarColors) -> (r: Json)
    ensures
        r@ == insert_if_object(raw@, "zhipuBarColors"@, bar_colors_json(bar_colors_view(*c))),
        raw@ is Obj ==> field_of(field(r@, "zhipuBarColors"@), "normal"@) == Some(
            JsonVal::Str(c.normal@),
        ),
        raw@ is Obj ==> field_of(field(r@, "zhipuBarColors"@), "warning"@) == Some(
            JsonVal::Str(c.warning@),
        ),
        raw@ is Obj ==> field_of(field(r@, "zhipuBarColors"@), "danger"@) == Some(
            JsonVal::Str(c.danger@),
        ),
        !(raw@ is Obj) ==> r@ == raw@,
{
    proof {
        if raw@ is Obj {
            law_bar_colors_stored(raw@, bar_colors_view(*c));
        }
    }
    let mut es: Vec<(String, Json)> = Vec::new();
    es.push((owned("normal"), Json::Str(c.normal.clone())));
    es.push((owned("warning"), Json::Str(c.warning.clone())));
    es.push((owned("danger"), Json::Str(c.danger.clone())));
    proof {
        crate::json::lemma_object_view(es);
        assert(crate::json::entries_view(es@) =~= bar_colors_json(bar_colors_view(*c))->Obj_0);
    }
    let mut raw = raw;
    raw.insert("zhipuBarColors", Json::Object(es));
    raw
}

/// Storing colours in a settings object (`save_bar_colors`) and reading
/// them back (`read_bar_colors`) gives the stored colours.
pub proof fn law_bar_colors_round_trip(raw: JsonVal, c: (Seq<char>, Seq<char>, Seq<char>))
    requires
        raw is Obj,
    ensures
        bar_colors_in(insert_if_object(raw, "zhipuBarColors"@, bar_colors_json(c))) == c,
{
    reveal_strlit("normal");
    reveal_strlit("warning");
    reveal_strlit("danger");
    assert("normal"@.len() != "warning"@.len());
    assert("normal"@[0] != "danger"@[0]);
    assert("warning"@.len() != "danger"@.len());
    lemma_field_with(raw, "zhipuBarColors"@, bar_colors_json(c), "zhipuBarColors"@);
    reveal_with_fuel(lookup, 4);
    let es = bar_colors_json(c)->Obj_0;
    assert(es.drop_last().drop_last() =~= seq![("normal"@, JsonVal::Str(c.0))]);
}

// ---------------------------------------------------------------------------
// API endpoint and cache lifetime
// ---------------------------------------------------------------------------

/// The API endpoint used when the settings name none (the mainland service).
pub open spec fn default_endpoint() -> Seq<char> {
    "https://open.bigmodel.cn"@
}

/// The API endpoint used when the settings name none.
pub fn default_endpoint_text() -> (r: String)
    ensures
        r@ == default_endpoint(),
{
    owned("https://open.bigmodel.cn")
}

/// The settings document after `save_zhipu_endpoint` stores the endpoint.
pub fn with_endpoint(raw: Json, endpoint: &str) -> (r: Json)
    requires
        assignable(raw@),
    ensures
        r@ == with_field(raw@, "zhipuEndpoint"@, JsonVal::Str(endpoint@)),
{
    let mut raw = raw;
    raw.set("zhipuEndpoint", Json::text(endpoint));
    raw
}

/// A text that is present and not empty.
pub open spec fn non_empty(o: Option<Seq<char>>) -> Option<Seq<char>> {
    match o {
        Some(s) => if s.len() > 0 {
            Some(s)
        } else {
            None
        },
        None => None,
    }
}

/// The API key, endpoint and model named by a settings document: the key
/// and the model when present and not empty, the endpoint as stored or the
/// default one.
pub open spec fn config_keys_in(raw: JsonVal) -> (
    Option<Seq<char>>,
    Option<Seq<char>>,
    Option<Seq<char>>,
) {
    (
        non_empty(env_text(raw, "ANTHROPIC_AUTH_TOKEN"@)),
        Some(
            match text_of(field(raw, "zhipuEndpoint"@)) {
                Some(e) => e,
                None => default_endpoint(),
            },
        ),
        non_empty(text_of(field(raw, "model"@))),
    )
}

fn non_empty_text(o: Option<String>) -> (r: Option<String>)
    ensures
        opt_text(r) == non_empty(opt_text(o)),
{
    match o {
        Some(s) => {
            if s.as_str().unicode_len() > 0 {
                Some(s)
            } else {
                None
            }
        },
        None => None,
    }
}

/// The API key, endpoint and model named by a settings document.
pub fn config_keys_of(raw: &Json) -> (r: (Option<String>, Option<String>, Option<String>))
    ensures
        (opt_text(r.0), opt_text(r.1), opt_text(r.2)) == config_keys_in(raw@),
{
    let env = raw.get("env");
    let api_key = non_empty_text(text_field(env, "ANTHROPIC_AUTH_TOKEN"));
    let endpoint = match text_field(Some(raw), "zhipuEndpoint") {
        Some(e) => e,
        None => default_endpoint_text(),
    };
    let model = non_empty_text(text_field(Some(raw), "model"));
    (api_key, Some(endpoint), model)
}

/// The API key, endpoint and model named by the settings file's text
/// (`None` when there is no readable file): nothing when the text is not
/// JSON.
pub fn read_config_keys(content: Option<&str>) -> (r: (
    Option<String>,
    Option<String>,
    Option<String>,
))
    ensures
        (opt_text(r.0), opt_text(r.1), opt_text(r.2)) == match content {
            Some(t) => match parsed_json(t@) {
                Some(v) => config_keys_in(v),
                None => (None, None, None),
            },
            None => (None, None, None),
        },
{
    match content {
        Some(t) => match parse_json(t) {
            Some(v) => config_keys_of(&v),
            None => (None, None, None),
        },
        None => (None, None, None),
    }
}

/// Storing an endpoint (`save_zhipu_endpoint`) and reading the settings
/// (`read_config_keys`) gives that endpoint back, with the key and the model
/// unchanged.
pub proof fn law_endpoint_round_trip(raw: JsonVal, e: Seq<char>)
    requires
        assignable(raw),
    ensures
        config_keys_in(with_field(raw, "zhipuEndpoint"@, JsonVal::Str(e))).1 == Some(e),
        config_keys_in(with_field(raw, "zhipuEndpoint"@, JsonVal::Str(e))).0 == config_keys_in(raw).0,
        config_keys_in(with_field(raw, "zhipuEndpoint"@, JsonVal::Str(e))).2 == config_keys_in(raw).2,
{
    reveal_strlit("zhipuEndpoint");
    reveal_strlit("env");
    reveal_strlit("model");
    assert("zhipuEndpoint"@.len() != env_key().len());
    assert("zhipuEndpoint"@.len() != "model"@.len());
    lemma_field_with(raw, "zhipuEndpoint"@, JsonVal::Str(e), "zhipuEndpoint"@);
    lemma_field_with(raw, "zhipuEndpoint"@, JsonVal::Str(e), env_key());
    lemma_field_with(raw, "zhipuEndpoint"@, JsonVal::Str(e), "model"@);
}

/// The cache lifetime in seconds stored under `zhipuCacheDuration`: the
/// stored integer when it is positive, else 300.
pub open spec fn cache_duration_in(raw: JsonVal) -> i64 {
    match int_of(field(raw, "zhipuCacheDuration"@)) {
        Some(d) => if d > 0 {
            d
        } else {
            300
        },
        None => 300,
    }
}

/// The cache lifetime in seconds named by a settings document.
pub fn cache_duration_of(raw: &Json) -> (r: i64)
    ensures
        r == cache_duration_in(raw@),
{
    match raw.get("zhipuCacheDuration") {
        Some(v) => match v.as_i64() {
            Some(d) => if d > 0 {
                d
            } else {
                300
            },
            None => 300,
        },
        None => 300,
    }
}

/// The cache lifetime in seconds named by the settings file's text (`None`
/// when there is no readable file): 300 without a file or when the text is
/// not JSON.
pub fn read_cache_duration(content: Option<&str>) -> (r: i64)
    ensures
        r == match content {
            Some(t) => match parsed_json(t@) {
                Some(v) => cache_duration_in(v),
                None => 300,
            },
            None => 300,
        },
{
    match content {
        Some(t) => match parse_json(t) {
            Some(v) => cache_duration_of(&v),
            None => 300,
        },
        None => 300,
    }
}

/// The settings document after `save_zhipu_cache_duration` stores the
/// lifetime.
pub fn with_cache_duration(raw: Json, seconds: u64) -> (r: Json)
    requires
        assignable(raw@),
    ensures
        r@ == with_field(raw@, "zhipuCacheDuration"@, u64_number(seconds)),
{
    let mut raw = raw;
    raw.set("zhipuCacheDuration", Json::from_u64(seconds));
    raw
}

/// Storing a cache lifetime (`save_zhipu_cache_duration`) and reading it
/// back (`read_cache_duration`) gives the stored lifetime when it is between
/// 1 and `i64::MAX`, and the default of 300 seconds otherwise.
pub proof fn law_cache_duration_round_trip(raw: JsonVal, seconds: u64)
    requires
        assignable(raw),
    ensures
        cache_duration_in(with_field(raw, "zhipuCacheDuration"@, u64_number(seconds))) == (if 1
            <= seconds <= i64::MAX {
            seconds as i64
        } else {
            300
        }),
{
    lemma_field_with(raw, "zhipuCacheDuration"@, u64_number(seconds), "zhipuCacheDuration"@);
}

// ---------------------------------------------------------------------------
// the status-line hook
// ---------------------------------------------------------------------------

/// A hook whose command text mentions `marker`.
pub open spec fn mentions_marker(h: JsonVal, marker: Seq<char>) -> bool {
    match text_of(field(h, "command"@)) {
        Some(c) => has_sub(c, marker),
        None => false,
    }
}

/// Some hook in the list has a command mentioning `marker`.
pub open spec fn any_mentions(hs: Seq<JsonVal>, marker: Seq<char>) -> bool {
    exists|i: int| 0 <= i < hs.len() && #[trigger] mentions_marker(hs[i], marker)
}

/// A `SessionStart` entry with a hook whose command mentions `marker`.
pub open spec fn entry_has_marker(entry: JsonVal, marker: Seq<char>) -> bool {
    match items_of(field(entry, "hooks"@)) {
        Some(hs) => any_mentions(hs, marker),
        None => false,
    }
}

/// Some entry in the list has a hook mentioning `marker`.
pub open spec fn any_entry_marked(es: Seq<JsonVal>, marker: Seq<char>) -> bool {
    exists|i: int| 0 <= i < es.len() && #[trigger] entry_has_marker(es[i], marker)
}

/// Whether the settings run a command mentioning `marker`: as the status-line
/// command, or as a hook of a `SessionStart` entry (the older setup).
pub open spec fn hook_installed_in(raw: JsonVal, marker: Seq<char>) -> bool {
    ||| match text_of(field_of(field(raw, "statusLine"@), "command"@)) {
        Some(c) => has_sub(c, marker),
        None => false,
    }
    ||| match items_of(field_of(field(raw, "hooks"@), "SessionStart"@)) {
        Some(es) => any_entry_marked(es, marker),
        None => false,
    }
}

fn mentions_marker_exec(h: &Json, marker: &str) -> (r: bool)
    ensures
        r == mentions_marker(h@, marker@),
{
    match h.get("command") {
        Some(c) => match c.as_str() {
            Some(t) => contains_text(t.as_str(), marker),
            None => false,
        },
        None => false,
    }
}

fn entry_has_marker_exec(entry: &Json, marker: &str) -> (r: bool)
    ensures
        r == entry_has_marker(entry@, marker@),
{
    let hs = match entry.get("hooks") {
        Some(h) => h.as_array(),
        None => None,
    };
    match hs {
        Some(v) => {
            let ghost hv = items_view(v@);
            let mut i: usize = 0;
            while i < v.len()
                invariant
                    i <= v@.len(),
                    hv == items_view(v@),
                    items_of(field(entry@, "hooks"@)) == Some(hv),
                    forall|k: int| 0 <= k < i ==> !mentions_marker(hv[k], marker@),
                decreases v.len() - i,
            {
                if mentions_marker_exec(&v[i], marker) {
                    assert(mentions_marker(hv[i as int], marker@));
                    assert(any_mentions(hv, marker@));
                    return true;
                }
                i += 1;
            }
            false
        },
        None => false,
    }
}

/// Whether `check_claude_hook_status` reports the hook as installed for a
/// settings document: the status-line command, or a `SessionStart` hook,
/// mentions `marker`.
pub fn hook_installed(raw: &Json, marker: &str) -> (r: bool)
    ensures
        r == hook_installed_in(raw@, marker@),
{
    let status_line = match raw.get("statusLine") {
        Some(sl) => match sl.get("command") {
            Some(c) => match c.as_str() {
                Some(t) => contains_text(t.as_str(), marker),
                None => false,
            },
            None => false,
        },
        None => false,
    };
    if status_line {
        return true;
    }
    let entries = match raw.get("hooks") {
        Some(h) => match h.get("SessionStart") {
            Some(s) => s.as_array(),
            None => None,
        },
        None => None,
    };
    match entries {
        Some(v) => {
            let ghost ev = items_view(v@);
            let mut i: usize = 0;
            while i < v.len()
                invariant
                    i <= v@.len(),
                    ev == items_view(v@),
                    items_of(field_of(field(raw@, "hooks"@), "SessionStart"@)) == Some(ev),
                    forall|k: int| 0 <= k < i ==> !entry_has_marker(ev[k], marker@),
                decreases v.len() - i,
            {
                if entry_has_marker_exec(&v[i], marker) {
                    assert(entry_has_marker(ev[i as int], marker@));
                    assert(any_entry_marked(ev, marker@));
                    return true;
                }
                i += 1;
            }
            false
        },
        None => false,
    }
}

/// The members left after dropping every member named in `keys`.
pub open spec fn drop_keys(es: Seq<(Seq<char>, JsonVal)>, keys: Seq<Seq<char>>) -> Seq<
    (Seq<char>, JsonVal),
>
    decreases keys.len(),
{
    if keys.len() == 0 {
        es
    } else {
        drop_entries(drop_keys(es, keys.drop_last()), keys.last())
    }
}

/// The settings after the broken plugin references are taken out of
/// `enabledPlugins` (`cleanup_broken_plugins`): nothing changes when there
/// are none or there is no `enabledPlugins` object; an `enabledPlugins` left
/// empty is removed.
pub open spec fn prune_plugins(raw: JsonVal, broken: Seq<Seq<char>>) -> JsonVal {
    if broken.len() == 0 {
        raw
    } else {
        match members_of(field(raw, "enabledPlugins"@)) {
            Some(es) => {
                let kept = drop_keys(es, broken);
                let r = with_field(raw, "enabledPlugins"@, JsonVal::Obj(kept));
                if kept.len() == 0 {
                    without_field(r, "enabledPlugins"@)
                } else {
                    r
                }
            },
            None => raw,
        }
    }
}

/// The entries that have no hook mentioning `marker`, in order.
pub open spec fn unmarked(arr: Seq<JsonVal>, marker: Seq<char>) -> Seq<JsonVal>
    decreases arr.len(),
{
    if arr.len() == 0 {
        arr
    } else {
        let r = unmarked(arr.drop_last(), marker);
        if entry_has_marker(arr.last(), marker) {
            r
        } else {
            r.push(arr.last())
        }
    }
}

/// The settings after the older `SessionStart` hooks that mention `marker`
/// are taken out: an emptied `SessionStart` is removed, and then an emptied
/// `hooks` object too.
pub open spec fn prune_session_hooks(raw: JsonVal, marker: Seq<char>) -> JsonVal {
    match field(raw, "hooks"@) {
        Some(hooks) => match items_of(field(hooks, "SessionStart"@)) {
            Some(arr) => {
                let kept = unmarked(arr, marker);
                if kept.len() == 0 {
                    let h2 = without_field(hooks, "SessionStart"@);
                    if h2->Obj_0.len() == 0 {
                        without_field(raw, "hooks"@)
                    } else {
                        with_field(raw, "hooks"@, h2)
                    }
                } else {
                    with_field(raw, "hooks"@, with_field(hooks, "SessionStart"@, JsonVal::Arr(kept)))
                }
            },
            None => raw,
        },
        None => raw,
    }
}

/// The status-line setting that runs `command`.
pub open spec fn status_line_json(command: Seq<char>) -> JsonVal {
    JsonVal::Obj(seq![("type"@, JsonVal::Str("command"@)), ("command"@, JsonVal::Str(command))])
}

/// The settings after `setup_claude_hook`: broken plugin references and older
/// `SessionStart` hooks taken out, then the status-line command set to
/// `command` (enabled) or the status line removed (disabled).
pub open spec fn hook_settings(
    raw: JsonVal,
    broken: Seq<Seq<char>>,
    enabled: bool,
    command: Seq<char>,
    marker: Seq<char>,
) -> JsonVal {
    let r = prune_session_hooks(prune_plugins(raw, broken), marker);
    if enabled {
        with_field(r, "statusLine"@, status_line_json(command))
    } else {
        without_field(r, "statusLine"@)
    }
}

fn drop_keys_exec(plugins: &mut Json, keys: &Vec<String>)
    requires
        old(plugins)@ is Obj,
    ensures
        final(plugins)@ == JsonVal::Obj(drop_keys(old(plugins)@->Obj_0, texts(keys@))),
{
    let ghost es0 = plugins@->Obj_0;
    let mut i: usize = 0;
    assert(texts(keys@).take(0) =~= Seq::<Seq<char>>::empty());
    while i < keys.len()
        invariant
            i <= keys@.len(),
            plugins@ == JsonVal::Obj(drop_keys(es0, texts(keys@).take(i as int))),
        decreases keys.len() - i,
    {
        assert(texts(keys@).take(i + 1).drop_last() =~= texts(keys@).take(i as int));
        plugins.remove(keys[i].as_str());
        i += 1;
    }
    assert(texts(keys@).take(keys@.len() as int) =~= texts(keys@));
}

/// The settings document after the broken plugin references are taken out
/// of `enabledPlugins` (`cleanup_broken_plugins`).
pub fn prune_plugins_exec(raw: Json, broken: &Vec<String>) -> (r: Json)
    ensures
        r@ == prune_plugins(raw@, texts(broken@)),
{
    if broken.len() == 0 {
        return raw;
    }
    let plugins = match raw.get("enabledPlugins") {
        Some(p) => if p.is_object() {
            Some(p.copy())
        } else {
            None
        },
        None => None,
    };
    match plugins {
        Some(mut p) => {
            drop_keys_exec(&mut p, broken);
            let empty = match p.as_object() {
                Some(m) => m.len() == 0,
                None => false,
            };
            let mut raw = raw;
            raw.set("enabledPlugins", p);
            if empty {
                raw.remove("enabledPlugins");
            }
            raw
        },
        None => raw,
    }
}

fn unmarked_exec(arr: &Vec<Json>, marker: &str) -> (r: Vec<Json>)
    ensures
        items_view(r@) == unmarked(items_view(arr@), marker@),
{
    let ghost av = items_view(arr@);
    let mut out: Vec<Json> = Vec::new();
    let mut i: usize = 0;
    assert(items_view(out@) =~= unmarked(av.take(0), marker@));
    while i < arr.len()
        invariant
            i <= arr@.len(),
            av == items_view(arr@),
            items_view(out@) == unmarked(av.take(i as int), marker@),
        decreases arr.len() - i,
    {
        assert(av.take(i + 1).drop_last() =~= av.take(i as int));
        if !entry_has_marker_exec(&arr[i], marker) {
            let ghost before = items_view(out@);
            out.push(arr[i].copy());
            assert(items_view(out@) =~= before.push(av[i as int]));
        }
        i += 1;
    }
    assert(av.take(arr@.len() as int) =~= av);
    out
}

/// The settings document after the older `SessionStart` hooks that mention
/// `marker` are taken out.
pub fn prune_session_hooks_exec(raw: Json, marker: &str) -> (r: Json)
    ensures
        r@ == prune_session_hooks(raw@, marker@),
{
    let hooks = match raw.get("hooks") {
        Some(h) => Some(h.copy()),
        None => None,
    };
    let mut hooks = match hooks {
        Some(h) => h,
        None => return raw,
    };
    let kept = match hooks.get("SessionStart") {
        Some(s) => match s.as_array() {
            Some(arr) => unmarked_exec(arr, marker),
            None => return raw,
        },
        None => return raw,
    };
    // `hooks` has a member, so it is an object
    assert(hooks@ is Obj);
    let mut raw = raw;
    if kept.len() == 0 {
        hooks.remove("SessionStart");
        let empty = match hooks.as_object() {
            Some(m) => m.len() == 0,
            None => false,
        };
        if empty {
            raw.remove("hooks");
        } else {
            raw.set("hooks", hooks);
        }
    } else {
        proof {
            crate::json::lemma_array_view(kept);
        }
        hooks.set("SessionStart", Json::Array(kept));
        raw.set("hooks", hooks);
    }
    raw
}

/// A settings document that is an object or `null` stays so.
proof fn lemma_prune_keeps_kind(raw: JsonVal, broken: Seq<Seq<char>>, marker: Seq<char>)
    ensures
        raw is Obj ==> prune_session_hooks(prune_plugins(raw, broken), marker) is Obj,
        raw is Null ==> prune_session_hooks(prune_plugins(raw, broken), marker) is Null,
{
    if raw is Obj {
        let r1 = prune_plugins(raw, broken);
        if broken.len() > 0 {
            if let Some(es) = members_of(field(raw, "enabledPlugins"@)) {
                let kept = drop_keys(es, broken);
                lemma_field_with(raw, "enabledPlugins"@, JsonVal::Obj(kept), "enabledPlugins"@);
            }
        }
        assert(r1 is Obj);
        if let Some(hooks) = field(r1, "hooks"@) {
            if let Some(arr) = items_of(field(hooks, "SessionStart"@)) {
                let kept = unmarked(arr, marker);
                lemma_field_with(r1, "hooks"@, without_field(hooks, "SessionStart"@), "hooks"@);
                lemma_field_with(
                    r1,
                    "hooks"@,
                    with_field(hooks, "SessionStart"@, JsonVal::Arr(kept)),
                    "hooks"@,
                );
            }
        }
    }
}

/// The settings document after `setup_claude_hook`: broken plugin
/// references and older hooks mentioning `marker` taken out, then the status
/// line set to run `command` (enabled) or removed (disabled).
pub fn setup_hook_settings(
    raw: Json,
    broken: &Vec<String>,
    enabled: bool,
    command: &str,
    marker: &str,
) -> (r: Json)
    requires
        enabled ==> assignable(raw@),
    ensures
        r@ == hook_settings(raw@, texts(broken@), enabled, command@, marker@),
{
    proof {
        lemma_prune_keeps_kind(raw@, texts(broken@), marker@);
    }
    let raw = prune_plugins_exec(raw, broken);
    let mut raw = prune_session_hooks_exec(raw, marker);
    if enabled {
        let mut es: Vec<(String, Json)> = Vec::new();
        es.push((owned("type"), Json::text("command")));
        es.push((owned("command"), Json::text(command)));
        proof {
            crate::json::lemma_object_view(es);
            assert(crate::json::entries_view(es@) =~= status_line_json(command@)->Obj_0);
        }
        raw.set("statusLine", Json::Object(es));
    } else {
        raw.remove("statusLine");
    }
    raw
}

/// How the status-line command names the program: backslashes written as
/// forward slashes.
pub fn command_path_text(path: &str) -> (r: String)
    ensures
        r@ == replace_all(path@, seq!['\\'], seq!['/']),
{
    proof {
        reveal_strlit("\\");
        reveal_strlit("/");
        assert("\\"@ =~= seq!['\\']);
        assert("/"@ =~= seq!['/']);
    }
    replace_text(path, "\\", "/")
}

proof fn lemma_unmarked(arr: Seq<JsonVal>, marker: Seq<char>)
    ensures
        !any_entry_marked(unmarked(arr, marker), marker),
    decreases arr.len(),
{
    if arr.len() > 0 {
        lemma_unmarked(arr.drop_last(), marker);
        let r = unmarked(arr.drop_last(), marker);
        if !entry_has_marker(arr.last(), marker) {
            assert forall|i: int| 0 <= i < r.push(arr.last()).len() implies !entry_has_marker(
                #[trigger] r.push(arr.last())[i],
                marker,
            ) by {
                if i < r.len() {
                    assert(r.push(arr.last())[i] == r[i]);
                }
            }
        }
    }
}

/// With the hook enabled (`setup_claude_hook(true)`), the settings run
/// `command` as the status line, and when `command` mentions `marker`,
/// `check_claude_hook_status` reports the hook as installed.
pub proof fn law_hook_enabled(
    raw: JsonVal,
    broken: Seq<Seq<char>>,
    command: Seq<char>,
    marker: Seq<char>,
)
    requires
        assignable(raw),
    ensures
        text_of(field_of(field(hook_settings(raw, broken, true, command, marker), "statusLine"@), "command"@))
            == Some(command),
        has_sub(command, marker) ==> hook_installed_in(
            hook_settings(raw, broken, true, command, marker),
            marker,
        ),
{
    lemma_prune_keeps_kind(raw, broken, marker);
    let r = prune_session_hooks(prune_plugins(raw, broken), marker);
    lemma_field_with(r, "statusLine"@, status_line_json(command), "statusLine"@);
    reveal_strlit("type");
    reveal_strlit("command");
    assert("type"@.len() != "command"@.len());
    reveal_with_fuel(lookup, 3);
    let es = status_line_json(command)->Obj_0;
    assert(es.drop_last() =~= seq![("type"@, JsonVal::Str("command"@))]);
}

/// With the hook disabled (`setup_claude_hook(false)`),
/// `check_claude_hook_status` reports no hook mentioning `marker`: the
/// status line is gone and so is every older hook that mentioned it.
pub proof fn law_hook_disabled(
    raw: JsonVal,
    broken: Seq<Seq<char>>,
    command: Seq<char>,
    marker: Seq<char>,
)
    ensures
        !hook_installed_in(hook_settings(raw, broken, false, command, marker), marker),
{
    reveal_strlit("hooks");
    reveal_strlit("statusLine");
    assert("hooks"@.len() != "statusLine"@.len());
    let r1 = prune_plugins(raw, broken);
    let r2 = prune_session_hooks(r1, marker);
    lemma_field_without(r2, "statusLine"@, "statusLine"@);
    lemma_field_without(r2, "statusLine"@, "hooks"@);
    if let Some(hooks) = field(r1, "hooks"@) {
        if let Some(arr) = items_of(field(hooks, "SessionStart"@)) {
            let kept = unmarked(arr, marker);
            lemma_unmarked(arr, marker);
            if kept.len() == 0 {
                let h2 = without_field(hooks, "SessionStart"@);
                lemma_field_without(hooks, "SessionStart"@, "SessionStart"@);
                lemma_field_without(r1, "hooks"@, "hooks"@);
                lemma_field_with(r1, "hooks"@, h2, "hooks"@);
            } else {
                let h2 = with_field(hooks, "SessionStart"@, JsonVal::Arr(kept));
                lemma_field_with(hooks, "SessionStart"@, JsonVal::Arr(kept), "SessionStart"@);
                lemma_field_with(r1, "hooks"@, h2, "hooks"@);
            }
        }
    }
}

/// `setup_claude_hook` changes only `enabledPlugins`, `hooks` and
/// `statusLine`: every other member of the settings is as it was.
pub proof fn law_hook_frame(
    raw: JsonVal,
    broken: Seq<Seq<char>>,
    enabled: bool,
    command: Seq<char>,
    marker: Seq<char>,
    k: Seq<char>,
)
    requires
        enabled ==> assignable(raw),
        k != "enabledPlugins"@,
        k != "hooks"@,
        k != "statusLine"@,
    ensures
        field(hook_settings(raw, broken, enabled, command, marker), k) == field(raw, k),
{
    lemma_prune_keeps_kind(raw, broken, marker);
    let r1 = prune_plugins(raw, broken);
    if broken.len() > 0 {
        if let Some(es) = members_of(field(raw, "enabledPlugins"@)) {
            let kept = drop_keys(es, broken);
            lemma_field_with(raw, "enabledPlugins"@, JsonVal::Obj(kept), k);
            lemma_field_without(
                with_field(raw, "enabledPlugins"@, JsonVal::Obj(kept)),
                "enabledPlugins"@,
                k,
            );
        }
    }
    assert(field(r1, k) == field(raw, k));
    let r2 = prune_session_hooks(r1, marker);
    if let Some(hooks) = field(r1, "hooks"@) {
        if let Some(arr) = items_of(field(hooks, "SessionStart"@)) {
            let kept = unmarked(arr, marker);
            let h2 = without_field(hooks, "SessionStart"@);
            lemma_field_without(r1, "hooks"@, k);
            lemma_field_with(r1, "hooks"@, h2, k);
            lemma_field_with(r1, "hooks"@, with_field(hooks, "SessionStart"@, JsonVal::Arr(kept)), k);
        }
    }
    assert(field(r2, k) == field(raw, k));
    if enabled {
        lemma_field_with(r2, "statusLine"@, status_line_json(command), k);
    } else {
        lemma_field_without(r2, "statusLine"@, k);
    }
}

// ---------------------------------------------------------------------------
// plugin references
// ---------------------------------------------------------------------------

/// The names of the members whose value is `true`, in order.
pub open spec fn enabled_keys(es: Seq<(Seq<char>, JsonVal)>) -> Seq<Seq<char>>
    decreases es.len(),
{
    if es.len() == 0 {
        seq![]
    } else {
        let r = enabled_keys(es.drop_last());
        if es.last().1 == JsonVal::Bool(true) {
            r.push(es.last().0)
        } else {
            r
        }
    }
}

/// The plugins that the settings enable: the members of `enabledPlugins`
/// whose value is `true`.
pub open spec fn enabled_plugins_in(raw: JsonVal) -> Seq<Seq<char>> {
    match members_of(field(raw, "enabledPlugins"@)) {
        Some(es) => enabled_keys(es),
        None => seq![],
    }
}

/// The plugins that the settings enable.
pub fn enabled_plugin_keys(raw: &Json) -> (r: Vec<String>)
    ensures
        texts(r@) == enabled_plugins_in(raw@),
{
    let mut out: Vec<String> = Vec::new();
    let members = match raw.get("enabledPlugins") {
        Some(p) => p.as_object(),
        None => None,
    };
    assert(texts(out@) =~= Seq::<Seq<char>>::empty());
    match members {
        Some(m) => {
            let ghost ev = crate::json::entries_view(m@);
            let mut i: usize = 0;
            assert(texts(out@) =~= enabled_keys(ev.take(0)));
            while i < m.len()
                invariant
                    i <= m@.len(),
                    ev == crate::json::entries_view(m@),
                    texts(out@) == enabled_keys(ev.take(i as int)),
                decreases m.len() - i,
            {
                assert(ev.take(i + 1).drop_last() =~= ev.take(i as int));
                let on = match m[i].1.as_bool() {
                    Some(b) => b,
                    None => false,
                };
                if on {
                    let ghost before = texts(out@);
                    out.push(m[i].0.clone());
                    assert(texts(out@) =~= before.push(ev[i as int].0));
                }
                i += 1;
            }
            assert(ev.take(m@.len() as int) =~= ev);
        },
        None => {},
    }
    out
}

/// The `installPath` texts of the installation entries, in order.
pub open spec fn install_paths(entries: Seq<JsonVal>) -> Seq<Seq<char>>
    decreases entries.len(),
{
    if entries.len() == 0 {
        seq![]
    } else {
        let r = install_paths(entries.drop_last());
        match text_of(field(entries.last(), "installPath"@)) {
            Some(p) => r.push(p),
            None => r,
        }
    }
}

/// Where the installed-plugins record says a plugin is installed: the
/// `installPath` of each entry under `plugins.{key}`.
pub open spec fn install_paths_in(installed: JsonVal, key: Seq<char>) -> Seq<Seq<char>> {
    match members_of(field(installed, "plugins"@)) {
        Some(m) => match items_of(lookup(m, key)) {
            Some(entries) => install_paths(entries),
            None => seq![],
        },
        None => seq![],
    }
}

/// Where the installed-plugins record says a plugin is installed.
pub fn plugin_install_paths(installed: &Json, key: &str) -> (r: Vec<String>)
    ensures
        texts(r@) == install_paths_in(installed@, key@),
{
    let mut out: Vec<String> = Vec::new();
    assert(texts(out@) =~= Seq::<Seq<char>>::empty());
    let plugins = match installed.get("plugins") {
        Some(p) => p.as_object(),
        None => None,
    };
    let m = match plugins {
        Some(m) => m,
        None => return out,
    };
    proof {
        crate::json::lemma_lookup_index(crate::json::entries_view(m@), key@);
    }
    let entries = match crate::json::entry_index(m, key) {
        Some(i) => m[i].1.as_array(),
        None => None,
    };
    match entries {
        Some(es) => {
            let ghost ev = crate::json::items_view(es@);
            let mut i: usize = 0;
            assert(texts(out@) =~= install_paths(ev.take(0)));
            while i < es.len()
                invariant
                    i <= es@.len(),
                    ev == crate::json::items_view(es@),
                    texts(out@) == install_paths(ev.take(i as int)),
                decreases es.len() - i,
            {
                assert(ev.take(i + 1).drop_last() =~= ev.take(i as int));
                match text_field(Some(&es[i]), "installPath") {
                    Some(p) => {
                        let ghost before = texts(out@);
                        let ghost pv = p@;
                        out.push(p);
                        assert(texts(out@) =~= before.push(pv));
                    },
                    None => {},
                }
                i += 1;
            }
            assert(ev.take(es@.len() as int) =~= ev);
        },
        None => {},
    }
    out
}

/// The index of the first `@`, or -1.
pub open spec fn at_index(s: Seq<char>) -> int
    decreases s.len(),
{
    if s.len() == 0 {
        -1
    } else {
        let r = at_index(s.drop_last());
        if r >= 0 {
            r
        } else if s.last() == '@' {
            s.len() - 1
        } else {
            -1
        }
    }
}

proof fn lemma_at_index(s: Seq<char>)
    ensures
        -1 <= at_index(s) < s.len(),
        at_index(s) >= 0 ==> s[at_index(s)] == '@',
    decreases s.len(),
{
    if s.len() > 0 {
        lemma_at_index(s.drop_last());
    }
}

/// A plugin reference `"{plugin}@{marketplace}"` split at its first `@`
/// (`splitn(2, '@')`); `None` without an `@`.
pub open spec fn plugin_key_parts(key: Seq<char>) -> Option<(Seq<char>, Seq<char>)> {
    let i = at_index(key);
    if i < 0 {
        None
    } else {
        Some((key.take(i), key.skip(i + 1)))
    }
}

/// A plugin reference split into the plugin's and the marketplace's names.
pub fn split_plugin_key(key: &str) -> (r: Option<(String, String)>)
    ensures
        match r {
            Some((p, m)) => plugin_key_parts(key@) == Some((p@, m@)),
            None => plugin_key_parts(key@) is None,
        },
{
    let cs = chars_of(key);
    let mut i: usize = 0;
    let mut found = false;
    while i < cs.len() && !found
        invariant
            cs@ == key@,
            i <= cs@.len(),
            !found ==> at_index(cs@.take(i as int)) == -1,
            found ==> at_index(cs@.take(i as int)) == i - 1 && i > 0,
        decreases cs.len() - i,
    {
        assert(cs@.take(i + 1).drop_last() =~= cs@.take(i as int));
        if cs[i] == '@' {
            found = true;
        }
        i += 1;
    }
    if !found {
        assert(cs@.take(i as int) =~= cs@);
        return None;
    }
    proof {
        lemma_at_prefix(cs@, i as int);
    }
    let mut name = String::new();
    crate::text::push_chars(&mut name, &cs, 0, i - 1);
    let mut market = String::new();
    crate::text::push_chars(&mut market, &cs, i, cs.len());
    assert(name@ =~= key@.take(i - 1));
    assert(market@ =~= key@.skip(i as int));
    Some((name, market))
}

proof fn lemma_at_prefix(s: Seq<char>, n: int)
    requires
        0 < n <= s.len(),
        at_index(s.take(n)) == n - 1,
    ensures
        at_index(s) == n - 1,
    decreases s.len(),
{
    if s.len() > n {
        assert(s.drop_last().take(n) =~= s.take(n));
        lemma_at_prefix(s.drop_last(), n);
    } else {
        assert(s.take(n) =~= s);
    }
}

/// The enabled plugins that are broken: neither an installation path nor a
/// marketplace copy of them was found.
pub open spec fn broken_among(keys: Seq<Seq<char>>, installed: Seq<bool>, in_market: Seq<bool>) -> Seq<
    Seq<char>,
>
    decreases keys.len(),
{
    if keys.len() == 0 || installed.len() == 0 || in_market.len() == 0 {
        seq![]
    } else {
        let r = broken_among(keys.drop_last(), installed.drop_last(), in_market.drop_last());
        if !installed.last() && !in_market.last() {
            r.push(keys.last())
        } else {
            r
        }
    }
}

/// The broken plugin references among the enabled plugins, given for each
/// whether one of its installation paths exists and whether a marketplace
/// copy exists.
pub fn broken_plugins(keys: &Vec<String>, installed: &Vec<bool>, in_market: &Vec<bool>) -> (r: Vec<
    String,
>)
    requires
        keys@.len() == installed@.len(),
        keys@.len() == in_market@.len(),
    ensures
        texts(r@) == broken_among(texts(keys@), installed@, in_market@),
{
    let ghost kv = texts(keys@);
    let mut out: Vec<String> = Vec::new();
    let mut i: usize = 0;
    assert(texts(out@) =~= broken_among(kv.take(0), installed@.take(0), in_market@.take(0)));
    while i < keys.len()
        invariant
            i <= keys@.len(),
            keys@.len() == installed@.len(),
            keys@.len() == in_market@.len(),
            kv == texts(keys@),
            texts(out@) == broken_among(kv.take(i as int), installed@.take(i as int), in_market@.take(i as int)),
        decreases keys.len() - i,
    {
        assert(kv.take(i + 1).drop_last() =~= kv.take(i as int));
        assert(installed@.take(i + 1).drop_last() =~= installed@.take(i as int));
        assert(in_market@.take(i + 1).drop_last() =~= in_market@.take(i as int));
        if !installed[i] && !in_market[i] {
            let ghost before = texts(out@);
            out.push(keys[i].clone());
            assert(texts(out@) =~= before.push(kv[i as int]));
        }
        i += 1;
    }
    assert(kv.take(keys@.len() as int) =~= kv);
    assert(installed@.take(keys@.len() as int) =~= installed@);
    assert(in_market@.take(keys@.len() as int) =~= in_market@);
    out
}

proof fn lemma_drop_keys(es: Seq<(Seq<char>, JsonVal)>, keys: Seq<Seq<char>>, k: Seq<char>)
    ensures
        lookup(drop_keys(es, keys), k) == (if keys.contains(k) {
            None
        } else {
            lookup(es, k)
        }),
    decreases keys.len(),
{
    if keys.len() > 0 {
        lemma_drop_keys(es, keys.drop_last(), k);
        crate::json::lemma_lookup_drop(drop_keys(es, keys.drop_last()), keys.last(), k);
        if keys.drop_last().contains(k) {
            let i = choose|i: int| 0 <= i < keys.drop_last().len() && keys.drop_last()[i] == k;
            assert(keys[i] == k);
        }
        if keys.contains(k) && !keys.drop_last().contains(k) {
            let i = choose|i: int| 0 <= i < keys.len() && keys[i] == k;
            if i < keys.len() - 1 {
                assert(keys.drop_last()[i] == k);
            }
        }
        if !keys.contains(k) {
            assert(keys[keys.len() - 1] != k);
            if keys.drop_last().contains(k) {
                let i = choose|i: int| 0 <= i < keys.drop_last().len() && keys.drop_last()[i] == k;
                assert(keys[i] == k);
            }
        }
    }
}

/// After the broken references are taken out (`cleanup_broken_plugins`),
/// none of them is enabled any more, and every other plugin entry is as it
/// was.
pub proof fn law_broken_plugins_removed(raw: JsonVal, broken: Seq<Seq<char>>, k: Seq<char>)
    ensures
        broken.contains(k) ==> field_of(field(prune_plugins(raw, broken), "enabledPlugins"@), k)
            is None,
        !broken.contains(k) && field_of(field(prune_plugins(raw, broken), "enabledPlugins"@), k)
            is Some ==> field_of(field(prune_plugins(raw, broken), "enabledPlugins"@), k)
            == field_of(field(raw, "enabledPlugins"@), k),
{
    if broken.len() > 0 {
        if let Some(es) = members_of(field(raw, "enabledPlugins"@)) {
            let kept = drop_keys(es, broken);
            lemma_drop_keys(es, broken, k);
            lemma_field_with(raw, "enabledPlugins"@, JsonVal::Obj(kept), "enabledPlugins"@);
            lemma_field_without(
                with_field(raw, "enabledPlugins"@, JsonVal::Obj(kept)),
                "enabledPlugins"@,
                "enabledPlugins"@,
            );
        } else {
            assert(prune_plugins(raw, broken) == raw);
            if broken.contains(k) {
                match field(raw, "enabledPlugins"@) {
                    Some(v) => {
                        assert(!(v is Obj));
                    },
                    None => {},
                }
            }
        }
    }
}

proof fn lemma_drop_keys_absent(es: Seq<(Seq<char>, JsonVal)>, keys: Seq<Seq<char>>)
    requires
        forall|i: int| 0 <= i < keys.len() ==> lookup(es, #[trigger] keys[i]) is None,
    ensures
        drop_keys(es, keys) == es,
    decreases keys.len(),
{
    if keys.len() > 0 {
        assert forall|i: int| 0 <= i < keys.drop_last().len() implies lookup(
            es,
            #[trigger] keys.drop_last()[i],
        ) is None by {
            assert(keys.drop_last()[i] == keys[i]);
        }
        lemma_drop_keys_absent(es, keys.drop_last());
        lemma_without_absent(JsonVal::Obj(es), keys.last());
    }
}

proof fn lemma_unmarked_clean(arr: Seq<JsonVal>, marker: Seq<char>)
    requires
        !any_entry_marked(arr, marker),
    ensures
        unmarked(arr, marker) == arr,
    decreases arr.len(),
{
    if arr.len() > 0 {
        assert(!any_entry_marked(arr.drop_last(), marker)) by {
            assert forall|i: int| 0 <= i < arr.drop_last().len() implies !entry_has_marker(
                #[trigger] arr.drop_last()[i],
                marker,
            ) by {
                assert(arr.drop_last()[i] == arr[i]);
            }
        }
        lemma_unmarked_clean(arr.drop_last(), marker);
        assert(!entry_has_marker(arr[arr.len() - 1], marker));
        assert(arr =~= arr.drop_last().push(arr.last()));
    }
}

/// Running `setup_claude_hook` again on the settings it wrote, with the same
/// broken plugin references and the same choice, writes the same settings.
pub proof fn law_hook_idempotent(
    raw: JsonVal,
    broken: Seq<Seq<char>>,
    enabled: bool,
    command: Seq<char>,
    marker: Seq<char>,
)
    requires
        enabled ==> assignable(raw),
    ensures
        hook_settings(hook_settings(raw, broken, enabled, command, marker), broken, enabled, command, marker)
            == hook_settings(raw, broken, enabled, command, marker),
{
    let ep = "enabledPlugins"@;
    let hk = "hooks"@;
    let sl = "statusLine"@;
    let ss = "SessionStart"@;
    reveal_strlit("enabledPlugins");
    reveal_strlit("hooks");
    reveal_strlit("statusLine");
    assert(ep.len() != hk.len() && ep.len() != sl.len() && hk.len() != sl.len());
    lemma_prune_keeps_kind(raw, broken, marker);
    let p = prune_plugins(raw, broken);
    let q = prune_session_hooks(p, marker);
    let h1 = hook_settings(raw, broken, enabled, command, marker);
    // the status line of h1, and the members that the status line leaves alone
    if enabled {
        lemma_field_with(q, sl, status_line_json(command), sl);
        lemma_field_with(q, sl, status_line_json(command), ep);
        lemma_field_with(q, sl, status_line_json(command), hk);
    } else {
        lemma_field_without(q, sl, sl);
        lemma_field_without(q, sl, ep);
        lemma_field_without(q, sl, hk);
    }
    assert(field(h1, ep) == field(q, ep));
    assert(field(h1, hk) == field(q, hk));
    // q keeps the plugins of p
    if let Some(hooks) = field(p, hk) {
        if let Some(arr) = items_of(field(hooks, ss)) {
            let kept = unmarked(arr, marker);
            lemma_field_without(p, hk, ep);
            lemma_field_with(p, hk, without_field(hooks, ss), ep);
            lemma_field_with(p, hk, with_field(hooks, ss, JsonVal::Arr(kept)), ep);
        }
    }
    assert(field(q, ep) == field(p, ep));
    // pruning the plugins again changes nothing
    if broken.len() > 0 {
        if let Some(es) = members_of(field(raw, ep)) {
            let kept = drop_keys(es, broken);
            lemma_field_with(raw, ep, JsonVal::Obj(kept), ep);
            lemma_field_with(raw, ep, JsonVal::Obj(kept), hk);
            let r = with_field(raw, ep, JsonVal::Obj(kept));
            if kept.len() == 0 {
                lemma_field_without(r, ep, ep);
                lemma_field_without(r, ep, hk);
            } else {
                assert forall|i: int| 0 <= i < broken.len() implies lookup(kept, #[trigger] broken[i])
                    is None by {
                    lemma_drop_keys(es, broken, broken[i]);
                    assert(broken.contains(broken[i]));
                }
                lemma_drop_keys_absent(kept, broken);
                lemma_with_same(h1, ep, JsonVal::Obj(kept));
            }
        }
    }
    assert(prune_plugins(h1, broken) == h1);
    // pruning the session hooks again changes nothing
    if let Some(hooks) = field(p, hk) {
        if let Some(arr) = items_of(field(hooks, ss)) {
            let kept = unmarked(arr, marker);
            lemma_unmarked(arr, marker);
            if kept.len() == 0 {
                let h2 = without_field(hooks, ss);
                lemma_field_without(hooks, ss, ss);
                if h2->Obj_0.len() == 0 {
                    lemma_field_without(p, hk, hk);
                } else {
                    lemma_field_with(p, hk, h2, hk);
                }
            } else {
                let hv = with_field(hooks, ss, JsonVal::Arr(kept));
                lemma_field_with(hooks, ss, JsonVal::Arr(kept), ss);
                lemma_field_with(p, hk, hv, hk);
                lemma_unmarked_clean(kept, marker);
                lemma_with_same(hv, ss, JsonVal::Arr(kept));
                lemma_with_same(h1, hk, hv);
            }
        }
    }
    assert(prune_session_hooks(h1, marker) == h1);
    // setting the status line again changes nothing
    if enabled {
        lemma_with_same(h1, sl, status_line_json(command));
    } else {
        lemma_without_absent(h1, sl);
    }
}

/// After `setup_claude_hook(enabled)` with a status-line command that names
/// the program (`marker`), `check_claude_hook_status` reports exactly
/// `enabled`.
pub proof fn law_hook_status_after_setup(
    raw: JsonVal,
    broken: Seq<Seq<char>>,
    enabled: bool,
    command: Seq<char>,
    marker: Seq<char>,
)
    requires
        enabled ==> assignable(raw),
        has_sub(command, marker),
    ensures
        hook_installed_in(hook_settings(raw, broken, enabled, command, marker), marker) == enabled,
{
    if enabled {
        law_hook_enabled(raw, broken, command, marker);
    } else {
        law_hook_disabled(raw, broken, command, marker);
    }
}

/// Each model and API setting is read from its own member: `model` at the
/// top level, each of the others from the like-named member of `env`.
pub proof fn law_claude_fields_keys(raw: JsonVal)
    ensures
        claude_fields(raw).model == text_of(field(raw, "model"@)),
        claude_fields(raw).auth_token == text_of(field_of(field(raw, "env"@), "ANTHROPIC_AUTH_TOKEN"@)),
        claude_fields(raw).base_url == text_of(field_of(field(raw, "env"@), "ANTHROPIC_BASE_URL"@)),
        claude_fields(raw).haiku_model == text_of(
            field_of(field(raw, "env"@), "ANTHROPIC_DEFAULT_HAIKU_MODEL"@),
        ),
        claude_fields(raw).sonnet_model == text_of(
            field_of(field(raw, "env"@), "ANTHROPIC_DEFAULT_SONNET_MODEL"@),
        ),
        claude_fields(raw).opus_model == text_of(
            field_of(field(raw, "env"@), "ANTHROPIC_DEFAULT_OPUS_MODEL"@),
        ),
        claude_fields(raw).timeout_ms == text_of(field_of(field(raw, "env"@), "API_TIMEOUT_MS"@)),
{
}

/// Saving (`save_claude_config`) writes each given setting under its own
/// member (`model` at the top level, the others in `env`) and keeps the
/// earlier value of every setting that is not given.
pub proof fn law_claude_settings_written(raw: JsonVal, u: ClaudeFields)
    requires
        claude_update_allowed(raw, u),
    ensures
        text_of(field(claude_settings_updated(raw, u), "model"@)) == if u.model is Some {
            u.model
        } else {
            text_of(field(raw, "model"@))
        },
        text_of(field_of(field(claude_settings_updated(raw, u), "env"@), "ANTHROPIC_AUTH_TOKEN"@))
            == if u.auth_token is Some {
            u.auth_token
        } else {
            text_of(field_of(field(raw, "env"@), "ANTHROPIC_AUTH_TOKEN"@))
        },
        text_of(field_of(field(claude_settings_updated(raw, u), "env"@), "ANTHROPIC_BASE_URL"@))
            == if u.base_url is Some {
            u.base_url
        } else {
            text_of(field_of(field(raw, "env"@), "ANTHROPIC_BASE_URL"@))
        },
        text_of(
            field_of(field(claude_settings_updated(raw, u), "env"@), "ANTHROPIC_DEFAULT_HAIKU_MODEL"@),
        ) == if u.haiku_model is Some {
            u.haiku_model
        } else {
            text_of(field_of(field(raw, "env"@), "ANTHROPIC_DEFAULT_HAIKU_MODEL"@))
        },
        text_of(
            field_of(field(claude_settings_updated(raw, u), "env"@), "ANTHROPIC_DEFAULT_SONNET_MODEL"@),
        ) == if u.sonnet_model is Some {
            u.sonnet_model
        } else {
            text_of(field_of(field(raw, "env"@), "ANTHROPIC_DEFAULT_SONNET_MODEL"@))
        },
        text_of(
            field_of(field(claude_settings_updated(raw, u), "env"@), "ANTHROPIC_DEFAULT_OPUS_MODEL"@),
        ) == if u.opus_model is Some {
            u.opus_model
        } else {
            text_of(field_of(field(raw, "env"@), "ANTHROPIC_DEFAULT_OPUS_MODEL"@))
        },
        text_of(field_of(field(claude_settings_updated(raw, u), "env"@), "API_TIMEOUT_MS"@))
            == if u.timeout_ms is Some {
            u.timeout_ms
        } else {
            text_of(field_of(field(raw, "env"@), "API_TIMEOUT_MS"@))
        },
{
    law_claude_config_round_trip(raw, u);
    law_claude_fields_keys(raw);
    law_claude_fields_keys(claude_settings_updated(raw, u));
}

/// Each colour is read from its own member of `zhipuBarColors` (`normal`,
/// `warning`, `danger`), with green, yellow and red when it is missing or
/// not a string, or when `zhipuBarColors` is not an object.
pub proof fn law_bar_colors_keys(raw: JsonVal)
    ensures
        bar_colors_in(raw).0 == match text_of(field_of(field(raw, "zhipuBarColors"@), "normal"@)) {
            Some(s) => s,
            None => "green"@,
        },
        bar_colors_in(raw).1 == match text_of(field_of(field(raw, "zhipuBarColors"@), "warning"@)) {
            Some(s) => s,
            None => "yellow"@,
        },
        bar_colors_in(raw).2 == match text_of(field_of(field(raw, "zhipuBarColors"@), "danger"@)) {
            Some(s) => s,
            None => "red"@,
        },
{
}

/// Storing colours in a settings object (`save_bar_colors`) puts each colour
/// under its own member of `zhipuBarColors`.
pub proof fn law_bar_colors_stored(raw: JsonVal, c: (Seq<char>, Seq<char>, Seq<char>))
    requires
        raw is Obj,
    ensures
        field_of(field(insert_if_object(raw, "zhipuBarColors"@, bar_colors_json(c)), "zhipuBarColors"@), "normal"@)
            == Some(JsonVal::Str(c.0)),
        field_of(field(insert_if_object(raw, "zhipuBarColors"@, bar_colors_json(c)), "zhipuBarColors"@), "warning"@)
            == Some(JsonVal::Str(c.1)),
        field_of(field(insert_if_object(raw, "zhipuBarColors"@, bar_colors_json(c)), "zhipuBarColors"@), "danger"@)
            == Some(JsonVal::Str(c.2)),
{
    reveal_strlit("normal");
    reveal_strlit("warning");
    reveal_strlit("danger");
    assert("normal"@.len() != "warning"@.len());
    assert("normal"@[0] != "danger"@[0]);
    assert("warning"@.len() != "danger"@.len());
    lemma_field_with(raw, "zhipuBarColors"@, bar_colors_json(c), "zhipuBarColors"@);
    reveal_with_fuel(lookup, 4);
    let es = bar_colors_json(c)->Obj_0;
    assert(es.drop_last().drop_last() =~= seq![("normal"@, JsonVal::Str(c.0))]);
    assert(es.drop_last() =~= seq![("normal"@, JsonVal::Str(c.0)), ("warning"@, JsonVal::Str(c.1))]);
}

/// Each segment option is read from its own member of `zhipuSegments`
/// (`cacheTime` for the cache time), shown when it is missing or not a
/// boolean, or when `zhipuSegments` is not an object.
pub proof fn law_segment_config_keys(raw: JsonVal)
    ensures
        segment_config_in(raw).tier == match flag_of(field_of(field(raw, "zhipuSegments"@), "tier"@)) {
            Some(b) => b,
            None => true,
        },
        segment_config_in(raw).balance == match flag_of(field_of(field(raw, "zhipuSegments"@), "balance"@)) {
            Some(b) => b,
            None => true,
        },
        segment_config_in(raw).git == match flag_of(field_of(field(raw, "zhipuSegments"@), "git"@)) {
            Some(b) => b,
            None => true,
        },
        segment_config_in(raw).model == match flag_of(field_of(field(raw, "zhipuSegments"@), "model"@)) {
            Some(b) => b,
            None => true,
        },
        segment_config_in(raw).context == match flag_of(field_of(field(raw, "zhipuSegments"@), "context"@)) {
            Some(b) => b,
            None => true,
        },
        segment_config_in(raw).hour5 == match flag_of(field_of(field(raw, "zhipuSegments"@), "hour5"@)) {
            Some(b) => b,
            None => true,
        },
        segment_config_in(raw).mcp == match flag_of(field_of(field(raw, "zhipuSegments"@), "mcp"@)) {
            Some(b) => b,
            None => true,
        },
        segment_config_in(raw).cache_time == match flag_of(field_of(field(raw, "zhipuSegments"@), "cacheTime"@)) {
            Some(b) => b,
            None => true,
        },
{
}

/// The API key is `env.ANTHROPIC_AUTH_TOKEN` and the model `model`, each
/// when it is a non-empty text; the endpoint is `zhipuEndpoint` when it is a
/// text, else the mainland endpoint.
pub proof fn law_config_keys(raw: JsonVal)
    ensures
        config_keys_in(raw).0 == match text_of(field_of(field(raw, "env"@), "ANTHROPIC_AUTH_TOKEN"@)) {
            Some(k) => if k.len() > 0 {
                Some(k)
            } else {
                None
            },
            None => None,
        },
        config_keys_in(raw).1 == Some(
            match text_of(field(raw, "zhipuEndpoint"@)) {
                Some(e) => e,
                None => "https://open.bigmodel.cn"@,
            },
        ),
        config_keys_in(raw).2 == match text_of(field(raw, "model"@)) {
            Some(m) => if m.len() > 0 {
                Some(m)
            } else {
                None
            },
            None => None,
        },
{
}

/// The plugins reported broken are exactly those with neither an
/// installation whose path exists nor a marketplace copy: every reported key
/// is the key of such a plugin, every such plugin is reported, and a key that
/// is valid wherever it occurs is never reported.
pub proof fn law_broken_plugins_exact(keys: Seq<Seq<char>>, installed: Seq<bool>, in_market: Seq<bool>)
    requires
        keys.len() == installed.len(),
        keys.len() == in_market.len(),
    ensures
        forall|j: int|
            0 <= j < broken_among(keys, installed, in_market).len() ==> exists|i: int|
                0 <= i < keys.len() && !installed[i] && !in_market[i] && #[trigger] broken_among(
                    keys,
                    installed,
                    in_market,
                )[j] == keys[i],
        forall|i: int|
            0 <= i < keys.len() && !installed[i] && !in_market[i] ==> broken_among(
                keys,
                installed,
                in_market,
            ).contains(#[trigger] keys[i]),
        forall|i: int|
            0 <= i < keys.len() && (forall|k: int|
                0 <= k < keys.len() && keys[k] == keys[i] ==> installed[k] || in_market[k])
                ==> !broken_among(keys, installed, in_market).contains(#[trigger] keys[i]),
    decreases keys.len(),
{
    let b = broken_among(keys, installed, in_market);
    if keys.len() > 0 {
        let k0 = keys.drop_last();
        let i0 = installed.drop_last();
        let m0 = in_market.drop_last();
        law_broken_plugins_exact(k0, i0, m0);
        let b0 = broken_among(k0, i0, m0);
        let n = keys.len() - 1;
        assert(b == b0 || b == b0.push(keys[n]));
        assert forall|j: int| 0 <= j < b.len() implies exists|i: int|
            0 <= i < keys.len() && !installed[i] && !in_market[i] && #[trigger] b[j] == keys[i] by {
            if j < b0.len() {
                assert(b[j] == b0[j]);
                let i = choose|i: int|
                    0 <= i < k0.len() && !i0[i] && !m0[i] && #[trigger] b0[j] == k0[i];
                assert(keys[i] == k0[i] && installed[i] == i0[i] && in_market[i] == m0[i]);
            } else {
                assert(b == b0.push(keys[n]));
                assert(!installed[n] && !in_market[n]);
            }
        }
        assert forall|i: int| 0 <= i < keys.len() && !installed[i] && !in_market[i] implies b.contains(
            #[trigger] keys[i],
        ) by {
            if i < n {
                assert(keys[i] == k0[i] && installed[i] == i0[i] && in_market[i] == m0[i]);
                assert(b0.contains(k0[i]));
                let j = choose|j: int| 0 <= j < b0.len() && b0[j] == k0[i];
                assert(b[j] == b0[j]);
            } else {
                assert(b == b0.push(keys[n]));
                assert(b[b0.len() as int] == keys[n]);
            }
        }
        assert forall|i: int|
            0 <= i < keys.len() && (forall|k: int|
                0 <= k < keys.len() && keys[k] == keys[i] ==> installed[k] || in_market[k]) implies !b.contains(
            #[trigger] keys[i],
        ) by {
            if b.contains(keys[i]) {
                let j = choose|j: int| 0 <= j < b.len() && b[j] == keys[i];
                let i2 = choose|i2: int|
                    0 <= i2 < keys.len() && !installed[i2] && !in_market[i2] && #[trigger] b[j] == keys[i2];
                assert(keys[i2] == keys[i]);
            }
        }
    }
}

} // verus!
