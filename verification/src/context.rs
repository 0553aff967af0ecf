//! What the coding assistant passes to the status-line program on standard input:
//! the context window's use, the working directory and the model.
use vstd::prelude::*;

use crate::ansi::{strip_ansi, stripped};
use crate::json::{field, field_of, int_of, opt_view, parse_json, parsed_json, text_of, Json, JsonVal};
use crate::text::{opt_text, trim_text, trimmed};

verus! {

/// The context window's use, as the coding assistant reports it.
pub struct ClaudeContext {
    /// The percentage the coding assistant computed itself, when it sent one.
    pub used_percentage: Option<i64>,
    pub context_window_size: i64,
    /// Tokens now in the context: input plus cache creation plus cache reads.
    pub current_tokens: i64,
    pub input_tokens: i64,
    /// Cache creation plus cache reads.
    pub cache_tokens: i64,
}

/// The context usage where no floating point is needed: the percentage the
/// coding assistant reported, limited to 0..=100, or 0 when the window size
/// is 0 or less; `None` when it has to be worked out from the token counts.
pub open spec fn reported_percent_of(c: ClaudeContext) -> Option<i64> {
    match c.used_percentage {
        Some(p) => Some(
            if p < 0 {
                0
            } else if p > 100 {
                100
            } else {
                p
            },
        ),
        None => if c.context_window_size <= 0 {
            Some(0)
        } else {
            None
        },
    }
}

/// The context usage where no floating point is needed (see
/// `reported_percent_of`).
pub fn reported_percent(ctx: &ClaudeContext) -> (r: Option<i64>)
    ensures
        r == reported_percent_of(*ctx),
{
    match ctx.used_percentage {
        Some(p) => Some(
            if p < 0 {
                0
            } else if p > 100 {
                100
            } else {
                p
            },
        ),
        None => if ctx.context_window_size <= 0 {
            Some(0)
        } else {
            None
        },
    }
}

/// What the status-line program reads from standard input.
pub struct StdinData {
    pub context: ClaudeContext,
    pub cwd: Option<String>,
    pub model: Option<String>,
}

/// The sum of two `i64` values wrapped into the `i64` range, as `+` behaves
/// in a release build.
pub open spec fn wrapping_sum(a: i64, b: i64) -> i64 {
    let s = a as int + b as int;
    (if s > i64::MAX {
        s - 0x1_0000_0000_0000_0000
    } else if s < i64::MIN {
        s + 0x1_0000_0000_0000_0000
    } else {
        s
    }) as i64
}

fn wrapping_sum_exec(a: i64, b: i64) -> (r: i64)
    ensures
        r == wrapping_sum(a, b),
{
    let s: i128 = a as i128 + b as i128;
    if s > 0x7fff_ffff_ffff_ffff {
        (s - 0x1_0000_0000_0000_0000) as i64
    } else if s < -0x8000_0000_0000_0000 {
        (s + 0x1_0000_0000_0000_0000) as i64
    } else {
        s as i64
    }
}

/// `o.and_then(|v| v.as_i64()).unwrap_or(0)`.
pub open spec fn int_or_zero(o: Option<JsonVal>) -> i64 {
    match int_of(o) {
        Some(i) => i,
        None => 0,
    }
}

/// A text that is present and not empty.
pub open spec fn present(o: Option<Seq<char>>) -> Option<Seq<char>> {
    match o {
        Some(s) => if s.len() > 0 {
            Some(s)
        } else {
            None
        },
        None => None,
    }
}

/// The facts read from the coding assistant's input: nothing without
/// `context_window`; the token counts of `current_usage` (0 when missing);
/// `cwd` and `model` when they are non-empty texts, the model without escape
/// sequences.
pub open spec fn stdin_facts(v: JsonVal) -> Option<
    (Option<i64>, i64, i64, i64, i64, Option<Seq<char>>, Option<Seq<char>>),
> {
    match field(v, "context_window"@) {
        Some(cw) => {
            let (input, cache) = match field(cw, "current_usage"@) {
                Some(u) => (
                    int_or_zero(field(u, "input_tokens"@)),
                    wrapping_sum(
                        int_or_zero(field(u, "cache_creation_input_tokens"@)),
                        int_or_zero(field(u, "cache_read_input_tokens"@)),
                    ),
                ),
                None => (0, 0),
            };
            let current = match field(cw, "current_usage"@) {
                Some(_) => wrapping_sum(input, cache),
                None => 0,
            };
            Some(
                (
                    int_of(field(cw, "used_percentage"@)),
                    int_or_zero(field(cw, "context_window_size"@)),
                    current,
                    input,
                    cache,
                    present(text_of(field(v, "cwd"@))),
                    match present(text_of(field(v, "model"@))) {
                        Some(m) => Some(stripped(m)),
                        None => None,
                    },
                ),
            )
        },
        None => None,
    }
}

/// The facts of a `StdinData`.
pub open spec fn stdin_view(d: StdinData) -> (
    Option<i64>,
    i64,
    i64,
    i64,
    i64,
    Option<Seq<char>>,
    Option<Seq<char>>,
) {
    (
        d.context.used_percentage,
        d.context.context_window_size,
        d.context.current_tokens,
        d.context.input_tokens,
        d.context.cache_tokens,
        opt_text(d.cwd),
        opt_text(d.model),
    )
}

fn int_or_zero_exec(o: Option<&Json>) -> (r: i64)
    ensures
        r == int_or_zero(opt_view(o)),
{
    match o {
        Some(v) => match v.as_i64() {
            Some(i) => i,
            None => 0,
        },
        None => 0,
    }
}

fn present_text(o: Option<&Json>) -> (r: Option<String>)
    ensures
        opt_text(r) == present(text_of(opt_view(o))),
{
    match o {
        Some(v) => match v.as_str() {
            Some(s) => if s.as_str().unicode_len() > 0 {
                Some(s.clone())
            } else {
                None
            },
            None => None,
        },
        None => None,
    }
}

/// The facts read from the coding assistant's input document.
pub fn stdin_data_from(v: &Json) -> (r: Option<StdinData>)
    ensures
        match r {
            Some(d) => stdin_facts(v@) == Some(stdin_view(d)),
            None => stdin_facts(v@) is None,
        },
        r is Some <==> field(v@, "context_window"@) is Some,
        r matches Some(d) ==> {
            let cw = field(v@, "context_window"@);
            let usage = field_of(cw, "current_usage"@);
            &&& d.context.used_percentage == int_of(field_of(cw, "used_percentage"@))
            &&& d.context.context_window_size == int_or_zero(field_of(cw, "context_window_size"@))
            &&& d.context.input_tokens == int_or_zero(field_of(usage, "input_tokens"@))
            &&& d.context.cache_tokens == wrapping_sum(
                int_or_zero(field_of(usage, "cache_creation_input_tokens"@)),
                int_or_zero(field_of(usage, "cache_read_input_tokens"@)),
            )
            &&& d.context.current_tokens == wrapping_sum(d.context.input_tokens, d.context.cache_tokens)
            &&& opt_text(d.cwd) == present(text_of(field(v@, "cwd"@)))
            &&& opt_text(d.model) == match present(text_of(field(v@, "model"@))) {
                Some(m) => Some(stripped(m)),
                None => None,
            }
        },
{
    let cw = match v.get("context_window") {
        Some(c) => c,
        None => return None,
    };
    let (input_tokens, cache_tokens, current_tokens) = match cw.get("current_usage") {
        Some(u) => {
            let input = int_or_zero_exec(u.get("input_tokens"));
            let cache_create = int_or_zero_exec(u.get("cache_creation_input_tokens"));
            let cache_read = int_or_zero_exec(u.get("cache_read_input_tokens"));
            let cache = wrapping_sum_exec(cache_create, cache_read);
            (input, cache, wrapping_sum_exec(input, cache))
        },
        None => (0, 0, 0),
    };
    let used_percentage = match cw.get("used_percentage") {
        Some(p) => p.as_i64(),
        None => None,
    };
    let context = ClaudeContext {
        used_percentage,
        context_window_size: int_or_zero_exec(cw.get("context_window_size")),
        current_tokens,
        input_tokens,
        cache_tokens,
    };
    let cwd = present_text(v.get("cwd"));
    let model = match present_text(v.get("model")) {
        Some(m) => Some(strip_ansi(m.as_str())),
        None => None,
    };
    Some(StdinData { context, cwd, model })
}

/// What the status-line program makes of its input text: nothing when the
/// text is blank or not JSON, else the facts of the document.
pub open spec fn stdin_facts_of_text(text: Seq<char>) -> Option<
    (Option<i64>, i64, i64, i64, i64, Option<Seq<char>>, Option<Seq<char>>),
> {
    if trimmed(text).len() == 0 {
        None
    } else {
        match parsed_json(text) {
            Some(v) => stdin_facts(v),
            None => None,
        }
    }
}

/// Reads the facts from the text the coding assistant passes on standard input.
pub fn parse_stdin_data(text: &str) -> (r: Option<StdinData>)
    ensures
        match r {
            Some(d) => stdin_facts_of_text(text@) == Some(stdin_view(d)),
            None => stdin_facts_of_text(text@) is None,
        },
{
    let t = trim_text(text);
    if t.as_str().unicode_len() == 0 {
        return None;
    }
    match parse_json(text) {
        Some(v) => stdin_data_from(&v),
        None => None,
    }
}

} // verus!
