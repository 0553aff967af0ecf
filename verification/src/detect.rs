//! What the app makes of the output of the programs it runs: the coding assistant's
//! command-line tool, Git, and the status-line program.
use vstd::prelude::*;

use crate::json::{field, field_of, parse_json, parsed_json, text_of};
use crate::text::{chars_of, opt_text, owned, string_of, trim_text, trimmed};

verus! {

/// What `detect_claude_code` reports about the coding assistant's command-line
/// tool.
pub struct ClaudeCodeStatus {
    pub installed: bool,
    pub version: Option<String>,
    pub path: Option<String>,
    pub config_path: Option<String>,
}

/// The index of the first newline, or -1.
pub open spec fn newline_index(s: Seq<char>) -> int
    decreases s.len(),
{
    if s.len() == 0 {
        -1
    } else {
        let r = newline_index(s.drop_last());
        if r >= 0 {
            r
        } else if s.last() == '\n' {
            s.len() - 1
        } else {
            -1
        }
    }
}

/// The first line of a text, as `lines().next()` gives it: up to the first
/// newline, without a carriage return just before it; the whole text when
/// there is no newline.
pub open spec fn first_line(s: Seq<char>) -> Seq<char> {
    let i = newline_index(s);
    if i < 0 {
        s
    } else {
        let l = s.take(i);
        if l.len() > 0 && l.last() == '\r' {
            l.drop_last()
        } else {
            l
        }
    }
}

/// The first line of a text, trimmed (`lines().next().unwrap_or("").trim()`).
pub fn first_line_trimmed(s: &str) -> (r: String)
    ensures
        r@ == trimmed(first_line(s@)),
{
    let cs = chars_of(s);
    let mut i: usize = 0;
    let mut found = false;
    while i < cs.len() && !found
        invariant
            cs@ == s@,
            i <= cs@.len(),
            !found ==> newline_index(cs@.take(i as int)) == -1,
            found ==> newline_index(cs@.take(i as int)) == i - 1 && i > 0,
        decreases cs.len() - i,
    {
        assert(cs@.take(i + 1).drop_last() =~= cs@.take(i as int));
        if cs[i] == '\n' {
            found = true;
        }
        i += 1;
    }
    let ghost n = newline_index(s@);
    proof {
        if found {
            lemma_newline_prefix(cs@, i as int);
        } else {
            assert(cs@.take(i as int) =~= cs@);
        }
    }
    let mut end: usize = if found {
        i - 1
    } else {
        cs.len()
    };
    if found && end > 0 && cs[end - 1] == '\r' {
        end -= 1;
    }
    let mut v: Vec<char> = Vec::new();
    let mut k: usize = 0;
    while k < end
        invariant
            k <= end <= cs@.len(),
            v@ == cs@.take(k as int),
        decreases end - k,
    {
        v.push(cs[k]);
        assert(cs@.take(k + 1) =~= cs@.take(k as int).push(cs@[k as int]));
        k += 1;
    }
    proof {
        if found {
            let l = s@.take(n);
            if l.len() > 0 && l.last() == '\r' {
                assert(v@ =~= l.drop_last());
            } else {
                assert(v@ =~= l);
            }
        } else {
            assert(v@ =~= s@);
        }
    }
    let line = string_of(&v);
    trim_text(line.as_str())
}

proof fn lemma_newline_prefix(s: Seq<char>, n: int)
    requires
        0 < n <= s.len(),
        newline_index(s.take(n)) == n - 1,
    ensures
        newline_index(s) == n - 1,
    decreases s.len(),
{
    if s.len() > n {
        assert(s.drop_last().take(n) =~= s.take(n));
        lemma_newline_prefix(s.drop_last(), n);
    } else {
        assert(s.take(n) =~= s);
    }
}

/// What `detect_claude_code` reports: not installed when looking the command
/// up failed (`which` is `None`); else installed, at the first line of the
/// lookup's output, with the version output (trimmed) when that command
/// succeeded.
pub fn claude_code_status(
    which: Option<&str>,
    version: Option<&str>,
    config_path: Option<String>,
) -> (r: ClaudeCodeStatus)
    ensures
        r.installed == (which is Some),
        opt_text(r.config_path) == opt_text(config_path),
        which is None ==> r.version is None && r.path is None,
        which matches Some(w) ==> opt_text(r.path) == Some(trimmed(first_line(w@))),
        which is Some ==> opt_text(r.version) == match version {
            Some(v) => Some(trimmed(v@)),
            None => None,
        },
{
    match which {
        None => ClaudeCodeStatus { installed: false, version: None, path: None, config_path },
        Some(w) => ClaudeCodeStatus {
            installed: true,
            version: match version {
                Some(v) => Some(trim_text(v)),
                None => None,
            },
            path: Some(first_line_trimmed(w)),
            config_path,
        },
    }
}

/// The current Git branch from `git branch --show-current`: the trimmed
/// output when the command succeeded and printed a name.
pub fn branch_from_git(success: bool, stdout: &str) -> (r: Option<String>)
    ensures
        opt_text(r) == (if success && trimmed(stdout@).len() > 0 {
            Some(trimmed(stdout@))
        } else {
            None
        }),
{
    if success {
        let b = trim_text(stdout);
        if b.as_str().unicode_len() > 0 {
            Some(b)
        } else {
            None
        }
    } else {
        None
    }
}

/// The current Git branch as the older status text uses it: the trimmed
/// output when the command succeeded, else empty.
pub fn branch_or_empty(success: bool, stdout: &str) -> (r: String)
    ensures
        r@ == (if success {
            trimmed(stdout@)
        } else {
            Seq::empty()
        }),
{
    if success {
        trim_text(stdout)
    } else {
        String::new()
    }
}

/// What a successful run of the status-line program shows: when its trimmed
/// output is JSON, the `hookSpecificOutput.additionalContext` text (or the
/// output as it is, without one); otherwise the trimmed output.
pub open spec fn status_display_in(stdout: Seq<char>) -> Seq<char> {
    match parsed_json(trimmed(stdout)) {
        Some(j) => match text_of(
            field_of(field(j, "hookSpecificOutput"@), "additionalContext"@),
        ) {
            Some(c) => c,
            None => stdout,
        },
        None => trimmed(stdout),
    }
}

/// What a successful run of the status-line program shows.
pub fn status_display(stdout: &str) -> (r: String)
    ensures
        r@ == status_display_in(stdout@),
{
    let t = trim_text(stdout);
    match parse_json(t.as_str()) {
        Some(j) => {
            let ctx = match j.get("hookSpecificOutput") {
                Some(o) => o.get("additionalContext"),
                None => None,
            };
            match ctx {
                Some(c) => match c.as_str() {
                    Some(s) => s.clone(),
                    None => owned(stdout),
                },
                None => owned(stdout),
            }
        },
        None => t,
    }
}

/// The error reported for a failed run: its output and error output,
/// together, trimmed.
pub fn failure_text(stdout: &str, stderr: &str) -> (r: String)
    ensures
        r@ == trimmed(stdout@ + stderr@),
{
    let mut all = owned(stdout);
    all.append(stderr);
    trim_text(all.as_str())
}

} // verus!
