//! Command interception (API-first adapters).
//!
//! Many developer tools (cargo, npm) can report in a structured JSON mode.
//! Before a command reaches the PTY it is rewritten to request that mode when
//! one is known, so that the captured output stream is structured already.

use vstd::prelude::*;

use crate::text::{
    chars_of, contains_chars, has_prefix, has_substr, is_white_space, starts_with_chars, string_of,
    trim_chars, trim_end_spec, trim_spec, trim_start_spec,
};

verus! {

/// Rewrites known commands so that they report in a structured format.
pub struct CommandAdapter;

/// The cargo subcommands that accept `--message-format=json`.
pub open spec fn is_cargo_structured(t: Seq<char>) -> bool {
    &&& has_prefix(t, "cargo "@)
    &&& has_substr(t, "build"@) || has_substr(t, "check"@) || has_substr(t, "test"@)
    &&& !has_substr(t, "--message-format"@)
}

/// The npm subcommands that accept `--json`.
pub open spec fn is_npm_structured(t: Seq<char>) -> bool {
    &&& has_prefix(t, "npm "@)
    &&& has_substr(t, "install"@) || has_substr(t, "update"@)
    &&& !has_substr(t, "--json"@)
}

/// The command that `CommandAdapter::adapt` produces for `raw`: the trimmed
/// command with the structured-output flag appended for a cargo build/check/test
/// or an npm install/update that does not ask for it yet, and `raw` itself
/// (untrimmed) otherwise.
pub open spec fn adapt_spec(raw: Seq<char>) -> Seq<char> {
    let t = trim_spec(raw);
    if is_cargo_structured(t) {
        t + " --message-format=json"@
    } else if is_npm_structured(t) {
        t + " --json"@
    } else {
        raw
    }
}

impl CommandAdapter {
    /// Rewrites a known command to request structured (JSON) output.
    ///
    /// `cargo` commands that build, check or test get `--message-format=json`
    /// and `npm` commands that install or update get `--json`, unless the flag
    /// is present already; any other command is returned unchanged.
    pub fn adapt(raw_cmd: &str) -> (adapted: String)
        ensures
            adapted@ == adapt_spec(raw_cmd@),
    {
        let raw = chars_of(raw_cmd);
        let cmd_trimmed = trim_chars(&raw);
        if starts_with_chars(&cmd_trimmed, &chars_of("cargo ")) {
            if (contains_chars(&cmd_trimmed, &chars_of("build")) || contains_chars(
                &cmd_trimmed,
                &chars_of("check"),
            ) || contains_chars(&cmd_trimmed, &chars_of("test"))) && !contains_chars(
                &cmd_trimmed,
                &chars_of("--message-format"),
            ) {
                let mut out = string_of(&cmd_trimmed);
                out.append(" --message-format=json");
                return out;
            }
        }
        if starts_with_chars(&cmd_trimmed, &chars_of("npm ")) {
            if (contains_chars(&cmd_trimmed, &chars_of("install")) || contains_chars(
                &cmd_trimmed,
                &chars_of("update"),
            )) && !contains_chars(&cmd_trimmed, &chars_of("--json")) {
                let mut out = string_of(&cmd_trimmed);
                out.append(" --json");
                return out;
            }
        }
        raw_cmd.to_owned()
    }
}

/// Appending a flag to a trimmed command yields a command that trim leaves alone.
proof fn lemma_trim_of_flagged(t: Seq<char>, flag: Seq<char>)
    requires
        t.len() > 0,
        !is_white_space(t[0]),
        flag.len() > 0,
        !is_white_space(flag.last()),
    ensures
        trim_spec(t + flag) == t + flag,
{
    let a = t + flag;
    assert(a[0] == t[0]);
    assert(a.last() == flag.last());
    assert(trim_start_spec(a) == a);
    assert(trim_end_spec(a) == a);
}

/// Adapting is idempotent: a command that has been adapted once is left
/// unchanged by a second adaptation, since it then carries its flag.
pub proof fn law_adapt_idempotent(raw: Seq<char>)
    ensures
        adapt_spec(adapt_spec(raw)) == adapt_spec(raw),
{
    let t = trim_spec(raw);
    reveal_strlit("cargo ");
    reveal_strlit("npm ");
    reveal_strlit(" --message-format=json");
    reveal_strlit(" --json");
    reveal_strlit("--message-format");
    reveal_strlit("--json");
    if is_cargo_structured(t) {
        let flag = " --message-format=json"@;
        let a = t + flag;
        assert(t.subrange(0, 6)[0] == t[0]);
        lemma_trim_of_flagged(t, flag);
        assert(a.subrange(t.len() + 1int, t.len() + 1int + "--message-format"@.len())
            =~= "--message-format"@);
        assert(has_substr(a, "--message-format"@));
        assert(!has_prefix(a, "npm "@)) by {
            if has_prefix(a, "npm "@) {
                assert(a.subrange(0, 4)[0] == a[0]);
            }
        }
    } else if is_npm_structured(t) {
        let flag = " --json"@;
        let a = t + flag;
        assert(t.subrange(0, 4)[0] == t[0]);
        lemma_trim_of_flagged(t, flag);
        assert(a.subrange(t.len() + 1int, t.len() + 1int + "--json"@.len()) =~= "--json"@);
        assert(has_substr(a, "--json"@));
        assert(!has_prefix(a, "cargo "@)) by {
            if has_prefix(a, "cargo "@) {
                assert(a.subrange(0, 6)[0] == a[0]);
            }
        }
    }
}

/// A cargo build, check or test without `--message-format` gets
/// `--message-format=json` appended to the trimmed command.
pub proof fn law_cargo_gets_json_format(raw: Seq<char>)
    requires
        has_prefix(trim_spec(raw), "cargo "@),
        has_substr(trim_spec(raw), "build"@) || has_substr(trim_spec(raw), "check"@)
            || has_substr(trim_spec(raw), "test"@),
        !has_substr(trim_spec(raw), "--message-format"@),
    ensures
        adapt_spec(raw) == trim_spec(raw) + " --message-format=json"@,
{
}

/// An npm install or update without `--json` gets `--json` appended to the
/// trimmed command, whatever other options it carries.
pub proof fn law_npm_gets_json(raw: Seq<char>)
    requires
        has_prefix(trim_spec(raw), "npm "@),
        has_substr(trim_spec(raw), "install"@) || has_substr(trim_spec(raw), "update"@),
        !has_substr(trim_spec(raw), "--json"@),
    ensures
        adapt_spec(raw) == trim_spec(raw) + " --json"@,
{
    let t = trim_spec(raw);
    reveal_strlit("cargo ");
    reveal_strlit("npm ");
    assert(!has_prefix(t, "cargo "@)) by {
        assert(t.subrange(0, 4)[0] == t[0]);
        if has_prefix(t, "cargo "@) {
            assert(t.subrange(0, 6)[0] == t[0]);
        }
    }
}

/// Any other command is returned exactly as given, untrimmed.
pub proof fn law_other_commands_unchanged(raw: Seq<char>)
    requires
        !(has_prefix(trim_spec(raw), "cargo "@) && (has_substr(trim_spec(raw), "build"@)
            || has_substr(trim_spec(raw), "check"@) || has_substr(trim_spec(raw), "test"@))
            && !has_substr(trim_spec(raw), "--message-format"@)),
        !(has_prefix(trim_spec(raw), "npm "@) && (has_substr(trim_spec(raw), "install"@)
            || has_substr(trim_spec(raw), "update"@)) && !has_substr(trim_spec(raw), "--json"@)),
    ensures
        adapt_spec(raw) == raw,
{
}

} // verus!
