use sshell::adapters::CommandAdapter;
use sshell::dom::TerminalDomParser;
use sshell::hooks::SemanticHookParser;
use sshell::capture::{OutputCapture, ReadOutcome};
use sshell::session::{exit_event, plan_spawn, InputArbiter, InputLocked};
use sshell::text::{chars_of, contains_chars, replace_chars, starts_with_chars, string_of, trim_chars};
use sshell::{ShellEvent, TerminalOwnership};

fn s(v: &Vec<char>) -> String {
    string_of(v)
}

// ----- adapters -----

#[test]
fn adapt_cargo_build_gets_json_format() {
    assert_eq!(CommandAdapter::adapt("cargo build"), "cargo build --message-format=json");
}

#[test]
fn adapt_cargo_check_and_test() {
    assert_eq!(CommandAdapter::adapt("cargo check"), "cargo check --message-format=json");
    assert_eq!(
        CommandAdapter::adapt("cargo test --release"),
        "cargo test --release --message-format=json"
    );
}

#[test]
fn adapt_trims_the_rewritten_command() {
    assert_eq!(CommandAdapter::adapt("  cargo build \n"), "cargo build --message-format=json");
}

#[test]
fn adapt_trims_unicode_whitespace() {
    assert_eq!(
        CommandAdapter::adapt("\u{3000}cargo check\u{a0}"),
        "cargo check --message-format=json"
    );
}

#[test]
fn adapt_keeps_existing_message_format() {
    assert_eq!(
        CommandAdapter::adapt("cargo build --message-format=short"),
        "cargo build --message-format=short"
    );
}

#[test]
fn adapt_leaves_other_cargo_commands() {
    assert_eq!(CommandAdapter::adapt("cargo run"), "cargo run");
    assert_eq!(CommandAdapter::adapt("cargo"), "cargo");
}

#[test]
fn adapt_npm_install_and_update() {
    assert_eq!(CommandAdapter::adapt("npm install"), "npm install --json");
    assert_eq!(CommandAdapter::adapt(" npm update lodash "), "npm update lodash --json");
}

#[test]
fn adapt_keeps_existing_npm_json() {
    assert_eq!(CommandAdapter::adapt("npm install --json"), "npm install --json");
    assert_eq!(CommandAdapter::adapt("npm run build"), "npm run build");
}

#[test]
fn adapt_returns_other_commands_untrimmed() {
    assert_eq!(CommandAdapter::adapt("  ls -la  "), "  ls -la  ");
    assert_eq!(CommandAdapter::adapt(""), "");
    assert_eq!(CommandAdapter::adapt("cargobuild"), "cargobuild");
}

#[test]
fn adapt_is_idempotent_on_examples() {
    for cmd in ["cargo build", " npm install x ", "ls", "cargo test --message-format=json"] {
        let once = CommandAdapter::adapt(cmd);
        let twice = CommandAdapter::adapt(&once);
        assert_eq!(once, twice);
    }
}

// ----- terminal DOM -----

#[test]
fn dom_red_text_is_error() {
    let nodes = TerminalDomParser::parse("\x1b[31merror: boom\x1b[0m");
    assert_eq!(nodes.len(), 1);
    assert_eq!(nodes[0].tag, "error");
    assert_eq!(nodes[0].content, "error: boom");
}

#[test]
fn dom_green_text_is_success() {
    let nodes = TerminalDomParser::parse("ok \x1b[32mpassed\x1b[0m done");
    assert_eq!(nodes.len(), 1);
    assert_eq!(nodes[0].tag, "success");
    assert_eq!(nodes[0].content, "ok passed done");
}

#[test]
fn dom_red_wins_over_green() {
    let nodes = TerminalDomParser::parse("\x1b[32mok\x1b[0m \x1b[31mfail\x1b[0m");
    assert_eq!(nodes[0].tag, "error");
    assert_eq!(nodes[0].content, "\x1b[32mok fail");
}

#[test]
fn dom_plain_text_is_kept() {
    let nodes = TerminalDomParser::parse("plain \x1b[0m output");
    assert_eq!(nodes.len(), 1);
    assert_eq!(nodes[0].tag, "text");
    assert_eq!(nodes[0].content, "plain \x1b[0m output");
}

#[test]
fn dom_empty_input() {
    let nodes = TerminalDomParser::parse("");
    assert_eq!(nodes[0].tag, "text");
    assert_eq!(nodes[0].content, "");
}

// ----- semantic hooks -----

#[test]
fn hooks_command_start_bel_and_st() {
    for chunk in ["x\x1b]133;B\x07y", "\x1b]133;B\x1b\\"] {
        let ev = SemanticHookParser::parse_chunk(chunk);
        assert_eq!(ev.len(), 1);
        assert!(matches!(&ev[0], ShellEvent::CommandStart(c) if c == "detected_command"));
    }
}

#[test]
fn hooks_command_end_zero() {
    for chunk in ["\x1b]133;D;0\x07", "\x1b]133;D;0\x1b\\"] {
        let ev = SemanticHookParser::parse_chunk(chunk);
        assert_eq!(ev.len(), 1);
        assert!(matches!(ev[0], ShellEvent::CommandEnd(0)));
    }
}

#[test]
fn hooks_command_end_nonzero() {
    let ev = SemanticHookParser::parse_chunk("\x1b]133;D;127\x07");
    assert_eq!(ev.len(), 1);
    assert!(matches!(ev[0], ShellEvent::CommandEnd(1)));
    let ev = SemanticHookParser::parse_chunk("\x1b]133;D;");
    assert!(matches!(ev[0], ShellEvent::CommandEnd(1)));
}

#[test]
fn hooks_prompt_waiting() {
    for chunk in ["\x1b]133;A\x07", "$ \x1b]133;A\x1b\\"] {
        let ev = SemanticHookParser::parse_chunk(chunk);
        assert_eq!(ev.len(), 1);
        assert!(matches!(ev[0], ShellEvent::WaitingForInput));
    }
}

#[test]
fn hooks_events_in_lifecycle_order() {
    let ev = SemanticHookParser::parse_chunk("\x1b]133;A\x07out\x1b]133;D;0\x07\x1b]133;B\x07");
    assert_eq!(ev.len(), 3);
    assert!(matches!(&ev[0], ShellEvent::CommandStart(_)));
    assert!(matches!(ev[1], ShellEvent::CommandEnd(0)));
    assert!(matches!(ev[2], ShellEvent::WaitingForInput));
}

#[test]
fn hooks_zero_end_takes_priority() {
    let ev = SemanticHookParser::parse_chunk("\x1b]133;D;1\x07\x1b]133;D;0\x07");
    assert_eq!(ev.len(), 1);
    assert!(matches!(ev[0], ShellEvent::CommandEnd(0)));
}

#[test]
fn hooks_plain_output_has_no_events() {
    assert!(SemanticHookParser::parse_chunk("hello world\n").is_empty());
    assert!(SemanticHookParser::parse_chunk("\x1b]133;C\x07").is_empty());
    assert!(SemanticHookParser::parse_chunk("").is_empty());
}

// ----- input arbitration -----

#[test]
fn arbiter_starts_with_human() {
    let a = InputArbiter::new();
    assert_eq!(a.ownership(), TerminalOwnership::HumanDriving);
    assert!(a.admit_input(false).is_ok());
    assert!(a.admit_input(true).is_ok());
}

#[test]
fn arbiter_lock_refuses_human_only() {
    let mut a = InputArbiter::new();
    a.lock_for_agent();
    assert_eq!(a.ownership(), TerminalOwnership::AgentDriving);
    assert_eq!(a.admit_input(false), Err(InputLocked));
    assert!(a.admit_input(true).is_ok());
}

#[test]
fn arbiter_release_restores_human_input() {
    let mut a = InputArbiter::new();
    a.lock_for_agent();
    a.release_to_human();
    assert_eq!(a.ownership(), TerminalOwnership::HumanDriving);
    assert!(a.admit_input(false).is_ok());
}

#[test]
fn arbiter_refusal_message() {
    assert_eq!(
        InputLocked.message(),
        "Input locked: Agent is currently driving the terminal."
    );
}

// ----- launching and capture -----

#[test]
fn plan_spawn_adapts_the_command_and_announces_the_callers() {
    let plan = plan_spawn("cargo build");
    assert_eq!(plan.command, "cargo build --message-format=json");
    assert_eq!((plan.rows, plan.cols), (24, 80));
    assert!(matches!(&plan.start_event, ShellEvent::CommandStart(c) if c == "cargo build"));
}

#[test]
fn plan_spawn_keeps_other_commands() {
    let plan = plan_spawn("agy");
    assert_eq!(plan.command, "agy");
    assert!(matches!(&plan.start_event, ShellEvent::CommandStart(c) if c == "agy"));
}

#[test]
fn exit_event_reports_the_child_status() {
    assert!(matches!(exit_event(Some(0)), ShellEvent::CommandEnd(0)));
    assert!(matches!(exit_event(Some(127)), ShellEvent::CommandEnd(127)));
    assert!(matches!(exit_event(None), ShellEvent::CommandEnd(1)));
}

fn chunk_text(out: &Option<ShellEvent>) -> Option<String> {
    match out {
        Some(ShellEvent::OutputChunk(c)) => Some(c.clone()),
        None => None,
        Some(other) => panic!("unexpected event {:?}", other),
    }
}

#[test]
fn capture_forwards_output() {
    let mut cap = OutputCapture::new();
    let step = cap.step(&ReadOutcome::Read("héllo".as_bytes().to_vec()));
    assert!(!step.finished);
    assert_eq!(chunk_text(&step.output).as_deref(), Some("héllo"));
    let end = cap.step(&ReadOutcome::Read(Vec::new()));
    assert!(end.finished);
    assert!(end.output.is_none());
}

#[test]
fn capture_joins_a_character_split_across_reads() {
    let mut cap = OutputCapture::new();
    let first = cap.step(&ReadOutcome::Read(vec![b'c', b'a', b'f', 0xc3]));
    assert_eq!(chunk_text(&first.output).as_deref(), Some("caf"));
    let second = cap.step(&ReadOutcome::Read(vec![0xa9, b'!']));
    assert_eq!(chunk_text(&second.output).as_deref(), Some("é!"));
    let end = cap.step(&ReadOutcome::Read(Vec::new()));
    assert!(end.finished);
    assert!(end.output.is_none());
}

#[test]
fn capture_holds_back_a_lone_lead_byte() {
    let mut cap = OutputCapture::new();
    let first = cap.step(&ReadOutcome::Read(vec![0xe2]));
    assert!(first.output.is_none());
    assert!(!first.finished);
    let second = cap.step(&ReadOutcome::Read(vec![0x82]));
    assert!(second.output.is_none());
    let third = cap.step(&ReadOutcome::Read(vec![0xac, b'x']));
    assert_eq!(chunk_text(&third.output).as_deref(), Some("€x"));
}

#[test]
fn capture_flushes_an_incomplete_tail_at_the_end() {
    let mut cap = OutputCapture::new();
    let first = cap.step(&ReadOutcome::Read(vec![b'a', 0xf0, 0x9f]));
    assert_eq!(chunk_text(&first.output).as_deref(), Some("a"));
    let end = cap.step(&ReadOutcome::Failed);
    assert!(end.finished);
    assert_eq!(chunk_text(&end.output).as_deref(), Some("\u{fffd}"));
}

#[test]
fn capture_replaces_invalid_utf8() {
    let mut cap = OutputCapture::new();
    let step = cap.step(&ReadOutcome::Read(vec![b'a', 0xff, b'b']));
    assert!(!step.finished);
    assert_eq!(chunk_text(&step.output).as_deref(), Some("a\u{fffd}b"));
}

#[test]
fn capture_ends_on_failure_with_nothing_held() {
    let mut cap = OutputCapture::new();
    let step = cap.step(&ReadOutcome::Failed);
    assert!(step.finished);
    assert!(step.output.is_none());
}

#[test]
fn capture_streams_four_byte_characters_one_byte_at_a_time() {
    let text = "x😀y€";
    let mut cap = OutputCapture::new();
    let mut joined = String::new();
    for b in text.as_bytes() {
        let step = cap.step(&ReadOutcome::Read(vec![*b]));
        if let Some(t) = chunk_text(&step.output) {
            joined.push_str(&t);
        }
    }
    let end = cap.step(&ReadOutcome::Read(Vec::new()));
    if let Some(t) = chunk_text(&end.output) {
        joined.push_str(&t);
    }
    assert_eq!(joined, text);
}

// ----- text helpers -----

#[test]
fn text_replace_is_non_overlapping_left_to_right() {
    let r = replace_chars(&chars_of("aaaa a"), &chars_of("aa"), &chars_of("b"));
    assert_eq!(s(&r), "bb a");
    let r = replace_chars(&chars_of("aaa"), &chars_of("aa"), &chars_of("xyz"));
    assert_eq!(s(&r), "xyza");
}

#[test]
fn text_trim_contains_starts_with() {
    assert_eq!(s(&trim_chars(&chars_of(" \t a b \r\n"))), "a b");
    assert_eq!(s(&trim_chars(&chars_of("   "))), "");
    assert!(contains_chars(&chars_of("abcdef"), &chars_of("cde")));
    assert!(!contains_chars(&chars_of("abcdef"), &chars_of("ced")));
    assert!(contains_chars(&chars_of("abc"), &chars_of("")));
    assert!(starts_with_chars(&chars_of("abc"), &chars_of("ab")));
    assert!(!starts_with_chars(&chars_of("a"), &chars_of("ab")));
}
