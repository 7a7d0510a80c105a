//! Semantic shell hooks.
//!
//! Shells with shell integration embed invisible OSC 133 sequences in their
//! output that report the terminal's lifecycle. Scanning captured chunks for
//! them turns the output stream into precise events.

use vstd::prelude::*;

use crate::text::{chars_of, contains_chars, has_substr, lemma_substr_prefix};
use crate::{events_view, ShellEvent, ShellEventView};

verus! {

/// Extracts lifecycle events from chunks of PTY output.
pub struct SemanticHookParser;

/// The chunk holds OSC 133 with the given body, terminated either by BEL
/// (`bel_form`) or by ST (`st_form`).
pub open spec fn has_marker(chunk: Seq<char>, bel_form: Seq<char>, st_form: Seq<char>) -> bool {
    has_substr(chunk, bel_form) || has_substr(chunk, st_form)
}

/// OSC 133;B: a command has started.
pub open spec fn has_command_start(chunk: Seq<char>) -> bool {
    has_marker(chunk, "\x1b]133;B\x07"@, "\x1b]133;B\x1b\\"@)
}

/// OSC 133;D;0: a command has finished with exit status 0.
pub open spec fn has_command_success(chunk: Seq<char>) -> bool {
    has_marker(chunk, "\x1b]133;D;0\x07"@, "\x1b]133;D;0\x1b\\"@)
}

/// OSC 133;D;: a command has finished, with any exit status.
pub open spec fn has_command_end(chunk: Seq<char>) -> bool {
    has_substr(chunk, "\x1b]133;D;"@)
}

/// OSC 133;A: the prompt is shown and the shell waits for input.
pub open spec fn has_prompt(chunk: Seq<char>) -> bool {
    has_marker(chunk, "\x1b]133;A\x07"@, "\x1b]133;A\x1b\\"@)
}

/// The events of one chunk, in lifecycle order: a start, then an end with
/// exit code 0 for a zero status and 1 for any other, then a prompt.
pub open spec fn parse_chunk_spec(chunk: Seq<char>) -> Seq<ShellEventView> {
    let start = if has_command_start(chunk) {
        seq![ShellEventView::CommandStart("detected_command"@)]
    } else {
        Seq::empty()
    };
    let end = if has_command_success(chunk) {
        seq![ShellEventView::CommandEnd(0)]
    } else if has_command_end(chunk) {
        seq![ShellEventView::CommandEnd(1)]
    } else {
        Seq::empty()
    };
    let wait = if has_prompt(chunk) {
        seq![ShellEventView::WaitingForInput]
    } else {
        Seq::empty()
    };
    start + end + wait
}

impl SemanticHookParser {
    /// Scans a captured chunk of PTY output and extracts the semantic events
    /// that its OSC 133 sequences report.
    pub fn parse_chunk(chunk: &str) -> (events: Vec<ShellEvent>)
        ensures
            events_view(events@) == parse_chunk_spec(chunk@),
    {
        let c = chars_of(chunk);
        let mut events: Vec<ShellEvent> = Vec::new();
        let ghost mut expected: Seq<ShellEventView> = Seq::empty();

        if contains_chars(&c, &chars_of("\x1b]133;B\x07")) || contains_chars(
            &c,
            &chars_of("\x1b]133;B\x1b\\"),
        ) {
            events.push(ShellEvent::CommandStart("detected_command".to_owned()));
            proof {
                expected = expected.push(ShellEventView::CommandStart("detected_command"@));
            }
        }
        assert(events_view(events@) =~= expected);

        if contains_chars(&c, &chars_of("\x1b]133;D;0\x07")) || contains_chars(
            &c,
            &chars_of("\x1b]133;D;0\x1b\\"),
        ) {
            events.push(ShellEvent::CommandEnd(0));
            proof {
                expected = expected.push(ShellEventView::CommandEnd(0));
            }
        } else if contains_chars(&c, &chars_of("\x1b]133;D;")) {
            events.push(ShellEvent::CommandEnd(1));
            proof {
                expected = expected.push(ShellEventView::CommandEnd(1));
            }
        }
        assert(events_view(events@) =~= expected);

        if contains_chars(&c, &chars_of("\x1b]133;A\x07")) || contains_chars(
            &c,
            &chars_of("\x1b]133;A\x1b\\"),
        ) {
            events.push(ShellEvent::WaitingForInput);
            proof {
                expected = expected.push(ShellEventView::WaitingForInput);
            }
        }
        assert(events_view(events@) =~= expected);
        assert(expected =~= parse_chunk_spec(chunk@));
        events
    }
}

/// Every marker that `parse_chunk` looks for begins with the OSC 133 introducer.
proof fn lemma_marker_has_introducer(chunk: Seq<char>, marker: Seq<char>)
    requires
        has_substr(chunk, marker),
        marker.len() >= 6,
        marker.subrange(0, 6) == "\x1b]133;"@,
    ensures
        has_substr(chunk, "\x1b]133;"@),
{
    reveal_strlit("\x1b]133;");
    lemma_substr_prefix(chunk, marker, "\x1b]133;"@);
}

/// Output that carries no OSC 133 sequence reports no lifecycle event.
pub proof fn law_plain_output_has_no_events(chunk: Seq<char>)
    requires
        !has_substr(chunk, "\x1b]133;"@),
    ensures
        parse_chunk_spec(chunk) == Seq::<ShellEventView>::empty(),
{
    reveal_strlit("\x1b]133;");
    reveal_strlit("\x1b]133;B\x07");
    reveal_strlit("\x1b]133;B\x1b\\");
    reveal_strlit("\x1b]133;D;0\x07");
    reveal_strlit("\x1b]133;D;0\x1b\\");
    reveal_strlit("\x1b]133;D;");
    reveal_strlit("\x1b]133;A\x07");
    reveal_strlit("\x1b]133;A\x1b\\");
    let intro = "\x1b]133;"@;
    let markers = seq![
        "\x1b]133;B\x07"@,
        "\x1b]133;B\x1b\\"@,
        "\x1b]133;D;0\x07"@,
        "\x1b]133;D;0\x1b\\"@,
        "\x1b]133;D;"@,
        "\x1b]133;A\x07"@,
        "\x1b]133;A\x1b\\"@,
    ];
    assert forall|k: int| 0 <= k < markers.len() implies !has_substr(chunk, #[trigger] markers[k]) by {
        assert(markers[k].subrange(0, 6) =~= intro);
        if has_substr(chunk, markers[k]) {
            lemma_marker_has_introducer(chunk, markers[k]);
        }
    }
    assert(!has_substr(chunk, markers[0]));
    assert(!has_substr(chunk, markers[1]));
    assert(!has_substr(chunk, markers[2]));
    assert(!has_substr(chunk, markers[3]));
    assert(!has_substr(chunk, markers[4]));
    assert(!has_substr(chunk, markers[5]));
    assert(!has_substr(chunk, markers[6]));
    assert(parse_chunk_spec(chunk) =~= Seq::<ShellEventView>::empty());
}

/// A chunk reports at most one command end, and its exit code is 0 exactly
/// when the shell reported a zero exit status, and 1 for any other status.
pub proof fn law_command_end_code(chunk: Seq<char>, i: int, code: i32)
    requires
        0 <= i < parse_chunk_spec(chunk).len(),
        parse_chunk_spec(chunk)[i] == ShellEventView::CommandEnd(code),
    ensures
        code == 0 <==> has_command_success(chunk),
        code == 0 || code == 1,
        forall|j: int|
            0 <= j < parse_chunk_spec(chunk).len() && j != i ==> !(
            #[trigger] parse_chunk_spec(chunk)[j] is CommandEnd),
{
}

/// A prompt is reported exactly when the chunk holds OSC 133;A (BEL or ST
/// form), whatever other markers it holds.
pub proof fn law_prompt_reported_iff_marker(chunk: Seq<char>)
    ensures
        (exists|i: int|
            0 <= i < parse_chunk_spec(chunk).len() && #[trigger] parse_chunk_spec(chunk)[i]
                is WaitingForInput) <==> (has_substr(chunk, "\x1b]133;A\x07"@) || has_substr(
            chunk,
            "\x1b]133;A\x1b\\"@,
        )),
{
    let ev = parse_chunk_spec(chunk);
    if has_substr(chunk, "\x1b]133;A\x07"@) || has_substr(chunk, "\x1b]133;A\x1b\\"@) {
        assert(ev[ev.len() - 1] is WaitingForInput);
    }
}

/// A command start is reported exactly when the chunk holds OSC 133;B (BEL
/// or ST form), and then it comes first.
pub proof fn law_start_reported_iff_marker(chunk: Seq<char>)
    ensures
        (exists|i: int|
            0 <= i < parse_chunk_spec(chunk).len() && #[trigger] parse_chunk_spec(chunk)[i]
                is CommandStart) <==> (has_substr(chunk, "\x1b]133;B\x07"@) || has_substr(
            chunk,
            "\x1b]133;B\x1b\\"@,
        )),
        (has_substr(chunk, "\x1b]133;B\x07"@) || has_substr(chunk, "\x1b]133;B\x1b\\"@))
            ==> parse_chunk_spec(chunk)[0] == ShellEventView::CommandStart("detected_command"@),
{
    let ev = parse_chunk_spec(chunk);
    if has_substr(chunk, "\x1b]133;B\x07"@) || has_substr(chunk, "\x1b]133;B\x1b\\"@) {
        assert(ev[0] is CommandStart);
    }
}

/// The command end reported for a chunk: `CommandEnd(0)` exactly when the
/// chunk holds OSC 133;D;0 (BEL or ST form); otherwise `CommandEnd(1)` exactly
/// when it holds OSC 133;D; with any other status; otherwise none.
pub proof fn law_end_reported_from_markers(chunk: Seq<char>)
    ensures
        (exists|i: int|
            0 <= i < parse_chunk_spec(chunk).len() && #[trigger] parse_chunk_spec(chunk)[i]
                == ShellEventView::CommandEnd(0)) <==> (has_substr(chunk, "\x1b]133;D;0\x07"@)
            || has_substr(chunk, "\x1b]133;D;0\x1b\\"@)),
        (exists|i: int|
            0 <= i < parse_chunk_spec(chunk).len() && #[trigger] parse_chunk_spec(chunk)[i]
                == ShellEventView::CommandEnd(1)) <==> (!(has_substr(chunk, "\x1b]133;D;0\x07"@)
            || has_substr(chunk, "\x1b]133;D;0\x1b\\"@)) && has_substr(chunk, "\x1b]133;D;"@)),
        (exists|i: int|
            0 <= i < parse_chunk_spec(chunk).len() && #[trigger] parse_chunk_spec(chunk)[i]
                is CommandEnd) <==> (has_substr(chunk, "\x1b]133;D;0\x07"@) || has_substr(
            chunk,
            "\x1b]133;D;0\x1b\\"@,
        ) || has_substr(chunk, "\x1b]133;D;"@)),
{
    let ev = parse_chunk_spec(chunk);
    let start = if has_command_start(chunk) { 1int } else { 0int };
    if has_command_success(chunk) || has_command_end(chunk) {
        assert(ev[start] is CommandEnd);
    }
}

/// The order of a lifecycle event in a chunk's report.
pub open spec fn lifecycle_rank(e: ShellEventView) -> int {
    match e {
        ShellEventView::CommandStart(_) => 0,
        ShellEventView::CommandEnd(_) => 1,
        ShellEventView::WaitingForInput => 2,
        ShellEventView::OutputChunk(_) => 3,
    }
}

/// A chunk reports at most one event of each kind, in lifecycle order (start,
/// end, prompt), and never an output chunk.
pub proof fn law_events_ordered_and_unique(chunk: Seq<char>)
    ensures
        parse_chunk_spec(chunk).len() <= 3,
        forall|i: int, j: int|
            0 <= i < j < parse_chunk_spec(chunk).len() ==> lifecycle_rank(
                #[trigger] parse_chunk_spec(chunk)[i],
            ) < lifecycle_rank(#[trigger] parse_chunk_spec(chunk)[j]),
        forall|i: int|
            0 <= i < parse_chunk_spec(chunk).len() ==> !(#[trigger] parse_chunk_spec(chunk)[i]
                is OutputChunk),
{
}

} // verus!
