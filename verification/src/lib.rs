//! Structured shell middleware: the pure logic of command adaptation,
//! terminal output classification, shell-integration hooks, output capture
//! and the human/agent input arbitration lock.

pub mod adapters;
pub mod capture;
pub mod dom;
pub mod hooks;
pub mod session;
pub mod text;

use vstd::prelude::*;

verus! {

/// Who controls the terminal; it keeps human and agent input from interleaving.
#[derive(Debug, Clone, Copy, PartialEq, Eq, Structural)]
pub enum TerminalOwnership {
    HumanDriving,
    AgentDriving,
}

/// Semantic shell lifecycle events.
#[derive(Debug, Clone)]
pub enum ShellEvent {
    CommandStart(String),
    CommandEnd(i32),
    WaitingForInput,
    /// Raw output captured on the machine (shadow) track.
    OutputChunk(String),
}

/// A `ShellEvent` with its strings taken as character sequences.
pub enum ShellEventView {
    CommandStart(Seq<char>),
    CommandEnd(i32),
    WaitingForInput,
    OutputChunk(Seq<char>),
}

impl View for ShellEvent {
    type V = ShellEventView;

    open spec fn view(&self) -> ShellEventView {
        match self {
            ShellEvent::CommandStart(cmd) => ShellEventView::CommandStart(cmd@),
            ShellEvent::CommandEnd(code) => ShellEventView::CommandEnd(*code),
            ShellEvent::WaitingForInput => ShellEventView::WaitingForInput,
            ShellEvent::OutputChunk(chunk) => ShellEventView::OutputChunk(chunk@),
        }
    }
}

/// The views of a sequence of events.
pub open spec fn events_view(events: Seq<ShellEvent>) -> Seq<ShellEventView> {
    events.map_values(|e: ShellEvent| e@)
}

} // verus!
