//! The decisions of a PTY session: which command is launched, who may type
//! into the terminal, and what is reported when the command ends.

use vstd::prelude::*;

use crate::adapters::{adapt_spec, CommandAdapter};
use crate::{ShellEvent, ShellEventView, TerminalOwnership};

verus! {

// ---------------------------------------------------------------------------
// Input arbitration
// ---------------------------------------------------------------------------

/// Whether input from the agent (`is_agent`) or from the human passes the lock
/// while `owner` drives the terminal: the agent always may, the human only
/// while the agent has not locked the terminal.
pub open spec fn input_admitted(owner: TerminalOwnership, is_agent: bool) -> bool {
    is_agent || owner != TerminalOwnership::AgentDriving
}

/// The human/agent input arbitration lock.
pub struct InputArbiter {
    owner: TerminalOwnership,
}

/// Input was refused because the agent drives the terminal.
#[derive(Debug, Clone, Copy, PartialEq, Eq, Structural)]
pub struct InputLocked;

impl View for InputArbiter {
    type V = TerminalOwnership;

    closed spec fn view(&self) -> TerminalOwnership {
        self.owner
    }
}

impl InputArbiter {
    /// A fresh lock: the human drives the terminal.
    pub fn new() -> (a: Self)
        ensures
            a@ == TerminalOwnership::HumanDriving,
    {
        InputArbiter { owner: TerminalOwnership::HumanDriving }
    }

    /// Locks the terminal for the agent, cutting off human input.
    pub fn lock_for_agent(&mut self)
        ensures
            final(self)@ == TerminalOwnership::AgentDriving,
    {
        self.owner = TerminalOwnership::AgentDriving;
    }

    /// Hands control of the terminal back to the human.
    pub fn release_to_human(&mut self)
        ensures
            final(self)@ == TerminalOwnership::HumanDriving,
    {
        self.owner = TerminalOwnership::HumanDriving;
    }

    /// The current owner of the terminal.
    pub fn ownership(&self) -> (owner: TerminalOwnership)
        ensures
            owner == self@,
    {
        self.owner
    }

    /// Decides whether input may be written to the terminal: the agent may
    /// always write, the human unless the agent has locked the terminal.
    pub fn admit_input(&self, is_agent: bool) -> (r: Result<(), InputLocked>)
        ensures
            r is Ok <==> input_admitted(self@, is_agent),
    {
        if !is_agent && self.owner == TerminalOwnership::AgentDriving {
            Err(InputLocked)
        } else {
            Ok(())
        }
    }
}

impl InputLocked {
    /// The message that reports the refusal.
    pub fn message(&self) -> (m: String)
        ensures
            m@ == "Input locked: Agent is currently driving the terminal."@,
    {
        "Input locked: Agent is currently driving the terminal.".to_owned()
    }
}

/// The agent's input always passes the lock, whoever drives the terminal.
pub proof fn law_agent_input_always_admitted(owner: TerminalOwnership)
    ensures
        input_admitted(owner, true),
{
}

/// While the agent holds the lock, human input is refused.
pub proof fn law_lock_refuses_human(a: InputArbiter)
    requires
        a@ == TerminalOwnership::AgentDriving,
    ensures
        !input_admitted(a@, false),
{
}

/// Once the terminal is released to the human, any input passes again.
pub proof fn law_release_admits_all(a: InputArbiter, is_agent: bool)
    requires
        a@ == TerminalOwnership::HumanDriving,
    ensures
        input_admitted(a@, is_agent),
{
}

// ---------------------------------------------------------------------------
// Launching a command
// ---------------------------------------------------------------------------

/// What a PTY session is started with.
pub struct SpawnPlan {
    /// The command that is run, after adaptation.
    pub command: String,
    /// Terminal height in rows.
    pub rows: u16,
    /// Terminal width in columns.
    pub cols: u16,
    /// The event announced once the command has been spawned; it carries the
    /// command as the caller gave it.
    pub start_event: ShellEvent,
}

/// Plans the launch of `cmd`: the command is adapted to request structured
/// output and run on a 24x80 terminal; the caller's command is announced by a
/// `CommandStart` event.
pub fn plan_spawn(cmd: &str) -> (plan: SpawnPlan)
    ensures
        plan.command@ == adapt_spec(cmd@),
        plan.rows == 24,
        plan.cols == 80,
        plan.start_event@ == ShellEventView::CommandStart(cmd@),
{
    let command = CommandAdapter::adapt(cmd);
    SpawnPlan {
        command,
        rows: 24,
        cols: 80,
        start_event: ShellEvent::CommandStart(cmd.to_owned()),
    }
}

// ---------------------------------------------------------------------------
// Ending a session
// ---------------------------------------------------------------------------

/// The exit code that `exit_event` reports for `status`: the child's own exit
/// status, and 1, the code used for any failure, when none could be obtained.
pub open spec fn reported_exit_code(status: Option<u32>) -> i32 {
    match status {
        Some(code) => code as i32,
        None => 1,
    }
}

/// The event that ends a session once its output stream has ended:
/// `CommandEnd` with the exit status that waiting on the child gave, or 1 when
/// waiting failed.
pub fn exit_event(status: Option<u32>) -> (e: ShellEvent)
    ensures
        e@ == ShellEventView::CommandEnd(reported_exit_code(status)),
{
    match status {
        Some(code) => ShellEvent::CommandEnd(code as i32),
        None => ShellEvent::CommandEnd(1),
    }
}

/// The child's exit status is reported as it is (every status an `i32` can
/// hold), and a status that could not be obtained is never reported as
/// success.
pub proof fn law_exit_code_is_childs_status(code: u32)
    ensures
        code <= i32::MAX ==> reported_exit_code(Some(code)) == code,
        reported_exit_code(None) != 0,
{
}

/// Human input passes the lock exactly while the human drives the terminal.
pub proof fn law_human_admitted_iff_human_drives(owner: TerminalOwnership)
    ensures
        input_admitted(owner, false) <==> owner == TerminalOwnership::HumanDriving,
{
}

} // verus!
