//! The interactive shell session: its state machine, its arrival-ordered
//! output queue, and the registry operations that keep the session map and
//! the jump-connection map in step.
//!
//! A session moves `Connected` → `ShellOpen` → `Closed` and never out of
//! `Closed`. Writing or resizing before the shell is open is a no-op, never a
//! fault, so a caller racing the setup cannot fail or panic.

use vstd::prelude::*;
use crate::errors::CoreError;
use crate::models::TerminalSize;
use crate::registry::Registry;

verus! {

/// Where a shell session stands in its life.
#[derive(Clone, Copy, PartialEq, Eq, Structural, Debug)]
pub enum ShellState {
    /// Authenticated; no interactive channel yet.
    Connected,
    /// Pseudo-terminal allocated and shell requested.
    ShellOpen,
    /// Terminal state; no transitions out.
    Closed,
}

/// What the driver asks of the remote side to open a shell: a
/// pseudo-terminal of the given size, then an interactive interpreter on the
/// same channel.
pub struct PtyRequest {
    pub term: String,
    pub cols: u32,
    pub rows: u32,
}

/// One interactive shell session: its id, its state, the jump connection it
/// tunnels through if any, and the output it has received and not yet
/// delivered, in arrival order.
pub struct ShellSession {
    pub session_id: String,
    pub state: ShellState,
    pub jump_connection_id: Option<String>,
    pub pending_output: Vec<Vec<u8>>,
}

impl ShellSession {
    /// A freshly connected session: authenticated, channel not yet open,
    /// nothing received.
    pub fn new(session_id: String, jump_connection_id: Option<String>) -> (r: Self)
        ensures
            r.session_id@ == session_id@,
            r.state == ShellState::Connected,
            r.jump_connection_id == jump_connection_id,
            r.pending_output@.len() == 0,
    {
        ShellSession {
            session_id,
            state: ShellState::Connected,
            jump_connection_id,
            pending_output: Vec::new(),
        }
    }

    /// Ask to open the shell: valid only while `Connected`; the request fixes
    /// the terminal type to the standard 256-color identifier. The session
    /// itself does not move yet — it moves when the driver reports how the
    /// remote side answered.
    pub fn begin_open(&self, size: TerminalSize) -> (r: Result<PtyRequest, CoreError>)
        ensures
            r is Ok <==> self.state == ShellState::Connected,
            r matches Ok(req) ==> req.term@ == "xterm-256color"@ && req.cols == size.cols
                && req.rows == size.rows,
            r matches Err(e) ==> e matches CoreError::Channel(_),
    {
        match self.state {
            ShellState::Connected => Ok(
                PtyRequest { term: "xterm-256color".to_owned(), cols: size.cols, rows: size.rows },
            ),
            ShellState::ShellOpen => Err(
                CoreError::Channel("shell already open".to_owned()),
            ),
            ShellState::Closed => Err(CoreError::Channel("session closed".to_owned())),
        }
    }

    /// Record how the remote side answered the open request: accepted moves
    /// the session to `ShellOpen`; refused leaves it `Connected`, and the
    /// caller may ask again.
    pub fn complete_open(&mut self, accepted: bool)
        requires
            old(self).state == ShellState::Connected,
        ensures
            final(self).state == if accepted {
                ShellState::ShellOpen
            } else {
                ShellState::Connected
            },
            final(self).session_id@ == old(self).session_id@,
            final(self).jump_connection_id == old(self).jump_connection_id,
            final(self).pending_output@ == old(self).pending_output@,
    {
        if accepted {
            self.state = ShellState::ShellOpen;
        }
    }

    /// Whether bytes written now should be forwarded to the remote process:
    /// only while the shell is open. In any other state the write is a no-op
    /// — never an error — so a caller writing before `open` completed loses
    /// the bytes but cannot fail.
    pub fn write(&self, _data: &[u8]) -> (send: bool)
        ensures
            send <==> self.state == ShellState::ShellOpen,
    {
        match self.state {
            ShellState::ShellOpen => true,
            _ => false,
        }
    }

    /// Whether a window-size change should be sent: only while the shell is
    /// open; a no-op otherwise, as with [`Self::write`].
    pub fn resize(&self, _size: TerminalSize) -> (send: bool)
        ensures
            send <==> self.state == ShellState::ShellOpen,
    {
        match self.state {
            ShellState::ShellOpen => true,
            _ => false,
        }
    }

    /// Append one received chunk to the output queue. The queue is unbounded
    /// by design: a slow consumer must never stall the remote shell, at the
    /// price of unbounded growth. Arrival order is kept exactly.
    pub fn push_output(&mut self, chunk: Vec<u8>)
        ensures
            final(self).pending_output@ == old(self).pending_output@.push(chunk),
            final(self).state == old(self).state,
            final(self).session_id@ == old(self).session_id@,
            final(self).jump_connection_id == old(self).jump_connection_id,
    {
        self.pending_output.push(chunk);
    }

    /// Drain the queue for delivery: everything received so far, in arrival
    /// order, leaving the queue empty.
    pub fn take_output(&mut self) -> (r: Vec<Vec<u8>>)
        ensures
            r@ == old(self).pending_output@,
            final(self).pending_output@.len() == 0,
            final(self).state == old(self).state,
            final(self).session_id@ == old(self).session_id@,
            final(self).jump_connection_id == old(self).jump_connection_id,
    {
        let mut drained = Vec::new();
        core::mem::swap(&mut drained, &mut self.pending_output);
        drained
    }

    /// Close the session: the terminal state, unconditionally — even when the
    /// polite disconnect the driver attempts afterwards fails.
    pub fn close(&mut self)
        ensures
            final(self).state == ShellState::Closed,
            final(self).session_id@ == old(self).session_id@,
            final(self).jump_connection_id == old(self).jump_connection_id,
            final(self).pending_output@ == old(self).pending_output@,
    {
        self.state = ShellState::Closed;
    }
}

/// A kept-alive jump-host connection: the record under which the driver keeps
/// the authenticated connection to the jump host alive for as long as the one
/// session tunneling through it lives.
pub struct JumpConnection {
    pub connection_id: String,
}

/// Tear one session down: the session, if registered, is closed and removed,
/// and the jump connection it tunneled through, if any, is released from the
/// jump registry. Afterwards the session registry no longer holds the id —
/// connect followed by disconnect leaves no trace — and disconnecting an
/// absent id changes nothing.
pub fn disconnect_session(
    sessions: &mut Registry<ShellSession>,
    jumps: &mut Registry<JumpConnection>,
    session_id: &str,
) -> (r: Option<ShellSession>)
    requires
        old(sessions).wf(),
        old(jumps).wf(),
    ensures
        final(sessions).wf(),
        final(jumps).wf(),
        final(sessions).m() == old(sessions).m().remove(session_id@),
        !final(sessions).m().contains_key(session_id@),
        r matches Some(s) ==> old(sessions).m().contains_key(session_id@) && s.state
            == ShellState::Closed && s.session_id@ == old(sessions).m()[session_id@].session_id@
            && s.jump_connection_id == old(sessions).m()[session_id@].jump_connection_id,
        r is None ==> !old(sessions).m().contains_key(session_id@),
        r matches Some(s) ==> (s.jump_connection_id matches Some(j) ==> final(jumps).m() == old(
            jumps,
        ).m().remove(j@)),
        (match r {
            Option::Some(s) => s.jump_connection_id is None,
            Option::None => true,
        }) ==> final(jumps).m() == old(jumps).m(),
{
    match sessions.remove(session_id) {
        Some(mut session) => {
            session.close();
            match &session.jump_connection_id {
                Some(jump_id) => {
                    jumps.remove(jump_id.as_str());
                },
                None => {},
            }
            Some(session)
        },
        None => None,
    }
}

} // verus!
