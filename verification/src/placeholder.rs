//! The worker that keeps the placeholder windows.
//!
//! The worker serves the display connection and takes two requests: to open
//! a placeholder, and to leave once no placeholder is open any more. What it
//! decides stands here; the connection itself is the caller's.

use vstd::prelude::*;

verus! {

/// A request to the worker.
#[derive(Debug, PartialEq, Eq)]
pub enum ClientMsg {
    /// Open a placeholder with this title and this application id.
    NewWindow { title: String, app_id: String },
    /// Leave as soon as no placeholder is open.
    ExitOnIdle,
}

/// What the worker's channel delivers.
#[derive(Debug, PartialEq, Eq)]
pub enum ChannelEvent {
    /// The other end is gone: leave at once.
    Closed,
    /// A request.
    Msg { msg: ClientMsg },
}

/// A placeholder that the worker is to open.
#[derive(Debug, PartialEq, Eq)]
pub struct WindowRequest {
    pub title: String,
    pub app_id: String,
}

/// What the worker has been told so far.
#[derive(Clone, Copy, Debug, PartialEq, Eq, Structural)]
pub struct Worker {
    /// Leave at once.
    pub exit: bool,
    /// Leave when no placeholder is open.
    pub exit_on_idle: bool,
}

impl Worker {
    /// A worker that has been told nothing.
    pub fn new() -> (r: Self)
        ensures
            r == (Worker { exit: false, exit_on_idle: false }),
    {
        Worker { exit: false, exit_on_idle: false }
    }

    /// The worker after a delivery from its channel.
    pub open spec fn after(self, closed: bool, idle: bool) -> Worker {
        Worker { exit: self.exit || closed, exit_on_idle: self.exit_on_idle || idle }
    }

    /// Takes one delivery from the channel. Returns the placeholder to open,
    /// where the delivery asks for one.
    pub fn receive(&mut self, event: ChannelEvent) -> (r: Option<WindowRequest>)
        ensures
            match event {
                ChannelEvent::Closed => *final(self) == old(self).after(true, false) && r is None,
                ChannelEvent::Msg { msg: ClientMsg::ExitOnIdle } => *final(self) == old(
                    self,
                ).after(false, true) && r is None,
                ChannelEvent::Msg { msg: ClientMsg::NewWindow { title, app_id } } => *final(self)
                    == *old(self) && r == Some(WindowRequest { title, app_id }),
            },
    {
        match event {
            ChannelEvent::Closed => {
                self.exit = true;
                None
            },
            ChannelEvent::Msg { msg: ClientMsg::ExitOnIdle } => {
                self.exit_on_idle = true;
                None
            },
            ChannelEvent::Msg { msg: ClientMsg::NewWindow { title, app_id } } => Some(
                WindowRequest { title, app_id },
            ),
        }
    }

    /// The worker leaves: it was told to leave at once, or to leave when idle
    /// and no placeholder is open.
    pub open spec fn leaves(self, open_windows: nat) -> bool {
        self.exit || (self.exit_on_idle && open_windows == 0)
    }

    /// Whether the worker leaves its loop, with `open_windows` placeholders
    /// open.
    pub fn finished(&self, open_windows: usize) -> (r: bool)
        ensures
            r == self.leaves(open_windows as nat),
    {
        self.exit || (self.exit_on_idle && open_windows == 0)
    }
}

/// A worker that leaves keeps leaving, whatever it is told next, as long as
/// no further placeholder is opened.
pub proof fn lemma_leaving_is_final(w: Worker, closed: bool, idle: bool, open_windows: nat)
    requires
        w.leaves(open_windows),
    ensures
        w.after(closed, idle).leaves(open_windows),
{
}

} // verus!
