//! What the window manager reports while a layout is replayed.

use vstd::prelude::*;
use crate::node::{Matcher, Window, WindowView};

verus! {

/// The application id that every placeholder carries, and the title of a
/// placeholder for a window without a name.
pub open spec fn placeholder_tag() -> Seq<char> {
    "swaystart"@
}

/// The application id that every placeholder carries.
pub fn placeholder_label() -> (s: &'static str)
    ensures
        s@ == placeholder_tag(),
{
    "swaystart"
}

impl WindowView {
    /// The window is a placeholder.
    pub open spec fn is_placeholder(self) -> bool {
        self.app_id == Some(placeholder_tag())
    }
}

impl Window {
    /// Whether the window is a placeholder.
    pub fn is_placeholder(&self) -> (r: bool)
        ensures
            r == self@.is_placeholder(),
    {
        match &self.app_id {
            Some(id) => Matcher::match_inner(id.as_str(), placeholder_label()),
            None => false,
        }
    }
}

/// What happened to a window.
#[derive(Clone, Copy, Debug, PartialEq, Eq, Structural)]
pub enum WindowChange {
    /// The window is new.
    New,
    /// The window was closed.
    Close,
    /// The window got the focus.
    Focus,
    /// Anything else: a new title, a move, a mark.
    Other,
}

/// One event of the stream.
#[derive(Debug, PartialEq, Eq)]
pub enum Event {
    /// Something happened to a window; `container` is the window after it.
    Window { change: WindowChange, container: Window },
    /// An event that is not about a window.
    Other,
    /// The stream has ended: no event will follow.
    Ended,
}

pub enum EventView {
    Window { change: WindowChange, container: WindowView },
    Other,
    Ended,
}

impl View for Event {
    type V = EventView;

    open spec fn view(&self) -> EventView {
        match *self {
            Event::Window { change, container } => EventView::Window {
                change,
                container: container@,
            },
            Event::Other => EventView::Other,
            Event::Ended => EventView::Ended,
        }
    }
}

/// How far the wait for a placeholder has come.
///
/// A placeholder that was asked for is first reported as a new window, and
/// then gets the focus. Only then can the replay go on: what follows acts on
/// the focused container.
#[derive(Clone, Copy, Debug, PartialEq, Eq, Structural)]
pub enum Wait {
    /// No new placeholder was reported yet.
    New,
    /// The placeholder with this container id is there, but not yet focused.
    Focus { id: i64 },
    /// The placeholder with this container id is there and has the focus.
    Ready { id: i64 },
}

impl Wait {
    /// The wait after an event.
    ///
    /// The first new window that is a placeholder is the one that is waited
    /// for. From then on only a focus event for this very container ends the
    /// wait; every other event is passed over.
    pub open spec fn after(self, event: EventView) -> Wait {
        match self {
            Wait::New => match event {
                EventView::Window { change: WindowChange::New, container } => {
                    if container.is_placeholder() {
                        Wait::Focus { id: container.id as i64 }
                    } else {
                        self
                    }
                },
                _ => self,
            },
            Wait::Focus { id } => match event {
                EventView::Window { change: WindowChange::Focus, container } => if container.id
                    == id {
                    Wait::Ready { id }
                } else {
                    self
                },
                _ => self,
            },
            Wait::Ready { id } => self,
        }
    }

    /// The wait after an event.
    pub fn advance(self, event: &Event) -> (r: Wait)
        ensures
            r == self.after(event@),
    {
        match self {
            Wait::New => match event {
                Event::Window { change: WindowChange::New, container } => {
                    if container.is_placeholder() {
                        Wait::Focus { id: container.id }
                    } else {
                        self
                    }
                },
                _ => self,
            },
            Wait::Focus { id } => match event {
                Event::Window { change: WindowChange::Focus, container } => {
                    if container.id == id {
                        Wait::Ready { id }
                    } else {
                        self
                    }
                },
                _ => self,
            },
            Wait::Ready { id } => self,
        }
    }

    /// The container id of the placeholder, once the wait is over.
    pub fn ready(&self) -> (r: Option<i64>)
        ensures
            r == match *self {
                Wait::Ready { id } => Some(id),
                _ => None,
            },
    {
        match self {
            Wait::Ready { id } => Some(*id),
            _ => None,
        }
    }
}

/// A wait ends only by a focus event for the placeholder that was reported
/// as new before, and a wait that is over stays over.
pub proof fn lemma_ready_only_after_new_and_focus(w: Wait, event: EventView)
    ensures
        w.after(event) is Ready ==> match w {
            Wait::New => false,
            Wait::Focus { id } => {
                &&& w.after(event) == (Wait::Ready { id })
                &&& event matches EventView::Window { change: WindowChange::Focus, container }
                &&& container.id == id
            },
            Wait::Ready { id } => w.after(event) == w,
        },
        w.after(event) is Focus && w is New ==> {
            &&& event matches EventView::Window { change: WindowChange::New, container }
            &&& container.is_placeholder()
            &&& w.after(event) == (Wait::Focus { id: container.id as i64 })
        },
{
}

} // verus!
