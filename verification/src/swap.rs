//! Swapping placeholders for the windows they stand for.
//!
//! The swapper holds the registry that a replay has filled. It first goes
//! through the windows that were there before the replay, and then reacts to
//! the events of the window manager, until no placeholder waits any more.

use vstd::prelude::*;
use crate::command::{commands_view, Command, CommandView};
use crate::error::LayoutError;
use crate::event::{Event, EventView, WindowChange};
use crate::matcher::{consumed, removed, EntryView, Matchers};
use crate::matcher::lemma_registry_shrinks;
use crate::node::{windows_view, Window, WindowView};

verus! {

/// The two commands of a swap: the window takes the placeholder's place in
/// the tree, and the placeholder is closed.
pub open spec fn swap_commands(placeholder: int, window: int) -> Seq<CommandView> {
    seq![CommandView::Swap { placeholder, window }, CommandView::Kill { con_id: placeholder }]
}

/// What one window does to the registry: where an entry accepts it, the
/// first such entry leaves and the window is swapped for its placeholder.
pub open spec fn offered(entries: Seq<EntryView>, w: WindowView) -> (
    Seq<EntryView>,
    Seq<CommandView>,
) {
    match consumed(entries, w).0 {
        Some(id) => (consumed(entries, w).1, swap_commands(id, w.id)),
        None => (entries, Seq::empty()),
    }
}

/// The registry after the windows have been offered to it one after the
/// other, and the commands of the swaps in the order of the windows.
pub open spec fn resolved(entries: Seq<EntryView>, windows: Seq<WindowView>) -> (
    Seq<EntryView>,
    Seq<CommandView>,
)
    decreases windows.len(),
{
    if windows.len() == 0 {
        (entries, Seq::empty())
    } else {
        let before = resolved(entries, windows.drop_last());
        let here = offered(before.0, windows.last());
        (here.0, before.1 + here.1)
    }
}

/// What an event does: the registry after it, the commands to send, whether
/// the swapping is over, and the failure if it is over because it failed.
pub struct ReactionView {
    pub entries: Seq<EntryView>,
    pub commands: Seq<CommandView>,
    pub done: bool,
    pub failure: Option<LayoutError>,
}

impl ReactionView {
    /// The reaction to what changes nothing.
    pub open spec fn nothing(entries: Seq<EntryView>) -> ReactionView {
        ReactionView { entries, commands: Seq::empty(), done: false, failure: None }
    }
}

/// The reaction to an event.
///
/// A placeholder that was closed no longer waits: its entry is cancelled, if
/// it still has one, and the swapping is over when the registry is empty
/// after that. A new window is offered to the registry. The end of the stream
/// ends the swapping with a failure, whatever the registry holds: only a
/// closed placeholder ends it well. No other event changes anything.
pub open spec fn reacted(entries: Seq<EntryView>, event: EventView) -> ReactionView {
    match event {
        EventView::Window { change: WindowChange::Close, container } => {
            if container.is_placeholder() {
                let left = removed(entries, container.id).1;
                ReactionView {
                    entries: left,
                    commands: Seq::empty(),
                    done: left.len() == 0,
                    failure: None,
                }
            } else {
                ReactionView::nothing(entries)
            }
        },
        EventView::Window { change: WindowChange::New, container } => ReactionView {
            entries: offered(entries, container).0,
            commands: offered(entries, container).1,
            done: false,
            failure: None,
        },
        EventView::Ended => ReactionView {
            entries,
            commands: Seq::empty(),
            done: true,
            failure: Some(LayoutError::StreamEnded),
        },
        _ => ReactionView::nothing(entries),
    }
}

/// What the swapper asks for after an event.
#[derive(Debug, PartialEq, Eq)]
pub struct Reaction {
    /// The commands to send, in their order.
    pub commands: Vec<Command>,
    /// The swapping is over.
    pub done: bool,
    /// The swapping is over because it failed.
    pub failure: Option<LayoutError>,
}

/// Swaps placeholders for windows.
pub struct Swapper {
    matchers: Matchers,
}

impl View for Swapper {
    type V = Seq<EntryView>;

    closed spec fn view(&self) -> Seq<EntryView> {
        self.matchers@
    }
}

impl Swapper {
    /// A swapper for the placeholders of the registry.
    pub fn new(matchers: Matchers) -> (r: Self)
        ensures
            r@ == matchers@,
    {
        Swapper { matchers }
    }

    /// The commands that swap the window `id2` for the placeholder `id1`.
    pub fn do_swap(id1: i64, id2: i64) -> (commands: Vec<Command>)
        ensures
            commands_view(commands@) == swap_commands(id1 as int, id2 as int),
    {
        let mut commands: Vec<Command> = Vec::new();
        commands.push(Command::Swap { placeholder: id1, window: id2 });
        commands.push(Command::Kill { con_id: id1 });
        assert(commands_view(commands@) =~= swap_commands(id1 as int, id2 as int));
        commands
    }

    fn offer(&mut self, window: &Window, commands: &mut Vec<Command>)
        ensures
            final(self)@ == offered(old(self)@, window@).0,
            commands_view(final(commands)@) == commands_view(old(commands)@) + offered(
                old(self)@,
                window@,
            ).1,
    {
        match self.matchers.consume(window) {
            Some(id) => {
                commands.push(Command::Swap { placeholder: id, window: window.id });
                commands.push(Command::Kill { con_id: id });
                assert(commands_view(commands@) =~= commands_view(old(commands)@) + swap_commands(
                    id as int,
                    window.id as int,
                ));
            },
            None => {
                assert(commands_view(commands@) =~= commands_view(old(commands)@)
                    + Seq::<CommandView>::empty());
            },
        }
    }

    /// Offers the windows that were there before the replay to the
    /// placeholders, in their order, and returns the commands of the swaps.
    pub fn swap(&mut self, prev: &Vec<Window>) -> (commands: Vec<Command>)
        ensures
            (final(self)@, commands_view(commands@)) == resolved(old(self)@, windows_view(prev@)),
    {
        let mut commands: Vec<Command> = Vec::new();
        let mut i: usize = 0;
        assert(commands_view(commands@) =~= Seq::<CommandView>::empty());
        assert(windows_view(prev@).take(0) =~= Seq::<WindowView>::empty());
        while i < prev.len()
            invariant
                i <= prev.len(),
                (self@, commands_view(commands@)) == resolved(
                    old(self)@,
                    windows_view(prev@).take(i as int),
                ),
            decreases prev.len() - i,
        {
            assert(windows_view(prev@).take(i + 1).drop_last() =~= windows_view(prev@).take(
                i as int,
            ));
            self.offer(&prev[i], &mut commands);
            i += 1;
        }
        assert(windows_view(prev@).take(i as int) =~= windows_view(prev@));
        commands
    }

    /// Reacts to one event of the window manager.
    pub fn on_event(&mut self, event: &Event) -> (r: Reaction)
        ensures
            final(self)@ == reacted(old(self)@, event@).entries,
            commands_view(r.commands@) == reacted(old(self)@, event@).commands,
            r.done == reacted(old(self)@, event@).done,
            r.failure == reacted(old(self)@, event@).failure,
    {
        let mut commands: Vec<Command> = Vec::new();
        assert(commands_view(commands@) =~= Seq::<CommandView>::empty());
        match event {
            Event::Window { change: WindowChange::Close, container } => {
                if container.is_placeholder() {
                    self.matchers.remove(container.id);
                    let done = self.matchers.is_empty();
                    Reaction { commands, done, failure: None }
                } else {
                    Reaction { commands, done: false, failure: None }
                }
            },
            Event::Window { change: WindowChange::New, container } => {
                self.offer(container, &mut commands);
                assert(Seq::<CommandView>::empty() + offered(old(self)@, container@).1 =~= offered(
                    old(self)@,
                    container@,
                ).1);
                Reaction { commands, done: false, failure: None }
            },
            Event::Ended => Reaction {
                commands,
                done: true,
                failure: Some(LayoutError::StreamEnded),
            },
            _ => Reaction { commands, done: false, failure: None },
        }
    }

    /// Whether no placeholder waits any more.
    pub fn is_empty(&self) -> (r: bool)
        ensures
            r == (self@.len() == 0),
    {
        self.matchers.is_empty()
    }

    /// How many placeholders wait.
    pub fn pending(&self) -> (r: usize)
        ensures
            r == self@.len(),
    {
        self.matchers.len()
    }
}

/// The registry only ever loses entries: no event and no window adds one,
/// and the swapping is over without a failure only with an empty registry.
pub proof fn lemma_registry_only_shrinks(entries: Seq<EntryView>, event: EventView, w: WindowView)
    ensures
        reacted(entries, event).entries.len() <= entries.len(),
        reacted(entries, event).done && reacted(entries, event).failure is None ==> reacted(
            entries,
            event,
        ).entries.len() == 0,
        reacted(entries, event).failure is Some ==> reacted(entries, event).done,
        offered(entries, w).0.len() <= entries.len(),
        offered(entries, w).1.len() > 0 ==> offered(entries, w).0.len() == entries.len() - 1,
{
    lemma_registry_shrinks(entries, w, 0);
    match event {
        EventView::Window { change, container } => {
            lemma_registry_shrinks(entries, container, container.id);
        },
        _ => {},
    }
}

/// A window that no entry accepts is left alone: nothing is sent and the
/// registry stays as it is.
pub proof fn lemma_unmatched_window_left_alone(entries: Seq<EntryView>, w: WindowView)
    requires
        forall|j: int| 0 <= j < entries.len() ==> !entries[j].accepts(w),
    ensures
        offered(entries, w) == (entries, Seq::<CommandView>::empty()),
{
    crate::matcher::lemma_no_match_changes_nothing(entries, w);
}

} // verus!
