//! Carrying out the plan of a replay.
//!
//! The orchestrator decides; its caller acts. It says what is to be done
//! next: send a command, measure the container that was just built, create a
//! placeholder, listen for an event. The caller does it and reports what came
//! of it, and the orchestrator moves on. A caller that fails to do what it
//! was asked gives up the replay; nothing is undone.

use vstd::prelude::*;
use crate::command::{commands_view, Command, CommandView};
use crate::error::LayoutError;
use crate::event::{placeholder_label, placeholder_tag, Event, EventView, Wait};
use crate::matcher::{EntryView, Matchers};
use crate::node::MatcherView;
use crate::replay::{
    arrange, arranged, placeholder_swallows, steps_view, Extent, ReplayPlan, Step, StepView,
};

verus! {

/// What the caller is to do next.
#[derive(Debug, PartialEq, Eq)]
pub enum Action {
    /// Send the command and report `Done` when the window manager has
    /// acknowledged it.
    Run { command: Command },
    /// Ask the window manager for the extent of the container that holds the
    /// focused container, and report it.
    Measure,
    /// Ask for a placeholder window with this title and this application id,
    /// and report `Done`.
    Create { title: String, app_id: String },
    /// Read the next event of the stream and report it; where the stream has
    /// ended, report that.
    Listen,
    /// Nothing: the replay is over, with this failure if it failed.
    Finish { failure: Option<LayoutError> },
}

pub enum ActionView {
    Run { command: CommandView },
    Measure,
    Create { title: Seq<char>, app_id: Seq<char> },
    Listen,
    Finish { failure: Option<LayoutError> },
}

impl View for Action {
    type V = ActionView;

    open spec fn view(&self) -> ActionView {
        match *self {
            Action::Run { command } => ActionView::Run { command: command@ },
            Action::Measure => ActionView::Measure,
            Action::Create { title, app_id } => ActionView::Create {
                title: title@,
                app_id: app_id@,
            },
            Action::Listen => ActionView::Listen,
            Action::Finish { failure } => ActionView::Finish { failure },
        }
    }
}

/// What came of an action.
#[derive(Debug, PartialEq, Eq)]
pub enum Report {
    /// The command was acknowledged, or the placeholder was asked for.
    Done,
    /// The extent that was measured; nothing where no container is focused.
    Extent { extent: Option<Extent> },
    /// The event that was read.
    Event { event: Event },
}

pub enum ReportView {
    Done,
    Extent { extent: Option<Extent> },
    Event { event: EventView },
}

impl View for Report {
    type V = ReportView;

    open spec fn view(&self) -> ReportView {
        match *self {
            Report::Done => ReportView::Done,
            Report::Extent { extent } => ReportView::Extent { extent },
            Report::Event { event } => ReportView::Event { event: event@ },
        }
    }
}

/// Where a replay stands within the step it is at.
pub enum PhaseView {
    /// The step has not begun.
    Stepping,
    /// The children of a container are being sized: these commands are still
    /// to be sent, and the failure with which the replay ends after them, if any.
    Sending { commands: Seq<CommandView>, failing: Option<LayoutError> },
    /// A placeholder was asked for and is waited for.
    Waiting { wait: Wait },
    /// The replay is over.
    Ended { failure: Option<LayoutError> },
}

/// A replay: its plan, the step it is at, and the registry that it fills.
pub struct ReplayView {
    pub steps: Seq<StepView>,
    pub failure: Option<LayoutError>,
    pub at: nat,
    pub phase: PhaseView,
    pub registry: Seq<EntryView>,
}

impl ReplayView {
    /// A replay that has not begun.
    pub open spec fn start(steps: Seq<StepView>, failure: Option<LayoutError>) -> ReplayView {
        ReplayView {
            steps,
            failure,
            at: 0,
            phase: if steps.len() == 0 {
                PhaseView::Ended { failure }
            } else {
                PhaseView::Stepping
            },
            registry: Seq::empty(),
        }
    }

    /// The replay with the step it is at behind it. After the last step the
    /// replay is over, and fails as the plan says.
    pub open spec fn next_step(self) -> ReplayView {
        if self.at + 1 < self.steps.len() {
            ReplayView {
                steps: self.steps,
                failure: self.failure,
                at: self.at + 1,
                phase: PhaseView::Stepping,
                registry: self.registry,
            }
        } else {
            ReplayView {
                steps: self.steps,
                failure: self.failure,
                at: self.steps.len(),
                phase: PhaseView::Ended { failure: self.failure },
                registry: self.registry,
            }
        }
    }

    /// The replay with these commands to send before the step is behind it.
    /// With nothing to send the step is behind it at once, or the replay has
    /// failed.
    pub open spec fn sending(
        self,
        commands: Seq<CommandView>,
        failing: Option<LayoutError>,
    ) -> ReplayView {
        if commands.len() > 0 {
            ReplayView {
                steps: self.steps,
                failure: self.failure,
                at: self.at,
                phase: PhaseView::Sending { commands, failing },
                registry: self.registry,
            }
        } else if failing is Some {
            ReplayView {
                steps: self.steps,
                failure: self.failure,
                at: self.at,
                phase: PhaseView::Ended { failure: failing },
                registry: self.registry,
            }
        } else {
            self.next_step()
        }
    }

    /// The replay in another phase of the step it is at.
    pub open spec fn in_phase(self, phase: PhaseView) -> ReplayView {
        ReplayView {
            steps: self.steps,
            failure: self.failure,
            at: self.at,
            phase,
            registry: self.registry,
        }
    }

    /// What the caller is to do next.
    pub open spec fn action(self) -> ActionView {
        match self.phase {
            PhaseView::Stepping => if self.at < self.steps.len() {
                match self.steps[self.at as int] {
                    StepView::Run { command } => ActionView::Run { command },
                    StepView::Arrange { .. } => ActionView::Measure,
                    StepView::Placeholder { title, .. } => ActionView::Create {
                        title,
                        app_id: placeholder_tag(),
                    },
                }
            } else {
                ActionView::Finish { failure: self.failure }
            },
            PhaseView::Sending { commands, failing } => if commands.len() > 0 {
                ActionView::Run { command: commands[0] }
            } else {
                ActionView::Finish { failure: failing }
            },
            PhaseView::Waiting { .. } => ActionView::Listen,
            PhaseView::Ended { failure } => ActionView::Finish { failure },
        }
    }

    /// The replay after a report.
    ///
    /// A command that was acknowledged is behind the replay. An extent that
    /// was measured says which commands size the children of the container.
    /// A placeholder that was asked for is waited for: first until it is
    /// reported as new, and next until it has the focus; at last it is registered
    /// with the matchers of its window, and the step is behind the replay.
    /// Where the stream ends during the wait, the replay has failed. A report
    /// that does not answer what was asked changes nothing.
    pub open spec fn after(self, report: ReportView) -> ReplayView {
        match self.phase {
            PhaseView::Stepping => if self.at < self.steps.len() {
                match (self.steps[self.at as int], report) {
                    (StepView::Run { .. }, ReportView::Done) => self.next_step(),
                    (StepView::Arrange { layout, percents }, ReportView::Extent { extent }) => {
                        let a = arranged(layout, percents, extent);
                        self.sending(a.0, a.1)
                    },
                    (StepView::Placeholder { .. }, ReportView::Done) => self.in_phase(
                        PhaseView::Waiting { wait: Wait::New },
                    ),
                    _ => self,
                }
            } else {
                self
            },
            PhaseView::Sending { commands, failing } => match report {
                ReportView::Done => if commands.len() > 0 {
                    self.sending(commands.skip(1), failing)
                } else {
                    self
                },
                _ => self,
            },
            PhaseView::Waiting { wait } => match report {
                ReportView::Event { event: EventView::Ended } => self.in_phase(
                    PhaseView::Ended { failure: Some(LayoutError::StreamEnded) },
                ),
                ReportView::Event { event } => match wait.after(event) {
                    Wait::Ready { id } => if self.at < self.steps.len() {
                        match self.steps[self.at as int] {
                            StepView::Placeholder { swallows, .. } => ReplayView {
                                steps: self.steps,
                                failure: self.failure,
                                at: self.at,
                                phase: self.phase,
                                registry: self.registry.push(
                                    EntryView { id: id as int, matchers: swallows },
                                ),
                            }.next_step(),
                            _ => self,
                        }
                    } else {
                        self
                    },
                    w => self.in_phase(PhaseView::Waiting { wait: w }),
                },
                _ => self,
            },
            PhaseView::Ended { .. } => self,
        }
    }
}

/// The phase of a replay, without what belongs to it.
#[derive(Clone, Copy, Debug, PartialEq, Eq, Structural)]
enum Phase {
    Stepping,
    Sending,
    Waiting,
    Ended,
}

/// Carries out the plan of a replay, one action at a time.
pub struct Replay {
    steps: Vec<Step>,
    failure: Option<LayoutError>,
    at: usize,
    phase: Phase,
    /// While sending: the commands of the arrangement, how many of them were
    /// sent, and the failure after them.
    queue: Vec<Command>,
    sent: usize,
    failing: Option<LayoutError>,
    /// While waiting: how far the wait has come.
    wait: Wait,
    /// When ended: the failure.
    ended: Option<LayoutError>,
    matchers: Matchers,
}

impl View for Replay {
    type V = ReplayView;

    closed spec fn view(&self) -> ReplayView {
        ReplayView {
            steps: steps_view(self.steps@),
            failure: self.failure,
            at: self.at as nat,
            phase: match self.phase {
                Phase::Stepping => PhaseView::Stepping,
                Phase::Sending => PhaseView::Sending {
                    commands: if self.sent <= self.queue.len() {
                        commands_view(self.queue@).skip(self.sent as int)
                    } else {
                        Seq::empty()
                    },
                    failing: self.failing,
                },
                Phase::Waiting => PhaseView::Waiting { wait: self.wait },
                Phase::Ended => PhaseView::Ended { failure: self.ended },
            },
            registry: self.matchers@,
        }
    }
}

impl Replay {
    /// A replay of the plan that has not begun.
    pub fn new(plan: ReplayPlan) -> (r: Self)
        ensures
            r@ == ReplayView::start(steps_view(plan.steps@), plan.failure),
    {
        let phase = if plan.steps.len() == 0 {
            Phase::Ended
        } else {
            Phase::Stepping
        };
        Replay {
            steps: plan.steps,
            failure: plan.failure,
            at: 0,
            phase,
            queue: Vec::new(),
            sent: 0,
            failing: None,
            wait: Wait::New,
            ended: plan.failure,
            matchers: Matchers::new(),
        }
    }

    /// What the caller is to do next.
    pub fn action(&self) -> (a: Action)
        ensures
            a@ == self@.action(),
    {
        match self.phase {
            Phase::Stepping => {
                if self.at < self.steps.len() {
                    match &self.steps[self.at] {
                        Step::Run { command } => Action::Run { command: command.clone() },
                        Step::Arrange { .. } => Action::Measure,
                        Step::Placeholder { title, .. } => Action::Create {
                            title: title.clone(),
                            app_id: placeholder_label().to_owned(),
                        },
                    }
                } else {
                    Action::Finish { failure: self.failure }
                }
            },
            Phase::Sending => {
                if self.sent < self.queue.len() {
                    Action::Run { command: self.queue[self.sent].clone() }
                } else {
                    Action::Finish { failure: self.failing }
                }
            },
            Phase::Waiting => Action::Listen,
            Phase::Ended => Action::Finish { failure: self.ended },
        }
    }

    /// Puts the step that the replay is at behind it.
    fn step_done(&mut self)
        ensures
            final(self)@ == old(self)@.next_step(),
    {
        if self.at < self.steps.len() && self.at + 1 < self.steps.len() {
            self.at = self.at + 1;
            self.phase = Phase::Stepping;
        } else {
            self.at = self.steps.len();
            self.ended = self.failure;
            self.phase = Phase::Ended;
        }
    }

    /// Takes up the commands of an arrangement.
    fn send(&mut self, commands: Vec<Command>, failing: Option<LayoutError>)
        ensures
            final(self)@ == old(self)@.sending(commands_view(commands@), failing),
    {
        if commands.len() > 0 {
            self.sent = 0;
            self.queue = commands;
            self.failing = failing;
            self.phase = Phase::Sending;
            assert(commands_view(self.queue@).skip(0) =~= commands_view(commands@));
        } else if failing.is_some() {
            self.ended = failing;
            self.phase = Phase::Ended;
        } else {
            self.step_done();
        }
    }

    /// Takes the report of what came of the action that `action` asked for.
    pub fn advance(&mut self, report: Report)
        ensures
            final(self)@ == old(self)@.after(report@),
    {
        match self.phase {
            Phase::Stepping => {
                if self.at >= self.steps.len() {
                    return ;
                }
                match report {
                    Report::Done => {
                        let waits = match &self.steps[self.at] {
                            Step::Run { .. } => Some(false),
                            Step::Placeholder { .. } => Some(true),
                            Step::Arrange { .. } => None,
                        };
                        match waits {
                            Some(true) => {
                                self.wait = Wait::New;
                                self.phase = Phase::Waiting;
                            },
                            Some(false) => {
                                self.step_done();
                            },
                            None => {},
                        }
                    },
                    Report::Extent { extent } => {
                        let arrangement = match &self.steps[self.at] {
                            Step::Arrange { layout, percents } => Some(
                                arrange(*layout, percents, extent),
                            ),
                            _ => None,
                        };
                        match arrangement {
                            Some(a) => {
                                self.send(a.commands, a.failure);
                            },
                            None => {},
                        }
                    },
                    Report::Event { .. } => {},
                }
            },
            Phase::Sending => {
                match report {
                    Report::Done => {
                        if self.sent < self.queue.len() {
                            let ghost left = commands_view(self.queue@).skip(self.sent as int);
                            self.sent = self.sent + 1;
                            assert(commands_view(self.queue@).skip(self.sent as int) =~= left.skip(
                                1,
                            ));
                            if self.sent == self.queue.len() {
                                if self.failing.is_some() {
                                    self.ended = self.failing;
                                    self.phase = Phase::Ended;
                                } else {
                                    self.step_done();
                                }
                            }
                        }
                    },
                    _ => {},
                }
            },
            Phase::Waiting => {
                match report {
                    Report::Event { event: Event::Ended } => {
                        self.ended = Some(LayoutError::StreamEnded);
                        self.phase = Phase::Ended;
                    },
                    Report::Event { event } => {
                        let wait = self.wait.advance(&event);
                        match wait.ready() {
                            Some(id) => {
                                if self.at >= self.steps.len() {
                                    return ;
                                }
                                let swallows = match &self.steps[self.at] {
                                    Step::Placeholder { swallows, .. } => Some(swallows.clone()),
                                    _ => None,
                                };
                                match swallows {
                                    Some(ms) => {
                                        self.matchers.add(id, ms);
                                        self.step_done();
                                    },
                                    None => {},
                                }
                            },
                            None => {
                                self.wait = wait;
                            },
                        }
                    },
                    _ => {},
                }
            },
            Phase::Ended => {},
        }
    }

    /// Whether the replay is over.
    pub fn is_over(&self) -> (r: bool)
        ensures
            r == (self@.phase is Ended),
    {
        match self.phase {
            Phase::Ended => true,
            _ => false,
        }
    }

    /// The registry as the replay has filled it so far.
    pub fn into_matchers(self) -> (m: Matchers)
        ensures
            m@ == self@.registry,
    {
        self.matchers
    }
}

/// The matchers of the entries of a registry, in the order of the entries.
pub open spec fn registered_swallows(registry: Seq<EntryView>) -> Seq<Seq<MatcherView>> {
    registry.map_values(|e: EntryView| e.matchers)
}

impl ReplayView {
    /// The replay is in order: the registry holds one entry for each
    /// placeholder among the steps that are behind the replay, in the order
    /// of the steps and with the matchers of the step; the phase fits the
    /// step that the replay is at; and a replay that is over without a
    /// failure has all its steps behind it.
    pub open spec fn orderly(self) -> bool {
        &&& self.at <= self.steps.len()
        &&& registered_swallows(self.registry) == placeholder_swallows(self.steps, self.at)
        &&& match self.phase {
            PhaseView::Stepping => self.at < self.steps.len(),
            PhaseView::Sending { commands, .. } => {
                &&& self.at < self.steps.len()
                &&& self.steps[self.at as int] is Arrange
                &&& commands.len() > 0
            },
            PhaseView::Waiting { .. } => {
                &&& self.at < self.steps.len()
                &&& self.steps[self.at as int] is Placeholder
            },
            PhaseView::Ended { failure } => failure is None ==> self.at == self.steps.len(),
        }
    }
}

/// A replay begins in order.
pub proof fn lemma_replay_starts_orderly(steps: Seq<StepView>, failure: Option<LayoutError>)
    ensures
        ReplayView::start(steps, failure).orderly(),
{
    assert(registered_swallows(Seq::<EntryView>::empty()) =~= Seq::<Seq<MatcherView>>::empty());
}

/// A replay stays in order, whatever is reported to it: placeholders are
/// registered in the order of the plan, each once, and only when its
/// placeholder is there and has the focus.
pub proof fn lemma_replay_stays_orderly(s: ReplayView, report: ReportView)
    requires
        s.orderly(),
    ensures
        s.after(report).orderly(),
        s.after(report).at >= s.at,
        s.after(report).steps == s.steps,
        s.after(report).registry.len() >= s.registry.len(),
{
    let t = s.after(report);
    if t.at == s.at + 1 {
        match s.steps[s.at as int] {
            StepView::Placeholder { swallows, .. } => {
                assert(s.phase is Waiting);
                assert(registered_swallows(t.registry) =~= registered_swallows(s.registry).push(
                    swallows,
                ));
            },
            _ => {
                assert(t.registry == s.registry);
            },
        }
    }
}

/// A replay that is over without a failure has registered every placeholder
/// of its plan, in the order of the plan.
pub proof fn lemma_finished_replay_registered_all(s: ReplayView)
    requires
        s.orderly(),
        s.phase == (PhaseView::Ended { failure: None }),
    ensures
        registered_swallows(s.registry) == placeholder_swallows(s.steps, s.steps.len()),
{
}

} // verus!
