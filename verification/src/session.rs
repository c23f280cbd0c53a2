//! The audio-session state machine.
//!
//! The server's control protocol is asynchronous and callback-driven, yet a
//! volume change must behave as one synchronous call. This module holds the
//! decisions of that synchronous facade as an explicit machine: the caller
//! owns the connection and the event pump, feeds every observation in as an
//! [`Event`], and performs the [`Action`] the machine returns — pump once
//! more, submit a request, fetch descendant pids, or stop. Every transition
//! is fixed by [`step_spec`].
//!
//! One run of the machine serves one invocation: connect, enumerate the sink
//! inputs matching the target pid, submit one mutation per match (strictly
//! sequentially: a new request is submitted only after the previous one
//! resolved), and, when the target pid had no match and the fallback is
//! enabled, enumerate each of its descendants in turn — all of them,
//! whether or not an earlier one matched. A mutation that the server
//! resolves as failed is skipped and the run goes on with the next one:
//! by the time it is submitted the stream was already matched, so a failure
//! there is server-side and not worth abandoning the other streams for.

use vstd::prelude::*;

use crate::applier::{plan_mutation, spec_plan_mutation, Mutation, MutationView};
use crate::operations::VolumeOp;
use crate::sinkinput::{
    input_views, item_matches, lemma_find_cons, spec_find_sink_inputs, spec_item_matches,
    spec_to_sink_input, to_sink_input, SinkInput, SinkInputItem, SinkInputItemView, SinkInputView,
};

verus! {

/// The connection states the server reports while a connection attempt is
/// pumped.
#[derive(Clone, Copy, PartialEq, Eq, Structural, Debug)]
pub enum ContextState {
    Unconnected,
    Connecting,
    Ready,
    Failed,
    Terminated,
}

/// The states of one in-flight server request.
#[derive(Clone, Copy, PartialEq, Eq, Structural, Debug)]
pub enum OperationState {
    Running,
    Done,
    Failed,
}

/// Where the machine stands.
#[derive(Clone, Copy, PartialEq, Eq, Structural, Debug)]
pub enum Phase {
    /// Waiting for the connection to come up.
    Connecting,
    /// An enumeration request is out for the current target pid.
    Enumerating,
    /// Waiting for the caller to hand over the root pid's descendants.
    AwaitingChildren,
    /// A mutation request is out for one of the matched sink inputs.
    Applying,
    /// The run is over; the final action reports whether anything matched.
    Done,
    /// The connection failed or was terminated.
    Failed,
}

/// One observation handed to the machine after a pump iteration.
#[derive(Debug)]
pub enum Event {
    /// The connection state the server reports.
    Context(ContextState),
    /// The enumeration delivered one sink input.
    Item(SinkInputItem),
    /// The enumeration delivered its end-of-list marker.
    EndOfList,
    /// The state of the in-flight mutation request.
    OpState(OperationState),
    /// The descendants of the root pid, breadth-first, answering
    /// [`Action::FetchChildren`].
    Descendants(Vec<u32>),
}

/// Mathematical image of an [`Event`].
#[verifier::ext_equal]
pub enum EventView {
    Context(ContextState),
    Item(SinkInputItemView),
    EndOfList,
    OpState(OperationState),
    Descendants(Seq<u32>),
}

impl View for Event {
    type V = EventView;

    open spec fn view(&self) -> EventView {
        match self {
            Event::Context(cs) => EventView::Context(*cs),
            Event::Item(it) => EventView::Item(it@),
            Event::EndOfList => EventView::EndOfList,
            Event::OpState(os) => EventView::OpState(*os),
            Event::Descendants(ds) => EventView::Descendants(ds@),
        }
    }
}

/// What the caller must do next.
#[derive(Debug, PartialEq, Eq)]
pub enum Action {
    /// Iterate the server's main loop once and report back.
    Pump,
    /// Submit an enumeration of all sink inputs and deliver every one the
    /// server reports as an [`Event::Item`] — the machine does the matching
    /// — then [`Event::EndOfList`].
    Enumerate(u32),
    /// Submit the given mutation and poll it with [`Event::OpState`].
    Submit(Mutation),
    /// Hand back the root pid's descendants as [`Event::Descendants`].
    FetchChildren(u32),
    /// The run is over; the flag says whether at least one sink input was
    /// matched.
    Finish(bool),
    /// The connection failed; tear everything down.
    Fail,
}

/// Mathematical image of an [`Action`].
#[verifier::ext_equal]
pub enum ActionView {
    Pump,
    Enumerate(u32),
    Submit(MutationView),
    FetchChildren(u32),
    Finish(bool),
    Fail,
}

impl View for Action {
    type V = ActionView;

    open spec fn view(&self) -> ActionView {
        match self {
            Action::Pump => ActionView::Pump,
            Action::Enumerate(pid) => ActionView::Enumerate(*pid),
            Action::Submit(m) => ActionView::Submit(m@),
            Action::FetchChildren(pid) => ActionView::FetchChildren(*pid),
            Action::Finish(ok) => ActionView::Finish(*ok),
            Action::Fail => ActionView::Fail,
        }
    }
}

/// Mathematical image of a [`Session`].
#[verifier::ext_equal]
pub struct SessionView {
    pub op: VolumeOp,
    pub root: u32,
    pub traverse: bool,
    pub phase: Phase,
    pub target: u32,
    pub pending: Seq<u32>,
    pub matches: Seq<SinkInputView>,
    pub applied: int,
    pub any_matched: bool,
    pub fallback: bool,
}

/// One volume-change run against the server: the machine's state.
pub struct Session {
    op: VolumeOp,
    root: u32,
    traverse: bool,
    phase: Phase,
    target: u32,
    pending: Vec<u32>,
    matches: Vec<SinkInput>,
    applied: usize,
    any_matched: bool,
    fallback: bool,
}

impl View for Session {
    type V = SessionView;

    closed spec fn view(&self) -> SessionView {
        SessionView {
            op: self.op,
            root: self.root,
            traverse: self.traverse,
            phase: self.phase,
            target: self.target,
            pending: self.pending@,
            matches: input_views(self.matches@),
            applied: self.applied as int,
            any_matched: self.any_matched,
            fallback: self.fallback,
        }
    }
}

/// The machine's internal invariant: the applied count stays within the
/// match list, a mutation is only ever in flight while matches remain, and
/// every kept match carries the current target pid as its parsed tag.
pub open spec fn wf(s: SessionView) -> bool {
    &&& 0 <= s.applied <= s.matches.len()
    &&& (s.phase is Applying ==> s.applied < s.matches.len() && s.any_matched)
    &&& forall|i: int|
        0 <= i < s.matches.len() ==> (#[trigger] s.matches[i]).pid_tag == Option::<u32>::Some(
            s.target,
        )
}

/// The state a fresh machine starts in.
pub open spec fn spec_init(root: u32, op: VolumeOp, traverse_children: bool) -> SessionView {
    SessionView {
        op: op,
        root: root,
        traverse: traverse_children,
        phase: Phase::Connecting,
        target: root,
        pending: Seq::empty(),
        matches: Seq::empty(),
        applied: 0,
        any_matched: false,
        fallback: false,
    }
}

/// The connection died: the run is abandoned.
pub open spec fn sv_fail(pre: SessionView) -> (SessionView, ActionView) {
    (SessionView { phase: Phase::Failed, ..pre }, ActionView::Fail)
}

/// The run is over, successfully or not.
pub open spec fn sv_finish(pre: SessionView) -> (SessionView, ActionView) {
    (SessionView { phase: Phase::Done, ..pre }, ActionView::Finish(pre.any_matched))
}

/// A new enumeration starts against `pid`: the match list is cleared.
pub open spec fn sv_enumerate(pre: SessionView, pid: u32) -> (SessionView, ActionView) {
    (
        SessionView {
            phase: Phase::Enumerating,
            target: pid,
            matches: Seq::empty(),
            applied: 0,
            ..pre
        },
        ActionView::Enumerate(pid),
    )
}

/// The current target pid is dealt with: move to the next descendant, start
/// the fallback if the root pid just came up empty, or finish.
pub open spec fn sv_next_target(pre: SessionView) -> (SessionView, ActionView) {
    if pre.fallback {
        if pre.pending.len() > 0 {
            sv_enumerate(
                SessionView { pending: pre.pending.drop_first(), ..pre },
                pre.pending[0],
            )
        } else {
            sv_finish(pre)
        }
    } else {
        if !pre.any_matched && pre.traverse {
            (
                SessionView { phase: Phase::AwaitingChildren, fallback: true, ..pre },
                ActionView::FetchChildren(pre.root),
            )
        } else {
            sv_finish(pre)
        }
    }
}

/// The enumeration delivered one item: kept iff its tag names the target.
pub open spec fn sv_item(pre: SessionView, it: SinkInputItemView) -> (SessionView, ActionView) {
    if spec_item_matches(it, pre.target) {
        (
            SessionView { matches: pre.matches.push(spec_to_sink_input(it)), ..pre },
            ActionView::Pump,
        )
    } else {
        (pre, ActionView::Pump)
    }
}

/// The enumeration ended: mutate the first match, or move on.
pub open spec fn sv_end_of_list(pre: SessionView) -> (SessionView, ActionView) {
    if pre.matches.len() > 0 {
        (
            SessionView { phase: Phase::Applying, applied: 0, any_matched: true, ..pre },
            ActionView::Submit(spec_plan_mutation(pre.op, pre.matches[0])),
        )
    } else {
        sv_next_target(pre)
    }
}

/// The in-flight mutation resolved, done or failed — a failure is skipped:
/// mutate the next match, or move on.
pub open spec fn sv_op_resolved(pre: SessionView) -> (SessionView, ActionView) {
    let moved = SessionView { applied: pre.applied + 1, ..pre };
    if pre.applied + 1 < pre.matches.len() {
        (moved, ActionView::Submit(spec_plan_mutation(pre.op, pre.matches[pre.applied + 1])))
    } else {
        sv_next_target(moved)
    }
}

/// The machine's whole transition function: the state after an event and
/// the action the caller must perform. Events that cannot occur in the
/// current phase are ignored with another pump; a connection failure aborts
/// the run from any live phase.
pub open spec fn step_spec(pre: SessionView, e: EventView) -> (SessionView, ActionView) {
    match pre.phase {
        Phase::Connecting => match e {
            EventView::Context(cs) => if cs is Ready {
                sv_enumerate(pre, pre.root)
            } else if cs is Failed || cs is Terminated {
                sv_fail(pre)
            } else {
                (pre, ActionView::Pump)
            },
            _ => (pre, ActionView::Pump),
        },
        Phase::Enumerating => match e {
            EventView::Context(cs) => if cs is Failed || cs is Terminated {
                sv_fail(pre)
            } else {
                (pre, ActionView::Pump)
            },
            EventView::Item(it) => sv_item(pre, it),
            EventView::EndOfList => sv_end_of_list(pre),
            _ => (pre, ActionView::Pump),
        },
        Phase::AwaitingChildren => match e {
            EventView::Context(cs) => if cs is Failed || cs is Terminated {
                sv_fail(pre)
            } else {
                (pre, ActionView::Pump)
            },
            EventView::Descendants(ds) => if ds.len() > 0 {
                sv_enumerate(SessionView { pending: ds.drop_first(), ..pre }, ds[0])
            } else {
                sv_finish(pre)
            },
            _ => (pre, ActionView::Pump),
        },
        Phase::Applying => match e {
            EventView::Context(cs) => if cs is Failed || cs is Terminated {
                sv_fail(pre)
            } else {
                (pre, ActionView::Pump)
            },
            EventView::OpState(os) => if os is Running {
                (pre, ActionView::Pump)
            } else {
                sv_op_resolved(pre)
            },
            _ => (pre, ActionView::Pump),
        },
        Phase::Done => (pre, ActionView::Finish(pre.any_matched)),
        Phase::Failed => (pre, ActionView::Fail),
    }
}

/// The state after the machine has consumed a whole run of delivered items,
/// one event each.
pub open spec fn after_items(pre: SessionView, items: Seq<SinkInputItemView>) -> SessionView
    decreases items.len(),
{
    if items.len() == 0 {
        pre
    } else {
        after_items(step_spec(pre, EventView::Item(items[0])).0, items.drop_first())
    }
}

/// What one whole enumeration leaves behind: the machine holds its earlier
/// matches followed by precisely the delivered items whose tag parses to the
/// current target pid, and nothing else about it has changed.
pub open spec fn collects_exactly(pre: SessionView, items: Seq<SinkInputItemView>) -> bool {
    &&& after_items(pre, items).matches == pre.matches + spec_find_sink_inputs(items, pre.target)
    &&& after_items(pre, items) == SessionView { matches: after_items(pre, items).matches, ..pre }
}

/// An enumeration collects exactly the filter of what the server delivered.
pub proof fn lemma_enumeration_collects_matches(pre: SessionView, items: Seq<SinkInputItemView>)
    requires
        pre.phase is Enumerating,
    ensures
        collects_exactly(pre, items),
    decreases items.len(),
{
    if items.len() == 0 {
        assert(spec_find_sink_inputs(items, pre.target) =~= Seq::<SinkInputView>::empty());
        assert(pre.matches + Seq::<SinkInputView>::empty() =~= pre.matches);
        assert(pre =~= SessionView { matches: pre.matches, ..pre });
    } else {
        let x = items[0];
        let first = if spec_item_matches(x, pre.target) {
            seq![spec_to_sink_input(x)]
        } else {
            Seq::<SinkInputView>::empty()
        };
        let mid = step_spec(pre, EventView::Item(x)).0;
        assert(mid.matches =~= pre.matches + first);
        lemma_enumeration_collects_matches(mid, items.drop_first());
        lemma_find_cons(x, items.drop_first(), pre.target);
        assert(seq![x] + items.drop_first() =~= items);
        assert(after_items(pre, items).matches =~= pre.matches + spec_find_sink_inputs(
            items,
            pre.target,
        ));
        assert(after_items(pre, items) =~= SessionView {
            matches: after_items(pre, items).matches,
            ..pre
        });
    }
}

/// Every step keeps the machine well-formed.
pub proof fn lemma_step_preserves_wf(pre: SessionView, e: EventView)
    requires
        wf(pre),
    ensures
        wf(step_spec(pre, e).0),
{
}

/// A mutation is only ever submitted for a sink input that the current
/// enumeration matched: one whose parsed process-id tag equals the pid being
/// targeted. No request goes out for an unmatched or untagged stream.
pub proof fn lemma_mutation_only_for_matched(pre: SessionView, e: EventView)
    requires
        wf(pre),
    ensures
        step_spec(pre, e).1 matches ActionView::Submit(m) ==> exists|i: int|
            0 <= i < pre.matches.len() && (#[trigger] pre.matches[i]).pid_tag == Option::<
                u32,
            >::Some(pre.target) && m == spec_plan_mutation(pre.op, pre.matches[i]),
{
    let a = step_spec(pre, e).1;
    match a {
        ActionView::Submit(m) => {
            if pre.phase is Enumerating {
                assert(pre.matches.len() > 0);
                assert(m == spec_plan_mutation(pre.op, pre.matches[0]));
            } else {
                assert(pre.phase is Applying);
                assert(m == spec_plan_mutation(pre.op, pre.matches[pre.applied + 1]));
            }
        },
        _ => {},
    }
}

impl Session {
    /// A fresh machine for one run: operation `op` against `root`, with the
    /// descendant fallback switched by `traverse_children`.
    pub fn new(root: u32, op: VolumeOp, traverse_children: bool) -> (s: Session)
        ensures
            s@ == spec_init(root, op, traverse_children),
            wf(s@),
    {
        let s = Session {
            op,
            root,
            traverse: traverse_children,
            phase: Phase::Connecting,
            target: root,
            pending: Vec::new(),
            matches: Vec::new(),
            applied: 0,
            any_matched: false,
            fallback: false,
        };
        proof {
            assert(s@ =~= spec_init(root, op, traverse_children));
        }
        s
    }

    /// The phase the machine stands in.
    pub fn phase(&self) -> (p: Phase)
        ensures
            p == self@.phase,
    {
        self.phase
    }

    /// Whether any sink input has been matched so far in this run.
    pub fn any_matched(&self) -> (b: bool)
        ensures
            b == self@.any_matched,
    {
        self.any_matched
    }

    /// Starts an enumeration against `pid`.
    fn start_enumeration(&mut self, pid: u32) -> (a: Action)
        ensures
            (final (self)@, a@) == sv_enumerate(old(self)@, pid),
    {
        self.phase = Phase::Enumerating;
        self.target = pid;
        self.matches = Vec::new();
        self.applied = 0;
        let a = Action::Enumerate(pid);
        proof {
            assert(self@ =~= sv_enumerate(old(self)@, pid).0);
        }
        a
    }

    /// The mutation request for match number `k`.
    fn submit_for(&self, k: usize) -> (a: Action)
        requires
            k < self@.matches.len(),
        ensures
            a@ == ActionView::Submit(spec_plan_mutation(self@.op, self@.matches[k as int])),
    {
        let m = plan_mutation(&self.op, &self.matches[k]);
        Action::Submit(m)
    }

    /// Moves past the current target pid.
    fn next_target(&mut self) -> (a: Action)
        ensures
            (final (self)@, a@) == sv_next_target(old(self)@),
    {
        if self.fallback {
            if self.pending.len() > 0 {
                let ghost prev = self.pending@;
                let pid = self.pending.remove(0);
                proof {
                    assert(self.pending@ =~= prev.drop_first());
                    assert(pid == prev[0]);
                }
                let a = self.start_enumeration(pid);
                proof {
                    assert(self@ =~= sv_next_target(old(self)@).0);
                    assert(a@ == sv_next_target(old(self)@).1);
                }
                a
            } else {
                self.phase = Phase::Done;
                let a = Action::Finish(self.any_matched);
                proof {
                    assert(self@ =~= sv_next_target(old(self)@).0);
                }
                a
            }
        } else {
            if !self.any_matched && self.traverse {
                self.phase = Phase::AwaitingChildren;
                self.fallback = true;
                let a = Action::FetchChildren(self.root);
                proof {
                    assert(self@ =~= sv_next_target(old(self)@).0);
                }
                a
            } else {
                self.phase = Phase::Done;
                let a = Action::Finish(self.any_matched);
                proof {
                    assert(self@ =~= sv_next_target(old(self)@).0);
                }
                a
            }
        }
    }

    /// Feeds one observation in and returns what to do next.
    pub fn step(&mut self, e: Event) -> (a: Action)
        requires
            wf(old(self)@),
        ensures
            final (self)@ == step_spec(old(self)@, e@).0,
            a@ == step_spec(old(self)@, e@).1,
            wf(final (self)@),
    {
        proof {
            lemma_step_preserves_wf(old(self)@, e@);
        }
        match self.phase {
            Phase::Connecting => match e {
                Event::Context(cs) => match cs {
                    ContextState::Ready => {
                        let root = self.root;
                        self.start_enumeration(root)
                    },
                    ContextState::Failed | ContextState::Terminated => {
                        self.phase = Phase::Failed;
                        Action::Fail
                    },
                    _ => Action::Pump,
                },
                _ => Action::Pump,
            },
            Phase::Enumerating => match e {
                Event::Context(cs) => match cs {
                    ContextState::Failed | ContextState::Terminated => {
                        self.phase = Phase::Failed;
                        Action::Fail
                    },
                    _ => Action::Pump,
                },
                Event::Item(it) => {
                    let ghost pre_matches = self.matches@;
                    if item_matches(&it, self.target) {
                        let si = to_sink_input(it);
                        proof {
                            assert(input_views(pre_matches.push(si)) =~= input_views(
                                pre_matches,
                            ).push(si@));
                        }
                        self.matches.push(si);
                        proof {
                            assert(self@ =~= sv_item(old(self)@, e@->Item_0).0);
                        }
                    }
                    Action::Pump
                },
                Event::EndOfList => {
                    if self.matches.len() > 0 {
                        self.phase = Phase::Applying;
                        self.applied = 0;
                        self.any_matched = true;
                        proof {
                            assert(self@ =~= sv_end_of_list(old(self)@).0);
                        }
                        self.submit_for(0)
                    } else {
                        self.next_target()
                    }
                },
                _ => Action::Pump,
            },
            Phase::AwaitingChildren => match e {
                Event::Context(cs) => match cs {
                    ContextState::Failed | ContextState::Terminated => {
                        self.phase = Phase::Failed;
                        Action::Fail
                    },
                    _ => Action::Pump,
                },
                Event::Descendants(ds) => {
                    if ds.len() > 0 {
                        let mut rest = ds;
                        let ghost all = rest@;
                        let pid = rest.remove(0);
                        proof {
                            assert(rest@ =~= all.drop_first());
                            assert(pid == all[0]);
                        }
                        self.pending = rest;
                        self.start_enumeration(pid)
                    } else {
                        self.phase = Phase::Done;
                        Action::Finish(self.any_matched)
                    }
                },
                _ => Action::Pump,
            },
            Phase::Applying => match e {
                Event::Context(cs) => match cs {
                    ContextState::Failed | ContextState::Terminated => {
                        self.phase = Phase::Failed;
                        Action::Fail
                    },
                    _ => Action::Pump,
                },
                Event::OpState(os) => match os {
                    OperationState::Running => Action::Pump,
                    _ => {
                        let n = self.matches.len();
                        proof {
                            assert(input_views(self.matches@).len() == self.matches@.len());
                            assert(self.applied < n);
                        }
                        self.applied = self.applied + 1;
                        if self.applied < n {
                            let k = self.applied;
                            proof {
                                assert(self@ =~= sv_op_resolved(old(self)@).0);
                            }
                            self.submit_for(k)
                        } else {
                            self.next_target()
                        }
                    },
                },
                _ => Action::Pump,
            },
            Phase::Done => Action::Finish(self.any_matched),
            Phase::Failed => Action::Fail,
        }
    }
}

} // verus!
