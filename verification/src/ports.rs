//! Which source port feeds which channel: reading the mappings, naming the
//! input ports, and deciding how the connection set-up goes on after each
//! answer of the audio server.

use crate::aggregator::{feed_fits, BlockPeak};
use crate::text::{decimal, decimal_text};
use vstd::prelude::*;

verus! {

/// One mapping as given: the name of a source port, with a trailing `?`
/// where the mapping is optional.
#[derive(Debug)]
pub struct PortMapping {
    /// The channel that the source feeds, counted from 1 in the order of
    /// the mappings.
    pub channel: usize,
    /// The name of the source port.
    pub source: String,
    /// Whether the meter goes on without this mapping where it cannot be
    /// made.
    pub optional: bool,
}

/// Whether the argument `arg` marks its mapping as optional.
pub open spec fn is_optional(arg: Seq<char>) -> bool {
    arg.len() > 0 && arg.last() == '?'
}

/// The name of the source port in the argument `arg`: all of it but the
/// mark.
pub open spec fn source_name(arg: Seq<char>) -> Seq<char> {
    if is_optional(arg) {
        arg.drop_last()
    } else {
        arg
    }
}

/// The name of the input port that the meter registers for `channel`.
pub open spec fn input_name(channel: usize) -> Seq<char> {
    seq!['i', 'n', '_'] + decimal((channel + 1) as nat)
}

impl PortMapping {
    /// This mapping is what the argument `arg` at place `position` says.
    pub open spec fn reads(&self, position: int, arg: Seq<char>) -> bool {
        &&& self.channel == position + 1
        &&& self.source@ == source_name(arg)
        &&& self.optional == is_optional(arg)
    }
}

/// Reads the mapping that stands at place `position` among the arguments.
pub fn parse_mapping(position: usize, arg: &str) -> (mapping: PortMapping)
    requires
        position < usize::MAX,
    ensures
        mapping.reads(position as int, arg@),
{
    let len = arg.unicode_len();
    let optional = len > 0 && arg.get_char(len - 1) == '?';
    let source = if optional {
        String::from_str(arg.substring_char(0, len - 1))
    } else {
        String::from_str(arg)
    };
    assert(arg@.drop_last() =~= arg@.subrange(0, len - 1));
    PortMapping { channel: position + 1, source, optional }
}

/// Reads all mappings, in the order of the arguments.
pub fn parse_mappings(args: &Vec<String>) -> (mappings: Vec<PortMapping>)
    ensures
        mappings@.len() == args@.len(),
        forall|i: int| 0 <= i < args@.len() ==> (#[trigger] mappings@[i]).reads(i, args@[i]@),
{
    let mut mappings: Vec<PortMapping> = Vec::with_capacity(args.len());
    let mut i: usize = 0;
    while i < args.len()
        invariant
            i <= args@.len(),
            mappings@.len() == i,
            forall|k: int| 0 <= k < i ==> (#[trigger] mappings@[k]).reads(k, args@[k]@),
        decreases args@.len() - i,
    {
        mappings.push(parse_mapping(i, args[i].as_str()));
        i += 1;
    }
    mappings
}

/// The name of the input port that the meter registers for `channel`.
pub fn input_port_name(channel: usize) -> (name: String)
    ensures
        name@ == input_name(channel),
{
    let mut name = String::from_str("in_");
    let number = decimal_text(channel as u128 + 1);
    name.append(number.as_str());
    proof {
        reveal_strlit("in_");
        assert("in_"@ =~= seq!['i', 'n', '_']);
    }
    name
}

/// What the audio server answered to the action that was pending.
#[derive(Clone, Copy, Debug, PartialEq, Eq, Structural)]
pub enum Outcome {
    /// There is no port of the source's name.
    SourceMissing,
    /// There is one, and it is an output port or not.
    SourceFound { is_output: bool },
    /// The input port could not be registered.
    RegisterFailed,
    /// The input port is registered, and is of the source's type or not.
    Registered { same_type: bool },
    /// The source could not be connected to the input port.
    ConnectFailed,
    /// The source is connected to the input port.
    Connected,
}

/// Why the set-up cannot go on.
#[derive(Clone, Copy, Debug, PartialEq, Eq, Structural)]
pub enum SetupError {
    /// A mapping that is not optional names a port that does not exist.
    NoSuchPort,
    /// A mapping that is not optional names a port that is no output port.
    NotAnOutput,
    /// The input port could not be registered.
    RegisterFailed,
    /// A mapping that is not optional names a port of another type than
    /// the input port's.
    WrongType,
    /// A mapping that is not optional could not be connected.
    BadConnection,
}

/// What the caller does next. `index` counts the mappings from 0.
#[derive(Clone, Copy, Debug, PartialEq, Eq, Structural)]
pub enum Action {
    /// Look up the source port of the mapping.
    LookUp { index: usize },
    /// Register the mapping's input port and compare its type with the
    /// source's.
    Register { index: usize },
    /// Connect the source to the input port.
    Connect { index: usize },
    /// All mappings are dealt with.
    Done,
    /// Give up: the mapping failed with `error`.
    Fail { index: usize, error: SetupError },
}

/// The set-up as contracts see it.
pub struct PlanState {
    /// For each mapping, whether it is optional.
    pub optional: Seq<bool>,
    /// What the caller is to do now.
    pub pending: Action,
    /// The mappings whose input port is in use, in the order in which the
    /// ports were registered.
    pub kept: Seq<usize>,
}

/// The action that opens the work on the mapping `index` of `count`, or ends
/// the set-up after the last.
pub open spec fn start_of(index: int, count: int) -> Action {
    if 0 <= index < count {
        Action::LookUp { index: index as usize }
    } else {
        Action::Done
    }
}

/// Whether `outcome` is an answer to what `action` asks.
pub open spec fn answers(action: Action, outcome: Outcome) -> bool {
    match (action, outcome) {
        (Action::LookUp { .. }, Outcome::SourceMissing) => true,
        (Action::LookUp { .. }, Outcome::SourceFound { .. }) => true,
        (Action::Register { .. }, Outcome::RegisterFailed) => true,
        (Action::Register { .. }, Outcome::Registered { .. }) => true,
        (Action::Connect { .. }, Outcome::Connected) => true,
        (Action::Connect { .. }, Outcome::ConnectFailed) => true,
        _ => false,
    }
}

/// Whether `outcome` says that the mapping cannot be made as given: its
/// source is missing, is no output port, is of another type, or cannot be
/// connected.
pub open spec fn mapping_failed(outcome: Outcome) -> bool {
    match outcome {
        Outcome::SourceMissing => true,
        Outcome::SourceFound { is_output } => !is_output,
        Outcome::Registered { same_type } => !same_type,
        Outcome::ConnectFailed => true,
        _ => false,
    }
}

/// The set-up after the answer `outcome`.
///
/// A mapping whose source is missing, is no output port, is of another type
/// than the input port, or cannot be connected ends the set-up, unless the
/// mapping is optional: then the set-up goes on with the next mapping and
/// the channel stays unconnected. An input port that was registered by then
/// stays in use, as after a connection that succeeds. An input port that
/// cannot be registered ends the set-up in any case. An answer to something
/// that was not asked changes nothing.
pub open spec fn after_outcome(state: PlanState, outcome: Outcome) -> PlanState {
    let count = state.optional.len() as int;
    match (state.pending, outcome) {
        (Action::LookUp { index }, Outcome::SourceMissing) => if state.optional[index as int] {
            PlanState { pending: start_of(index + 1, count), ..state }
        } else {
            PlanState { pending: Action::Fail { index, error: SetupError::NoSuchPort }, ..state }
        },
        (Action::LookUp { index }, Outcome::SourceFound { is_output }) => if is_output {
            PlanState { pending: Action::Register { index }, ..state }
        } else if state.optional[index as int] {
            PlanState { pending: start_of(index + 1, count), ..state }
        } else {
            PlanState { pending: Action::Fail { index, error: SetupError::NotAnOutput }, ..state }
        },
        (Action::Register { index }, Outcome::RegisterFailed) => PlanState {
            pending: Action::Fail { index, error: SetupError::RegisterFailed },
            ..state
        },
        (Action::Register { index }, Outcome::Registered { same_type }) => if same_type {
            PlanState { pending: Action::Connect { index }, ..state }
        } else if state.optional[index as int] {
            PlanState {
                pending: start_of(index + 1, count),
                kept: state.kept.push(index),
                ..state
            }
        } else {
            PlanState { pending: Action::Fail { index, error: SetupError::WrongType }, ..state }
        },
        (Action::Connect { index }, Outcome::Connected) => PlanState {
            pending: start_of(index + 1, count),
            kept: state.kept.push(index),
            ..state
        },
        (Action::Connect { index }, Outcome::ConnectFailed) => if state.optional[index as int] {
            PlanState {
                pending: start_of(index + 1, count),
                kept: state.kept.push(index),
                ..state
            }
        } else {
            PlanState {
                pending: Action::Fail { index, error: SetupError::BadConnection },
                ..state
            }
        },
        _ => state,
    }
}

/// The mapping that `action` works on, if it works on one.
pub open spec fn subject(action: Action) -> Option<usize> {
    match action {
        Action::LookUp { index } => Some(index),
        Action::Register { index } => Some(index),
        Action::Connect { index } => Some(index),
        Action::Fail { index, .. } => Some(index),
        Action::Done => None,
    }
}

/// The mappings that the set-up has not come to yet begin at this place:
/// the place of the mapping in work, or the number of mappings when all is
/// done.
pub open spec fn frontier(state: PlanState) -> int {
    match subject(state.pending) {
        Some(index) => index as int,
        None => state.optional.len() as int,
    }
}

/// The state is one that a set-up can be in: the mappings can be counted,
/// the pending action works on one of them, and the mappings whose input
/// port is in use come in rising order, all of them before the mapping in
/// work.
pub open spec fn plan_wf(state: PlanState) -> bool {
    &&& state.optional.len() <= usize::MAX
    &&& subject(state.pending) matches Some(index) ==> index < state.optional.len()
    &&& forall|k: int| 0 <= k < state.kept.len() ==> (#[trigger] state.kept[k]) < frontier(state)
    &&& forall|j: int, k: int|
        0 <= j < k < state.kept.len() ==> (#[trigger] state.kept[j]) < (#[trigger] state.kept[k])
}

/// The connection set-up: the mappings, the action that is pending, and
/// the mappings whose input port is in use so far.
///
/// The meter has one channel per mapping, connected or not: the levels of
/// the mapping at place `i` stand at index `i`, and the channel of a mapping
/// that was passed over stays silent.
pub struct ConnectPlan {
    mappings: Vec<PortMapping>,
    pending: Action,
    kept: Vec<usize>,
}

impl View for ConnectPlan {
    type V = PlanState;

    closed spec fn view(&self) -> PlanState {
        PlanState {
            optional: Seq::new(self.mappings@.len(), |i: int| self.mappings@[i].optional),
            pending: self.pending,
            kept: self.kept@,
        }
    }
}

impl ConnectPlan {
    /// The plan is in a state that a set-up can be in.
    pub open spec fn wf(&self) -> bool {
        plan_wf(self@)
    }

    /// The mappings of the plan.
    pub closed spec fn mappings(&self) -> Seq<PortMapping> {
        self.mappings@
    }

    /// The set-up for `mappings`, before anything was asked: the first
    /// mapping is to be looked up, or all is done where there is none.
    pub fn new(mappings: Vec<PortMapping>) -> (plan: Self)
        ensures
            plan.wf(),
            plan.mappings() == mappings@,
            plan@ == (PlanState {
                optional: Seq::new(mappings@.len(), |i: int| mappings@[i].optional),
                pending: start_of(0, mappings@.len() as int),
                kept: Seq::empty(),
            }),
    {
        let pending = if mappings.len() > 0 {
            Action::LookUp { index: 0 }
        } else {
            Action::Done
        };
        ConnectPlan { mappings, pending, kept: Vec::new() }
    }

    /// The action that is pending.
    pub fn pending(&self) -> (action: Action)
        ensures
            action == self@.pending,
    {
        self.pending
    }

    /// The mapping at `index`.
    pub fn mapping(&self, index: usize) -> (mapping: &PortMapping)
        requires
            index < self.mappings().len(),
        ensures
            *mapping == self.mappings()[index as int],
    {
        &self.mappings[index]
    }

    /// The number of mappings.
    pub fn mapping_count(&self) -> (count: usize)
        ensures
            count == self.mappings().len(),
            count == self@.optional.len(),
    {
        self.mappings.len()
    }

    /// The number of channels of the meter: one per mapping, connected or
    /// not.
    pub fn channel_count(&self) -> (count: usize)
        ensures
            count == self.mappings().len(),
            count == self@.optional.len(),
    {
        self.mappings.len()
    }

    /// The mappings whose input port is in use, in the order in which the
    /// ports were registered.
    pub fn kept(&self) -> (kept: &Vec<usize>)
        ensures
            kept@ == self@.kept,
    {
        &self.kept
    }

    /// The index of the level that the input port kept at place `k` feeds:
    /// the place of its mapping, which is a channel of the meter.
    pub fn level_index(&self, k: usize) -> (index: usize)
        requires
            self.wf(),
            k < self@.kept.len(),
        ensures
            index == self@.kept[k as int],
            index < self@.optional.len(),
    {
        self.kept[k]
    }

    /// One report for every input port in use, in the order of the ports,
    /// each for the channel that its port feeds and with no peak yet. They
    /// fit an aggregator of [`ConnectPlan::channel_count`] channels.
    pub fn silent_reports(&self) -> (reports: Vec<BlockPeak>)
        requires
            self.wf(),
        ensures
            reports@.len() == self@.kept.len(),
            forall|k: int|
                0 <= k < reports@.len() ==> (#[trigger] reports@[k]) == (BlockPeak {
                    channel: self@.kept[k],
                    peak: 0,
                }),
            feed_fits(reports@, self@.optional.len()),
    {
        let mut reports: Vec<BlockPeak> = Vec::with_capacity(self.kept.len());
        let mut k: usize = 0;
        while k < self.kept.len()
            invariant
                self.wf(),
                k <= self.kept@.len(),
                reports@.len() == k,
                forall|j: int|
                    0 <= j < k ==> (#[trigger] reports@[j]) == (BlockPeak {
                        channel: self.kept@[j],
                        peak: 0,
                    }),
            decreases self.kept@.len() - k,
        {
            reports.push(BlockPeak { channel: self.level_index(k), peak: 0 });
            k += 1;
        }
        reports
    }

    /// The action that opens the work on the mapping after `index`.
    fn start_after(&self, index: usize) -> (action: Action)
        requires
            index < self.mappings@.len(),
        ensures
            action == start_of(index + 1, self.mappings@.len() as int),
    {
        if index < self.mappings.len() - 1 {
            Action::LookUp { index: index + 1 }
        } else {
            Action::Done
        }
    }

    /// Takes in the server's answer to the pending action and says what to
    /// do next.
    pub fn advance(&mut self, outcome: Outcome) -> (action: Action)
        requires
            old(self).wf(),
        ensures
            final(self).wf(),
            final(self).mappings() == old(self).mappings(),
            final(self)@ == after_outcome(old(self)@, outcome),
            action == final(self)@.pending,
    {
        proof {
            lemma_outcome_keeps_wf(self@, outcome);
        }
        match (self.pending, outcome) {
            (Action::LookUp { index }, Outcome::SourceMissing) => {
                if self.mappings[index].optional {
                    self.pending = self.start_after(index);
                } else {
                    self.pending = Action::Fail { index, error: SetupError::NoSuchPort };
                }
            },
            (Action::LookUp { index }, Outcome::SourceFound { is_output }) => {
                if is_output {
                    self.pending = Action::Register { index };
                } else if self.mappings[index].optional {
                    self.pending = self.start_after(index);
                } else {
                    self.pending = Action::Fail { index, error: SetupError::NotAnOutput };
                }
            },
            (Action::Register { index }, Outcome::RegisterFailed) => {
                self.pending = Action::Fail { index, error: SetupError::RegisterFailed };
            },
            (Action::Register { index }, Outcome::Registered { same_type }) => {
                if same_type {
                    self.pending = Action::Connect { index };
                } else if self.mappings[index].optional {
                    self.kept.push(index);
                    self.pending = self.start_after(index);
                } else {
                    self.pending = Action::Fail { index, error: SetupError::WrongType };
                }
            },
            (Action::Connect { index }, Outcome::Connected) => {
                self.kept.push(index);
                self.pending = self.start_after(index);
            },
            (Action::Connect { index }, Outcome::ConnectFailed) => {
                if self.mappings[index].optional {
                    self.kept.push(index);
                    self.pending = self.start_after(index);
                } else {
                    self.pending = Action::Fail { index, error: SetupError::BadConnection };
                }
            },
            _ => {},
        }
        self.pending
    }
}

/// An answer leaves a set-up in a state that a set-up can be in, and never
/// takes an input port out of use.
pub proof fn lemma_outcome_keeps_wf(state: PlanState, outcome: Outcome)
    requires
        plan_wf(state),
    ensures
        plan_wf(after_outcome(state, outcome)),
        after_outcome(state, outcome).optional == state.optional,
        after_outcome(state, outcome).kept == state.kept || (subject(state.pending) matches Some(
            index,
        ) && after_outcome(state, outcome).kept == state.kept.push(index)),
{
    let after = after_outcome(state, outcome);
    if after.kept != state.kept {
        let index = subject(state.pending)->0;
        assert(after.kept == state.kept.push(index));
        assert(frontier(after) >= index + 1);
        assert forall|k: int| 0 <= k < after.kept.len() implies (#[trigger] after.kept[k])
            < frontier(after) by {
            if k < state.kept.len() {
                assert(after.kept[k] == state.kept[k]);
            }
        }
        assert forall|j: int, k: int| 0 <= j < k < after.kept.len() implies (
        #[trigger] after.kept[j]) < (#[trigger] after.kept[k]) by {
            assert(after.kept[j] == state.kept[j]);
            if k < state.kept.len() {
                assert(after.kept[k] == state.kept[k]);
            }
        }
    } else {
        assert(frontier(after) >= frontier(state));
    }
}

/// The set-up is fatal only through a mapping that is not optional, or
/// through an input port that cannot be registered. While the set-up is
/// under way, an answer ends it in failure exactly when it says that the
/// input port could not be registered, or that a mapping that is not
/// optional cannot be made as given. Where an optional mapping cannot be
/// made, the set-up goes on with the mapping after it.
pub proof fn lemma_fatal_only_without_mark(state: PlanState, outcome: Outcome)
    requires
        plan_wf(state),
        !(state.pending is Fail),
        !(state.pending is Done),
        answers(state.pending, outcome),
    ensures
        ({
            let index = subject(state.pending)->0;
            let after = after_outcome(state, outcome);
            &&& after.pending is Fail <==> outcome is RegisterFailed || (mapping_failed(outcome)
                && !state.optional[index as int])
            &&& after.pending is Fail ==> after.pending->Fail_index == index && after.kept
                == state.kept
            &&& mapping_failed(outcome) && state.optional[index as int] ==> after.pending
                == start_of(index + 1, state.optional.len() as int)
        }),
{
}

/// After a failure, and after the last mapping, no answer changes anything.
pub proof fn lemma_the_end_is_final(state: PlanState, outcome: Outcome)
    requires
        state.pending is Fail || state.pending is Done,
    ensures
        after_outcome(state, outcome) == state,
{
}

} // verus!
