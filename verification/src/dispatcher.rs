//! Central dispatcher for citizen lifecycle management and message routing.
//!
//! The dispatcher is the hub between panels (shared state) and backend
//! threads. Panels read `CitizenState` directly; threads receive the queued
//! `CitizenMessage`s.

use crate::message::{CitizenId, CitizenMessage};
use crate::state::CitizenState;
use vstd::prelude::*;

verus! {

// ---------------------------------------------------------------------------
// The registry and activation, as mathematics
// ---------------------------------------------------------------------------

/// No identifier occurs twice (identifiers compare by their text).
pub open spec fn distinct_ids(ids: Seq<CitizenId>) -> bool {
    forall|i: int, j: int| 0 <= i < ids.len() && 0 <= j < ids.len() && i != j ==> ids[i]@ != ids[j]@
}

/// `id` names one of the registered citizens.
pub open spec fn is_registered(ids: Seq<CitizenId>, id: Seq<char>) -> bool {
    exists|i: int| 0 <= i < ids.len() && ids[i]@ == id
}

/// The position of `id` among the registered citizens (meaningful when it is registered).
pub open spec fn position_of(ids: Seq<CitizenId>, id: Seq<char>) -> int {
    choose|i: int| 0 <= i < ids.len() && ids[i]@ == id
}

/// The state registered under `id`, if any.
pub open spec fn lookup(ids: Seq<CitizenId>, states: Seq<CitizenState>, id: Seq<char>) -> Option<CitizenState> {
    if is_registered(ids, id) {
        Some(states[position_of(ids, id)])
    } else {
        None
    }
}

/// The identifiers after registering `id`: a new one is appended, a known one stays put.
pub open spec fn ids_after_register(ids: Seq<CitizenId>, id: CitizenId) -> Seq<CitizenId> {
    if is_registered(ids, id@) {
        ids
    } else {
        ids.push(id)
    }
}

/// The states after registering `state` under `id`: it replaces the state of a
/// known identifier, or is appended for a new one.
pub open spec fn states_after_register(
    ids: Seq<CitizenId>,
    states: Seq<CitizenState>,
    id: CitizenId,
    state: CitizenState,
) -> Seq<CitizenState> {
    if is_registered(ids, id@) {
        states.update(position_of(ids, id@), state)
    } else {
        states.push(state)
    }
}

/// What activation does to one citizen's `active` flag.
#[derive(Debug, Clone, Copy, PartialEq, Eq, Structural)]
pub enum ActivationStep {
    /// The citizen is the one activated: its flag is set and `Activated` is emitted.
    Activate,
    /// The citizen was active and is not the one activated: its flag is
    /// cleared and `Deactivated` is emitted.
    Deactivate,
    /// The citizen was inactive and is not the one activated: nothing happens.
    Keep,
}

/// The step for citizen `cid` when `target` is activated and `cid`'s flag read `was_active`.
pub open spec fn activation_step(cid: CitizenId, target: CitizenId, was_active: bool) -> ActivationStep {
    if cid@ == target@ {
        ActivationStep::Activate
    } else if was_active {
        ActivationStep::Deactivate
    } else {
        ActivationStep::Keep
    }
}

/// The value that `step` writes to the `active` flag, if it writes one.
pub open spec fn written_flag(step: ActivationStep) -> Option<bool> {
    match step {
        ActivationStep::Activate => Some(true),
        ActivationStep::Deactivate => Some(false),
        ActivationStep::Keep => None,
    }
}

/// A flag that read `was_active` once `written` (if any) has been stored in it.
pub open spec fn flag_after_write(written: Option<bool>, was_active: bool) -> bool {
    match written {
        Some(v) => v,
        None => was_active,
    }
}

/// The `active` flag once `step` has been applied to a flag that read `was_active`.
pub open spec fn flag_after(step: ActivationStep, was_active: bool) -> bool {
    flag_after_write(written_flag(step), was_active)
}

/// The message that `step` emits for `cid`, if any.
pub open spec fn step_messages(cid: CitizenId, step: ActivationStep) -> Seq<CitizenMessage> {
    match step {
        ActivationStep::Activate => seq![CitizenMessage::Activated { id: cid }],
        ActivationStep::Deactivate => seq![CitizenMessage::Deactivated { id: cid }],
        ActivationStep::Keep => seq![],
    }
}

/// The messages that activating `target` emits, in registration order, when
/// the `active` flag of the citizen at position `i` read `before[i]`.
pub open spec fn activation_messages(
    ids: Seq<CitizenId>,
    target: CitizenId,
    before: Seq<bool>,
) -> Seq<CitizenMessage>
    decreases ids.len(),
{
    if ids.len() == 0 {
        seq![]
    } else {
        let n = ids.len() - 1;
        activation_messages(ids.take(n), target, before) + step_messages(
            ids[n],
            activation_step(ids[n], target, before[n]),
        )
    }
}

/// The values that activating `target` writes to the `active` flags, position
/// by position (`None` where it writes nothing), when they read `before`.
pub open spec fn activation_writes(
    ids: Seq<CitizenId>,
    target: CitizenId,
    before: Seq<bool>,
) -> Seq<Option<bool>> {
    Seq::new(ids.len(), |i: int| written_flag(activation_step(ids[i], target, before[i])))
}

/// The number of set flags.
pub open spec fn count_set(flags: Seq<bool>) -> nat
    decreases flags.len(),
{
    if flags.len() == 0 {
        0
    } else {
        count_set(flags.drop_last()) + if flags.last() {
            1nat
        } else {
            0nat
        }
    }
}

/// The `active` flags after activating `target`, when they read `before`.
pub open spec fn flags_after_activation(
    ids: Seq<CitizenId>,
    target: CitizenId,
    before: Seq<bool>,
) -> Seq<bool> {
    Seq::new(ids.len(), |i: int| flag_after(activation_step(ids[i], target, before[i]), before[i]))
}

/// `activation_messages` reads `before` only at the positions of `ids`.
pub proof fn lemma_activation_messages_prefix(
    ids: Seq<CitizenId>,
    target: CitizenId,
    b1: Seq<bool>,
    b2: Seq<bool>,
)
    requires
        ids.len() <= b1.len(),
        ids.len() <= b2.len(),
        forall|i: int| 0 <= i < ids.len() ==> b1[i] == b2[i],
    ensures
        activation_messages(ids, target, b1) == activation_messages(ids, target, b2),
    decreases ids.len(),
{
    if ids.len() > 0 {
        lemma_activation_messages_prefix(ids.take(ids.len() - 1), target, b1, b2);
    }
}

impl ActivationStep {
    /// Decides what activating `target` does to citizen `cid`, whose `active`
    /// flag read `was_active`.
    pub fn decide(cid: &CitizenId, target: &CitizenId, was_active: bool) -> (step: ActivationStep)
        ensures
            step == activation_step(*cid, *target, was_active),
    {
        if cid.0 == target.0 {
            ActivationStep::Activate
        } else if was_active {
            ActivationStep::Deactivate
        } else {
            ActivationStep::Keep
        }
    }

    /// The value this step writes to the `active` flag, if it writes one.
    pub fn written_flag(&self) -> (result: Option<bool>)
        ensures
            result == written_flag(*self),
    {
        match self {
            ActivationStep::Activate => Some(true),
            ActivationStep::Deactivate => Some(false),
            ActivationStep::Keep => None,
        }
    }
}

// ---------------------------------------------------------------------------
// The dispatcher
// ---------------------------------------------------------------------------

/// Central dispatcher that manages citizen state and routes messages.
///
/// - **Panel side**: panels read `CitizenState` directly (shared, reactive).
/// - **Backend side**: threads receive `CitizenMessage` signals and post
///   responses back via `send()`.
///
/// `activate()` is the core operation: a set/reset flip-flop that sets one
/// citizen active, deactivates the rest, and emits messages for both sides.
/// The dispatcher decides; reading and writing the shared `active` cells is
/// left to the caller, who passes in what the flags read and stores what
/// `activate` returns. Citizens are kept in registration order; no identifier
/// occurs twice.
pub struct Dispatcher {
    citizens: Vec<(CitizenId, CitizenState)>,
    message_queue: Vec<CitizenMessage>,
}

impl Dispatcher {
    /// The registered identifiers, in registration order.
    pub closed spec fn ids(&self) -> Seq<CitizenId> {
        self.citizens@.map_values(|e: (CitizenId, CitizenState)| e.0)
    }

    /// The registered state handles, position for position with `ids()`.
    pub closed spec fn states(&self) -> Seq<CitizenState> {
        self.citizens@.map_values(|e: (CitizenId, CitizenState)| e.1)
    }

    /// The pending messages, oldest first.
    pub closed spec fn messages(&self) -> Seq<CitizenMessage> {
        self.message_queue@
    }

    /// Every registered identifier has its state: `ids()` and `states()`
    /// run position for position.
    pub proof fn lemma_ids_match_states(&self)
        ensures
            self.ids().len() == self.states().len(),
    {
    }

    #[verifier::type_invariant]
    closed spec fn no_duplicates(&self) -> bool {
        distinct_ids(self.ids())
    }

    /// An empty dispatcher.
    pub fn new() -> (result: Self)
        ensures
            result.ids() == Seq::<CitizenId>::empty(),
            result.states() == Seq::<CitizenState>::empty(),
            result.messages() == Seq::<CitizenMessage>::empty(),
    {
        let result = Dispatcher {
            citizens: Vec::new(),
            message_queue: Vec::new(),
        };
        assert(result.ids() =~= Seq::<CitizenId>::empty());
        assert(result.states() =~= Seq::<CitizenState>::empty());
        result
    }

    /// The position of `id` in the registry, if it is registered.
    fn find(&self, id: &CitizenId) -> (result: Option<usize>)
        ensures
            match result {
                Some(i) => i < self.ids().len() && self.ids()[i as int]@ == id@,
                None => !is_registered(self.ids(), id@),
            },
    {
        let mut i: usize = 0;
        while i < self.citizens.len()
            invariant
                i <= self.citizens.len(),
                forall|j: int| 0 <= j < i ==> self.ids()[j]@ != id@,
            decreases self.citizens.len() - i,
        {
            if self.citizens[i].0.0 == id.0 {
                return Some(i);
            }
            i = i + 1;
        }
        None
    }

    /// Registers a citizen under `id` and returns its state handle.
    ///
    /// A fresh `CitizenState` is created; the dispatcher keeps a clone of the
    /// returned handle (the same cells), so changes made through either are
    /// seen through both. A new identifier is appended to the registry; for
    /// an identifier already registered the fresh state replaces the old one
    /// in place (the old handle is no longer reached by the dispatcher).
    pub fn register(&mut self, id: CitizenId) -> (result: CitizenState)
        ensures
            final(self).ids() == ids_after_register(old(self).ids(), id),
            final(self).states() == states_after_register(old(self).ids(), old(self).states(), id, result),
            final(self).messages() == old(self).messages(),
            distinct_ids(final(self).ids()),
            lookup(final(self).ids(), final(self).states(), id@) == Some(result),
            forall|other: Seq<char>|
                other != id@ ==> #[trigger] lookup(final(self).ids(), final(self).states(), other)
                    == lookup(old(self).ids(), old(self).states(), other),
            final(self).ids().len() == final(self).states().len(),
    {
        proof {
            use_type_invariant(&*self);
        }
        let ghost ids0 = self.ids();
        let ghost states0 = self.states();
        let state = CitizenState::new();
        let stored = state.clone();
        let found = self.find(&id);
        let mut citizens: Vec<(CitizenId, CitizenState)> = Vec::new();
        std::mem::swap(&mut citizens, &mut self.citizens);
        match found {
            Some(i) => {
                let key = citizens[i].0.clone();
                citizens.set(i, (key, stored));
                proof {
                    assert(ids0[i as int]@ == id@);
                    assert(is_registered(ids0, id@));
                    assert(position_of(ids0, id@) == i as int);
                    assert(citizens@.map_values(|e: (CitizenId, CitizenState)| e.0) =~= ids0);
                    assert(citizens@.map_values(|e: (CitizenId, CitizenState)| e.1) =~= states0.update(
                        i as int,
                        state,
                    ));
                }
            },
            None => {
                citizens.push((id, stored));
                proof {
                    let new_ids = citizens@.map_values(|e: (CitizenId, CitizenState)| e.0);
                    assert(new_ids =~= ids0.push(id));
                    assert(citizens@.map_values(|e: (CitizenId, CitizenState)| e.1) =~= states0.push(state));
                    assert(new_ids[ids0.len() as int]@ == id@);
                    assert(is_registered(new_ids, id@));
                    assert(position_of(new_ids, id@) == ids0.len() as int);
                }
            },
        }
        self.citizens = citizens;
        proof {
            crate::laws::lemma_register(ids0, states0, id, state);
        }
        state
    }

    /// The state registered under `id`, if any.
    pub fn get(&self, id: &CitizenId) -> (result: Option<&CitizenState>)
        ensures
            match result {
                Some(s) => lookup(self.ids(), self.states(), id@) == Some(*s),
                None => lookup(self.ids(), self.states(), id@) is None,
            },
            self.ids().len() == self.states().len(),
            distinct_ids(self.ids()),
    {
        proof {
            use_type_invariant(self);
        }
        match self.find(id) {
            Some(i) => {
                proof {
                    assert(is_registered(self.ids(), id@));
                    assert(position_of(self.ids(), id@) == i as int);
                }
                Some(&self.citizens[i].1)
            },
            None => None,
        }
    }

    /// Pushes a message onto the queue for processing.
    pub fn send(&mut self, message: CitizenMessage)
        ensures
            final(self).messages() == old(self).messages().push(message),
            final(self).ids() == old(self).ids(),
            final(self).states() == old(self).states(),
            distinct_ids(final(self).ids()),
    {
        proof {
            use_type_invariant(&*self);
        }
        let mut queue: Vec<CitizenMessage> = Vec::new();
        std::mem::swap(&mut queue, &mut self.message_queue);
        queue.push(message);
        self.message_queue = queue;
    }

    /// Takes all pending messages, oldest first, leaving the queue empty.
    pub fn drain_messages(&mut self) -> (result: Vec<CitizenMessage>)
        ensures
            result@ == old(self).messages(),
            final(self).messages() == Seq::<CitizenMessage>::empty(),
            final(self).ids() == old(self).ids(),
            final(self).states() == old(self).states(),
            distinct_ids(final(self).ids()),
    {
        proof {
            use_type_invariant(&*self);
        }
        let mut queue: Vec<CitizenMessage> = Vec::new();
        std::mem::swap(&mut queue, &mut self.message_queue);
        queue
    }

    /// Number of registered citizens.
    pub fn len(&self) -> (result: usize)
        ensures
            result == self.ids().len(),
            self.ids().len() == self.states().len(),
            distinct_ids(self.ids()),
    {
        proof {
            use_type_invariant(self);
        }
        self.citizens.len()
    }

    /// Whether no citizen is registered.
    pub fn is_empty(&self) -> (result: bool)
        ensures
            result == (self.ids().len() == 0),
            self.ids().len() == self.states().len(),
            distinct_ids(self.ids()),
    {
        proof {
            use_type_invariant(self);
        }
        self.citizens.len() == 0
    }

    /// The registered citizens with their state handles, in registration order.
    pub fn entries(&self) -> (result: &Vec<(CitizenId, CitizenState)>)
        ensures
            result@.map_values(|e: (CitizenId, CitizenState)| e.0) == self.ids(),
            result@.map_values(|e: (CitizenId, CitizenState)| e.1) == self.states(),
    {
        &self.citizens
    }

    /// Activates the citizen `id` and deactivates every other active one,
    /// given what the `active` flags read.
    ///
    /// Set/reset flip-flop: `flags[i]` is what the `active` flag of the
    /// citizen at position `i` (see `entries()`) read. The citizen registered
    /// as `id` is to be set and gets an `Activated` message; every other
    /// citizen whose flag read true is to be cleared and gets a `Deactivated`
    /// message; the rest are left alone. Messages are queued in registration
    /// order. The result holds, position by position, the value to store in
    /// each `active` flag (`None`: leave it as it is). Once stored, exactly the
    /// citizen registered as `id` is active, none if `id` is not registered.
    /// The registry itself is unchanged.
    pub fn activate(&mut self, id: &CitizenId, flags: &Vec<bool>) -> (writes: Vec<Option<bool>>)
        requires
            flags.len() == old(self).ids().len(),
        ensures
            final(self).ids() == old(self).ids(),
            final(self).states() == old(self).states(),
            distinct_ids(final(self).ids()),
            final(self).messages() == old(self).messages() + activation_messages(old(self).ids(), *id, flags@),
            writes@ == activation_writes(old(self).ids(), *id, flags@),
            forall|i: int|
                0 <= i < old(self).ids().len() ==> flag_after_write(writes@[i], flags@[i])
                    == #[trigger] flags_after_activation(old(self).ids(), *id, flags@)[i],
            forall|i: int|
                0 <= i < old(self).ids().len() ==> #[trigger] flags_after_activation(
                    old(self).ids(),
                    *id,
                    flags@,
                )[i] == (old(self).ids()[i]@ == id@),
            count_set(flags_after_activation(old(self).ids(), *id, flags@)) == if is_registered(
                old(self).ids(),
                id@,
            ) {
                1nat
            } else {
                0nat
            },
    {
        proof {
            use_type_invariant(&*self);
        }
        let ghost ids0 = self.ids();
        let ghost q0 = self.messages();
        let mut queue: Vec<CitizenMessage> = Vec::new();
        std::mem::swap(&mut queue, &mut self.message_queue);
        let mut writes: Vec<Option<bool>> = Vec::new();
        let n = self.citizens.len();
        let mut i: usize = 0;
        while i < n
            invariant
                n == self.citizens.len(),
                n == flags.len(),
                i <= n,
                self.ids() == ids0,
                distinct_ids(ids0),
                queue@ == q0 + activation_messages(ids0.take(i as int), *id, flags@),
                writes@ == Seq::new(
                    i as nat,
                    |k: int| written_flag(activation_step(ids0[k], *id, flags@[k])),
                ),
            decreases n - i,
        {
            let step = ActivationStep::decide(&self.citizens[i].0, id, flags[i]);
            writes.push(step.written_flag());
            let ghost queue_before = queue@;
            match step {
                ActivationStep::Activate => {
                    let cid = self.citizens[i].0.clone();
                    queue.push(CitizenMessage::Activated { id: cid });
                },
                ActivationStep::Deactivate => {
                    let cid = self.citizens[i].0.clone();
                    queue.push(CitizenMessage::Deactivated { id: cid });
                },
                ActivationStep::Keep => {},
            }
            proof {
                assert(self.citizens@[i as int].0 == ids0[i as int]);
                assert(queue@ =~= queue_before + step_messages(ids0[i as int], step));
                let next = ids0.take(i + 1);
                assert(next.take(i as int) =~= ids0.take(i as int));
                assert(next[i as int] == ids0[i as int]);
                assert(activation_messages(next, *id, flags@) == activation_messages(
                    next.take(i as int),
                    *id,
                    flags@,
                ) + step_messages(next[i as int], activation_step(next[i as int], *id, flags@[i as int])));
                assert(writes@ =~= Seq::new(
                    (i + 1) as nat,
                    |k: int| written_flag(activation_step(ids0[k], *id, flags@[k])),
                ));
            }
            i = i + 1;
        }
        self.message_queue = queue;
        proof {
            assert(ids0.take(n as int) =~= ids0);
            assert(writes@ =~= activation_writes(ids0, *id, flags@));
            crate::laws::lemma_activation_is_one_hot(ids0, *id, flags@);
        }
        writes
    }
}

impl Default for Dispatcher {
    /// An empty dispatcher, as `Dispatcher::new()`.
    fn default() -> (result: Self)
        ensures
            result.ids() == Seq::<CitizenId>::empty(),
            result.states() == Seq::<CitizenState>::empty(),
            result.messages() == Seq::<CitizenMessage>::empty(),
    {
        Self::new()
    }
}

} // verus!
