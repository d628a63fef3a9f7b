//! Properties of the dispatcher that span calls: one-hot activation, what
//! activation announces, repeated activation, registration and the queue.

use crate::dispatcher::{
    activation_messages, activation_step, count_set, distinct_ids, flags_after_activation, ids_after_register,
    is_registered, lookup, position_of, states_after_register, step_messages, ActivationStep,
};
use crate::message::{CitizenId, CitizenMessage};
use crate::state::CitizenState;
use vstd::prelude::*;

verus! {

proof fn lemma_count_one_hot(ids: Seq<CitizenId>, target: CitizenId, flags: Seq<bool>)
    requires
        distinct_ids(ids),
        flags.len() == ids.len(),
        forall|i: int| 0 <= i < ids.len() ==> flags[i] == (ids[i]@ == target@),
    ensures
        count_set(flags) == if is_registered(ids, target@) {
            1nat
        } else {
            0nat
        },
    decreases ids.len(),
{
    if ids.len() > 0 {
        let n = ids.len() - 1;
        let sub = ids.take(n);
        assert forall|i: int, j: int| 0 <= i < sub.len() && 0 <= j < sub.len() && i != j implies sub[i]@
            != sub[j]@ by {
            assert(sub[i] == ids[i] && sub[j] == ids[j]);
        }
        lemma_count_one_hot(sub, target, flags.drop_last());
        if ids[n]@ == target@ {
            assert(is_registered(ids, target@));
            assert forall|i: int| 0 <= i < sub.len() implies sub[i]@ != target@ by {
                assert(sub[i] == ids[i]);
            }
        } else {
            if is_registered(ids, target@) {
                let w = choose|i: int| 0 <= i < ids.len() && ids[i]@ == target@;
                assert(sub[w] == ids[w]);
                assert(is_registered(sub, target@));
            }
            if is_registered(sub, target@) {
                let w = choose|i: int| 0 <= i < sub.len() && sub[i]@ == target@;
                assert(sub[w] == ids[w]);
            }
        }
    }
}

/// One-hot activation: after activating `target`, a citizen is active exactly
/// when it is `target`, whatever the flags read before. So exactly one
/// citizen is active when `target` is registered, and none when it is not.
pub proof fn lemma_activation_is_one_hot(ids: Seq<CitizenId>, target: CitizenId, before: Seq<bool>)
    requires
        distinct_ids(ids),
        before.len() == ids.len(),
    ensures
        forall|i: int|
            0 <= i < ids.len() ==> #[trigger] flags_after_activation(ids, target, before)[i] == (
            ids[i]@ == target@),
        count_set(flags_after_activation(ids, target, before)) == if is_registered(ids, target@) {
            1nat
        } else {
            0nat
        },
{
    let after = flags_after_activation(ids, target, before);
    assert forall|i: int| 0 <= i < ids.len() implies after[i] == (ids[i]@ == target@) by {}
    lemma_count_one_hot(ids, target, after);
}

/// `msgs[k]` is `Deactivated` for a citizen of `ids` other than `target`
/// whose flag read true.
pub open spec fn deactivates_active_other(
    ids: Seq<CitizenId>,
    target: CitizenId,
    before: Seq<bool>,
    m: CitizenMessage,
) -> bool {
    exists|i: int|
        0 <= i < ids.len() && m == (CitizenMessage::Deactivated { id: ids[i] }) && ids[i]@ != target@
            && before[i]
}

proof fn lemma_messages_shape(ids: Seq<CitizenId>, target: CitizenId, before: Seq<bool>)
    requires
        distinct_ids(ids),
        before.len() >= ids.len(),
    ensures
        ({
            let msgs = activation_messages(ids, target, before);
            &&& forall|k: int|
                0 <= k < msgs.len() ==> {
                    ||| (exists|i: int|
                        0 <= i < ids.len() && msgs[k] == (CitizenMessage::Activated { id: ids[i] })
                            && ids[i]@ == target@)
                    ||| deactivates_active_other(ids, target, before, msgs[k])
                }
            &&& forall|k1: int, k2: int|
                0 <= k1 < msgs.len() && 0 <= k2 < msgs.len() && k1 != k2 ==> msgs[k1].subject()@
                    != msgs[k2].subject()@
            &&& forall|i: int|
                0 <= i < ids.len() && ids[i]@ == target@ ==> msgs.contains(
                    CitizenMessage::Activated { id: ids[i] },
                )
            &&& forall|i: int|
                0 <= i < ids.len() && ids[i]@ != target@ && before[i] ==> msgs.contains(
                    CitizenMessage::Deactivated { id: ids[i] },
                )
        }),
    decreases ids.len(),
{
    let msgs = activation_messages(ids, target, before);
    if ids.len() > 0 {
        let n = ids.len() - 1;
        let sub = ids.take(n);
        assert forall|i: int, j: int| 0 <= i < sub.len() && 0 <= j < sub.len() && i != j implies sub[i]@
            != sub[j]@ by {
            assert(sub[i] == ids[i] && sub[j] == ids[j]);
        }
        lemma_messages_shape(sub, target, before);
        let prev = activation_messages(sub, target, before);
        let tail = step_messages(ids[n], activation_step(ids[n], target, before[n]));
        assert(msgs == prev + tail);
        // Every earlier message is about a citizen of `sub`, so not about ids[n].
        assert forall|k: int| 0 <= k < prev.len() implies prev[k].subject()@ != ids[n]@ by {
            if exists|i: int|
                0 <= i < sub.len() && prev[k] == (CitizenMessage::Activated { id: sub[i] })
                    && sub[i]@ == target@ {
                let i = choose|i: int|
                    0 <= i < sub.len() && prev[k] == (CitizenMessage::Activated { id: sub[i] })
                        && sub[i]@ == target@;
                assert(sub[i] == ids[i]);
            } else {
                assert(deactivates_active_other(sub, target, before, prev[k]));
                let i = choose|i: int|
                    0 <= i < sub.len() && prev[k] == (CitizenMessage::Deactivated { id: sub[i] })
                        && sub[i]@ != target@ && before[i];
                assert(sub[i] == ids[i]);
            }
        }
        assert forall|k: int| 0 <= k < msgs.len() implies {
            ||| (exists|i: int|
                0 <= i < ids.len() && msgs[k] == (CitizenMessage::Activated { id: ids[i] })
                    && ids[i]@ == target@)
            ||| deactivates_active_other(ids, target, before, msgs[k])
        } by {
            if k < prev.len() {
                assert(msgs[k] == prev[k]);
                if exists|i: int|
                    0 <= i < sub.len() && prev[k] == (CitizenMessage::Activated { id: sub[i] })
                        && sub[i]@ == target@ {
                    let i = choose|i: int|
                        0 <= i < sub.len() && prev[k] == (CitizenMessage::Activated { id: sub[i] })
                            && sub[i]@ == target@;
                    assert(sub[i] == ids[i]);
                } else {
                    assert(deactivates_active_other(sub, target, before, prev[k]));
                    let i = choose|i: int|
                        0 <= i < sub.len() && prev[k] == (CitizenMessage::Deactivated { id: sub[i] })
                            && sub[i]@ != target@ && before[i];
                    assert(sub[i] == ids[i]);
                }
            } else {
                assert(msgs[k] == tail[k - prev.len()]);
            }
        }
        assert forall|k1: int, k2: int|
            0 <= k1 < msgs.len() && 0 <= k2 < msgs.len() && k1 != k2 implies msgs[k1].subject()@
                != msgs[k2].subject()@ by {
            if k1 < prev.len() && k2 < prev.len() {
                assert(msgs[k1] == prev[k1] && msgs[k2] == prev[k2]);
            } else if k1 < prev.len() {
                assert(msgs[k1] == prev[k1]);
                assert(msgs[k2] == tail[k2 - prev.len()]);
            } else if k2 < prev.len() {
                assert(msgs[k2] == prev[k2]);
                assert(msgs[k1] == tail[k1 - prev.len()]);
            }
        }
        assert forall|i: int| 0 <= i < ids.len() && ids[i]@ == target@ implies msgs.contains(
            CitizenMessage::Activated { id: ids[i] },
        ) by {
            if i < n {
                assert(sub[i] == ids[i]);
                let k = choose|k: int|
                    0 <= k < prev.len() && prev[k] == (CitizenMessage::Activated { id: sub[i] });
                assert(msgs[k] == prev[k]);
            } else {
                assert(msgs[prev.len() as int] == tail[0]);
            }
        }
        assert forall|i: int| 0 <= i < ids.len() && ids[i]@ != target@ && before[i] implies msgs.contains(
            CitizenMessage::Deactivated { id: ids[i] },
        ) by {
            if i < n {
                assert(sub[i] == ids[i]);
                let k = choose|k: int|
                    0 <= k < prev.len() && prev[k] == (CitizenMessage::Deactivated { id: sub[i] });
                assert(msgs[k] == prev[k]);
            } else {
                assert(msgs[prev.len() as int] == tail[0]);
            }
        }
    }
}

/// What activation announces: every message is `Activated` for the citizen
/// registered as `target` or `Deactivated` for another citizen whose flag
/// was set; no citizen gets two messages; the registered `target` does get
/// its `Activated` and every other citizen that was active its
/// `Deactivated`. An unregistered `target` gets no `Activated` at all.
pub proof fn lemma_activation_announces_exactly_the_changes(
    ids: Seq<CitizenId>,
    target: CitizenId,
    before: Seq<bool>,
)
    requires
        distinct_ids(ids),
        before.len() == ids.len(),
    ensures
        ({
            let msgs = activation_messages(ids, target, before);
            &&& forall|k: int|
                0 <= k < msgs.len() ==> {
                    ||| (msgs[k] is Activated && is_registered(ids, target@) && msgs[k]
                        == (CitizenMessage::Activated { id: ids[position_of(ids, target@)] }))
                    ||| deactivates_active_other(ids, target, before, msgs[k])
                }
            &&& forall|k1: int, k2: int|
                0 <= k1 < msgs.len() && 0 <= k2 < msgs.len() && k1 != k2 ==> msgs[k1].subject()@
                    != msgs[k2].subject()@
            &&& is_registered(ids, target@) ==> msgs.contains(
                CitizenMessage::Activated { id: ids[position_of(ids, target@)] },
            )
            &&& forall|i: int|
                0 <= i < ids.len() && ids[i]@ != target@ && before[i] ==> msgs.contains(
                    CitizenMessage::Deactivated { id: ids[i] },
                )
        }),
{
    lemma_messages_shape(ids, target, before);
    let msgs = activation_messages(ids, target, before);
    assert forall|k: int| 0 <= k < msgs.len() implies {
        ||| (msgs[k] is Activated && is_registered(ids, target@) && msgs[k]
            == (CitizenMessage::Activated { id: ids[position_of(ids, target@)] }))
        ||| deactivates_active_other(ids, target, before, msgs[k])
    } by {
        if exists|i: int|
            0 <= i < ids.len() && msgs[k] == (CitizenMessage::Activated { id: ids[i] }) && ids[i]@
                == target@ {
            let i = choose|i: int|
                0 <= i < ids.len() && msgs[k] == (CitizenMessage::Activated { id: ids[i] })
                    && ids[i]@ == target@;
            assert(is_registered(ids, target@));
            assert(position_of(ids, target@) == i);
        }
    }
    if is_registered(ids, target@) {
        let p = position_of(ids, target@);
        assert(ids[p]@ == target@);
    }
}

/// What an activation message announces: whether it is `Activated` (else it
/// is `Deactivated`) and the name of the citizen it is about.
pub open spec fn announcement(m: CitizenMessage) -> (bool, Seq<char>) {
    (m is Activated, m.subject()@)
}

/// What activating `target` announces, in order, when the flags read `before`.
pub open spec fn activation_announcements(
    ids: Seq<CitizenId>,
    target: CitizenId,
    before: Seq<bool>,
) -> Seq<(bool, Seq<char>)> {
    activation_messages(ids, target, before).map_values(|m: CitizenMessage| announcement(m))
}

proof fn lemma_announcements_included(
    ids1: Seq<CitizenId>,
    before1: Seq<bool>,
    ids2: Seq<CitizenId>,
    before2: Seq<bool>,
    target: CitizenId,
)
    requires
        distinct_ids(ids1),
        distinct_ids(ids2),
        before1.len() == ids1.len(),
        before2.len() == ids2.len(),
        forall|j: int|
            #![trigger ids1[j]]
            0 <= j < ids1.len() ==> exists|k: int|
                0 <= k < ids2.len() && ids1[j]@ == ids2[k]@ && before1[j] == before2[k],
    ensures
        forall|a: (bool, Seq<char>)|
            #[trigger] activation_announcements(ids1, target, before1).contains(a)
                ==> activation_announcements(ids2, target, before2).contains(a),
{
    let msgs1 = activation_messages(ids1, target, before1);
    let msgs2 = activation_messages(ids2, target, before2);
    let keys1 = msgs1.map_values(|m: CitizenMessage| announcement(m));
    let keys2 = msgs2.map_values(|m: CitizenMessage| announcement(m));
    lemma_activation_announces_exactly_the_changes(ids1, target, before1);
    lemma_activation_announces_exactly_the_changes(ids2, target, before2);
    assert forall|a: (bool, Seq<char>)| keys1.contains(a) implies keys2.contains(a) by {
        let k = choose|k: int| 0 <= k < keys1.len() && keys1[k] == a;
        assert(keys1[k] == announcement(msgs1[k]));
        if msgs1[k] is Activated && is_registered(ids1, target@) && msgs1[k] == (CitizenMessage::Activated {
            id: ids1[position_of(ids1, target@)],
        }) {
            let p1 = position_of(ids1, target@);
            let k2 = choose|k2: int|
                0 <= k2 < ids2.len() && ids1[p1]@ == ids2[k2]@ && before1[p1] == before2[k2];
            assert(is_registered(ids2, target@));
            let p2 = position_of(ids2, target@);
            let m2 = CitizenMessage::Activated { id: ids2[p2] };
            let w = choose|w: int| 0 <= w < msgs2.len() && msgs2[w] == m2;
            assert(keys2[w] == announcement(msgs2[w]));
        } else {
            assert(deactivates_active_other(ids1, target, before1, msgs1[k]));
            let i = choose|i: int|
                0 <= i < ids1.len() && msgs1[k] == (CitizenMessage::Deactivated { id: ids1[i] })
                    && ids1[i]@ != target@ && before1[i];
            let k2 = choose|k2: int|
                0 <= k2 < ids2.len() && ids1[i]@ == ids2[k2]@ && before1[i] == before2[k2];
            assert(ids2[k2]@ != target@ && before2[k2]);
            let m2 = CitizenMessage::Deactivated { id: ids2[k2] };
            let w = choose|w: int| 0 <= w < msgs2.len() && msgs2[w] == m2;
            assert(keys2[w] == announcement(msgs2[w]));
        }
    }
}

proof fn lemma_announcements_no_duplicates(ids: Seq<CitizenId>, target: CitizenId, before: Seq<bool>)
    requires
        distinct_ids(ids),
        before.len() == ids.len(),
    ensures
        activation_announcements(ids, target, before).no_duplicates(),
{
    lemma_activation_announces_exactly_the_changes(ids, target, before);
    let msgs = activation_messages(ids, target, before);
    let keys = msgs.map_values(|m: CitizenMessage| announcement(m));
    assert forall|i: int, j: int| 0 <= i < keys.len() && 0 <= j < keys.len() && i != j implies keys[i]
        != keys[j] by {
        assert(msgs[i].subject()@ != msgs[j].subject()@);
    }
}

/// Activation does not depend on the order of registration: two registries
/// that hold citizens of the same names with the same flags, in any order,
/// leave the same flag on every name and announce the same things (the same
/// `Activated` / `Deactivated` for the same names), up to their order.
pub proof fn lemma_activation_ignores_registration_order(
    ids1: Seq<CitizenId>,
    before1: Seq<bool>,
    ids2: Seq<CitizenId>,
    before2: Seq<bool>,
    target: CitizenId,
)
    requires
        distinct_ids(ids1),
        distinct_ids(ids2),
        before1.len() == ids1.len(),
        before2.len() == ids2.len(),
        forall|j: int|
            #![trigger ids1[j]]
            0 <= j < ids1.len() ==> exists|k: int|
                0 <= k < ids2.len() && ids1[j]@ == ids2[k]@ && before1[j] == before2[k],
        forall|k: int|
            #![trigger ids2[k]]
            0 <= k < ids2.len() ==> exists|j: int|
                0 <= j < ids1.len() && ids2[k]@ == ids1[j]@ && before2[k] == before1[j],
    ensures
        forall|j: int, k: int|
            0 <= j < ids1.len() && 0 <= k < ids2.len() && ids1[j]@ == ids2[k]@ ==> #[trigger] flags_after_activation(
                ids1,
                target,
                before1,
            )[j] == #[trigger] flags_after_activation(ids2, target, before2)[k],
        activation_announcements(ids1, target, before1).to_multiset() == activation_announcements(
            ids2,
            target,
            before2,
        ).to_multiset(),
{
    lemma_activation_is_one_hot(ids1, target, before1);
    lemma_activation_is_one_hot(ids2, target, before2);
    let keys1 = activation_messages(ids1, target, before1).map_values(|m: CitizenMessage| announcement(m));
    let keys2 = activation_messages(ids2, target, before2).map_values(|m: CitizenMessage| announcement(m));
    lemma_announcements_included(ids1, before1, ids2, before2, target);
    lemma_announcements_included(ids2, before2, ids1, before1, target);
    lemma_announcements_no_duplicates(ids1, target, before1);
    lemma_announcements_no_duplicates(ids2, target, before2);
    keys1.lemma_multiset_has_no_duplicates();
    keys2.lemma_multiset_has_no_duplicates();
    keys1.to_multiset_ensures();
    keys2.to_multiset_ensures();
    assert forall|a: (bool, Seq<char>)| keys1.to_multiset().count(a) == keys2.to_multiset().count(a) by {
        if keys1.contains(a) {
            assert(keys2.contains(a));
            assert(keys1.to_multiset().contains(a));
            assert(keys2.to_multiset().contains(a));
        } else {
            assert(!keys2.contains(a));
        }
    }
    assert(keys1.to_multiset() =~= keys2.to_multiset());
}

/// Activating the same citizen again: once `target` has been activated, a
/// second activation changes no flag and announces only `Activated` for
/// `target` (nothing at all if `target` is not registered).
pub proof fn lemma_activation_twice(ids: Seq<CitizenId>, target: CitizenId, before: Seq<bool>)
    requires
        distinct_ids(ids),
        before.len() == ids.len(),
    ensures
        ({
            let after = flags_after_activation(ids, target, before);
            &&& flags_after_activation(ids, target, after) == after
            &&& activation_messages(ids, target, after) == if is_registered(ids, target@) {
                seq![CitizenMessage::Activated { id: ids[position_of(ids, target@)] }]
            } else {
                Seq::<CitizenMessage>::empty()
            }
        }),
{
    let after = flags_after_activation(ids, target, before);
    assert(flags_after_activation(ids, target, after) =~= after);
    lemma_one_hot_messages(ids, target, after);
}

proof fn lemma_one_hot_messages(ids: Seq<CitizenId>, target: CitizenId, flags: Seq<bool>)
    requires
        distinct_ids(ids),
        flags.len() >= ids.len(),
        forall|i: int| 0 <= i < ids.len() ==> flags[i] == (ids[i]@ == target@),
    ensures
        activation_messages(ids, target, flags) == if is_registered(ids, target@) {
            seq![CitizenMessage::Activated { id: ids[position_of(ids, target@)] }]
        } else {
            Seq::<CitizenMessage>::empty()
        },
    decreases ids.len(),
{
    if ids.len() > 0 {
        let n = ids.len() - 1;
        let sub = ids.take(n);
        assert forall|i: int, j: int| 0 <= i < sub.len() && 0 <= j < sub.len() && i != j implies sub[i]@
            != sub[j]@ by {
            assert(sub[i] == ids[i] && sub[j] == ids[j]);
        }
        assert forall|i: int| 0 <= i < sub.len() implies flags[i] == (sub[i]@ == target@) by {
            assert(sub[i] == ids[i]);
        }
        lemma_one_hot_messages(sub, target, flags);
        let prev = activation_messages(sub, target, flags);
        if ids[n]@ == target@ {
            assert(is_registered(ids, target@));
            assert(position_of(ids, target@) == n);
            assert forall|i: int| 0 <= i < sub.len() implies sub[i]@ != target@ by {
                assert(sub[i] == ids[i]);
            }
            assert(!is_registered(sub, target@));
            assert(prev =~= Seq::<CitizenMessage>::empty());
            assert(activation_messages(ids, target, flags) =~= seq![
                CitizenMessage::Activated { id: ids[n] },
            ]);
        } else {
            assert(activation_messages(ids, target, flags) =~= prev);
            if is_registered(ids, target@) {
                let w = choose|i: int| 0 <= i < ids.len() && ids[i]@ == target@;
                assert(sub[w] == ids[w]);
                assert(is_registered(sub, target@));
                let p = position_of(sub, target@);
                assert(sub[p] == ids[p]);
                assert(position_of(ids, target@) == p);
            }
            if is_registered(sub, target@) {
                let w = choose|i: int| 0 <= i < sub.len() && sub[i]@ == target@;
                assert(sub[w] == ids[w]);
            }
        }
    }
}

/// Registration: afterwards `id` is registered with exactly the given state,
/// every other identifier keeps what it had, identifiers stay distinct, and
/// the count grows by one exactly when `id` was new.
pub proof fn lemma_register(ids: Seq<CitizenId>, states: Seq<CitizenState>, id: CitizenId, state: CitizenState)
    requires
        distinct_ids(ids),
        ids.len() == states.len(),
    ensures
        ({
            let ids2 = ids_after_register(ids, id);
            let states2 = states_after_register(ids, states, id, state);
            &&& distinct_ids(ids2)
            &&& ids2.len() == states2.len()
            &&& ids2.len() == ids.len() + if is_registered(ids, id@) {
                0int
            } else {
                1int
            }
            &&& lookup(ids2, states2, id@) == Some(state)
            &&& forall|other: Seq<char>|
                other != id@ ==> #[trigger] lookup(ids2, states2, other) == lookup(ids, states, other)
        }),
{
    let ids2 = ids_after_register(ids, id);
    let states2 = states_after_register(ids, states, id, state);
    if is_registered(ids, id@) {
        let p = position_of(ids, id@);
        assert forall|other: Seq<char>| other != id@ implies #[trigger] lookup(ids2, states2, other)
            == lookup(ids, states, other) by {
            if is_registered(ids, other) {
                let q = position_of(ids, other);
                assert(q != p);
            }
        }
    } else {
        assert(ids2[ids.len() as int] == id);
        assert(is_registered(ids2, id@));
        assert(position_of(ids2, id@) == ids.len() as int);
        assert forall|other: Seq<char>| other != id@ implies #[trigger] lookup(ids2, states2, other)
            == lookup(ids, states, other) by {
            if is_registered(ids, other) {
                let q = position_of(ids, other);
                assert(ids2[q] == ids[q]);
                assert(position_of(ids2, other) == q);
            }
            if is_registered(ids2, other) {
                let q = position_of(ids2, other);
                assert(q < ids.len());
                assert(ids2[q] == ids[q]);
            }
        }
    }
}

/// The queue after sending `sent` one message at a time.
pub open spec fn queue_after_sends(queue: Seq<CitizenMessage>, sent: Seq<CitizenMessage>) -> Seq<CitizenMessage>
    decreases sent.len(),
{
    if sent.len() == 0 {
        queue
    } else {
        queue_after_sends(queue, sent.drop_last()).push(sent.last())
    }
}

/// The queue is first-in first-out: sending messages one by one appends them
/// in order, so a drain hands back the earlier queue followed by them.
pub proof fn lemma_send_is_fifo(queue: Seq<CitizenMessage>, sent: Seq<CitizenMessage>)
    ensures
        queue_after_sends(queue, sent) == queue + sent,
    decreases sent.len(),
{
    if sent.len() > 0 {
        lemma_send_is_fifo(queue, sent.drop_last());
        assert(queue + sent =~= (queue + sent.drop_last()).push(sent.last()));
    }
}

} // verus!
