//! Who is told of an event, and in which order.
use vstd::prelude::*;

use crate::host::context::{SubscriptionView, subscribed, unsubscribed};

verus! {

/// The handlers of an event are those that subscribed to it, the first ones, then the others: each
/// subscription to the event counts once, and none to another.
pub proof fn lemma_subscribed_in_parts<H>(
    a: Seq<SubscriptionView<H>>,
    b: Seq<SubscriptionView<H>>,
    one: SubscriptionView<H>,
    event: Seq<char>,
)
    ensures
        subscribed(a + b, event) == subscribed(a, event) + subscribed(b, event),
        one.event == event ==> subscribed(seq![one], event) == seq![one.handler],
        one.event != event ==> subscribed(seq![one], event).len() == 0,
    decreases b.len(),
{
    assert(seq![one].drop_last() =~= Seq::empty());
    assert(seq![one].last() == one);
    assert(subscribed(Seq::<SubscriptionView<H>>::empty(), event) =~= Seq::empty());
    if one.event == event {
        assert(subscribed(seq![one], event) =~= seq![one.handler]);
    }
    if b.len() == 0 {
        assert(a + b =~= a);
        assert(subscribed(a, event) + subscribed(b, event) =~= subscribed(a, event));
    } else {
        lemma_subscribed_in_parts(a, b.drop_last(), one, event);
        assert((a + b).drop_last() =~= a + b.drop_last());
        assert((a + b).last() == b.last());
        assert(subscribed(a + b, event) =~= subscribed(a, event) + subscribed(b, event));
    }
}

/// Taking away a subscription takes away that one alone: every other one stays, in its place in the
/// order.
pub proof fn lemma_unsubscribed_in_parts<H>(
    a: Seq<SubscriptionView<H>>,
    b: Seq<SubscriptionView<H>>,
    one: SubscriptionView<H>,
    event: Seq<char>,
    id: u64,
)
    ensures
        unsubscribed(a + b, event, id) == unsubscribed(a, event, id) + unsubscribed(b, event, id),
        one.event == event && one.id == id ==> unsubscribed(seq![one], event, id).len() == 0,
        one.event != event || one.id != id ==> unsubscribed(seq![one], event, id) == seq![one],
    decreases b.len(),
{
    assert(seq![one].drop_last() =~= Seq::empty());
    assert(seq![one].last() == one);
    assert(unsubscribed(Seq::<SubscriptionView<H>>::empty(), event, id) =~= Seq::empty());
    if one.event != event || one.id != id {
        assert(unsubscribed(seq![one], event, id) =~= seq![one]);
    }
    if b.len() == 0 {
        assert(a + b =~= a);
        assert(unsubscribed(b, event, id) =~= b);
        assert(unsubscribed(a, event, id) + unsubscribed(b, event, id) =~= unsubscribed(
            a,
            event,
            id,
        ));
    } else {
        lemma_unsubscribed_in_parts(a, b.drop_last(), one, event, id);
        assert((a + b).drop_last() =~= a + b.drop_last());
        assert((a + b).last() == b.last());
        assert(unsubscribed(a + b, event, id) =~= unsubscribed(a, event, id) + unsubscribed(
            b,
            event,
            id,
        ));
    }
}

} // verus!
