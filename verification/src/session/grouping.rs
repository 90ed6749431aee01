//! How captured events are taken up by the events that are sent.

use vstd::prelude::*;

use crate::domain::input::InputEvent;
use crate::session::coalesce::{
    buffered_with, is_motion, merged, merges, total_motion, without_motion,
};

verus! {

/// One event with the effect of a group of events, each of which merges with
/// those before it.
pub open spec fn merged_all(group: Seq<InputEvent>) -> InputEvent
    decreases group.len(),
{
    if group.len() <= 1 {
        group[0]
    } else {
        merged(merged_all(group.drop_last()), group.last())
    }
}

/// The event at `index` moves the pointer in the same manner as the one directly
/// before it.
pub open spec fn follows_on(events: Seq<InputEvent>, index: int) -> bool {
    merges(events[index - 1], events[index])
}

/// A single event, or motion of one manner with nothing in between.
pub open spec fn is_group(group: Seq<InputEvent>) -> bool {
    &&& group.len() > 0
    &&& forall|i: int| 0 < i < group.len() ==> #[trigger] follows_on(group, i)
}

/// `sent` stands for the events from `from` up to `to`.
pub open spec fn stands_for(
    sent: InputEvent,
    events: Seq<InputEvent>,
    from: int,
    to: int,
) -> bool {
    &&& 0 <= from < to <= events.len()
    &&& is_group(events.subrange(from, to))
    &&& sent == merged_all(events.subrange(from, to))
}

/// The events of `sent` stand, one after the other, for the groups into which
/// `cuts` parts `events`.
pub open spec fn is_grouping(
    events: Seq<InputEvent>,
    sent: Seq<InputEvent>,
    cuts: Seq<int>,
) -> bool {
    &&& cuts.len() == sent.len() + 1
    &&& cuts[0] == 0
    &&& cuts.last() == events.len()
    &&& forall|i: int|
        0 <= i < sent.len() ==> stands_for(#[trigger] sent[i], events, cuts[i], cuts[i + 1])
}

/// A distance that an event can hold.
pub open spec fn is_in_range(motion: (int, int)) -> bool {
    i64::MIN <= motion.0 <= i64::MAX && i64::MIN <= motion.1 <= i64::MAX
}

/// The motion of the first events of a group can be held by one event, however
/// many are taken.
pub open spec fn never_saturates(group: Seq<InputEvent>) -> bool {
    forall|count: int|
        0 < count <= group.len() ==> is_in_range(#[trigger] total_motion(group.take(count)))
}

/// No group of a grouping adds up to more than one event can hold.
pub open spec fn groups_never_saturate(events: Seq<InputEvent>, cuts: Seq<int>) -> bool {
    forall|i: int|
        0 <= i < cuts.len() - 1 ==> never_saturates(
            #[trigger] events.subrange(cuts[i], cuts[i + 1]),
        )
}

/// A group of more than one event is motion of one manner, and so is the event
/// that stands for it.
pub proof fn lemma_group_is_of_one_kind(group: Seq<InputEvent>)
    requires
        is_group(group),
    ensures
        group.len() > 1 ==> merges(merged_all(group), group.last()) && forall|i: int|
            0 <= i < group.len() ==> is_motion(#[trigger] group[i]),
        group.len() == 1 ==> merged_all(group) == group[0],
    decreases group.len(),
{
    if group.len() > 1 {
        let rest = group.drop_last();
        assert forall|i: int| 0 < i < rest.len() implies #[trigger] follows_on(rest, i) by {
            assert(follows_on(group, i));
        }
        lemma_group_is_of_one_kind(rest);
        assert(follows_on(group, group.len() - 1));
        assert(rest.last() == group[group.len() - 2]);
        assert forall|i: int| 0 <= i < group.len() implies is_motion(#[trigger] group[i]) by {
            if i < rest.len() {
                assert(rest[i] == group[i]);
            }
        }
    }
}

proof fn lemma_grouping_of_longer(
    events: Seq<InputEvent>,
    sent: Seq<InputEvent>,
    cuts: Seq<int>,
    event: InputEvent,
    i: int,
)
    requires
        is_grouping(events, sent, cuts),
        0 <= i < sent.len(),
    ensures
        stands_for(sent[i], events.push(event), cuts[i], cuts[i + 1]),
{
    assert(stands_for(sent[i], events, cuts[i], cuts[i + 1]));
    assert(events.push(event).subrange(cuts[i], cuts[i + 1]) =~= events.subrange(
        cuts[i],
        cuts[i + 1],
    ));
}

/// An event that stands for itself lengthens a grouping.
pub proof fn lemma_grouping_with_own(
    events: Seq<InputEvent>,
    sent: Seq<InputEvent>,
    cuts: Seq<int>,
    event: InputEvent,
)
    requires
        is_grouping(events, sent, cuts),
    ensures
        is_grouping(events.push(event), sent.push(event), cuts.push((events.len() + 1) as int)),
{
    let longer = events.push(event);
    let more = sent.push(event);
    let last = events.len() as int;
    let wider = cuts.push((events.len() + 1) as int);
    assert forall|i: int| 0 <= i < more.len() implies stands_for(
        #[trigger] more[i],
        longer,
        wider[i],
        wider[i + 1],
    ) by {
        if i < sent.len() {
            lemma_grouping_of_longer(events, sent, cuts, event, i);
        } else {
            assert(longer.subrange(last, last + 1) =~= seq![event]);
        }
    }
}

/// An event that is taken up by the last one sent widens the last group.
pub proof fn lemma_grouping_with_merged(
    events: Seq<InputEvent>,
    sent: Seq<InputEvent>,
    cuts: Seq<int>,
    event: InputEvent,
)
    requires
        is_grouping(events, sent, cuts),
        sent.len() > 0,
        merges(sent.last(), event),
    ensures
        is_grouping(
            events.push(event),
            sent.drop_last().push(merged(sent.last(), event)),
            cuts.update(cuts.len() - 1, (events.len() + 1) as int),
        ),
{
    let longer = events.push(event);
    let more = sent.drop_last().push(merged(sent.last(), event));
    let last = sent.len() - 1;
    let wider = cuts.update(cuts.len() - 1, (events.len() + 1) as int);
    assert(stands_for(sent[last], events, cuts[last], cuts[last + 1]));
    let group = events.subrange(cuts[last], cuts[last + 1]);
    let grown = longer.subrange(wider[last], wider[last + 1]);
    assert(grown =~= group.push(event));
    assert(grown.drop_last() =~= group);
    lemma_group_is_of_one_kind(group);
    assert forall|i: int| 0 < i < grown.len() implies #[trigger] follows_on(grown, i) by {
        if i < group.len() {
            assert(follows_on(group, i));
        }
    }
    assert forall|i: int| 0 <= i < more.len() implies stands_for(
        #[trigger] more[i],
        longer,
        wider[i],
        wider[i + 1],
    ) by {
        if i < last {
            assert(more[i] == sent[i]);
            lemma_grouping_of_longer(events, sent, cuts, event, i);
        }
    }
}

/// Buffering one more event keeps a grouping.
pub proof fn lemma_grouping_with_buffered(
    events: Seq<InputEvent>,
    sent: Seq<InputEvent>,
    cuts: Seq<int>,
    event: InputEvent,
) -> (wider: Seq<int>)
    requires
        is_grouping(events, sent, cuts),
    ensures
        is_grouping(events.push(event), buffered_with(sent, event), wider),
{
    if crate::session::coalesce::can_take_up(sent, event) {
        lemma_grouping_with_merged(events, sent, cuts, event);
        cuts.update(cuts.len() - 1, (events.len() + 1) as int)
    } else {
        lemma_grouping_with_own(events, sent, cuts, event);
        cuts.push((events.len() + 1) as int)
    }
}

proof fn lemma_transitions_add(a: Seq<InputEvent>, b: Seq<InputEvent>)
    ensures
        without_motion(a + b) == without_motion(a) + without_motion(b),
{
    Seq::filter_distributes_over_add(a, b, |event: InputEvent| !is_motion(event));
}

proof fn lemma_only_motion(events: Seq<InputEvent>)
    requires
        forall|i: int| 0 <= i < events.len() ==> is_motion(#[trigger] events[i]),
    ensures
        without_motion(events) == Seq::<InputEvent>::empty(),
    decreases events.len(),
{
    reveal(Seq::filter);
    if events.len() > 0 {
        let rest = events.drop_last();
        assert forall|i: int| 0 <= i < rest.len() implies is_motion(#[trigger] rest[i]) by {
            assert(rest[i] == events[i]);
        }
        lemma_only_motion(rest);
        assert(is_motion(events[events.len() - 1]));
    }
}

proof fn lemma_motion_adds(a: Seq<InputEvent>, b: Seq<InputEvent>)
    ensures
        total_motion(a + b) == (
            total_motion(a).0 + total_motion(b).0,
            total_motion(a).1 + total_motion(b).1,
        ),
    decreases b.len(),
{
    if b.len() == 0 {
        assert(a + b =~= a);
    } else {
        lemma_motion_adds(a, b.drop_last());
        assert((a + b).drop_last() =~= a + b.drop_last());
        assert((a + b).last() == b.last());
    }
}

/// The event that stands for a group moves the pointer as far as the group does,
/// unless that is more than one event can hold.
pub proof fn law_groups_keep_their_motion(group: Seq<InputEvent>)
    requires
        is_group(group),
        never_saturates(group),
    ensures
        total_motion(seq![merged_all(group)]) == total_motion(group),
    decreases group.len(),
{
    reveal_with_fuel(total_motion, 2);
    if group.len() == 1 {
        assert(group =~= seq![merged_all(group)]);
    } else {
        let rest = group.drop_last();
        assert forall|i: int| 0 < i < rest.len() implies #[trigger] follows_on(rest, i) by {
            assert(follows_on(group, i));
        }
        assert forall|count: int| 0 < count <= rest.len() implies is_in_range(
            #[trigger] total_motion(rest.take(count)),
        ) by {
            assert(rest.take(count) =~= group.take(count));
        }
        law_groups_keep_their_motion(rest);
        lemma_group_is_of_one_kind(rest);
        assert(follows_on(group, group.len() - 1));
        assert(rest.last() == group[group.len() - 2]);
        let one = merged_all(rest);
        let all = merged_all(group);
        assert(merges(one, group.last()));
        assert(seq![one].drop_last() =~= Seq::<InputEvent>::empty());
        assert(seq![all].drop_last() =~= Seq::<InputEvent>::empty());
        assert(group.take(group.len() as int) =~= group);
        assert(is_in_range(total_motion(group.take(group.len() as int))));
    }
}

/// A grouping without its last group.
proof fn lemma_shorter_grouping(events: Seq<InputEvent>, sent: Seq<InputEvent>, cuts: Seq<int>)
    requires
        is_grouping(events, sent, cuts),
        sent.len() > 0,
    ensures
        0 <= cuts[sent.len() - 1] < events.len(),
        is_grouping(events.take(cuts[sent.len() - 1]), sent.drop_last(), cuts.drop_last()),
        events.take(cuts[sent.len() - 1]) + events.subrange(
            cuts[sent.len() - 1],
            cuts[sent.len() as int],
        ) == events,
        groups_never_saturate(events, cuts) ==> groups_never_saturate(
            events.take(cuts[sent.len() - 1]),
            cuts.drop_last(),
        ),
{
    let last = sent.len() - 1;
    let shorter = events.take(cuts[last]);
    let fewer = sent.drop_last();
    let narrower = cuts.drop_last();
    assert(stands_for(sent[last], events, cuts[last], cuts[last + 1]));
    assert(shorter + events.subrange(cuts[last], cuts[last + 1]) =~= events);
    assert forall|i: int| 0 <= i < fewer.len() implies stands_for(
        #[trigger] fewer[i],
        shorter,
        narrower[i],
        narrower[i + 1],
    ) && shorter.subrange(narrower[i], narrower[i + 1]) == events.subrange(cuts[i], cuts[i + 1]) by {
        assert(fewer[i] == sent[i]);
        lemma_cuts_rise(events, sent, cuts, i + 1, last);
        assert(stands_for(sent[i], events, cuts[i], cuts[i + 1]));
        assert(shorter.subrange(cuts[i], cuts[i + 1]) =~= events.subrange(cuts[i], cuts[i + 1]));
    }
    if groups_never_saturate(events, cuts) {
        assert forall|i: int| 0 <= i < narrower.len() - 1 implies never_saturates(
            #[trigger] shorter.subrange(narrower[i], narrower[i + 1]),
        ) by {
            assert(fewer[i] == sent[i]);
            assert(never_saturates(events.subrange(cuts[i], cuts[i + 1])));
        }
    }
}

proof fn lemma_cuts_rise(
    events: Seq<InputEvent>,
    sent: Seq<InputEvent>,
    cuts: Seq<int>,
    i: int,
    j: int,
)
    requires
        is_grouping(events, sent, cuts),
        0 <= i <= j <= sent.len(),
    ensures
        cuts[i] <= cuts[j],
    decreases j - i,
{
    if i < j {
        lemma_cuts_rise(events, sent, cuts, i, j - 1);
        assert(stands_for(sent[j - 1], events, cuts[j - 1], cuts[j]));
    }
}

/// Whatever stands for a series of events holds each of its key, button and
/// scroll events once, unchanged and in order, and moves the pointer as far,
/// unless a group is more than one event can hold.
pub proof fn law_groupings_keep_transitions_and_motion(
    events: Seq<InputEvent>,
    sent: Seq<InputEvent>,
    cuts: Seq<int>,
)
    requires
        is_grouping(events, sent, cuts),
    ensures
        without_motion(sent) == without_motion(events),
        groups_never_saturate(events, cuts) ==> total_motion(sent) == total_motion(events),
    decreases sent.len(),
{
    if sent.len() == 0 {
        assert(sent =~= events);
    } else {
        let last = sent.len() - 1;
        let fewer = sent.drop_last();
        let shorter = events.take(cuts[last]);
        let group = events.subrange(cuts[last], cuts[last + 1]);
        lemma_shorter_grouping(events, sent, cuts);
        law_groupings_keep_transitions_and_motion(shorter, fewer, cuts.drop_last());
        assert(stands_for(sent[last], events, cuts[last], cuts[last + 1]));
        assert(sent =~= fewer + seq![sent[last]]);
        lemma_transitions_add(fewer, seq![sent[last]]);
        lemma_transitions_add(shorter, group);
        lemma_motion_adds(fewer, seq![sent[last]]);
        lemma_motion_adds(shorter, group);
        lemma_group_is_of_one_kind(group);
        if group.len() == 1 {
            assert(group =~= seq![sent[last]]);
        } else {
            lemma_only_motion(group);
            lemma_only_motion(seq![sent[last]]);
        }
        if groups_never_saturate(events, cuts) {
            assert(never_saturates(events.subrange(cuts[last], cuts[last + 1])));
            law_groups_keep_their_motion(group);
        }
    }
}

} // verus!
