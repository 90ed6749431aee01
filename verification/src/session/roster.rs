//! Lists of nodes in the order of their identifiers.

use vstd::prelude::*;

use crate::domain::identity::NodeId;

verus! {

/// `a` comes before `b` in the order of identifiers.
pub open spec fn precedes(a: Seq<char>, b: Seq<char>) -> bool {
    crate::domain::identity::bytes_precede(
        vstd::utf8::encode_utf8(a),
        vstd::utf8::encode_utf8(b),
    )
}

/// The nodes stand in the order of identifiers, each once.
pub open spec fn is_sorted(nodes: Seq<Seq<char>>) -> bool {
    forall|i: int, j: int|
        0 <= i < j < nodes.len() ==> precedes(#[trigger] nodes[i], #[trigger] nodes[j])
}

/// `nodes` lists the members of `set` in the order of identifiers.
pub open spec fn is_sorted_listing(nodes: Seq<Seq<char>>, set: Set<Seq<char>>) -> bool {
    &&& is_sorted(nodes)
    &&& forall|node: Seq<char>| #[trigger] nodes.contains(node) <==> set.contains(node)
}

/// The members of `set` in the order of identifiers.
pub open spec fn sorted_listing(set: Set<Seq<char>>) -> Seq<Seq<char>> {
    choose|nodes: Seq<Seq<char>>| is_sorted_listing(nodes, set)
}

pub open spec fn node_views(nodes: Seq<NodeId>) -> Seq<Seq<char>> {
    nodes.map_values(|node: NodeId| node@)
}

pub proof fn lemma_precedes_is_total(a: Seq<char>, b: Seq<char>)
    requires
        a != b,
    ensures
        precedes(a, b) != precedes(b, a),
{
    vstd::utf8::encode_utf8_decode_utf8(a);
    vstd::utf8::encode_utf8_decode_utf8(b);
    crate::domain::identity::law_node_order_is_total(
        vstd::utf8::encode_utf8(a),
        vstd::utf8::encode_utf8(b),
    );
}

pub proof fn lemma_precedes_is_irreflexive(a: Seq<char>)
    ensures
        !precedes(a, a),
{
    crate::domain::identity::law_node_order_is_irreflexive(vstd::utf8::encode_utf8(a));
}

pub proof fn lemma_precedes_is_transitive(a: Seq<char>, b: Seq<char>, c: Seq<char>)
    requires
        precedes(a, b),
        precedes(b, c),
    ensures
        precedes(a, c),
{
    crate::domain::identity::law_node_order_is_transitive(
        vstd::utf8::encode_utf8(a),
        vstd::utf8::encode_utf8(b),
        vstd::utf8::encode_utf8(c),
    );
}

/// Listings of one set agree as far as the shorter goes.
proof fn lemma_listings_agree(
    a: Seq<Seq<char>>,
    b: Seq<Seq<char>>,
    set: Set<Seq<char>>,
    count: int,
)
    requires
        is_sorted_listing(a, set),
        is_sorted_listing(b, set),
        0 <= count <= a.len(),
        count <= b.len(),
    ensures
        forall|i: int| 0 <= i < count ==> #[trigger] a[i] == b[i],
    decreases count,
{
    if count > 0 {
        let last = count - 1;
        lemma_listings_agree(a, b, set, last);
        if a[last] != b[last] {
            lemma_precedes_is_total(a[last], b[last]);
            if precedes(a[last], b[last]) {
                lemma_next_member_is_least(a, b, set, last);
            } else {
                lemma_next_member_is_least(b, a, set, last);
            }
        }
    }
}

proof fn lemma_next_member_is_least(
    a: Seq<Seq<char>>,
    b: Seq<Seq<char>>,
    set: Set<Seq<char>>,
    last: int,
)
    requires
        is_sorted_listing(a, set),
        is_sorted_listing(b, set),
        0 <= last < a.len(),
        last < b.len(),
        forall|i: int| 0 <= i < last ==> #[trigger] a[i] == b[i],
    ensures
        !precedes(a[last], b[last]),
{
    assert(a.contains(a[last]));
    assert(b.contains(a[last]));
    let j = choose|j: int| 0 <= j < b.len() && b[j] == a[last];
    lemma_precedes_is_irreflexive(a[last]);
    if j < last {
        assert(a[j] == b[j]);
        assert(precedes(a[j], a[last]));
    } else if j > last && precedes(a[last], b[last]) {
        assert(precedes(b[last], b[j]));
        lemma_precedes_is_transitive(a[last], b[last], b[j]);
    }
}

/// A set has one listing.
pub proof fn law_sorted_listing_is_unique(nodes: Seq<Seq<char>>, set: Set<Seq<char>>)
    requires
        is_sorted_listing(nodes, set),
    ensures
        sorted_listing(set) == nodes,
{
    let chosen = sorted_listing(set);
    assert(is_sorted_listing(chosen, set));
    let shorter = if nodes.len() <= chosen.len() {
        nodes.len() as int
    } else {
        chosen.len() as int
    };
    lemma_listings_agree(nodes, chosen, set, shorter);
    if nodes.len() < chosen.len() {
        lemma_listings_have_one_length(nodes, chosen, set);
    } else if chosen.len() < nodes.len() {
        lemma_listings_have_one_length(chosen, nodes, set);
    }
    assert(chosen =~= nodes);
}

proof fn lemma_listings_have_one_length(
    short: Seq<Seq<char>>,
    long: Seq<Seq<char>>,
    set: Set<Seq<char>>,
)
    requires
        is_sorted_listing(short, set),
        is_sorted_listing(long, set),
        short.len() <= long.len(),
        forall|i: int| 0 <= i < short.len() ==> #[trigger] short[i] == long[i],
    ensures
        short.len() == long.len(),
{
    if short.len() < long.len() {
        let extra = long[short.len() as int];
        assert(long.contains(extra));
        assert(short.contains(extra));
        let j = choose|j: int| 0 <= j < short.len() && short[j] == extra;
        assert(long[j] == extra);
        assert(precedes(long[j], long[short.len() as int]));
        lemma_precedes_is_irreflexive(extra);
    }
}

/// No node stands twice in a sorted list.
pub proof fn lemma_listed_once(nodes: Seq<Seq<char>>, i: int, j: int)
    requires
        is_sorted(nodes),
        0 <= i < j < nodes.len(),
    ensures
        nodes[i] != nodes[j],
{
    assert(precedes(nodes[i], nodes[j]));
    lemma_precedes_is_irreflexive(nodes[i]);
}

/// Enters a node into a sorted list unless it stands there already.
pub(crate) fn enter(nodes: &mut Vec<NodeId>, node: &NodeId, Ghost(set): Ghost<Set<Seq<char>>>)
    requires
        is_sorted_listing(node_views(old(nodes)@), set),
    ensures
        is_sorted_listing(node_views(final(nodes)@), set.insert(node@)),
{
    let ghost before = node_views(nodes@);
    let mut index: usize = 0;
    while index < nodes.len() && nodes[index].precedes(node)
        invariant
            index <= nodes.len(),
            before == node_views(nodes@),
            is_sorted_listing(before, set),
            forall|i: int| 0 <= i < index ==> precedes(#[trigger] before[i], node@),
        decreases nodes.len() - index,
    {
        assert(before[index as int] == nodes@[index as int]@);
        index += 1;
    }
    if index < nodes.len() && nodes[index] == *node {
        proof {
            assert(before[index as int] == node@);
            assert(before.contains(node@));
            assert(set.insert(node@) =~= set);
        }
        return;
    }
    proof {
        assert forall|i: int| index <= i < before.len() implies precedes(
            node@,
            #[trigger] before[i],
        ) by {
            assert(before[index as int] == nodes@[index as int]@);
            lemma_precedes_is_total(before[index as int], node@);
            if i > index {
                assert(precedes(before[index as int], before[i]));
                lemma_precedes_is_transitive(node@, before[index as int], before[i]);
            }
        }
    }
    nodes.insert(index, node.clone());
    proof {
        let after = node_views(nodes@);
        assert(after =~= before.insert(index as int, node@));
        assert forall|other: Seq<char>| #[trigger]
            after.contains(other) <==> set.insert(node@).contains(other) by {
            if after.contains(other) {
                let i = choose|i: int| 0 <= i < after.len() && after[i] == other;
                if i < index {
                    assert(before[i] == other);
                    assert(before.contains(other));
                } else if i > index {
                    assert(before[i - 1] == other);
                    assert(before.contains(other));
                }
            }
            if set.contains(other) {
                assert(before.contains(other));
                let i = choose|i: int| 0 <= i < before.len() && before[i] == other;
                if i < index {
                    assert(after[i] == other);
                } else {
                    assert(after[i + 1] == other);
                }
            }
            if other == node@ {
                assert(after[index as int] == other);
            }
        }
        assert forall|i: int, j: int| 0 <= i < j < after.len() implies precedes(
            #[trigger] after[i],
            #[trigger] after[j],
        ) by {
            if i < index && j > index {
                assert(precedes(before[i], before[j - 1]));
            } else if i < index && j < index {
                assert(precedes(before[i], before[j]));
            } else if i > index {
                assert(precedes(before[i - 1], before[j - 1]));
            } else if i < index {
                assert(precedes(before[i], node@));
            } else {
                assert(precedes(node@, before[j - 1]));
            }
        }
    }
}

/// A node that goes between those before and those after it keeps the order.
pub proof fn lemma_insertion_keeps_order(nodes: Seq<Seq<char>>, node: Seq<char>, place: int)
    requires
        is_sorted(nodes),
        0 <= place <= nodes.len(),
        forall|i: int| 0 <= i < place ==> precedes(#[trigger] nodes[i], node),
        place < nodes.len() ==> nodes[place] != node && !precedes(nodes[place], node),
    ensures
        is_sorted(nodes.insert(place, node)),
        !nodes.contains(node),
{
    assert forall|i: int| place <= i < nodes.len() implies precedes(node, #[trigger] nodes[i]) by {
        lemma_precedes_is_total(nodes[place], node);
        if i > place {
            assert(precedes(nodes[place], nodes[i]));
            lemma_precedes_is_transitive(node, nodes[place], nodes[i]);
        }
    }
    let longer = nodes.insert(place, node);
    assert forall|i: int, j: int| 0 <= i < j < longer.len() implies precedes(
        #[trigger] longer[i],
        #[trigger] longer[j],
    ) by {
        let a = if i > place {
            i - 1
        } else {
            i
        };
        let b = if j > place {
            j - 1
        } else {
            j
        };
        if i == place {
            assert(longer[j] == nodes[b]);
        } else if j == place {
            assert(longer[i] == nodes[a]);
        } else {
            assert(longer[i] == nodes[a] && longer[j] == nodes[b]);
        }
    }
    lemma_precedes_is_irreflexive(node);
}

/// Where a node goes in a sorted list, from `from` on: before the first that it
/// does not follow.
spec fn place_for(nodes: Seq<Seq<char>>, node: Seq<char>, from: int) -> int
    decreases nodes.len() - from,
{
    if 0 <= from < nodes.len() && precedes(nodes[from], node) {
        place_for(nodes, node, from + 1)
    } else {
        from
    }
}

proof fn lemma_place_for(nodes: Seq<Seq<char>>, node: Seq<char>, from: int)
    requires
        0 <= from <= nodes.len(),
        forall|i: int| 0 <= i < from ==> precedes(#[trigger] nodes[i], node),
    ensures
        from <= place_for(nodes, node, from) <= nodes.len(),
        forall|i: int|
            0 <= i < place_for(nodes, node, from) ==> precedes(#[trigger] nodes[i], node),
        place_for(nodes, node, from) < nodes.len() ==> !precedes(
            nodes[place_for(nodes, node, from)],
            node,
        ),
    decreases nodes.len() - from,
{
    if from < nodes.len() && precedes(nodes[from], node) {
        lemma_place_for(nodes, node, from + 1);
    }
}

proof fn lemma_some_listing(set: Set<Seq<char>>) -> (nodes: Seq<Seq<char>>)
    requires
        set.finite(),
    ensures
        is_sorted_listing(nodes, set),
    decreases set.len(),
{
    if set.len() == 0 {
        assert(set =~= Set::empty());
        Seq::empty()
    } else {
        let node = set.choose();
        let others = set.remove(node);
        let rest = lemma_some_listing(others);
        let place = place_for(rest, node, 0);
        lemma_place_for(rest, node, 0);
        assert(!rest.contains(node));
        if place < rest.len() {
            assert(rest.contains(rest[place]));
        }
        lemma_insertion_keeps_order(rest, node, place);
        let nodes = rest.insert(place, node);
        assert forall|other: Seq<char>| #[trigger]
            nodes.contains(other) <==> set.contains(other) by {
            if nodes.contains(other) {
                let i = choose|i: int| 0 <= i < nodes.len() && nodes[i] == other;
                if i < place {
                    assert(rest[i] == other);
                    assert(rest.contains(other));
                } else if i > place {
                    assert(rest[i - 1] == other);
                    assert(rest.contains(other));
                }
            }
            if set.contains(other) {
                if other == node {
                    assert(nodes[place] == other);
                } else {
                    assert(rest.contains(other));
                    let i = choose|i: int| 0 <= i < rest.len() && rest[i] == other;
                    if i < place {
                        assert(nodes[i] == other);
                    } else {
                        assert(nodes[i + 1] == other);
                    }
                }
            }
        }
        nodes
    }
}

/// Every finite set of nodes has a listing in the order of identifiers.
pub proof fn law_sorted_listing_exists(set: Set<Seq<char>>)
    requires
        set.finite(),
    ensures
        is_sorted_listing(sorted_listing(set), set),
{
    let nodes = lemma_some_listing(set);
    assert(is_sorted_listing(nodes, set));
}

/// The order does not depend on a node that leaves.
pub proof fn lemma_removal_keeps_order(nodes: Seq<Seq<char>>, place: int)
    requires
        is_sorted(nodes),
        0 <= place < nodes.len(),
    ensures
        is_sorted(nodes.remove(place)),
{
    let shorter = nodes.remove(place);
    assert forall|i: int, j: int| 0 <= i < j < shorter.len() implies precedes(
        #[trigger] shorter[i],
        #[trigger] shorter[j],
    ) by {
        let a = if i < place {
            i
        } else {
            i + 1
        };
        let b = if j < place {
            j
        } else {
            j + 1
        };
        assert(shorter[i] == nodes[a] && shorter[j] == nodes[b]);
    }
}

} // verus!
