//! Which members of a group are linked to its first member.

use vstd::prelude::*;

verus! {

/// `path` leads from member 0 to member `i` of a group of `count` members,
/// each of its steps along a link.
pub open spec fn is_path(
    count: int,
    linked: spec_fn(int, int) -> bool,
    path: Seq<int>,
    i: int,
) -> bool {
    &&& path.len() > 0
    &&& path[0] == 0
    &&& path[path.len() - 1] == i
    &&& forall|k: int| 0 <= k < path.len() ==> 0 <= #[trigger] path[k] < count
    &&& forall|k: int| 0 < k < path.len() ==> linked(path[k - 1], #[trigger] path[k])
}

/// A chain of links leads from member 0 to member `i`.
pub open spec fn is_reachable(count: int, linked: spec_fn(int, int) -> bool, i: int) -> bool {
    exists|path: Seq<int>| is_path(count, linked, path, i)
}

/// A chain of links leads from member 0 to every other.
pub open spec fn is_connected(count: int, linked: spec_fn(int, int) -> bool) -> bool {
    forall|i: int| 0 <= i < count ==> #[trigger] is_reachable(count, linked, i)
}

/// The relation that a table of links stands for.
pub open spec fn table_relation(links: Seq<Vec<bool>>) -> spec_fn(int, int) -> bool {
    |j: int, i: int| links[j]@[i]
}

pub open spec fn is_square(links: Seq<Vec<bool>>) -> bool {
    forall|i: int| 0 <= i < links.len() ==> (#[trigger] links[i])@.len() == links.len()
}

/// Relations that agree within the group lead to the same members.
pub proof fn lemma_same_links_same_reach(
    count: int,
    a: spec_fn(int, int) -> bool,
    b: spec_fn(int, int) -> bool,
    i: int,
)
    requires
        forall|j: int, k: int| 0 <= j < count && 0 <= k < count ==> #[trigger] a(j, k) == b(j, k),
    ensures
        is_reachable(count, a, i) == is_reachable(count, b, i),
{
    assert forall|path: Seq<int>| #[trigger]
        is_path(count, a, path, i) == is_path(count, b, path, i) by {
        if is_path(count, a, path, i) {
            assert forall|k: int| 0 < k < path.len() implies b(path[k - 1], #[trigger] path[k]) by {
                assert(a(path[k - 1], path[k]));
            }
        }
        if is_path(count, b, path, i) {
            assert forall|k: int| 0 < k < path.len() implies a(path[k - 1], #[trigger] path[k]) by {
                assert(b(path[k - 1], path[k]));
                assert(a(path[k - 1], path[k]) == b(path[k - 1], path[k]));
            }
        }
    }
    if is_reachable(count, a, i) {
        let path = choose|path: Seq<int>| is_path(count, a, path, i);
        assert(is_path(count, b, path, i));
    }
    if is_reachable(count, b, i) {
        let path = choose|path: Seq<int>| is_path(count, b, path, i);
        assert(is_path(count, a, path, i));
    }
}

/// A set that holds member 0 and whatever its members link to holds every
/// member on a path.
proof fn lemma_closed_set_holds_path(
    count: int,
    linked: spec_fn(int, int) -> bool,
    flags: Seq<bool>,
    path: Seq<int>,
    i: int,
    k: int,
)
    requires
        flags.len() == count,
        0 < count ==> flags[0],
        forall|j: int, k: int|
            0 <= j < count && 0 <= k < count && flags[j] && #[trigger] linked(j, k) ==> flags[k],
        is_path(count, linked, path, i),
        0 <= k < path.len(),
    ensures
        flags[path[k]],
    decreases k,
{
    if k > 0 {
        lemma_closed_set_holds_path(count, linked, flags, path, i, k - 1);
        assert(linked(path[k - 1], path[k]));
    }
}

/// Finds the members that a chain of links leads to from member 0.
pub fn reachable_members(links: &Vec<Vec<bool>>) -> (flags: Vec<bool>)
    requires
        is_square(links@),
    ensures
        flags@.len() == links@.len(),
        forall|i: int|
            0 <= i < flags@.len() ==> #[trigger] flags@[i] == is_reachable(
                links@.len() as int,
                table_relation(links@),
                i,
            ),
{
    let count: usize = links.len();
    let ghost linked = table_relation(links@);
    let mut flags: Vec<bool> = Vec::new();
    let mut visited: Vec<usize> = Vec::new();
    if count == 0 {
        return flags;
    }
    let mut filled: usize = 0;
    while filled < count
        invariant
            filled <= count,
            flags@.len() == filled,
            forall|i: int| 0 <= i < filled ==> !(#[trigger] flags@[i]),
        decreases count - filled,
    {
        flags.push(false);
        filled += 1;
    }
    flags.set(0, true);
    visited.push(0);
    let mut next: usize = 0;
    assert(is_path(count as int, linked, seq![0int], 0));
    assert(visited@[0] == 0usize);
    while next < visited.len()
        invariant
            count > 0,
            count == links@.len(),
            linked == table_relation(links@),
            is_square(links@),
            flags@.len() == count,
            flags@[0],
            next <= visited@.len() <= count,
            visited@.no_duplicates(),
            forall|v: int|
                0 <= v < visited@.len() ==> #[trigger] visited@[v] < count
                    && flags@[visited@[v] as int],
            forall|i: int|
                0 <= i < count && #[trigger] flags@[i] ==> visited@.contains(i as usize)
                    && is_reachable(count as int, linked, i),
            forall|v: int, k: int|
                0 <= v < next && 0 <= k < count && #[trigger] linked(visited@[v] as int, k)
                    ==> flags@[k],
        decreases count - next,
    {
        let member: usize = visited[next];
        let ghost before = visited@;
        let mut candidate: usize = 0;
        while candidate < count
            invariant
                count > 0,
                count == links@.len(),
                linked == table_relation(links@),
                is_square(links@),
                flags@.len() == count,
                flags@[0],
                candidate <= count,
                next < before.len(),
                before.len() <= visited@.len() <= count,
                forall|v: int| 0 <= v < before.len() ==> #[trigger] visited@[v] == before[v],
                member == before[next as int],
                member < count,
                flags@[member as int],
                visited@.no_duplicates(),
                forall|v: int|
                    0 <= v < visited@.len() ==> #[trigger] visited@[v] < count
                        && flags@[visited@[v] as int],
                forall|i: int|
                    0 <= i < count && #[trigger] flags@[i] ==> visited@.contains(i as usize)
                        && is_reachable(count as int, linked, i),
                forall|v: int, k: int|
                    0 <= v < next && 0 <= k < count && #[trigger] linked(before[v] as int, k)
                        ==> flags@[k],
                forall|k: int|
                    0 <= k < candidate && #[trigger] linked(member as int, k) ==> flags@[k],
            decreases count - candidate,
        {
            assert(linked(member as int, candidate as int)
                == links@[member as int]@[candidate as int]);
            if !flags[candidate] && links[member][candidate] {
                proof {
                    let path = choose|path: Seq<int>|
                        is_path(count as int, linked, path, member as int);
                    assert(is_path(
                        count as int,
                        linked,
                        path.push(candidate as int),
                        candidate as int,
                    ));
                    lemma_distinct_indexes_fit(visited@.push(candidate), count as int);
                }
                let ghost old_visited = visited@;
                let ghost old_flags = flags@;
                flags.set(candidate, true);
                visited.push(candidate);
                proof {
                    assert forall|i: int| 0 <= i < count && #[trigger] flags@[i] implies visited@.contains(
                        i as usize,
                    ) && is_reachable(count as int, linked, i) by {
                        if i == candidate {
                            assert(visited@[visited@.len() - 1] == i as usize);
                        } else {
                            assert(old_flags[i]);
                            let at = choose|at: int|
                                0 <= at < old_visited.len() && old_visited[at] == i as usize;
                            assert(visited@[at] == i as usize);
                        }
                    }
                }
            }
            candidate += 1;
        }
        next += 1;
    }
    proof {
        assert forall|j: int, k: int|
            0 <= j < count && 0 <= k < count && flags@[j] && #[trigger] linked(
                j,
                k,
            ) implies flags@[k] by {
            assert(visited@.contains(j as usize));
            let at = choose|at: int| 0 <= at < visited@.len() && visited@[at] == j as usize;
            assert(linked(visited@[at] as int, k));
        }
        assert forall|i: int| 0 <= i < count implies #[trigger] flags@[i] == is_reachable(
            count as int,
            linked,
            i,
        ) by {
            if is_reachable(count as int, linked, i) {
                let path = choose|path: Seq<int>| is_path(count as int, linked, path, i);
                lemma_closed_set_holds_path(count as int, linked, flags@, path, i, path.len() - 1);
            }
        }
    }
    flags
}

/// Distinct indexes below `count` number at most `count`.
proof fn lemma_distinct_indexes_fit(indexes: Seq<usize>, count: int)
    requires
        0 <= count <= usize::MAX,
        indexes.no_duplicates(),
        forall|i: int| 0 <= i < indexes.len() ==> #[trigger] indexes[i] < count,
    ensures
        indexes.len() <= count,
{
    indexes.unique_seq_to_set();
    let range = vstd::set_lib::set_int_range(0, count);
    vstd::set_lib::lemma_int_range(0, count);
    let as_ints = indexes.to_set().map(|index: usize| index as int);
    assert(as_ints.subset_of(range)) by {
        assert forall|x: int| as_ints.contains(x) implies range.contains(x) by {
            let index = choose|index: usize| indexes.to_set().contains(index) && index as int == x;
            assert(indexes.contains(index));
        }
    }
    vstd::set_lib::lemma_map_size(indexes.to_set(), as_ints, |index: usize| index as int);
    vstd::set_lib::lemma_len_subset(as_ints, range);
}

/// A link leads from a member in `part` to one outside of it.
pub open spec fn leads_out(
    count: int,
    linked: spec_fn(int, int) -> bool,
    part: Set<int>,
) -> bool {
    exists|i: int, j: int|
        0 <= i < count && 0 <= j < count && part.contains(i) && !part.contains(j)
            && #[trigger] linked(i, j)
}

/// Some member is outside of `part`.
pub open spec fn leaves_out(count: int, part: Set<int>) -> bool {
    exists|i: int| 0 <= i < count && !#[trigger] part.contains(i)
}

proof fn lemma_path_leads_out(
    count: int,
    linked: spec_fn(int, int) -> bool,
    path: Seq<int>,
    i: int,
    part: Set<int>,
    k: int,
)
    requires
        is_path(count, linked, path, i),
        part.contains(0),
        0 <= k < path.len(),
        !part.contains(path[k]),
    ensures
        leads_out(count, linked, part),
    decreases k,
{
    assert(path[0] == 0);
    if part.contains(path[k - 1]) {
        assert(linked(path[k - 1], path[k]));
        assert(0 <= path[k - 1] < count && 0 <= path[k] < count);
    } else {
        lemma_path_leads_out(count, linked, path, i, part, k - 1);
    }
}

/// From every part of a connected group that holds the first member and leaves
/// some member out, a link leads out.
pub proof fn law_connected_groups_have_no_part_apart(
    count: int,
    linked: spec_fn(int, int) -> bool,
    part: Set<int>,
)
    requires
        is_connected(count, linked),
        part.contains(0),
        leaves_out(count, part),
    ensures
        leads_out(count, linked, part),
{
    let i = choose|i: int| 0 <= i < count && !#[trigger] part.contains(i);
    assert(is_reachable(count, linked, i));
    let path = choose|path: Seq<int>| is_path(count, linked, path, i);
    lemma_path_leads_out(count, linked, path, i, part, path.len() - 1);
}

/// A group is connected if a link leads out of each of its parts that holds the
/// first member and leaves some member out.
pub proof fn law_groups_without_a_part_apart_are_connected(
    count: int,
    linked: spec_fn(int, int) -> bool,
)
    requires
        count > 0,
        forall|part: Set<int>|
            part.contains(0) && #[trigger] leaves_out(count, part) ==> leads_out(
                count,
                linked,
                part,
            ),
    ensures
        is_connected(count, linked),
{
    let part = Set::new(|i: int| is_reachable(count, linked, i));
    assert(is_path(count, linked, seq![0int], 0));
    assert(part.contains(0));
    if !is_connected(count, linked) {
        let missing = choose|i: int| 0 <= i < count && !#[trigger] is_reachable(count, linked, i);
        assert(!part.contains(missing));
        assert(leaves_out(count, part));
        let (i, j) = choose|i: int, j: int|
            0 <= i < count && 0 <= j < count && part.contains(i) && !part.contains(j)
                && #[trigger] linked(i, j);
        let path = choose|path: Seq<int>| is_path(count, linked, path, i);
        assert(is_path(count, linked, path.push(j), j));
    }
}

} // verus!
