//! Network addresses.

use vstd::prelude::*;

verus! {

/// An IP address, as the number that its bytes stand for in network order.
#[derive(Clone, Copy, Debug, PartialEq, Eq, Structural, Hash)]
pub enum IpAddress {
    V4(u32),
    V6(u128),
}

impl IpAddress {
    /// `127.0.0.0/8` and `::1` stay on the host itself.
    pub open spec fn is_loopback_address(self) -> bool {
        match self {
            IpAddress::V4(bits) => bits / 0x100_0000 == 127,
            IpAddress::V6(bits) => bits == 1,
        }
    }

    /// `0.0.0.0` and `::` stand for no address in particular.
    pub open spec fn is_unspecified_address(self) -> bool {
        match self {
            IpAddress::V4(bits) => bits == 0,
            IpAddress::V6(bits) => bits == 0,
        }
    }

    /// The address can be reached from another host.
    pub open spec fn is_usable(self) -> bool {
        !self.is_loopback_address() && !self.is_unspecified_address()
    }

    /// Version 4 addresses come before version 6 addresses, each in numeric order.
    pub open spec fn comes_before(self, other: IpAddress) -> bool {
        match (self, other) {
            (IpAddress::V4(a), IpAddress::V4(b)) => a < b,
            (IpAddress::V4(_), IpAddress::V6(_)) => true,
            (IpAddress::V6(_), IpAddress::V4(_)) => false,
            (IpAddress::V6(a), IpAddress::V6(b)) => a < b,
        }
    }

    pub fn is_loopback(self) -> (result: bool)
        ensures
            result == self.is_loopback_address(),
    {
        match self {
            IpAddress::V4(bits) => bits / 0x100_0000 == 127,
            IpAddress::V6(bits) => bits == 1,
        }
    }

    pub fn is_unspecified(self) -> (result: bool)
        ensures
            result == self.is_unspecified_address(),
    {
        match self {
            IpAddress::V4(bits) => bits == 0,
            IpAddress::V6(bits) => bits == 0,
        }
    }

    pub fn precedes(self, other: IpAddress) -> (result: bool)
        ensures
            result == self.comes_before(other),
    {
        match (self, other) {
            (IpAddress::V4(a), IpAddress::V4(b)) => a < b,
            (IpAddress::V4(_), IpAddress::V6(_)) => true,
            (IpAddress::V6(_), IpAddress::V4(_)) => false,
            (IpAddress::V6(a), IpAddress::V6(b)) => a < b,
        }
    }
}

/// The addresses stand in order, each once.
pub open spec fn is_ordered(addresses: Seq<IpAddress>) -> bool {
    forall|i: int, j: int|
        0 <= i < j < addresses.len() ==> (#[trigger] addresses[i]).comes_before(
            #[trigger] addresses[j],
        )
}

/// `addresses` are the usable ones of `announced`, in order and each once.
pub open spec fn are_usable_of(addresses: Seq<IpAddress>, announced: Seq<IpAddress>) -> bool {
    &&& is_ordered(addresses)
    &&& forall|address: IpAddress| #[trigger]
        addresses.contains(address) <==> announced.contains(address) && address.is_usable()
}

/// The usable ones of the announced addresses, in order and each once.
pub fn usable_addresses(announced: &Vec<IpAddress>) -> (addresses: Vec<IpAddress>)
    ensures
        are_usable_of(addresses@, announced@),
{
    let mut addresses: Vec<IpAddress> = Vec::new();
    let mut index: usize = 0;
    while index < announced.len()
        invariant
            index <= announced@.len(),
            are_usable_of(addresses@, announced@.take(index as int)),
        decreases announced@.len() - index,
    {
        let address = announced[index];
        let ghost before = addresses@;
        let ghost seen = announced@.take(index as int);
        proof {
            assert(announced@.take(index + 1) =~= seen.push(address));
            assert forall|other: IpAddress| #[trigger]
                seen.push(address).contains(other) <==> seen.contains(other) || other
                    == address by {
                vstd::seq_lib::lemma_seq_contains_after_push(seen, address, other);
            }
        }
        if !address.is_loopback() && !address.is_unspecified() {
            enter(&mut addresses, address);
        }
        index += 1;
    }
    assert(announced@.take(index as int) =~= announced@);
    addresses
}

/// Adds an address to others in order, unless it is among them.
fn enter(addresses: &mut Vec<IpAddress>, address: IpAddress)
    requires
        is_ordered(old(addresses)@),
    ensures
        is_ordered(final(addresses)@),
        forall|other: IpAddress| #[trigger]
            final(addresses)@.contains(other) <==> old(addresses)@.contains(other) || other
                == address,
{
    let ghost before = addresses@;
    let mut place: usize = 0;
    while place < addresses.len() && addresses[place].precedes(address)
        invariant
            place <= addresses@.len(),
            before == addresses@,
            forall|i: int| 0 <= i < place ==> (#[trigger] before[i]).comes_before(address),
        decreases addresses@.len() - place,
    {
        place += 1;
    }
    if place < addresses.len() && addresses[place] == address {
        assert(before.contains(address)) by {
            assert(before[place as int] == address);
        }
        return;
    }
    addresses.insert(place, address);
    proof {
        let after = addresses@;
        assert(after == before.insert(place as int, address));
        assert forall|i: int| place <= i < before.len() implies address.comes_before(
            #[trigger] before[i],
        ) by {
            if i > place {
                assert(before[place as int].comes_before(before[i]));
            }
        }
        assert forall|i: int, j: int| 0 <= i < j < after.len() implies (
        #[trigger] after[i]).comes_before(#[trigger] after[j]) by {
            let a = if i > place {
                i - 1
            } else {
                i
            };
            let b = if j > place {
                j - 1
            } else {
                j
            };
            if i != place && j != place {
                assert(after[i] == before[a] && after[j] == before[b]);
            } else if i == place {
                assert(after[j] == before[b]);
            } else {
                assert(after[i] == before[a]);
            }
        }
        assert forall|other: IpAddress| #[trigger]
            after.contains(other) <==> before.contains(other) || other == address by {
            if after.contains(other) {
                let i = choose|i: int| 0 <= i < after.len() && after[i] == other;
                if i < place {
                    assert(before[i] == other);
                } else if i > place {
                    assert(before[i - 1] == other);
                }
            }
            if before.contains(other) {
                let i = choose|i: int| 0 <= i < before.len() && before[i] == other;
                if i < place {
                    assert(after[i] == other);
                } else {
                    assert(after[i + 1] == other);
                }
            }
            assert(after[place as int] == address);
        }
    }
}

/// The usable addresses do not depend on the order in which they are announced,
/// nor on how often.
pub proof fn law_usable_addresses_are_a_set(
    a: Seq<IpAddress>,
    b: Seq<IpAddress>,
    announced: Seq<IpAddress>,
    repeated: Seq<IpAddress>,
)
    requires
        are_usable_of(a, announced),
        are_usable_of(b, repeated),
        forall|address: IpAddress| #[trigger]
            announced.contains(address) <==> repeated.contains(address),
    ensures
        a == b,
{
    lemma_ordered_agree(a, b, if a.len() <= b.len() {
        a.len() as int
    } else {
        b.len() as int
    });
    lemma_no_longer(a, b);
    lemma_no_longer(b, a);
    assert(a =~= b);
}

proof fn lemma_no_longer(a: Seq<IpAddress>, b: Seq<IpAddress>)
    requires
        is_ordered(b),
        forall|i: int| 0 <= i < a.len() && i < b.len() ==> #[trigger] a[i] == b[i],
        forall|address: IpAddress| #[trigger] a.contains(address) <==> b.contains(address),
    ensures
        b.len() <= a.len(),
{
    if a.len() < b.len() {
        let extra = b[a.len() as int];
        assert(b.contains(extra));
        assert(a.contains(extra));
        let i = choose|i: int| 0 <= i < a.len() && a[i] == extra;
        assert(b[i].comes_before(extra));
    }
}

proof fn lemma_ordered_agree(a: Seq<IpAddress>, b: Seq<IpAddress>, count: int)
    requires
        is_ordered(a),
        is_ordered(b),
        0 <= count <= a.len(),
        count <= b.len(),
        forall|address: IpAddress| #[trigger] a.contains(address) <==> b.contains(address),
    ensures
        forall|i: int| 0 <= i < count ==> #[trigger] a[i] == b[i],
    decreases count,
{
    if count > 0 {
        let last = count - 1;
        lemma_ordered_agree(a, b, last);
        if a[last] != b[last] {
            assert(a.contains(a[last]) && b.contains(b[last]));
            assert(b.contains(a[last]) && a.contains(b[last]));
            let j = choose|j: int| 0 <= j < b.len() && b[j] == a[last];
            let k = choose|k: int| 0 <= k < a.len() && a[k] == b[last];
            if j < last {
                assert(a[j] == b[j]);
                assert(a[j].comes_before(a[last]));
            } else if k < last {
                assert(a[k] == b[k]);
                assert(b[k].comes_before(b[last]));
            } else {
                assert(b[last].comes_before(b[j]));
                assert(a[last].comes_before(a[k]));
            }
        }
    }
}

} // verus!
