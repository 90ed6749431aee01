//! What a record says, and which nodes are listed.

use vstd::prelude::*;

use crate::discovery::address::IpAddress;
use crate::discovery::nearby::RegistryUpdate;
use crate::discovery::record::{ClaimsView, RecordFault};
use crate::domain::host::HostPlatform;
use crate::protocol::message::Capabilities;

verus! {

/// Addresses of the host itself, from 127.0.0.0 to 127.255.255.255 and `::1`, and
/// those of no host, 0.0.0.0 and `::`, cannot be used from elsewhere; all others can.
pub proof fn law_usable_addresses_leave_the_host(address: IpAddress)
    ensures
        match address {
            IpAddress::V4(bits) => address.is_usable() <==> bits != 0 && (bits < 0x7f00_0000 || bits
                > 0x7fff_ffff),
            IpAddress::V6(bits) => address.is_usable() <==> bits > 1,
        },
{
}

/// The usable addresses of a record are those announced, and each stands before the
/// larger ones of its kind; those of version 6 stand behind the others.
pub proof fn law_usable_addresses_are_the_announced_ones(
    addresses: Seq<IpAddress>,
    announced: Seq<IpAddress>,
    i: int,
    j: int,
)
    requires
        crate::discovery::address::are_usable_of(addresses, announced),
        0 <= i < j < addresses.len(),
    ensures
        announced.contains(addresses[i]),
        match (addresses[i], addresses[j]) {
            (IpAddress::V4(a), IpAddress::V4(b)) => a < b,
            (IpAddress::V6(a), IpAddress::V6(b)) => a < b,
            (first, second) => first is V4 && second is V6,
        },
{
    assert(addresses.contains(addresses[i]));
    assert(addresses[i].comes_before(addresses[j]));
}

/// A node that is not listed is, while fewer than 64 are; a listed one is replaced by
/// what is announced under the same certificate, and kept against another. All other
/// nodes stay.
pub proof fn law_announced_nodes_are_listed(
    before: Seq<crate::discovery::record::NodeView>,
    node: crate::discovery::record::NodeView,
    after: Seq<crate::discovery::record::NodeView>,
    update: RegistryUpdate,
    other: crate::discovery::record::NodeView,
)
    requires
        crate::discovery::nearby::is_registry(before),
        crate::discovery::nearby::is_upsert(before, node, after, update),
        other.node != node.node,
    ensures
        after.contains(other) <==> before.contains(other),
        update is Added ==> after.contains(node) && before.len() < 64 && after.len()
            == before.len() + 1 && forall|i: int|
            0 <= i < before.len() ==> (#[trigger] before[i]).node != node.node,
        update is Full ==> after == before && before.len() >= 64 && forall|i: int|
            0 <= i < before.len() ==> (#[trigger] before[i]).node != node.node,
        update is Refreshed || update is Unchanged ==> after.contains(node) && after.len()
            == before.len() && exists|i: int|
            0 <= i < before.len() && (#[trigger] before[i]).node == node.node
                && crate::digest::sha256_of(before[i].bundle.trust_anchor)
                == crate::digest::sha256_of(node.bundle.trust_anchor) && (update is Unchanged
                <==> before[i] == node),
        update is IdentityConflict ==> after == before && exists|i: int|
            0 <= i < before.len() && (#[trigger] before[i]).node == node.node
                && crate::digest::sha256_of(before[i].bundle.trust_anchor)
                != crate::digest::sha256_of(node.bundle.trust_anchor),
{
    if crate::discovery::nearby::is_listed(before, node.node) {
        let index = choose|index: int| #[trigger]
            crate::discovery::nearby::stands_at(before, node.node, index)
                && if before[index].fingerprint() != node.fingerprint() {
                after == before && update == RegistryUpdate::IdentityConflict
            } else {
                &&& after == before.update(index, node)
                &&& update == if before[index] == node {
                    RegistryUpdate::Unchanged
                } else {
                    RegistryUpdate::Refreshed
                }
            };
        assert(before[index].node == node.node);
        if before[index].fingerprint() == node.fingerprint() {
            assert(after[index] == node);
            lemma_others_stay(before, after, index, other);
        } else {
            lemma_conflicting_is_not_listed(before, node, index);
        }
    } else {
        assert forall|i: int| 0 <= i < before.len() implies (#[trigger] before[i]).node
            != node.node by {
            assert(!crate::discovery::nearby::stands_at(before, node.node, i));
        }
        if before.len() < 64 {
            let index = choose|index: int|
                0 <= index <= before.len() && after == #[trigger] before.insert(index, node);
            assert(after[index] == node);
            if after.contains(other) {
                let i = choose|i: int| 0 <= i < after.len() && after[i] == other;
                if i < index {
                    assert(before[i] == other);
                } else {
                    assert(before[i - 1] == other);
                }
            }
            if before.contains(other) {
                let i = choose|i: int| 0 <= i < before.len() && before[i] == other;
                if i < index {
                    assert(after[i] == other);
                } else {
                    assert(after[i + 1] == other);
                }
            }
        } else {
            if before.contains(node) {
                let i = choose|i: int| 0 <= i < before.len() && before[i] == node;
                assert(before[i].node != node.node);
            }
        }
    }
}

proof fn lemma_others_stay(
    before: Seq<crate::discovery::record::NodeView>,
    after: Seq<crate::discovery::record::NodeView>,
    index: int,
    other: crate::discovery::record::NodeView,
)
    requires
        0 <= index < before.len(),
        after == before.update(index, after[index]),
        before[index].node != other.node,
        after[index].node != other.node,
    ensures
        after.contains(other) <==> before.contains(other),
{
    if after.contains(other) {
        let i = choose|i: int| 0 <= i < after.len() && after[i] == other;
        assert(before[i] == other);
    }
    if before.contains(other) {
        let i = choose|i: int| 0 <= i < before.len() && before[i] == other;
        assert(after[i] == other);
    }
}

proof fn lemma_conflicting_is_not_listed(
    entries: Seq<crate::discovery::record::NodeView>,
    node: crate::discovery::record::NodeView,
    index: int,
)
    requires
        crate::discovery::nearby::is_registry(entries),
        0 <= index < entries.len(),
        entries[index].node == node.node,
        entries[index].fingerprint() != node.fingerprint(),
    ensures
        !entries.contains(node),
{
    if entries.contains(node) {
        let i = choose|i: int| 0 <= i < entries.len() && entries[i] == node;
        let names = crate::discovery::nearby::names(entries);
        assert(names[i] == names[index]);
        if i < index {
            crate::session::roster::lemma_listed_once(names, i, index);
        } else if index < i {
            crate::session::roster::lemma_listed_once(names, index, i);
        }
    }
}

/// A service that departs takes its node from the list and no other; one that is not
/// listed changes nothing.
pub proof fn law_departed_services_leave_the_list(
    before: Seq<crate::discovery::record::NodeView>,
    fullname: Seq<char>,
    after: Seq<crate::discovery::record::NodeView>,
    departed: Option<Seq<char>>,
)
    requires
        crate::discovery::nearby::is_departure(before, fullname, after, departed),
    ensures
        departed is None ==> after == before,
        departed is Some <==> exists|i: int|
            0 <= i < before.len() && (#[trigger] before[i]).fullname == fullname,
        departed matches Some(node) ==> after.len() + 1 == before.len() && exists|i: int|
            0 <= i < before.len() && (#[trigger] before[i]).fullname == fullname && before[i].node
                == node && forall|j: int|
                0 <= j < after.len() ==> #[trigger] after[j] == before[if j < i {
                    j
                } else {
                    j + 1
                }],
{
    if let Some(node) = departed {
        let index = choose|index: int| #[trigger]
            crate::discovery::nearby::is_first_named(before, fullname, index) && node
                == before[index].node && after == before.remove(index);
        assert(before[index].fullname == fullname);
    }
}

/// Texts are the same but for their case exactly where they are as long and each
/// character is the same, or the two are a letter in both cases.
pub proof fn law_case_does_not_matter(a: Seq<char>, b: Seq<char>)
    ensures
        crate::platform::report::same_ignoring_case(a, b) <==> a.len() == b.len() && forall|i: int|
            0 <= i < a.len() ==> {
                ||| #[trigger] a[i] == b[i]
                ||| 'A' <= a[i] <= 'Z' && b[i] as int == a[i] as int + 32
                ||| 'A' <= b[i] <= 'Z' && a[i] as int == b[i] as int + 32
            },
{
    let lower_a = crate::identity::pairing::lowered(a);
    let lower_b = crate::identity::pairing::lowered(b);
    assert(lower_a.len() == a.len() && lower_b.len() == b.len());
    if lower_a == lower_b {
        assert forall|i: int| 0 <= i < a.len() implies {
            ||| #[trigger] a[i] == b[i]
            ||| 'A' <= a[i] <= 'Z' && b[i] as int == a[i] as int + 32
            ||| 'A' <= b[i] <= 'Z' && a[i] as int == b[i] as int + 32
        } by {
            assert(lower_a[i] == crate::identity::pairing::ascii_lower(a[i]));
            assert(lower_b[i] == crate::identity::pairing::ascii_lower(b[i]));
        }
    }
    if a.len() == b.len() && forall|i: int|
        0 <= i < a.len() ==> {
            ||| #[trigger] a[i] == b[i]
            ||| 'A' <= a[i] <= 'Z' && b[i] as int == a[i] as int + 32
            ||| 'A' <= b[i] <= 'Z' && a[i] as int == b[i] as int + 32
        } {
        assert forall|i: int| 0 <= i < a.len() implies lower_a[i] == lower_b[i] by {
            assert(a[i] == a[i]);
        }
        assert(lower_a =~= lower_b);
    }
}

proof fn lemma_property_from(
    properties: Seq<(Seq<char>, Seq<char>)>,
    key: Seq<char>,
    from: int,
    at: int,
)
    requires
        0 <= from <= at < properties.len(),
        crate::platform::report::same_ignoring_case(properties[at].0, key),
        forall|i: int|
            from <= i < at ==> !crate::platform::report::same_ignoring_case(
                (#[trigger] properties[i]).0,
                key,
            ),
    ensures
        crate::discovery::record::property_from(properties, key, from) == if properties[at].1.len()
            == 0 {
            None
        } else {
            Some(properties[at].1)
        },
    decreases at - from,
{
    if from < at {
        lemma_property_from(properties, key, from + 1, at);
    }
}

/// A property has the value that stands first under its key, in whatever case; an
/// empty one counts as missing.
pub proof fn law_properties_have_their_first_value(
    properties: Seq<(Seq<char>, Seq<char>)>,
    key: Seq<char>,
    at: int,
)
    requires
        0 <= at < properties.len(),
        crate::platform::report::same_ignoring_case(properties[at].0, key),
        forall|i: int|
            0 <= i < at ==> !crate::platform::report::same_ignoring_case(
                (#[trigger] properties[i]).0,
                key,
            ),
    ensures
        properties[at].1.len() > 0 ==> crate::discovery::record::property_value(properties, key)
            == Some(properties[at].1),
        properties[at].1.len() == 0 ==> crate::discovery::record::property_value(properties, key)
            is None,
{
    lemma_property_from(properties, key, 0, at);
}

/// The keyboard counts one, relative motion two, absolute motion four and the
/// clipboard eight.
pub proof fn law_capabilities_have_their_bits(bits: int)
    requires
        0 <= bits < 16,
    ensures
        ({
            let capabilities = crate::discovery::record::capabilities_of(bits);
            let weight = |has: bool, bit: int|
                if has {
                    bit
                } else {
                    0
                };
            &&& bits == weight(capabilities.keyboard, 1) + weight(capabilities.relative_pointer, 2)
                + weight(capabilities.absolute_pointer, 4) + weight(capabilities.clipboard_text, 8)
            &&& crate::discovery::record::bits_of(capabilities) == bits
        }),
{
}

/// A fingerprint is written with two lower case digits for each byte, the higher one
/// first.
pub proof fn law_fingerprints_are_written_in_pairs(fingerprint: Seq<u8>, index: int)
    requires
        0 <= index < fingerprint.len(),
    ensures
        ({
            let text = crate::discovery::record::fingerprint_text(fingerprint);
            &&& text.len() == 2 * fingerprint.len()
            &&& text[2 * index] == crate::encoding::lower_hex((fingerprint[index] / 16) as int)
            &&& text[2 * index + 1] == crate::encoding::lower_hex((fingerprint[index] % 16) as int)
        }),
{
    assert((2 * index) / 2 == index && (2 * index + 1) / 2 == index);
}

/// A platform goes by its name.
pub proof fn law_platforms_have_their_names(name: Seq<char>)
    ensures
        crate::discovery::record::named_platform(name) == Some(HostPlatform::LinuxWayland) <==> name
            == "linux-wayland"@,
        crate::discovery::record::named_platform(name) == Some(HostPlatform::Windows) <==> name
            == "windows"@,
        name != "linux-wayland"@ && name != "windows"@
            ==> crate::discovery::record::named_platform(name) is None,
{
    reveal_strlit("linux-wayland");
    reveal_strlit("windows");
    assert("linux-wayland"@.len() != "windows"@.len());
}

/// A record is accepted only for what its properties say: its node, version 1.3, one
/// of the two platforms, capabilities of four bits, a digest, and one to eight parts
/// of a bundle.
pub proof fn law_records_claim_what_their_properties_say(
    properties: Seq<(Seq<char>, Seq<char>)>,
    claims: ClaimsView,
)
    requires
        crate::discovery::record::record_claims(properties) == Ok::<ClaimsView, RecordFault>(
            claims,
        ),
    ensures
        crate::discovery::record::property_value(properties, "node"@) == Some(claims.node),
        crate::domain::identity::is_node_id(vstd::utf8::encode_utf8(claims.node)),
        crate::discovery::record::property_value(properties, "protocol"@) == Some(
            seq!['1', '.', '3'],
        ),
        crate::discovery::record::property_value(properties, "platform"@) == Some(
            match claims.platform {
                HostPlatform::LinuxWayland => "linux-wayland"@,
                HostPlatform::Windows => "windows"@,
            },
        ),
        crate::discovery::record::property_value(properties, "capabilities"@) matches Some(text)
            && (crate::text::parsed_u32(text) matches Ok(bits) && bits < 16 && claims.capabilities
            == crate::discovery::record::capabilities_of(bits as int)),
        crate::discovery::record::property_value(properties, "fingerprint"@) matches Some(text)
            && crate::discovery::record::announced_fingerprint(text) == Some(claims.fingerprint),
        crate::discovery::record::property_value(properties, "bundle-chunks"@) matches Some(text)
            && (crate::text::parsed_u32(text) matches Ok(count) && 1 <= count <= 8
            && crate::discovery::record::joined_chunks(properties, count as nat) == Ok::<
            Seq<char>,
            RecordFault,
        >(claims.bundle)),
{
    reveal_strlit("linux-wayland");
    reveal_strlit("windows");
    assert("linux-wayland"@.len() != "windows"@.len());
    reveal_with_fuel(crate::text::decimal, 2);
    assert(crate::discovery::record::protocol_text() =~= seq!['1', '.', '3']);
}

/// The parts of a bundle are joined in order: each stands under its number, takes at
/// most 220 bytes and goes behind those before it.
pub proof fn law_parts_are_joined_in_order(
    properties: Seq<(Seq<char>, Seq<char>)>,
    count: nat,
    text: Seq<char>,
)
    requires
        crate::discovery::record::joined_chunks(properties, count + 1) == Ok::<
            Seq<char>,
            RecordFault,
        >(text),
    ensures
        crate::discovery::record::property_value(
            properties,
            "bundle-"@ + crate::text::decimal(count),
        ) matches Some(part) && vstd::utf8::encode_utf8(part).len() <= 220
            && (crate::discovery::record::joined_chunks(properties, count) matches Ok(earlier)
            && text == earlier + part),
        crate::discovery::record::joined_chunks(properties, 0) == Ok::<Seq<char>, RecordFault>(
            Seq::empty(),
        ),
{
}

/// A record is refused for the first part of its bundle that is missing, if all that
/// stands before the bundle is right, whatever its version.
pub proof fn law_missing_parts_are_told(
    properties: Seq<(Seq<char>, Seq<char>)>,
    node: Seq<char>,
    version: Seq<char>,
    index: nat,
)
    requires
        crate::discovery::record::property_value(properties, "node"@) == Some(node),
        crate::domain::identity::is_node_id(vstd::utf8::encode_utf8(node)),
        crate::discovery::record::property_value(properties, "protocol"@) == Some(version),
        crate::discovery::record::host_claim(properties, node) == Err::<ClaimsView, RecordFault>(
            RecordFault::MissingBundleChunk(index),
        ),
    ensures
        crate::discovery::record::record_claims(properties) == Err::<ClaimsView, RecordFault>(
            RecordFault::MissingBundleChunk(index),
        ),
{
}

/// Any other version than 1.3 is refused as such, unless a part of the bundle is
/// missing.
pub proof fn law_other_versions_are_refused(
    properties: Seq<(Seq<char>, Seq<char>)>,
    node: Seq<char>,
    version: Seq<char>,
)
    requires
        crate::discovery::record::property_value(properties, "node"@) == Some(node),
        crate::domain::identity::is_node_id(vstd::utf8::encode_utf8(node)),
        crate::discovery::record::property_value(properties, "protocol"@) == Some(version),
        version != seq!['1', '.', '3'],
    ensures
        crate::discovery::record::record_claims(properties) == Err::<ClaimsView, RecordFault>(
            RecordFault::UnsupportedProtocol(version),
        ) || (crate::discovery::record::record_claims(properties) matches Err(
            RecordFault::MissingBundleChunk(_),
        )),
{
    reveal_with_fuel(crate::text::decimal, 2);
    assert(crate::discovery::record::protocol_text() =~= seq!['1', '.', '3']);
}

/// A record is bound to its bundle exactly where that is the bundle of the claimed
/// node and its certificate has the claimed fingerprint.
pub proof fn law_records_are_bound_to_their_bundle(
    claims: ClaimsView,
    bundle: crate::identity::pairing::BundleView,
)
    ensures
        crate::discovery::record::binding_fault(claims, bundle) is None <==> claims.node
            == bundle.node && claims.fingerprint == crate::digest::sha256_of(bundle.trust_anchor),
        crate::discovery::record::binding_fault(claims, bundle) == Some(
            RecordFault::BundleNodeMismatch,
        ) <==> claims.node != bundle.node,
{
}

/// A round counts as changed once something was added or refreshed, and has an
/// error once a node was refused. What a round came to is not forgotten.
pub proof fn law_rounds_keep_what_they_came_to(
    poll: crate::discovery::nearby::PollView,
    node: Seq<char>,
    update: crate::discovery::nearby::RegistryUpdate,
)
    ensures
        ({
            let after = crate::discovery::nearby::poll_after(poll, node, update);
            &&& after.changed <==> poll.changed || update is Added || update is Refreshed
            &&& poll.error is Some ==> after.error is Some
            &&& update is Full || update is IdentityConflict ==> after.error is Some
            &&& update is Added || update is Refreshed || update is Unchanged ==> after.error
                == poll.error
        }),
{
}

} // verus!
