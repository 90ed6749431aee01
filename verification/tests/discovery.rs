use tevir::discovery::address::{usable_addresses, IpAddress};
use tevir::discovery::nearby::{DiscoveryPoll, NearbyNodes, RegistryUpdate, MAX_NEARBY_NODES};
use tevir::discovery::record::{
    advertisement, capability_bits, encode_fingerprint, parse_capabilities, parse_fingerprint,
    parse_platform, platform_name, verify_protocol, DiscoveredNode, RecordError, ServiceRecord,
    PROPERTY_BUNDLE_CHUNKS, PROPERTY_FINGERPRINT,
};
use tevir::domain::host::HostPlatform;
use tevir::domain::identity::{NodeId, NodeIdError};
use tevir::identity::pairing::{PairingBundle, PairingPayload};
use tevir::protocol::message::Capabilities;

fn node(value: &str) -> NodeId {
    NodeId::new(value).unwrap_or_else(|error| panic!("test node should be valid: {error:?}"))
}

fn parse(payload: &[u8]) -> Result<PairingPayload, String> {
    let value: serde_json::Value =
        serde_json::from_slice(payload).map_err(|error| error.to_string())?;
    let field = |name: &str| value.get(name).ok_or(format!("missing field `{name}`"));
    Ok(PairingPayload {
        version: u8::try_from(field("version")?.as_u64().unwrap_or(0)).unwrap_or(0),
        node: NodeId::new(field("node")?.as_str().unwrap_or(""))
            .map_err(|error| error.message())?,
        trust_anchor: field("trust_anchor")?.as_str().unwrap_or("").to_owned(),
    })
}

fn bundle(name: &str, anchor: u8) -> PairingBundle {
    PairingBundle::new(node(name), vec![anchor; 400])
}

fn capabilities() -> Capabilities {
    Capabilities {
        keyboard: true,
        relative_pointer: true,
        absolute_pointer: false,
        clipboard_text: true,
    }
}

fn resolved(name: &str, anchor: u8) -> ServiceRecord {
    let advertised = advertisement(
        &bundle(name, anchor),
        HostPlatform::LinuxWayland,
        capabilities(),
    )
    .unwrap_or_else(|error| panic!("advertisement failed: {error:?}"));
    ServiceRecord {
        fullname: format!("{}._tevir._udp.local.", advertised.instance),
        properties: advertised.properties,
        addresses: vec![IpAddress::V4(0xc000_0208)],
    }
}

fn discovered(name: &str, anchor: u8) -> DiscoveredNode {
    DiscoveredNode::from_resolved(&resolved(name, anchor), parse)
        .unwrap_or_else(|error| panic!("record should resolve: {error:?}"))
}

#[test]
fn discovery_record_round_trips_public_pairing_material() {
    let discovered = discovered("studio-left", 1);

    assert_eq!(discovered.node().as_str(), "studio-left");
    assert_eq!(discovered.platform(), HostPlatform::LinuxWayland);
    assert_eq!(discovered.capabilities(), capabilities());
    assert_eq!(
        discovered.addresses().iter().next(),
        Some(&IpAddress::V4(0xc000_0208))
    );
    assert_eq!(
        discovered.pairing_bundle().fingerprint(),
        discovered.fingerprint()
    );
}

#[test]
fn rejects_missing_bundle_chunks_before_decoding() {
    let bundle = bundle("studio-left", 1);
    let properties = [
        ("node", "studio-left".to_owned()),
        ("protocol", "1.1".to_owned()),
        ("platform", "linux-wayland".to_owned()),
        ("capabilities", "3".to_owned()),
        ("fingerprint", encode_fingerprint(&bundle.fingerprint())),
        (PROPERTY_BUNDLE_CHUNKS, "1".to_owned()),
        ("unrelated", "present".to_owned()),
    ];
    let record = ServiceRecord {
        fullname: String::from("studio-left"),
        properties: properties
            .into_iter()
            .map(|(key, value)| (key.to_owned(), value))
            .collect(),
        addresses: Vec::new(),
    };

    assert!(matches!(
        DiscoveredNode::from_resolved(&record, parse),
        Err(RecordError::MissingBundleChunk(0))
    ));
}

#[test]
fn rejects_a_fingerprint_that_does_not_bind_the_bundle() {
    let advertised = advertisement(
        &bundle("studio-left", 1),
        HostPlatform::Windows,
        capabilities(),
    )
    .unwrap_or_else(|error| panic!("advertisement failed: {error:?}"));
    let mut record = ServiceRecord {
        fullname: format!("{}._tevir._udp.local.", advertised.instance),
        properties: advertised.properties,
        addresses: vec![IpAddress::V4(0x7f00_0001)],
    };
    let fingerprint = record
        .properties
        .iter_mut()
        .find(|(key, _)| key == PROPERTY_FINGERPRINT)
        .map(|(_, value)| value);
    assert!(fingerprint.is_some());
    if let Some(fingerprint) = fingerprint {
        fingerprint.replace_range(..2, "ff");
    }

    assert!(matches!(
        DiscoveredNode::from_resolved(&record, parse),
        Err(RecordError::FingerprintMismatch)
    ));
}

#[test]
fn registry_is_bounded_and_rejects_identity_conflicts() {
    let mut nearby = NearbyNodes::new();
    let original = discovered("shared-node", 1);
    let conflict = discovered("shared-node", 2);

    assert_eq!(nearby.upsert(original), RegistryUpdate::Added);
    assert_eq!(nearby.upsert(conflict), RegistryUpdate::IdentityConflict);

    for index in 1..MAX_NEARBY_NODES {
        let name = format!("node-{index}");
        assert_eq!(nearby.upsert(discovered(&name, 3)), RegistryUpdate::Added);
    }
    assert_eq!(
        nearby.upsert(discovered("overflow", 4)),
        RegistryUpdate::Full
    );
    assert_eq!(nearby.len(), MAX_NEARBY_NODES);
}

#[test]
fn registry_refreshes_and_forgets() {
    let mut nearby = NearbyNodes::new();
    assert!(nearby.is_empty());
    assert_eq!(nearby.upsert(discovered("a", 1)), RegistryUpdate::Added);
    assert_eq!(nearby.upsert(discovered("a", 1)), RegistryUpdate::Unchanged);
    let mut moved = resolved("a", 1);
    moved.addresses = vec![IpAddress::V4(7)];
    let moved = DiscoveredNode::from_resolved(&moved, parse)
        .unwrap_or_else(|error| panic!("record should resolve: {error:?}"));
    assert_eq!(nearby.upsert(moved), RegistryUpdate::Refreshed);
    assert_eq!(nearby.iter().len(), 1);
    assert_eq!(
        nearby.remove_fullname("a._tevir._udp.local."),
        Some(node("a"))
    );
    assert_eq!(nearby.remove_fullname("a._tevir._udp.local."), None);
}

#[test]
fn addresses_are_listed_once_and_in_order() {
    let loopback = IpAddress::V4(0x7f00_0001);
    assert_eq!(
        usable_addresses(&vec![
            IpAddress::V6(5),
            IpAddress::V4(9),
            loopback,
            IpAddress::V4(3),
            IpAddress::V4(9),
            IpAddress::V4(0),
            IpAddress::V6(1),
        ]),
        vec![IpAddress::V4(3), IpAddress::V4(9), IpAddress::V6(5)]
    );
}

#[test]
fn record_fields_come_back() {
    assert_eq!(verify_protocol("1.3"), Ok(()));
    assert!(matches!(
        verify_protocol("1.1"),
        Err(RecordError::UnsupportedProtocol(version)) if version == "1.1"
    ));
    assert_eq!(platform_name(HostPlatform::LinuxWayland), "linux-wayland");
    assert_eq!(
        parse_platform(platform_name(HostPlatform::Windows)),
        Ok(HostPlatform::Windows)
    );
    assert!(matches!(
        parse_platform("plan9"),
        Err(RecordError::UnsupportedPlatform(_))
    ));
    let bits = capability_bits(capabilities());
    assert_eq!(parse_capabilities(&bits.to_string()), Ok(capabilities()));
    assert_eq!(
        parse_capabilities("16"),
        Err(RecordError::InvalidCapabilities)
    );
    let fingerprint = [0xab; 32];
    let text = encode_fingerprint(&fingerprint);
    assert_eq!(text, "ab".repeat(32));
    assert_eq!(parse_fingerprint(&text), Ok(fingerprint));
    assert_eq!(
        parse_fingerprint("ab"),
        Err(RecordError::InvalidFingerprint)
    );
}

#[test]
fn records_are_refused_for_each_reason() {
    let refused = |key: &str, value: Option<&str>| {
        let mut record = resolved("studio-left", 1);
        record.properties.retain(|(name, _)| name != key);
        if let Some(value) = value {
            record.properties.push((key.to_owned(), value.to_owned()));
        }
        DiscoveredNode::from_resolved(&record, parse).err()
    };
    assert!(matches!(
        refused("node", None),
        Some(RecordError::MissingProperty("node"))
    ));
    assert!(matches!(
        refused("node", Some("Left")),
        Some(RecordError::InvalidNode(
            name,
            NodeIdError::InvalidCharacter {
                index: 0,
                character: b'L',
            },
        )) if name == "Left"
    ));
    assert!(matches!(
        refused("node", Some("other")),
        Some(RecordError::BundleNodeMismatch)
    ));
    assert!(matches!(
        refused(PROPERTY_BUNDLE_CHUNKS, Some("0")),
        Some(RecordError::InvalidBundleChunkCount)
    ));
    let long = "x".repeat(300);
    assert!(matches!(
        refused("bundle-0", Some(&long)),
        Some(RecordError::BundleChunkTooLarge(0))
    ));
}

#[test]
fn polls_take_note_of_changes() {
    let mut nearby = NearbyNodes::new();
    let mut poll = DiscoveryPoll {
        changed: false,
        error: None,
    };
    poll.failed(String::from("mdns stopped"));
    assert_eq!(poll.error.as_deref(), Some("mdns stopped"));
    assert_eq!(poll.removed(&mut nearby, "nobody"), None);
    assert!(!poll.changed);
}

#[test]
fn only_a_missing_part_is_told_before_the_version() {
    let mut record = resolved("studio-left", 1);
    for (key, value) in &mut record.properties {
        if key == "protocol" {
            *value = String::from("1.1");
        }
    }
    assert!(matches!(
        DiscoveredNode::from_resolved(&record, parse),
        Err(RecordError::UnsupportedProtocol(version)) if version == "1.1"
    ));
    for (broken, text) in [
        ("platform", "plan9"),
        ("capabilities", "16"),
        ("fingerprint", "ab"),
        (PROPERTY_BUNDLE_CHUNKS, "0"),
        ("bundle-0", &"x".repeat(300)),
    ] {
        let mut worse = resolved("studio-left", 1);
        for (key, value) in &mut worse.properties {
            if key == "protocol" {
                *value = String::from("1.1");
            } else if key == broken {
                *value = String::from(text);
            }
        }
        assert!(matches!(
            DiscoveredNode::from_resolved(&worse, parse),
            Err(RecordError::UnsupportedProtocol(version)) if version == "1.1"
        ));
    }
    record.properties.retain(|(key, _)| key != "bundle-0");
    assert!(matches!(
        DiscoveredNode::from_resolved(&record, parse),
        Err(RecordError::MissingBundleChunk(0))
    ));
}

#[test]
fn the_case_of_keys_does_not_matter() {
    let mut record = resolved("studio-left", 1);
    for (key, _) in &mut record.properties {
        *key = key.to_ascii_uppercase();
    }
    let found = DiscoveredNode::from_resolved(&record, parse)
        .unwrap_or_else(|error| panic!("record should resolve: {error:?}"));
    assert_eq!(found.node().as_str(), "studio-left");
    record
        .properties
        .insert(0, (String::from("Node"), String::from("other")));
    assert!(matches!(
        DiscoveredNode::from_resolved(&record, parse),
        Err(RecordError::BundleNodeMismatch)
    ));
}
