use tevir::domain::identity::NodeId;
use tevir::identity::pairing::{
    certificate_fingerprint, PairingBundle, PairingError, PairingPayload, MAX_CERTIFICATE_BYTES,
};
use tevir::identity::store::{
    IdentityError, LocalIdentity, PeerFileError, TrustError, TrustStore, TrustedPeer,
    MAX_TRUSTED_PEERS,
};

fn node(value: &str) -> NodeId {
    NodeId::new(value).unwrap_or_else(|error| panic!("invalid test node: {error:?}"))
}

fn parse(payload: &[u8]) -> Result<PairingPayload, String> {
    let value: serde_json::Value =
        serde_json::from_slice(payload).map_err(|error| error.to_string())?;
    let field = |name: &str| value.get(name).ok_or(format!("missing field `{name}`"));
    Ok(PairingPayload {
        version: u8::try_from(field("version")?.as_u64().unwrap_or(0)).unwrap_or(0),
        node: NodeId::new(field("node")?.as_str().unwrap_or(""))
            .map_err(|error| error.message())?,
        trust_anchor: field("trust_anchor")?.as_str().unwrap_or("").to_owned(),
    })
}

#[test]
fn pairing_bundle_round_trips_without_private_material() {
    let bundle = PairingBundle::new(node("studio-left"), vec![1, 2, 3, 4]);
    let encoded = bundle.encode();
    let decoded = PairingBundle::decode(&encoded, parse)
        .unwrap_or_else(|error| panic!("bundle should decode: {error:?}"));

    assert_eq!(decoded, bundle);
    assert!(!encoded.contains("PRIVATE"));
}

#[test]
fn pairing_code_accepts_readable_variants() {
    let bundle = PairingBundle::new(node("studio-left"), vec![9, 8, 7, 6]);
    let code = bundle.code();
    let compact = code.as_str().replace('-', "").to_ascii_lowercase();

    assert!(code.matches(&compact));
    assert!(!code.matches("0000-0000-0000-0000-0000-0000"));
}

#[test]
fn rejects_unknown_bundle_versions() {
    let encoded = PairingBundle::new(node("studio-left"), vec![1]).encode();
    let replacement = encoded.replacen("v1", "v2", 1);

    assert!(matches!(
        PairingBundle::decode(&replacement, parse),
        Err(PairingError::InvalidPrefix)
    ));
}

#[test]
fn fingerprints_are_digests() {
    assert_eq!(
        certificate_fingerprint(b"abc")[..4],
        [0xba, 0x78, 0x16, 0xbf]
    );
    let code = PairingBundle::new(node("studio-left"), b"abc".to_vec()).code();
    assert_eq!(code.as_str().len(), 29);
    assert_eq!(code.as_str(), code.as_str().to_ascii_uppercase());
}

#[test]
fn broken_bundles_are_refused_for_each_reason() {
    let payload = |version, anchor: &str| {
        PairingBundle::from_payload(Ok(PairingPayload {
            version,
            node: node("left"),
            trust_anchor: anchor.to_owned(),
        }))
    };
    assert_eq!(payload(1, "AQID").map(|bundle| bundle.trust_anchor().to_vec()), Ok(vec![1, 2, 3]));
    assert_eq!(payload(2, "AQID").err(), Some(PairingError::UnsupportedVersion(2)));
    assert_eq!(
        payload(1, "A").err(),
        Some(PairingError::InvalidCertificateEncoding)
    );
    assert_eq!(
        payload(1, "").err(),
        Some(PairingError::InvalidCertificateLength {
            actual: 0,
            maximum: MAX_CERTIFICATE_BYTES
        })
    );
    assert_eq!(
        PairingBundle::from_payload(Err(String::from("no object"))).err(),
        Some(PairingError::InvalidPayload(String::from("no object")))
    );
    assert_eq!(
        PairingBundle::decode("tevir-pair-v1.e30", parse).err(),
        Some(PairingError::InvalidPayload(String::from("missing field `version`")))
    );
    assert_eq!(
        PairingBundle::decode("tevir-pair-v1.!", parse).err(),
        Some(PairingError::InvalidEncoding)
    );
    let long = format!("tevir-pair-v1.{}", "A".repeat(100_000));
    assert_eq!(
        PairingBundle::decode(&long, parse).err(),
        Some(PairingError::BundleTooLarge)
    );
}

fn identity(name: &str) -> LocalIdentity {
    LocalIdentity::new(node(name), vec![1, 2, 3], vec![4, 5], vec![6, 7])
}

#[test]
fn identity_is_stable_across_loads() {
    let first = identity("left");
    let second = LocalIdentity::from_file(first.to_file(), &node("left"))
        .unwrap_or_else(|error| panic!("identity load failed: {error:?}"));

    assert_eq!(
        first.pairing_bundle().fingerprint(),
        second.pairing_bundle().fingerprint()
    );
    assert_eq!(first.private_key_der(), second.private_key_der());
    assert_eq!(first.certificate_chain(), second.certificate_chain());
}

#[test]
fn rejects_identity_reuse_for_another_node() {
    assert!(matches!(
        LocalIdentity::from_file(identity("left").to_file(), &node("right")),
        Err(IdentityError::NodeMismatch { .. })
    ));
}

#[test]
fn broken_credentials_are_refused_for_each_reason() {
    let load = |change: fn(&mut tevir::identity::store::CredentialFile)| {
        let mut file = identity("left").to_file();
        change(&mut file);
        LocalIdentity::from_file(file, &node("left")).err()
    };
    assert_eq!(
        load(|file| file.version = 9),
        Some(IdentityError::UnsupportedCredentialVersion(9))
    );
    assert_eq!(
        load(|file| file.certificate = String::from("?")),
        Some(IdentityError::InvalidCredentialEncoding)
    );
    assert_eq!(
        load(|file| file.private_key = String::new()),
        Some(IdentityError::EmptyCredentialMaterial)
    );
    assert_eq!(load(|_| ()), None);
}

#[test]
fn trust_requires_matching_out_of_band_code() {
    let right = identity("right");
    let mut trust = TrustStore::empty();

    assert!(matches!(
        trust.trust(right.pairing_bundle(), "wrong"),
        Err(TrustError::PairingCodeMismatch)
    ));
    assert_eq!(trust.peers().len(), 0);
}

#[test]
fn trusted_peer_survives_reload_and_can_be_removed() {
    let bundle = identity("right").pairing_bundle();
    let code = bundle.code();
    let mut trust = TrustStore::empty();
    let stored = trust
        .trust(bundle, code.as_str())
        .unwrap_or_else(|error| panic!("pairing failed: {error:?}"))
        .unwrap_or_else(|| panic!("the peer is new"));

    let file = stored.to_file();
    let peer = TrustedPeer::from_file(file)
        .unwrap_or_else(|error| panic!("peer reload failed: {error:?}"));
    let mut reloaded = TrustStore::open(vec![peer])
        .unwrap_or_else(|error| panic!("trust reload failed: {error:?}"));
    assert!(reloaded.get(&node("right")).is_some());
    assert!(reloaded.remove(&node("right")));
    assert!(!reloaded.remove(&node("right")));
}

fn pair(trust: &mut TrustStore, name: &str, anchor: Vec<u8>) -> Result<bool, TrustError> {
    let bundle = PairingBundle::new(node(name), anchor);
    let code = bundle.code();
    trust
        .trust(bundle, code.as_str())
        .map(|stored| stored.is_some())
}

#[test]
fn stores_name_the_first_node_of_a_shared_certificate() {
    let peer = |name: &str, anchor: u8| {
        let mut trust = TrustStore::empty();
        assert_eq!(pair(&mut trust, name, vec![anchor]), Ok(true));
        trust
            .get(&node(name))
            .unwrap_or_else(|| panic!("peer should be trusted"))
            .clone()
    };
    let stored = vec![peer("d", 1), peer("e", 2), peer("c", 2), peer("a", 1), peer("b", 3)];
    assert_eq!(
        TrustStore::open(stored).err(),
        Some(TrustError::CertificateAlreadyTrusted(node("a")))
    );
    let stored = vec![peer("e", 1), peer("d", 2), peer("c", 2), peer("a", 1), peer("b", 3)];
    assert_eq!(
        TrustStore::open(stored).err(),
        Some(TrustError::CertificateAlreadyTrusted(node("c")))
    );
}

#[test]
fn trust_is_refused_for_each_reason() {
    let mut trust = TrustStore::empty();
    assert_eq!(pair(&mut trust, "right", vec![1]), Ok(true));
    assert_eq!(pair(&mut trust, "right", vec![1]), Ok(false));
    assert_eq!(
        pair(&mut trust, "right", vec![2]),
        Err(TrustError::NodeAlreadyTrusted(node("right")))
    );
    assert_eq!(
        pair(&mut trust, "other", vec![1]),
        Err(TrustError::CertificateAlreadyTrusted(node("right")))
    );
    for index in 1..MAX_TRUSTED_PEERS {
        assert_eq!(
            pair(
                &mut trust,
                &format!("peer-{index}"),
                vec![3, (index / 256) as u8, index as u8]
            ),
            Ok(true)
        );
    }
    assert_eq!(
        pair(&mut trust, "late", vec![9]),
        Err(TrustError::TooManyPeers {
            maximum: MAX_TRUSTED_PEERS
        })
    );
}

#[test]
fn broken_peer_files_are_refused_for_each_reason() {
    let load = |version, anchor: &str| {
        TrustedPeer::from_file(tevir::identity::store::PeerFile {
            version,
            node: node("right"),
            trust_anchor: anchor.to_owned(),
        })
        .err()
    };
    assert_eq!(load(1, "AQID"), None);
    assert_eq!(load(2, "AQID"), Some(PeerFileError::UnsupportedVersion(2)));
    assert_eq!(
        load(1, "?"),
        Some(PeerFileError::InvalidCertificateEncoding)
    );
    assert_eq!(load(1, ""), Some(PeerFileError::EmptyCertificate));
    let peer = |anchor: &str| {
        TrustedPeer::from_file(tevir::identity::store::PeerFile {
            version: 1,
            node: node("right"),
            trust_anchor: anchor.to_owned(),
        })
        .unwrap_or_else(|error| panic!("peer failed: {error:?}"))
    };
    assert!(matches!(
        TrustStore::open(vec![peer("AQID"), peer("BAUG")]),
        Err(TrustError::DuplicateNodeFile { index: 1 })
    ));
}
