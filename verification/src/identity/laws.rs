//! What pairing codes show, and whom they make trusted.

use vstd::prelude::*;

use crate::identity::pairing::{BundleView, PairingError};
use crate::identity::store::{CredentialFile, PeerFile, PeerFileError, PeerView, TrustErrorView};

verus! {

/// The text is the first twelve bytes of the digest as upper case hexadecimal
/// digits, two for each, the higher one first.
pub open spec fn spells_digest(text: Seq<char>, digest: Seq<u8>) -> bool {
    &&& text.len() == 24
    &&& forall|i: int|
        0 <= i < 12 ==> text[2 * i] == crate::encoding::upper_hex(
            (#[trigger] digest[i] / 16) as int,
        ) && text[2 * i + 1] == crate::encoding::upper_hex((digest[i] % 16) as int)
}

proof fn lemma_digits_without_hyphens(bytes: Seq<u8>, index: int)
    requires
        0 <= index < bytes.len(),
    ensures
        ({
            let text = crate::identity::pairing::without_hyphens(
                crate::encoding::hex_groups(bytes),
            );
            &&& text.len() == 2 * bytes.len()
            &&& text[2 * index] == crate::encoding::upper_hex((bytes[index] / 16) as int)
            &&& text[2 * index + 1] == crate::encoding::upper_hex((bytes[index] % 16) as int)
        }),
    decreases bytes.len(),
{
    let shorter = bytes.drop_last();
    let rest = crate::encoding::hex_groups(shorter);
    let high = crate::encoding::upper_hex((bytes.last() / 16) as int);
    let low = crate::encoding::upper_hex((bytes.last() % 16) as int);
    let separated = if bytes.len() > 1 && bytes.len() % 2 == 1 {
        rest.push('-')
    } else {
        rest
    };
    crate::numerals::law_hexadecimal_digits((bytes.last() / 16) as int);
    crate::numerals::law_hexadecimal_digits((bytes.last() % 16) as int);
    assert(high != '-' && low != '-');
    assert(separated.push(high).push(low).drop_last() =~= separated.push(high));
    assert(separated.push(high).drop_last() =~= separated);
    assert(rest.push('-').drop_last() =~= rest);
    reveal_with_fuel(crate::identity::pairing::without_hyphens, 4);
    if shorter.len() == 0 {
        assert(rest =~= Seq::<char>::empty());
    } else if index < shorter.len() {
        lemma_digits_without_hyphens(shorter, index);
    } else {
        lemma_digits_without_hyphens(shorter, index - 1);
    }
}

/// A code shows the first twelve bytes of the digest, in groups of two bytes with a
/// hyphen between them.
pub proof fn law_codes_show_twelve_bytes(digest: Seq<u8>, index: int)
    requires
        digest.len() == 32,
        0 <= index < 12,
    ensures
        ({
            let code = crate::identity::pairing::code_text(digest);
            let at = 2 * index + index / 2;
            &&& code.len() == 29
            &&& code[at] == crate::encoding::upper_hex((digest[index] / 16) as int)
            &&& code[at + 1] == crate::encoding::upper_hex((digest[index] % 16) as int)
            &&& index % 2 == 0 && index > 0 ==> code[at - 1] == '-'
        }),
{
    crate::numerals::law_bytes_are_written_in_groups(digest.take(12), index);
}

/// Of a typed code, white space and hyphens do not count, and lower case letters
/// count as upper case ones; everything else counts as it is, in its order.
pub proof fn law_typed_codes_are_read_leniently(a: Seq<char>, b: Seq<char>, c: char)
    ensures
        crate::identity::pairing::normalized(a + b) == crate::identity::pairing::normalized(a)
            + crate::identity::pairing::normalized(b),
        c == ' ' || c == '-' || c == '\t' || c == '\n' || c == '\r' || c == '\u{c}'
            ==> crate::identity::pairing::normalized(seq![c]).len() == 0,
        'a' <= c <= 'z' ==> crate::identity::pairing::normalized(seq![c]) == seq![
            (c as int - 32) as char,
        ],
        !('a' <= c <= 'z') && c != ' ' && c != '-' && c != '\t' && c != '\n' && c != '\r' && c
            != '\u{c}' ==> crate::identity::pairing::normalized(seq![c]) == seq![c],
    decreases b.len(),
{
    reveal_with_fuel(crate::identity::pairing::normalized, 2);
    assert(seq![c].drop_last() =~= Seq::<char>::empty());
    assert(Seq::<char>::empty().push(c) =~= seq![c]);
    assert(Seq::<char>::empty().push((c as int - 32) as char) =~= seq![(c as int - 32) as char]);
    if b.len() == 0 {
        assert(a + b =~= a);
        assert(crate::identity::pairing::normalized(a) + Seq::<char>::empty()
            =~= crate::identity::pairing::normalized(a));
    } else {
        law_typed_codes_are_read_leniently(a, b.drop_last(), c);
        assert((a + b).drop_last() =~= a + b.drop_last());
        assert((a + b).last() == b.last());
        assert(crate::identity::pairing::normalized(a + b)
            =~= crate::identity::pairing::normalized(a)
            + crate::identity::pairing::normalized(b));
    }
}

proof fn lemma_code_spells(digest: Seq<u8>)
    requires
        digest.len() == 32,
    ensures
        spells_digest(
            crate::identity::pairing::without_hyphens(
                crate::identity::pairing::code_text(digest),
            ),
            digest,
        ),
{
    let shown = digest.take(12);
    let text = crate::identity::pairing::without_hyphens(crate::encoding::hex_groups(shown));
    lemma_digits_without_hyphens(shown, 0);
    assert forall|i: int| 0 <= i < 12 implies text[2 * i] == crate::encoding::upper_hex(
        (#[trigger] digest[i] / 16) as int,
    ) && text[2 * i + 1] == crate::encoding::upper_hex((digest[i] % 16) as int) by {
        lemma_digits_without_hyphens(shown, i);
        assert(shown[i] == digest[i]);
    }
}

proof fn lemma_one_spelling(a: Seq<char>, b: Seq<char>, digest: Seq<u8>)
    requires
        spells_digest(a, digest),
        spells_digest(b, digest),
    ensures
        a == b,
{
    assert forall|i: int| 0 <= i < 24 implies a[i] == b[i] by {
        let byte = digest[i / 2];
        assert(a[2 * (i / 2)] == b[2 * (i / 2)]);
        assert(a[2 * (i / 2) + 1] == b[2 * (i / 2) + 1]);
    }
    assert(a =~= b);
}

/// A node becomes trusted with its certificate exactly where the typed code spells
/// the digest of the certificate, neither the node nor the certificate is trusted
/// already, and fewer than 256 nodes are. Trusting the same again changes nothing;
/// all else is refused for its own reason.
pub proof fn law_trust_is_given_for_the_code(
    peers: Seq<PeerView>,
    bundle: BundleView,
    typed: Seq<char>,
)
    requires
        crate::identity::store::is_trust_store(peers),
        crate::digest::sha256_of(bundle.trust_anchor).len() == 32,
    ensures
        ({
            let result = crate::identity::store::trust_outcome(peers, bundle, typed);
            let digest = crate::digest::sha256_of(bundle.trust_anchor);
            let spelled = spells_digest(crate::identity::pairing::normalized(typed), digest);
            let known = exists|i: int|
                0 <= i < peers.len() && (#[trigger] peers[i]).node == bundle.node;
            let same = exists|i: int|
                0 <= i < peers.len() && (#[trigger] peers[i]).node == bundle.node
                    && crate::digest::sha256_of(peers[i].trust_anchor) == digest;
            let taken = exists|i: int|
                0 <= i < peers.len() && crate::digest::sha256_of(
                    (#[trigger] peers[i]).trust_anchor,
                ) == digest;
            &&& !spelled <==> result == Err::<Option<PeerView>, TrustErrorView>(
                TrustErrorView::PairingCodeMismatch,
            )
            &&& (result matches Ok(Some(_))) <==> spelled && !known && !taken && peers.len() < 256
            &&& result matches Ok(Some(peer)) ==> peer.node == bundle.node && peer.trust_anchor
                == bundle.trust_anchor
            &&& (result matches Ok(None)) <==> spelled && same
            &&& spelled && known && !same ==> result == Err::<Option<PeerView>, TrustErrorView>(
                TrustErrorView::NodeAlreadyTrusted(bundle.node),
            )
            &&& spelled && !known && peers.len() >= 256 ==> result == Err::<
                Option<PeerView>,
                TrustErrorView,
            >(TrustErrorView::TooManyPeers { maximum: 256 })
            &&& spelled && !known && peers.len() < 256 && taken ==> (result matches Err(
                TrustErrorView::CertificateAlreadyTrusted(holder),
            ) && exists|i: int|
                0 <= i < peers.len() && (#[trigger] peers[i]).node == holder
                    && crate::digest::sha256_of(peers[i].trust_anchor) == digest)
        }),
{
    let digest = crate::digest::sha256_of(bundle.trust_anchor);
    let code = crate::identity::pairing::without_hyphens(
        crate::identity::pairing::code_text(digest),
    );
    let given = crate::identity::pairing::normalized(typed);
    lemma_code_spells(digest);
    if spells_digest(given, digest) {
        lemma_one_spelling(given, code, digest);
    }
    let known = crate::identity::store::knows_node(peers, bundle.node);
    let taken = exists|i: int|
        0 <= i < peers.len() && (#[trigger] peers[i]).fingerprint() == digest;
    if exists|i: int|
        0 <= i < peers.len() && crate::digest::sha256_of((#[trigger] peers[i]).trust_anchor)
            == digest {
        let i = choose|i: int|
            0 <= i < peers.len() && crate::digest::sha256_of((#[trigger] peers[i]).trust_anchor)
                == digest;
        assert(peers[i].fingerprint() == digest);
    }
    if taken {
        let i = choose|i: int|
            0 <= i < peers.len() && (#[trigger] peers[i]).fingerprint() == digest;
        assert(crate::digest::sha256_of(peers[i].trust_anchor) == digest);
    }
}

/// Content is a bundle exactly where it is of version 1 and carries a certificate
/// of one byte up to sixteen kibibytes, and then it is that of its node.
pub proof fn law_bundles_carry_a_certificate(version: u8, node: Seq<char>, encoded: Seq<char>)
    ensures
        ({
            let result = crate::identity::pairing::payload_bundle(version, node, encoded);
            let bytes = crate::encoding::standard_base64_bytes(encoded);
            &&& result is Ok <==> version == 1 && (bytes matches Some(certificate) && 1
                <= certificate.len() <= 16_384)
            &&& result matches Ok(bundle) ==> bundle.node == node && bytes == Some(
                bundle.trust_anchor,
            )
            &&& version != 1 ==> result == Err::<BundleView, PairingError>(
                PairingError::UnsupportedVersion(version),
            )
            &&& version == 1 && bytes is None ==> result == Err::<BundleView, PairingError>(
                PairingError::InvalidCertificateEncoding,
            )
        }),
{
}

/// A text carries content exactly where it takes at most 64 kibibytes, begins with
/// the prefix once white space around it is gone, and goes on with Base64 of at most
/// 64 kibibytes, and then it is those bytes.
pub proof fn law_bundle_texts_carry_their_content(value: Seq<char>)
    ensures
        ({
            let result = crate::identity::pairing::carried_payload(value);
            let inner = crate::text::trimmed(value);
            let prefixed = inner.len() >= 14 && inner.take(14) == "tevir-pair-v1."@;
            let bytes = crate::encoding::url_base64_bytes(inner.skip(14));
            let small = vstd::utf8::encode_utf8(value).len() <= 65_536;
            &&& !small ==> result == Err::<Seq<u8>, PairingError>(PairingError::BundleTooLarge)
            &&& small && !prefixed ==> result == Err::<Seq<u8>, PairingError>(
                PairingError::InvalidPrefix,
            )
            &&& small && prefixed && bytes is None ==> result == Err::<Seq<u8>, PairingError>(
                PairingError::InvalidEncoding,
            )
            &&& small && prefixed && (bytes matches Some(content) && content.len() <= 65_536)
                ==> result == Ok::<Seq<u8>, PairingError>(bytes->Some_0)
            &&& small && prefixed && (bytes matches Some(content) && content.len() > 65_536)
                ==> result == Err::<Seq<u8>, PairingError>(PairingError::BundleTooLarge)
        }),
{
    reveal_strlit("tevir-pair-v1.");
    assert("tevir-pair-v1."@.len() == 14);
}

/// Stored credentials are accepted exactly where they are of version 1, belong to
/// the node and hold three materials of at least one byte, and then each is what
/// stands in its own place.
pub proof fn law_credentials_are_what_was_stored(file: CredentialFile, expected: Seq<char>)
    ensures
        ({
            let result = crate::identity::store::accepted_identity(file, expected);
            let anchor = crate::encoding::standard_base64_bytes(file.trust_anchor@);
            let certificate = crate::encoding::standard_base64_bytes(file.certificate@);
            let key = crate::encoding::standard_base64_bytes(file.private_key@);
            &&& result is Ok <==> {
                &&& file.version == 1
                &&& file.node@ == expected
                &&& anchor matches Some(bytes) && bytes.len() > 0
                &&& certificate matches Some(bytes) && bytes.len() > 0
                &&& key matches Some(bytes) && bytes.len() > 0
            }
            &&& result matches Ok(identity) ==> {
                &&& identity.node == file.node@
                &&& Some(identity.trust_anchor) == anchor
                &&& Some(identity.certificate) == certificate
                &&& Some(identity.private_key) == key
            }
        }),
{
}

/// A stored peer is accepted exactly where it is of version 1 and holds a
/// certificate, and then it is that of its node.
pub proof fn law_peers_are_what_was_stored(file: PeerFile)
    ensures
        ({
            let result = crate::identity::store::accepted_peer(file);
            let bytes = crate::encoding::standard_base64_bytes(file.trust_anchor@);
            &&& file.version != 1 ==> result == Err::<PeerView, PeerFileError>(
                PeerFileError::UnsupportedVersion(file.version),
            )
            &&& file.version == 1 && bytes is None ==> result == Err::<PeerView, PeerFileError>(
                PeerFileError::InvalidCertificateEncoding,
            )
            &&& file.version == 1 && (bytes matches Some(certificate) && certificate.len() == 0)
                ==> result == Err::<PeerView, PeerFileError>(PeerFileError::EmptyCertificate)
            &&& file.version == 1 && (bytes matches Some(certificate) && certificate.len() > 0)
                ==> (result matches Ok(peer) && peer.node == file.node@ && Some(peer.trust_anchor)
                == bytes)
        }),
{
}

/// A store holds at most 256 peers, no node and no certificate twice.
pub proof fn law_stores_hold_each_once(peers: Seq<PeerView>, i: int, j: int)
    requires
        crate::identity::store::is_trust_store(peers),
        0 <= i < j < peers.len(),
    ensures
        peers.len() <= 256,
        peers[i].node != peers[j].node,
        crate::digest::sha256_of(peers[i].trust_anchor) != crate::digest::sha256_of(
            peers[j].trust_anchor,
        ),
{
    assert(crate::session::roster::precedes(peers[i].node, peers[j].node));
    crate::session::roster::lemma_precedes_is_irreflexive(peers[i].node);
    assert(peers[i].fingerprint() != peers[j].fingerprint());
}

} // verus!
