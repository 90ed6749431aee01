//! Node identifiers.

use vstd::prelude::*;
use vstd::string::*;

use crate::encoding::lower_hex_digit;
use crate::text::push_decimal;

verus! {

pub const MAX_NODE_ID_BYTES: usize = 63;

pub open spec fn is_lower_letter_or_digit(byte: u8) -> bool {
    0x61 <= byte <= 0x7a || 0x30 <= byte <= 0x39
}

pub open spec fn is_letter_or_digit(byte: u8) -> bool {
    is_lower_letter_or_digit(byte) || 0x41 <= byte <= 0x5a
}

/// The bytes that may stand in a node identifier: `a-z`, `0-9` and `-`.
pub open spec fn is_node_id_byte(byte: u8) -> bool {
    is_lower_letter_or_digit(byte) || byte == 0x2d
}

/// The first and the last byte are ASCII letters or digits of either case.
pub open spec fn has_node_id_boundaries(bytes: Seq<u8>) -> bool {
    bytes.len() > 0 && is_letter_or_digit(bytes[0]) && is_letter_or_digit(bytes[bytes.len() - 1])
}

/// A lowercase DNS-label-like name of at most 63 bytes.
pub open spec fn is_node_id(bytes: Seq<u8>) -> bool {
    &&& 0 < bytes.len() <= MAX_NODE_ID_BYTES
    &&& has_node_id_boundaries(bytes)
    &&& forall|i: int| 0 <= i < bytes.len() ==> is_node_id_byte(#[trigger] bytes[i])
}

/// `index` is where the first byte stands that no identifier may hold.
pub open spec fn is_first_invalid_byte(bytes: Seq<u8>, index: int) -> bool {
    &&& 0 <= index < bytes.len()
    &&& !is_node_id_byte(bytes[index])
    &&& forall|i: int| 0 <= i < index ==> is_node_id_byte(#[trigger] bytes[i])
}

/// `a` and `b` have their first `k` bytes in common.
pub open spec fn agree_up_to(a: Seq<u8>, b: Seq<u8>, k: int) -> bool {
    &&& 0 <= k <= a.len()
    &&& k <= b.len()
    &&& forall|i: int| 0 <= i < k ==> #[trigger] a[i] == b[i]
}

/// `a` comes before `b` in the byte-wise lexicographic order.
pub open spec fn bytes_precede(a: Seq<u8>, b: Seq<u8>) -> bool {
    exists|k: int| #[trigger]
        agree_up_to(a, b, k) && k < b.len() && (k == a.len() || a[k] < b[k])
}

fn letter_or_digit(byte: u8) -> (result: bool)
    ensures
        result == is_letter_or_digit(byte),
{
    (byte >= 0x61 && byte <= 0x7a) || (byte >= 0x30 && byte <= 0x39) || (byte >= 0x41 && byte
        <= 0x5a)
}

fn node_id_byte(byte: u8) -> (result: bool)
    ensures
        result == is_node_id_byte(byte),
{
    (byte >= 0x61 && byte <= 0x7a) || (byte >= 0x30 && byte <= 0x39) || byte == 0x2d
}

/// A stable, configuration-facing identifier for a node.
#[derive(Debug, Eq, Hash, PartialOrd, Ord)]
pub struct NodeId(String);

impl View for NodeId {
    type V = Seq<char>;

    closed spec fn view(&self) -> Seq<char> {
        self.0@
    }
}

impl NodeId {
    /// The identifier as UTF-8 text.
    pub open spec fn bytes(self) -> Seq<u8> {
        vstd::utf8::encode_utf8(self@)
    }

    #[verifier::type_invariant]
    closed spec fn is_valid(self) -> bool {
        is_node_id(self.bytes())
    }

    /// Creates an identifier using a lowercase DNS-label-like syntax.
    pub fn new(value: &str) -> (result: Result<NodeId, NodeIdError>)
        ensures
            result is Ok <==> is_node_id(value.spec_bytes()),
            result matches Ok(node) ==> node@ == value@,
            result matches Err(error) ==> error.applies_to(value.spec_bytes()),
    {
        let bytes = value.as_bytes();
        if bytes.len() == 0 {
            return Err(NodeIdError::Empty);
        }
        if bytes.len() > MAX_NODE_ID_BYTES {
            return Err(NodeIdError::TooLong { actual: bytes.len(), maximum: MAX_NODE_ID_BYTES });
        }
        if !letter_or_digit(bytes[0]) || !letter_or_digit(bytes[bytes.len() - 1]) {
            return Err(NodeIdError::InvalidBoundary);
        }
        let mut index: usize = 0;
        while index < bytes.len()
            invariant
                index <= bytes.len(),
                bytes@ == value.spec_bytes(),
                0 < bytes.len() <= MAX_NODE_ID_BYTES,
                has_node_id_boundaries(bytes@),
                forall|i: int| 0 <= i < index ==> is_node_id_byte(#[trigger] bytes@[i]),
            decreases bytes.len() - index,
        {
            if !node_id_byte(bytes[index]) {
                let character: u8 = bytes[index];
                return Err(NodeIdError::InvalidCharacter { index, character });
            }
            index += 1;
        }
        Ok(NodeId(value.to_owned()))
    }

    /// The identifier as text.
    pub fn as_str(&self) -> (text: &str)
        ensures
            text@ == self@,
            is_node_id(text.spec_bytes()),
    {
        proof {
            use_type_invariant(self);
        }
        self.0.as_str()
    }

    /// Gives up the identifier for its text.
    pub fn into_string(self) -> (text: String)
        ensures
            text@ == self@,
    {
        self.0
    }

    /// Whether this identifier sorts before `other`.
    pub fn precedes(&self, other: &NodeId) -> (result: bool)
        ensures
            result == bytes_precede(self.bytes(), other.bytes()),
    {
        text_precedes(self.0.as_str(), other.0.as_str())
    }
}

/// Whether a text sorts before another, byte by byte.
pub fn text_precedes(text: &str, other: &str) -> (result: bool)
    ensures
        result == bytes_precede(
            vstd::utf8::encode_utf8(text@),
            vstd::utf8::encode_utf8(other@),
        ),
{
    let mine = text.as_bytes();
    let theirs = other.as_bytes();
    let mut k: usize = 0;
    while k < mine.len() && k < theirs.len() && mine[k] == theirs[k]
        invariant
            agree_up_to(mine@, theirs@, k as int),
        decreases mine.len() - k,
    {
        k += 1;
    }
    let result = k < theirs.len() && (k == mine.len() || mine[k] < theirs[k]);
    proof {
        if !result && bytes_precede(mine@, theirs@) {
            let other_k = choose|j: int| #[trigger]
                agree_up_to(mine@, theirs@, j) && j < theirs@.len() && (j == mine@.len()
                    || mine@[j] < theirs@[j]);
            assert(agree_up_to(mine@, theirs@, other_k));
            if other_k < k {
                assert(mine@[other_k] == theirs@[other_k]);
            } else if other_k > k {
                assert(mine@[k as int] == theirs@[k as int]);
            }
        }
    }
    result
}

impl Clone for NodeId {
    fn clone(&self) -> (copy: NodeId)
        ensures
            copy == *self,
    {
        proof {
            use_type_invariant(self);
        }
        NodeId(self.0.clone())
    }
}

impl PartialEq for NodeId {
    fn eq(&self, other: &NodeId) -> (result: bool) {
        self.0 == other.0
    }
}

impl vstd::std_specs::cmp::PartialEqSpecImpl for NodeId {
    open spec fn obeys_eq_spec() -> bool {
        true
    }

    open spec fn eq_spec(&self, other: &NodeId) -> bool {
        self@ == other@
    }
}

/// No identifier sorts before itself.
pub proof fn law_node_order_is_irreflexive(a: Seq<u8>)
    ensures
        !bytes_precede(a, a),
{
}

/// Of two different identifiers exactly one sorts first.
pub proof fn law_node_order_is_total(a: Seq<u8>, b: Seq<u8>)
    requires
        a != b,
    ensures
        bytes_precede(a, b) != bytes_precede(b, a),
{
    if bytes_precede(a, b) && bytes_precede(b, a) {
        let j = choose|j: int| #[trigger]
            agree_up_to(a, b, j) && j < b.len() && (j == a.len() || a[j] < b[j]);
        let k = choose|k: int| #[trigger]
            agree_up_to(b, a, k) && k < a.len() && (k == b.len() || b[k] < a[k]);
        if j < k {
            assert(b[j] == a[j]);
        } else if k < j {
            assert(a[k] == b[k]);
        }
    }
    if !bytes_precede(a, b) {
        lemma_first_difference(a, b, 0);
    }
}

/// The order of identifiers can be chained.
pub proof fn law_node_order_is_transitive(a: Seq<u8>, b: Seq<u8>, c: Seq<u8>)
    requires
        bytes_precede(a, b),
        bytes_precede(b, c),
    ensures
        bytes_precede(a, c),
{
    let j = choose|j: int| #[trigger]
        agree_up_to(a, b, j) && j < b.len() && (j == a.len() || a[j] < b[j]);
    let k = choose|k: int| #[trigger]
        agree_up_to(b, c, k) && k < c.len() && (k == b.len() || b[k] < c[k]);
    let m = if j < k {
        j
    } else {
        k
    };
    assert forall|i: int| 0 <= i < m implies #[trigger] a[i] == c[i] by {
        assert(a[i] == b[i]);
        assert(b[i] == c[i]);
    }
    assert(agree_up_to(a, c, m));
    if j < k {
        assert(b[j] == c[j]);
    } else if k < j {
        assert(a[k] == b[k]);
    }
}

proof fn lemma_first_difference(a: Seq<u8>, b: Seq<u8>, k: int)
    requires
        a != b,
        agree_up_to(a, b, k),
    ensures
        bytes_precede(a, b) || bytes_precede(b, a),
    decreases a.len() - k,
{
    if k < a.len() && k < b.len() && a[k] == b[k] {
        lemma_first_difference(a, b, k + 1);
    } else if k == a.len() && k == b.len() {
        assert(a =~= b);
    } else {
        assert(agree_up_to(b, a, k));
    }
}

/// Why a text is not a node identifier.
#[derive(Clone, Copy, Debug, PartialEq, Eq, Structural)]
pub enum NodeIdError {
    Empty,
    TooLong { actual: usize, maximum: usize },
    InvalidBoundary,
    InvalidCharacter { index: usize, character: u8 },
}

impl NodeIdError {
    /// The error in words.
    pub open spec fn text(self) -> Seq<char> {
        match self {
            NodeIdError::Empty => "node ID cannot be empty"@,
            NodeIdError::TooLong { actual, maximum } => "node ID is "@ + crate::text::decimal(
                actual as nat,
            ) + " bytes; the maximum is "@ + crate::text::decimal(maximum as nat),
            NodeIdError::InvalidBoundary => {
                "node ID must start and end with an ASCII letter or digit"@
            },
            NodeIdError::InvalidCharacter { index, character } => "node ID contains invalid byte 0x"@
                + seq![
                crate::encoding::lower_hex((character / 16) as int),
                crate::encoding::lower_hex((character % 16) as int),
            ] + " at index "@ + crate::text::decimal(index as nat),
        }
    }

    /// The error in words.
    pub fn message(&self) -> (message: String)
        ensures
            message@ == self.text(),
    {
        let mut message = String::new();
        match *self {
            NodeIdError::Empty => message.append("node ID cannot be empty"),
            NodeIdError::TooLong { actual, maximum } => {
                message.append("node ID is ");
                push_decimal(&mut message, actual as u64);
                message.append(" bytes; the maximum is ");
                push_decimal(&mut message, maximum as u64);
            },
            NodeIdError::InvalidBoundary => {
                message.append("node ID must start and end with an ASCII letter or digit")
            },
            NodeIdError::InvalidCharacter { index, character } => {
                message.append("node ID contains invalid byte 0x");
                message.push(lower_hex_digit(character / 16));
                message.push(lower_hex_digit(character % 16));
                message.append(" at index ");
                push_decimal(&mut message, index as u64);
            },
        }
        assert(message@ =~= self.text());
        message
    }

    /// This is the error that the text `bytes` is refused with.
    pub open spec fn applies_to(self, bytes: Seq<u8>) -> bool {
        match self {
            NodeIdError::Empty => bytes.len() == 0,
            NodeIdError::TooLong { actual, maximum } => {
                &&& bytes.len() > MAX_NODE_ID_BYTES
                &&& actual == bytes.len()
                &&& maximum == MAX_NODE_ID_BYTES
            },
            NodeIdError::InvalidBoundary => {
                &&& 0 < bytes.len() <= MAX_NODE_ID_BYTES
                &&& !has_node_id_boundaries(bytes)
            },
            NodeIdError::InvalidCharacter { index, character } => {
                &&& bytes.len() <= MAX_NODE_ID_BYTES
                &&& has_node_id_boundaries(bytes)
                &&& is_first_invalid_byte(bytes, index as int)
                &&& character == bytes[index as int]
            },
        }
    }
}


/// An identifier is one to 63 lower case letters, digits and hyphens, with no
/// hyphen at either end.
pub proof fn law_identifiers_are_labels(bytes: Seq<u8>)
    ensures
        is_node_id(bytes) <==> {
            &&& 1 <= bytes.len() <= 63
            &&& forall|i: int|
                0 <= i < bytes.len() ==> {
                    ||| 'a' as u8 <= #[trigger] bytes[i] <= 'z' as u8
                    ||| '0' as u8 <= bytes[i] <= '9' as u8
                    ||| bytes[i] == '-' as u8 && 0 < i < bytes.len() - 1
                }
        },
{
    if is_node_id(bytes) {
        assert forall|i: int| 0 <= i < bytes.len() implies {
            ||| 'a' as u8 <= #[trigger] bytes[i] <= 'z' as u8
            ||| '0' as u8 <= bytes[i] <= '9' as u8
            ||| bytes[i] == '-' as u8 && 0 < i < bytes.len() - 1
        } by {
            assert(is_node_id_byte(bytes[i]));
        }
    }
    if 1 <= bytes.len() <= 63 && (forall|i: int|
        0 <= i < bytes.len() ==> {
            ||| 'a' as u8 <= #[trigger] bytes[i] <= 'z' as u8
            ||| '0' as u8 <= bytes[i] <= '9' as u8
            ||| bytes[i] == '-' as u8 && 0 < i < bytes.len() - 1
        }) {
        assert('a' as u8 <= bytes[0] <= 'z' as u8 || '0' as u8 <= bytes[0] <= '9' as u8);
        let last = bytes.len() - 1;
        assert('a' as u8 <= bytes[last] <= 'z' as u8 || '0' as u8 <= bytes[last] <= '9' as u8);
    }
}

/// One reason applies to every text that is no identifier, and none to one that is.
pub proof fn law_refusals_have_one_reason(bytes: Seq<u8>, a: NodeIdError, b: NodeIdError)
    ensures
        a.applies_to(bytes) ==> !is_node_id(bytes),
        a.applies_to(bytes) && b.applies_to(bytes) ==> a == b,
        a == NodeIdError::Empty && a.applies_to(bytes) <==> bytes.len() == 0 && a
            == NodeIdError::Empty,
        a matches NodeIdError::TooLong { actual, maximum } ==> (a.applies_to(bytes) ==> actual
            == bytes.len() && actual > 63 && maximum == 63),
{
    match (a, b) {
        (
            NodeIdError::InvalidCharacter { index, character },
            NodeIdError::InvalidCharacter { index: other, character: _ },
        ) => {
            if a.applies_to(bytes) && b.applies_to(bytes) {
                if index < other {
                    assert(is_node_id_byte(bytes[index as int]));
                } else if other < index {
                    assert(is_node_id_byte(bytes[other as int]));
                }
            }
        },
        _ => {},
    }
}

/// A shorter text sorts before every longer one that it begins, and the first byte
/// in which two texts differ decides otherwise.
pub proof fn law_the_first_difference_decides(
    common: Seq<u8>,
    a: u8,
    b: u8,
    rest: Seq<u8>,
    other: Seq<u8>,
)
    requires
        a < b,
    ensures
        bytes_precede(common, common.push(a) + rest),
        bytes_precede(common.push(a) + rest, common.push(b) + other),
{
    let first = common.push(a) + rest;
    let second = common.push(b) + other;
    let k = common.len() as int;
    assert(agree_up_to(common, first, k));
    assert(agree_up_to(first, second, k));
    assert(first[k] == a && second[k] == b);
}

} // verus!
