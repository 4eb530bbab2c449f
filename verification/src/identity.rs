//! The identity of a node: a key that it keeps, and the peer id that belongs to the key.

use vstd::prelude::*;
use vstd::utf8::{encode_utf8, is_ascii_chars, is_ascii_chars_encode_utf8};

verus! {

/// Where a node keeps its key.
pub const IDENTITY_PATH: &'static str = "identity.key";

/// The peer id, in its text form, that belongs to the key encoded in `key`, as `libp2p`
/// computes it; `None` if `key` does not encode a key.
pub uninterp spec fn peer_id_of(key: Seq<u8>) -> Option<Seq<char>>;

/// Whether `key` has the form in which an Ed25519 key pair is stored: the number of the key
/// type, and 64 bytes of key.
pub open spec fn is_ed25519_key(key: Seq<u8>) -> bool {
    key.len() == 68 && key.take(4) == seq![8u8, 1u8, 18u8, 64u8]
}

/// What the peer id of every Ed25519 key begins with.
pub const PEER_ID_PREFIX: &'static str = "12D3KooW";

/// Whether `text` has the form of the peer id of an Ed25519 key.
pub open spec fn is_peer_id(text: Seq<char>) -> bool {
    &&& text.len() == 52
    &&& text.take(8) == PEER_ID_PREFIX@
    &&& is_ascii_chars(text)
}

/// The identity of a node.
#[derive(Clone, Debug, PartialEq, Eq)]
pub struct Identity {
    /// The key pair, in the encoding in which it is stored.
    pub key: Vec<u8>,
    /// The peer id that belongs to the key.
    pub peer_id: String,
    /// Whether the key is new and has still to be stored.
    pub fresh: bool,
}

impl Identity {
    /// Whether the key is an Ed25519 one and the peer id is the one that belongs to it.
    pub open spec fn well_formed(self) -> bool {
        peer_id_of(self.key@) == Some(self.peer_id@) && is_peer_id(self.peer_id@)
    }
}

/// Why there is no identity.
#[derive(Clone, Copy, Debug, PartialEq, Eq, Structural)]
pub enum IdentityError {
    /// What is stored does not encode a key.
    Undecodable,
    /// The new key cannot be encoded.
    Unencodable,
}

/// The error of `libp2p`'s encoding and decoding of keys.
#[verifier::external_type_specification]
#[verifier::external_body]
pub struct ExDecodingError(libp2p::identity::DecodingError);

/// Calls `libp2p::identity::Keypair::from_protobuf_encoding`, and on the key pair that it
/// returns `Keypair::public`, `PeerId::from` and the peer id's `Display` implementation.
/// The result depends on the encoded key alone. Ed25519 is the one type of key that is
/// compiled in. The peer id of such a key is in base58: 38 bytes, of which the first six are
/// the same for all, so that it takes 52 characters and the first eight are the same for all.
#[verifier::external_body]
fn key_peer_id(key: &[u8]) -> (r: Result<String, libp2p::identity::DecodingError>)
    ensures
        peer_id_of(key@) == (match r {
            Ok(peer_id) => Some(peer_id@),
            Err(_) => None,
        }),
        r matches Ok(peer_id) ==> is_peer_id(peer_id@),
{
    let keypair = libp2p::identity::Keypair::from_protobuf_encoding(key)?;
    Ok(libp2p::PeerId::from(keypair.public()).to_string())
}

/// Calls `libp2p::identity::Keypair::generate_ed25519` for a random key pair, and
/// `Keypair::to_protobuf_encoding` to encode it, which fails for RSA keys only. What it
/// encodes is of the form of an Ed25519 key, and can be decoded. Which key it is, is left to
/// chance.
#[verifier::external_body]
fn generate_key() -> (r: Result<Vec<u8>, libp2p::identity::DecodingError>)
    ensures
        r is Ok,
        r matches Ok(key) ==> is_ed25519_key(key@),
        r matches Ok(key) ==> peer_id_of(key@) is Some,
{
    libp2p::identity::Keypair::generate_ed25519().to_protobuf_encoding()
}

/// The identity with the key encoded in `key`.
pub fn decode_identity(key: Vec<u8>, fresh: bool) -> (r: Result<Identity, IdentityError>)
    ensures
        match r {
            Ok(identity) => {
                &&& identity.well_formed()
                &&& identity.key@ == key@
                &&& identity.fresh == fresh
            },
            Err(e) => e == IdentityError::Undecodable && peer_id_of(key@) is None,
        },
{
    match key_peer_id(key.as_slice()) {
        Ok(peer_id) => Ok(Identity { key, peer_id, fresh }),
        Err(_) => Err(IdentityError::Undecodable),
    }
}

/// The identity with a newly generated key, if there is one.
pub fn new_identity(generated: Option<Vec<u8>>) -> (r: Result<Identity, IdentityError>)
    ensures
        match (generated, r) {
            (Some(key), Ok(identity)) => {
                &&& identity.well_formed()
                &&& identity.key@ == key@
                &&& identity.fresh
            },
            (Some(key), Err(e)) => e == IdentityError::Undecodable && peer_id_of(key@) is None,
            (None, Ok(_)) => false,
            (None, Err(e)) => e == IdentityError::Unencodable,
        },
{
    match generated {
        Some(key) => decode_identity(key, true),
        None => Err(IdentityError::Unencodable),
    }
}

/// Whether `r` is right for a node in the place of whose key `stored` is stored.
pub open spec fn is_identity_for(
    stored: Option<Vec<u8>>,
    r: Result<Identity, IdentityError>,
) -> bool {
    match (stored, r) {
        (Some(key), Ok(identity)) => {
            &&& identity.well_formed()
            &&& identity.key@ == key@
            &&& !identity.fresh
        },
        (Some(key), Err(e)) => e == IdentityError::Undecodable && peer_id_of(key@) is None,
        (None, Ok(identity)) => {
            &&& identity.well_formed()
            &&& is_ed25519_key(identity.key@)
            &&& identity.fresh
        },
        (None, Err(_)) => false,
    }
}

/// The identity of a node, given what is stored in the place of its key: the stored one, or
/// a new one if nothing is stored. A new one is `fresh` and has to be stored. Which key a new
/// one has is left to chance.
pub fn load_or_create_identity(stored: Option<Vec<u8>>) -> (r: Result<Identity, IdentityError>)
    ensures
        is_identity_for(stored, r),
{
    match stored {
        Some(key) => decode_identity(key, false),
        None => {
            let generated = match generate_key() {
                Ok(key) => Some(key),
                Err(_) => None,
            };
            new_identity(generated)
        },
    }
}

/// A peer id takes 52 bytes in a message.
pub proof fn peer_id_takes_few_bytes(text: Seq<char>)
    requires
        is_peer_id(text),
    ensures
        encode_utf8(text).len() == 52,
{
    is_ascii_chars_encode_utf8(text);
}

/// A node always has an identity unless what is stored for it is no key.
pub proof fn node_has_an_identity(
    stored: Option<Vec<u8>>,
    r: Result<Identity, IdentityError>,
)
    requires
        is_identity_for(stored, r),
    ensures
        r is Ok <==> (stored matches Some(key) ==> peer_id_of(key@) is Some),
        r matches Ok(identity) ==> is_peer_id(identity.peer_id@) && peer_id_of(identity.key@)
            == Some(identity.peer_id@),
{
}

/// A node that stored its key has the same identity when it starts again: the key decodes,
/// and to the same peer id.
pub proof fn stored_identity_loads_again(identity: Identity, again: Result<Identity, IdentityError>)
    requires
        identity.well_formed(),
        is_identity_for(Some(identity.key), again),
    ensures
        again is Ok,
        again->Ok_0.peer_id@ == identity.peer_id@,
        again->Ok_0.key@ == identity.key@,
        !again->Ok_0.fresh,
{
}

/// The identity of a node is the one of its stored key, where there is one: the key itself
/// and the peer id that belongs to it, and nothing is to be stored. Where there is none, the
/// identity is a new Ed25519 key with its peer id, which is to be stored. It is refused only
/// if what is stored is no key.
pub proof fn identity_is_that_of_the_stored_key(
    stored: Option<Vec<u8>>,
    r: Result<Identity, IdentityError>,
)
    requires
        is_identity_for(stored, r),
    ensures
        r matches Ok(identity) ==> {
            &&& peer_id_of(identity.key@) == Some(identity.peer_id@)
            &&& identity.peer_id@.len() == 52
            &&& identity.peer_id@.take(8) == "12D3KooW"@
            &&& identity.fresh == (stored is None)
            &&& stored matches Some(key) ==> identity.key@ == key@
            &&& stored is None ==> identity.key@.len() == 68 && identity.key@[0] == 8
                && identity.key@[1] == 1 && identity.key@[2] == 18 && identity.key@[3] == 64
        },
        r matches Err(e) ==> e == IdentityError::Undecodable && stored is Some && peer_id_of(
            stored.unwrap()@,
        ) is None,
{
    if stored is None {
        let key = r->Ok_0.key@;
        assert(key.take(4)[0] == 8 && key.take(4)[1] == 1 && key.take(4)[2] == 18 && key.take(4)[3]
            == 64);
    }
}

} // verus!
