use vstd::prelude::*;
use crate::error::NodeError;
use crate::registry::Registry;
use crate::text::copy_bytes;
use vstd::string::StringSliceAdditionalSpecFns;

verus! {

/// The SHA-256 digest of a byte sequence.
pub uninterp spec fn sha256_of(data: Seq<u8>) -> Seq<u8>;

/// The BLAKE3 digest of a byte sequence.
pub uninterp spec fn blake3_of(data: Seq<u8>) -> Seq<u8>;

/// Multihash code of SHA2-256.
pub const SHA2_256_CODE: u64 = 0x12;

/// The lowercase hexadecimal digit of a value below sixteen.
pub open spec fn hex_digit(n: u8) -> char {
    "0123456789abcdef"@[n as int]
}

/// Two lowercase hexadecimal digits per byte, high digit first.
pub open spec fn hex_of(b: Seq<u8>) -> Seq<char>
    decreases b.len(),
{
    if b.len() == 0 {
        Seq::empty()
    } else {
        hex_of(b.drop_last()) + seq![hex_digit(b.last() / 16), hex_digit(b.last() % 16)]
    }
}

/// A multihash with a code and a digest length below 128, each of which then
/// takes one varint byte.
pub open spec fn multihash_of(code: u64, digest: Seq<u8>) -> Seq<u8> {
    seq![code as u8, digest.len() as u8] + digest
}

/// Relies on `sha2::Sha256::digest`: a 32-byte digest that depends on the
/// input alone.
#[verifier::external_body]
fn sha256_digest(data: &[u8]) -> (r: Vec<u8>)
    ensures
        r@ == sha256_of(data@),
        r@.len() == 32,
{
    <sha2::Sha256 as sha2::Digest>::digest(data).to_vec()
}

/// Relies on `blake3::hash`: a 32-byte digest that depends on the input alone.
#[verifier::external_body]
fn blake3_digest(data: &[u8]) -> (r: Vec<u8>)
    ensures
        r@ == blake3_of(data@),
        r@.len() == 32,
{
    blake3::hash(data).as_bytes().to_vec()
}

/// Relies on `multihash::Multihash::<64>::wrap` followed by `to_bytes`: the
/// varint of the code, the varint of the digest length, then the digest.
#[verifier::external_body]
fn multihash_encode(code: u64, digest: &[u8]) -> (r: Vec<u8>)
    requires
        code < 128,
        digest@.len() <= 64,
    ensures
        r@ == multihash_of(code, digest@),
{
    match multihash::Multihash::<64>::wrap(code, digest) {
        Ok(h) => h.to_bytes(),
        Err(_) => Vec::new(),
    }
}

/// Relies on `hex::encode`: two lowercase hexadecimal digits per byte.
#[verifier::external_body]
fn hex_encode(data: &[u8]) -> (r: String)
    ensures
        r@ == hex_of(data@),
{
    hex::encode(data)
}

/// Whether two byte sequences are equal.
pub fn bytes_equal(a: &[u8], b: &[u8]) -> (r: bool)
    ensures
        r == (a@ == b@),
{
    if a.len() != b.len() {
        return false;
    }
    let mut i: usize = 0;
    while i < a.len()
        invariant
            a@.len() == b@.len(),
            i <= a@.len(),
            forall|j: int| 0 <= j < i ==> a@[j] == b@[j],
        decreases a@.len() - i,
    {
        if a[i] != b[i] {
            return false;
        }
        i = i + 1;
    }
    proof {
        assert(a@ =~= b@);
    }
    true
}

/// Digests of byte strings and texts, and a cache of digests by name.
pub struct HashManager {
    hash_cache: Registry<Vec<u8>>,
}

impl HashManager {
    pub closed spec fn wf(&self) -> bool {
        self.hash_cache.wf()
    }

    /// The cached digests, by name.
    pub closed spec fn cached(&self) -> Map<Seq<char>, Vec<u8>> {
        self.hash_cache@
    }

    pub fn new() -> (r: HashManager)
        ensures
            r.wf(),
            r.cached() == Map::<Seq<char>, Vec<u8>>::empty(),
    {
        HashManager { hash_cache: Registry::new() }
    }

    /// The SHA-256 digest of `data` as a multihash.
    pub fn sha256(&self, data: &[u8]) -> (r: Vec<u8>)
        ensures
            r@ == multihash_of(SHA2_256_CODE, sha256_of(data@)),
    {
        let digest = sha256_digest(data);
        multihash_encode(SHA2_256_CODE, digest.as_slice())
    }

    /// The BLAKE3 digest of `data`.
    pub fn blake3_hash(&self, data: &[u8]) -> (r: Vec<u8>)
        ensures
            r@ == blake3_of(data@),
    {
        blake3_digest(data)
    }

    /// The SHA-256 multihash of the UTF-8 bytes of `data`, in hexadecimal.
    pub fn sha256_string(&self, data: &str) -> (r: String)
        ensures
            r@ == hex_of(multihash_of(SHA2_256_CODE, sha256_of(data.spec_bytes()))),
    {
        let h = self.sha256(data.as_bytes());
        hex_encode(h.as_slice())
    }

    /// The BLAKE3 digest of the UTF-8 bytes of `data`, in hexadecimal.
    pub fn blake3_string(&self, data: &str) -> (r: String)
        ensures
            r@ == hex_of(blake3_of(data.spec_bytes())),
    {
        let h = self.blake3_hash(data.as_bytes());
        hex_encode(h.as_slice())
    }

    /// Whether `expected_hash` is the SHA-256 multihash of `data`.
    pub fn verify_sha256(&self, data: &[u8], expected_hash: &[u8]) -> (r: bool)
        ensures
            r == (expected_hash@ == multihash_of(SHA2_256_CODE, sha256_of(data@))),
    {
        let h = self.sha256(data);
        bytes_equal(h.as_slice(), expected_hash)
    }

    /// Whether `expected_hash` is the BLAKE3 digest of `data`.
    pub fn verify_blake3(&self, data: &[u8], expected_hash: &[u8]) -> (r: bool)
        ensures
            r == (expected_hash@ == blake3_of(data@)),
    {
        let h = self.blake3_hash(data);
        bytes_equal(h.as_slice(), expected_hash)
    }

    pub fn cache_hash(&mut self, key: String, hash: Vec<u8>)
        requires
            old(self).wf(),
        ensures
            final(self).wf(),
            final(self).cached() == old(self).cached().insert(key@, hash),
    {
        self.hash_cache.insert(key, hash);
    }

    pub fn get_cached_hash(&self, key: String) -> (r: Option<Vec<u8>>)
        requires
            self.wf(),
        ensures
            r is Some == self.cached().contains_key(key@),
            r is Some ==> r->0@ == self.cached()[key@]@,
    {
        match self.hash_cache.get(&key) {
            Some(h) => Some(copy_bytes(h)),
            None => None,
        }
    }

    pub fn clear_cache(&mut self)
        requires
            old(self).wf(),
        ensures
            final(self).wf(),
            final(self).cached() == Map::<Seq<char>, Vec<u8>>::empty(),
    {
        self.hash_cache.clear();
    }

    pub fn cache_size(&self) -> (r: usize)
        requires
            self.wf(),
        ensures
            r == self.cached().dom().len(),
    {
        self.hash_cache.len()
    }

    pub fn list_cached_keys(&self) -> (r: Vec<String>)
        requires
            self.wf(),
        ensures
            forall|i: int| 0 <= i < r@.len() ==> self.cached().contains_key(#[trigger] r@[i]@),
            forall|i: int, j: int| 0 <= i < j < r@.len() ==> r@[i]@ != r@[j]@,
            forall|k: Seq<char>|
                #[trigger] self.cached().contains_key(k) ==> exists|i: int|
                    0 <= i < r@.len() && r@[i]@ == k,
    {
        self.hash_cache.keys()
    }

    pub fn remove_cached_hash(&mut self, key: String) -> (r: bool)
        requires
            old(self).wf(),
        ensures
            final(self).wf(),
            r == old(self).cached().contains_key(key@),
            final(self).cached() == old(self).cached().remove(key@),
    {
        self.hash_cache.remove(&key).is_some()
    }

    pub fn hash_exists_in_cache(&self, key: String) -> (r: bool)
        requires
            self.wf(),
        ensures
            r == self.cached().contains_key(key@),
    {
        self.hash_cache.contains_key(&key)
    }
}

#[verifier::external_type_specification]
#[verifier::external_body]
pub struct ExKeypair(libp2p::identity::Keypair);

#[verifier::external_type_specification]
#[verifier::external_body]
pub struct ExPublicKey(libp2p::identity::PublicKey);

#[verifier::external_type_specification]
#[verifier::external_body]
pub struct ExSigningError(libp2p::identity::SigningError);

#[verifier::external_type_specification]
#[verifier::external_body]
pub struct ExDecodingError(libp2p::identity::DecodingError);

/// A fresh random Ed25519 key pair.
pub assume_specification[ libp2p::identity::Keypair::generate_ed25519 ]() -> libp2p::identity::Keypair;

/// A fresh random secp256k1 key pair.
pub assume_specification[ libp2p::identity::Keypair::generate_secp256k1 ]() -> libp2p::identity::Keypair;

/// Signs a message with the secret key.
pub assume_specification[ libp2p::identity::Keypair::sign ](
    k: &libp2p::identity::Keypair,
    msg: &[u8],
) -> Result<Vec<u8>, libp2p::identity::SigningError>;

/// The public half of a key pair.
pub assume_specification[ libp2p::identity::Keypair::public ](
    k: &libp2p::identity::Keypair,
) -> libp2p::identity::PublicKey;

/// The protobuf encoding of a key pair.
pub assume_specification[ libp2p::identity::Keypair::to_protobuf_encoding ](
    k: &libp2p::identity::Keypair,
) -> Result<Vec<u8>, libp2p::identity::DecodingError>;

/// A key pair read back from its protobuf encoding.
pub assume_specification[ libp2p::identity::Keypair::from_protobuf_encoding ](
    bytes: &[u8],
) -> Result<libp2p::identity::Keypair, libp2p::identity::DecodingError>;

/// Whether `sig` is a valid signature of `msg` under the public key.
pub assume_specification[ libp2p::identity::PublicKey::verify ](
    k: &libp2p::identity::PublicKey,
    msg: &[u8],
    sig: &[u8],
) -> bool;

/// The protobuf encoding of a public key.
pub assume_specification[ libp2p::identity::PublicKey::encode_protobuf ](
    k: &libp2p::identity::PublicKey,
) -> Vec<u8>;

/// The peer identifier derived from a public key.
pub assume_specification[ libp2p::identity::PublicKey::to_peer_id ](
    k: &libp2p::identity::PublicKey,
) -> libp2p::PeerId;

/// The kinds of key pair.
#[derive(Debug, Clone, Copy, PartialEq, Eq, Structural)]
pub enum KeyKind {
    Ed25519,
    Rsa,
    Secp256k1,
    Ecdsa,
}

/// The name of a kind of key pair.
pub open spec fn key_kind_name(k: KeyKind) -> Seq<char> {
    match k {
        KeyKind::Ed25519 => "Ed25519"@,
        KeyKind::Rsa => "RSA"@,
        KeyKind::Secp256k1 => "Secp256k1"@,
        KeyKind::Ecdsa => "Ecdsa"@,
    }
}

impl KeyKind {
    /// The name of this kind, as libp2p writes it.
    pub fn name(&self) -> (r: String)
        ensures
            r@ == key_kind_name(*self),
    {
        match self {
            KeyKind::Ed25519 => "Ed25519".to_owned(),
            KeyKind::Rsa => "RSA".to_owned(),
            KeyKind::Secp256k1 => "Secp256k1".to_owned(),
            KeyKind::Ecdsa => "Ecdsa".to_owned(),
        }
    }
}

/// Relies on `Keypair::key_type`: which kind of key the pair holds.
#[verifier::external_body]
fn key_kind_of(k: &libp2p::identity::Keypair) -> KeyKind {
    match k.key_type() {
        libp2p::identity::KeyType::Ed25519 => KeyKind::Ed25519,
        libp2p::identity::KeyType::RSA => KeyKind::Rsa,
        libp2p::identity::KeyType::Secp256k1 => KeyKind::Secp256k1,
        libp2p::identity::KeyType::Ecdsa => KeyKind::Ecdsa,
    }
}

/// Key pairs kept by name.
pub struct KeypairManager {
    keypairs: Registry<libp2p::identity::Keypair>,
}

/// The text of the peer identifier of a key pair.
fn peer_id_text(k: &libp2p::identity::Keypair) -> String {
    k.public().to_peer_id().to_string()
}

impl KeypairManager {
    pub closed spec fn wf(&self) -> bool {
        self.keypairs.wf()
    }

    /// The names that hold a key pair.
    pub closed spec fn names(&self) -> Set<Seq<char>> {
        self.keypairs@.dom()
    }

    pub fn new() -> (r: KeypairManager)
        ensures
            r.wf(),
            r.names() == Set::<Seq<char>>::empty(),
    {
        KeypairManager { keypairs: Registry::new() }
    }

    /// Files `keypair` under `name` and hands back the text of its peer
    /// identifier.
    pub fn insert_keypair(&mut self, name: String, keypair: libp2p::identity::Keypair) -> (r: String)
        requires
            old(self).wf(),
        ensures
            final(self).wf(),
            final(self).names() == old(self).names().insert(name@),
    {
        let peer_id = peer_id_text(&keypair);
        self.keypairs.insert(name, keypair);
        peer_id
    }

    /// Generates an Ed25519 key pair under `name`, replacing an earlier one,
    /// and hands back the text of its peer identifier.
    pub fn generate_ed25519(&mut self, name: String) -> (r: String)
        requires
            old(self).wf(),
        ensures
            final(self).wf(),
            final(self).names() == old(self).names().insert(name@),
    {
        self.insert_keypair(name, libp2p::identity::Keypair::generate_ed25519())
    }

    /// Generates a secp256k1 key pair under `name`, replacing an earlier one,
    /// and hands back the text of its peer identifier.
    pub fn generate_secp256k1(&mut self, name: String) -> (r: String)
        requires
            old(self).wf(),
        ensures
            final(self).wf(),
            final(self).names() == old(self).names().insert(name@),
    {
        self.insert_keypair(name, libp2p::identity::Keypair::generate_secp256k1())
    }

    /// The protobuf encoding of the public key under `name`; an unknown
    /// name is `NotFound`.
    pub fn get_public_key(&self, name: String) -> (r: Result<Vec<u8>, NodeError>)
        requires
            self.wf(),
        ensures
            r is Ok == self.names().contains(name@),
            r is Err ==> r == Err::<Vec<u8>, NodeError>(NodeError::NotFound),
    {
        match self.keypairs.get(&name) {
            Some(k) => Ok(k.public().encode_protobuf()),
            None => Err(NodeError::NotFound),
        }
    }

    /// The text of the peer identifier under `name`; an unknown name is
    /// `NotFound`.
    pub fn get_peer_id(&self, name: String) -> (r: Result<String, NodeError>)
        requires
            self.wf(),
        ensures
            r is Ok == self.names().contains(name@),
            r is Err ==> r == Err::<String, NodeError>(NodeError::NotFound),
    {
        match self.keypairs.get(&name) {
            Some(k) => Ok(peer_id_text(k)),
            None => Err(NodeError::NotFound),
        }
    }

    /// Signs `data` with the key pair under `name`; an unknown name is
    /// `NotFound` and a signing failure `KeyFailure`.
    pub fn sign(&self, name: String, data: &[u8]) -> (r: Result<Vec<u8>, NodeError>)
        requires
            self.wf(),
        ensures
            !self.names().contains(name@) ==> r == Err::<Vec<u8>, NodeError>(NodeError::NotFound),
            r is Err && self.names().contains(name@) ==> r == Err::<Vec<u8>, NodeError>(
                NodeError::KeyFailure,
            ),
    {
        match self.keypairs.get(&name) {
            Some(k) => match k.sign(data) {
                Ok(sig) => Ok(sig),
                Err(_) => Err(NodeError::KeyFailure),
            },
            None => Err(NodeError::NotFound),
        }
    }

    /// Whether `signature` signs `data` under the key pair `name`; an
    /// unknown name is `NotFound`.
    pub fn verify(&self, name: String, data: &[u8], signature: &[u8]) -> (r: Result<bool, NodeError>)
        requires
            self.wf(),
        ensures
            r is Ok == self.names().contains(name@),
            r is Err ==> r == Err::<bool, NodeError>(NodeError::NotFound),
    {
        match self.keypairs.get(&name) {
            Some(k) => Ok(k.public().verify(data, signature)),
            None => Err(NodeError::NotFound),
        }
    }

    /// The protobuf encoding of the key pair under `name`; an unknown name is
    /// `NotFound` and an encoding failure `KeyFailure`.
    pub fn export_private_key(&self, name: String) -> (r: Result<Vec<u8>, NodeError>)
        requires
            self.wf(),
        ensures
            !self.names().contains(name@) ==> r == Err::<Vec<u8>, NodeError>(NodeError::NotFound),
            r is Err && self.names().contains(name@) ==> r == Err::<Vec<u8>, NodeError>(
                NodeError::KeyFailure,
            ),
    {
        match self.keypairs.get(&name) {
            Some(k) => match k.to_protobuf_encoding() {
                Ok(bytes) => Ok(bytes),
                Err(_) => Err(NodeError::KeyFailure),
            },
            None => Err(NodeError::NotFound),
        }
    }

    /// Reads a key pair from its protobuf encoding and files it under
    /// `name`; a malformed encoding is `KeyFailure` and changes nothing.
    pub fn import_private_key(&mut self, name: String, private_key_bytes: &[u8]) -> (r: Result<String, NodeError>)
        requires
            old(self).wf(),
        ensures
            final(self).wf(),
            r is Ok ==> final(self).names() == old(self).names().insert(name@),
            r is Err ==> r == Err::<String, NodeError>(NodeError::KeyFailure) && final(self).names()
                == old(self).names(),
    {
        match libp2p::identity::Keypair::from_protobuf_encoding(private_key_bytes) {
            Ok(k) => Ok(self.insert_keypair(name, k)),
            Err(_) => Err(NodeError::KeyFailure),
        }
    }

    /// The names that hold a key pair, each once.
    pub fn list_keypairs(&self) -> (r: Vec<String>)
        requires
            self.wf(),
        ensures
            forall|i: int| 0 <= i < r@.len() ==> self.names().contains(#[trigger] r@[i]@),
            forall|i: int, j: int| 0 <= i < j < r@.len() ==> r@[i]@ != r@[j]@,
            forall|k: Seq<char>|
                #[trigger] self.names().contains(k) ==> exists|i: int| 0 <= i < r@.len() && r@[i]@ == k,
    {
        self.keypairs.keys()
    }

    pub fn remove_keypair(&mut self, name: String) -> (r: bool)
        requires
            old(self).wf(),
        ensures
            final(self).wf(),
            r == old(self).names().contains(name@),
            final(self).names() == old(self).names().remove(name@),
    {
        self.keypairs.remove(&name).is_some()
    }

    pub fn keypair_exists(&self, name: String) -> (r: bool)
        requires
            self.wf(),
        ensures
            r == self.names().contains(name@),
    {
        self.keypairs.contains_key(&name)
    }

    /// The name of the kind of the key pair under `name`; an unknown name is
    /// `NotFound`.
    pub fn get_keypair_type(&self, name: String) -> (r: Result<String, NodeError>)
        requires
            self.wf(),
        ensures
            r is Ok == self.names().contains(name@),
            r is Ok ==> exists|k: KeyKind| #[trigger] key_kind_name(k) == r->Ok_0@,
            r is Err ==> r == Err::<String, NodeError>(NodeError::NotFound),
    {
        match self.keypairs.get(&name) {
            Some(k) => {
                let kind = key_kind_of(k);
                let text = kind.name();
                proof {
                    assert(key_kind_name(kind) == text@);
                }
                Ok(text)
            },
            None => Err(NodeError::NotFound),
        }
    }
}

} // verus!
