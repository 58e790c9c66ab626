//! Addresses, chunks and responsibility prefixes.

use vstd::prelude::*;

verus! {

/// The `i`-th bit of a byte sequence, counting from the most significant bit
/// of the first byte.
pub open spec fn addr_bit(bytes: Seq<u8>, i: int) -> bool
    recommends
        0 <= i < 8 * bytes.len(),
{
    (bytes[i / 8] >> ((7 - i % 8) as u8)) & 1 == 1
}

/// The result of hashing a byte string into a 32-byte content address.
pub uninterp spec fn content_hash(data: Seq<u8>) -> Seq<u8>;

/// Relies on `xor_name::XorName::from_content`: the SHA3-256 digest of the
/// input, 32 bytes, a function of the input bytes alone.
#[verifier::external_body]
fn hash_content(data: &[u8]) -> (r: [u8; 32])
    ensures
        r@ == content_hash(data@),
{
    xor_name::XorName::from_content(data).0
}

/// The `i`-th bit of a 32-byte array, most significant bit first.
fn byte_array_bit(bytes: &[u8; 32], i: usize) -> (r: bool)
    requires
        i < 256,
    ensures
        r == addr_bit(bytes@, i as int),
{
    let byte: u8 = bytes[i / 8];
    let shift: u8 = (7 - i % 8) as u8;
    ((byte >> shift) & 1) == 1
}

/// A fixed-width content hash identifying one chunk.
#[derive(Clone, Copy, Debug)]
pub struct ChunkAddress {
    bytes: [u8; 32],
}

impl View for ChunkAddress {
    type V = Seq<u8>;

    closed spec fn view(&self) -> Seq<u8> {
        self.bytes@
    }
}

impl ChunkAddress {
    /// Wraps a 32-byte hash value as an address.
    pub fn new(bytes: [u8; 32]) -> (r: ChunkAddress)
        ensures
            r@ == bytes@,
    {
        ChunkAddress { bytes }
    }

    /// The raw bytes of the address.
    pub fn name(&self) -> (r: &[u8; 32])
        ensures
            r@ == self@,
    {
        &self.bytes
    }

    /// The `i`-th bit of the address, most significant first.
    pub fn bit(&self, i: usize) -> (r: bool)
        requires
            i < 256,
        ensures
            r == addr_bit(self@, i as int),
    {
        byte_array_bit(&self.bytes, i)
    }
}

/// An immutable binary object together with its content address.
#[derive(Clone, Debug)]
pub struct Chunk {
    address: ChunkAddress,
    payload: Vec<u8>,
}

impl Chunk {
    /// The address under which the chunk is stored.
    pub closed spec fn addr_spec(&self) -> Seq<u8> {
        self.address@
    }

    /// The chunk's byte payload.
    pub closed spec fn payload_spec(&self) -> Seq<u8> {
        self.payload@
    }

    /// Builds a chunk from its bytes; the address is the content hash of the
    /// payload, so equal payloads always share an address.
    pub fn new(payload: Vec<u8>) -> (c: Chunk)
        ensures
            c.addr_spec() == content_hash(payload@),
            c.payload_spec() == payload@,
    {
        let hash = hash_content(payload.as_slice());
        Chunk { address: ChunkAddress::new(hash), payload }
    }

    /// Rebuilds a chunk from an address and bytes loaded from its mapped
    /// path. The address is taken as given: stored content is not re-hashed.
    pub fn from_parts(address: ChunkAddress, payload: Vec<u8>) -> (c: Chunk)
        ensures
            c.addr_spec() == address@,
            c.payload_spec() == payload@,
    {
        Chunk { address, payload }
    }

    /// The chunk's address.
    pub fn address(&self) -> (r: &ChunkAddress)
        ensures
            r@ == self.addr_spec(),
    {
        &self.address
    }

    /// The chunk's payload bytes.
    pub fn value(&self) -> (r: &Vec<u8>)
        ensures
            r@ == self.payload_spec(),
    {
        &self.payload
    }
}

/// A bit-string naming a contiguous region of address space: an address
/// belongs to the prefix exactly when its first `bit_count` bits match.
#[derive(Clone, Copy, Debug)]
pub struct Prefix {
    name: [u8; 32],
    bit_count: usize,
}

impl Prefix {
    /// The bytes carrying the prefix's bits.
    pub closed spec fn bits_spec(&self) -> Seq<u8> {
        self.name@
    }

    /// How many leading bits the prefix fixes.
    pub closed spec fn len_spec(&self) -> int {
        self.bit_count as int
    }

    /// A prefix never fixes more bits than an address has.
    pub open spec fn wf(&self) -> bool {
        0 <= self.len_spec() <= 256
    }

    /// Builds a prefix from its bit length and a name carrying its bits.
    /// Fails exactly when the length exceeds the address width.
    pub fn new(bit_count: usize, name: [u8; 32]) -> (r: Option<Prefix>)
        ensures
            r is Some <==> bit_count <= 256,
            r matches Some(p) ==> p.bits_spec() == name@ && p.len_spec() == bit_count as int
                && p.wf(),
    {
        if bit_count <= 256 {
            Some(Prefix { name, bit_count })
        } else {
            None
        }
    }

    /// The number of bits the prefix fixes.
    pub fn bit_count(&self) -> (r: usize)
        ensures
            r as int == self.len_spec(),
    {
        self.bit_count
    }

    /// The bytes carrying the prefix's bits.
    pub fn name(&self) -> (r: &[u8; 32])
        ensures
            r@ == self.bits_spec(),
    {
        &self.name
    }

    /// The `i`-th bit of the prefix, most significant first.
    pub fn bit(&self, i: usize) -> (r: bool)
        requires
            i < 256,
        ensures
            r == addr_bit(self.bits_spec(), i as int),
    {
        byte_array_bit(&self.name, i)
    }
}

} // verus!
