//! Canonical byte encoding of header fields.
//!
//! Each header field is turned into one byte string, in a fixed documented
//! form: unsigned integers as base-128 varints, signed part-set totals in
//! zigzag form, times as little-endian signed 64-bit seconds followed by
//! signed 32-bit nanoseconds, and hash fields as their raw bytes (a missing
//! hash is the zero-length byte string, not an absent field, so the positional
//! structure of the field list is preserved).

use vstd::prelude::*;

use crate::types::{BlockID, BlockIdView, Header, HeaderView};

verus! {

/// Base-128 varint encoding of an unsigned integer, least significant group
/// first; every byte but the last has its high bit set.
pub open spec fn varint_spec(n: nat) -> Seq<u8>
    decreases n,
{
    if n < 0x80 {
        seq![n as u8]
    } else {
        seq![((n % 0x80) + 0x80) as u8] + varint_spec(n / 0x80)
    }
}

/// Zigzag mapping of a signed integer onto an unsigned one: non-negative `n`
/// becomes `2n`, negative `n` becomes `-2n - 1`.
pub open spec fn zigzag_spec(n: i64) -> nat {
    if n >= 0 {
        (2 * n) as nat
    } else {
        (2 * (-(n + 1)) + 1) as nat
    }
}

/// Two's-complement value of a signed 64-bit integer.
pub open spec fn bits64_spec(x: i64) -> nat {
    if x >= 0 {
        x as nat
    } else {
        (0x1_0000_0000_0000_0000 + x) as nat
    }
}

/// Two's-complement value of a signed 32-bit integer.
pub open spec fn bits32_spec(x: i32) -> nat {
    if x >= 0 {
        x as nat
    } else {
        (0x1_0000_0000 + x) as nat
    }
}

/// Little-endian bytes of a 64-bit value.
pub open spec fn le64_spec(v: nat) -> Seq<u8> {
    seq![
        (v % 0x100) as u8,
        ((v / 0x100) % 0x100) as u8,
        ((v / 0x1_0000) % 0x100) as u8,
        ((v / 0x100_0000) % 0x100) as u8,
        ((v / 0x1_0000_0000) % 0x100) as u8,
        ((v / 0x100_0000_0000) % 0x100) as u8,
        ((v / 0x1_0000_0000_0000) % 0x100) as u8,
        ((v / 0x100_0000_0000_0000) % 0x100) as u8,
    ]
}

/// Little-endian bytes of a 32-bit value.
pub open spec fn le32_spec(v: nat) -> Seq<u8> {
    seq![
        (v % 0x100) as u8,
        ((v / 0x100) % 0x100) as u8,
        ((v / 0x1_0000) % 0x100) as u8,
        ((v / 0x100_0000) % 0x100) as u8,
    ]
}

/// Canonical bytes of a time: fixed-width seconds then nanoseconds.
pub open spec fn time_spec(seconds: i64, nanos: i32) -> Seq<u8> {
    le64_spec(bits64_spec(seconds)) + le32_spec(bits32_spec(nanos))
}

/// Canonical bytes of a block id: length-prefixed hash, then, if the part-set
/// header is present, its zigzag total and length-prefixed hash.
pub open spec fn block_id_spec(b: BlockIdView) -> Seq<u8> {
    varint_spec(b.hash.len()) + b.hash + match b.parts_header {
        Option::None => Seq::<u8>::empty(),
        Option::Some(p) => varint_spec(zigzag_spec(p.total)) + varint_spec(p.hash.len()) + p.hash,
    }
}

/// The canonical field encodings of a header, in the fixed order fed to the
/// Merkle tree: version, chain id, height, time, last block id, last commit
/// hash, data hash, validators hash, next validators hash, consensus hash,
/// app hash, last results hash, evidence hash, proposer address.
pub open spec fn header_leaves_spec(h: HeaderView) -> Seq<Seq<u8>> {
    seq![
        varint_spec(h.version.block as nat) + varint_spec(h.version.app as nat),
        h.chain_id,
        varint_spec(h.height as nat),
        time_spec(h.time.seconds, h.time.nanos),
        block_id_spec(h.last_block_id),
        h.last_commit_hash,
        h.data_hash,
        h.validators_hash,
        h.next_validators_hash,
        h.consensus_hash,
        h.app_hash,
        h.last_results_hash,
        h.evidence_hash,
        h.proposer_address,
    ]
}

/// Encodes an unsigned integer as a base-128 varint.
pub fn encode_varint(n: u64) -> (r: Vec<u8>)
    ensures
        r@ == varint_spec(n as nat),
    decreases n,
{
    let mut r: Vec<u8> = Vec::new();
    if n < 0x80 {
        r.push(n as u8);
    } else {
        r.push(((n % 0x80) + 0x80) as u8);
        let mut rest = encode_varint(n / 0x80);
        r.append(&mut rest);
    }
    r
}

/// Zigzag-maps a signed integer onto an unsigned one.
pub fn zigzag(n: i64) -> (r: u64)
    ensures
        r as nat == zigzag_spec(n),
{
    if n >= 0 {
        (n as u64) * 2
    } else {
        let m = (-(n + 1)) as u64;
        m * 2 + 1
    }
}

/// Two's-complement value of a signed 64-bit integer.
pub fn bits64(x: i64) -> (r: u64)
    ensures
        r as nat == bits64_spec(x),
{
    if x >= 0 {
        x as u64
    } else {
        let m = (-(x + 1)) as u64;
        0xffff_ffff_ffff_ffff - m
    }
}

/// Two's-complement value of a signed 32-bit integer.
pub fn bits32(x: i32) -> (r: u32)
    ensures
        r as nat == bits32_spec(x),
{
    if x >= 0 {
        x as u32
    } else {
        let m = (-(x + 1)) as u32;
        0xffff_ffff - m
    }
}

/// Little-endian bytes of a 64-bit value.
pub fn encode_le64(v: u64) -> (r: Vec<u8>)
    ensures
        r@ == le64_spec(v as nat),
{
    let mut r: Vec<u8> = Vec::new();
    r.push((v % 0x100) as u8);
    r.push(((v / 0x100) % 0x100) as u8);
    r.push(((v / 0x1_0000) % 0x100) as u8);
    r.push(((v / 0x100_0000) % 0x100) as u8);
    r.push(((v / 0x1_0000_0000) % 0x100) as u8);
    r.push(((v / 0x100_0000_0000) % 0x100) as u8);
    r.push(((v / 0x1_0000_0000_0000) % 0x100) as u8);
    r.push(((v / 0x100_0000_0000_0000) % 0x100) as u8);
    proof {
        assert(r@ =~= le64_spec(v as nat));
    }
    r
}

/// Little-endian bytes of a 32-bit value.
pub fn encode_le32(v: u32) -> (r: Vec<u8>)
    ensures
        r@ == le32_spec(v as nat),
{
    let mut r: Vec<u8> = Vec::new();
    r.push((v % 0x100) as u8);
    r.push(((v / 0x100) % 0x100) as u8);
    r.push(((v / 0x1_0000) % 0x100) as u8);
    r.push(((v / 0x100_0000) % 0x100) as u8);
    proof {
        assert(r@ =~= le32_spec(v as nat));
    }
    r
}

/// Canonical bytes of a time.
pub fn encode_time(seconds: i64, nanos: i32) -> (r: Vec<u8>)
    ensures
        r@ == time_spec(seconds, nanos),
{
    let mut r = encode_le64(bits64(seconds));
    let mut tail = encode_le32(bits32(nanos));
    r.append(&mut tail);
    r
}

/// Length-prefixed copy of a byte string.
fn encode_len_prefixed(bytes: &Vec<u8>) -> (r: Vec<u8>)
    ensures
        r@ == varint_spec(bytes@.len()) + bytes@,
{
    let mut r = encode_varint(bytes.len() as u64);
    let mut body = crate::types::clone_bytes(bytes);
    r.append(&mut body);
    r
}

/// Canonical bytes of a block id.
pub fn encode_block_id(b: &BlockID) -> (r: Vec<u8>)
    ensures
        r@ == block_id_spec(b@),
{
    let mut r = encode_len_prefixed(&b.hash);
    match &b.parts_header {
        Option::None => {},
        Option::Some(p) => {
            let mut total = encode_varint(zigzag(p.total));
            r.append(&mut total);
            let mut hash = encode_len_prefixed(&p.hash);
            r.append(&mut hash);
        },
    }
    r
}

/// Builds the canonical field encodings of a header, in the fixed order.
pub fn header_leaves(h: &Header) -> (r: Vec<Vec<u8>>)
    ensures
        r@.map_values(|v: Vec<u8>| v@) == header_leaves_spec(h@),
        r@.len() == 14,
{
    let mut version = encode_varint(h.version.block);
    let mut version_app = encode_varint(h.version.app);
    version.append(&mut version_app);

    let mut r: Vec<Vec<u8>> = Vec::new();
    r.push(version);
    r.push(crate::types::clone_bytes(&h.chain_id));
    r.push(encode_varint(h.height));
    r.push(encode_time(h.time.seconds, h.time.nanos));
    r.push(encode_block_id(&h.last_block_id));
    r.push(crate::types::clone_bytes(&h.last_commit_hash));
    r.push(crate::types::clone_bytes(&h.data_hash));
    r.push(crate::types::clone_bytes(&h.validators_hash));
    r.push(crate::types::clone_bytes(&h.next_validators_hash));
    r.push(crate::types::clone_bytes(&h.consensus_hash));
    r.push(crate::types::clone_bytes(&h.app_hash));
    r.push(crate::types::clone_bytes(&h.last_results_hash));
    r.push(crate::types::clone_bytes(&h.evidence_hash));
    r.push(crate::types::clone_bytes(&h.proposer_address));
    proof {
        assert(r@.map_values(|v: Vec<u8>| v@) =~= header_leaves_spec(h@));
    }
    r
}

} // verus!
