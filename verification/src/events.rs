//! Events the ledger emits, and their wire encoding.
//!
//! Each successful mutation appends one event to the ledger's log. The host
//! drains the log, encodes each entry with [`encode_event`] and hands the
//! result to its sink. The encoding is the usual one for indexed contract
//! events: the first topic is the 256-bit digest of the event's signature,
//! each address argument is one 32-byte topic word, and the amount is the
//! 32-byte big-endian payload.

use crate::addr::Addr;
use crate::amount::Amount;
use vstd::prelude::*;
use vstd::string::StringSliceAdditionalSpecFns;

verus! {

/// A notification of a successful ledger mutation.
#[derive(Clone, Copy, PartialEq, Eq, Structural, Debug)]
pub enum Event {
    /// `value` moved from `from` to `to`.
    Transfer { from: Addr, to: Addr, value: Amount },
    /// `owner` set `spender`'s allowance to `value`.
    Approval { owner: Addr, spender: Addr, value: Amount },
}

/// An event as the host's sink takes it: indexed topic words and a payload.
pub struct EncodedEvent {
    /// The 32-byte topic words; the first names the event kind.
    pub topics: Vec<Vec<u8>>,
    /// The non-indexed payload.
    pub data: Vec<u8>,
}

/// The digest that the Keccak-256 hash assigns to an input; it depends on
/// the input bytes alone.
pub uninterp spec fn keccak_of(input: Seq<u8>) -> Seq<u8>;

/// Relies on `alloy_primitives::keccak256`: the 32-byte Keccak-256 digest
/// of the input, a pure function of the bytes.
#[verifier::external_body]
fn keccak256_digest(input: &[u8]) -> (r: Vec<u8>)
    ensures
        r@ == keccak_of(input@),
        r@.len() == 32,
{
    alloy_primitives::keccak256(input).to_vec()
}

/// The signature whose digest names a `Transfer` event.
pub open spec fn spec_transfer_signature() -> Seq<u8> {
    "Transfer(address,address,uint256)".spec_bytes()
}

/// The signature whose digest names an `Approval` event.
pub open spec fn spec_approval_signature() -> Seq<u8> {
    "Approval(address,address,uint256)".spec_bytes()
}

/// The two big-endian bytes-of-eight of a 64-bit limb.
pub open spec fn spec_be8(x: u64) -> Seq<u8> {
    seq![
        (x / 0x100000000000000 % 0x100) as u8,
        (x / 0x1000000000000 % 0x100) as u8,
        (x / 0x10000000000 % 0x100) as u8,
        (x / 0x100000000 % 0x100) as u8,
        (x / 0x1000000 % 0x100) as u8,
        (x / 0x10000 % 0x100) as u8,
        (x / 0x100 % 0x100) as u8,
        (x % 0x100) as u8,
    ]
}

/// The four big-endian bytes of a 32-bit value.
pub open spec fn spec_be4(x: u32) -> Seq<u8> {
    seq![
        (x / 0x1000000 % 0x100) as u8,
        (x / 0x10000 % 0x100) as u8,
        (x / 0x100 % 0x100) as u8,
        (x % 0x100) as u8,
    ]
}

/// The sixteen big-endian bytes of a 128-bit value.
pub open spec fn spec_be16(x: u128) -> Seq<u8> {
    spec_be8((x / 0x10000000000000000) as u64) + spec_be8((x % 0x10000000000000000) as u64)
}

/// Twelve zero bytes: the padding before an address in a topic word.
pub open spec fn spec_pad12() -> Seq<u8> {
    Seq::new(12, |i: int| 0u8)
}

/// The 32-byte topic word of an address: twelve zero bytes, then the
/// 160-bit identifier big-endian.
pub open spec fn spec_addr_word(a: Addr) -> Seq<u8> {
    spec_pad12() + spec_be4(a.hi) + spec_be16(a.lo)
}

/// The 32-byte big-endian word of an amount.
pub open spec fn spec_amount_word(v: Amount) -> Seq<u8> {
    spec_be8(v.l3) + spec_be8(v.l2) + spec_be8(v.l1) + spec_be8(v.l0)
}

/// Appends the eight big-endian bytes of `x`.
fn push_be8(out: &mut Vec<u8>, x: u64)
    ensures
        final(out)@ == old(out)@ + spec_be8(x),
{
    out.push((x / 0x100000000000000 % 0x100) as u8);
    out.push((x / 0x1000000000000 % 0x100) as u8);
    out.push((x / 0x10000000000 % 0x100) as u8);
    out.push((x / 0x100000000 % 0x100) as u8);
    out.push((x / 0x1000000 % 0x100) as u8);
    out.push((x / 0x10000 % 0x100) as u8);
    out.push((x / 0x100 % 0x100) as u8);
    out.push((x % 0x100) as u8);
    proof {
        assert(out@ =~= old(out)@ + spec_be8(x));
    }
}

/// Appends the four big-endian bytes of `x`.
fn push_be4(out: &mut Vec<u8>, x: u32)
    ensures
        final(out)@ == old(out)@ + spec_be4(x),
{
    out.push((x / 0x1000000 % 0x100) as u8);
    out.push((x / 0x10000 % 0x100) as u8);
    out.push((x / 0x100 % 0x100) as u8);
    out.push((x % 0x100) as u8);
    proof {
        assert(out@ =~= old(out)@ + spec_be4(x));
    }
}

/// The 32-byte topic word of an address.
fn addr_word(a: &Addr) -> (r: Vec<u8>)
    ensures
        r@ == spec_addr_word(*a),
{
    let mut out: Vec<u8> = Vec::new();
    let mut i: usize = 0;
    while i < 12
        invariant
            i <= 12,
            out@ =~= spec_pad12().subrange(0, i as int),
        decreases 12 - i,
    {
        out.push(0);
        proof {
            assert(out@ =~= spec_pad12().subrange(0, i + 1));
        }
        i = i + 1;
    }
    proof {
        assert(out@ =~= spec_pad12());
    }
    push_be4(&mut out, a.hi);
    push_be8(&mut out, (a.lo / 0x10000000000000000) as u64);
    push_be8(&mut out, (a.lo % 0x10000000000000000) as u64);
    proof {
        assert(out@ =~= spec_addr_word(*a));
    }
    out
}

/// The 32-byte big-endian word of an amount.
fn amount_word(v: &Amount) -> (r: Vec<u8>)
    ensures
        r@ == spec_amount_word(*v),
{
    let mut out: Vec<u8> = Vec::new();
    push_be8(&mut out, v.l3);
    push_be8(&mut out, v.l2);
    push_be8(&mut out, v.l1);
    push_be8(&mut out, v.l0);
    proof {
        assert(out@ =~= spec_amount_word(*v));
    }
    out
}

/// Encodes an event for the host's sink: three topic words — the digest of
/// the signature, then the two address arguments — and the amount as the
/// payload.
pub fn encode_event(e: &Event) -> (r: EncodedEvent)
    ensures
        r.topics@.len() == 3,
        e matches Event::Transfer { from, to, value } ==> {
            &&& r.topics@[0]@ == keccak_of(spec_transfer_signature())
            &&& r.topics@[1]@ == spec_addr_word(*from)
            &&& r.topics@[2]@ == spec_addr_word(*to)
            &&& r.data@ == spec_amount_word(*value)
        },
        e matches Event::Approval { owner, spender, value } ==> {
            &&& r.topics@[0]@ == keccak_of(spec_approval_signature())
            &&& r.topics@[1]@ == spec_addr_word(*owner)
            &&& r.topics@[2]@ == spec_addr_word(*spender)
            &&& r.data@ == spec_amount_word(*value)
        },
{
    let mut topics: Vec<Vec<u8>> = Vec::new();
    match e {
        Event::Transfer { from, to, value } => {
            topics.push(keccak256_digest("Transfer(address,address,uint256)".as_bytes()));
            topics.push(addr_word(from));
            topics.push(addr_word(to));
            EncodedEvent { topics, data: amount_word(value) }
        },
        Event::Approval { owner, spender, value } => {
            topics.push(keccak256_digest("Approval(address,address,uint256)".as_bytes()));
            topics.push(addr_word(owner));
            topics.push(addr_word(spender));
            EncodedEvent { topics, data: amount_word(value) }
        },
    }
}

} // verus!
