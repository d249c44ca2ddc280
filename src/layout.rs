use vstd::prelude::*;
use vstd::utf8::encode_utf8;
use crate::error::RegistryError;
use crate::record::{byte_len, fields_fit, fits_budget, MemeCanon, MemeCanonView, RECORD_SPACE};

verus! {

/// The SHA-256 digest of a byte string.
pub uninterp spec fn sha256_of(data: Seq<u8>) -> Seq<u8>;

/// Relies on `solana_program::hash::hash` (re-exported by anchor-lang): the
/// SHA-256 digest of its input, which depends on the input alone.
#[verifier::external_body]
fn sha256(data: &[u8]) -> (r: [u8; 32])
    ensures
        r@ == sha256_of(data@),
{
    anchor_lang::solana_program::hash::hash(data).to_bytes()
}

/// The bytes of "account:MemeCanon", whose digest names the record type.
pub const DISCRIMINATOR_PREIMAGE: [u8; 17] = [
    97u8, 99u8, 99u8, 111u8, 117u8, 110u8, 116u8, 58u8, 77u8, 101u8, 109u8, 101u8, 67u8, 97u8,
    110u8, 111u8, 110u8,
];

/// "account:MemeCanon" as a sequence.
pub open spec fn discriminator_preimage() -> Seq<u8> {
    seq![97u8, 99u8, 99u8, 111u8, 117u8, 110u8, 116u8, 58u8, 77u8, 101u8, 109u8, 101u8, 67u8, 97u8, 110u8, 111u8, 110u8]
}

/// The 8-byte header of every record account: the first bytes of the digest
/// of the record type's name.
pub open spec fn discriminator() -> Seq<u8> {
    sha256_of(discriminator_preimage()).subrange(0, 8)
}

/// A `u32` in four little-endian bytes.
pub open spec fn le_u32(x: u32) -> Seq<u8> {
    seq![(x % 256) as u8, ((x / 256) % 256) as u8, ((x / 65536) % 256) as u8, (x / 16777216) as u8]
}

/// A text as stored: its byte length as a little-endian `u32`, then its
/// UTF-8 bytes.
pub open spec fn text_bytes(s: Seq<char>) -> Seq<u8> {
    le_u32(byte_len(s) as u32) + encode_utf8(s)
}

/// The fields of a record as stored, in declaration order.
pub open spec fn record_fields(r: MemeCanonView) -> Seq<u8> {
    r.meme_hash + r.image_hash + r.text_hash + text_bytes(r.verdict) + le_u32(r.canon_score)
        + text_bytes(r.pumpfun_ca) + text_bytes(r.metadata_uri) + seq![r.bump]
}

/// The whole account of a record: header, fields, and zeros up to
/// `RECORD_SPACE`.
pub open spec fn account_bytes(r: MemeCanonView) -> Seq<u8> {
    let body = discriminator() + record_fields(r);
    body + Seq::new((RECORD_SPACE - body.len()) as nat, |i: int| 0u8)
}

/// The header of a record account.
pub fn record_discriminator() -> (r: [u8; 8])
    ensures
        r@ == discriminator(),
{
    assert(DISCRIMINATOR_PREIMAGE@ =~= discriminator_preimage());
    let digest = sha256(&DISCRIMINATOR_PREIMAGE);
    let mut out: [u8; 8] = [0u8; 8];
    let mut i: usize = 0;
    while i < 8
        invariant
            i <= 8,
            digest@ == sha256_of(discriminator_preimage()),
            forall|j: int| 0 <= j < i ==> out@[j] == digest@[j],
        decreases 8 - i,
    {
        out.set(i, digest[i]);
        i = i + 1;
    }
    assert(out@ =~= discriminator());
    out
}

fn push_bytes(out: &mut Vec<u8>, b: &[u8])
    ensures
        final(out)@ == old(out)@ + b@,
{
    let mut i: usize = 0;
    while i < b.len()
        invariant
            i <= b@.len(),
            out@ == old(out)@ + b@.subrange(0, i as int),
        decreases b@.len() - i,
    {
        out.push(b[i]);
        i = i + 1;
        assert(b@.subrange(0, i as int) =~= b@.subrange(0, i - 1) + seq![b@[i - 1]]);
    }
    assert(b@.subrange(0, i as int) =~= b@);
}

fn push_u32(out: &mut Vec<u8>, x: u32)
    ensures
        final(out)@ == old(out)@ + le_u32(x),
{
    out.push((x % 256) as u8);
    out.push(((x / 256) % 256) as u8);
    out.push(((x / 65536) % 256) as u8);
    out.push((x / 16777216) as u8);
    assert(out@ =~= old(out)@ + le_u32(x));
}

fn push_text(out: &mut Vec<u8>, s: &str)
    requires
        byte_len(s@) <= RECORD_SPACE,
    ensures
        final(out)@ == old(out)@ + text_bytes(s@),
{
    let b = s.as_bytes();
    push_u32(out, b.len() as u32);
    push_bytes(out, b);
    assert(out@ =~= old(out)@ + text_bytes(s@));
}

/// The account bytes of a record: `FieldTooLarge` when its texts do not fit
/// the layout, else exactly `RECORD_SPACE` bytes laid out as
/// `account_bytes` says.
pub fn account_data(record: &MemeCanon) -> (r: Result<Vec<u8>, RegistryError>)
    ensures
        match r {
            Ok(data) => fits_budget(record.verdict@, record.pumpfun_ca@, record.metadata_uri@)
                && data@ == account_bytes(record@) && data@.len() == RECORD_SPACE,
            Err(e) => !fits_budget(record.verdict@, record.pumpfun_ca@, record.metadata_uri@)
                && e == RegistryError::FieldTooLarge,
        },
{
    if !fields_fit(record.verdict.as_str(), record.pumpfun_ca.as_str(), record.metadata_uri.as_str()) {
        return Err(RegistryError::FieldTooLarge);
    }
    let header = record_discriminator();
    let mut out: Vec<u8> = Vec::new();
    push_bytes(&mut out, header.as_slice());
    push_bytes(&mut out, record.meme_hash.as_slice());
    push_bytes(&mut out, record.image_hash.as_slice());
    push_bytes(&mut out, record.text_hash.as_slice());
    push_text(&mut out, record.verdict.as_str());
    push_u32(&mut out, record.canon_score);
    push_text(&mut out, record.pumpfun_ca.as_str());
    push_text(&mut out, record.metadata_uri.as_str());
    out.push(record.bump);
    let ghost body = out@;
    assert(body =~= discriminator() + record_fields(record@));
    while out.len() < RECORD_SPACE
        invariant
            body.len() <= out@.len() <= RECORD_SPACE,
            out@ =~= body + Seq::new((out@.len() - body.len()) as nat, |i: int| 0u8),
        decreases RECORD_SPACE - out@.len(),
    {
        out.push(0u8);
        assert(out@ =~= body + Seq::new((out@.len() - body.len()) as nat, |i: int| 0u8));
    }
    Ok(out)
}

} // verus!
