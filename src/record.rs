use vstd::prelude::*;
use vstd::utf8::encode_utf8;

verus! {

/// Bytes allocated to every record account, once, at creation: an 8-byte
/// header, three fingerprints, the score, the bump, three 4-byte length
/// prefixes and 200 bytes of text.
pub const RECORD_SPACE: usize = 8 + 32 + 32 + 32 + 4 + 4 + 4 + 1 + 100 + 100;

/// Bytes of a record other than the text of its three strings.
pub const RECORD_FIXED: usize = 8 + 32 + 32 + 32 + 4 + 4 + 4 + 4 + 1;

/// Largest verdict, in bytes.
pub const MAX_VERDICT_LEN: usize = 100;

/// Largest external reference, in bytes.
pub const MAX_EXTERNAL_REF_LEN: usize = 100;

/// The number of bytes of a text in UTF-8.
pub open spec fn byte_len(s: Seq<char>) -> nat {
    encode_utf8(s).len()
}

/// The stored size of a record whose texts have the given byte lengths.
pub open spec fn record_len(verdict: nat, external_ref: nat, metadata_uri: nat) -> nat {
    (RECORD_FIXED + verdict + external_ref + metadata_uri) as nat
}

/// The three texts fit their budgets: verdict and external reference each
/// within their own bound, and the whole record within `RECORD_SPACE`.
pub open spec fn fits_budget(verdict: Seq<char>, external_ref: Seq<char>, metadata_uri: Seq<char>) -> bool {
    &&& byte_len(verdict) <= MAX_VERDICT_LEN
    &&& byte_len(external_ref) <= MAX_EXTERNAL_REF_LEN
    &&& record_len(byte_len(verdict), byte_len(external_ref), byte_len(metadata_uri)) <= RECORD_SPACE
}

/// Whether a record with these texts fits the fixed layout.
pub fn fields_fit(verdict: &str, pumpfun_ca: &str, metadata_uri: &str) -> (r: bool)
    ensures
        r == fits_budget(verdict@, pumpfun_ca@, metadata_uri@),
{
    let v: usize = verdict.as_bytes().len();
    let c: usize = pumpfun_ca.as_bytes().len();
    let u: usize = metadata_uri.as_bytes().len();
    if v > MAX_VERDICT_LEN || c > MAX_EXTERNAL_REF_LEN {
        return false;
    }
    let used: usize = RECORD_FIXED + v + c;
    used <= RECORD_SPACE && u <= RECORD_SPACE - used
}

/// One record of the registry: three fingerprints, the verdict and score,
/// the external reference, the metadata location, and the bump that places
/// the record at its address.
pub struct MemeCanon {
    pub meme_hash: [u8; 32],
    pub image_hash: [u8; 32],
    pub text_hash: [u8; 32],
    pub verdict: String,
    pub canon_score: u32,
    pub pumpfun_ca: String,
    pub metadata_uri: String,
    pub bump: u8,
}

/// The content of a `MemeCanon`.
pub struct MemeCanonView {
    pub meme_hash: Seq<u8>,
    pub image_hash: Seq<u8>,
    pub text_hash: Seq<u8>,
    pub verdict: Seq<char>,
    pub canon_score: u32,
    pub pumpfun_ca: Seq<char>,
    pub metadata_uri: Seq<char>,
    pub bump: u8,
}

impl View for MemeCanon {
    type V = MemeCanonView;

    open spec fn view(&self) -> MemeCanonView {
        MemeCanonView {
            meme_hash: self.meme_hash@,
            image_hash: self.image_hash@,
            text_hash: self.text_hash@,
            verdict: self.verdict@,
            canon_score: self.canon_score,
            pumpfun_ca: self.pumpfun_ca@,
            metadata_uri: self.metadata_uri@,
            bump: self.bump,
        }
    }
}

} // verus!
