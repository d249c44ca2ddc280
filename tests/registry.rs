use anchor_lang::prelude::Pubkey;
use hashmeme::address::{derive_address, NAMESPACE};
use hashmeme::error::RegistryError;
use hashmeme::layout::{account_data, record_discriminator};
use hashmeme::record::{fields_fit, MemeCanon, RECORD_SPACE};
use hashmeme::registry::{initialize, register_meme, Initialize, RegisterMeme, Registry};
use std::str::FromStr;

const RENT: u64 = 3_097_920;

fn program_id() -> [u8; 32] {
    Pubkey::from_str("EWDGViEZrieLvQ544usdPVLazkaUdaVhBPAqoEG3HA7b").unwrap().to_bytes()
}

fn submitter() -> [u8; 32] {
    [7u8; 32]
}

fn ctx_for(registry: &Registry, fingerprint: &[u8; 32]) -> RegisterMeme {
    let (meme, _) = derive_address(&registry.program_id(), fingerprint).unwrap();
    RegisterMeme { meme, submitter: submitter(), signers: vec![submitter()], submitter_lamports: RENT }
}

fn register(
    registry: &mut Registry,
    ctx: &RegisterMeme,
    fingerprint: [u8; 32],
    verdict: &str,
) -> Result<(), RegistryError> {
    register_meme(
        registry,
        ctx,
        fingerprint,
        [0x22; 32],
        [0x33; 32],
        verdict.to_string(),
        95,
        "Ca1".to_string(),
        "ipfs://Qm".to_string(),
    )
}

#[test]
fn derive_is_deterministic() {
    let f = [0x11u8; 32];
    let a = derive_address(&program_id(), &f).unwrap();
    let b = derive_address(&program_id(), &f).unwrap();
    assert_eq!(a, b);
}

#[test]
fn derive_matches_ledger_rule() {
    let f = [0x11u8; 32];
    let (addr, bump) = derive_address(&program_id(), &f).unwrap();
    let pid = Pubkey::new_from_array(program_id());
    let (expected, expected_bump) = Pubkey::find_program_address(&[&NAMESPACE, &f], &pid);
    assert_eq!(addr, expected.to_bytes());
    assert_eq!(bump, expected_bump);
    assert_ne!(addr, f);
    assert_ne!(addr, program_id());
}

#[test]
fn distinct_fingerprints_distinct_addresses() {
    let a = derive_address(&program_id(), &[0x11u8; 32]).unwrap();
    let b = derive_address(&program_id(), &[0x12u8; 32]).unwrap();
    assert_ne!(a.0, b.0);
}

#[test]
fn end_to_end_register_and_read_back() {
    let mut registry = Registry::new(program_id(), RENT);
    let f = [0x11u8; 32];
    let ctx = ctx_for(&registry, &f);
    let r = register_meme(
        &mut registry,
        &ctx,
        f,
        [0x22; 32],
        [0x33; 32],
        "authentic".to_string(),
        95,
        "Ca1".to_string(),
        "ipfs://Qm".to_string(),
    );
    assert_eq!(r, Ok(()));
    let (addr, bump) = derive_address(&program_id(), &f).unwrap();
    let rec = registry.get(&addr).unwrap();
    assert_eq!(rec.meme_hash, [0x11; 32]);
    assert_eq!(rec.image_hash, [0x22; 32]);
    assert_eq!(rec.text_hash, [0x33; 32]);
    assert_eq!(rec.verdict, "authentic");
    assert_eq!(rec.canon_score, 95);
    assert_eq!(rec.pumpfun_ca, "Ca1");
    assert_eq!(rec.metadata_uri, "ipfs://Qm");
    assert_eq!(rec.bump, bump);

    let again = register(&mut registry, &ctx, f, "fabricated");
    assert_eq!(again, Err(RegistryError::AlreadyRegistered));
    assert_eq!(registry.get(&addr).unwrap().verdict, "authentic");
}

#[test]
fn oversized_verdict_is_refused() {
    let mut registry = Registry::new(program_id(), RENT);
    let f = [0x11u8; 32];
    let ctx = ctx_for(&registry, &f);
    let long = "x".repeat(101);
    assert_eq!(register(&mut registry, &ctx, f, &long), Err(RegistryError::FieldTooLarge));
    assert!(registry.get(&ctx.meme).is_none());
    let just = "x".repeat(100);
    assert_eq!(register(&mut registry, &ctx, f, &just), Ok(()));
}

#[test]
fn unsigned_submitter_is_refused() {
    let mut registry = Registry::new(program_id(), RENT);
    let f = [0x11u8; 32];
    let mut ctx = ctx_for(&registry, &f);
    ctx.signers = vec![[9u8; 32]];
    assert_eq!(register(&mut registry, &ctx, f, "authentic"), Err(RegistryError::UnauthorizedSigner));
    assert!(registry.get(&ctx.meme).is_none());
}

#[test]
fn wrong_address_is_refused() {
    let mut registry = Registry::new(program_id(), RENT);
    let f = [0x11u8; 32];
    let mut ctx = ctx_for(&registry, &f);
    ctx.meme = [1u8; 32];
    assert_eq!(register(&mut registry, &ctx, f, "authentic"), Err(RegistryError::AddressMismatch));
}

#[test]
fn poor_submitter_is_refused() {
    let mut registry = Registry::new(program_id(), RENT);
    let f = [0x11u8; 32];
    let mut ctx = ctx_for(&registry, &f);
    ctx.submitter_lamports = RENT - 1;
    assert_eq!(register(&mut registry, &ctx, f, "authentic"), Err(RegistryError::InsufficientFunds));
    assert!(registry.get(&ctx.meme).is_none());
}

#[test]
fn two_fingerprints_two_records() {
    let mut registry = Registry::new(program_id(), RENT);
    let f1 = [0x11u8; 32];
    let f2 = [0x44u8; 32];
    let c1 = ctx_for(&registry, &f1);
    let c2 = ctx_for(&registry, &f2);
    assert_eq!(register(&mut registry, &c1, f1, "authentic"), Ok(()));
    assert_eq!(register(&mut registry, &c2, f2, "fabricated"), Ok(()));
    assert_eq!(registry.get(&c1.meme).unwrap().verdict, "authentic");
    assert_eq!(registry.get(&c2.meme).unwrap().verdict, "fabricated");
}

#[test]
fn initialize_names_the_program() {
    let registry = Registry::new(program_id(), RENT);
    assert_eq!(initialize(&registry, &Initialize {}), Ok(program_id()));
}

#[test]
fn budget_edges() {
    let v100 = "v".repeat(100);
    let c96 = "c".repeat(96);
    assert!(fields_fit(&v100, &c96, ""));
    assert!(!fields_fit(&v100, &c96, "u"));
    assert!(!fields_fit("", &"c".repeat(101), ""));
    assert!(fields_fit("", "", &"u".repeat(196)));
    assert!(!fields_fit("", "", &"u".repeat(197)));
    // two bytes per character in UTF-8
    assert!(fields_fit(&"é".repeat(50), "", ""));
    assert!(!fields_fit(&"é".repeat(51), "", ""));
}

#[test]
fn discriminator_is_digest_prefix() {
    let digest = anchor_lang::solana_program::hash::hash(b"account:MemeCanon").to_bytes();
    assert_eq!(record_discriminator()[..], digest[..8]);
    assert_ne!(&record_discriminator()[..], &b"account:"[..]);
}

#[test]
fn account_layout() {
    let rec = MemeCanon {
        meme_hash: [0x11; 32],
        image_hash: [0x22; 32],
        text_hash: [0x33; 32],
        verdict: "authentic".to_string(),
        canon_score: 95,
        pumpfun_ca: "Ca1".to_string(),
        metadata_uri: "ipfs://Qm".to_string(),
        bump: 254,
    };
    let data = account_data(&rec).unwrap();
    assert_eq!(data.len(), RECORD_SPACE);
    assert_eq!(RECORD_SPACE, 317);
    assert_eq!(&data[..8], &record_discriminator()[..]);
    assert_eq!(&data[8..40], &[0x11u8; 32][..]);
    assert_eq!(&data[104..108], &[9u8, 0, 0, 0][..]);
    assert_eq!(&data[108..117], b"authentic");
    assert_eq!(&data[117..121], &[95u8, 0, 0, 0][..]);
    assert_eq!(&data[121..125], &[3u8, 0, 0, 0][..]);
    assert_eq!(&data[125..128], b"Ca1");
    assert_eq!(&data[128..132], &[9u8, 0, 0, 0][..]);
    assert_eq!(&data[132..141], b"ipfs://Qm");
    assert_eq!(data[141], 254);
    assert!(data[142..].iter().all(|b| *b == 0));
}

#[test]
fn account_layout_refuses_oversized() {
    let rec = MemeCanon {
        meme_hash: [0; 32],
        image_hash: [0; 32],
        text_hash: [0; 32],
        verdict: "x".repeat(101),
        canon_score: 0,
        pumpfun_ca: String::new(),
        metadata_uri: String::new(),
        bump: 0,
    };
    assert_eq!(account_data(&rec), Err(RegistryError::FieldTooLarge));
}

#[test]
fn stored_record_lays_out() {
    let mut registry = Registry::new(program_id(), RENT);
    let f = [0x55u8; 32];
    let ctx = ctx_for(&registry, &f);
    assert_eq!(register(&mut registry, &ctx, f, "authentic"), Ok(()));
    let data = account_data(registry.get(&ctx.meme).unwrap()).unwrap();
    assert_eq!(data.len(), RECORD_SPACE);
    assert_eq!(&data[8..40], &f[..]);
}
