use vstd::prelude::*;
use crate::address::{derivation, derive_address};
use crate::error::RegistryError;
use crate::record::{byte_len, fields_fit, fits_budget, MemeCanon, MemeCanonView, MAX_VERDICT_LEN};

verus! {

/// The accounts of the bootstrap entry point: none.
pub struct Initialize {}

/// The accounts and signatures of a registration transaction.
pub struct RegisterMeme {
    /// The address at which the caller asks for the record to be created.
    pub meme: [u8; 32],
    /// The declared submitter, who pays for the record.
    pub submitter: [u8; 32],
    /// The keys that signed the transaction.
    pub signers: Vec<[u8; 32]>,
    /// The submitter's balance.
    pub submitter_lamports: u64,
}

/// The fields of a registration, as values.
pub struct SubmissionView {
    pub fingerprint: Seq<u8>,
    pub image_hash: Seq<u8>,
    pub text_hash: Seq<u8>,
    pub verdict: Seq<char>,
    pub canon_score: u32,
    pub pumpfun_ca: Seq<char>,
    pub metadata_uri: Seq<char>,
}

/// The state of a registry: its program id, the price of a record's storage,
/// and the records by address.
pub struct LedgerView {
    pub program_id: Seq<u8>,
    pub record_rent: u64,
    pub records: Map<Seq<u8>, MemeCanonView>,
}

/// One record account.
struct Account {
    key: [u8; 32],
    data: MemeCanon,
}

/// The registry's share of the ledger: the record accounts that it owns,
/// each at its own address, created once and never changed.
pub struct Registry {
    program_id: [u8; 32],
    record_rent: u64,
    accounts: Vec<Account>,
}

/// The record that a submission becomes with its bump.
pub open spec fn record_of(s: SubmissionView, bump: u8) -> MemeCanonView {
    MemeCanonView {
        meme_hash: s.fingerprint,
        image_hash: s.image_hash,
        text_hash: s.text_hash,
        verdict: s.verdict,
        canon_score: s.canon_score,
        pumpfun_ca: s.pumpfun_ca,
        metadata_uri: s.metadata_uri,
        bump,
    }
}

/// Why a registration is refused, checked in this order; `None` when it is
/// accepted.
pub open spec fn registration_error(l: LedgerView, ctx: RegisterMeme, s: SubmissionView) -> Option<RegistryError> {
    if !ctx.signers@.contains(ctx.submitter) {
        Some(RegistryError::UnauthorizedSigner)
    } else if !fits_budget(s.verdict, s.pumpfun_ca, s.metadata_uri) {
        Some(RegistryError::FieldTooLarge)
    } else {
        match derivation(s.fingerprint, l.program_id) {
            None => Some(RegistryError::AddressDerivationExhausted),
            Some((a, _)) => if a != ctx.meme@ {
                Some(RegistryError::AddressMismatch)
            } else if l.records.contains_key(a) {
                Some(RegistryError::AlreadyRegistered)
            } else if ctx.submitter_lamports < l.record_rent {
                Some(RegistryError::InsufficientFunds)
            } else {
                None
            },
        }
    }
}

/// The registry after a registration, and what the registration returns:
/// a refusal changes nothing; an acceptance adds the record at the derived
/// address.
pub open spec fn register_step(l: LedgerView, ctx: RegisterMeme, s: SubmissionView) -> (LedgerView, Result<(), RegistryError>) {
    match registration_error(l, ctx, s) {
        Some(e) => (l, Err(e)),
        None => {
            let (a, bump) = derivation(s.fingerprint, l.program_id).unwrap();
            (LedgerView { records: l.records.insert(a, record_of(s, bump)), ..l }, Ok(()))
        },
    }
}

/// Whether two keys are equal.
fn same_key(a: &[u8; 32], b: &[u8; 32]) -> (r: bool)
    ensures
        r == (a@ == b@),
{
    let mut i: usize = 0;
    while i < 32
        invariant
            i <= 32,
            forall|j: int| 0 <= j < i ==> a@[j] == b@[j],
        decreases 32 - i,
    {
        if a[i] != b[i] {
            return false;
        }
        i = i + 1;
    }
    assert(a@ =~= b@);
    true
}

/// Whether `key` is among `signers`.
fn signed_by(signers: &Vec<[u8; 32]>, key: &[u8; 32]) -> (r: bool)
    ensures
        r == signers@.contains(*key),
{
    let mut i: usize = 0;
    while i < signers.len()
        invariant
            i <= signers@.len(),
            forall|j: int| 0 <= j < i ==> signers@[j] != *key,
        decreases signers@.len() - i,
    {
        if same_key(&signers[i], key) {
            assert(signers@[i as int] =~= *key);
            return true;
        }
        assert(signers@[i as int] != *key) by {
            if signers@[i as int] == *key {
                assert(signers@[i as int]@ == key@);
            }
        }
        i = i + 1;
    }
    false
}

impl View for Registry {
    type V = LedgerView;

    closed spec fn view(&self) -> LedgerView {
        LedgerView {
            program_id: self.program_id@,
            record_rent: self.record_rent,
            records: Map::new(
                |k: Seq<u8>| exists|i: int| 0 <= i < self.accounts@.len() && self.accounts@[i].key@ == k,
                |k: Seq<u8>|
                    self.accounts@[choose|i: int| 0 <= i < self.accounts@.len() && self.accounts@[i].key@ == k].data@,
            ),
        }
    }
}

impl Registry {
    /// No two accounts share an address, and every record fits the layout.
    pub closed spec fn wf(&self) -> bool {
        &&& forall|i: int, j: int|
            0 <= i < self.accounts@.len() && 0 <= j < self.accounts@.len() && i != j
                ==> self.accounts@[i].key@ != self.accounts@[j].key@
        &&& forall|i: int|
            0 <= i < self.accounts@.len() ==> #[trigger] fits_budget(
                self.accounts@[i].data.verdict@,
                self.accounts@[i].data.pumpfun_ca@,
                self.accounts@[i].data.metadata_uri@,
            )
    }

    proof fn lemma_record_at(&self, i: int)
        requires
            self.wf(),
            0 <= i < self.accounts@.len(),
        ensures
            self@.records.contains_key(self.accounts@[i].key@),
            self@.records[self.accounts@[i].key@] == self.accounts@[i].data@,
    {
        let k = self.accounts@[i].key@;
        assert(0 <= i < self.accounts@.len() && self.accounts@[i].key@ == k);
        let j = choose|j: int| 0 <= j < self.accounts@.len() && self.accounts@[j].key@ == k;
        assert(j == i);
    }

    /// An empty registry for the program `program_id`, whose records cost
    /// `record_rent` each.
    pub fn new(program_id: [u8; 32], record_rent: u64) -> (r: Registry)
        ensures
            r.wf(),
            r@.program_id == program_id@,
            r@.record_rent == record_rent,
            r@.records == Map::<Seq<u8>, MemeCanonView>::empty(),
    {
        let r = Registry { program_id, record_rent, accounts: Vec::new() };
        assert(r@.records =~= Map::<Seq<u8>, MemeCanonView>::empty());
        r
    }

    /// The program id under which addresses are derived.
    pub fn program_id(&self) -> (r: [u8; 32])
        ensures
            r@ == self@.program_id,
    {
        self.program_id
    }

    /// The price of one record's storage.
    pub fn record_rent(&self) -> (r: u64)
        ensures
            r == self@.record_rent,
    {
        self.record_rent
    }

    /// The position of the account at `address`, if any.
    fn find(&self, address: &[u8; 32]) -> (r: Option<usize>)
        requires
            self.wf(),
        ensures
            match r {
                Some(i) => i < self.accounts@.len() && self.accounts@[i as int].key@ == address@,
                None => !self@.records.contains_key(address@),
            },
    {
        let mut i: usize = 0;
        while i < self.accounts.len()
            invariant
                i <= self.accounts@.len(),
                forall|j: int| 0 <= j < i ==> self.accounts@[j].key@ != address@,
            decreases self.accounts@.len() - i,
        {
            if same_key(&self.accounts[i].key, address) {
                return Some(i);
            }
            i = i + 1;
        }
        None
    }

    /// The record at `address`, if one was registered there.
    pub fn get(&self, address: &[u8; 32]) -> (r: Option<&MemeCanon>)
        requires
            self.wf(),
        ensures
            match r {
                Some(m) => {
                    &&& self@.records.contains_key(address@)
                    &&& self@.records[address@] == m@
                    &&& fits_budget(m.verdict@, m.pumpfun_ca@, m.metadata_uri@)
                },
                None => !self@.records.contains_key(address@),
            },
    {
        match self.find(address) {
            Some(i) => {
                proof {
                    self.lemma_record_at(i as int);
                }
                Some(&self.accounts[i].data)
            },
            None => None,
        }
    }

    /// Adds a record at an address that holds none.
    fn create(&mut self, key: [u8; 32], data: MemeCanon)
        requires
            old(self).wf(),
            !old(self)@.records.contains_key(key@),
            fits_budget(data.verdict@, data.pumpfun_ca@, data.metadata_uri@),
        ensures
            final(self).wf(),
            final(self)@ == (LedgerView { records: old(self)@.records.insert(key@, data@), ..old(self)@ }),
    {
        let ghost pre = *self;
        let ghost dv = data@;
        self.accounts.push(Account { key, data });
        let ghost n = pre.accounts@.len() as int;
        assert forall|i: int| 0 <= i < n implies self.accounts@[i].key@ != key@ by {
            if self.accounts@[i].key@ == key@ {
                assert(pre.accounts@[i] == self.accounts@[i]);
            }
        }
        assert(self.wf());
        let ghost want = pre@.records.insert(key@, dv);
        assert forall|k: Seq<u8>| #[trigger] self@.records.contains_key(k) == want.contains_key(k) by {
            if want.contains_key(k) && k != key@ {
                let i = choose|i: int| 0 <= i < pre.accounts@.len() && pre.accounts@[i].key@ == k;
                assert(self.accounts@[i] == pre.accounts@[i]);
            }
            if self@.records.contains_key(k) && k != key@ {
                let i = choose|i: int| 0 <= i < self.accounts@.len() && self.accounts@[i].key@ == k;
                assert(pre.accounts@[i] == self.accounts@[i]);
            }
            if k == key@ {
                assert(self.accounts@[n].key@ == k);
            }
        }
        assert forall|k: Seq<u8>| #[trigger] self@.records.contains_key(k) implies self@.records[k] == want[k] by {
            let i = choose|i: int| 0 <= i < self.accounts@.len() && self.accounts@[i].key@ == k;
            self.lemma_record_at(i);
            if k != key@ {
                assert(pre.accounts@[i] == self.accounts@[i]);
                pre.lemma_record_at(i);
            } else {
                assert(i == n);
            }
        }
        assert(self@.records =~= want);
    }
}

/// The bootstrap entry point: changes nothing and always succeeds, handing
/// back the program id that identifies the registry.
pub fn initialize(registry: &Registry, ctx: &Initialize) -> (r: Result<[u8; 32], RegistryError>)
    ensures
        r matches Ok(id) && id@ == registry@.program_id,
{
    Ok(registry.program_id())
}

/// Registers a submission: checks that the submitter signed, that the texts
/// fit the record layout, derives the fingerprint's address and checks it
/// against the one supplied, and creates the record there unless one exists
/// or the submitter cannot pay for it.
pub fn register_meme(
    registry: &mut Registry,
    ctx: &RegisterMeme,
    meme_hash: [u8; 32],
    image_hash: [u8; 32],
    text_hash: [u8; 32],
    verdict: String,
    canon_score: u32,
    pumpfun_ca: String,
    metadata_uri: String,
) -> (r: Result<(), RegistryError>)
    requires
        old(registry).wf(),
    ensures
        final(registry).wf(),
        (final(registry)@, r) == register_step(
            old(registry)@,
            *ctx,
            (SubmissionView {
                fingerprint: meme_hash@,
                image_hash: image_hash@,
                text_hash: text_hash@,
                verdict: verdict@,
                canon_score,
                pumpfun_ca: pumpfun_ca@,
                metadata_uri: metadata_uri@,
            }),
        ),
{
    let ghost s = SubmissionView {
        fingerprint: meme_hash@,
        image_hash: image_hash@,
        text_hash: text_hash@,
        verdict: verdict@,
        canon_score,
        pumpfun_ca: pumpfun_ca@,
        metadata_uri: metadata_uri@,
    };
    if !signed_by(&ctx.signers, &ctx.submitter) {
        return Err(RegistryError::UnauthorizedSigner);
    }
    if !fields_fit(verdict.as_str(), pumpfun_ca.as_str(), metadata_uri.as_str()) {
        return Err(RegistryError::FieldTooLarge);
    }
    let program_id = registry.program_id();
    let (address, bump) = match derive_address(&program_id, &meme_hash) {
        Ok(found) => found,
        Err(e) => {
            return Err(e);
        },
    };
    if !same_key(&address, &ctx.meme) {
        return Err(RegistryError::AddressMismatch);
    }
    if registry.find(&address).is_some() {
        return Err(RegistryError::AlreadyRegistered);
    }
    if ctx.submitter_lamports < registry.record_rent() {
        return Err(RegistryError::InsufficientFunds);
    }
    let record = MemeCanon {
        meme_hash,
        image_hash,
        text_hash,
        verdict,
        canon_score,
        pumpfun_ca,
        metadata_uri,
        bump,
    };
    assert(record@ == record_of(s, bump));
    registry.create(address, record);
    Ok(())
}

/// A fingerprint is registered at most once. After a registration of a
/// fingerprint succeeds, a second registration of the same fingerprint, with
/// any other fields, that is signed, fits the layout and names the derived
/// address, is refused with `AlreadyRegistered`; the registry and the first
/// record stay as they were.
pub proof fn lemma_register_at_most_once(
    l: LedgerView,
    ctx1: RegisterMeme,
    s1: SubmissionView,
    ctx2: RegisterMeme,
    s2: SubmissionView,
)
    requires
        register_step(l, ctx1, s1).1 is Ok,
        s2.fingerprint == s1.fingerprint,
        ctx2.signers@.contains(ctx2.submitter),
        fits_budget(s2.verdict, s2.pumpfun_ca, s2.metadata_uri),
        ctx2.meme@ == ctx1.meme@,
    ensures
        ({
            let l1 = register_step(l, ctx1, s1).0;
            &&& register_step(l1, ctx2, s2) == (l1, Err::<(), RegistryError>(RegistryError::AlreadyRegistered))
            &&& l1.records.contains_key(ctx1.meme@)
            &&& l1.records[ctx1.meme@] == record_of(s1, derivation(s1.fingerprint, l.program_id).unwrap().1)
        }),
{
}

/// A verdict over its budget, in a signed registration, is refused with
/// `FieldTooLarge`, and no record is created.
pub proof fn lemma_oversized_verdict_refused(l: LedgerView, ctx: RegisterMeme, s: SubmissionView)
    requires
        ctx.signers@.contains(ctx.submitter),
        byte_len(s.verdict) > MAX_VERDICT_LEN,
    ensures
        register_step(l, ctx, s) == (l, Err::<(), RegistryError>(RegistryError::FieldTooLarge)),
{
}

/// A registration that the declared submitter did not sign is refused with
/// `UnauthorizedSigner`, and no record is created.
pub proof fn lemma_unsigned_refused(l: LedgerView, ctx: RegisterMeme, s: SubmissionView)
    requires
        !ctx.signers@.contains(ctx.submitter),
    ensures
        register_step(l, ctx, s) == (l, Err::<(), RegistryError>(RegistryError::UnauthorizedSigner)),
{
}

} // verus!
