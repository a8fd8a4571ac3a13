use crate::error::SilentBerryError;
use crate::hash::{ckb_hash, ckb_hash_of, Hash32};
use vstd::bytes::{spec_u128_to_le_bytes, u128_to_le_bytes};
use vstd::prelude::*;

verus! {

broadcast use vstd::array::group_array_axioms;

/// The ASCII tag "Total-X" for one of the four tier-total keys, where `letter`
/// is the ASCII code of the tier letter.
pub open spec fn spec_total_tag(letter: u8) -> Seq<u8> {
    seq![84u8, 111u8, 116u8, 97u8, 108u8, 45u8, letter]
}

/// The ASCII tag "Platform".
pub open spec fn spec_platform_tag() -> Seq<u8> {
    seq![80u8, 108u8, 97u8, 116u8, 102u8, 111u8, 114u8, 109u8]
}

/// The ASCII tag "Auther".
pub open spec fn spec_auther_tag() -> Seq<u8> {
    seq![65u8, 117u8, 116u8, 104u8, 101u8, 114u8]
}

/// One of the keys of the authenticated ledger map: the four tier totals, the
/// two fixed beneficiaries, or a member slot named by a collectible identity.
#[derive(Clone, Copy)]
pub enum SmtKey {
    TotalA,
    TotalB,
    TotalC,
    TotalD,
    Platform,
    Auther,
    Member(Hash32),
}

/// The 256-bit map key a ledger key hashes to: constant ASCII tags for the
/// fixed slots, the collectible identity itself for a member slot.
pub open spec fn spec_smt_key(k: SmtKey) -> Seq<u8> {
    match k {
        SmtKey::TotalA => ckb_hash_of(spec_total_tag(65)),
        SmtKey::TotalB => ckb_hash_of(spec_total_tag(66)),
        SmtKey::TotalC => ckb_hash_of(spec_total_tag(67)),
        SmtKey::TotalD => ckb_hash_of(spec_total_tag(68)),
        SmtKey::Platform => ckb_hash_of(spec_platform_tag()),
        SmtKey::Auther => ckb_hash_of(spec_auther_tag()),
        SmtKey::Member(h) => ckb_hash_of(h@),
    }
}

fn total_tag(letter: u8) -> (r: Vec<u8>)
    ensures
        r@ == spec_total_tag(letter),
{
    let mut v: Vec<u8> = Vec::new();
    v.push(84);
    v.push(111);
    v.push(116);
    v.push(97);
    v.push(108);
    v.push(45);
    v.push(letter);
    proof {
        assert(v@ =~= spec_total_tag(letter));
    }
    v
}

impl SmtKey {
    /// Derives the 256-bit key of this slot in the authenticated map.
    pub fn get_key(&self) -> (r: Hash32)
        ensures
            r@ == spec_smt_key(*self),
    {
        match self {
            SmtKey::TotalA => ckb_hash(total_tag(65).as_slice()),
            SmtKey::TotalB => ckb_hash(total_tag(66).as_slice()),
            SmtKey::TotalC => ckb_hash(total_tag(67).as_slice()),
            SmtKey::TotalD => ckb_hash(total_tag(68).as_slice()),
            SmtKey::Platform => {
                let mut v: Vec<u8> = Vec::new();
                v.push(80);
                v.push(108);
                v.push(97);
                v.push(116);
                v.push(102);
                v.push(111);
                v.push(114);
                v.push(109);
                proof {
                    assert(v@ =~= spec_platform_tag());
                }
                ckb_hash(v.as_slice())
            },
            SmtKey::Auther => {
                let mut v: Vec<u8> = Vec::new();
                v.push(65);
                v.push(117);
                v.push(116);
                v.push(104);
                v.push(101);
                v.push(114);
                proof {
                    assert(v@ =~= spec_auther_tag());
                }
                ckb_hash(v.as_slice())
            },
            SmtKey::Member(h) => ckb_hash(h.as_slice()),
        }
    }
}

/// The value held in one slot of the authenticated map: a 128-bit amount.
#[derive(Clone, Copy)]
pub struct SmtValue {
    pub amount: u128,
}

/// The per-leaf digest of an amount: the hash of its little-endian bytes.
pub open spec fn spec_leaf_digest(amount: u128) -> Seq<u8> {
    ckb_hash_of(spec_u128_to_le_bytes(amount))
}

/// The digest that attests absence of a key: all-zero bytes, the canonical
/// zero of the sparse map.
pub open spec fn spec_zero_digest() -> Seq<u8> {
    Seq::new(32, |i: int| 0u8)
}

impl SmtValue {
    pub fn new(a: u128) -> (r: Self)
        ensures
            r.amount == a,
    {
        Self { amount: a }
    }

    /// The zero value that stands for an absent slot.
    pub fn zero() -> (r: Self)
        ensures
            r.amount == 0,
    {
        Self { amount: 0 }
    }

    /// Hashes this value to the leaf digest stored in the authenticated map.
    pub fn to_h256(&self) -> (r: Hash32)
        ensures
            r@ == spec_leaf_digest(self.amount),
    {
        let b = u128_to_le_bytes(self.amount);
        ckb_hash(b.as_slice())
    }
}

/// The four running tier totals of the ledger.
#[derive(Clone, Copy)]
pub struct TotalAmounts {
    pub a: u128,
    pub b: u128,
    pub c: u128,
    pub d: u128,
}

impl TotalAmounts {
    /// The mathematical sum of the four totals.
    pub open spec fn spec_total(&self) -> int {
        self.a + self.b + self.c + self.d
    }

    /// The sum of the four totals.
    pub fn total(&self) -> (r: u128)
        requires
            self.spec_total() <= u128::MAX,
        ensures
            r == self.spec_total(),
    {
        self.a + self.b + self.c + self.d
    }

    /// The sum of the four totals, or `None` when it does not fit in 128 bits.
    pub fn checked_total(&self) -> (r: Option<u128>)
        ensures
            match r {
                Some(t) => t == self.spec_total(),
                None => self.spec_total() > u128::MAX,
            },
    {
        let ab = self.a.checked_add(self.b)?;
        let abc = ab.checked_add(self.c)?;
        abc.checked_add(self.d)
    }

    /// Adds a payment to the tier selected by `level` (1 through 4 select
    /// tiers A through D).  The other three totals never change.  An
    /// unrecognized level leaves the totals unchanged and reports the
    /// collectible-domain error; an overflowing addition leaves them
    /// unchanged and reports the overflow error.
    pub fn add(&mut self, v: u128, level: u8) -> (r: Result<(), SilentBerryError>)
        ensures
            match r {
                Ok(()) => {
                    &&& 1 <= level <= 4
                    &&& level == 1 ==> final(self).a == old(self).a + v
                    &&& level != 1 ==> final(self).a == old(self).a
                    &&& level == 2 ==> final(self).b == old(self).b + v
                    &&& level != 2 ==> final(self).b == old(self).b
                    &&& level == 3 ==> final(self).c == old(self).c + v
                    &&& level != 3 ==> final(self).c == old(self).c
                    &&& level == 4 ==> final(self).d == old(self).d + v
                    &&& level != 4 ==> final(self).d == old(self).d
                },
                Err(SilentBerryError::Spore) => {
                    &&& !(1 <= level <= 4)
                    &&& *final(self) == *old(self)
                },
                Err(SilentBerryError::AccountBookOverflow) => {
                    &&& 1 <= level <= 4
                    &&& level == 1 ==> old(self).a + v > u128::MAX
                    &&& level == 2 ==> old(self).b + v > u128::MAX
                    &&& level == 3 ==> old(self).c + v > u128::MAX
                    &&& level == 4 ==> old(self).d + v > u128::MAX
                    &&& *final(self) == *old(self)
                },
                Err(_) => false,
            },
    {
        match level {
            1 => {
                match self.a.checked_add(v) {
                    Some(x) => {
                        self.a = x;
                    },
                    None => {
                        return Err(SilentBerryError::AccountBookOverflow);
                    },
                }
            },
            2 => {
                match self.b.checked_add(v) {
                    Some(x) => {
                        self.b = x;
                    },
                    None => {
                        return Err(SilentBerryError::AccountBookOverflow);
                    },
                }
            },
            3 => {
                match self.c.checked_add(v) {
                    Some(x) => {
                        self.c = x;
                    },
                    None => {
                        return Err(SilentBerryError::AccountBookOverflow);
                    },
                }
            },
            4 => {
                match self.d.checked_add(v) {
                    Some(x) => {
                        self.d = x;
                    },
                    None => {
                        return Err(SilentBerryError::AccountBookOverflow);
                    },
                }
            },
            _ => {
                return Err(SilentBerryError::Spore);
            },
        }
        Ok(())
    }
}

/// The outcome of replaying a compiled batched proof against a root and a set
/// of (key digest, value digest) leaves: `Ok(true)` when every leaf is
/// consistent with the root, `Ok(false)` when the replay succeeds but the
/// computed root differs, `Err` when the proof bytes cannot be replayed.  The
/// outcome depends on the three arguments alone.
pub uninterp spec fn smt_replay(proof: Seq<u8>, root: Seq<u8>, leaves: Seq<(Seq<u8>, Seq<u8>)>) -> Result<bool, ()>;

/// Relies on sparse_merkle_tree::CompiledMerkleProof::verify with the crate's
/// Blake2bHasher: replays the compiled proof bytes and compares the computed
/// root with the given one.  At most 257 leaves: the replay's merge stack
/// holds one entry per leaf and asserts its capacity in debug builds.
#[verifier::external_body]
fn smt_proof_verify(proof: &Vec<u8>, root: &Hash32, leaves: Vec<(Hash32, Hash32)>) -> (r: Result<
    bool,
    (),
>)
    requires
        leaves@.len() <= 257,
    ensures
        r == smt_replay(proof@, root@, leaves@.map_values(|p: (Hash32, Hash32)| (p.0@, p.1@))),
{
    let compiled = sparse_merkle_tree::CompiledMerkleProof(proof.clone());
    let hl: Vec<(sparse_merkle_tree::H256, sparse_merkle_tree::H256)> = leaves
        .into_iter()
        .map(|p| (p.0.into(), p.1.into()))
        .collect();
    compiled
        .verify::<sparse_merkle_tree::blake2b::Blake2bHasher>(&(*root).into(), hl)
        .map_err(|_| ())
}

/// The five (key digest, value digest) leaves that one ledger verification
/// claims: the four tier totals and one member slot, the member holding
/// either an amount or the zero digest that attests absence.
pub open spec fn spec_claim_leaves(total: TotalAmounts, member: (SmtKey, Option<u128>)) -> Seq<
    (Seq<u8>, Seq<u8>),
> {
    seq![
        (spec_smt_key(SmtKey::TotalA), spec_leaf_digest(total.a)),
        (spec_smt_key(SmtKey::TotalB), spec_leaf_digest(total.b)),
        (spec_smt_key(SmtKey::TotalC), spec_leaf_digest(total.c)),
        (spec_smt_key(SmtKey::TotalD), spec_leaf_digest(total.d)),
        (
            spec_smt_key(member.0),
            match member.1 {
                Some(a) => spec_leaf_digest(a),
                None => spec_zero_digest(),
            },
        ),
    ]
}

/// The claim leaves of one ledger verification with the member slot named
/// directly by the bytes its key is derived from.
pub open spec fn spec_claim_leaves_member(
    total: TotalAmounts,
    member_src: Seq<u8>,
    member_amount: Option<u128>,
) -> Seq<(Seq<u8>, Seq<u8>)> {
    seq![
        (spec_smt_key(SmtKey::TotalA), spec_leaf_digest(total.a)),
        (spec_smt_key(SmtKey::TotalB), spec_leaf_digest(total.b)),
        (spec_smt_key(SmtKey::TotalC), spec_leaf_digest(total.c)),
        (spec_smt_key(SmtKey::TotalD), spec_leaf_digest(total.d)),
        (
            ckb_hash_of(member_src),
            match member_amount {
                Some(a) => spec_leaf_digest(a),
                None => spec_zero_digest(),
            },
        ),
    ]
}

/// The four totals after a payment lands in the tier selected by `level`,
/// meaningful when the selected total does not overflow.
pub open spec fn spec_add_to_level(t: TotalAmounts, v: u128, level: u8) -> TotalAmounts {
    TotalAmounts {
        a: if level == 1 {
            (t.a + v) as u128
        } else {
            t.a
        },
        b: if level == 2 {
            (t.b + v) as u128
        } else {
            t.b
        },
        c: if level == 3 {
            (t.c + v) as u128
        } else {
            t.c
        },
        d: if level == 4 {
            (t.d + v) as u128
        } else {
            t.d
        },
    }
}

/// The payment fits in the tier total selected by `level`.
pub open spec fn spec_add_fits(t: TotalAmounts, v: u128, level: u8) -> bool {
    &&& level == 1 ==> t.a + v <= u128::MAX
    &&& level == 2 ==> t.b + v <= u128::MAX
    &&& level == 3 ==> t.c + v <= u128::MAX
    &&& level == 4 ==> t.d + v <= u128::MAX
}

/// The two claim sets of a sale's two-sided verification name the same five
/// keys, and their values differ in exactly two places: the member slot,
/// which moves from absent to the sale price, and the selected tier total,
/// which grows by it.  Every other claimed leaf is identical, so a proof
/// that verifies on both sides pins the transition to exactly that update.
pub proof fn lemma_two_sided_claims(t: TotalAmounts, member_src: Seq<u8>, v: u128, level: u8)
    requires
        1 <= level <= 4,
    ensures
        ({
            let old_claim = spec_claim_leaves_member(t, member_src, None);
            let new_claim = spec_claim_leaves_member(
                spec_add_to_level(t, v, level),
                member_src,
                Some(v),
            );
            &&& old_claim.len() == 5
            &&& new_claim.len() == 5
            &&& forall|i: int| 0 <= i < 5 ==> (#[trigger] old_claim[i]).0 == new_claim[i].0
            &&& forall|i: int|
                0 <= i < 4 && i != level - 1 ==> (#[trigger] old_claim[i]).1 == new_claim[i].1
            &&& new_claim[level - 1].1 == spec_leaf_digest((t_field(t, level) + v) as u128)
            &&& old_claim[level - 1].1 == spec_leaf_digest(t_field(t, level))
            &&& old_claim[4].1 == spec_zero_digest()
            &&& new_claim[4].1 == spec_leaf_digest(v)
        }),
{
}

/// The total of the tier selected by `level`.
pub open spec fn t_field(t: TotalAmounts, level: u8) -> u128 {
    if level == 1 {
        t.a
    } else if level == 2 {
        t.b
    } else if level == 3 {
        t.c
    } else {
        t.d
    }
}

/// Tier accumulation is commutative within one tier: two payments landing
/// in the same tier may arrive in either order and leave the same totals,
/// provided their sum fits.
pub proof fn lemma_add_commutative_same_tier(t: TotalAmounts, v1: u128, v2: u128, level: u8)
    requires
        1 <= level <= 4,
        spec_add_fits(t, (v1 + v2) as u128, level),
        v1 + v2 <= u128::MAX,
    ensures
        spec_add_to_level(spec_add_to_level(t, v1, level), v2, level) == spec_add_to_level(
            spec_add_to_level(t, v2, level),
            v1,
            level,
        ),
{
}

/// Adding to one tier never changes the other three totals.
pub proof fn lemma_add_leaves_other_tiers(t: TotalAmounts, v: u128, level: u8)
    ensures
        level != 1 ==> spec_add_to_level(t, v, level).a == t.a,
        level != 2 ==> spec_add_to_level(t, v, level).b == t.b,
        level != 3 ==> spec_add_to_level(t, v, level).c == t.c,
        level != 4 ==> spec_add_to_level(t, v, level).d == t.d,
{
}

/// The all-zero digest that attests absence of a key.
pub fn zero_digest() -> (r: Hash32)
    ensures
        r@ == spec_zero_digest(),
{
    let r: Hash32 = [0u8; 32];
    proof {
        assert(r@ =~= spec_zero_digest());
    }
    r
}

/// A compiled, batched proof for the authenticated ledger map, supplied fresh
/// with every verification call and never persisted.
pub struct AccountBookProof {
    proof: Vec<u8>,
}

impl AccountBookProof {
    /// The proof bytes this value carries.
    pub closed spec fn spec_proof(&self) -> Seq<u8> {
        self.proof@
    }

    pub fn new(proof: Vec<u8>) -> (r: Self)
        ensures
            r.spec_proof() == proof@,
    {
        Self { proof }
    }

    /// Replays the proof against `root`, claiming the four tier totals and
    /// one member slot.  Returns `Ok(true)` exactly when the replay reports
    /// that every claimed leaf is consistent with that root; a proof that
    /// cannot be replayed is reported as the proof-malformed error.
    pub fn verify(&self, root: Hash32, total: TotalAmounts, member: (SmtKey, Option<u128>)) -> (r:
        Result<bool, SilentBerryError>)
        ensures
            r == match smt_replay(self.spec_proof(), root@, spec_claim_leaves(total, member)) {
                Ok(b) => Result::<bool, SilentBerryError>::Ok(b),
                Err(()) => Result::<bool, SilentBerryError>::Err(SilentBerryError::Smt),
            },
    {
        let mut leaves: Vec<(Hash32, Hash32)> = Vec::new();
        leaves.push((SmtKey::TotalA.get_key(), SmtValue::new(total.a).to_h256()));
        leaves.push((SmtKey::TotalB.get_key(), SmtValue::new(total.b).to_h256()));
        leaves.push((SmtKey::TotalC.get_key(), SmtValue::new(total.c).to_h256()));
        leaves.push((SmtKey::TotalD.get_key(), SmtValue::new(total.d).to_h256()));
        let member_digest: Hash32 = match member.1 {
            Some(a) => SmtValue::new(a).to_h256(),
            None => zero_digest(),
        };
        let (member_key, _) = member;
        leaves.push((member_key.get_key(), member_digest));
        proof {
            assert(leaves@.map_values(|p: (Hash32, Hash32)| (p.0@, p.1@)) =~= spec_claim_leaves(
                total,
                member,
            ));
        }
        match smt_proof_verify(&self.proof, &root, leaves) {
            Ok(b) => Ok(b),
            Err(()) => Err(SilentBerryError::Smt),
        }
    }
}

} // verus!
