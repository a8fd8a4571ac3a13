use crate::error::SilentBerryError;
use crate::hash::{ckb_hash, ckb_hash_of, Hash32};
use vstd::bytes::{
    spec_u128_to_le_bytes, spec_u32_to_le_bytes, spec_u64_to_le_bytes, u128_from_le_bytes,
    u128_to_le_bytes, u32_from_le_bytes, u32_to_le_bytes, u64_from_le_bytes, u64_to_le_bytes,
};
use vstd::prelude::*;
use vstd::slice::slice_subrange;

verus! {

broadcast use vstd::array::group_array_axioms;

/// Copies `N` bytes of a byte string, starting at `start`, into an array.
pub fn array_from_bytes<const N: usize>(a: &[u8], start: usize) -> (r: [u8; N])
    requires
        start + N <= a@.len(),
    ensures
        r@ == a@.subrange(start as int, start as int + N),
{
    let mut r: [u8; N] = [0u8; N];
    let n: usize = a.len();
    let mut i: usize = 0;
    while i < N
        invariant
            start + N <= n == a@.len(),
            i <= N,
            r@.len() == N,
            forall|j: int| 0 <= j < i ==> r@[j] == a@[start + j],
        decreases N - i,
    {
        r[i] = *vstd::slice::slice_index_get(a, start + i);
        i = i + 1;
    }
    proof {
        assert(r@ =~= a@.subrange(start as int, start as int + N));
    }
    r
}

/// Compares one byte range of two byte strings.
pub fn range_eq(a: &Vec<u8>, b: &Vec<u8>, start: usize, end: usize) -> (r: bool)
    requires
        start <= end,
        end <= a@.len(),
        end <= b@.len(),
    ensures
        r == (a@.subrange(start as int, end as int) == b@.subrange(start as int, end as int)),
{
    let mut i: usize = start;
    while i < end
        invariant
            start <= i <= end,
            end <= a@.len(),
            end <= b@.len(),
            forall|j: int| start <= j < i ==> a@[j] == b@[j],
        decreases end - i,
    {
        if a[i] != b[i] {
            proof {
                assert(a@.subrange(start as int, end as int)[i - start] != b@.subrange(
                    start as int,
                    end as int,
                )[i - start]);
            }
            return false;
        }
        i = i + 1;
    }
    proof {
        assert(a@.subrange(start as int, end as int) =~= b@.subrange(start as int, end as int));
    }
    true
}

/// The committed configuration record of the ledger script, carried in its
/// witness.  The six hash fields are immutable once committed; the four tier
/// totals are the pre-transaction totals; the proof is supplied fresh on
/// every use and is never part of the commitment.
#[derive(Clone)]
pub struct AccountBookData {
    pub dob_selling_code_hash: Hash32,
    pub buy_intent_code_hash: Hash32,
    pub withdrawal_intent_code_hash: Hash32,
    pub xudt_script_hash: Hash32,
    pub input_type_proxy_lock_code_hash: Hash32,
    pub cluster_id: Hash32,
    pub total_a: u128,
    pub total_b: u128,
    pub total_c: u128,
    pub total_d: u128,
    pub proof: Vec<u8>,
}

/// Number of bytes before the variable-length proof in the ledger record.
pub const ACCOUNT_BOOK_DATA_FIXED: usize = 256;

/// The canonical byte layout of the ledger configuration record: the six
/// hashes, the four little-endian totals, then the proof bytes.
pub open spec fn spec_serialize_account_book_data(d: AccountBookData) -> Seq<u8> {
    d.dob_selling_code_hash@ + d.buy_intent_code_hash@ + d.withdrawal_intent_code_hash@
        + d.xudt_script_hash@ + d.input_type_proxy_lock_code_hash@ + d.cluster_id@
        + spec_u128_to_le_bytes(d.total_a) + spec_u128_to_le_bytes(d.total_b)
        + spec_u128_to_le_bytes(d.total_c) + spec_u128_to_le_bytes(d.total_d) + d.proof@
}

/// The bytes the ledger commitment is computed over: the record with the
/// proof emptied and the four totals zeroed, so that the commitment depends
/// on the immutable fields alone.
pub open spec fn spec_commitment_input(d: AccountBookData) -> Seq<u8> {
    d.dob_selling_code_hash@ + d.buy_intent_code_hash@ + d.withdrawal_intent_code_hash@
        + d.xudt_script_hash@ + d.input_type_proxy_lock_code_hash@ + d.cluster_id@ + Seq::new(
        64,
        |i: int| 0u8,
    )
}

/// The commitment of a ledger configuration record.
pub open spec fn spec_commitment(d: AccountBookData) -> Seq<u8> {
    ckb_hash_of(spec_commitment_input(d))
}

impl AccountBookData {
    /// Serializes the record in its canonical byte layout.
    pub fn serialize(&self) -> (r: Vec<u8>)
        ensures
            r@ == spec_serialize_account_book_data(*self),
            r@.len() == ACCOUNT_BOOK_DATA_FIXED + self.proof@.len(),
    {
        let mut v: Vec<u8> = Vec::new();
        v.extend_from_slice(self.dob_selling_code_hash.as_slice());
        v.extend_from_slice(self.buy_intent_code_hash.as_slice());
        v.extend_from_slice(self.withdrawal_intent_code_hash.as_slice());
        v.extend_from_slice(self.xudt_script_hash.as_slice());
        v.extend_from_slice(self.input_type_proxy_lock_code_hash.as_slice());
        v.extend_from_slice(self.cluster_id.as_slice());
        v.extend_from_slice(u128_to_le_bytes(self.total_a).as_slice());
        v.extend_from_slice(u128_to_le_bytes(self.total_b).as_slice());
        v.extend_from_slice(u128_to_le_bytes(self.total_c).as_slice());
        v.extend_from_slice(u128_to_le_bytes(self.total_d).as_slice());
        v.extend_from_slice(self.proof.as_slice());
        proof {
            assert(v@ =~= spec_serialize_account_book_data(*self));
        }
        v
    }

    /// Parses the canonical byte layout.  Succeeds exactly when the bytes
    /// are long enough to hold the fixed fields; everything after them is
    /// the proof.
    pub fn parse(bytes: &Vec<u8>) -> (r: Result<AccountBookData, SilentBerryError>)
        ensures
            match r {
                Ok(d) => {
                    &&& bytes@.len() >= ACCOUNT_BOOK_DATA_FIXED
                    &&& d.dob_selling_code_hash@ == bytes@.subrange(0, 32)
                    &&& d.buy_intent_code_hash@ == bytes@.subrange(32, 64)
                    &&& d.withdrawal_intent_code_hash@ == bytes@.subrange(64, 96)
                    &&& d.xudt_script_hash@ == bytes@.subrange(96, 128)
                    &&& d.input_type_proxy_lock_code_hash@ == bytes@.subrange(128, 160)
                    &&& d.cluster_id@ == bytes@.subrange(160, 192)
                    &&& spec_u128_to_le_bytes(d.total_a) == bytes@.subrange(192, 208)
                    &&& spec_u128_to_le_bytes(d.total_b) == bytes@.subrange(208, 224)
                    &&& spec_u128_to_le_bytes(d.total_c) == bytes@.subrange(224, 240)
                    &&& spec_u128_to_le_bytes(d.total_d) == bytes@.subrange(240, 256)
                    &&& d.proof@ == bytes@.subrange(256, bytes@.len() as int)
                },
                Err(e) => {
                    &&& bytes@.len() < ACCOUNT_BOOK_DATA_FIXED
                    &&& e == SilentBerryError::MolVerificationError
                },
            },
    {
        if bytes.len() < ACCOUNT_BOOK_DATA_FIXED {
            return Err(SilentBerryError::MolVerificationError);
        }
        let s = bytes.as_slice();
        let total_a = u128_from_le_bytes(slice_subrange(s, 192, 208));
        let total_b = u128_from_le_bytes(slice_subrange(s, 208, 224));
        let total_c = u128_from_le_bytes(slice_subrange(s, 224, 240));
        let total_d = u128_from_le_bytes(slice_subrange(s, 240, 256));
        let proof = vstd::slice::slice_to_vec(slice_subrange(s, 256, bytes.len()));
        let d = AccountBookData {
            dob_selling_code_hash: array_from_bytes::<32>(s, 0),
            buy_intent_code_hash: array_from_bytes::<32>(s, 32),
            withdrawal_intent_code_hash: array_from_bytes::<32>(s, 64),
            xudt_script_hash: array_from_bytes::<32>(s, 96),
            input_type_proxy_lock_code_hash: array_from_bytes::<32>(s, 128),
            cluster_id: array_from_bytes::<32>(s, 160),
            total_a,
            total_b,
            total_c,
            total_d,
            proof,
        };
        proof {
            vstd::bytes::lemma_auto_spec_u128_to_from_le_bytes();
        }
        Ok(d)
    }

    /// The tier totals recorded in this record, as one value.
    pub open spec fn total_amounts_spec(&self) -> crate::account_book_proof::TotalAmounts {
        crate::account_book_proof::TotalAmounts {
            a: self.total_a,
            b: self.total_b,
            c: self.total_c,
            d: self.total_d,
        }
    }

    /// The tier totals recorded in this record.
    pub fn total_amounts(&self) -> (r: crate::account_book_proof::TotalAmounts)
        ensures
            r.a == self.total_a,
            r.b == self.total_b,
            r.c == self.total_c,
            r.d == self.total_d,
    {
        crate::account_book_proof::TotalAmounts {
            a: self.total_a,
            b: self.total_b,
            c: self.total_c,
            d: self.total_d,
        }
    }

    /// Computes the commitment of this record: the hash of the record with
    /// the proof emptied and the totals zeroed.
    pub fn commitment(&self) -> (r: Hash32)
        ensures
            r@ == spec_commitment(*self),
    {
        let mut v: Vec<u8> = Vec::new();
        v.extend_from_slice(self.dob_selling_code_hash.as_slice());
        v.extend_from_slice(self.buy_intent_code_hash.as_slice());
        v.extend_from_slice(self.withdrawal_intent_code_hash.as_slice());
        v.extend_from_slice(self.xudt_script_hash.as_slice());
        v.extend_from_slice(self.input_type_proxy_lock_code_hash.as_slice());
        v.extend_from_slice(self.cluster_id.as_slice());
        let zeros: Vec<u8> = vec![0u8; 64];
        v.extend_from_slice(zeros.as_slice());
        proof {
            assert(v@ =~= spec_commitment_input(*self));
        }
        ckb_hash(v.as_slice())
    }
}

/// The commitment depends on the six hash fields alone: records that agree
/// on them have equal commitment inputs, and records whose commitment inputs
/// are equal agree on them.
pub proof fn lemma_commitment_input_characterizes(d1: AccountBookData, d2: AccountBookData)
    ensures
        (spec_commitment_input(d1) == spec_commitment_input(d2)) <==> {
            &&& d1.dob_selling_code_hash@ == d2.dob_selling_code_hash@
            &&& d1.buy_intent_code_hash@ == d2.buy_intent_code_hash@
            &&& d1.withdrawal_intent_code_hash@ == d2.withdrawal_intent_code_hash@
            &&& d1.xudt_script_hash@ == d2.xudt_script_hash@
            &&& d1.input_type_proxy_lock_code_hash@ == d2.input_type_proxy_lock_code_hash@
            &&& d1.cluster_id@ == d2.cluster_id@
        },
{
    let s1 = spec_commitment_input(d1);
    let s2 = spec_commitment_input(d2);
    if s1 == s2 {
        assert(d1.dob_selling_code_hash@ =~= s1.subrange(0, 32));
        assert(d1.buy_intent_code_hash@ =~= s1.subrange(32, 64));
        assert(d1.withdrawal_intent_code_hash@ =~= s1.subrange(64, 96));
        assert(d1.xudt_script_hash@ =~= s1.subrange(96, 128));
        assert(d1.input_type_proxy_lock_code_hash@ =~= s1.subrange(128, 160));
        assert(d1.cluster_id@ =~= s1.subrange(160, 192));
        assert(d2.dob_selling_code_hash@ =~= s2.subrange(0, 32));
        assert(d2.buy_intent_code_hash@ =~= s2.subrange(32, 64));
        assert(d2.withdrawal_intent_code_hash@ =~= s2.subrange(64, 96));
        assert(d2.xudt_script_hash@ =~= s2.subrange(96, 128));
        assert(d2.input_type_proxy_lock_code_hash@ =~= s2.subrange(128, 160));
        assert(d2.cluster_id@ =~= s2.subrange(160, 192));
    } else {
        if d1.dob_selling_code_hash@ == d2.dob_selling_code_hash@ && d1.buy_intent_code_hash@
            == d2.buy_intent_code_hash@ && d1.withdrawal_intent_code_hash@
            == d2.withdrawal_intent_code_hash@ && d1.xudt_script_hash@ == d2.xudt_script_hash@
            && d1.input_type_proxy_lock_code_hash@ == d2.input_type_proxy_lock_code_hash@
            && d1.cluster_id@ == d2.cluster_id@ {
            assert(s1 =~= s2);
        }
    }
}

/// The commitment is insensitive to the proof and the tier totals: two
/// records that agree on the six identity hashes commit to the same digest,
/// whatever proofs and totals they carry.  In particular, hashing one record
/// twice yields the same commitment.
pub proof fn lemma_commitment_ignores_proof_and_totals(d1: AccountBookData, d2: AccountBookData)
    requires
        d1.dob_selling_code_hash@ == d2.dob_selling_code_hash@,
        d1.buy_intent_code_hash@ == d2.buy_intent_code_hash@,
        d1.withdrawal_intent_code_hash@ == d2.withdrawal_intent_code_hash@,
        d1.xudt_script_hash@ == d2.xudt_script_hash@,
        d1.input_type_proxy_lock_code_hash@ == d2.input_type_proxy_lock_code_hash@,
        d1.cluster_id@ == d2.cluster_id@,
    ensures
        spec_commitment(d1) == spec_commitment(d2),
{
    lemma_commitment_input_characterizes(d1, d2);
}

/// The persisted state of the ledger cell.  Exactly one of the root hash and
/// the member count may change per transaction; every other field is
/// immutable.
#[derive(Clone)]
pub struct AccountBookCellData {
    pub smt_root_hash: Hash32,
    pub member_count: u32,
    pub asset_amount: u128,
    pub platform_id: Hash32,
    pub auther_id: Hash32,
    pub a_num: u32,
    pub b_num: u32,
    pub c_num: u32,
    pub a_profit: [u8; 2],
    pub b_profit: [u8; 3],
    pub c_profit: [u8; 4],
    pub d_profit: [u8; 5],
}

/// Exact byte length of the ledger cell record.
pub const ACCOUNT_BOOK_CELL_DATA_LEN: usize = 142;

/// First byte of the immutable region of the ledger cell record: everything
/// after the root hash and the member count.
pub const ACCOUNT_BOOK_CELL_IMMUTABLE_FROM: usize = 36;

/// The canonical byte layout of the ledger cell record.
pub open spec fn spec_serialize_account_book_cell_data(d: AccountBookCellData) -> Seq<u8> {
    d.smt_root_hash@ + spec_u32_to_le_bytes(d.member_count) + spec_u128_to_le_bytes(d.asset_amount)
        + d.platform_id@ + d.auther_id@ + spec_u32_to_le_bytes(d.a_num) + spec_u32_to_le_bytes(
        d.b_num,
    ) + spec_u32_to_le_bytes(d.c_num) + d.a_profit@ + d.b_profit@ + d.c_profit@ + d.d_profit@
}

impl AccountBookCellData {
    /// Serializes the record in its canonical byte layout.
    pub fn serialize(&self) -> (r: Vec<u8>)
        ensures
            r@ == spec_serialize_account_book_cell_data(*self),
            r@.len() == ACCOUNT_BOOK_CELL_DATA_LEN,
    {
        let mut v: Vec<u8> = Vec::new();
        v.extend_from_slice(self.smt_root_hash.as_slice());
        v.extend_from_slice(u32_to_le_bytes(self.member_count).as_slice());
        v.extend_from_slice(u128_to_le_bytes(self.asset_amount).as_slice());
        v.extend_from_slice(self.platform_id.as_slice());
        v.extend_from_slice(self.auther_id.as_slice());
        v.extend_from_slice(u32_to_le_bytes(self.a_num).as_slice());
        v.extend_from_slice(u32_to_le_bytes(self.b_num).as_slice());
        v.extend_from_slice(u32_to_le_bytes(self.c_num).as_slice());
        v.extend_from_slice(self.a_profit.as_slice());
        v.extend_from_slice(self.b_profit.as_slice());
        v.extend_from_slice(self.c_profit.as_slice());
        v.extend_from_slice(self.d_profit.as_slice());
        proof {
            assert(v@ =~= spec_serialize_account_book_cell_data(*self));
        }
        v
    }

    /// Parses the canonical byte layout.  Succeeds exactly on records of the
    /// exact length.
    pub fn parse(bytes: &Vec<u8>) -> (r: Result<AccountBookCellData, SilentBerryError>)
        ensures
            match r {
                Ok(d) => {
                    &&& bytes@.len() == ACCOUNT_BOOK_CELL_DATA_LEN
                    &&& d.smt_root_hash@ == bytes@.subrange(0, 32)
                    &&& spec_u32_to_le_bytes(d.member_count) == bytes@.subrange(32, 36)
                    &&& spec_u128_to_le_bytes(d.asset_amount) == bytes@.subrange(36, 52)
                    &&& d.platform_id@ == bytes@.subrange(52, 84)
                    &&& d.auther_id@ == bytes@.subrange(84, 116)
                    &&& spec_u32_to_le_bytes(d.a_num) == bytes@.subrange(116, 120)
                    &&& spec_u32_to_le_bytes(d.b_num) == bytes@.subrange(120, 124)
                    &&& spec_u32_to_le_bytes(d.c_num) == bytes@.subrange(124, 128)
                    &&& d.a_profit@ == bytes@.subrange(128, 130)
                    &&& d.b_profit@ == bytes@.subrange(130, 133)
                    &&& d.c_profit@ == bytes@.subrange(133, 137)
                    &&& d.d_profit@ == bytes@.subrange(137, 142)
                },
                Err(e) => {
                    &&& bytes@.len() != ACCOUNT_BOOK_CELL_DATA_LEN
                    &&& e == SilentBerryError::MolVerificationError
                },
            },
    {
        if bytes.len() != ACCOUNT_BOOK_CELL_DATA_LEN {
            return Err(SilentBerryError::MolVerificationError);
        }
        let s = bytes.as_slice();
        let member_count = u32_from_le_bytes(slice_subrange(s, 32, 36));
        let asset_amount = u128_from_le_bytes(slice_subrange(s, 36, 52));
        let a_num = u32_from_le_bytes(slice_subrange(s, 116, 120));
        let b_num = u32_from_le_bytes(slice_subrange(s, 120, 124));
        let c_num = u32_from_le_bytes(slice_subrange(s, 124, 128));
        let d = AccountBookCellData {
            smt_root_hash: array_from_bytes::<32>(s, 0),
            member_count,
            asset_amount,
            platform_id: array_from_bytes::<32>(s, 52),
            auther_id: array_from_bytes::<32>(s, 84),
            a_num,
            b_num,
            c_num,
            a_profit: array_from_bytes::<2>(s, 128),
            b_profit: array_from_bytes::<3>(s, 130),
            c_profit: array_from_bytes::<4>(s, 133),
            d_profit: array_from_bytes::<5>(s, 137),
        };
        proof {
            vstd::bytes::lemma_auto_spec_u32_to_from_le_bytes();
            vstd::bytes::lemma_auto_spec_u128_to_from_le_bytes();
        }
        Ok(d)
    }
}

/// The record of a purchase intent, carried in its witness and committed by
/// the second half of its script arguments.
#[derive(Clone)]
pub struct BuyIntentData {
    pub xudt_script_hash: Hash32,
    pub dob_selling_script_hash: Hash32,
    pub owner_script_hash: Hash32,
    pub change_script_hash: Hash32,
    pub asset_amount: u128,
    pub min_capacity: u64,
    pub expire_since: u64,
}

/// Exact byte length of the purchase-intent record.
pub const BUY_INTENT_DATA_LEN: usize = 160;

/// The canonical byte layout of the purchase-intent record.
pub open spec fn spec_serialize_buy_intent_data(d: BuyIntentData) -> Seq<u8> {
    d.xudt_script_hash@ + d.dob_selling_script_hash@ + d.owner_script_hash@ + d.change_script_hash@
        + spec_u128_to_le_bytes(d.asset_amount) + spec_u64_to_le_bytes(d.min_capacity)
        + spec_u64_to_le_bytes(d.expire_since)
}

impl BuyIntentData {
    /// Serializes the record in its canonical byte layout.
    pub fn serialize(&self) -> (r: Vec<u8>)
        ensures
            r@ == spec_serialize_buy_intent_data(*self),
            r@.len() == BUY_INTENT_DATA_LEN,
    {
        let mut v: Vec<u8> = Vec::new();
        v.extend_from_slice(self.xudt_script_hash.as_slice());
        v.extend_from_slice(self.dob_selling_script_hash.as_slice());
        v.extend_from_slice(self.owner_script_hash.as_slice());
        v.extend_from_slice(self.change_script_hash.as_slice());
        v.extend_from_slice(u128_to_le_bytes(self.asset_amount).as_slice());
        v.extend_from_slice(u64_to_le_bytes(self.min_capacity).as_slice());
        v.extend_from_slice(u64_to_le_bytes(self.expire_since).as_slice());
        proof {
            assert(v@ =~= spec_serialize_buy_intent_data(*self));
        }
        v
    }

    /// Parses the canonical byte layout.  Succeeds exactly on records of the
    /// exact length.
    pub fn parse(bytes: &Vec<u8>) -> (r: Result<BuyIntentData, SilentBerryError>)
        ensures
            match r {
                Ok(d) => {
                    &&& bytes@.len() == BUY_INTENT_DATA_LEN
                    &&& d.xudt_script_hash@ == bytes@.subrange(0, 32)
                    &&& d.dob_selling_script_hash@ == bytes@.subrange(32, 64)
                    &&& d.owner_script_hash@ == bytes@.subrange(64, 96)
                    &&& d.change_script_hash@ == bytes@.subrange(96, 128)
                    &&& spec_u128_to_le_bytes(d.asset_amount) == bytes@.subrange(128, 144)
                    &&& spec_u64_to_le_bytes(d.min_capacity) == bytes@.subrange(144, 152)
                    &&& spec_u64_to_le_bytes(d.expire_since) == bytes@.subrange(152, 160)
                },
                Err(e) => {
                    &&& bytes@.len() != BUY_INTENT_DATA_LEN
                    &&& e == SilentBerryError::MolVerificationError
                },
            },
    {
        if bytes.len() != BUY_INTENT_DATA_LEN {
            return Err(SilentBerryError::MolVerificationError);
        }
        let s = bytes.as_slice();
        let asset_amount = u128_from_le_bytes(slice_subrange(s, 128, 144));
        let min_capacity = u64_from_le_bytes(slice_subrange(s, 144, 152));
        let expire_since = u64_from_le_bytes(slice_subrange(s, 152, 160));
        let d = BuyIntentData {
            xudt_script_hash: array_from_bytes::<32>(s, 0),
            dob_selling_script_hash: array_from_bytes::<32>(s, 32),
            owner_script_hash: array_from_bytes::<32>(s, 64),
            change_script_hash: array_from_bytes::<32>(s, 96),
            asset_amount,
            min_capacity,
            expire_since,
        };
        proof {
            vstd::bytes::lemma_auto_spec_u64_to_from_le_bytes();
            vstd::bytes::lemma_auto_spec_u128_to_from_le_bytes();
        }
        Ok(d)
    }
}

/// The record of a listing, carried in the lock witness of the escrow cell
/// and committed by the listing script's arguments.
#[derive(Clone)]
pub struct DobSellingData {
    pub spore_data_hash: Hash32,
    pub account_book_script_hash: Hash32,
    pub buy_intent_code_hash: Hash32,
    pub owner_script_hash: Hash32,
}

/// Exact byte length of the listing record.
pub const DOB_SELLING_DATA_LEN: usize = 128;

/// The canonical byte layout of the listing record.
pub open spec fn spec_serialize_dob_selling_data(d: DobSellingData) -> Seq<u8> {
    d.spore_data_hash@ + d.account_book_script_hash@ + d.buy_intent_code_hash@
        + d.owner_script_hash@
}

impl DobSellingData {
    /// Serializes the record in its canonical byte layout.
    pub fn serialize(&self) -> (r: Vec<u8>)
        ensures
            r@ == spec_serialize_dob_selling_data(*self),
            r@.len() == DOB_SELLING_DATA_LEN,
    {
        let mut v: Vec<u8> = Vec::new();
        v.extend_from_slice(self.spore_data_hash.as_slice());
        v.extend_from_slice(self.account_book_script_hash.as_slice());
        v.extend_from_slice(self.buy_intent_code_hash.as_slice());
        v.extend_from_slice(self.owner_script_hash.as_slice());
        proof {
            assert(v@ =~= spec_serialize_dob_selling_data(*self));
        }
        v
    }

    /// Parses the canonical byte layout.  Succeeds exactly on records of the
    /// exact length.
    pub fn parse(bytes: &Vec<u8>) -> (r: Result<DobSellingData, SilentBerryError>)
        ensures
            match r {
                Ok(d) => {
                    &&& bytes@.len() == DOB_SELLING_DATA_LEN
                    &&& d.spore_data_hash@ == bytes@.subrange(0, 32)
                    &&& d.account_book_script_hash@ == bytes@.subrange(32, 64)
                    &&& d.buy_intent_code_hash@ == bytes@.subrange(64, 96)
                    &&& d.owner_script_hash@ == bytes@.subrange(96, 128)
                },
                Err(e) => {
                    &&& bytes@.len() != DOB_SELLING_DATA_LEN
                    &&& e == SilentBerryError::MolVerificationError
                },
            },
    {
        if bytes.len() != DOB_SELLING_DATA_LEN {
            return Err(SilentBerryError::MolVerificationError);
        }
        let s = bytes.as_slice();
        Ok(
            DobSellingData {
                spore_data_hash: array_from_bytes::<32>(s, 0),
                account_book_script_hash: array_from_bytes::<32>(s, 32),
                buy_intent_code_hash: array_from_bytes::<32>(s, 64),
                owner_script_hash: array_from_bytes::<32>(s, 96),
            },
        )
    }
}

/// The record of a withdrawal intent: the claimed collectible level.
#[derive(Clone)]
pub struct WithdrawalIntentData {
    pub spore_level: u8,
}

/// Exact byte length of the withdrawal-intent record.
pub const WITHDRAWAL_INTENT_DATA_LEN: usize = 1;

impl WithdrawalIntentData {
    /// Serializes the record: the single level byte.
    pub fn serialize(&self) -> (r: Vec<u8>)
        ensures
            r@ == seq![self.spore_level],
    {
        let mut v: Vec<u8> = Vec::new();
        v.push(self.spore_level);
        proof {
            assert(v@ =~= seq![self.spore_level]);
        }
        v
    }

    /// Parses the record.  Succeeds exactly on one byte.
    pub fn parse(bytes: &Vec<u8>) -> (r: Result<WithdrawalIntentData, SilentBerryError>)
        ensures
            match r {
                Ok(d) => bytes@.len() == WITHDRAWAL_INTENT_DATA_LEN && d.spore_level == bytes@[0],
                Err(e) => {
                    &&& bytes@.len() != WITHDRAWAL_INTENT_DATA_LEN
                    &&& e == SilentBerryError::MolVerificationError
                },
            },
    {
        if bytes.len() != WITHDRAWAL_INTENT_DATA_LEN {
            return Err(SilentBerryError::MolVerificationError);
        }
        Ok(WithdrawalIntentData { spore_level: bytes[0] })
    }
}

} // verus!
