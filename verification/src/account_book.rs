use crate::account_book_proof::{
    smt_replay, spec_add_fits, spec_add_to_level, spec_claim_leaves, spec_claim_leaves_member,
    AccountBookProof, SmtKey, TotalAmounts,
};
use crate::data::{
    AccountBookCellData, AccountBookData, ACCOUNT_BOOK_CELL_DATA_LEN, ACCOUNT_BOOK_DATA_FIXED,
};
use crate::error::SilentBerryError;
use crate::hash::{ckb_hash_of, Hash32};
use crate::spore::{spec_hex_value, spec_last_hex_index, spec_parse_spore_data, SporeData};
use crate::tx::{
    count_type_hash, find_type_hash, get_index_by_code_hash, lock_code_matches,
    spec_code_hash_indices, spec_count_type_hash, spec_find_type_hash, type_code_matches, CellInfo,
    Transaction,
};
use crate::udt_info::{
    lemma_udt_entries_bounds, spec_sum, spec_udt_data_ok, spec_udt_entries, UDTInfo,
};
use vstd::bytes::{spec_u128_from_le_bytes, spec_u32_from_le_bytes};
use vstd::prelude::*;

verus! {

/// The output-type witness of the first output of the ledger script's own
/// group, where the configuration record travels.
pub open spec fn spec_ab_witness(tx: Transaction, script_hash: Seq<u8>) -> Option<Seq<u8>> {
    match spec_find_type_hash(tx.outputs@, script_hash) {
        Some(i) => {
            if i < tx.witnesses@.len() {
                match tx.witnesses@[i].output_type {
                    Some(w) => Some(w@),
                    None => None,
                }
            } else {
                None
            }
        },
        None => None,
    }
}

/// The exact decision of the record-loading phase: which error a missing or
/// unauthenticated configuration record draws, and acceptance otherwise.
pub open spec fn spec_load_outcome(tx: Transaction, script_hash: Seq<u8>, args: Seq<u8>) -> Result<
    (),
    SilentBerryError,
> {
    if args.len() != 32 {
        Err(SilentBerryError::VerifiedData)
    } else {
        match spec_find_type_hash(tx.outputs@, script_hash) {
            None => Err(SilentBerryError::SysError),
            Some(i) => {
                if i >= tx.witnesses@.len() {
                    Err(SilentBerryError::SysError)
                } else {
                    match tx.witnesses@[i].output_type {
                        None => Err(SilentBerryError::ParseWitness),
                        Some(w) => {
                            if w@.len() < ACCOUNT_BOOK_DATA_FIXED {
                                Err(SilentBerryError::MolVerificationError)
                            } else if ckb_hash_of(w@.subrange(0, 192) + Seq::new(64, |i: int| 0u8))
                                != args {
                                Err(SilentBerryError::VerifiedData)
                            } else {
                                Ok(())
                            }
                        },
                    }
                }
            },
        }
    }
}

/// Loads and authenticates the ledger configuration record: the script
/// arguments must be one digest, equal to the record's commitment (the hash
/// of the record with the proof emptied and the totals zeroed).
pub fn load_verified_data(tx: &Transaction, script_hash: &Hash32, args: &Vec<u8>) -> (r: Result<
    AccountBookData,
    SilentBerryError,
>)
    ensures
        match r {
            Ok(d) => {
                &&& spec_load_outcome(*tx, script_hash@, args@) is Ok
                &&& args@.len() == 32
                &&& spec_ab_witness(*tx, script_hash@) matches Some(w) && {
                    &&& w.len() >= ACCOUNT_BOOK_DATA_FIXED
                    &&& d.dob_selling_code_hash@ == w.subrange(0, 32)
                    &&& d.buy_intent_code_hash@ == w.subrange(32, 64)
                    &&& d.withdrawal_intent_code_hash@ == w.subrange(64, 96)
                    &&& d.xudt_script_hash@ == w.subrange(96, 128)
                    &&& d.input_type_proxy_lock_code_hash@ == w.subrange(128, 160)
                    &&& d.cluster_id@ == w.subrange(160, 192)
                    &&& spec_u128_from_le_bytes(w.subrange(192, 208)) == d.total_a
                    &&& spec_u128_from_le_bytes(w.subrange(208, 224)) == d.total_b
                    &&& spec_u128_from_le_bytes(w.subrange(224, 240)) == d.total_c
                    &&& spec_u128_from_le_bytes(w.subrange(240, 256)) == d.total_d
                    &&& d.proof@ == w.subrange(256, w.len() as int)
                    &&& ckb_hash_of(w.subrange(0, 192) + Seq::new(64, |i: int| 0u8)) == args@
                }
            },
            Err(e) => spec_load_outcome(*tx, script_hash@, args@) == Result::<
                (),
                SilentBerryError,
            >::Err(e),
        },
{
    if args.len() != 32 {
        return Err(SilentBerryError::VerifiedData);
    }
    let gi = match find_type_hash(&tx.outputs, script_hash) {
        Some(i) => i,
        None => {
            return Err(SilentBerryError::SysError);
        },
    };
    if gi >= tx.witnesses.len() {
        return Err(SilentBerryError::SysError);
    }
    let witness: &Vec<u8> = match &tx.witnesses[gi].output_type {
        Some(w) => w,
        None => {
            return Err(SilentBerryError::ParseWitness);
        },
    };
    let data = AccountBookData::parse(witness)?;
    let commit = data.commitment();
    let expected: Hash32 = crate::data::array_from_bytes::<32>(args.as_slice(), 0);
    proof {
        assert(args@.subrange(0, 32) =~= args@);
        assert(crate::data::spec_commitment_input(data) =~= witness@.subrange(0, 192) + Seq::new(
            64,
            |i: int| 0u8,
        ));
        vstd::bytes::lemma_auto_spec_u128_to_from_le_bytes();
        assert(vstd::bytes::spec_u128_to_le_bytes(data.total_a).len() == 16);
        assert(vstd::bytes::spec_u128_to_le_bytes(data.total_b).len() == 16);
        assert(vstd::bytes::spec_u128_to_le_bytes(data.total_c).len() == 16);
        assert(vstd::bytes::spec_u128_to_le_bytes(data.total_d).len() == 16);
    }
    if !crate::hash::hash_eq(&commit, &expected) {
        return Err(SilentBerryError::VerifiedData);
    }
    Ok(data)
}

/// The exact decision of the group-structure check: the host error when a
/// ledger cell is missing on a side, the structural error when one is
/// duplicated.
pub open spec fn spec_structure_outcome(tx: Transaction, script_hash: Seq<u8>) -> Result<
    (),
    SilentBerryError,
> {
    let c_in = spec_count_type_hash(tx.inputs@, script_hash);
    let c_out = spec_count_type_hash(tx.outputs@, script_hash);
    if c_in == 0 || c_out == 0 {
        Err(SilentBerryError::SysError)
    } else if c_in > 1 || c_out > 1 {
        Err(SilentBerryError::TxStructure)
    } else {
        Ok(())
    }
}

/// Structural invariant of the ledger group: exactly one ledger cell in the
/// inputs and exactly one in the outputs.
pub fn check_account_book(tx: &Transaction, script_hash: &Hash32) -> (r: Result<
    (),
    SilentBerryError,
>)
    ensures
        r == spec_structure_outcome(*tx, script_hash@),
        r is Ok <==> spec_count_type_hash(tx.inputs@, script_hash@) == 1
            && spec_count_type_hash(tx.outputs@, script_hash@) == 1,
{
    let c_in = count_type_hash(&tx.inputs, script_hash);
    let c_out = count_type_hash(&tx.outputs, script_hash);
    if c_in == 0 || c_out == 0 {
        return Err(SilentBerryError::SysError);
    }
    if c_in > 1 || c_out > 1 {
        return Err(SilentBerryError::TxStructure);
    }
    Ok(())
}

/// The exact decision of transition selection: a sale needs a listing
/// escrow among the input locks and a purchase intent among the input
/// types; a withdrawal needs a withdrawal intent among the input types;
/// a missing counterpart script is the counterparty error.
pub open spec fn spec_select_outcome(
    tx: Transaction,
    dob_code: Seq<u8>,
    bi_code: Seq<u8>,
    wi_code: Seq<u8>,
) -> Result<bool, SilentBerryError> {
    let has_dob = exists|i: int|
        0 <= i < tx.inputs@.len() && lock_code_matches(tx.inputs@[i], dob_code);
    let has_bi = exists|i: int|
        0 <= i < tx.inputs@.len() && type_code_matches(tx.inputs@[i], bi_code);
    let has_wi = exists|i: int|
        0 <= i < tx.inputs@.len() && type_code_matches(tx.inputs@[i], wi_code);
    if has_dob {
        if has_bi {
            Ok(true)
        } else {
            Err(SilentBerryError::CheckScript)
        }
    } else if has_wi {
        Ok(false)
    } else {
        Err(SilentBerryError::CheckScript)
    }
}

/// Transition selection: a transaction that consumes a listing escrow is a
/// sale, and must then also consume the configured purchase intent;
/// otherwise it must consume a withdrawal intent.  A missing counterpart
/// script is the counterparty error.
pub fn check_script_code_hash(tx: &Transaction, data: &AccountBookData) -> (r: Result<
    bool,
    SilentBerryError,
>)
    ensures
        r == spec_select_outcome(
            *tx,
            data.dob_selling_code_hash@,
            data.buy_intent_code_hash@,
            data.withdrawal_intent_code_hash@,
        ),
{
    let n_inputs = tx.inputs.len();
    proof {
        assert(tx.inputs@.len() == n_inputs);
        crate::tx::lemma_code_hash_indices(tx.inputs@, data.dob_selling_code_hash@, true);
        crate::tx::lemma_code_hash_indices(tx.inputs@, data.buy_intent_code_hash@, false);
        crate::tx::lemma_code_hash_indices(tx.inputs@, data.withdrawal_intent_code_hash@, false);
    }
    let dob = get_index_by_code_hash(&tx.inputs, &data.dob_selling_code_hash, true);
    if dob.len() > 0 {
        proof {
            assert(lock_code_matches(
                tx.inputs@[spec_code_hash_indices(
                    tx.inputs@,
                    data.dob_selling_code_hash@,
                    true,
                )[0] as int],
                data.dob_selling_code_hash@,
            ));
        }
        let bi = get_index_by_code_hash(&tx.inputs, &data.buy_intent_code_hash, false);
        if bi.len() == 0 {
            return Err(SilentBerryError::CheckScript);
        }
        proof {
            assert(type_code_matches(
                tx.inputs@[spec_code_hash_indices(
                    tx.inputs@,
                    data.buy_intent_code_hash@,
                    false,
                )[0] as int],
                data.buy_intent_code_hash@,
            ));
        }
        return Ok(true);
    }
    let wi = get_index_by_code_hash(&tx.inputs, &data.withdrawal_intent_code_hash, false);
    if wi.len() > 0 {
        proof {
            assert(type_code_matches(
                tx.inputs@[spec_code_hash_indices(
                    tx.inputs@,
                    data.withdrawal_intent_code_hash@,
                    false,
                )[0] as int],
                data.withdrawal_intent_code_hash@,
            ));
        }
        return Ok(false);
    }
    Err(SilentBerryError::CheckScript)
}

/// The persisted-state rules of one ledger transition: both ledger cells
/// hold well-formed records, everything but the root hash and the member
/// count is byte-identical, and the member count grows by exactly one on a
/// sale and not at all on a withdrawal.
pub open spec fn spec_cell_data_ok(tx: Transaction, script_hash: Seq<u8>, is_selling: bool) -> bool {
    &&& spec_find_type_hash(tx.inputs@, script_hash) matches Some(i) && {
        &&& spec_find_type_hash(tx.outputs@, script_hash) matches Some(j) && {
            let old = tx.inputs@[i].data@;
            let new = tx.outputs@[j].data@;
            &&& old.len() == ACCOUNT_BOOK_CELL_DATA_LEN
            &&& new.len() == ACCOUNT_BOOK_CELL_DATA_LEN
            &&& old.subrange(36, 142) == new.subrange(36, 142)
            &&& if is_selling {
                spec_u32_from_le_bytes(new.subrange(32, 36)) == spec_u32_from_le_bytes(
                    old.subrange(32, 36),
                ) + 1
            } else {
                spec_u32_from_le_bytes(new.subrange(32, 36)) == spec_u32_from_le_bytes(
                    old.subrange(32, 36),
                )
            }
        }
    }
}

/// The exact decision of the persisted-state check: the host error when a
/// ledger cell is missing, the codec error when a record is malformed, the
/// record error when an immutable field changed, the member-count error
/// when the count breaks the transition's rule.
pub open spec fn spec_cell_data_outcome(tx: Transaction, script_hash: Seq<u8>, is_selling: bool) -> Result<
    (),
    SilentBerryError,
> {
    match spec_find_type_hash(tx.inputs@, script_hash) {
        None => Err(SilentBerryError::SysError),
        Some(i) => {
            match spec_find_type_hash(tx.outputs@, script_hash) {
                None => Err(SilentBerryError::SysError),
                Some(j) => {
                    let old = tx.inputs@[i].data@;
                    let new = tx.outputs@[j].data@;
                    if old.len() != ACCOUNT_BOOK_CELL_DATA_LEN {
                        Err(SilentBerryError::MolVerificationError)
                    } else if new.len() != ACCOUNT_BOOK_CELL_DATA_LEN {
                        Err(SilentBerryError::MolVerificationError)
                    } else if old.subrange(36, 142) != new.subrange(36, 142) {
                        Err(SilentBerryError::VerifiedData)
                    } else if (if is_selling {
                        spec_u32_from_le_bytes(new.subrange(32, 36)) != spec_u32_from_le_bytes(
                            old.subrange(32, 36),
                        ) + 1
                    } else {
                        spec_u32_from_le_bytes(new.subrange(32, 36)) != spec_u32_from_le_bytes(
                            old.subrange(32, 36),
                        )
                    }) {
                        Err(SilentBerryError::AccountBookModified)
                    } else {
                        Ok(())
                    }
                },
            }
        },
    }
}

/// Loads both ledger cell records and checks the persisted-state rules.
/// Returns the new record and the old root hash.
pub fn load_verified_cell_data(tx: &Transaction, script_hash: &Hash32, is_selling: bool) -> (r:
    Result<(AccountBookCellData, Hash32), SilentBerryError>)
    ensures
        match r {
            Ok((cd, old_root)) => {
                &&& spec_cell_data_outcome(*tx, script_hash@, is_selling) is Ok
                &&& spec_cell_data_ok(*tx, script_hash@, is_selling)
                &&& spec_find_type_hash(tx.inputs@, script_hash@) matches Some(i) && old_root@
                    == tx.inputs@[i].data@.subrange(0, 32)
                &&& spec_find_type_hash(tx.outputs@, script_hash@) matches Some(j) && {
                    let new = tx.outputs@[j].data@;
                    &&& cd.smt_root_hash@ == new.subrange(0, 32)
                    &&& spec_u32_from_le_bytes(new.subrange(32, 36)) == cd.member_count
                    &&& spec_u128_from_le_bytes(new.subrange(36, 52)) == cd.asset_amount
                }
            },
            Err(e) => {
                &&& spec_cell_data_outcome(*tx, script_hash@, is_selling) == Result::<
                    (),
                    SilentBerryError,
                >::Err(e)
                &&& !spec_cell_data_ok(*tx, script_hash@, is_selling)
            },
        },
{
    let gi = match find_type_hash(&tx.inputs, script_hash) {
        Some(i) => i,
        None => {
            return Err(SilentBerryError::SysError);
        },
    };
    let go = match find_type_hash(&tx.outputs, script_hash) {
        Some(j) => j,
        None => {
            return Err(SilentBerryError::SysError);
        },
    };
    let old_bytes = &tx.inputs[gi].data;
    let new_bytes = &tx.outputs[go].data;
    let old_cd = AccountBookCellData::parse(old_bytes)?;
    let new_cd = AccountBookCellData::parse(new_bytes)?;
    if !crate::data::range_eq(old_bytes, new_bytes, 36, 142) {
        return Err(SilentBerryError::VerifiedData);
    }
    proof {
        vstd::bytes::lemma_auto_spec_u32_to_from_le_bytes();
        assert(vstd::bytes::spec_u32_to_le_bytes(old_cd.member_count).len() == 4);
        assert(vstd::bytes::spec_u32_to_le_bytes(new_cd.member_count).len() == 4);
        vstd::bytes::lemma_auto_spec_u128_to_from_le_bytes();
        assert(vstd::bytes::spec_u128_to_le_bytes(new_cd.asset_amount).len() == 16);
    }
    if is_selling {
        if (new_cd.member_count as u64) != (old_cd.member_count as u64) + 1 {
            return Err(SilentBerryError::AccountBookModified);
        }
    } else {
        if new_cd.member_count != old_cd.member_count {
            return Err(SilentBerryError::AccountBookModified);
        }
    }
    let old_root: Hash32 = old_cd.smt_root_hash;
    Ok((new_cd, old_root))
}

/// A cell whose data parses as a collectible descriptor.
pub open spec fn spore_cell_matches(c: CellInfo) -> bool {
    spec_parse_spore_data(c.data@) is Some
}

/// The index of the first cell whose data parses as a collectible
/// descriptor, if any.
pub open spec fn spec_find_spore(cells: Seq<CellInfo>) -> Option<int>
    decreases cells.len(),
{
    if cells.len() == 0 {
        None
    } else if spore_cell_matches(cells[0]) {
        Some(0)
    } else {
        match spec_find_spore(cells.drop_first()) {
            Some(i) => Some(i + 1),
            None => None,
        }
    }
}

/// The first descriptor index is a valid index of the first match, and it is
/// absent exactly when no cell holds a descriptor.
pub proof fn lemma_find_spore(cells: Seq<CellInfo>)
    ensures
        match spec_find_spore(cells) {
            Some(i) => {
                &&& 0 <= i < cells.len()
                &&& spore_cell_matches(cells[i])
                &&& forall|j: int| 0 <= j < i ==> !spore_cell_matches(cells[j])
            },
            None => forall|j: int| 0 <= j < cells.len() ==> !spore_cell_matches(cells[j]),
        },
    decreases cells.len(),
{
    if cells.len() > 0 && !spore_cell_matches(cells[0]) {
        let tail = cells.drop_first();
        lemma_find_spore(tail);
        assert(forall|j: int| 0 <= j < tail.len() ==> #[trigger] tail[j] == cells[j + 1]);
        match spec_find_spore(tail) {
            Some(i) => {
                assert forall|j: int| 0 <= j < i + 1 implies !spore_cell_matches(cells[j]) by {
                    if j > 0 {
                        assert(!spore_cell_matches(tail[j - 1]));
                    }
                }
            },
            None => {
                assert forall|j: int| 0 <= j < cells.len() implies !spore_cell_matches(
                    cells[j],
                ) by {
                    if j > 0 {
                        assert(!spore_cell_matches(tail[j - 1]));
                    }
                }
            },
        }
    }
}

/// The exact decision of collectible lookup: the collectible error when no
/// output holds a descriptor or the descriptor cell has no type script, the
/// conversion error when its identity is not one digest.
pub open spec fn spec_get_spore_outcome(tx: Transaction) -> Result<(), SilentBerryError> {
    match spec_find_spore(tx.outputs@) {
        None => Err(SilentBerryError::Spore),
        Some(k) => {
            match tx.outputs@[k].type_script {
                None => Err(SilentBerryError::Spore),
                Some(s) => {
                    if s.args@.len() != 32 {
                        Err(SilentBerryError::TypeConversion)
                    } else {
                        Ok(())
                    }
                },
            }
        },
    }
}

/// Finds the collectible among the given cells: the first cell whose data
/// parses as a descriptor.  Returns the descriptor and the collectible
/// identity, taken from that cell's type-script arguments.
pub fn get_spore(tx: &Transaction) -> (r: Result<(SporeData, Hash32), SilentBerryError>)
    ensures
        match r {
            Ok((sd, id)) => {
                &&& spec_get_spore_outcome(*tx) is Ok
                &&& spec_find_spore(tx.outputs@) matches Some(k) && {
                    let cell = tx.outputs@[k];
                    &&& spec_parse_spore_data(cell.data@) matches Some(f) && {
                        &&& sd.content_type@ == f.0
                        &&& sd.content@ == f.1
                        &&& match (f.2, sd.cluster_id) {
                            (Some(c), Some(dc)) => c == dc@,
                            (None, None) => true,
                            _ => false,
                        }
                    }
                    &&& cell.type_script matches Some(s) && s.args@.len() == 32 && id@ == s.args@
                }
            },
            Err(e) => spec_get_spore_outcome(*tx) == Result::<(), SilentBerryError>::Err(e),
        },
{
    let n = tx.outputs.len();
    let mut i: usize = 0;
    while i < n
        invariant
            n == tx.outputs@.len(),
            i <= n,
            forall|j: int| 0 <= j < i ==> !spore_cell_matches(tx.outputs@[j]),
        decreases n - i,
    {
        let parsed = SporeData::parse(&tx.outputs[i].data);
        if let Ok(sd) = parsed {
            proof {
                lemma_find_spore(tx.outputs@);
            }
            let s = match &tx.outputs[i].type_script {
                Some(s) => s,
                None => {
                    return Err(SilentBerryError::Spore);
                },
            };
            if s.args.len() != 32 {
                return Err(SilentBerryError::TypeConversion);
            }
            let id: Hash32 = crate::data::array_from_bytes::<32>(s.args.as_slice(), 0);
            proof {
                assert(s.args@.subrange(0, 32) =~= s.args@);
            }
            return Ok((sd, id));
        }
        i = i + 1;
    }
    proof {
        lemma_find_spore(tx.outputs@);
    }
    Err(SilentBerryError::Spore)
}

/// The cell is an input-side payment proxy of this ledger: its lock carries
/// the configured proxy code hash and names this ledger in its arguments.
pub open spec fn proxy_cell_matches(c: CellInfo, code: Seq<u8>, self_hash: Seq<u8>) -> bool {
    &&& c.lock.code_hash@ == code
    &&& c.lock.args@ == self_hash
}

/// Every token cell whose lock carries the proxy code hash has 32-byte lock
/// arguments.
pub open spec fn spec_proxy_args_ok(
    cells: Seq<CellInfo>,
    entries: Seq<(u128, usize)>,
    code: Seq<u8>,
) -> bool {
    forall|k: int|
        0 <= k < entries.len() && cells[(#[trigger] entries[k]).1 as int].lock.code_hash@ == code
            ==> cells[entries[k].1 as int].lock.args@.len() == 32
}

/// At most one token cell is a proxy of this ledger.
pub open spec fn spec_proxy_at_most_one(
    cells: Seq<CellInfo>,
    entries: Seq<(u128, usize)>,
    code: Seq<u8>,
    self_hash: Seq<u8>,
) -> bool {
    forall|k1: int, k2: int|
        0 <= k1 < k2 < entries.len() && proxy_cell_matches(
            cells[(#[trigger] entries[k1]).1 as int],
            code,
            self_hash,
        ) ==> !proxy_cell_matches(cells[(#[trigger] entries[k2]).1 as int], code, self_hash)
}

/// The exact decision of the proxy scan, walking the token entries from
/// `k` with `found` holding the balance of a proxy already seen: the
/// conversion error at the first proxy-coded cell whose lock arguments are
/// not one digest, the structural error at a second proxy of this ledger or
/// when none is found, and otherwise the unique proxy's balance.
pub open spec fn spec_proxy_scan(
    cells: Seq<CellInfo>,
    entries: Seq<(u128, usize)>,
    code: Seq<u8>,
    self_hash: Seq<u8>,
    k: int,
    found: Option<u128>,
) -> Result<u128, SilentBerryError>
    decreases entries.len() - k,
{
    if k < 0 || k >= entries.len() {
        match found {
            Some(a) => Ok(a),
            None => Err(SilentBerryError::TxStructure),
        }
    } else {
        let c = cells[entries[k].1 as int];
        if c.lock.code_hash@ == code {
            if c.lock.args@.len() != 32 {
                Err(SilentBerryError::TypeConversion)
            } else if c.lock.args@ == self_hash {
                if found is Some {
                    Err(SilentBerryError::TxStructure)
                } else {
                    spec_proxy_scan(cells, entries, code, self_hash, k + 1, Some(entries[k].0))
                }
            } else {
                spec_proxy_scan(cells, entries, code, self_hash, k + 1, found)
            }
        } else {
            spec_proxy_scan(cells, entries, code, self_hash, k + 1, found)
        }
    }
}

/// Scans one side's token entries for the unique proxy cell of this ledger
/// and returns its balance.
fn find_proxy_amount(
    cells: &Vec<CellInfo>,
    entries: &Vec<(u128, usize)>,
    code: &Hash32,
    self_hash: &Hash32,
) -> (r: Result<u128, SilentBerryError>)
    requires
        forall|k: int|
            0 <= k < entries@.len() ==> (#[trigger] entries@[k]).1 < cells@.len(),
    ensures
        r == spec_proxy_scan(cells@, entries@, code@, self_hash@, 0, None),
        match r {
            Ok(a) => {
                &&& spec_proxy_args_ok(cells@, entries@, code@)
                &&& spec_proxy_at_most_one(cells@, entries@, code@, self_hash@)
                &&& exists|k: int|
                    0 <= k < entries@.len() && proxy_cell_matches(
                        cells@[(#[trigger] entries@[k]).1 as int],
                        code@,
                        self_hash@,
                    ) && entries@[k].0 == a
            },
            Err(e) => {
                ||| (e == SilentBerryError::TypeConversion && !spec_proxy_args_ok(
                    cells@,
                    entries@,
                    code@,
                ))
                ||| (e == SilentBerryError::TxStructure && !(spec_proxy_at_most_one(
                    cells@,
                    entries@,
                    code@,
                    self_hash@,
                ) && exists|k: int|
                    0 <= k < entries@.len() && proxy_cell_matches(
                        cells@[(#[trigger] entries@[k]).1 as int],
                        code@,
                        self_hash@,
                    )))
            },
        },
{
    let n = entries.len();
    let mut found: Option<(u128, usize)> = None;
    let mut k: usize = 0;
    while k < n
        invariant
            n == entries@.len(),
            k <= n,
            spec_proxy_scan(cells@, entries@, code@, self_hash@, 0, None) == spec_proxy_scan(
                cells@,
                entries@,
                code@,
                self_hash@,
                k as int,
                match found {
                    Some((a, _)) => Some(a),
                    None => None,
                },
            ),
            forall|j: int|
                0 <= j < entries@.len() ==> (#[trigger] entries@[j]).1 < cells@.len(),
            forall|j: int|
                0 <= j < k && cells@[(#[trigger] entries@[j]).1 as int].lock.code_hash@ == code@
                    ==> cells@[entries@[j].1 as int].lock.args@.len() == 32,
            match found {
                Some((a, fk)) => {
                    &&& fk < k
                    &&& proxy_cell_matches(
                        cells@[entries@[fk as int].1 as int],
                        code@,
                        self_hash@,
                    )
                    &&& entries@[fk as int].0 == a
                    &&& forall|j: int|
                        0 <= j < k && j != fk ==> !proxy_cell_matches(
                            cells@[(#[trigger] entries@[j]).1 as int],
                            code@,
                            self_hash@,
                        )
                },
                None => forall|j: int|
                    0 <= j < k ==> !proxy_cell_matches(
                        cells@[(#[trigger] entries@[j]).1 as int],
                        code@,
                        self_hash@,
                    ),
            },
        decreases n - k,
    {
        let idx = entries[k].1;
        let cell = &cells[idx];
        if crate::hash::hash_eq(&cell.lock.code_hash, code) {
            if cell.lock.args.len() != 32 {
                return Err(SilentBerryError::TypeConversion);
            }
            if crate::hash::bytes_eq_hash(&cell.lock.args, self_hash) {
                if found.is_some() {
                    return Err(SilentBerryError::TxStructure);
                }
                found = Some((entries[k].0, k));
            }
        }
        k = k + 1;
    }
    match found {
        Some((a, _)) => Ok(a),
        None => Err(SilentBerryError::TxStructure),
    }
}

/// The payment-proxy conditions of a sale: each side of the transaction has
/// exactly one token cell locked by the proxy for this ledger; the proxy
/// balance grows by exactly the sale price; and the old proxy balance equals
/// the sum of the four recorded tier totals, tying the authenticated map to
/// the physical token balance.
pub open spec fn spec_proxy_ok(
    tx: Transaction,
    script_hash: Seq<u8>,
    xudt: Seq<u8>,
    proxy_code: Seq<u8>,
    totals: TotalAmounts,
    amount: u128,
) -> bool {
    let in_entries = spec_udt_entries(tx.inputs@, xudt);
    let out_entries = spec_udt_entries(tx.outputs@, xudt);
    &&& spec_proxy_args_ok(tx.inputs@, in_entries, proxy_code)
    &&& spec_proxy_args_ok(tx.outputs@, out_entries, proxy_code)
    &&& spec_proxy_at_most_one(tx.inputs@, in_entries, proxy_code, script_hash)
    &&& spec_proxy_at_most_one(tx.outputs@, out_entries, proxy_code, script_hash)
    &&& exists|ki: int, ko: int|
        {
            &&& 0 <= ki < in_entries.len()
            &&& 0 <= ko < out_entries.len()
            &&& proxy_cell_matches(
                tx.inputs@[(#[trigger] in_entries[ki]).1 as int],
                proxy_code,
                script_hash,
            )
            &&& proxy_cell_matches(
                tx.outputs@[(#[trigger] out_entries[ko]).1 as int],
                proxy_code,
                script_hash,
            )
            &&& in_entries[ki].0 + amount == out_entries[ko].0
            &&& in_entries[ki].0 == totals.spec_total()
        }
}

/// The exact decision of the proxy resolution: the scan errors of either
/// side, then the conservation error when the proxy balance does not grow
/// by exactly the price or the old balance does not equal the recorded
/// totals.
pub open spec fn spec_proxy_outcome(
    tx: Transaction,
    script_hash: Seq<u8>,
    xudt: Seq<u8>,
    proxy_code: Seq<u8>,
    totals: TotalAmounts,
    amount: u128,
) -> Result<(), SilentBerryError> {
    match spec_proxy_scan(
        tx.inputs@,
        spec_udt_entries(tx.inputs@, xudt),
        proxy_code,
        script_hash,
        0,
        None,
    ) {
        Err(e) => Err(e),
        Ok(ia) => {
            match spec_proxy_scan(
                tx.outputs@,
                spec_udt_entries(tx.outputs@, xudt),
                proxy_code,
                script_hash,
                0,
                None,
            ) {
                Err(e) => Err(e),
                Ok(oa) => {
                    if ia + amount != oa {
                        Err(SilentBerryError::CheckXUDT)
                    } else if totals.spec_total() > u128::MAX {
                        Err(SilentBerryError::CheckXUDT)
                    } else if ia != totals.spec_total() {
                        Err(SilentBerryError::CheckXUDT)
                    } else {
                        Ok(())
                    }
                },
            }
        },
    }
}

/// Resolves the token amount flowing through the ledger's payment proxy and
/// checks it against the sale price and the recorded tier totals.
pub fn check_input_type_proxy_lock(
    tx: &Transaction,
    script_hash: &Hash32,
    data: &AccountBookData,
    udt_info: &UDTInfo,
    amount: u128,
) -> (r: Result<(u128, u128, u128), SilentBerryError>)
    requires
        udt_info.inputs@ == spec_udt_entries(tx.inputs@, data.xudt_script_hash@),
        udt_info.outputs@ == spec_udt_entries(tx.outputs@, data.xudt_script_hash@),
    ensures
        match r {
            Ok((ia, oa, am)) => {
                &&& spec_proxy_outcome(
                    *tx,
                    script_hash@,
                    data.xudt_script_hash@,
                    data.input_type_proxy_lock_code_hash@,
                    data.total_amounts_spec(),
                    amount,
                ) is Ok
                &&& am == amount
                &&& spec_proxy_ok(
                    *tx,
                    script_hash@,
                    data.xudt_script_hash@,
                    data.input_type_proxy_lock_code_hash@,
                    data.total_amounts_spec(),
                    amount,
                )
                &&& ia + amount == oa
                &&& ia == data.total_amounts_spec().spec_total()
            },
            Err(e) => {
                &&& spec_proxy_outcome(
                    *tx,
                    script_hash@,
                    data.xudt_script_hash@,
                    data.input_type_proxy_lock_code_hash@,
                    data.total_amounts_spec(),
                    amount,
                ) == Result::<(), SilentBerryError>::Err(e)
                &&& !spec_proxy_ok(
                    *tx,
                    script_hash@,
                    data.xudt_script_hash@,
                    data.input_type_proxy_lock_code_hash@,
                    data.total_amounts_spec(),
                    amount,
                )
                &&& (e == SilentBerryError::TypeConversion || e == SilentBerryError::TxStructure
                    || e == SilentBerryError::CheckXUDT)
            },
        },
{
    let n_inputs = tx.inputs.len();
    let n_outputs = tx.outputs.len();
    proof {
        assert(tx.inputs@.len() == n_inputs);
        assert(tx.outputs@.len() == n_outputs);
        lemma_udt_entries_bounds(tx.inputs@, data.xudt_script_hash@);
        lemma_udt_entries_bounds(tx.outputs@, data.xudt_script_hash@);
    }
    let input_amount = find_proxy_amount(
        &tx.inputs,
        &udt_info.inputs,
        &data.input_type_proxy_lock_code_hash,
        script_hash,
    )?;
    let output_amount = find_proxy_amount(
        &tx.outputs,
        &udt_info.outputs,
        &data.input_type_proxy_lock_code_hash,
        script_hash,
    )?;
    if !(input_amount <= u128::MAX - amount && input_amount + amount == output_amount) {
        return Err(SilentBerryError::CheckXUDT);
    }
    let totals = data.total_amounts();
    let total = match totals.checked_total() {
        Some(t) => t,
        None => {
            return Err(SilentBerryError::CheckXUDT);
        },
    };
    if input_amount != total {
        return Err(SilentBerryError::CheckXUDT);
    }
    Ok((input_amount, output_amount, amount))
}

/// The whole accept condition of a sale: the minted collectible belongs to
/// the configured cluster, the token amounts conserve and flow through the
/// ledger's proxy as the recorded totals say, and one compiled proof
/// verifies the claimed map transition against both roots, with the member
/// slot moving from absent to the sale price and the collectible's tier
/// total growing by it.
pub open spec fn spec_selling_ok(
    tx: Transaction,
    script_hash: Seq<u8>,
    cluster_id: Seq<u8>,
    xudt: Seq<u8>,
    proxy_code: Seq<u8>,
    totals: TotalAmounts,
    proof_bytes: Seq<u8>,
    asset_amount: u128,
    old_root: Seq<u8>,
    new_root: Seq<u8>,
) -> bool {
    &&& spec_find_spore(tx.outputs@) matches Some(k) && {
        let cell = tx.outputs@[k];
        &&& cell.type_script matches Some(s) && {
            let spore_id = s.args@;
            &&& spore_id.len() == 32
            &&& spec_parse_spore_data(cell.data@) matches Some(f) && {
                let content = f.1;
                &&& f.2 matches Some(c) && c == cluster_id
                &&& spec_udt_data_ok(tx.inputs@, xudt)
                &&& spec_udt_data_ok(tx.outputs@, xudt)
                &&& spec_sum(spec_udt_entries(tx.inputs@, xudt)) == spec_sum(
                    spec_udt_entries(tx.outputs@, xudt),
                )
                &&& spec_sum(spec_udt_entries(tx.inputs@, xudt)) <= u128::MAX
                &&& spec_proxy_ok(tx, script_hash, xudt, proxy_code, totals, asset_amount)
                &&& smt_replay(
                    proof_bytes,
                    old_root,
                    spec_claim_leaves_member(totals, spore_id, None),
                ) == Result::<bool, ()>::Ok(true)
                &&& vstd::utf8::valid_utf8(content)
                &&& spec_last_hex_index(content) matches Some(hi) && {
                    let lv = spec_hex_value(content[hi]);
                    &&& 1 <= lv <= 4
                    &&& spec_add_fits(totals, asset_amount, lv)
                    &&& smt_replay(
                        proof_bytes,
                        new_root,
                        spec_claim_leaves_member(
                            spec_add_to_level(totals, asset_amount, lv),
                            spore_id,
                            Some(asset_amount),
                        ),
                    ) == Result::<bool, ()>::Ok(true)
                }
            }
        }
    }
}

/// The exact decision of a sale, in the order the checks run: collectible
/// lookup, cluster membership, token conservation, proxy resolution, the
/// old-root verification, tier decoding, the overflow check, and the
/// new-root verification.
pub open spec fn spec_selling_outcome(
    tx: Transaction,
    script_hash: Seq<u8>,
    cluster_id: Seq<u8>,
    xudt: Seq<u8>,
    proxy_code: Seq<u8>,
    totals: TotalAmounts,
    proof_bytes: Seq<u8>,
    asset_amount: u128,
    old_root: Seq<u8>,
    new_root: Seq<u8>,
) -> Result<(), SilentBerryError> {
    match spec_get_spore_outcome(tx) {
        Err(e) => Err(e),
        Ok(()) => {
            match spec_find_spore(tx.outputs@) {
                None => Err(SilentBerryError::Spore),
                Some(k) => {
                    match tx.outputs@[k].type_script {
                        None => Err(SilentBerryError::Spore),
                        Some(s) => {
                            match spec_parse_spore_data(tx.outputs@[k].data@) {
                                None => Err(SilentBerryError::Spore),
                                Some(f) => {
                                    match f.2 {
                                        None => Err(SilentBerryError::Spore),
                                        Some(c) => {
                                            if c != cluster_id {
                                                Err(SilentBerryError::VerifiedData)
                                            } else {
                                                spec_funded_sale_outcome(
                                                    tx,
                                                    script_hash,
                                                    xudt,
                                                    proxy_code,
                                                    totals,
                                                    proof_bytes,
                                                    asset_amount,
                                                    old_root,
                                                    new_root,
                                                    s.args@,
                                                    f.1,
                                                )
                                            }
                                        },
                                    }
                                },
                            }
                        },
                    }
                },
            }
        },
    }
}

/// The exact decision of a sale from the token checks on: the collectible
/// has been found and belongs to the cluster; `spore_id` is its identity
/// and `content` its content.
pub open spec fn spec_funded_sale_outcome(
    tx: Transaction,
    script_hash: Seq<u8>,
    xudt: Seq<u8>,
    proxy_code: Seq<u8>,
    totals: TotalAmounts,
    proof_bytes: Seq<u8>,
    asset_amount: u128,
    old_root: Seq<u8>,
    new_root: Seq<u8>,
    spore_id: Seq<u8>,
    content: Seq<u8>,
) -> Result<(), SilentBerryError> {
    if !(spec_udt_data_ok(tx.inputs@, xudt) && spec_udt_data_ok(tx.outputs@, xudt)) {
        Err(SilentBerryError::CheckXUDT)
    } else if !(spec_sum(spec_udt_entries(tx.inputs@, xudt)) == spec_sum(
        spec_udt_entries(tx.outputs@, xudt),
    ) && spec_sum(spec_udt_entries(tx.inputs@, xudt)) <= u128::MAX) {
        Err(SilentBerryError::CheckXUDT)
    } else {
        match spec_proxy_outcome(tx, script_hash, xudt, proxy_code, totals, asset_amount) {
            Err(e) => Err(e),
            Ok(()) => {
                match smt_replay(
                    proof_bytes,
                    old_root,
                    spec_claim_leaves_member(totals, spore_id, None),
                ) {
                    Err(()) => Err(SilentBerryError::Smt),
                    Ok(false) => Err(SilentBerryError::Smt),
                    Ok(true) => {
                        if !vstd::utf8::valid_utf8(content) {
                            Err(SilentBerryError::Spore)
                        } else {
                            match spec_last_hex_index(content) {
                                None => Err(SilentBerryError::Spore),
                                Some(hi) => {
                                    let lv = spec_hex_value(content[hi]);
                                    if !(1 <= lv <= 4) {
                                        Err(SilentBerryError::Spore)
                                    } else if !spec_add_fits(totals, asset_amount, lv) {
                                        Err(SilentBerryError::AccountBookOverflow)
                                    } else {
                                        match smt_replay(
                                            proof_bytes,
                                            new_root,
                                            spec_claim_leaves_member(
                                                spec_add_to_level(totals, asset_amount, lv),
                                                spore_id,
                                                Some(asset_amount),
                                            ),
                                        ) {
                                            Err(()) => Err(SilentBerryError::Smt),
                                            Ok(false) => Err(SilentBerryError::Smt),
                                            Ok(true) => Ok(()),
                                        }
                                    }
                                },
                            }
                        }
                    },
                }
            },
        }
    }
}

/// Checks a sale against the configuration record, the new cell record and
/// the old root.
pub fn selling(
    tx: &Transaction,
    script_hash: &Hash32,
    data: &AccountBookData,
    cell_data: &AccountBookCellData,
    old_smt_hash: &Hash32,
) -> (r: Result<(), SilentBerryError>)
    ensures
        r == spec_selling_outcome(
            *tx,
            script_hash@,
            data.cluster_id@,
            data.xudt_script_hash@,
            data.input_type_proxy_lock_code_hash@,
            data.total_amounts_spec(),
            data.proof@,
            cell_data.asset_amount,
            old_smt_hash@,
            cell_data.smt_root_hash@,
        ),
        match r {
            Ok(()) => spec_selling_ok(
                *tx,
                script_hash@,
                data.cluster_id@,
                data.xudt_script_hash@,
                data.input_type_proxy_lock_code_hash@,
                data.total_amounts_spec(),
                data.proof@,
                cell_data.asset_amount,
                old_smt_hash@,
                cell_data.smt_root_hash@,
            ),
            Err(e) => {
                &&& !spec_selling_ok(
                    *tx,
                    script_hash@,
                    data.cluster_id@,
                    data.xudt_script_hash@,
                    data.input_type_proxy_lock_code_hash@,
                    data.total_amounts_spec(),
                    data.proof@,
                    cell_data.asset_amount,
                    old_smt_hash@,
                    cell_data.smt_root_hash@,
                )
                &&& (e == SilentBerryError::Spore || e == SilentBerryError::TypeConversion || e
                    == SilentBerryError::VerifiedData || e == SilentBerryError::CheckXUDT || e
                    == SilentBerryError::TxStructure || e == SilentBerryError::Smt || e
                    == SilentBerryError::AccountBookOverflow)
            },
        },
{
    let (spore_data, spore_id) = get_spore(tx)?;
    let cluster_ok: bool = match &spore_data.cluster_id {
        Some(c) => crate::hash::bytes_eq_hash(c, &data.cluster_id),
        None => {
            return Err(SilentBerryError::Spore);
        },
    };
    if !cluster_ok {
        return Err(SilentBerryError::VerifiedData);
    }
    let udt_info = UDTInfo::new(tx, &data.xudt_script_hash)?;
    udt_info.check_udt()?;
    let (_, _, amount) = check_input_type_proxy_lock(
        tx,
        script_hash,
        data,
        &udt_info,
        cell_data.asset_amount,
    )?;
    let mut total = data.total_amounts();
    let account_proof = AccountBookProof::new(vstd::slice::slice_to_vec(data.proof.as_slice()));
    proof {
        assert(spec_claim_leaves(
            data.total_amounts_spec(),
            (SmtKey::Member(spore_id), None::<u128>),
        ) =~= spec_claim_leaves_member(data.total_amounts_spec(), spore_id@, None::<u128>));
    }
    let first = account_proof.verify(
        *old_smt_hash,
        total.clone(),
        (SmtKey::Member(spore_id), None),
    )?;
    if !first {
        return Err(SilentBerryError::Smt);
    }
    let level = crate::spore::get_spore_level(&spore_data)?;
    total.add(amount, level)?;
    proof {
        assert(total == spec_add_to_level(data.total_amounts_spec(), amount, level));
        assert(spec_claim_leaves(total, (SmtKey::Member(spore_id), Some(amount)))
            =~= spec_claim_leaves_member(total, spore_id@, Some(amount)));
    }
    let second = account_proof.verify(
        cell_data.smt_root_hash,
        total.clone(),
        (SmtKey::Member(spore_id), Some(amount)),
    )?;
    if !second {
        return Err(SilentBerryError::Smt);
    }
    Ok(())
}

/// The accept condition of a withdrawal as far as the protocol defines it:
/// token conservation holds, and the first consumed withdrawal-intent cell
/// carries a well-formed intent record in its input-type witness.
pub open spec fn spec_withdrawal_ok(tx: Transaction, xudt: Seq<u8>, wi_code: Seq<u8>) -> bool {
    &&& spec_udt_data_ok(tx.inputs@, xudt)
    &&& spec_udt_data_ok(tx.outputs@, xudt)
    &&& spec_sum(spec_udt_entries(tx.inputs@, xudt)) == spec_sum(spec_udt_entries(tx.outputs@, xudt))
    &&& spec_sum(spec_udt_entries(tx.inputs@, xudt)) <= u128::MAX
    &&& spec_code_hash_indices(tx.inputs@, wi_code, false).len() > 0
    &&& {
        let idx = spec_code_hash_indices(tx.inputs@, wi_code, false)[0];
        &&& idx < tx.witnesses@.len()
        &&& tx.witnesses@[idx as int].input_type matches Some(wd) && wd@.len() == 1 && 1 <= wd@[0]
            <= 4
    }
}

/// The exact decision of a withdrawal, in the order the checks run:
/// conservation, then the shape of the first consumed withdrawal intent.
pub open spec fn spec_withdrawal_outcome(tx: Transaction, xudt: Seq<u8>, wi_code: Seq<u8>) -> Result<
    (),
    SilentBerryError,
> {
    if !(spec_udt_data_ok(tx.inputs@, xudt) && spec_udt_data_ok(tx.outputs@, xudt)) {
        Err(SilentBerryError::CheckXUDT)
    } else if !(spec_sum(spec_udt_entries(tx.inputs@, xudt)) == spec_sum(
        spec_udt_entries(tx.outputs@, xudt),
    ) && spec_sum(spec_udt_entries(tx.inputs@, xudt)) <= u128::MAX) {
        Err(SilentBerryError::CheckXUDT)
    } else if spec_code_hash_indices(tx.inputs@, wi_code, false).len() == 0 {
        Err(SilentBerryError::TxStructure)
    } else {
        let idx = spec_code_hash_indices(tx.inputs@, wi_code, false)[0];
        if idx >= tx.witnesses@.len() {
            Err(SilentBerryError::SysError)
        } else {
            match tx.witnesses@[idx as int].input_type {
                None => Err(SilentBerryError::TxStructure),
                Some(wd) => {
                    if wd@.len() != 1 {
                        Err(SilentBerryError::MolVerificationError)
                    } else if !(1 <= wd@[0] <= 4) {
                        Err(SilentBerryError::Spore)
                    } else {
                        Ok(())
                    }
                },
            }
        }
    }
}

/// Checks a withdrawal transition.  The amount-release rule of this flow is
/// not part of the committed protocol yet; what is checked is conservation
/// and the shape of the withdrawal intent: its witness must carry a
/// well-formed intent record whose claimed level decodes to one of the four
/// payout tiers.
pub fn withdrawal(tx: &Transaction, data: &AccountBookData) -> (r: Result<(), SilentBerryError>)
    ensures
        r == spec_withdrawal_outcome(
            *tx,
            data.xudt_script_hash@,
            data.withdrawal_intent_code_hash@,
        ),
        r is Ok <==> spec_withdrawal_ok(
            *tx,
            data.xudt_script_hash@,
            data.withdrawal_intent_code_hash@,
        ),
{
    let udt_info = UDTInfo::new(tx, &data.xudt_script_hash)?;
    udt_info.check_udt()?;
    let indices = get_index_by_code_hash(&tx.inputs, &data.withdrawal_intent_code_hash, false);
    if indices.len() == 0 {
        return Err(SilentBerryError::TxStructure);
    }
    let idx = indices[0];
    if idx >= tx.witnesses.len() {
        return Err(SilentBerryError::SysError);
    }
    let wd: &Vec<u8> = match &tx.witnesses[idx].input_type {
        Some(w) => w,
        None => {
            return Err(SilentBerryError::TxStructure);
        },
    };
    let intent = crate::data::WithdrawalIntentData::parse(wd)?;
    let _level = crate::level::Level::try_from_u8(intent.spore_level)?;
    Ok(())
}

/// Whether this invocation creates the ledger cell.  Creation is an explicit
/// non-goal of the committed protocol: a ledger cell is assumed to exist.
pub fn is_creation() -> (r: Result<bool, SilentBerryError>)
    ensures
        r == Result::<bool, SilentBerryError>::Ok(false),
{
    Ok(false)
}

/// Creation fails fast: the transition is not part of the committed
/// protocol.
pub fn creation(_data: AccountBookData) -> (r: Result<(), SilentBerryError>)
    ensures
        r == Result::<(), SilentBerryError>::Err(SilentBerryError::Unknow),
{
    Err(SilentBerryError::Unknow)
}

/// The full accept condition of the ledger script: an authenticated
/// configuration record, exactly one ledger cell on each side, the
/// persisted-state rules, and the sale or withdrawal conditions according
/// to which counterpart scripts the inputs hold.
pub open spec fn spec_account_book_accepts(tx: Transaction, script_hash: Seq<u8>, args: Seq<u8>) -> bool {
    &&& args.len() == 32
    &&& spec_ab_witness(tx, script_hash) matches Some(w) && {
        &&& w.len() >= ACCOUNT_BOOK_DATA_FIXED
        &&& ckb_hash_of(w.subrange(0, 192) + Seq::new(64, |i: int| 0u8)) == args
        &&& spec_count_type_hash(tx.inputs@, script_hash) == 1
        &&& spec_count_type_hash(tx.outputs@, script_hash) == 1
        &&& {
            let has_dob = exists|i: int|
                0 <= i < tx.inputs@.len() && lock_code_matches(tx.inputs@[i], w.subrange(0, 32));
            let has_wi = exists|i: int|
                0 <= i < tx.inputs@.len() && type_code_matches(tx.inputs@[i], w.subrange(64, 96));
            &&& (has_dob || has_wi)
            &&& spec_cell_data_ok(tx, script_hash, has_dob)
            &&& if has_dob {
                &&& exists|i: int|
                    0 <= i < tx.inputs@.len() && type_code_matches(
                        tx.inputs@[i],
                        w.subrange(32, 64),
                    )
                &&& spec_find_type_hash(tx.inputs@, script_hash) matches Some(gi) && {
                    &&& spec_find_type_hash(tx.outputs@, script_hash) matches Some(go)
                        && spec_selling_ok(
                        tx,
                        script_hash,
                        w.subrange(160, 192),
                        w.subrange(96, 128),
                        w.subrange(128, 160),
                        TotalAmounts {
                            a: spec_u128_from_le_bytes(w.subrange(192, 208)),
                            b: spec_u128_from_le_bytes(w.subrange(208, 224)),
                            c: spec_u128_from_le_bytes(w.subrange(224, 240)),
                            d: spec_u128_from_le_bytes(w.subrange(240, 256)),
                        },
                        w.subrange(256, w.len() as int),
                        spec_u128_from_le_bytes(tx.outputs@[go].data@.subrange(36, 52)),
                        tx.inputs@[gi].data@.subrange(0, 32),
                        tx.outputs@[go].data@.subrange(0, 32),
                    )
                }
            } else {
                spec_withdrawal_ok(tx, w.subrange(96, 128), w.subrange(64, 96))
            }
        }
    }
}

/// The exact decision of the ledger script: for every transaction, whether
/// it is accepted and, when it is not, which error kind surfaces.
pub open spec fn spec_account_book_outcome(tx: Transaction, script_hash: Seq<u8>, args: Seq<u8>) -> Result<
    (),
    SilentBerryError,
> {
    match spec_load_outcome(tx, script_hash, args) {
        Err(e) => Err(e),
        Ok(()) => {
            match spec_ab_witness(tx, script_hash) {
                None => Err(SilentBerryError::SysError),
                Some(w) => {
                    match spec_structure_outcome(tx, script_hash) {
                        Err(e) => Err(e),
                        Ok(()) => {
                            match spec_select_outcome(
                                tx,
                                w.subrange(0, 32),
                                w.subrange(32, 64),
                                w.subrange(64, 96),
                            ) {
                                Err(e) => Err(e),
                                Ok(is_selling) => {
                                    match spec_cell_data_outcome(tx, script_hash, is_selling) {
                                        Err(e) => Err(e),
                                        Ok(()) => {
                                            if is_selling {
                                                match (
                                                    spec_find_type_hash(tx.inputs@, script_hash),
                                                    spec_find_type_hash(tx.outputs@, script_hash),
                                                ) {
                                                    (Some(gi), Some(go)) => spec_selling_outcome(
                                                        tx,
                                                        script_hash,
                                                        w.subrange(160, 192),
                                                        w.subrange(96, 128),
                                                        w.subrange(128, 160),
                                                        TotalAmounts {
                                                            a: spec_u128_from_le_bytes(
                                                                w.subrange(192, 208),
                                                            ),
                                                            b: spec_u128_from_le_bytes(
                                                                w.subrange(208, 224),
                                                            ),
                                                            c: spec_u128_from_le_bytes(
                                                                w.subrange(224, 240),
                                                            ),
                                                            d: spec_u128_from_le_bytes(
                                                                w.subrange(240, 256),
                                                            ),
                                                        },
                                                        w.subrange(256, w.len() as int),
                                                        spec_u128_from_le_bytes(
                                                            tx.outputs@[go].data@.subrange(36, 52),
                                                        ),
                                                        tx.inputs@[gi].data@.subrange(0, 32),
                                                        tx.outputs@[go].data@.subrange(0, 32),
                                                    ),
                                                    _ => Err(SilentBerryError::SysError),
                                                }
                                            } else {
                                                spec_withdrawal_outcome(
                                                    tx,
                                                    w.subrange(96, 128),
                                                    w.subrange(64, 96),
                                                )
                                            }
                                        },
                                    }
                                },
                            }
                        },
                    }
                },
            }
        },
    }
}

/// The ledger script's whole decision: acceptance exactly on the
/// transactions that `spec_account_book_accepts` admits, and on rejection
/// exactly the error kind that `spec_account_book_outcome` fixes.
pub fn program_entry2(tx: &Transaction, script_hash: &Hash32, args: &Vec<u8>) -> (r: Result<
    (),
    SilentBerryError,
>)
    ensures
        r == spec_account_book_outcome(*tx, script_hash@, args@),
        r is Ok <==> spec_account_book_accepts(*tx, script_hash@, args@),
{
    let data = load_verified_data(tx, script_hash, args)?;
    if is_creation()? {
        return creation(data);
    }
    check_account_book(tx, script_hash)?;
    let is_selling = check_script_code_hash(tx, &data)?;
    let (cell_data, old_smt_hash) = load_verified_cell_data(tx, script_hash, is_selling)?;
    if is_selling {
        selling(tx, script_hash, &data, &cell_data, &old_smt_hash)?;
    } else {
        withdrawal(tx, &data)?;
    }
    Ok(())
}

} // verus!
