use crate::data::{AccountBookCellData, BuyIntentData, ACCOUNT_BOOK_CELL_DATA_LEN};
use crate::error::SilentBerryError;
use crate::hash::{ckb_hash, ckb_hash_of, Hash32};
use crate::tx::{
    any_lock_hash, count_type_hash, find_type_hash, lock_hash_matches, spec_count_type_hash,
    spec_find_type_hash, Transaction,
};
use crate::udt_info::{spec_sum, spec_udt_data_ok, spec_udt_entries, UDTInfo};
use vstd::bytes::{spec_u128_from_le_bytes, spec_u64_from_le_bytes};
use vstd::prelude::*;

verus! {

/// The exact decision of intent-cell counting: the structural error when
/// the cell is duplicated, absent, or present on both sides; otherwise
/// which side it lives on.
pub open spec fn spec_is_input_outcome(tx: Transaction, script_hash: Seq<u8>) -> Result<
    bool,
    SilentBerryError,
> {
    let c_in = spec_count_type_hash(tx.inputs@, script_hash);
    let c_out = spec_count_type_hash(tx.outputs@, script_hash);
    if c_in > 1 || c_out > 1 {
        Err(SilentBerryError::TxStructure)
    } else if c_in == 1 && c_out == 0 {
        Ok(true)
    } else if c_in == 0 && c_out == 1 {
        Ok(false)
    } else {
        Err(SilentBerryError::TxStructure)
    }
}

/// Whether the intent cell is being consumed (an input) or created (an
/// output).  There must be exactly one live intent cell, on exactly one
/// side.
pub fn is_input(tx: &Transaction, script_hash: &Hash32) -> (r: Result<bool, SilentBerryError>)
    ensures
        r == spec_is_input_outcome(*tx, script_hash@),
        match r {
            Ok(b) => {
                &&& b ==> spec_count_type_hash(tx.inputs@, script_hash@) == 1
                    && spec_count_type_hash(tx.outputs@, script_hash@) == 0
                &&& !b ==> spec_count_type_hash(tx.inputs@, script_hash@) == 0
                    && spec_count_type_hash(tx.outputs@, script_hash@) == 1
            },
            Err(e) => {
                &&& e == SilentBerryError::TxStructure
                &&& !((spec_count_type_hash(tx.inputs@, script_hash@) == 1
                    && spec_count_type_hash(tx.outputs@, script_hash@) == 0)
                    || (spec_count_type_hash(tx.inputs@, script_hash@) == 0
                    && spec_count_type_hash(tx.outputs@, script_hash@) == 1))
            },
        },
{
    let c_in = count_type_hash(&tx.inputs, script_hash);
    let c_out = count_type_hash(&tx.outputs, script_hash);
    if c_in > 1 || c_out > 1 {
        return Err(SilentBerryError::TxStructure);
    }
    if c_in == 1 && c_out == 0 {
        Ok(true)
    } else if c_in == 0 && c_out == 1 {
        Ok(false)
    } else {
        Err(SilentBerryError::TxStructure)
    }
}

/// The type witness of the first cell of the script's own group: the
/// input-type payload of the consumed intent, or the output-type payload of
/// the created one.
pub open spec fn spec_intent_witness(tx: Transaction, script_hash: Seq<u8>, input: bool) -> Option<
    Seq<u8>,
> {
    let cells = if input {
        tx.inputs@
    } else {
        tx.outputs@
    };
    match spec_find_type_hash(cells, script_hash) {
        Some(i) => {
            if i < tx.witnesses@.len() {
                let payload = if input {
                    tx.witnesses@[i].input_type
                } else {
                    tx.witnesses@[i].output_type
                };
                match payload {
                    Some(w) => Some(w@),
                    None => None,
                }
            } else {
                None
            }
        },
        None => None,
    }
}

/// The exact decision of the record-loading phase: which error a missing or
/// unauthenticated intent record draws, and acceptance otherwise.
pub open spec fn spec_load_outcome(
    tx: Transaction,
    script_hash: Seq<u8>,
    args: Seq<u8>,
    input: bool,
) -> Result<(), SilentBerryError> {
    if args.len() != 64 {
        Err(SilentBerryError::VerifiedData)
    } else {
        let cells = if input {
            tx.inputs@
        } else {
            tx.outputs@
        };
        match spec_find_type_hash(cells, script_hash) {
            None => Err(SilentBerryError::SysError),
            Some(i) => {
                if i >= tx.witnesses@.len() {
                    Err(SilentBerryError::SysError)
                } else {
                    let payload = if input {
                        tx.witnesses@[i].input_type
                    } else {
                        tx.witnesses@[i].output_type
                    };
                    match payload {
                        None => Err(SilentBerryError::TxStructure),
                        Some(w) => {
                            if w@.len() != 160 {
                                Err(SilentBerryError::MolVerificationError)
                            } else if ckb_hash_of(w@) != args.subrange(32, 64) {
                                Err(SilentBerryError::VerifiedData)
                            } else {
                                Ok(())
                            }
                        },
                    }
                }
            },
        }
    }
}

/// Loads and authenticates the intent record: the script arguments must be
/// the ledger script hash followed by the record's hash, and the witness of
/// the intent cell must carry the record itself.  Returns the record and the
/// ledger script hash.
pub fn load_verified_data(tx: &Transaction, script_hash: &Hash32, args: &Vec<u8>, input: bool) -> (r:
    Result<(BuyIntentData, Hash32), SilentBerryError>)
    ensures
        match r {
            Ok((d, ab)) => {
                &&& spec_load_outcome(*tx, script_hash@, args@, input) is Ok
                &&& args@.len() == 64
                &&& ab@ == args@.subrange(0, 32)
                &&& spec_intent_witness(*tx, script_hash@, input) matches Some(w) && {
                    &&& w.len() == 160
                    &&& d.xudt_script_hash@ == w.subrange(0, 32)
                    &&& d.dob_selling_script_hash@ == w.subrange(32, 64)
                    &&& d.owner_script_hash@ == w.subrange(64, 96)
                    &&& d.change_script_hash@ == w.subrange(96, 128)
                    &&& spec_u128_from_le_bytes(w.subrange(128, 144)) == d.asset_amount
                    &&& spec_u64_from_le_bytes(w.subrange(144, 152)) == d.min_capacity
                    &&& spec_u64_from_le_bytes(w.subrange(152, 160)) == d.expire_since
                    &&& ckb_hash_of(w) == args@.subrange(32, 64)
                }
            },
            Err(e) => spec_load_outcome(*tx, script_hash@, args@, input) == Result::<
                (),
                SilentBerryError,
            >::Err(e),
        },
{
    if args.len() != 64 {
        return Err(SilentBerryError::VerifiedData);
    }
    let cells = if input {
        &tx.inputs
    } else {
        &tx.outputs
    };
    let gi = match find_type_hash(cells, script_hash) {
        Some(i) => i,
        None => {
            return Err(SilentBerryError::SysError);
        },
    };
    if gi >= tx.witnesses.len() {
        return Err(SilentBerryError::SysError);
    }
    let payload = if input {
        &tx.witnesses[gi].input_type
    } else {
        &tx.witnesses[gi].output_type
    };
    let witness: &Vec<u8> = match payload {
        Some(w) => w,
        None => {
            return Err(SilentBerryError::TxStructure);
        },
    };
    let data = BuyIntentData::parse(witness)?;
    let h = ckb_hash(witness.as_slice());
    let expected: Hash32 = crate::data::array_from_bytes::<32>(args.as_slice(), 32);
    if !crate::hash::hash_eq(&h, &expected) {
        return Err(SilentBerryError::VerifiedData);
    }
    let ab: Hash32 = crate::data::array_from_bytes::<32>(args.as_slice(), 0);
    proof {
        vstd::bytes::lemma_auto_spec_u64_to_from_le_bytes();
        vstd::bytes::lemma_auto_spec_u128_to_from_le_bytes();
        assert(vstd::bytes::spec_u128_to_le_bytes(data.asset_amount).len() == 16);
        assert(vstd::bytes::spec_u64_to_le_bytes(data.min_capacity).len() == 8);
        assert(vstd::bytes::spec_u64_to_le_bytes(data.expire_since).len() == 8);
    }
    Ok((data, ab))
}

/// Succeeds exactly when the listing escrow referenced by the intent is
/// among the inputs.
pub fn check_input_dob_selling(tx: &Transaction, dob_selling_hash: &Hash32) -> (r: Result<
    (),
    SilentBerryError,
>)
    ensures
        match r {
            Ok(()) => exists|i: int|
                0 <= i < tx.inputs@.len() && lock_hash_matches(tx.inputs@[i], dob_selling_hash@),
            Err(e) => {
                &&& e == SilentBerryError::CheckScript
                &&& forall|i: int|
                    0 <= i < tx.inputs@.len() ==> !lock_hash_matches(
                        tx.inputs@[i],
                        dob_selling_hash@,
                    )
            },
        },
{
    if any_lock_hash(&tx.inputs, dob_selling_hash) {
        Ok(())
    } else {
        Err(SilentBerryError::CheckScript)
    }
}

/// A consumed intent is a normal purchase when the referenced ledger cell is
/// present exactly once in the inputs, exactly once in the outputs, and the
/// output ledger cell records the intent's asset amount as its sale price.
pub open spec fn spec_account_book_ok(tx: Transaction, ab: Seq<u8>, amount: u128) -> bool {
    &&& spec_count_type_hash(tx.inputs@, ab) == 1
    &&& spec_count_type_hash(tx.outputs@, ab) == 1
    &&& spec_find_type_hash(tx.outputs@, ab) matches Some(j) && {
        let d = tx.outputs@[j].data@;
        &&& d.len() == ACCOUNT_BOOK_CELL_DATA_LEN
        &&& spec_u128_from_le_bytes(d.subrange(36, 52)) == amount
    }
}

/// The exact decision of the ledger-cell linkage check: the counterpart
/// error when the ledger cell is not exactly once on each side, the codec
/// error when its record is malformed, the record error when its sale price
/// differs from the intent's.
pub open spec fn spec_check_account_book_outcome(tx: Transaction, ab: Seq<u8>, amount: u128) -> Result<
    (),
    SilentBerryError,
> {
    if spec_count_type_hash(tx.inputs@, ab) != 1 {
        Err(SilentBerryError::CheckScript)
    } else if spec_count_type_hash(tx.outputs@, ab) != 1 {
        Err(SilentBerryError::CheckScript)
    } else {
        match spec_find_type_hash(tx.outputs@, ab) {
            None => Err(SilentBerryError::CheckScript),
            Some(j) => {
                let d = tx.outputs@[j].data@;
                if d.len() != ACCOUNT_BOOK_CELL_DATA_LEN {
                    Err(SilentBerryError::MolVerificationError)
                } else if spec_u128_from_le_bytes(d.subrange(36, 52)) != amount {
                    Err(SilentBerryError::VerifiedData)
                } else {
                    Ok(())
                }
            },
        }
    }
}

/// Checks the ledger-cell linkage of a consumed intent.
pub fn check_account_book(tx: &Transaction, account_book_hash: &Hash32, amount: u128) -> (r: Result<
    (),
    SilentBerryError,
>)
    ensures
        r == spec_check_account_book_outcome(*tx, account_book_hash@, amount),
        r is Ok <==> spec_account_book_ok(*tx, account_book_hash@, amount),
{
    let c_in = count_type_hash(&tx.inputs, account_book_hash);
    if c_in != 1 {
        return Err(SilentBerryError::CheckScript);
    }
    let c_out = count_type_hash(&tx.outputs, account_book_hash);
    if c_out != 1 {
        return Err(SilentBerryError::CheckScript);
    }
    let pos = match find_type_hash(&tx.outputs, account_book_hash) {
        Some(j) => j,
        None => {
            proof {
                crate::tx::lemma_count_type_hash(tx.outputs@, account_book_hash@);
            }
            return Err(SilentBerryError::CheckScript);
        },
    };
    let cell_data = AccountBookCellData::parse(&tx.outputs[pos].data)?;
    proof {
        vstd::bytes::lemma_auto_spec_u128_to_from_le_bytes();
        assert(vstd::bytes::spec_u128_to_le_bytes(cell_data.asset_amount).len() == 16);
    }
    if cell_data.asset_amount != amount {
        return Err(SilentBerryError::VerifiedData);
    }
    Ok(())
}

/// The full accept condition of the purchase-intent script.  A consumed
/// intent is either a normal purchase (ledger cell present and priced as the
/// intent says, listing escrow present) or, once its expiry has passed, a
/// revocation returning the funds to the owner at the second output.  A
/// created intent must pay the asset amount into the second output slot of
/// the token, out of a single token input, and fund the escrow cell to at
/// least the recorded floor.
pub open spec fn spec_buy_intent_accepts(tx: Transaction, script_hash: Seq<u8>, args: Seq<u8>) -> bool {
    &&& args.len() == 64
    &&& {
        let c_in = spec_count_type_hash(tx.inputs@, script_hash);
        let c_out = spec_count_type_hash(tx.outputs@, script_hash);
        if c_in == 1 && c_out == 0 {
            spec_intent_witness(tx, script_hash, true) matches Some(w) && {
                &&& w.len() == 160
                &&& ckb_hash_of(w) == args.subrange(32, 64)
                &&& {
                    let ab = args.subrange(0, 32);
                    let amount = spec_u128_from_le_bytes(w.subrange(128, 144));
                    if spec_account_book_ok(tx, ab, amount) {
                        exists|i: int|
                            0 <= i < tx.inputs@.len() && lock_hash_matches(
                                tx.inputs@[i],
                                w.subrange(32, 64),
                            )
                    } else {
                        &&& spec_find_type_hash(tx.inputs@, script_hash) matches Some(gi)
                            && tx.inputs@[gi].since >= spec_u64_from_le_bytes(
                            w.subrange(152, 160),
                        )
                        &&& tx.outputs@.len() >= 2
                        &&& tx.outputs@[1].lock_hash@ == w.subrange(64, 96)
                    }
                }
            }
        } else if c_in == 0 && c_out == 1 {
            spec_intent_witness(tx, script_hash, false) matches Some(w) && {
                let xudt = w.subrange(0, 32);
                let amount = spec_u128_from_le_bytes(w.subrange(128, 144));
                &&& w.len() == 160
                &&& ckb_hash_of(w) == args.subrange(32, 64)
                &&& tx.outputs@.len() >= 2
                &&& tx.outputs@[1].lock_hash@ == w.subrange(32, 64)
                &&& spec_udt_data_ok(tx.inputs@, xudt)
                &&& spec_udt_data_ok(tx.outputs@, xudt)
                &&& spec_sum(spec_udt_entries(tx.inputs@, xudt)) == spec_sum(
                    spec_udt_entries(tx.outputs@, xudt),
                )
                &&& spec_sum(spec_udt_entries(tx.inputs@, xudt)) <= u128::MAX
                &&& spec_udt_entries(tx.inputs@, xudt).len() == 1
                &&& spec_udt_entries(tx.outputs@, xudt).len() == 2
                &&& spec_udt_entries(tx.inputs@, xudt)[0].1 == 0
                &&& spec_udt_entries(tx.outputs@, xudt)[0].1 == 0
                &&& spec_udt_entries(tx.outputs@, xudt)[1].1 == 1
                &&& spec_udt_entries(tx.outputs@, xudt)[1].0 == amount
                &&& tx.outputs@.len() >= 3
                &&& tx.outputs@[2].capacity >= spec_u64_from_le_bytes(w.subrange(144, 152))
            }
        } else {
            false
        }
    }
}

/// The exact decision of the purchase-intent script: for every transaction,
/// whether it is accepted and, when it is not, which error kind surfaces.
/// A consumed intent whose ledger-linkage check fails and whose expiry has
/// not passed surfaces that check's own error.
pub open spec fn spec_buy_intent_outcome(tx: Transaction, script_hash: Seq<u8>, args: Seq<u8>) -> Result<
    (),
    SilentBerryError,
> {
    match spec_is_input_outcome(tx, script_hash) {
        Err(e) => Err(e),
        Ok(input) => {
            match spec_load_outcome(tx, script_hash, args, input) {
                Err(e) => Err(e),
                Ok(()) => {
                    match spec_intent_witness(tx, script_hash, input) {
                        None => Err(SilentBerryError::SysError),
                        Some(w) => {
                            if input {
                                spec_consumed_outcome(tx, script_hash, args, w)
                            } else {
                                spec_created_outcome(tx, w)
                            }
                        },
                    }
                },
            }
        },
    }
}

/// The exact decision over a consumed intent: a normal purchase, or past
/// expiry a revocation to the owner at the second output.
pub open spec fn spec_consumed_outcome(
    tx: Transaction,
    script_hash: Seq<u8>,
    args: Seq<u8>,
    w: Seq<u8>,
) -> Result<(), SilentBerryError> {
    let ab = args.subrange(0, 32);
    let amount = spec_u128_from_le_bytes(w.subrange(128, 144));
    match spec_check_account_book_outcome(tx, ab, amount) {
        Ok(()) => {
            if exists|i: int|
                0 <= i < tx.inputs@.len() && lock_hash_matches(tx.inputs@[i], w.subrange(32, 64)) {
                Ok(())
            } else {
                Err(SilentBerryError::CheckScript)
            }
        },
        Err(e0) => {
            match spec_find_type_hash(tx.inputs@, script_hash) {
                None => Err(SilentBerryError::SysError),
                Some(gi) => {
                    if tx.inputs@[gi].since < spec_u64_from_le_bytes(w.subrange(152, 160)) {
                        Err(e0)
                    } else if tx.outputs@.len() < 2 {
                        Err(SilentBerryError::SysError)
                    } else if tx.outputs@[1].lock_hash@ != w.subrange(64, 96) {
                        Err(SilentBerryError::CheckScript)
                    } else {
                        Ok(())
                    }
                },
            }
        },
    }
}

/// The exact decision over a created intent: the payment flows into the
/// designated token slots and the escrow cell is funded to the floor.
pub open spec fn spec_created_outcome(tx: Transaction, w: Seq<u8>) -> Result<
    (),
    SilentBerryError,
> {
    let xudt = w.subrange(0, 32);
    let amount = spec_u128_from_le_bytes(w.subrange(128, 144));
    let in_entries = spec_udt_entries(tx.inputs@, xudt);
    let out_entries = spec_udt_entries(tx.outputs@, xudt);
    if tx.outputs@.len() < 2 {
        Err(SilentBerryError::SysError)
    } else if tx.outputs@[1].lock_hash@ != w.subrange(32, 64) {
        Err(SilentBerryError::CheckScript)
    } else if !(spec_udt_data_ok(tx.inputs@, xudt) && spec_udt_data_ok(tx.outputs@, xudt)) {
        Err(SilentBerryError::CheckXUDT)
    } else if !(spec_sum(in_entries) == spec_sum(out_entries) && spec_sum(in_entries)
        <= u128::MAX) {
        Err(SilentBerryError::CheckXUDT)
    } else if in_entries.len() != 1 {
        Err(SilentBerryError::CheckXUDT)
    } else if out_entries.len() != 2 {
        Err(SilentBerryError::CheckXUDT)
    } else if !(in_entries[0].1 == 0 && out_entries[0].1 == 0 && out_entries[1].1 == 1) {
        Err(SilentBerryError::CheckXUDT)
    } else if out_entries[1].0 != amount {
        Err(SilentBerryError::CheckXUDT)
    } else if tx.outputs@.len() < 3 {
        Err(SilentBerryError::SysError)
    } else if tx.outputs@[2].capacity < spec_u64_from_le_bytes(w.subrange(144, 152)) {
        Err(SilentBerryError::CapacityError)
    } else {
        Ok(())
    }
}

/// The purchase-intent script's whole decision: acceptance exactly on the
/// transactions that `spec_buy_intent_accepts` admits, and on rejection
/// exactly the error kind that `spec_buy_intent_outcome` fixes.
pub fn program_entry2(tx: &Transaction, script_hash: &Hash32, args: &Vec<u8>) -> (r: Result<
    (),
    SilentBerryError,
>)
    ensures
        r == spec_buy_intent_outcome(*tx, script_hash@, args@),
        r is Ok <==> spec_buy_intent_accepts(*tx, script_hash@, args@),
{
    let input = is_input(tx, script_hash)?;
    let (data, accountbook_hash) = load_verified_data(tx, script_hash, args, input)?;
    if input {
        let ret = check_account_book(tx, &accountbook_hash, data.asset_amount);
        match ret {
            Ok(()) => {
                check_input_dob_selling(tx, &data.dob_selling_script_hash)?;
                Ok(())
            },
            Err(e) => {
                let gi = match find_type_hash(&tx.inputs, script_hash) {
                    Some(i) => i,
                    None => {
                        return Err(SilentBerryError::SysError);
                    },
                };
                let since = tx.inputs[gi].since;
                if since < data.expire_since {
                    return Err(e);
                }
                if tx.outputs.len() < 2 {
                    return Err(SilentBerryError::SysError);
                }
                if !crate::hash::hash_eq(&tx.outputs[1].lock_hash, &data.owner_script_hash) {
                    return Err(SilentBerryError::CheckScript);
                }
                Ok(())
            },
        }
    } else {
        if tx.outputs.len() < 2 {
            return Err(SilentBerryError::SysError);
        }
        if !crate::hash::hash_eq(&tx.outputs[1].lock_hash, &data.dob_selling_script_hash) {
            return Err(SilentBerryError::CheckScript);
        }
        let udt_info = UDTInfo::new(tx, &data.xudt_script_hash)?;
        udt_info.check_udt()?;
        if udt_info.inputs.len() != 1 {
            return Err(SilentBerryError::CheckXUDT);
        }
        if udt_info.outputs.len() != 2 {
            return Err(SilentBerryError::CheckXUDT);
        }
        if udt_info.inputs[0].1 != 0 || udt_info.outputs[0].1 != 0 || udt_info.outputs[1].1 != 1 {
            return Err(SilentBerryError::CheckXUDT);
        }
        if udt_info.outputs[1].0 != data.asset_amount {
            return Err(SilentBerryError::CheckXUDT);
        }
        if tx.outputs.len() < 3 {
            return Err(SilentBerryError::SysError);
        }
        let capacity = tx.outputs[2].capacity;
        if capacity < data.min_capacity {
            return Err(SilentBerryError::CapacityError);
        }
        Ok(())
    }
}

} // verus!
