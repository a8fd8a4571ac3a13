use crate::data::DobSellingData;
use crate::error::SilentBerryError;
use crate::hash::{ckb_hash, ckb_hash_of, Hash32};
use crate::tx::{
    any_data_hash, any_type_hash, find_lock_hash, spec_find_lock_hash, type_hash_matches,
    Transaction,
};
use vstd::bytes::spec_u128_from_le_bytes;
use vstd::prelude::*;

verus! {

/// The lock witness of the first input of the script's own lock group, if
/// that input and its witness payload exist.
pub open spec fn spec_dob_witness(tx: Transaction, script_hash: Seq<u8>) -> Option<Seq<u8>> {
    match spec_find_lock_hash(tx.inputs@, script_hash) {
        Some(i) => {
            if i < tx.witnesses@.len() {
                match tx.witnesses@[i].lock {
                    Some(w) => Some(w@),
                    None => None,
                }
            } else {
                None
            }
        },
        None => None,
    }
}

/// The exact decision of the record-loading phase: which error a missing or
/// unauthenticated listing record draws, and acceptance otherwise.
pub open spec fn spec_load_outcome(tx: Transaction, script_hash: Seq<u8>, args: Seq<u8>) -> Result<
    (),
    SilentBerryError,
> {
    if args.len() != 32 {
        Err(SilentBerryError::VerifiedDataLen)
    } else {
        match spec_find_lock_hash(tx.inputs@, script_hash) {
            None => Err(SilentBerryError::SysError),
            Some(i) => {
                if i >= tx.witnesses@.len() {
                    Err(SilentBerryError::SysError)
                } else {
                    match tx.witnesses@[i].lock {
                        None => Err(SilentBerryError::TxStructure),
                        Some(w) => {
                            if w@.len() != 128 {
                                Err(SilentBerryError::MolVerificationError)
                            } else if ckb_hash_of(w@) != args {
                                Err(SilentBerryError::VerifiedData)
                            } else {
                                Ok(())
                            }
                        },
                    }
                }
            },
        }
    }
}

/// Loads and authenticates the listing record: the script arguments must be
/// one digest, the first input of the script's own lock group must carry a
/// lock witness holding the record, and the record's hash must equal the
/// arguments.
pub fn load_verified_data(tx: &Transaction, script_hash: &Hash32, args: &Vec<u8>) -> (r: Result<
    DobSellingData,
    SilentBerryError,
>)
    ensures
        match r {
            Ok(d) => {
                &&& spec_load_outcome(*tx, script_hash@, args@) is Ok
                &&& args@.len() == 32
                &&& spec_dob_witness(*tx, script_hash@) matches Some(w) && {
                    &&& w.len() == 128
                    &&& d.spore_data_hash@ == w.subrange(0, 32)
                    &&& d.account_book_script_hash@ == w.subrange(32, 64)
                    &&& d.buy_intent_code_hash@ == w.subrange(64, 96)
                    &&& d.owner_script_hash@ == w.subrange(96, 128)
                    &&& ckb_hash_of(w) == args@
                }
            },
            Err(e) => spec_load_outcome(*tx, script_hash@, args@) == Result::<
                (),
                SilentBerryError,
            >::Err(e),
        },
{
    if args.len() != 32 {
        return Err(SilentBerryError::VerifiedDataLen);
    }
    let gi = match find_lock_hash(&tx.inputs, script_hash) {
        Some(i) => i,
        None => {
            return Err(SilentBerryError::SysError);
        },
    };
    if gi >= tx.witnesses.len() {
        return Err(SilentBerryError::SysError);
    }
    let witness: &Vec<u8> = match &tx.witnesses[gi].lock {
        Some(w) => w,
        None => {
            return Err(SilentBerryError::TxStructure);
        },
    };
    let data = DobSellingData::parse(witness)?;
    let h = ckb_hash(witness.as_slice());
    let expected: &Hash32 = &crate::data::array_from_bytes::<32>(args.as_slice(), 0);
    proof {
        assert(args@.subrange(0, 32) =~= args@);
    }
    if !crate::hash::hash_eq(&h, expected) {
        return Err(SilentBerryError::VerifiedData);
    }
    Ok(data)
}

/// Succeeds exactly when some output cell's data hashes to the listed
/// collectible's content hash.
pub fn check_spore_data(tx: &Transaction, hash: &Hash32) -> (r: Result<(), SilentBerryError>)
    ensures
        match r {
            Ok(()) => exists|i: int|
                0 <= i < tx.outputs@.len() && ckb_hash_of(tx.outputs@[i].data@) == hash@,
            Err(e) => {
                &&& e == SilentBerryError::SporeDataHash
                &&& forall|i: int|
                    0 <= i < tx.outputs@.len() ==> ckb_hash_of(tx.outputs@[i].data@) != hash@
            },
        },
{
    if any_data_hash(&tx.outputs, hash) {
        Ok(())
    } else {
        Err(SilentBerryError::SporeDataHash)
    }
}

/// Succeeds exactly when the referenced ledger cell is present among the
/// inputs and among the outputs.
pub fn check_account_book(tx: &Transaction, account_book_hash: &Hash32) -> (r: Result<
    (),
    SilentBerryError,
>)
    ensures
        match r {
            Ok(()) => {
                &&& exists|i: int|
                    0 <= i < tx.inputs@.len() && type_hash_matches(
                        tx.inputs@[i],
                        account_book_hash@,
                    )
                &&& exists|i: int|
                    0 <= i < tx.outputs@.len() && type_hash_matches(
                        tx.outputs@[i],
                        account_book_hash@,
                    )
            },
            Err(e) => {
                &&& e == SilentBerryError::AccountBookScriptHash
                &&& ((forall|i: int|
                    0 <= i < tx.inputs@.len() ==> !type_hash_matches(
                        tx.inputs@[i],
                        account_book_hash@,
                    )) || (forall|i: int|
                    0 <= i < tx.outputs@.len() ==> !type_hash_matches(
                        tx.outputs@[i],
                        account_book_hash@,
                    )))
            },
        },
{
    if !any_type_hash(&tx.inputs, account_book_hash) {
        return Err(SilentBerryError::AccountBookScriptHash);
    }
    if !any_type_hash(&tx.outputs, account_book_hash) {
        return Err(SilentBerryError::AccountBookScriptHash);
    }
    Ok(())
}

/// The revocation conditions of a consumed listing whose collectible is not
/// re-minted: the first output returns the escrowed tokens to the owner
/// unchanged, and the purchase intent is consumed alongside.
pub open spec fn spec_revocation_ok(tx: Transaction, data: DobSellingData) -> bool {
    &&& tx.outputs@.len() >= 1
    &&& tx.outputs@[0].lock_hash@ == data.owner_script_hash@
    &&& tx.inputs@.len() >= 2
    &&& tx.inputs@[0].data@.len() == 16
    &&& tx.outputs@[0].data@.len() == 16
    &&& spec_u128_from_le_bytes(tx.inputs@[0].data@) == spec_u128_from_le_bytes(
        tx.outputs@[0].data@,
    )
    &&& tx.inputs@[1].type_script matches Some(s) && s.code_hash@ == data.buy_intent_code_hash@
}

/// The exact decision of the revocation path: which error each failing
/// check draws, in the order the checks run.
pub open spec fn spec_revocation_outcome(tx: Transaction, owner: Seq<u8>, bi_code: Seq<u8>) -> Result<
    (),
    SilentBerryError,
> {
    if tx.outputs@.len() < 1 {
        Err(SilentBerryError::SysError)
    } else if tx.outputs@[0].lock_hash@ != owner {
        Err(SilentBerryError::OnwerScriptHash)
    } else if tx.inputs@.len() < 1 {
        Err(SilentBerryError::SysError)
    } else if tx.inputs@[0].data@.len() != 16 || tx.outputs@[0].data@.len() != 16 {
        Err(SilentBerryError::XudtIncorrect)
    } else if spec_u128_from_le_bytes(tx.inputs@[0].data@) != spec_u128_from_le_bytes(
        tx.outputs@[0].data@,
    ) {
        Err(SilentBerryError::XudtIncorrect)
    } else if tx.inputs@.len() < 2 {
        Err(SilentBerryError::SysError)
    } else {
        match tx.inputs@[1].type_script {
            None => Err(SilentBerryError::TxStructure),
            Some(s) => {
                if s.code_hash@ != bi_code {
                    Err(SilentBerryError::BuyIntentCodeHash)
                } else {
                    Ok(())
                }
            },
        }
    }
}

/// Checks a revocation: the first output's lock must be the configured
/// owner, the token amount must be unchanged between the first input and
/// the first output, and the second input must be the purchase intent.
pub fn revocation(tx: &Transaction, data: &DobSellingData) -> (r: Result<(), SilentBerryError>)
    ensures
        r == spec_revocation_outcome(*tx, data.owner_script_hash@, data.buy_intent_code_hash@),
        r is Ok <==> spec_revocation_ok(*tx, *data),
{
    if tx.outputs.len() < 1 {
        return Err(SilentBerryError::SysError);
    }
    if !crate::hash::hash_eq(&tx.outputs[0].lock_hash, &data.owner_script_hash) {
        return Err(SilentBerryError::OnwerScriptHash);
    }
    if tx.inputs.len() < 1 {
        return Err(SilentBerryError::SysError);
    }
    if tx.inputs[0].data.len() != 16 || tx.outputs[0].data.len() != 16 {
        return Err(SilentBerryError::XudtIncorrect);
    }
    let amount1 = vstd::bytes::u128_from_le_bytes(
        vstd::slice::slice_subrange(tx.inputs[0].data.as_slice(), 0, 16),
    );
    let amount2 = vstd::bytes::u128_from_le_bytes(
        vstd::slice::slice_subrange(tx.outputs[0].data.as_slice(), 0, 16),
    );
    proof {
        assert(tx.inputs@[0].data@.subrange(0, 16) =~= tx.inputs@[0].data@);
        assert(tx.outputs@[0].data@.subrange(0, 16) =~= tx.outputs@[0].data@);
    }
    if amount1 != amount2 {
        return Err(SilentBerryError::XudtIncorrect);
    }
    if tx.inputs.len() < 2 {
        return Err(SilentBerryError::SysError);
    }
    let lock_code_hash: &Hash32 = match &tx.inputs[1].type_script {
        Some(s) => &s.code_hash,
        None => {
            return Err(SilentBerryError::TxStructure);
        },
    };
    if !crate::hash::hash_eq(lock_code_hash, &data.buy_intent_code_hash) {
        return Err(SilentBerryError::BuyIntentCodeHash);
    }
    Ok(())
}

/// The full accept condition of the listing script: an authenticated record
/// whose collectible either reappears in the outputs (a sale, with the
/// ledger cell present on both sides) or does not (a revocation back to the
/// owner).
pub open spec fn spec_dob_selling_accepts(tx: Transaction, script_hash: Seq<u8>, args: Seq<u8>) -> bool {
    &&& args.len() == 32
    &&& spec_dob_witness(tx, script_hash) matches Some(w) && {
        &&& w.len() == 128
        &&& ckb_hash_of(w) == args
        &&& {
            let spore_data_hash = w.subrange(0, 32);
            let account_book = w.subrange(32, 64);
            if exists|i: int|
                0 <= i < tx.outputs@.len() && ckb_hash_of(tx.outputs@[i].data@)
                    == spore_data_hash {
                &&& exists|i: int|
                    0 <= i < tx.inputs@.len() && type_hash_matches(tx.inputs@[i], account_book)
                &&& exists|i: int|
                    0 <= i < tx.outputs@.len() && type_hash_matches(tx.outputs@[i], account_book)
            } else {
                &&& tx.outputs@.len() >= 1
                &&& tx.outputs@[0].lock_hash@ == w.subrange(96, 128)
                &&& tx.inputs@.len() >= 2
                &&& tx.inputs@[0].data@.len() == 16
                &&& tx.outputs@[0].data@.len() == 16
                &&& spec_u128_from_le_bytes(tx.inputs@[0].data@) == spec_u128_from_le_bytes(
                    tx.outputs@[0].data@,
                )
                &&& tx.inputs@[1].type_script matches Some(s) && s.code_hash@ == w.subrange(
                    64,
                    96,
                )
            }
        }
    }
}

/// The exact decision of the listing script: for every transaction, whether
/// it is accepted and, when it is not, which error kind surfaces.
pub open spec fn spec_dob_selling_outcome(tx: Transaction, script_hash: Seq<u8>, args: Seq<u8>) -> Result<
    (),
    SilentBerryError,
> {
    match spec_load_outcome(tx, script_hash, args) {
        Err(e) => Err(e),
        Ok(()) => {
            match spec_dob_witness(tx, script_hash) {
                None => Err(SilentBerryError::SysError),
                Some(w) => {
                    let spore_data_hash = w.subrange(0, 32);
                    let account_book = w.subrange(32, 64);
                    if exists|i: int|
                        0 <= i < tx.outputs@.len() && ckb_hash_of(tx.outputs@[i].data@)
                            == spore_data_hash {
                        if !(exists|i: int|
                            0 <= i < tx.inputs@.len() && type_hash_matches(
                                tx.inputs@[i],
                                account_book,
                            )) {
                            Err(SilentBerryError::AccountBookScriptHash)
                        } else if !(exists|i: int|
                            0 <= i < tx.outputs@.len() && type_hash_matches(
                                tx.outputs@[i],
                                account_book,
                            )) {
                            Err(SilentBerryError::AccountBookScriptHash)
                        } else {
                            Ok(())
                        }
                    } else {
                        spec_revocation_outcome(tx, w.subrange(96, 128), w.subrange(64, 96))
                    }
                },
            }
        },
    }
}

/// The listing script's whole decision: acceptance exactly on the
/// transactions that `spec_dob_selling_accepts` admits, and on rejection
/// exactly the error kind that `spec_dob_selling_outcome` fixes.
pub fn program_entry2(tx: &Transaction, script_hash: &Hash32, args: &Vec<u8>) -> (r: Result<
    (),
    SilentBerryError,
>)
    ensures
        r == spec_dob_selling_outcome(*tx, script_hash@, args@),
        r is Ok <==> spec_dob_selling_accepts(*tx, script_hash@, args@),
{
    let data = load_verified_data(tx, script_hash, args)?;
    let ret = check_spore_data(tx, &data.spore_data_hash);
    match ret {
        Err(SilentBerryError::SporeDataHash) => {
            revocation(tx, &data)?;
        },
        Err(e) => {
            return Err(e);
        },
        Ok(()) => {
            check_account_book(tx, &data.account_book_script_hash)?;
        },
    }
    Ok(())
}

} // verus!
