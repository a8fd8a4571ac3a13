use silent_berry::account_book_proof::{SmtKey, SmtValue};
use silent_berry::data::{AccountBookCellData, AccountBookData, BuyIntentData, DobSellingData};
use silent_berry::error::SilentBerryError;
use silent_berry::hash::{ckb_hash, Hash32};
use silent_berry::tx::{CellInfo, Script, Transaction, Witness};
use silent_berry::smt::Smt;

const DATA_ASSET_AMOUNT: u128 = 200;
const DATA_MIN_CAPACITY: u64 = 1000;

fn h(x: u8) -> Hash32 {
    [x; 32]
}

fn empty_witness() -> Witness {
    Witness { lock: None, input_type: None, output_type: None }
}

fn script(code_hash: Hash32, args: Vec<u8>) -> Script {
    Script { code_hash, hash_type: 0, args }
}

fn cell(lock: Script, lock_hash: Hash32, type_script: Option<Script>, type_hash: Option<Hash32>, data: Vec<u8>) -> CellInfo {
    CellInfo { lock, lock_hash, type_script, type_hash, data, capacity: 1000, since: 0 }
}

// Script hashes and code hashes used across the scenarios.
const XUDT: u8 = 10;
const PROXY_CODE: u8 = 11;
const DOB_CODE: u8 = 12;
const BI_CODE: u8 = 13;
const WI_CODE: u8 = 14;
const AB_HASH: u8 = 9;
const CLUSTER: u8 = 3;
const SPORE_ID: u8 = 7;
const OWNER: u8 = 21;
const USER: u8 = 22;

fn def_account_book_data(proof_bytes: Vec<u8>) -> AccountBookData {
    AccountBookData {
        dob_selling_code_hash: h(DOB_CODE),
        buy_intent_code_hash: h(BI_CODE),
        withdrawal_intent_code_hash: h(WI_CODE),
        xudt_script_hash: h(XUDT),
        input_type_proxy_lock_code_hash: h(PROXY_CODE),
        cluster_id: h(CLUSTER),
        total_a: 10000,
        total_b: 20000,
        total_c: 5000,
        total_d: 0,
        proof: proof_bytes,
    }
}

fn def_cell_data(root: Hash32, member_count: u32) -> AccountBookCellData {
    AccountBookCellData {
        smt_root_hash: root,
        member_count,
        asset_amount: DATA_ASSET_AMOUNT,
        platform_id: h(2),
        auther_id: h(1),
        a_num: 3,
        b_num: 17,
        c_num: 25,
        a_profit: [20, 80],
        b_profit: [20, 20, 60],
        c_profit: [20, 20, 36, 24],
        d_profit: [20, 20, 20, 20, 20],
    }
}

fn udt_cell(amount: u128, lock: Script, lock_hash: Hash32) -> CellInfo {
    cell(
        lock,
        lock_hash,
        Some(script(h(0x30), Vec::new())),
        Some(h(XUDT)),
        amount.to_le_bytes().to_vec(),
    )
}

/// Builds the ledger map holding the configured totals and some members,
/// the compiled proof for a new member, and the roots of the transition
/// where that member joins with the sale price in tier B.
fn selling_smt() -> (Vec<u8>, Hash32, Hash32) {
    let mut tree = Smt::new();
    tree.update(SmtKey::TotalA, SmtValue::new(10000));
    tree.update(SmtKey::TotalB, SmtValue::new(20000));
    tree.update(SmtKey::TotalC, SmtValue::new(5000));
    tree.update(SmtKey::TotalD, SmtValue::new(0));
    tree.update(SmtKey::Platform, SmtValue::new(0));
    tree.update(SmtKey::Auther, SmtValue::new(122));

    let member = SmtKey::Member(h(SPORE_ID));
    let keys = vec![SmtKey::TotalA, SmtKey::TotalB, SmtKey::TotalC, SmtKey::TotalD, member];
    let proof_bytes = tree.make_proof(&keys).unwrap();
    let old_root = tree.root_hash();

    tree.update(member, SmtValue::new(DATA_ASSET_AMOUNT));
    tree.update(SmtKey::TotalB, SmtValue::new(20200));
    let new_root = tree.root_hash();

    (proof_bytes, old_root, new_root)
}

/// The whole sale transaction: ledger cell on both sides, listing escrow
/// consumed, proxy balance growing by the price, collectible re-minted.
fn selling_tx(member_count_new: u32) -> (Transaction, Vec<u8>) {
    let (proof_bytes, old_root, new_root) = selling_smt();
    let data = def_account_book_data(proof_bytes);
    let args = data.commitment().to_vec();

    let spore = silent_berry::spore::SporeData {
        content_type: b"dob/1".to_vec(),
        content: b"{\"dna\":\"4000000000002\"}".to_vec(),
        cluster_id: Some(h(CLUSTER).to_vec()),
    };

    let inputs = vec![
        // the ledger cell being consumed
        cell(
            script(h(0x40), Vec::new()),
            h(0x41),
            Some(script(h(0x42), args.clone())),
            Some(h(AB_HASH)),
            def_cell_data(old_root, 35).serialize(),
        ),
        // the listing escrow, recognized by its lock code hash
        udt_cell(DATA_ASSET_AMOUNT, script(h(DOB_CODE), Vec::new()), h(0x43)),
        // the payment proxy holding the recorded totals
        udt_cell(35000, script(h(PROXY_CODE), h(AB_HASH).to_vec()), h(0x44)),
        // the consumed purchase intent, the sale's counterparty
        cell(
            script(h(0x49), Vec::new()),
            h(0x4a),
            Some(script(h(BI_CODE), Vec::new())),
            Some(h(0x4b)),
            Vec::new(),
        ),
    ];
    let outputs = vec![
        // the ledger cell being re-created
        cell(
            script(h(0x40), Vec::new()),
            h(0x41),
            Some(script(h(0x42), args.clone())),
            Some(h(AB_HASH)),
            def_cell_data(new_root, member_count_new).serialize(),
        ),
        // the proxy with the price added
        udt_cell(35200, script(h(PROXY_CODE), h(AB_HASH).to_vec()), h(0x44)),
        // the re-minted collectible, carrying the member identity
        cell(
            script(h(0x45), Vec::new()),
            h(0x46),
            Some(script(h(0x47), h(SPORE_ID).to_vec())),
            Some(h(0x48)),
            spore.serialize(),
        ),
    ];
    let witnesses = vec![
        Witness { lock: None, input_type: None, output_type: Some(data.serialize()) },
        empty_witness(),
        empty_witness(),
    ];
    (Transaction { inputs, outputs, witnesses }, args)
}

#[test]
fn test_simple_selling() {
    let (tx, args) = selling_tx(36);
    silent_berry::account_book::program_entry2(&tx, &h(AB_HASH), &args).unwrap();
}

#[test]
fn selling_without_purchase_intent_is_rejected() {
    let (mut tx, args) = selling_tx(36);
    // drop the consumed purchase intent: the counterparty is now missing
    tx.inputs.remove(3);
    assert_eq!(
        silent_berry::account_book::program_entry2(&tx, &h(AB_HASH), &args).unwrap_err(),
        SilentBerryError::CheckScript
    );
}

#[test]
fn selling_with_wrong_member_count_fails() {
    // +2 must fail
    let (tx, args) = selling_tx(37);
    assert_eq!(
        silent_berry::account_book::program_entry2(&tx, &h(AB_HASH), &args).unwrap_err(),
        SilentBerryError::AccountBookModified
    );
    // +0 on a sale must fail
    let (tx, args) = selling_tx(35);
    assert_eq!(
        silent_berry::account_book::program_entry2(&tx, &h(AB_HASH), &args).unwrap_err(),
        SilentBerryError::AccountBookModified
    );
}

#[test]
fn selling_with_flipped_proof_byte_fails() {
    let (mut tx, args) = selling_tx(36);
    let w = tx.witnesses[0].output_type.as_mut().unwrap();
    let last = w.len() - 1;
    w[last] ^= 1;
    assert!(silent_berry::account_book::program_entry2(&tx, &h(AB_HASH), &args).is_err());
}

#[test]
fn selling_with_conservation_violated_fails() {
    let (mut tx, args) = selling_tx(36);
    // one extra unit appears out of nowhere
    tx.outputs[1].data = 35201u128.to_le_bytes().to_vec();
    assert_eq!(
        silent_berry::account_book::program_entry2(&tx, &h(AB_HASH), &args).unwrap_err(),
        SilentBerryError::CheckXUDT
    );
}

fn def_dob_selling_data(spore_data_hash: Hash32, owner: Hash32) -> DobSellingData {
    DobSellingData {
        spore_data_hash,
        account_book_script_hash: h(AB_HASH),
        buy_intent_code_hash: h(BI_CODE),
        owner_script_hash: owner,
    }
}

fn def_buy_intent_data(owner: Hash32) -> BuyIntentData {
    BuyIntentData {
        xudt_script_hash: h(XUDT),
        dob_selling_script_hash: h(0x50),
        owner_script_hash: owner,
        change_script_hash: h(0),
        asset_amount: DATA_ASSET_AMOUNT,
        min_capacity: DATA_MIN_CAPACITY,
        expire_since: 1000,
    }
}

#[test]
fn test_simple_buy_intent() {
    let bid = def_buy_intent_data(h(0));
    let bid_bytes = bid.serialize();
    let mut args = [0u8; 32].to_vec();
    args.extend_from_slice(&ckb_hash(&bid_bytes));

    let user_lock = script(h(USER), Vec::new());
    let inputs = vec![
        udt_cell(1000, user_lock.clone(), h(USER)),
        cell(user_lock.clone(), h(USER), None, None, Vec::new()),
    ];
    let outputs = vec![
        // change back to the user
        udt_cell(800, user_lock.clone(), h(USER)),
        // the escrow under the listing script
        udt_cell(DATA_ASSET_AMOUNT, script(h(DOB_CODE), Vec::new()), h(0x50)),
        // the created intent cell
        cell(
            user_lock.clone(),
            h(USER),
            Some(script(h(BI_CODE), args.clone())),
            Some(h(0x51)),
            Vec::new(),
        ),
    ];
    let witnesses = vec![
        empty_witness(),
        empty_witness(),
        Witness { lock: None, input_type: None, output_type: Some(bid_bytes) },
    ];
    let tx = Transaction { inputs, outputs, witnesses };
    silent_berry::buy_intent::program_entry2(&tx, &h(0x51), &args).unwrap();
}

#[test]
fn test_revocation_buy_intent() {
    let owner = h(OWNER);

    let spore = silent_berry::spore::SporeData {
        content_type: b"dob/1".to_vec(),
        content: b"{\"dna\":\"4000000000002\"}".to_vec(),
        cluster_id: Some(h(CLUSTER).to_vec()),
    };
    let dob_data = def_dob_selling_data(ckb_hash(&spore.serialize()), owner);
    let dob_bytes = dob_data.serialize();
    let dob_args = ckb_hash(&dob_bytes).to_vec();
    let dob_script_hash = h(0x52);

    let bid = def_buy_intent_data(owner);
    let bid_bytes = bid.serialize();
    let mut bi_args = [0u8; 32].to_vec();
    bi_args.extend_from_slice(&ckb_hash(&bid_bytes));
    let bi_script_hash = h(0x53);

    let owner_lock = script(h(OWNER), Vec::new());
    let inputs = vec![
        // the escrowed tokens under the listing lock
        udt_cell(DATA_ASSET_AMOUNT, script(h(DOB_CODE), dob_args.clone()), dob_script_hash),
        // the expired intent cell
        CellInfo {
            lock: owner_lock.clone(),
            lock_hash: h(OWNER),
            type_script: Some(script(h(BI_CODE), bi_args.clone())),
            type_hash: Some(bi_script_hash),
            data: Vec::new(),
            capacity: 1000,
            since: 10000,
        },
    ];
    let outputs = vec![
        // tokens returned to the owner, unchanged
        udt_cell(DATA_ASSET_AMOUNT, owner_lock.clone(), h(OWNER)),
        // the second output carries the owner's lock for the intent check
        cell(owner_lock.clone(), h(OWNER), None, None, Vec::new()),
    ];
    let witnesses = vec![
        Witness { lock: Some(dob_bytes), input_type: None, output_type: None },
        Witness { lock: None, input_type: Some(bid_bytes), output_type: None },
    ];
    let tx = Transaction { inputs, outputs, witnesses };

    // the intent accepts the revocation: past expiry, owner at output 1
    silent_berry::buy_intent::program_entry2(&tx, &bi_script_hash, &bi_args).unwrap();
    // the listing accepts it too: collectible absent, funds back to owner
    silent_berry::dob_selling::program_entry2(&tx, &dob_script_hash, &dob_args).unwrap();
}

#[test]
fn listing_revocation_to_wrong_owner_is_rejected() {
    let owner = h(OWNER);
    let spore = silent_berry::spore::SporeData {
        content_type: b"dob/1".to_vec(),
        content: b"{\"dna\":\"4000000000002\"}".to_vec(),
        cluster_id: Some(h(CLUSTER).to_vec()),
    };
    let dob_data = def_dob_selling_data(ckb_hash(&spore.serialize()), owner);
    let dob_bytes = dob_data.serialize();
    let dob_args = ckb_hash(&dob_bytes).to_vec();
    let dob_script_hash = h(0x52);

    let stranger_lock = script(h(USER), Vec::new());
    let inputs = vec![
        udt_cell(DATA_ASSET_AMOUNT, script(h(DOB_CODE), dob_args.clone()), dob_script_hash),
        cell(
            stranger_lock.clone(),
            h(USER),
            Some(script(h(BI_CODE), Vec::new())),
            Some(h(0x53)),
            Vec::new(),
        ),
    ];
    // the collectible's content hash is absent from every output, and the
    // first output lock is not the configured owner
    let outputs = vec![udt_cell(DATA_ASSET_AMOUNT, stranger_lock.clone(), h(USER))];
    let witnesses = vec![Witness { lock: Some(dob_bytes), input_type: None, output_type: None }];
    let tx = Transaction { inputs, outputs, witnesses };

    assert_eq!(
        silent_berry::dob_selling::program_entry2(&tx, &dob_script_hash, &dob_args).unwrap_err(),
        SilentBerryError::OnwerScriptHash
    );
}

#[test]
fn test_simple_withdrawal_intent() {}

#[test]
fn testsimple_withdrawal() {}

/// A withdrawal transition: no listing escrow consumed, a withdrawal-intent
/// input present, member count unchanged.
fn withdrawal_tx() -> (Transaction, Vec<u8>) {
    let data = def_account_book_data(vec![1, 2, 3]);
    let args = data.commitment().to_vec();
    let root = h(0x60);
    let inputs = vec![
        cell(
            script(h(0x40), Vec::new()),
            h(0x41),
            Some(script(h(0x42), args.clone())),
            Some(h(AB_HASH)),
            def_cell_data(root, 35).serialize(),
        ),
        // the withdrawal intent, recognized by its type code hash
        cell(
            script(h(0x61), Vec::new()),
            h(0x62),
            Some(script(h(WI_CODE), Vec::new())),
            Some(h(0x63)),
            Vec::new(),
        ),
    ];
    let outputs = vec![
        cell(
            script(h(0x40), Vec::new()),
            h(0x41),
            Some(script(h(0x42), args.clone())),
            Some(h(AB_HASH)),
            def_cell_data(root, 35).serialize(),
        ),
    ];
    let witnesses = vec![
        Witness { lock: None, input_type: None, output_type: Some(data.serialize()) },
        Witness { lock: None, input_type: Some(vec![2]), output_type: None },
    ];
    (Transaction { inputs, outputs, witnesses }, args)
}

#[test]
fn withdrawal_keeps_member_count() {
    let (tx, args) = withdrawal_tx();
    silent_berry::account_book::program_entry2(&tx, &h(AB_HASH), &args).unwrap();
}

#[test]
fn withdrawal_changing_member_count_fails() {
    let (mut tx, args) = withdrawal_tx();
    tx.outputs[0].data = def_cell_data(h(0x60), 36).serialize();
    assert_eq!(
        silent_berry::account_book::program_entry2(&tx, &h(AB_HASH), &args).unwrap_err(),
        SilentBerryError::AccountBookModified
    );
}

#[test]
fn selling_rejects_foreign_cluster() {
    let (mut tx, args) = selling_tx(36);
    let foreign = silent_berry::spore::SporeData {
        content_type: b"dob/1".to_vec(),
        content: b"{\"dna\":\"4000000000002\"}".to_vec(),
        cluster_id: Some(h(0x70).to_vec()),
    };
    tx.outputs[2].data = foreign.serialize();
    assert_eq!(
        silent_berry::account_book::program_entry2(&tx, &h(AB_HASH), &args).unwrap_err(),
        SilentBerryError::VerifiedData
    );
}

#[test]
fn selling_rejects_unknown_tier_code() {
    let (mut tx, args) = selling_tx(36);
    let wrong_tier = silent_berry::spore::SporeData {
        content_type: b"dob/1".to_vec(),
        content: b"level-5".to_vec(),
        cluster_id: Some(h(CLUSTER).to_vec()),
    };
    tx.outputs[2].data = wrong_tier.serialize();
    assert_eq!(
        silent_berry::account_book::program_entry2(&tx, &h(AB_HASH), &args).unwrap_err(),
        SilentBerryError::Spore
    );
}

#[test]
fn selling_rejects_malformed_collectible_identity() {
    let (mut tx, args) = selling_tx(36);
    tx.outputs[2].type_script = Some(script(h(0x47), vec![7u8; 31]));
    assert_eq!(
        silent_berry::account_book::program_entry2(&tx, &h(AB_HASH), &args).unwrap_err(),
        SilentBerryError::TypeConversion
    );
}

#[test]
fn selling_rejects_changed_immutable_field() {
    let (mut tx, args) = selling_tx(36);
    let (_, _, new_root) = selling_smt();
    let mut cd = def_cell_data(new_root, 36);
    cd.a_num = 4;
    tx.outputs[0].data = cd.serialize();
    assert_eq!(
        silent_berry::account_book::program_entry2(&tx, &h(AB_HASH), &args).unwrap_err(),
        SilentBerryError::VerifiedData
    );
}

#[test]
fn ledger_args_must_match_the_commitment() {
    let (tx, mut args) = selling_tx(36);
    args[0] ^= 1;
    assert_eq!(
        silent_berry::account_book::program_entry2(&tx, &h(AB_HASH), &args).unwrap_err(),
        SilentBerryError::VerifiedData
    );
}

#[test]
fn intent_on_both_sides_is_rejected() {
    let bid = def_buy_intent_data(h(0));
    let bid_bytes = bid.serialize();
    let mut args = [0u8; 32].to_vec();
    args.extend_from_slice(&ckb_hash(&bid_bytes));
    let bi_script_hash = h(0x51);

    let user_lock = script(h(USER), Vec::new());
    let intent_cell = cell(
        user_lock.clone(),
        h(USER),
        Some(script(h(BI_CODE), args.clone())),
        Some(bi_script_hash),
        Vec::new(),
    );
    let tx = Transaction {
        inputs: vec![intent_cell.clone()],
        outputs: vec![intent_cell],
        witnesses: vec![empty_witness()],
    };
    assert_eq!(
        silent_berry::buy_intent::program_entry2(&tx, &bi_script_hash, &args).unwrap_err(),
        SilentBerryError::TxStructure
    );
}

#[test]
fn underfunded_intent_cell_is_rejected() {
    let bid = def_buy_intent_data(h(0));
    let bid_bytes = bid.serialize();
    let mut args = [0u8; 32].to_vec();
    args.extend_from_slice(&ckb_hash(&bid_bytes));

    let user_lock = script(h(USER), Vec::new());
    let inputs = vec![udt_cell(1000, user_lock.clone(), h(USER))];
    let mut intent_cell = cell(
        user_lock.clone(),
        h(USER),
        Some(script(h(BI_CODE), args.clone())),
        Some(h(0x51)),
        Vec::new(),
    );
    intent_cell.capacity = DATA_MIN_CAPACITY - 1;
    let outputs = vec![
        udt_cell(800, user_lock.clone(), h(USER)),
        udt_cell(DATA_ASSET_AMOUNT, script(h(DOB_CODE), Vec::new()), h(0x50)),
        intent_cell,
    ];
    let witnesses = vec![
        empty_witness(),
        empty_witness(),
        Witness { lock: None, input_type: None, output_type: Some(bid_bytes) },
    ];
    let tx = Transaction { inputs, outputs, witnesses };
    assert_eq!(
        silent_berry::buy_intent::program_entry2(&tx, &h(0x51), &args).unwrap_err(),
        SilentBerryError::CapacityError
    );
}

#[test]
fn sale_without_ledger_cells_is_rejected_by_the_listing() {
    let owner = h(OWNER);
    let spore = silent_berry::spore::SporeData {
        content_type: b"dob/1".to_vec(),
        content: b"{\"dna\":\"4000000000002\"}".to_vec(),
        cluster_id: Some(h(CLUSTER).to_vec()),
    };
    let spore_bytes = spore.serialize();
    let dob_data = def_dob_selling_data(ckb_hash(&spore_bytes), owner);
    let dob_bytes = dob_data.serialize();
    let dob_args = ckb_hash(&dob_bytes).to_vec();
    let dob_script_hash = h(0x52);

    let inputs = vec![
        udt_cell(DATA_ASSET_AMOUNT, script(h(DOB_CODE), dob_args.clone()), dob_script_hash),
    ];
    // the collectible is re-minted, so this is a sale, but no ledger cell
    // is present anywhere
    let outputs = vec![
        cell(
            script(h(0x45), Vec::new()),
            h(0x46),
            Some(script(h(0x47), h(SPORE_ID).to_vec())),
            Some(h(0x48)),
            spore_bytes,
        ),
    ];
    let witnesses = vec![Witness { lock: Some(dob_bytes), input_type: None, output_type: None }];
    let tx = Transaction { inputs, outputs, witnesses };
    assert_eq!(
        silent_berry::dob_selling::program_entry2(&tx, &dob_script_hash, &dob_args).unwrap_err(),
        SilentBerryError::AccountBookScriptHash
    );
}

#[test]
fn listing_revocation_with_amount_change_is_rejected() {
    let owner = h(OWNER);
    let spore = silent_berry::spore::SporeData {
        content_type: b"dob/1".to_vec(),
        content: b"{\"dna\":\"4000000000002\"}".to_vec(),
        cluster_id: Some(h(CLUSTER).to_vec()),
    };
    let dob_data = def_dob_selling_data(ckb_hash(&spore.serialize()), owner);
    let dob_bytes = dob_data.serialize();
    let dob_args = ckb_hash(&dob_bytes).to_vec();
    let dob_script_hash = h(0x52);
    let owner_lock = script(h(OWNER), Vec::new());

    let inputs = vec![
        udt_cell(DATA_ASSET_AMOUNT, script(h(DOB_CODE), dob_args.clone()), dob_script_hash),
        cell(
            owner_lock.clone(),
            h(OWNER),
            Some(script(h(BI_CODE), Vec::new())),
            Some(h(0x53)),
            Vec::new(),
        ),
    ];
    let outputs = vec![udt_cell(DATA_ASSET_AMOUNT - 1, owner_lock.clone(), h(OWNER))];
    let witnesses = vec![Witness { lock: Some(dob_bytes), input_type: None, output_type: None }];
    let tx = Transaction { inputs, outputs, witnesses };
    assert_eq!(
        silent_berry::dob_selling::program_entry2(&tx, &dob_script_hash, &dob_args).unwrap_err(),
        SilentBerryError::XudtIncorrect
    );
}

#[test]
fn listing_revocation_without_intent_is_rejected() {
    let owner = h(OWNER);
    let spore = silent_berry::spore::SporeData {
        content_type: b"dob/1".to_vec(),
        content: b"{\"dna\":\"4000000000002\"}".to_vec(),
        cluster_id: Some(h(CLUSTER).to_vec()),
    };
    let dob_data = def_dob_selling_data(ckb_hash(&spore.serialize()), owner);
    let dob_bytes = dob_data.serialize();
    let dob_args = ckb_hash(&dob_bytes).to_vec();
    let dob_script_hash = h(0x52);
    let owner_lock = script(h(OWNER), Vec::new());

    let inputs = vec![
        udt_cell(DATA_ASSET_AMOUNT, script(h(DOB_CODE), dob_args.clone()), dob_script_hash),
        // the second input's type is not the configured purchase intent
        cell(
            owner_lock.clone(),
            h(OWNER),
            Some(script(h(0x77), Vec::new())),
            Some(h(0x53)),
            Vec::new(),
        ),
    ];
    let outputs = vec![udt_cell(DATA_ASSET_AMOUNT, owner_lock.clone(), h(OWNER))];
    let witnesses = vec![Witness { lock: Some(dob_bytes), input_type: None, output_type: None }];
    let tx = Transaction { inputs, outputs, witnesses };
    assert_eq!(
        silent_berry::dob_selling::program_entry2(&tx, &dob_script_hash, &dob_args).unwrap_err(),
        SilentBerryError::BuyIntentCodeHash
    );
}

#[test]
fn listing_args_of_wrong_length_are_rejected() {
    let tx = Transaction { inputs: Vec::new(), outputs: Vec::new(), witnesses: Vec::new() };
    assert_eq!(
        silent_berry::dob_selling::program_entry2(&tx, &h(0x52), &vec![0u8; 31]).unwrap_err(),
        SilentBerryError::VerifiedDataLen
    );
}

#[test]
fn withdrawal_with_unknown_tier_is_rejected() {
    let (mut tx, args) = withdrawal_tx();
    tx.witnesses[1].input_type = Some(vec![5]);
    assert_eq!(
        silent_berry::account_book::program_entry2(&tx, &h(AB_HASH), &args).unwrap_err(),
        SilentBerryError::Spore
    );
}

#[test]
fn unexpired_intent_surfaces_the_ledger_check_error() {
    let owner = h(OWNER);
    let bid = def_buy_intent_data(owner);
    let bid_bytes = bid.serialize();
    let mut bi_args = [0u8; 32].to_vec();
    bi_args.extend_from_slice(&ckb_hash(&bid_bytes));
    let bi_script_hash = h(0x53);

    let owner_lock = script(h(OWNER), Vec::new());
    let inputs = vec![
        // the intent cell, consumed well before its expiry
        CellInfo {
            lock: owner_lock.clone(),
            lock_hash: h(OWNER),
            type_script: Some(script(h(BI_CODE), bi_args.clone())),
            type_hash: Some(bi_script_hash),
            data: Vec::new(),
            capacity: 1000,
            since: 500,
        },
    ];
    let outputs = vec![
        cell(owner_lock.clone(), h(OWNER), None, None, Vec::new()),
        cell(owner_lock.clone(), h(OWNER), None, None, Vec::new()),
    ];
    let witnesses = vec![Witness { lock: None, input_type: Some(bid_bytes), output_type: None }];
    let tx = Transaction { inputs, outputs, witnesses };

    // no ledger cell is present and the expiry has not passed: the
    // ledger-linkage error surfaces, not a revocation
    assert_eq!(
        silent_berry::buy_intent::program_entry2(&tx, &bi_script_hash, &bi_args).unwrap_err(),
        SilentBerryError::CheckScript
    );
}

#[test]
fn expired_intent_with_wrong_owner_is_rejected() {
    let owner = h(OWNER);
    let bid = def_buy_intent_data(owner);
    let bid_bytes = bid.serialize();
    let mut bi_args = [0u8; 32].to_vec();
    bi_args.extend_from_slice(&ckb_hash(&bid_bytes));
    let bi_script_hash = h(0x53);

    let stranger_lock = script(h(USER), Vec::new());
    let inputs = vec![
        CellInfo {
            lock: stranger_lock.clone(),
            lock_hash: h(USER),
            type_script: Some(script(h(BI_CODE), bi_args.clone())),
            type_hash: Some(bi_script_hash),
            data: Vec::new(),
            capacity: 1000,
            since: 10000,
        },
    ];
    // past expiry, but the second output does not carry the owner's lock
    let outputs = vec![
        cell(stranger_lock.clone(), h(USER), None, None, Vec::new()),
        cell(stranger_lock.clone(), h(USER), None, None, Vec::new()),
    ];
    let witnesses = vec![Witness { lock: None, input_type: Some(bid_bytes), output_type: None }];
    let tx = Transaction { inputs, outputs, witnesses };

    assert_eq!(
        silent_berry::buy_intent::program_entry2(&tx, &bi_script_hash, &bi_args).unwrap_err(),
        SilentBerryError::CheckScript
    );
}
