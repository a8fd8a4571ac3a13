use silent_berry::account_book_proof::TotalAmounts;
use silent_berry::data::{
    AccountBookCellData, AccountBookData, BuyIntentData, DobSellingData, WithdrawalIntentData,
};
use silent_berry::error::SilentBerryError;
use silent_berry::hash::{ckb_hash, Hash32};
use silent_berry::level::Level;
use silent_berry::spore::{get_spore_level, SporeData};
use silent_berry::member_info::{MemberInfo, MemberType};
use silent_berry::tx::{CellInfo, Script};
use silent_berry::udt_info::UDTInfo;

fn h(x: u8) -> Hash32 {
    [x; 32]
}

fn plain_lock() -> Script {
    Script { code_hash: h(0xaa), hash_type: 0, args: Vec::new() }
}

fn udt_cell(xudt: Hash32, amount: u128) -> CellInfo {
    CellInfo {
        lock: plain_lock(),
        lock_hash: h(0xbb),
        type_script: Some(Script { code_hash: h(0xcc), hash_type: 0, args: Vec::new() }),
        type_hash: Some(xudt),
        data: amount.to_le_bytes().to_vec(),
        capacity: 1000,
        since: 0,
    }
}

fn plain_cell() -> CellInfo {
    CellInfo {
        lock: plain_lock(),
        lock_hash: h(0xbb),
        type_script: None,
        type_hash: None,
        data: Vec::new(),
        capacity: 1000,
        since: 0,
    }
}

#[test]
fn exit_codes_are_the_committed_table() {
    let table: [(SilentBerryError, u8); 24] = [
        (SilentBerryError::Unknow, 1),
        (SilentBerryError::SysError, 2),
        (SilentBerryError::MolVerificationError, 3),
        (SilentBerryError::TypeConversion, 4),
        (SilentBerryError::TxStructure, 5),
        (SilentBerryError::VerifiedData, 6),
        (SilentBerryError::VerifiedDataLen, 7),
        (SilentBerryError::DobSellingScriptHash, 8),
        (SilentBerryError::AccountBookScriptHash, 9),
        (SilentBerryError::SporeDataHash, 10),
        (SilentBerryError::OnwerScriptHash, 11),
        (SilentBerryError::BuyIntentCodeHash, 12),
        (SilentBerryError::XudtNotFound, 13),
        (SilentBerryError::XudtIncorrect, 14),
        (SilentBerryError::PaymentAmount, 15),
        (SilentBerryError::CapacityError, 16),
        (SilentBerryError::ExpireSince, 17),
        (SilentBerryError::ParseWitness, 18),
        (SilentBerryError::AccountBookModified, 19),
        (SilentBerryError::CheckScript, 20),
        (SilentBerryError::CheckXUDT, 21),
        (SilentBerryError::Smt, 22),
        (SilentBerryError::Spore, 23),
        (SilentBerryError::AccountBookOverflow, 24),
    ];
    for (e, code) in table {
        assert_eq!(e.exit_code(), code);
    }
}

#[test]
fn level_codes_round_trip() {
    assert_eq!(Level::try_from_u8(1).unwrap(), Level::A);
    assert_eq!(Level::try_from_u8(2).unwrap(), Level::B);
    assert_eq!(Level::try_from_u8(3).unwrap(), Level::C);
    assert_eq!(Level::try_from_u8(4).unwrap(), Level::D);
    assert_eq!(Level::try_from_u8(0).unwrap_err(), SilentBerryError::Spore);
    assert_eq!(Level::try_from_u8(5).unwrap_err(), SilentBerryError::Spore);
    assert_eq!(Level::A.value(), 1);
    assert_eq!(Level::Platform.value(), 0x11);
    assert_eq!(Level::Auther.value(), 0x12);
}

#[test]
fn spore_level_reads_last_hex_digit() {
    let sd = SporeData {
        content_type: b"dob/1".to_vec(),
        content: b"{\"dna\":\"4000000000002\"}".to_vec(),
        cluster_id: None,
    };
    assert_eq!(get_spore_level(&sd).unwrap(), 2);

    // the scan runs from the end: the trailing digit wins
    let sd2 = SporeData { content_type: Vec::new(), content: b"level-a".to_vec(), cluster_id: None };
    assert_eq!(get_spore_level(&sd2).unwrap(), 10);

    // no hex digit at all
    let sd3 = SporeData { content_type: Vec::new(), content: b"----".to_vec(), cluster_id: None };
    assert_eq!(get_spore_level(&sd3).unwrap_err(), SilentBerryError::Spore);

    // not valid UTF-8: refused even though a digit byte is present
    let sd4 = SporeData { content_type: Vec::new(), content: vec![0x32, 0xff], cluster_id: None };
    assert_eq!(get_spore_level(&sd4).unwrap_err(), SilentBerryError::Spore);
}

#[test]
fn spore_data_codec_round_trips() {
    let sd = SporeData {
        content_type: b"plain/text".to_vec(),
        content: b"Hello-2".to_vec(),
        cluster_id: Some(h(3).to_vec()),
    };
    let bytes = sd.serialize();
    let back = SporeData::parse(&bytes).unwrap();
    assert_eq!(back.content_type, sd.content_type);
    assert_eq!(back.content, sd.content);
    assert_eq!(back.cluster_id, sd.cluster_id);

    let sd2 = SporeData { content_type: Vec::new(), content: Vec::new(), cluster_id: None };
    let bytes2 = sd2.serialize();
    let back2 = SporeData::parse(&bytes2).unwrap();
    assert_eq!(back2.cluster_id, None);

    // trailing garbage is refused
    let mut bad = sd.serialize();
    bad.push(0);
    assert!(SporeData::parse(&bad).is_err());
}

fn sample_account_book_data() -> AccountBookData {
    AccountBookData {
        dob_selling_code_hash: h(1),
        buy_intent_code_hash: h(2),
        withdrawal_intent_code_hash: h(3),
        xudt_script_hash: h(4),
        input_type_proxy_lock_code_hash: h(5),
        cluster_id: h(6),
        total_a: 10000,
        total_b: 20000,
        total_c: 5000,
        total_d: 0,
        proof: vec![1, 2, 3],
    }
}

#[test]
fn account_book_data_codec_round_trips() {
    let d = sample_account_book_data();
    let bytes = d.serialize();
    let back = AccountBookData::parse(&bytes).unwrap();
    assert_eq!(back.dob_selling_code_hash, d.dob_selling_code_hash);
    assert_eq!(back.cluster_id, d.cluster_id);
    assert_eq!(back.total_b, 20000);
    assert_eq!(back.proof, vec![1, 2, 3]);
    assert!(AccountBookData::parse(&vec![0u8; 255]).is_err());
}

#[test]
fn commitment_ignores_proof_and_totals_and_pins_the_rest() {
    let d = sample_account_book_data();
    let mut d2 = sample_account_book_data();
    d2.proof = vec![9, 9, 9, 9];
    d2.total_a = 1;
    d2.total_d = 77;
    // same identity fields: same commitment, twice over
    assert_eq!(d.commitment(), d.commitment());
    assert_eq!(d.commitment(), d2.commitment());
    // any identity field changes the commitment
    let mut d3 = sample_account_book_data();
    d3.cluster_id = h(7);
    assert_ne!(d.commitment(), d3.commitment());
    let mut d4 = sample_account_book_data();
    d4.xudt_script_hash = h(8);
    assert_ne!(d.commitment(), d4.commitment());
}

#[test]
fn cell_data_codec_round_trips() {
    let cd = AccountBookCellData {
        smt_root_hash: h(20),
        member_count: 35,
        asset_amount: 200,
        platform_id: h(2),
        auther_id: h(1),
        a_num: 3,
        b_num: 17,
        c_num: 25,
        a_profit: [20, 80],
        b_profit: [20, 20, 60],
        c_profit: [20, 20, 36, 24],
        d_profit: [20, 20, 20, 20, 20],
    };
    let bytes = cd.serialize();
    assert_eq!(bytes.len(), 142);
    let back = AccountBookCellData::parse(&bytes).unwrap();
    assert_eq!(back.member_count, 35);
    assert_eq!(back.asset_amount, 200);
    assert_eq!(back.c_profit, [20, 20, 36, 24]);
    assert!(AccountBookCellData::parse(&vec![0u8; 141]).is_err());
}

#[test]
fn intent_codecs_round_trip() {
    let bid = BuyIntentData {
        xudt_script_hash: h(4),
        dob_selling_script_hash: h(5),
        owner_script_hash: h(6),
        change_script_hash: h(0),
        asset_amount: 200,
        min_capacity: 1000,
        expire_since: 1000,
    };
    let bytes = bid.serialize();
    assert_eq!(bytes.len(), 160);
    let back = BuyIntentData::parse(&bytes).unwrap();
    assert_eq!(back.asset_amount, 200);
    assert_eq!(back.expire_since, 1000);

    let dsd = DobSellingData {
        spore_data_hash: h(7),
        account_book_script_hash: h(8),
        buy_intent_code_hash: h(9),
        owner_script_hash: h(10),
    };
    let bytes = dsd.serialize();
    assert_eq!(bytes.len(), 128);
    let back = DobSellingData::parse(&bytes).unwrap();
    assert_eq!(back.owner_script_hash, h(10));

    let wid = WithdrawalIntentData { spore_level: 2 };
    let back = WithdrawalIntentData::parse(&wid.serialize()).unwrap();
    assert_eq!(back.spore_level, 2);
}

#[test]
fn totals_add_selects_exactly_one_tier() {
    let mut t = TotalAmounts { a: 10000, b: 20000, c: 5000, d: 0 };
    // the scenario: price 200 into tier B
    t.add(200, 2).unwrap();
    assert_eq!(t.a, 10000);
    assert_eq!(t.b, 20200);
    assert_eq!(t.c, 5000);
    assert_eq!(t.d, 0);
    assert_eq!(t.total(), 35200);

    // an unrecognized level changes nothing
    let before = (t.a, t.b, t.c, t.d);
    assert_eq!(t.add(5, 5).unwrap_err(), SilentBerryError::Spore);
    assert_eq!((t.a, t.b, t.c, t.d), before);

    // overflow is reported and changes nothing
    let mut full = TotalAmounts { a: u128::MAX, b: 1, c: 0, d: 0 };
    assert_eq!(full.add(1, 1).unwrap_err(), SilentBerryError::AccountBookOverflow);
    assert_eq!(full.a, u128::MAX);
    assert_eq!(full.checked_total(), None);
}

#[test]
fn udt_conservation_holds_and_one_unit_violations_fail() {
    let xudt = h(4);
    let tx = silent_berry::tx::Transaction {
        inputs: vec![udt_cell(xudt, 60), udt_cell(xudt, 40), plain_cell()],
        outputs: vec![udt_cell(xudt, 100)],
        witnesses: Vec::new(),
    };
    let info = UDTInfo::new(&tx, &xudt).unwrap();
    assert_eq!(info.inputs, vec![(60, 0), (40, 1)]);
    assert_eq!(info.outputs, vec![(100, 0)]);
    info.check_udt().unwrap();
    assert_eq!(info.input_total(), 100);

    let tx_bad = silent_berry::tx::Transaction {
        inputs: vec![udt_cell(xudt, 60), udt_cell(xudt, 40)],
        outputs: vec![udt_cell(xudt, 99)],
        witnesses: Vec::new(),
    };
    let info = UDTInfo::new(&tx_bad, &xudt).unwrap();
    assert_eq!(info.check_udt().unwrap_err(), SilentBerryError::CheckXUDT);

    // a token cell with malformed data is refused outright
    let mut short = udt_cell(xudt, 1);
    short.data = vec![1, 2, 3];
    let tx_short = silent_berry::tx::Transaction {
        inputs: vec![short],
        outputs: Vec::new(),
        witnesses: Vec::new(),
    };
    assert_eq!(UDTInfo::new(&tx_short, &xudt).unwrap_err(), SilentBerryError::CheckXUDT);
}

#[test]
fn member_entries_hash_their_amount_and_role() {
    let m = MemberInfo { spore_id: h(7), withdrawn_amount: 555, member_type: MemberType::Golden };
    // the member key is the hash of the collectible identity alone
    assert_eq!(
        m.get_key(),
        silent_berry::account_book_proof::SmtKey::Member(h(7)).get_key()
    );
    // the leaf digest covers the amount bytes followed by the role code
    let mut bytes = 555u128.to_le_bytes().to_vec();
    bytes.push(3);
    assert_eq!(m.to_h256(), ckb_hash(&bytes));
    assert_eq!(m.member_type_value(), 3);

    let z = MemberInfo::default();
    assert_eq!(z.spore_id, [0u8; 32]);
    assert_eq!(z.withdrawn_amount, 0);
    assert_eq!(z.member_type, MemberType::Blue);

    // an absent slot's value is the zero amount
    assert_eq!(silent_berry::account_book_proof::SmtValue::zero().amount, 0);
}

#[test]
fn hash_utility_matches_the_reference_hasher() {
    let data = b"silent berry test vector".to_vec();
    let ours = ckb_hash(&data);
    let mut hasher = blake2b_ref::Blake2bBuilder::new(32).personal(b"ckb-default-hash").build();
    hasher.update(&data);
    let mut expected = [0u8; 32];
    hasher.finalize(&mut expected);
    assert_eq!(ours, expected);
    assert_ne!(ckb_hash(&data), ckb_hash(&b"silent berry".to_vec()));
}
