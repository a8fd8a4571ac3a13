use silent_berry::account_book_proof::{AccountBookProof, SmtKey, SmtValue, TotalAmounts};
use silent_berry::hash::Hash32;
use silent_berry::smt::Smt;

struct AccountBook {
    tree: Smt,
    totals: TotalAmounts,
}

impl AccountBook {
    fn update(&mut self, key: SmtKey, value: SmtValue) {
        match key {
            SmtKey::TotalA => self.totals.a = value.amount,
            SmtKey::TotalB => self.totals.b = value.amount,
            SmtKey::TotalC => self.totals.c = value.amount,
            SmtKey::TotalD => self.totals.d = value.amount,
            _ => {},
        }
        self.tree.update(key, value);
    }

    fn root_hash(&self) -> Hash32 {
        self.tree.root_hash()
    }

    /// A compiled proof over the four tier totals and one member key.
    fn make_proof(&self, k: SmtKey) -> Vec<u8> {
        let keys = vec![SmtKey::TotalA, SmtKey::TotalB, SmtKey::TotalC, SmtKey::TotalD, k];
        self.tree.make_proof(&keys).unwrap()
    }

    fn get_total(&self) -> TotalAmounts {
        self.totals
    }

    fn new_test() -> Self {
        let mut smt = AccountBook {
            tree: Smt::new(),
            totals: TotalAmounts { a: 0, b: 0, c: 0, d: 0 },
        };

        smt.update(SmtKey::TotalA, SmtValue::new(10000));
        smt.update(SmtKey::TotalB, SmtValue::new(20000));
        smt.update(SmtKey::TotalC, SmtValue::new(5000));
        smt.update(SmtKey::TotalD, SmtValue::new(0));

        let mut c: u8 = 0;
        fn new_hash(count: &mut u8) -> Hash32 {
            *count += 1;
            [*count; 32]
        }

        smt.update(SmtKey::Auther, SmtValue::new(122));
        smt.update(SmtKey::Platform, SmtValue::new(0));

        for _ in 0..100 {
            smt.update(SmtKey::Member(new_hash(&mut c)), SmtValue::new(0));
        }

        smt.update(SmtKey::Member(new_hash(&mut 2)), SmtValue::new(21313));
        smt.update(SmtKey::Member(new_hash(&mut 3)), SmtValue::new(4324));
        smt.update(SmtKey::Member(new_hash(&mut 4)), SmtValue::new(4444));
        smt.update(SmtKey::Member(new_hash(&mut 5)), SmtValue::new(555));

        smt
    }
}

#[test]
fn test_smt() {
    let mut smt = AccountBook::new_test();

    let mut c: u8 = 200;
    fn new_hash(count: &mut u8) -> Hash32 {
        *count += 1;
        [*count; 32]
    }

    smt.update(SmtKey::TotalA, SmtValue::new(80000));
    smt.update(SmtKey::Auther, SmtValue::new(2001));
    smt.update(SmtKey::Platform, SmtValue::new(0));
    smt.update(SmtKey::Member(new_hash(&mut c)), SmtValue::new(123));
    smt.update(SmtKey::Member(new_hash(&mut c)), SmtValue::new(4324));
    smt.update(SmtKey::Member(new_hash(&mut c)), SmtValue::new(4444));
    smt.update(SmtKey::Member(new_hash(&mut c)), SmtValue::new(555));
    smt.update(SmtKey::Member(new_hash(&mut c)), SmtValue::new(0));

    println!("c it: {}", c);
    let k = SmtKey::Member(new_hash(&mut c));

    let proof_bytes = smt.make_proof(k);
    let root_hash_1 = smt.root_hash();
    let total_1 = smt.get_total();

    smt.update(k, SmtValue::new(200));
    let root_hash_2 = smt.root_hash();

    smt.update(SmtKey::TotalA, SmtValue::new(79800));
    let root_hash_3 = smt.root_hash();
    let total_3 = smt.get_total();

    let cproof = AccountBookProof::new(proof_bytes);

    assert!(cproof.verify(root_hash_1, total_1, (k, None)).unwrap());
    assert!(cproof.verify(root_hash_2, total_1, (k, Some(200))).unwrap());
    assert!(cproof.verify(root_hash_3, total_3, (k, Some(200))).unwrap());
}

#[test]
fn flipping_any_value_or_root_fails_verification() {
    let mut smt = AccountBook::new_test();
    let member = SmtKey::Member([200; 32]);

    let proof_bytes = smt.make_proof(member);
    let old_root = smt.root_hash();
    let old_totals = smt.get_total();

    smt.update(member, SmtValue::new(200));
    smt.update(SmtKey::TotalB, SmtValue::new(20200));
    let new_root = smt.root_hash();
    let new_totals = smt.get_total();

    let cproof = AccountBookProof::new(proof_bytes);

    // the claimed transition verifies on both sides
    assert!(cproof.verify(old_root, old_totals, (member, None)).unwrap());
    assert!(cproof.verify(new_root, new_totals, (member, Some(200))).unwrap());

    // flipping the member value makes a side fail
    assert!(!cproof.verify(old_root, old_totals, (member, Some(200))).unwrap());
    assert!(!cproof.verify(new_root, new_totals, (member, Some(201))).unwrap());
    assert!(!cproof.verify(new_root, new_totals, (member, None)).unwrap());

    // flipping one tier total makes it fail
    let mut wrong = new_totals;
    wrong.c += 1;
    assert!(!cproof.verify(new_root, wrong, (member, Some(200))).unwrap());

    // swapping the roots makes both fail
    assert!(!cproof.verify(new_root, old_totals, (member, None)).unwrap());
    assert!(!cproof.verify(old_root, new_totals, (member, Some(200))).unwrap());
}

#[test]
fn malformed_proof_bytes_are_an_error() {
    let smt = AccountBook::new_test();
    let member = SmtKey::Member([200; 32]);
    let cproof = AccountBookProof::new(vec![0x4c, 0x00, 0x13]);
    let r = cproof.verify(smt.root_hash(), smt.get_total(), (member, None));
    assert_eq!(r.unwrap_err(), silent_berry::error::SilentBerryError::Smt);
}

#[test]
fn duplicated_proof_keys_are_an_error() {
    let smt = AccountBook::new_test();
    let k = SmtKey::TotalA;
    let r = smt.tree.make_proof(&vec![k, k, k]);
    assert_eq!(r.unwrap_err(), silent_berry::error::SilentBerryError::Smt);
}
