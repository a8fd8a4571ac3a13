use crate::hash::{ckb_hash, ckb_hash_of, Hash32};
use vstd::prelude::*;

verus! {

/// A script as the host presents it: the hash of its code, a hash-type
/// discriminant, and its arguments.
#[derive(Clone)]
pub struct Script {
    pub code_hash: Hash32,
    pub hash_type: u8,
    pub args: Vec<u8>,
}

/// The three typed payload slots of one witness.
#[derive(Clone)]
pub struct Witness {
    pub lock: Option<Vec<u8>>,
    pub input_type: Option<Vec<u8>>,
    pub output_type: Option<Vec<u8>>,
}

/// One cell of the transaction snapshot.  `lock_hash` and `type_hash` are the
/// script hashes the host computes for the lock and type scripts; `since` is
/// meaningful for input cells only.
#[derive(Clone)]
pub struct CellInfo {
    pub lock: Script,
    pub lock_hash: Hash32,
    pub type_script: Option<Script>,
    pub type_hash: Option<Hash32>,
    pub data: Vec<u8>,
    pub capacity: u64,
    pub since: u64,
}

/// The immutable snapshot of one transaction that a verification script
/// reads: its input cells, its output cells, and its witnesses, the latter
/// indexed like the cells.
#[derive(Clone)]
pub struct Transaction {
    pub inputs: Vec<CellInfo>,
    pub outputs: Vec<CellInfo>,
    pub witnesses: Vec<Witness>,
}

/// The cell's lock script has the given code hash.
pub open spec fn lock_code_matches(c: CellInfo, h: Seq<u8>) -> bool {
    c.lock.code_hash@ == h
}

/// The cell has a type script with the given code hash.
pub open spec fn type_code_matches(c: CellInfo, h: Seq<u8>) -> bool {
    match c.type_script {
        Some(s) => s.code_hash@ == h,
        None => false,
    }
}

/// The cell's lock (when `is_lock`) or type script has the given code hash.
pub open spec fn code_hash_matches(c: CellInfo, h: Seq<u8>, is_lock: bool) -> bool {
    if is_lock {
        lock_code_matches(c, h)
    } else {
        type_code_matches(c, h)
    }
}

/// The cell has a type script whose script hash is `h`.
pub open spec fn type_hash_matches(c: CellInfo, h: Seq<u8>) -> bool {
    match c.type_hash {
        Some(x) => x@ == h,
        None => false,
    }
}

/// The cell's lock script hash is `h`.
pub open spec fn lock_hash_matches(c: CellInfo, h: Seq<u8>) -> bool {
    c.lock_hash@ == h
}

/// The indices, in order, of the cells whose lock or type script carries the
/// given code hash.
pub open spec fn spec_code_hash_indices(cells: Seq<CellInfo>, h: Seq<u8>, is_lock: bool) -> Seq<
    usize,
>
    decreases cells.len(),
{
    if cells.len() == 0 {
        Seq::empty()
    } else {
        let prefix = spec_code_hash_indices(cells.drop_last(), h, is_lock);
        if code_hash_matches(cells.last(), h, is_lock) {
            prefix.push((cells.len() - 1) as usize)
        } else {
            prefix
        }
    }
}

/// Every listed index is a valid, matching cell index, and the list is empty
/// exactly when no cell matches.
pub proof fn lemma_code_hash_indices(cells: Seq<CellInfo>, h: Seq<u8>, is_lock: bool)
    requires
        cells.len() <= usize::MAX,
    ensures
        forall|k: int|
            0 <= k < spec_code_hash_indices(cells, h, is_lock).len() ==> {
                &&& spec_code_hash_indices(cells, h, is_lock)[k] < cells.len()
                &&& code_hash_matches(
                    cells[spec_code_hash_indices(cells, h, is_lock)[k] as int],
                    h,
                    is_lock,
                )
            },
        (spec_code_hash_indices(cells, h, is_lock).len() == 0) <==> (forall|i: int|
            0 <= i < cells.len() ==> !code_hash_matches(cells[i], h, is_lock)),
    decreases cells.len(),
{
    if cells.len() > 0 {
        lemma_code_hash_indices(cells.drop_last(), h, is_lock);
        assert(forall|i: int|
            0 <= i < cells.len() - 1 ==> cells.drop_last()[i] == cells[i]);
    }
}

/// Collects the indices of the cells whose lock (when `is_lock`) or type
/// script carries the given code hash.
pub fn get_index_by_code_hash(cells: &Vec<CellInfo>, hash: &Hash32, is_lock: bool) -> (r: Vec<
    usize,
>)
    ensures
        r@ == spec_code_hash_indices(cells@, hash@, is_lock),
{
    let mut r: Vec<usize> = Vec::new();
    let n = cells.len();
    let mut i: usize = 0;
    while i < n
        invariant
            n == cells@.len(),
            i <= n,
            r@ == spec_code_hash_indices(cells@.take(i as int), hash@, is_lock),
        decreases n - i,
    {
        let matched: bool = if is_lock {
            crate::hash::hash_eq(&cells[i].lock.code_hash, hash)
        } else {
            match &cells[i].type_script {
                Some(s) => crate::hash::hash_eq(&s.code_hash, hash),
                None => false,
            }
        };
        proof {
            assert(cells@.take(i + 1).drop_last() =~= cells@.take(i as int));
            assert(cells@.take(i + 1).last() == cells@[i as int]);
        }
        if matched {
            r.push(i);
        }
        i = i + 1;
    }
    proof {
        assert(cells@.take(n as int) =~= cells@);
    }
    r
}

/// How many cells have a type script whose script hash is `h`.
pub open spec fn spec_count_type_hash(cells: Seq<CellInfo>, h: Seq<u8>) -> int
    decreases cells.len(),
{
    if cells.len() == 0 {
        0
    } else {
        spec_count_type_hash(cells.drop_last(), h) + if type_hash_matches(cells.last(), h) {
            1int
        } else {
            0int
        }
    }
}

/// The count is bounded by the number of cells, it is zero exactly when no
/// cell matches, and when it is one the matching index is unique.
pub proof fn lemma_count_type_hash(cells: Seq<CellInfo>, h: Seq<u8>)
    ensures
        0 <= spec_count_type_hash(cells, h) <= cells.len(),
        (spec_count_type_hash(cells, h) == 0) <==> (forall|i: int|
            0 <= i < cells.len() ==> !type_hash_matches(cells[i], h)),
        spec_count_type_hash(cells, h) == 1 ==> forall|i: int, j: int|
            0 <= i < j < cells.len() ==> !(type_hash_matches(cells[i], h) && type_hash_matches(
                cells[j],
                h,
            )),
    decreases cells.len(),
{
    if cells.len() > 0 {
        lemma_count_type_hash(cells.drop_last(), h);
        assert(forall|i: int|
            0 <= i < cells.len() - 1 ==> cells.drop_last()[i] == cells[i]);
    }
}

/// Counts the cells whose type script hash is `h`.
pub fn count_type_hash(cells: &Vec<CellInfo>, h: &Hash32) -> (r: usize)
    ensures
        r == spec_count_type_hash(cells@, h@),
{
    proof {
        lemma_count_type_hash(cells@, h@);
    }
    let mut r: usize = 0;
    let n = cells.len();
    let mut i: usize = 0;
    while i < n
        invariant
            n == cells@.len(),
            i <= n,
            r == spec_count_type_hash(cells@.take(i as int), h@),
            r <= i,
        decreases n - i,
    {
        let matched: bool = match &cells[i].type_hash {
            Some(x) => crate::hash::hash_eq(x, h),
            None => false,
        };
        proof {
            assert(cells@.take(i + 1).drop_last() =~= cells@.take(i as int));
            assert(cells@.take(i + 1).last() == cells@[i as int]);
        }
        if matched {
            r = r + 1;
        }
        i = i + 1;
    }
    proof {
        assert(cells@.take(n as int) =~= cells@);
    }
    r
}

/// The index of the first cell whose type script hash is `h`, if any.
pub open spec fn spec_find_type_hash(cells: Seq<CellInfo>, h: Seq<u8>) -> Option<int>
    decreases cells.len(),
{
    if cells.len() == 0 {
        None
    } else if type_hash_matches(cells[0], h) {
        Some(0)
    } else {
        match spec_find_type_hash(cells.drop_first(), h) {
            Some(i) => Some(i + 1),
            None => None,
        }
    }
}

/// The first matching index is a valid index of the first match, and it is
/// absent exactly when no cell matches.
pub proof fn lemma_find_type_hash(cells: Seq<CellInfo>, h: Seq<u8>)
    ensures
        match spec_find_type_hash(cells, h) {
            Some(i) => {
                &&& 0 <= i < cells.len()
                &&& type_hash_matches(cells[i], h)
                &&& forall|j: int| 0 <= j < i ==> !type_hash_matches(cells[j], h)
            },
            None => forall|j: int| 0 <= j < cells.len() ==> !type_hash_matches(cells[j], h),
        },
    decreases cells.len(),
{
    if cells.len() > 0 && !type_hash_matches(cells[0], h) {
        let tail = cells.drop_first();
        lemma_find_type_hash(tail, h);
        assert(forall|j: int| 0 <= j < tail.len() ==> #[trigger] tail[j] == cells[j + 1]);
        match spec_find_type_hash(tail, h) {
            Some(i) => {
                assert forall|j: int| 0 <= j < i + 1 implies !type_hash_matches(
                    cells[j],
                    h,
                ) by {
                    if j > 0 {
                        assert(!type_hash_matches(tail[j - 1], h));
                    }
                }
            },
            None => {
                assert forall|j: int| 0 <= j < cells.len() implies !type_hash_matches(
                    cells[j],
                    h,
                ) by {
                    if j > 0 {
                        assert(!type_hash_matches(tail[j - 1], h));
                    }
                }
            },
        }
    }
}

/// The index of the first cell whose lock script hash is `h`, if any.
pub open spec fn spec_find_lock_hash(cells: Seq<CellInfo>, h: Seq<u8>) -> Option<int>
    decreases cells.len(),
{
    if cells.len() == 0 {
        None
    } else if lock_hash_matches(cells[0], h) {
        Some(0)
    } else {
        match spec_find_lock_hash(cells.drop_first(), h) {
            Some(i) => Some(i + 1),
            None => None,
        }
    }
}

/// The first matching index is a valid index of the first match, and it is
/// absent exactly when no cell matches.
pub proof fn lemma_find_lock_hash(cells: Seq<CellInfo>, h: Seq<u8>)
    ensures
        match spec_find_lock_hash(cells, h) {
            Some(i) => {
                &&& 0 <= i < cells.len()
                &&& lock_hash_matches(cells[i], h)
                &&& forall|j: int| 0 <= j < i ==> !lock_hash_matches(cells[j], h)
            },
            None => forall|j: int| 0 <= j < cells.len() ==> !lock_hash_matches(cells[j], h),
        },
    decreases cells.len(),
{
    if cells.len() > 0 && !lock_hash_matches(cells[0], h) {
        let tail = cells.drop_first();
        lemma_find_lock_hash(tail, h);
        assert(forall|j: int| 0 <= j < tail.len() ==> #[trigger] tail[j] == cells[j + 1]);
        match spec_find_lock_hash(tail, h) {
            Some(i) => {
                assert forall|j: int| 0 <= j < i + 1 implies !lock_hash_matches(
                    cells[j],
                    h,
                ) by {
                    if j > 0 {
                        assert(!lock_hash_matches(tail[j - 1], h));
                    }
                }
            },
            None => {
                assert forall|j: int| 0 <= j < cells.len() implies !lock_hash_matches(
                    cells[j],
                    h,
                ) by {
                    if j > 0 {
                        assert(!lock_hash_matches(tail[j - 1], h));
                    }
                }
            },
        }
    }
}

/// The index of the first cell whose type script hash is `h`, if any.
pub fn find_type_hash(cells: &Vec<CellInfo>, h: &Hash32) -> (r: Option<usize>)
    ensures
        match r {
            Some(i) => {
                &&& i < cells@.len()
                &&& type_hash_matches(cells@[i as int], h@)
                &&& forall|j: int| 0 <= j < i ==> !type_hash_matches(cells@[j], h@)
                &&& spec_find_type_hash(cells@, h@) == Some(i as int)
            },
            None => {
                &&& forall|j: int| 0 <= j < cells@.len() ==> !type_hash_matches(cells@[j], h@)
                &&& spec_find_type_hash(cells@, h@) is None
            },
        },
{
    proof {
        lemma_find_type_hash(cells@, h@);
    }
    let n = cells.len();
    let mut i: usize = 0;
    while i < n
        invariant
            n == cells@.len(),
            i <= n,
            forall|j: int| 0 <= j < i ==> !type_hash_matches(cells@[j], h@),
        decreases n - i,
    {
        let matched: bool = match &cells[i].type_hash {
            Some(x) => crate::hash::hash_eq(x, h),
            None => false,
        };
        if matched {
            proof {
                lemma_find_type_hash(cells@, h@);
            }
            return Some(i);
        }
        i = i + 1;
    }
    None
}

/// The index of the first cell whose lock script hash is `h`, if any.
pub fn find_lock_hash(cells: &Vec<CellInfo>, h: &Hash32) -> (r: Option<usize>)
    ensures
        match r {
            Some(i) => {
                &&& i < cells@.len()
                &&& lock_hash_matches(cells@[i as int], h@)
                &&& forall|j: int| 0 <= j < i ==> !lock_hash_matches(cells@[j], h@)
                &&& spec_find_lock_hash(cells@, h@) == Some(i as int)
            },
            None => {
                &&& forall|j: int| 0 <= j < cells@.len() ==> !lock_hash_matches(cells@[j], h@)
                &&& spec_find_lock_hash(cells@, h@) is None
            },
        },
{
    proof {
        lemma_find_lock_hash(cells@, h@);
    }
    let n = cells.len();
    let mut i: usize = 0;
    while i < n
        invariant
            n == cells@.len(),
            i <= n,
            forall|j: int| 0 <= j < i ==> !lock_hash_matches(cells@[j], h@),
        decreases n - i,
    {
        if crate::hash::hash_eq(&cells[i].lock_hash, h) {
            proof {
                lemma_find_lock_hash(cells@, h@);
            }
            return Some(i);
        }
        i = i + 1;
    }
    None
}

/// Whether some cell's lock script hash is `h`.
pub fn any_lock_hash(cells: &Vec<CellInfo>, h: &Hash32) -> (r: bool)
    ensures
        r <==> exists|i: int| 0 <= i < cells@.len() && lock_hash_matches(cells@[i], h@),
{
    match find_lock_hash(cells, h) {
        Some(i) => {
            proof {
                assert(lock_hash_matches(cells@[i as int], h@));
            }
            true
        },
        None => false,
    }
}

/// Whether some cell's type script hash is `h`.
pub fn any_type_hash(cells: &Vec<CellInfo>, h: &Hash32) -> (r: bool)
    ensures
        r <==> exists|i: int| 0 <= i < cells@.len() && type_hash_matches(cells@[i], h@),
{
    match find_type_hash(cells, h) {
        Some(i) => {
            proof {
                assert(type_hash_matches(cells@[i as int], h@));
            }
            true
        },
        None => false,
    }
}

/// Whether some cell's data hashes to `h`.
pub fn any_data_hash(cells: &Vec<CellInfo>, h: &Hash32) -> (r: bool)
    ensures
        r <==> exists|i: int| 0 <= i < cells@.len() && ckb_hash_of(cells@[i].data@) == h@,
{
    let n = cells.len();
    let mut i: usize = 0;
    while i < n
        invariant
            n == cells@.len(),
            i <= n,
            forall|j: int| 0 <= j < i ==> ckb_hash_of(cells@[j].data@) != h@,
        decreases n - i,
    {
        let d = ckb_hash(cells[i].data.as_slice());
        if crate::hash::hash_eq(&d, h) {
            proof {
                assert(ckb_hash_of(cells@[i as int].data@) == h@);
            }
            return true;
        }
        i = i + 1;
    }
    false
}

} // verus!
