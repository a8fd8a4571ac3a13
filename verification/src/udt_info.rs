use crate::error::SilentBerryError;
use crate::hash::Hash32;
use crate::tx::{type_hash_matches, CellInfo, Transaction};
use vstd::bytes::spec_u128_from_le_bytes;
use vstd::prelude::*;
use vstd::slice::slice_subrange;

verus! {

/// Every cell of the given token type carries a 16-byte balance.
pub open spec fn spec_udt_data_ok(cells: Seq<CellInfo>, h: Seq<u8>) -> bool {
    forall|i: int|
        0 <= i < cells.len() && type_hash_matches(#[trigger] cells[i], h) ==> cells[i].data@.len()
            == 16
}

/// The (balance, index) pairs of the cells of the given token type, in cell
/// order.
pub open spec fn spec_udt_entries(cells: Seq<CellInfo>, h: Seq<u8>) -> Seq<(u128, usize)>
    decreases cells.len(),
{
    if cells.len() == 0 {
        Seq::empty()
    } else {
        let prefix = spec_udt_entries(cells.drop_last(), h);
        if type_hash_matches(cells.last(), h) {
            prefix.push(
                (spec_u128_from_le_bytes(cells.last().data@), (cells.len() - 1) as usize),
            )
        } else {
            prefix
        }
    }
}

/// Every listed entry points at a valid cell of the token type and carries
/// that cell's balance.
pub proof fn lemma_udt_entries_bounds(cells: Seq<CellInfo>, h: Seq<u8>)
    requires
        cells.len() <= usize::MAX,
    ensures
        forall|k: int|
            0 <= k < spec_udt_entries(cells, h).len() ==> {
                &&& (#[trigger] spec_udt_entries(cells, h)[k]).1 < cells.len()
                &&& type_hash_matches(cells[spec_udt_entries(cells, h)[k].1 as int], h)
                &&& spec_udt_entries(cells, h)[k].0 == spec_u128_from_le_bytes(
                    cells[spec_udt_entries(cells, h)[k].1 as int].data@,
                )
            },
    decreases cells.len(),
{
    if cells.len() > 0 {
        lemma_udt_entries_bounds(cells.drop_last(), h);
        assert(forall|i: int|
            0 <= i < cells.len() - 1 ==> cells.drop_last()[i] == cells[i]);
    }
}

/// The sum of the balances of a list of (balance, index) pairs.
pub open spec fn spec_sum(s: Seq<(u128, usize)>) -> int
    decreases s.len(),
{
    if s.len() == 0 {
        0
    } else {
        spec_sum(s.drop_last()) + s.last().0
    }
}

/// A prefix never sums to more than the whole list.
pub proof fn lemma_sum_prefix_le(s: Seq<(u128, usize)>, i: int)
    requires
        0 <= i <= s.len(),
    ensures
        spec_sum(s.take(i)) <= spec_sum(s),
    decreases s.len(),
{
    if i < s.len() {
        lemma_sum_prefix_le(s.drop_last(), i);
        assert(s.take(i) =~= s.drop_last().take(i));
    } else {
        assert(s.take(i) =~= s);
    }
}

/// The per-cell balances of one fungible-token type across the whole
/// transaction, inputs and outputs apart.
#[derive(Debug)]
pub struct UDTInfo {
    pub inputs: Vec<(u128, usize)>,
    pub outputs: Vec<(u128, usize)>,
}

fn load_udt(cells: &Vec<CellInfo>, h: &Hash32) -> (r: Result<Vec<(u128, usize)>, SilentBerryError>)
    ensures
        match r {
            Ok(v) => spec_udt_data_ok(cells@, h@) && v@ == spec_udt_entries(cells@, h@),
            Err(e) => !spec_udt_data_ok(cells@, h@) && e == SilentBerryError::CheckXUDT,
        },
{
    let mut v: Vec<(u128, usize)> = Vec::new();
    let n = cells.len();
    let mut i: usize = 0;
    while i < n
        invariant
            n == cells@.len(),
            i <= n,
            spec_udt_data_ok(cells@.take(i as int), h@),
            v@ == spec_udt_entries(cells@.take(i as int), h@),
        decreases n - i,
    {
        let matched: bool = match &cells[i].type_hash {
            Some(x) => crate::hash::hash_eq(x, h),
            None => false,
        };
        proof {
            assert(cells@.take(i + 1).drop_last() =~= cells@.take(i as int));
            assert(cells@.take(i + 1).last() == cells@[i as int]);
            assert(forall|j: int| 0 <= j < i + 1 ==> cells@.take(i + 1)[j] == cells@[j]);
        }
        if matched {
            if cells[i].data.len() != 16 {
                proof {
                    assert(type_hash_matches(cells@[i as int], h@) && cells@[i as int].data@.len()
                        != 16);
                }
                return Err(SilentBerryError::CheckXUDT);
            }
            let amount = vstd::bytes::u128_from_le_bytes(
                slice_subrange(cells[i].data.as_slice(), 0, 16),
            );
            proof {
                assert(cells@[i as int].data@.subrange(0, 16) =~= cells@[i as int].data@);
            }
            v.push((amount, i));
        }
        i = i + 1;
    }
    proof {
        assert(cells@.take(n as int) =~= cells@);
    }
    Ok(v)
}

impl UDTInfo {
    /// Scans the whole transaction for cells of the given token type.
    /// Succeeds exactly when every such cell carries a 16-byte balance, and
    /// then lists every balance with its cell index, inputs and outputs
    /// apart.
    pub fn new(tx: &Transaction, xudt_script_hash: &Hash32) -> (r: Result<
        UDTInfo,
        SilentBerryError,
    >)
        ensures
            match r {
                Ok(u) => {
                    &&& spec_udt_data_ok(tx.inputs@, xudt_script_hash@)
                    &&& spec_udt_data_ok(tx.outputs@, xudt_script_hash@)
                    &&& u.inputs@ == spec_udt_entries(tx.inputs@, xudt_script_hash@)
                    &&& u.outputs@ == spec_udt_entries(tx.outputs@, xudt_script_hash@)
                },
                Err(e) => {
                    &&& e == SilentBerryError::CheckXUDT
                    &&& (!spec_udt_data_ok(tx.inputs@, xudt_script_hash@) || !spec_udt_data_ok(
                        tx.outputs@,
                        xudt_script_hash@,
                    ))
                },
            },
    {
        let inputs = load_udt(&tx.inputs, xudt_script_hash)?;
        let outputs = load_udt(&tx.outputs, xudt_script_hash)?;
        Ok(UDTInfo { inputs, outputs })
    }

    /// Token conservation: succeeds exactly when the input balances and the
    /// output balances have the same sum, and that sum fits in 128 bits;
    /// every violation, overflow included, is the conservation error.
    pub fn check_udt(&self) -> (r: Result<(), SilentBerryError>)
        ensures
            match r {
                Ok(()) => {
                    &&& spec_sum(self.inputs@) == spec_sum(self.outputs@)
                    &&& spec_sum(self.inputs@) <= u128::MAX
                },
                Err(e) => {
                    &&& e == SilentBerryError::CheckXUDT
                    &&& (spec_sum(self.inputs@) != spec_sum(self.outputs@) || spec_sum(
                        self.inputs@,
                    ) > u128::MAX)
                },
            },
    {
        let i = match sum_amounts(&self.inputs) {
            Some(x) => x,
            None => {
                return Err(SilentBerryError::CheckXUDT);
            },
        };
        let o = match sum_amounts(&self.outputs) {
            Some(x) => x,
            None => {
                return Err(SilentBerryError::CheckXUDT);
            },
        };
        if i != o {
            return Err(SilentBerryError::CheckXUDT);
        }
        Ok(())
    }

    /// The already-validated total that flows through the inputs.
    pub fn input_total(&self) -> (r: u128)
        requires
            spec_sum(self.inputs@) <= u128::MAX,
        ensures
            r == spec_sum(self.inputs@),
    {
        match sum_amounts(&self.inputs) {
            Some(x) => x,
            None => {
                proof {
                    assert(false);
                }
                0
            },
        }
    }
}

/// Sums the balances, or reports that the sum does not fit in 128 bits.
fn sum_amounts(s: &Vec<(u128, usize)>) -> (r: Option<u128>)
    ensures
        match r {
            Some(t) => t == spec_sum(s@),
            None => spec_sum(s@) > u128::MAX,
        },
{
    let mut acc: u128 = 0;
    let n = s.len();
    let mut i: usize = 0;
    while i < n
        invariant
            n == s@.len(),
            i <= n,
            acc == spec_sum(s@.take(i as int)),
        decreases n - i,
    {
        proof {
            assert(s@.take(i + 1).drop_last() =~= s@.take(i as int));
            assert(s@.take(i + 1).last() == s@[i as int]);
        }
        acc = match acc.checked_add(s[i].0) {
            Some(x) => x,
            None => {
                proof {
                    lemma_sum_prefix_le(s@, i + 1);
                }
                return None;
            },
        };
        i = i + 1;
    }
    proof {
        assert(s@.take(n as int) =~= s@);
    }
    Some(acc)
}

} // verus!
