use crate::account_book_proof::{spec_leaf_digest, spec_smt_key, SmtKey, SmtValue};
use crate::error::SilentBerryError;
use crate::hash::Hash32;
use vstd::prelude::*;

verus! {

#[verifier::external_type_specification]
#[verifier::external_body]
pub struct ExH256(sparse_merkle_tree::H256);

#[verifier::external_type_specification]
#[verifier::external_body]
pub struct ExBlake2bHasher(sparse_merkle_tree::blake2b::Blake2bHasher);

#[verifier::external_type_specification]
#[verifier::external_body]
#[verifier::reject_recursive_types(V)]
pub struct ExDefaultStore<V>(sparse_merkle_tree::default_store::DefaultStore<V>);

#[verifier::external_type_specification]
#[verifier::external_body]
#[verifier::reject_recursive_types(H)]
#[verifier::reject_recursive_types(V)]
#[verifier::reject_recursive_types(S)]
pub struct ExSparseMerkleTree<H, V, S>(sparse_merkle_tree::SparseMerkleTree<H, V, S>);

/// The concrete tree the builder maintains: the crate's own hasher over
/// 256-bit keys, storing leaf digests directly.
pub type SMTTree = sparse_merkle_tree::SparseMerkleTree<
    sparse_merkle_tree::blake2b::Blake2bHasher,
    sparse_merkle_tree::H256,
    sparse_merkle_tree::default_store::DefaultStore<sparse_merkle_tree::H256>,
>;

/// The contents of a map that holds nothing: every key holds the zero
/// digest that stands for absence.
pub open spec fn spec_empty_contents() -> Map<Seq<u8>, Seq<u8>> {
    Map::new(|k: Seq<u8>| k.len() == 32, |k: Seq<u8>| crate::account_book_proof::spec_zero_digest())
}

/// The logical contents of a tree: the total map from every 256-bit key to
/// its leaf digest.  A key never written, or last written with the zero
/// digest, holds the zero digest: absence and the canonical zero are the
/// same thing, as the tree itself treats them.
pub uninterp spec fn smt_contents(t: SMTTree) -> Map<Seq<u8>, Seq<u8>>;

/// The root that commits to given logical contents; it depends on the
/// contents alone.
pub uninterp spec fn smt_root_of(m: Map<Seq<u8>, Seq<u8>>) -> Seq<u8>;

/// The compiled, batched proof for a set of keys under given contents; it
/// depends on the contents and the key set alone.
pub uninterp spec fn smt_proof_of(m: Map<Seq<u8>, Seq<u8>>, keys: Seq<Seq<u8>>) -> Result<
    Seq<u8>,
    (),
>;

/// No two entries of the list are equal.
pub open spec fn spec_distinct<A>(s: Seq<A>) -> bool {
    forall|i: int, j: int| 0 <= i < j < s.len() ==> s[i] != s[j]
}

/// Relies on SparseMerkleTree::default: a plain tree value; `Smt::clear`
/// states what a fresh tree holds.
#[verifier::external_body]
fn tree_new() -> SMTTree {
    sparse_merkle_tree::SparseMerkleTree::default()
}

/// Relies on SparseMerkleTree::default: a tree with the zero root over an
/// empty store holds nothing.
#[verifier::external_body]
fn tree_clear(t: &mut SMTTree)
    ensures
        smt_contents(*final(t)) == spec_empty_contents(),
{
    *t = sparse_merkle_tree::SparseMerkleTree::default();
}

/// Relies on SparseMerkleTree::update: it stores the value digest under the
/// key, and with the default in-memory store it cannot fail.
#[verifier::external_body]
fn tree_update(t: &mut SMTTree, key: &Hash32, value: &Hash32) -> (r: Result<(), ()>)
    ensures
        r is Ok,
        smt_contents(*final(t)) == smt_contents(*old(t)).insert(key@, value@),
{
    match t.update((*key).into(), (*value).into()) {
        Ok(_) => Ok(()),
        Err(_) => Err(()),
    }
}

/// Relies on SparseMerkleTree::root: the root commits to the contents.
#[verifier::external_body]
fn tree_root(t: &SMTTree) -> (r: Hash32)
    ensures
        r@ == smt_root_of(smt_contents(*t)),
{
    (*t.root()).into()
}

/// Relies on SparseMerkleTree::merkle_proof and MerkleProof::compile: the
/// compiled proof is built from the tree and the sorted key set; compile
/// reads only the keys of the leaf pairs it is handed, never their values.
/// The keys must be pairwise distinct and at most 256: the engine's merge
/// stack asserts on duplicated keys and holds 257 entries.
#[verifier::external_body]
fn tree_proof(t: &SMTTree, keys: &Vec<Hash32>) -> (r: Result<Vec<u8>, ()>)
    requires
        keys@.len() <= 256,
        spec_distinct(keys@.map_values(|k: Hash32| k@)),
    ensures
        match (r, smt_proof_of(smt_contents(*t), keys@.map_values(|k: Hash32| k@))) {
            (Ok(p), Ok(sp)) => p@ == sp,
            (Err(()), Err(())) => true,
            _ => false,
        },
{
    let hkeys: Vec<sparse_merkle_tree::H256> = keys.iter().map(|k| (*k).into()).collect();
    let pairs: Vec<(sparse_merkle_tree::H256, sparse_merkle_tree::H256)> = hkeys
        .iter()
        .map(|k| (*k, sparse_merkle_tree::H256::zero()))
        .collect();
    match t.merkle_proof(hkeys) {
        Ok(p) => match p.compile(pairs) {
            Ok(c) => Ok(c.0),
            Err(_) => Err(()),
        },
        Err(_) => Err(()),
    }
}

/// The off-chain builder of the authenticated ledger map: it maintains the
/// full map and produces the compiled proofs that the on-chain verifier
/// replays in O(proof size).
pub struct Smt {
    tree: SMTTree,
}

impl Smt {
    /// The logical contents this builder has accumulated.
    pub closed spec fn contents(&self) -> Map<Seq<u8>, Seq<u8>> {
        smt_contents(self.tree)
    }

    /// Empties the map.
    pub fn clear(&mut self)
        ensures
            final(self).contents() == spec_empty_contents(),
    {
        tree_clear(&mut self.tree);
    }

    /// An empty map.
    pub fn new() -> (r: Smt)
        ensures
            r.contents() == spec_empty_contents(),
    {
        let mut s = Smt { tree: tree_new() };
        s.clear();
        s
    }

    /// Stores `value` under `key`.
    pub fn update(&mut self, key: SmtKey, value: SmtValue)
        ensures
            final(self).contents() == old(self).contents().insert(
                spec_smt_key(key),
                spec_leaf_digest(value.amount),
            ),
    {
        let k = key.get_key();
        let v = value.to_h256();
        match tree_update(&mut self.tree, &k, &v) {
            Ok(()) => (),
            Err(()) => (),
        }
    }

    /// The root hash committing to the current contents.
    pub fn root_hash(&self) -> (r: Hash32)
        ensures
            r@ == smt_root_of(self.contents()),
    {
        tree_root(&self.tree)
    }

    /// Produces the compiled, batched proof for the given keys under the
    /// current contents.  A key set the engine cannot compile — one with a
    /// repeated key, or one it rejects outright, such as the empty set — is
    /// the proof-malformed error.
    pub fn make_proof(&self, keys: &Vec<SmtKey>) -> (r: Result<Vec<u8>, SilentBerryError>)
        requires
            keys@.len() <= 256,
        ensures
            match r {
                Ok(p) => {
                    &&& spec_distinct(keys@.map_values(|k: SmtKey| spec_smt_key(k)))
                    &&& smt_proof_of(
                        self.contents(),
                        keys@.map_values(|k: SmtKey| spec_smt_key(k)),
                    ) matches Ok(sp) && p@ == sp
                },
                Err(e) => {
                    &&& e == SilentBerryError::Smt
                    &&& (!spec_distinct(keys@.map_values(|k: SmtKey| spec_smt_key(k)))
                        || smt_proof_of(
                        self.contents(),
                        keys@.map_values(|k: SmtKey| spec_smt_key(k)),
                    ) is Err)
                },
            },
    {
        let mut hk: Vec<Hash32> = Vec::new();
        let n = keys.len();
        let mut i: usize = 0;
        while i < n
            invariant
                n == keys@.len() <= 256,
                i <= n,
                hk@.len() == i,
                forall|j: int| 0 <= j < i ==> hk@[j]@ == spec_smt_key(keys@[j]),
            decreases n - i,
        {
            hk.push(keys[i].get_key());
            i = i + 1;
        }
        let mut a: usize = 0;
        while a < n
            invariant
                n == keys@.len() <= 256,
                n == hk@.len(),
                a <= n,
                forall|j: int| 0 <= j < n ==> hk@[j]@ == spec_smt_key(keys@[j]),
                forall|x: int, y: int| 0 <= x < a && x < y < n ==> hk@[x]@ != hk@[y]@,
            decreases n - a,
        {
            let mut b: usize = a + 1;
            while b < n
                invariant
                    n == keys@.len() <= 256,
                    n == hk@.len(),
                    a < n,
                    a < b <= n,
                    forall|j: int| 0 <= j < n ==> hk@[j]@ == spec_smt_key(keys@[j]),
                    forall|y: int| a < y < b ==> hk@[a as int]@ != hk@[y]@,
                decreases n - b,
            {
                if crate::hash::hash_eq(&hk[a], &hk[b]) {
                    proof {
                        assert(keys@.map_values(|k: SmtKey| spec_smt_key(k))[a as int]
                            == keys@.map_values(|k: SmtKey| spec_smt_key(k))[b as int]);
                    }
                    return Err(SilentBerryError::Smt);
                }
                b = b + 1;
            }
            a = a + 1;
        }
        proof {
            assert(hk@.map_values(|k: Hash32| k@) =~= keys@.map_values(
                |k: SmtKey| spec_smt_key(k),
            ));
            let mapped = hk@.map_values(|k: Hash32| k@);
            assert forall|x: int, y: int|
                0 <= x < y < mapped.len() implies #[trigger] mapped[x] != #[trigger] mapped[y] by {
                assert(hk@[x]@ != hk@[y]@);
            }
            assert(spec_distinct(mapped));
        }
        match tree_proof(&self.tree, &hk) {
            Ok(p) => Ok(p),
            Err(()) => Err(SilentBerryError::Smt),
        }
    }
}

} // verus!
