use crate::hash::{ckb_hash, ckb_hash_of, Hash32};
use vstd::bytes::{spec_u128_to_le_bytes, u128_to_le_bytes};
use vstd::prelude::*;

verus! {

/// The role a ledger member plays in the payout scheme.
#[derive(Clone, Copy, Debug, PartialEq, Eq, Structural)]
pub enum MemberType {
    Platform,
    Auther,
    Golden,
    Silver,
    Bronze,
    Blue,
}

/// The numeric code of each member role.
pub open spec fn spec_member_type_value(t: MemberType) -> u8 {
    match t {
        MemberType::Platform => 1,
        MemberType::Auther => 2,
        MemberType::Golden => 3,
        MemberType::Silver => 4,
        MemberType::Bronze => 5,
        MemberType::Blue => 6,
    }
}

/// One member entry of the ledger: the collectible identity that names the
/// slot, the amount the member has withdrawn so far, and the member's role.
#[derive(Clone)]
pub struct MemberInfo {
    pub spore_id: Hash32,
    pub withdrawn_amount: u128,
    pub member_type: MemberType,
}

impl MemberInfo {
    /// The numeric code of this member's role.
    pub fn member_type_value(&self) -> (r: u8)
        ensures
            r == spec_member_type_value(self.member_type),
    {
        match self.member_type {
            MemberType::Platform => 1,
            MemberType::Auther => 2,
            MemberType::Golden => 3,
            MemberType::Silver => 4,
            MemberType::Bronze => 5,
            MemberType::Blue => 6,
        }
    }

    /// Derives this member's 256-bit key in the authenticated map.
    pub fn get_key(&self) -> (r: Hash32)
        ensures
            r@ == ckb_hash_of(self.spore_id@),
    {
        ckb_hash(self.spore_id.as_slice())
    }

    /// Hashes this entry to its leaf digest: the hash of the little-endian
    /// withdrawn amount followed by the role code.
    pub fn to_h256(&self) -> (r: Hash32)
        ensures
            r@ == ckb_hash_of(
                spec_u128_to_le_bytes(self.withdrawn_amount) + seq![
                    spec_member_type_value(self.member_type),
                ],
            ),
    {
        let mut bytes = u128_to_le_bytes(self.withdrawn_amount);
        bytes.push(self.member_type_value());
        proof {
            assert(bytes@ =~= spec_u128_to_le_bytes(self.withdrawn_amount) + seq![
                spec_member_type_value(self.member_type),
            ]);
        }
        ckb_hash(bytes.as_slice())
    }

    /// The zero entry that stands for an absent member slot.
    pub fn zero() -> (r: Self)
        ensures
            r.spore_id@ == Seq::new(32, |i: int| 0u8),
            r.withdrawn_amount == 0,
            r.member_type == MemberType::Blue,
    {
        let id: Hash32 = [0u8; 32];
        proof {
            assert(id@ =~= Seq::new(32, |i: int| 0u8));
        }
        MemberInfo { spore_id: id, withdrawn_amount: 0, member_type: MemberType::Blue }
    }
}

impl Default for MemberInfo {
    /// The zero entry: an all-zero identity that has withdrawn nothing.
    fn default() -> (r: Self)
        ensures
            r.spore_id@ == Seq::new(32, |i: int| 0u8),
            r.withdrawn_amount == 0,
            r.member_type == MemberType::Blue,
    {
        MemberInfo::zero()
    }
}

} // verus!
