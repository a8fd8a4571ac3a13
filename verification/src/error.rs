use vstd::prelude::*;

verus! {

/// The closed error taxonomy of the protocol.  Every verification script
/// reports exactly one of these kinds when it rejects a transaction; the
/// externally visible result is the numeric exit code of `exit_code`.
#[derive(Clone, Copy, Debug, PartialEq, Eq, Structural)]
pub enum SilentBerryError {
    Unknow,
    SysError,
    MolVerificationError,
    TypeConversion,
    TxStructure,
    VerifiedData,
    VerifiedDataLen,
    DobSellingScriptHash,
    AccountBookScriptHash,
    SporeDataHash,
    OnwerScriptHash,
    BuyIntentCodeHash,
    XudtNotFound,
    XudtIncorrect,
    PaymentAmount,
    CapacityError,
    ExpireSince,
    ParseWitness,
    AccountBookModified,
    CheckScript,
    CheckXUDT,
    Smt,
    Spore,
    AccountBookOverflow,
}

/// The fixed error-kind-to-exit-code table.
pub open spec fn spec_exit_code(e: SilentBerryError) -> u8 {
    match e {
        SilentBerryError::Unknow => 1,
        SilentBerryError::SysError => 2,
        SilentBerryError::MolVerificationError => 3,
        SilentBerryError::TypeConversion => 4,
        SilentBerryError::TxStructure => 5,
        SilentBerryError::VerifiedData => 6,
        SilentBerryError::VerifiedDataLen => 7,
        SilentBerryError::DobSellingScriptHash => 8,
        SilentBerryError::AccountBookScriptHash => 9,
        SilentBerryError::SporeDataHash => 10,
        SilentBerryError::OnwerScriptHash => 11,
        SilentBerryError::BuyIntentCodeHash => 12,
        SilentBerryError::XudtNotFound => 13,
        SilentBerryError::XudtIncorrect => 14,
        SilentBerryError::PaymentAmount => 15,
        SilentBerryError::CapacityError => 16,
        SilentBerryError::ExpireSince => 17,
        SilentBerryError::ParseWitness => 18,
        SilentBerryError::AccountBookModified => 19,
        SilentBerryError::CheckScript => 20,
        SilentBerryError::CheckXUDT => 21,
        SilentBerryError::Smt => 22,
        SilentBerryError::Spore => 23,
        SilentBerryError::AccountBookOverflow => 24,
    }
}

impl SilentBerryError {
    /// The exit code a script reports for this error; never 0, so that an
    /// error is always distinguishable from acceptance.
    pub fn exit_code(&self) -> (r: u8)
        ensures
            r == spec_exit_code(*self),
            r != 0,
    {
        match self {
            SilentBerryError::Unknow => 1,
            SilentBerryError::SysError => 2,
            SilentBerryError::MolVerificationError => 3,
            SilentBerryError::TypeConversion => 4,
            SilentBerryError::TxStructure => 5,
            SilentBerryError::VerifiedData => 6,
            SilentBerryError::VerifiedDataLen => 7,
            SilentBerryError::DobSellingScriptHash => 8,
            SilentBerryError::AccountBookScriptHash => 9,
            SilentBerryError::SporeDataHash => 10,
            SilentBerryError::OnwerScriptHash => 11,
            SilentBerryError::BuyIntentCodeHash => 12,
            SilentBerryError::XudtNotFound => 13,
            SilentBerryError::XudtIncorrect => 14,
            SilentBerryError::PaymentAmount => 15,
            SilentBerryError::CapacityError => 16,
            SilentBerryError::ExpireSince => 17,
            SilentBerryError::ParseWitness => 18,
            SilentBerryError::AccountBookModified => 19,
            SilentBerryError::CheckScript => 20,
            SilentBerryError::CheckXUDT => 21,
            SilentBerryError::Smt => 22,
            SilentBerryError::Spore => 23,
            SilentBerryError::AccountBookOverflow => 24,
        }
    }
}

} // verus!
