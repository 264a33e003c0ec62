use vstd::prelude::*;

verus! {

/// Errors of the magic hat program.
#[derive(Clone, Copy, Debug, PartialEq, Eq, Structural)]
pub enum MagicHatError {
    IncorrectOwner,
    Uninitialized,
    MintMismatch,
    NumericalOverflowError,
    TooManyCreators,
    UuidMustBeExactly6Length,
    NotEnoughTokens,
    NotEnoughSOL,
    MagicHatEmpty,
    MagicHatNotLive,
    CannotChangeNumberOfLines,
    CannotSwitchToHiddenSettings,
    IncorrectSlotHashesPubkey,
    CannotFindUsableConfigLine,
    InvalidString,
    SuspiciousTransaction,
    NoWhitelistToken,
    GatewayAppMissing,
    GatewayTokenMissing,
    GatewayTokenExpireTimeInvalid,
    NetworkExpireFeatureMissing,
    MetadataAccountMustBeEmpty,
    MissingSetCollectionDuringMint,
    MagicHatCollectionRequiresRetainAuthority,
}

} // verus!
