use vstd::prelude::*;

verus! {

/// Every way in which an operation of the contributor can be rejected.
///
/// A rejected operation leaves every entity exactly as it was.
#[derive(Clone, Copy, Debug, PartialEq, Eq, Structural)]
pub enum ContributorError {
    /// The message does not come from the trusted conductor.
    UntrustedOrigin,
    /// The message names another sale than the one it is applied to.
    SaleMismatch,
    /// The message is not of the kind that the operation expects.
    UnexpectedMessageType,
    /// Contributions are accepted only while the sale is open.
    SaleNotOpen,
    /// Settlement is possible only once the sale is sealed or aborted.
    SaleStillOpen,
    /// The sale has already been sealed or aborted.
    DuplicateSealMessage,
    /// A sale with this id has already been initialized.
    SaleAlreadyExists,
    /// The contribution would push the asset's total above its cap.
    ContributionCapExceeded,
    /// A contribution must be greater than zero.
    ZeroContribution,
    /// The asset is not among the sale's accepted assets.
    UnsupportedAsset,
    /// The buyer has already settled.
    AlreadyClaimed,
    /// The terms of the sale are structurally invalid.
    MalformedSaleTerms,
    /// No sale with this id has been initialized.
    UnknownSale,
    /// The buyer has no record in this sale.
    UnknownBuyer,
    /// The configured conductor chain is not a chain id.
    InvalidConductorChain,
    /// The configured conductor address is not a 32-byte hex string.
    InvalidConductorAddress,
    /// The conductor cannot live on the contributor's own chain.
    InvalidConductor,
}

} // verus!
