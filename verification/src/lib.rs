//! A keyed asset ledger: per-asset total supplies and per-holder balances,
//! with create / mint / burn / transfer / set-metadata operations under
//! saturating-clamp arithmetic, and a proved conservation invariant
//! (every asset's supply equals the sum of its holders' balances).

pub mod laws;
pub mod ledger;
pub mod model;

pub use ledger::BurnOutcome;
pub use ledger::Ledger;
pub use ledger::MintOutcome;
pub use model::AccountId;
pub use model::AssetDetails;
pub use model::AssetId;
pub use model::AssetMetadata;
pub use model::Error;
pub use model::Policy;
