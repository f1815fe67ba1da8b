pub mod types;
pub mod deposit;
pub mod feature;
pub mod zombie;
pub mod supply;
pub mod state;
pub mod ledger;
pub mod laws;

pub use types::{
    AccountId, AssetBalance, AssetDetails, AssetFeature, AssetId, AssetMetadata, Balance, Config,
    Effect, Error, Event, Receipt,
};
pub use ledger::Pallet;
pub use deposit::{asset_deposit, metadata_deposit};
pub use feature::new_feature_detail;
