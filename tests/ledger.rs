use featured_assets::{
    asset_deposit, metadata_deposit, new_feature_detail, AssetFeature, Config, Effect, Error,
    Event, Pallet, Receipt,
};

const A: u64 = 1;
const B: u64 = 2;
const C: u64 = 3;
const D: u64 = 4;
const ID: u64 = 1;
const PLENTY: u64 = 1_000_000;

fn config() -> Config {
    Config {
        asset_deposit_base: 100,
        asset_deposit_per_zombie: 10,
        metadata_deposit_base: 50,
        metadata_deposit_per_byte: 1,
        string_limit: 8,
    }
}

/// A ledger where `A` owns class `ID` with two zombie slots and a minimum of 10.
fn with_class() -> Pallet {
    let mut p = Pallet::new(config());
    p.create(A, ID, 2, 10, 0x1, PLENTY).unwrap();
    p
}

fn err(r: Result<Receipt, Error>) -> Error {
    match r {
        Ok(_) => panic!("operation succeeded"),
        Err(e) => e,
    }
}

#[test]
fn create_then_mint_to_zombie() {
    let mut p = Pallet::new(config());
    let rc = p.create(A, ID, 2, 10, 0x1, PLENTY).unwrap();
    assert_eq!(rc.event, Event::Created(ID, A));
    assert_eq!(rc.effects, vec![Effect::Reserve(A, 100 + 2 * 10)]);
    let d = p.asset_details(ID).unwrap();
    assert_eq!(d.owner, A);
    assert_eq!(d.deposit, 120);
    assert_eq!((d.supply, d.accounts, d.zombies), (0, 0, 0));
    assert!(!d.is_frozen && d.is_featured);

    let rc = p.mint(true, ID, B, 50, false).unwrap();
    assert_eq!(rc.event, Event::Issued(ID, B, 50));
    assert!(rc.effects.is_empty());
    assert_eq!(p.balance(ID, B), 50);
    let d = p.asset_details(ID).unwrap();
    assert_eq!((d.supply, d.accounts, d.zombies), (50, 1, 1));
    assert!(p.account(ID, B).unwrap().is_zombie);
    assert_eq!(p.zombie_allowance(ID), 1);
}

#[test]
fn mint_to_real_account_takes_no_zombie_slot() {
    let mut p = with_class();
    let rc = p.mint(true, ID, B, 50, true).unwrap();
    assert_eq!(rc.effects, vec![Effect::IncConsumers(B)]);
    assert!(!p.account(ID, B).unwrap().is_zombie);
    let d = p.asset_details(ID).unwrap();
    assert_eq!((d.accounts, d.zombies), (1, 0));
}

#[test]
fn third_zombie_is_refused() {
    let mut p = with_class();
    p.mint(true, ID, B, 50, false).unwrap();
    p.mint(true, ID, C, 50, false).unwrap();
    assert_eq!(err(p.mint(true, ID, D, 50, false)), Error::TooManyZombies);
    assert_eq!(p.balance(ID, D), 0);
    assert!(p.account(ID, D).is_none());
    assert_eq!(p.total_supply(ID), 100);
    let d = p.asset_details(ID).unwrap();
    assert_eq!((d.accounts, d.zombies), (2, 2));
    assert_eq!(p.zombie_allowance(ID), 0);
}

#[test]
fn transfer_sweeps_remainder_below_minimum() {
    let mut p = with_class();
    p.mint(true, ID, B, 50, false).unwrap();
    let rc = p.transfer(B, ID, C, 45, false, false).unwrap();
    assert_eq!(rc.event, Event::Transferred(ID, B, C, 50));
    assert!(p.account(ID, B).is_none());
    assert_eq!(p.balance(ID, B), 0);
    assert_eq!(p.balance(ID, C), 50);
    let d = p.asset_details(ID).unwrap();
    assert_eq!((d.supply, d.accounts, d.zombies), (50, 1, 1));
}

#[test]
fn transfer_keeps_remainder_at_minimum() {
    let mut p = with_class();
    p.mint(true, ID, B, 50, false).unwrap();
    let rc = p.transfer(B, ID, C, 40, false, false).unwrap();
    assert_eq!(rc.event, Event::Transferred(ID, B, C, 40));
    assert_eq!(p.balance(ID, B), 10);
    assert_eq!(p.balance(ID, C), 40);
    let d = p.asset_details(ID).unwrap();
    assert_eq!((d.accounts, d.zombies), (2, 2));
}

#[test]
fn transfer_dezombifies_sender_with_footprint() {
    let mut p = with_class();
    p.mint(true, ID, B, 50, false).unwrap();
    let rc = p.transfer(B, ID, C, 20, true, true).unwrap();
    assert_eq!(rc.effects, vec![Effect::IncConsumers(C), Effect::IncConsumers(B)]);
    assert!(!p.account(ID, B).unwrap().is_zombie);
    assert!(!p.account(ID, C).unwrap().is_zombie);
    let d = p.asset_details(ID).unwrap();
    assert_eq!((d.accounts, d.zombies), (2, 0));
}

#[test]
fn destroy_with_live_holder_fails_refs_left() {
    let mut p = with_class();
    p.mint(true, ID, B, 50, true).unwrap();
    assert_eq!(err(p.destroy(A, ID, 10)), Error::RefsLeft);
    assert!(p.asset_details(ID).is_some());
    assert_eq!(err(p.force_destroy(ID, 10)), Error::RefsLeft);
}

#[test]
fn create_then_destroy_returns_deposit() {
    let mut p = Pallet::new(config());
    let rc = p.create(A, ID, 2, 10, 0x1, PLENTY).unwrap();
    assert_eq!(rc.effects, vec![Effect::Reserve(A, 120)]);
    let rc = p.destroy(A, ID, 0).unwrap();
    assert_eq!(rc.event, Event::Destroyed(ID));
    assert_eq!(rc.effects, vec![Effect::Unreserve(A, 120)]);
    assert!(p.asset_details(ID).is_none());
    assert_eq!(p.total_supply(ID), 0);
    assert_eq!(p.zombie_allowance(ID), 0);
}

#[test]
fn destroy_removes_zombie_holders_and_metadata() {
    let mut p = with_class();
    p.mint(true, ID, B, 50, false).unwrap();
    p.set_metadata(A, ID, vec![b'g'; 3], vec![b'G'; 2], 0, PLENTY).unwrap();
    assert_eq!(err(p.destroy(A, ID, 0)), Error::BadWitness);
    assert_eq!(err(p.destroy(B, ID, 1)), Error::NoPermission);
    let rc = p.destroy(A, ID, 1).unwrap();
    assert_eq!(rc.effects, vec![Effect::Unreserve(A, 120 + 55)]);
    assert!(p.account(ID, B).is_none());
    assert_eq!(err(p.destroy(A, ID, 1)), Error::Unknown);
}

#[test]
fn force_destroy_ignores_owner() {
    let mut p = with_class();
    let rc = p.force_destroy(ID, 0).unwrap();
    assert_eq!(rc.effects, vec![Effect::Unreserve(A, 120)]);
    assert_eq!(err(p.force_destroy(ID, 0)), Error::Unknown);
}

#[test]
fn self_transfers_and_same_owner_change_nothing() {
    let mut p = with_class();
    p.mint(true, ID, B, 50, false).unwrap();
    let before = (p.account(ID, B), p.asset_details(ID));
    let rc = p.transfer(B, ID, B, 45, false, false).unwrap();
    assert!(rc.effects.is_empty());
    let rc = p.force_transfer(true, ID, B, B, 45, false, false).unwrap();
    assert!(rc.effects.is_empty());
    let rc = p.transfer_ownership(A, ID, A, true).unwrap();
    assert_eq!(rc.event, Event::OwnerChanged(ID, A));
    assert!(rc.effects.is_empty());
    assert_eq!((p.account(ID, B), p.asset_details(ID)), before);
}

#[test]
fn burn_sweeps_remainder_below_minimum() {
    let mut p = with_class();
    p.mint(true, ID, B, 50, false).unwrap();
    let rc = p.burn(true, ID, B, 45).unwrap();
    assert_eq!(rc.event, Event::Burned(ID, B, 50));
    assert!(p.account(ID, B).is_none());
    let d = p.asset_details(ID).unwrap();
    assert_eq!((d.supply, d.accounts, d.zombies), (0, 0, 0));
}

#[test]
fn burn_of_real_account_drops_reference() {
    let mut p = with_class();
    p.mint(true, ID, B, 50, true).unwrap();
    let rc = p.burn(true, ID, B, 100).unwrap();
    assert_eq!(rc.event, Event::Burned(ID, B, 50));
    assert_eq!(rc.effects, vec![Effect::DecConsumers(B)]);
    assert_eq!(p.asset_details(ID).unwrap().accounts, 0);
}

#[test]
fn burn_leaves_remainder_at_minimum() {
    let mut p = with_class();
    p.mint(true, ID, B, 50, false).unwrap();
    let rc = p.burn(true, ID, B, 40).unwrap();
    assert_eq!(rc.event, Event::Burned(ID, B, 40));
    assert_eq!(p.balance(ID, B), 10);
    assert_eq!(p.total_supply(ID), 10);
    assert_eq!(err(p.burn(true, ID, C, 1)), Error::BalanceZero);
    assert_eq!(err(p.burn(false, ID, B, 1)), Error::NoPermission);
    assert_eq!(err(p.burn(true, 9, B, 1)), Error::Unknown);
}

#[test]
fn force_transfer_clamps_and_ignores_freezing() {
    let mut p = with_class();
    p.mint(true, ID, B, 50, false).unwrap();
    p.freeze(true, ID, B).unwrap();
    p.freeze_asset(true, ID).unwrap();
    let rc = p.force_transfer(true, ID, B, C, 500, false, false).unwrap();
    assert_eq!(rc.event, Event::ForceTransferred(ID, B, C, 50));
    assert_eq!(p.balance(ID, C), 50);
    assert!(p.account(ID, B).is_none());
    assert_eq!(err(p.force_transfer(true, ID, B, C, 5, false, false)), Error::AmountZero);
    assert_eq!(err(p.force_transfer(false, ID, C, B, 5, false, false)), Error::NoPermission);
}

#[test]
fn frozen_account_and_frozen_class_block_transfers() {
    let mut p = with_class();
    p.mint(true, ID, B, 50, false).unwrap();
    assert_eq!(err(p.freeze(false, ID, B)), Error::NoPermission);
    assert_eq!(err(p.freeze(true, ID, C)), Error::BalanceZero);
    let rc = p.freeze(true, ID, B).unwrap();
    assert_eq!(rc.event, Event::Frozen(ID, B));
    assert!(p.account(ID, B).unwrap().is_frozen);
    assert_eq!(err(p.transfer(B, ID, C, 20, false, false)), Error::Frozen);
    let rc = p.thaw(true, ID, B).unwrap();
    assert_eq!(rc.event, Event::Thawed(ID, B));
    assert_eq!(err(p.freeze_asset(true, 9)), Error::Unknown);
    assert_eq!(err(p.freeze_asset(false, ID)), Error::NoPermission);
    let rc = p.freeze_asset(true, ID).unwrap();
    assert_eq!(rc.event, Event::AssetFrozen(ID));
    assert_eq!(err(p.transfer(B, ID, C, 20, false, false)), Error::Frozen);
    let rc = p.thaw_asset(true, ID).unwrap();
    assert_eq!(rc.event, Event::AssetThawed(ID));
    p.transfer(B, ID, C, 20, false, false).unwrap();
    assert_eq!(p.balance(ID, C), 20);
}

#[test]
fn transfer_errors() {
    let mut p = with_class();
    p.mint(true, ID, B, 50, false).unwrap();
    assert_eq!(err(p.transfer(B, ID, C, 0, false, false)), Error::AmountZero);
    assert_eq!(err(p.transfer(B, ID, C, 51, false, false)), Error::BalanceLow);
    assert_eq!(err(p.transfer(C, ID, B, 1, false, false)), Error::BalanceLow);
    assert_eq!(err(p.transfer(B, 9, C, 1, false, false)), Error::BalanceLow);
    p.mint(true, ID, C, 20, false).unwrap();
    assert_eq!(err(p.transfer(B, ID, D, 20, false, false)), Error::TooManyZombies);
    assert_eq!(p.balance(ID, B), 50);
}

#[test]
fn mint_errors() {
    let mut p = with_class();
    assert_eq!(err(p.mint(true, 9, B, 50, false)), Error::Unknown);
    assert_eq!(err(p.mint(false, ID, B, 50, false)), Error::NoPermission);
    assert_eq!(err(p.mint(true, ID, B, 5, false)), Error::BalanceLow);
    p.mint(true, ID, B, u64::MAX - 10, false).unwrap();
    assert_eq!(err(p.mint(true, ID, C, 11, false)), Error::Overflow);
    assert_eq!(p.total_supply(ID), u64::MAX - 10);
}

#[test]
fn create_errors() {
    let mut p = with_class();
    assert_eq!(err(p.create(A, ID, 2, 10, 0x1, PLENTY)), Error::InUse);
    assert_eq!(err(p.create(A, 2, 2, 0, 0x1, PLENTY)), Error::MinBalanceZero);
    assert_eq!(err(p.create(A, 2, 2, 10, 0, PLENTY)), Error::BadFeaturePoint);
    assert_eq!(err(p.create(A, 2, 2, 10, 0x1, 119)), Error::InsufficientBalance);
    assert!(p.create(A, 2, 2, 10, 0x1, 120).is_ok());
    assert_eq!(err(p.force_create(ID, B, 2, 10, 7)), Error::InUse);
    assert_eq!(err(p.force_create(3, B, 2, 0, 7)), Error::MinBalanceZero);
}

#[test]
fn force_create_reserves_nothing() {
    let mut p = Pallet::new(config());
    let rc = p.force_create(ID, B, 3, 5, 0x1234_5678).unwrap();
    assert_eq!(rc.event, Event::ForceCreated(ID, B));
    assert!(rc.effects.is_empty());
    let d = p.asset_details(ID).unwrap();
    assert_eq!((d.owner, d.deposit, d.max_zombies, d.min_balance), (B, 0, 3, 5));
    assert_eq!(
        p.feature(ID),
        Some(AssetFeature { destiny: 1, elements: 0x5678, saturation: 0x34, lightness: 2 })
    );
    assert_eq!(p.zombie_allowance(ID), 3);
}

#[test]
fn feature_code_unpacks_fields() {
    let f = new_feature_detail(0xA7C3_1F2E);
    assert_eq!(f, AssetFeature { destiny: 0xA, elements: 0x1F2E, saturation: 0xC3, lightness: 0x7 });
    let p = with_class();
    assert_eq!(
        p.feature(ID),
        Some(AssetFeature { destiny: 0, elements: 1, saturation: 0, lightness: 0 })
    );
    assert_eq!(p.feature(2), None);
}

#[test]
fn deposit_formulas_saturate() {
    let cfg = config();
    assert_eq!(asset_deposit(&cfg, 0), 100);
    assert_eq!(asset_deposit(&cfg, 7), 170);
    assert_eq!(metadata_deposit(&cfg, 0), 50);
    assert_eq!(metadata_deposit(&cfg, 9), 59);
    let big = Config { asset_deposit_per_zombie: u64::MAX / 2, metadata_deposit_per_byte: u64::MAX, ..cfg };
    assert_eq!(asset_deposit(&big, 3), u64::MAX);
    assert_eq!(metadata_deposit(&big, 2), u64::MAX);
}

#[test]
fn transfer_ownership_moves_deposit() {
    let mut p = with_class();
    assert_eq!(err(p.transfer_ownership(B, ID, B, true)), Error::NoPermission);
    assert_eq!(err(p.transfer_ownership(A, 9, B, true)), Error::Unknown);
    let rc = p.transfer_ownership(A, ID, B, true).unwrap();
    assert_eq!(rc.event, Event::OwnerChanged(ID, B));
    assert_eq!(rc.effects, vec![Effect::Repatriate(A, B, 120)]);
    assert_eq!(p.asset_details(ID).unwrap().owner, B);
    assert_eq!(err(p.destroy(A, ID, 0)), Error::NoPermission);
}

#[test]
fn set_max_zombies_adjusts_deposit() {
    let mut p = with_class();
    p.mint(true, ID, B, 50, false).unwrap();
    assert_eq!(err(p.set_max_zombies(B, ID, 5, PLENTY)), Error::NoPermission);
    assert_eq!(err(p.set_max_zombies(A, ID, 0, PLENTY)), Error::TooManyZombies);
    assert_eq!(err(p.set_max_zombies(A, ID, 5, 29)), Error::InsufficientBalance);
    let rc = p.set_max_zombies(A, ID, 5, 30).unwrap();
    assert_eq!(rc.event, Event::MaxZombiesChanged(ID, 5));
    assert_eq!(rc.effects, vec![Effect::Reserve(A, 30)]);
    assert_eq!(p.asset_details(ID).unwrap().deposit, 150);
    let rc = p.set_max_zombies(A, ID, 1, 0).unwrap();
    assert_eq!(rc.effects, vec![Effect::Unreserve(A, 40)]);
    let d = p.asset_details(ID).unwrap();
    assert_eq!((d.max_zombies, d.deposit), (1, 110));
    assert_eq!(err(p.set_max_zombies(A, 9, 1, 0)), Error::Unknown);
}

#[test]
fn set_metadata_reserves_resizes_and_clears() {
    let mut p = with_class();
    assert_eq!(err(p.set_metadata(A, ID, vec![0; 9], vec![], 0, PLENTY)), Error::BadMetadata);
    assert_eq!(err(p.set_metadata(A, ID, vec![], vec![0; 9], 0, PLENTY)), Error::BadMetadata);
    assert_eq!(err(p.set_metadata(A, 9, vec![1], vec![2], 0, PLENTY)), Error::Unknown);
    assert_eq!(err(p.set_metadata(B, ID, vec![1], vec![2], 0, PLENTY)), Error::NoPermission);
    assert_eq!(err(p.set_metadata(A, ID, vec![1; 4], vec![2; 4], 6, 57)), Error::InsufficientBalance);
    let rc = p.set_metadata(A, ID, vec![1; 4], vec![2; 4], 6, 58).unwrap();
    assert_eq!(rc.event, Event::MetadataSet(ID, vec![1; 4], vec![2; 4], 6));
    assert_eq!(rc.effects, vec![Effect::Reserve(A, 58)]);
    let rc = p.set_metadata(A, ID, vec![1], vec![2], 6, 0).unwrap();
    assert_eq!(rc.effects, vec![Effect::Unreserve(A, 6)]);
    let rc = p.set_metadata(A, ID, vec![], vec![], 0, 0).unwrap();
    assert_eq!(rc.effects, vec![Effect::Unreserve(A, 52)]);
    let rc = p.set_metadata(A, ID, vec![], vec![], 0, 0).unwrap();
    assert_eq!(rc.effects, vec![Effect::Unreserve(A, 0)]);
    let rc = p.destroy(A, ID, 0).unwrap();
    assert_eq!(rc.effects, vec![Effect::Unreserve(A, 120)]);
}

#[test]
fn queries_on_absent_class() {
    let p = Pallet::new(config());
    assert_eq!(p.balance(ID, A), 0);
    assert_eq!(p.total_supply(ID), 0);
    assert_eq!(p.zombie_allowance(ID), 0);
    assert_eq!(p.feature(ID), None);
    assert_eq!(p.config(), config());
}

#[test]
fn counters_and_entries_stay_consistent() {
    let mut p = with_class();
    let holders = [B, C, D];
    let check = |p: &Pallet| {
        let d = p.asset_details(ID).unwrap();
        assert!(d.zombies <= d.max_zombies);
        assert!(d.zombies <= d.accounts);
        let mut accounts: u32 = 0;
        let mut zombies: u32 = 0;
        for who in holders {
            if let Some(a) = p.account(ID, who) {
                assert!(a.balance > 0);
                assert!(a.balance >= d.min_balance);
                accounts += 1;
                if a.is_zombie {
                    zombies += 1;
                }
            }
        }
        assert_eq!((d.accounts, d.zombies), (accounts, zombies));
    };
    p.mint(true, ID, B, 50, false).unwrap();
    check(&p);
    p.mint(true, ID, C, 30, true).unwrap();
    check(&p);
    p.transfer(B, ID, D, 25, false, false).unwrap();
    check(&p);
    p.transfer(C, ID, B, 25, true, true).unwrap();
    check(&p);
    p.burn(true, ID, D, 20).unwrap();
    check(&p);
    p.force_transfer(true, ID, B, C, 100, true, true).unwrap();
    check(&p);
    assert_eq!(p.balance(ID, C), 55);
    assert_eq!(p.total_supply(ID), 55);
}

#[test]
fn self_force_transfer_needs_admin() {
    let mut p = with_class();
    p.mint(true, ID, B, 50, false).unwrap();
    let before = (p.account(ID, B), p.asset_details(ID));
    assert_eq!(err(p.force_transfer(false, ID, B, B, 20, false, false)), Error::NoPermission);
    assert_eq!(err(p.force_transfer(true, 9, B, B, 20, false, false)), Error::AmountZero);
    assert_eq!((p.account(ID, B), p.asset_details(ID)), before);
    let rc = p.force_transfer(true, ID, B, B, 20, false, false).unwrap();
    assert_eq!(rc.event, Event::ForceTransferred(ID, B, B, 20));
    assert!(rc.effects.is_empty());
    assert_eq!((p.account(ID, B), p.asset_details(ID)), before);
}

#[test]
fn failed_deposit_move_keeps_owner() {
    let mut p = with_class();
    assert_eq!(err(p.transfer_ownership(A, ID, B, false)), Error::DepositNotMoved);
    assert_eq!(p.asset_details(ID).unwrap().owner, A);
    let rc = p.transfer_ownership(A, ID, A, false).unwrap();
    assert!(rc.effects.is_empty());
}
