use minecone::items::{DebugMiner, ItemProperties, ItemStack, ItemType, WeaponUseTime};

#[test]
fn a_weapon_starts_with_a_running_cooldown() {
    let mut weapon = WeaponUseTime::from_use_time(2);
    weapon.set_currently_using(true);
    assert!(weapon.currently_using());
    assert!(!weapon.try_use());
    assert!(!weapon.try_use());
    assert!(weapon.try_use());
}

#[test]
fn a_weapon_is_used_once_in_use_time_plus_one_ticks() {
    let mut weapon = WeaponUseTime::from_use_time(3);
    weapon.set_currently_using(true);
    let uses: Vec<bool> = (0..12).map(|_| weapon.try_use()).collect();
    assert_eq!(
        uses,
        vec![false, false, false, true, false, false, false, true, false, false, false, true]
    );
}

#[test]
fn a_weapon_that_is_not_in_use_stays_ready() {
    let mut weapon = WeaponUseTime::from_use_time(1);
    assert!(!weapon.currently_using());
    assert!(!weapon.try_use());
    assert!(!weapon.try_use());
    assert!(!weapon.try_use());
    weapon.set_currently_using(true);
    assert!(weapon.try_use());
    weapon.set_currently_using(false);
    assert!(!weapon.try_use());
    assert!(!weapon.try_use());
    weapon.set_currently_using(true);
    assert!(weapon.try_use());
}

#[test]
fn the_debug_miner_has_no_cooldown() {
    assert_eq!(DebugMiner::properties(), ItemProperties { use_time: 0 });
    assert_eq!(DebugMiner::item_type(), ItemType::DebugMiner);
    assert_eq!(ItemType::DebugMiner.properties().use_time, 0);
    let mut miner = WeaponUseTime::from_use_time(DebugMiner::properties().use_time);
    assert!(!miner.try_use());
    miner.set_currently_using(true);
    assert!(miner.try_use());
    assert!(miner.try_use());
    let stack = ItemStack { item: ItemType::DebugMiner, stack_size: 3 };
    assert_eq!(stack, ItemStack { item: DebugMiner::item_type(), stack_size: 3 });
}
