use fishgame::items::{
    GameAction, GunState, ItemState, Items, Sound, SwordState, GUN, RECOVERY_MICROS, SWORD,
};
use fishgame::plugin_api::{ItemIdSource, ItemInstanceId, ItemType, PluginId};

#[test]
fn identifiers_keep_their_numbers() {
    assert_eq!(u64::from(ItemType::new(5)), 5);
    assert_eq!(ItemType::from(9), ItemType::new(9));
    let n: u64 = ItemType::new(4).into();
    assert_eq!(n, 4);
    assert_eq!(ItemType::new(5), ItemType { id: 5 });
    assert_eq!(ItemInstanceId::new(6).id, 6);
    assert_eq!(PluginId::new(7).id, 7);
    assert_eq!(ItemType::weapon_code(None), 0);
    assert_eq!(ItemType::weapon_code(Some(ItemType::new(GUN))), GUN);
}

#[test]
fn instance_numbers_count_up_from_one() {
    let mut source = ItemIdSource::default();
    assert_eq!(source.next_id(), ItemInstanceId::new(1));
    assert_eq!(source.next_id(), ItemInstanceId::new(2));
    assert_eq!(source.next_id(), ItemInstanceId::new(3));
}

#[test]
fn a_gun_fires_three_times_and_is_dropped() {
    let mut gun = ItemState::Gun(GunState::default());
    let mut now = 1_000;
    for left in [2u32, 1, 0] {
        let (done, actions) = gun.update_shoot(now);
        assert!(!done);
        assert_eq!(
            actions,
            vec![
                GameAction::PlaySoundOnce(Sound::Shoot),
                GameAction::SpawnBullet,
                GameAction::NakamaShoot,
                GameAction::SetSpriteFx(true),
                GameAction::Throwback,
                GameAction::SetSpriteAnimation(1),
            ]
        );
        assert_eq!(
            gun,
            ItemState::Gun(GunState { recovery_time: Some(now + RECOVERY_MICROS), ammo: left })
        );
        let (done, actions) = gun.update_shoot(now + RECOVERY_MICROS - 1);
        assert!(!done);
        assert_eq!(actions, vec![]);
        now += RECOVERY_MICROS;
        let (done, actions) = gun.update_shoot(now);
        assert!(done);
        let mut expected = vec![GameAction::SetSpriteAnimation(0), GameAction::SetSpriteFx(false)];
        if left == 0 {
            expected.push(GameAction::Disarm);
        }
        assert_eq!(actions, expected);
        assert_eq!(gun, ItemState::Gun(GunState { recovery_time: None, ammo: left }));
    }
}

#[test]
fn a_sword_swings_and_hits_while_it_swings() {
    let mut sword = ItemState::Sword(SwordState::default());
    let (done, actions) = sword.update_shoot(50);
    assert!(!done);
    assert_eq!(actions, vec![GameAction::SetSpriteAnimation(1)]);
    assert_eq!(sword, ItemState::Sword(SwordState { recovery_time: Some(50 + 240_000) }));
    let (done, actions) = sword.update_shoot(51);
    assert!(!done);
    assert_eq!(
        actions,
        vec![
            GameAction::NakamaShoot,
            GameAction::PlaySoundOnce(Sound::Sword),
            GameAction::SwordHit,
        ]
    );
    let (done, actions) = sword.update_shoot(50 + 240_000);
    assert!(done);
    assert_eq!(actions, vec![GameAction::SetSpriteAnimation(0)]);
    assert_eq!(sword, ItemState::Sword(SwordState { recovery_time: None }));
}

#[test]
fn a_mirrored_gun_just_fires() {
    let mut gun = ItemState::Gun(GunState { recovery_time: None, ammo: 0 });
    let (done, actions) = gun.update_remote_shoot(5);
    assert!(done);
    assert_eq!(actions, vec![GameAction::SpawnBullet, GameAction::PlaySoundOnce(Sound::Shoot)]);
    assert_eq!(gun, ItemState::Gun(GunState { recovery_time: None, ammo: 0 }));
}

#[test]
fn a_mirrored_sword_swings_without_hitting() {
    let mut sword = ItemState::Sword(SwordState::default());
    let (done, actions) = sword.update_remote_shoot(10);
    assert!(!done);
    assert_eq!(
        actions,
        vec![GameAction::PlaySoundOnce(Sound::Sword), GameAction::SetSpriteAnimation(1)]
    );
    let (done, actions) = sword.update_remote_shoot(11);
    assert!(!done);
    assert_eq!(actions, vec![]);
    let (done, actions) = sword.update_remote_shoot(10 + RECOVERY_MICROS);
    assert!(done);
    assert_eq!(actions, vec![GameAction::SetSpriteAnimation(0)]);
}

#[test]
fn recovery_does_not_run_past_the_end_of_time() {
    let mut sword = ItemState::Sword(SwordState::default());
    sword.update_shoot(u64::MAX - 5);
    assert_eq!(sword, ItemState::Sword(SwordState { recovery_time: Some(u64::MAX) }));
}

#[test]
fn items_are_kept_by_instance_number() {
    let mut items = Items::new();
    let gun = ItemInstanceId::new(1);
    let sword = ItemInstanceId::new(2);
    let nothing = ItemInstanceId::new(3);
    items.new_instance(ItemType::new(GUN), gun);
    items.new_instance(ItemType::new(SWORD), sword);
    assert_eq!(items.get(gun), Some(ItemState::Gun(GunState { recovery_time: None, ammo: 3 })));
    assert_eq!(items.get(sword), Some(ItemState::Sword(SwordState { recovery_time: None })));
    assert_eq!(items.get(nothing), None);
    assert_eq!(items.uses_remaining(gun), Some((3, 3)));
    assert_eq!(items.uses_remaining(sword), None);
    assert_eq!(items.uses_remaining(nothing), None);

    let (done, actions) = items.update_shoot(gun, 100);
    assert!(!done);
    assert_eq!(actions.len(), 6);
    assert_eq!(items.uses_remaining(gun), Some((2, 3)));
    let (done, actions) = items.update_shoot(nothing, 100);
    assert!(done);
    assert_eq!(actions, vec![]);
    let (done, _) = items.update_remote_shoot(sword, 100);
    assert!(!done);
    assert_eq!(
        items.get(sword),
        Some(ItemState::Sword(SwordState { recovery_time: Some(100 + RECOVERY_MICROS) }))
    );
    let (done, actions) = items.update_remote_shoot(nothing, 100);
    assert!(done);
    assert_eq!(actions, vec![]);

    items.destroy_instance(gun);
    assert_eq!(items.get(gun), None);
    items.destroy_instance(gun);
    assert_eq!(items.get(sword).is_some(), true);
}
