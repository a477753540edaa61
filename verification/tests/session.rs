use fishgame::codec::{decode, encode, PlayerSnapshot};
use fishgame::effects::{Effect, Tagged};
use fishgame::global_events::{in_claim_range, GlobalEvents, SPAWN_INTERVAL_MICROS};
use fishgame::message::{DeleteItem, Outgoing, SpawnItem};
use fishgame::nakama::{Event, MatchData};
use fishgame::pickups::{Pickup, PickupTable};
use fishgame::session::{
    Claimant, GameType, Inbound, LobbyState, LocalState, NakamaRealtimeGame,
};

fn join(id: &str) -> Event {
    Event::Join { network_id: id.to_string(), username: id.to_uppercase() }
}

fn data(from: &str, opcode: i32, data: Vec<u8>) -> MatchData {
    MatchData { data, opcode, user_id: from.to_string() }
}

fn deliver(to: &mut NakamaRealtimeGame, from: &str, out: &Outgoing) -> Vec<Effect> {
    to.handle_match_data(&data(from, out.opcode, out.data.clone()))
}

fn lobby(id: &str) -> NakamaRealtimeGame {
    NakamaRealtimeGame::new(GameType::LastFishStanding { private: false }, id.to_string())
}

fn local(x: u32, y: u32) -> LocalState {
    LocalState { x, y, facing: true, weapon: 0, dead: false }
}

fn ids(game: &NakamaRealtimeGame) -> Vec<String> {
    game.remote_players.peers.iter().map(|p| p.id.clone()).collect()
}

fn pickup_ids(game: &NakamaRealtimeGame) -> Vec<u32> {
    game.pickups.items.keys().copied().collect()
}

#[test]
fn a_deathmatch_is_started_from_the_outset() {
    let game = NakamaRealtimeGame::new(GameType::Deathmatch, "a".to_string());
    assert!(game.game_started());
    assert_eq!(game.lobby_state(), LobbyState::Started);
    assert!(game.is_host());
    assert_eq!(game.remote_players.len(), 0);
    assert_eq!(game.pickups.len(), 0);
}

#[test]
fn a_lobby_match_waits() {
    let game = lobby("a");
    assert!(!game.game_started());
    assert_eq!(game.lobby_state(), LobbyState::WaitingForReady);
    let private = NakamaRealtimeGame::new(
        GameType::LastFishStanding { private: true },
        "a".to_string(),
    );
    assert!(!private.game_started());
}

#[test]
fn end_to_end_spawn_and_claim() {
    let mut a = NakamaRealtimeGame::new(GameType::Deathmatch, "a".to_string());
    let mut b = NakamaRealtimeGame::new(GameType::Deathmatch, "b".to_string());
    for event in [join("a"), join("b")] {
        a.handle_presence(&event);
        b.handle_presence(&event);
    }
    assert_eq!(ids(&a), vec!["b"]);
    assert_eq!(ids(&b), vec!["a"]);
    assert!(a.is_host());
    assert!(!b.is_host());

    let mut spawner = GlobalEvents::new();
    let a_host = a.is_host();
    let a_started = a.game_started();
    let spawned = spawner
        .spawn(&mut a.pickups, SPAWN_INTERVAL_MICROS, a_host, a_started, 40, 50, 9)
        .unwrap();
    assert_eq!(spawned, SpawnItem { id: 1, x: 40, y: 50, item_type: 9 });
    let announce = a.spawn_item(spawned.id, spawned.x, spawned.y, spawned.item_type);
    assert_eq!(announce.opcode, 4);
    assert_eq!(deliver(&mut b, "a", &announce), vec![Effect::PickupSpawned { id: 1 }]);
    assert_eq!(pickup_ids(&a), vec![1]);
    assert_eq!(pickup_ids(&b), vec![1]);
    assert_eq!(b.pickups.get(1), Some(Pickup { x: 40, y: 50, item_type: 9 }));

    assert!(in_claim_range(45, 40, 40, 50));
    let claim = b.claim_item(1).unwrap();
    assert_eq!(claim.opcode, 5);
    assert_eq!(claim.data, (DeleteItem { id: 1 }).serialize_bin());
    assert_eq!(deliver(&mut a, "b", &claim), vec![Effect::PickupRemoved { id: 1 }]);
    assert_eq!(pickup_ids(&a), Vec::<u32>::new());
    assert_eq!(pickup_ids(&b), Vec::<u32>::new());

    let a_host = a.is_host();
    let next = spawner
        .spawn(&mut a.pickups, 2 * SPAWN_INTERVAL_MICROS, a_host, true, 1, 2, 3)
        .unwrap();
    assert_eq!(next.id, 2);
    assert_eq!(spawner.uid, 3);
}

#[test]
fn an_unknown_opcode_changes_nothing() {
    let mut game = lobby("a");
    game.handle_presence(&join("b"));
    game.handle_match_data(&data("b", 4, (SpawnItem { id: 3, x: 1, y: 1, item_type: 1 }).serialize_bin()));
    game.handle_match_data(&data("b", 6, vec![]));
    let peers = game.remote_players.peers.clone();
    let pickups = pickup_ids(&game);
    let cache = game.network_cache;
    for payload in [vec![], vec![1, 2, 3], vec![0; 64]] {
        let effects = game.handle_match_data(&data("b", 255, payload));
        assert_eq!(effects, vec![]);
    }
    assert_eq!(game.remote_players.peers, peers);
    assert_eq!(pickup_ids(&game), pickups);
    assert!(!game.game_started());
    assert!(!game.ready);
    assert_eq!(game.network_cache.sent_position, cache.sent_position);
    assert_eq!(game.network_cache.last_send_time, cache.last_send_time);
    assert_eq!(game.network_cache.flushed, cache.flushed);
}

#[test]
fn a_malformed_payload_is_dropped() {
    let mut game = lobby("a");
    game.handle_presence(&join("b"));
    let peers = game.remote_players.peers.clone();
    assert_eq!(game.handle_match_data(&data("b", 1, vec![1, 2, 3])), vec![]);
    assert_eq!(game.handle_match_data(&data("b", 2, vec![9, 0, 0, 0, 0, 0, 0, 0])), vec![]);
    assert_eq!(game.handle_match_data(&data("b", 4, vec![0; 15])), vec![]);
    assert_eq!(game.handle_match_data(&data("b", 5, vec![0; 3])), vec![]);
    assert_eq!(game.remote_players.peers, peers);
    assert_eq!(game.pickups.len(), 0);
}

#[test]
fn a_message_of_an_unknown_sender_is_dropped() {
    let mut game = lobby("a");
    game.handle_presence(&join("b"));
    let effects = game.handle_match_data(&data("stranger", 8, vec![]));
    assert_eq!(effects, vec![]);
    assert!(!game.game_started());
    let effects = game.handle_match_data(&data(
        "stranger",
        4,
        (SpawnItem { id: 1, x: 1, y: 1, item_type: 1 }).serialize_bin(),
    ));
    assert_eq!(effects, vec![]);
    assert_eq!(game.pickups.len(), 0);
}

#[test]
fn a_delete_received_twice_is_harmless() {
    let mut game = lobby("a");
    game.handle_presence(&join("b"));
    let spawn = (SpawnItem { id: 7, x: 1, y: 2, item_type: 3 }).serialize_bin();
    let other = (SpawnItem { id: 8, x: 1, y: 2, item_type: 3 }).serialize_bin();
    game.handle_match_data(&data("b", 4, spawn));
    game.handle_match_data(&data("b", 4, other));
    let delete = (DeleteItem { id: 7 }).serialize_bin();
    assert_eq!(
        game.handle_match_data(&data("b", 5, delete.clone())),
        vec![Effect::PickupRemoved { id: 7 }]
    );
    assert_eq!(pickup_ids(&game), vec![8]);
    assert_eq!(game.handle_match_data(&data("b", 5, delete)), vec![]);
    assert_eq!(pickup_ids(&game), vec![8]);
    assert!(game.claim_item(7).is_none());
    assert_eq!(pickup_ids(&game), vec![8]);
}

#[test]
fn a_spawn_under_a_live_identifier_replaces_the_object() {
    let mut game = lobby("a");
    game.handle_presence(&join("b"));
    let first = (SpawnItem { id: 7, x: 1, y: 2, item_type: 3 }).serialize_bin();
    let second = (SpawnItem { id: 7, x: 4, y: 5, item_type: 6 }).serialize_bin();
    assert_eq!(
        game.handle_match_data(&data("b", 4, first)),
        vec![Effect::PickupSpawned { id: 7 }]
    );
    assert_eq!(
        game.handle_match_data(&data("b", 4, second)),
        vec![Effect::PickupReplaced { id: 7 }, Effect::PickupSpawned { id: 7 }]
    );
    assert_eq!(game.pickups.len(), 1);
    assert_eq!(game.pickups.get(7), Some(Pickup { x: 4, y: 5, item_type: 6 }));
}

#[test]
fn a_state_message_moves_the_mirror() {
    let mut game = lobby("a");
    game.handle_presence(&join("b"));
    let s = PlayerSnapshot { x: 345, y: 567, facing: false, shooting: true, weapon: 11, dead: false };
    let effects = game.handle_match_data(&data("b", 1, encode(&s).to_vec()));
    assert_eq!(effects, vec![Effect::WeaponPicked { item_type: 11 }, Effect::RemoteShot]);
    let mirror = game.remote_players.get(&"b".to_string()).unwrap();
    assert_eq!(mirror.state, s);
    assert_eq!(mirror.pos(), (345, 567));
    assert_eq!(mirror.weapon(), Some(11));
}

#[test]
fn a_hit_on_the_local_player_kills_it() {
    let mut game = lobby("a");
    game.handle_presence(&join("b"));
    let hit_me = game.kill("a", true);
    let hit_other = game.kill("c", false);
    assert_eq!(hit_me.opcode, 2);
    assert_eq!(hit_me.data, vec![1, 0, 0, 0, 0, 0, 0, 0, b'a', 1]);
    assert_eq!(deliver(&mut game, "b", &hit_me), vec![Effect::LocalKilled { direction: true }]);
    assert_eq!(deliver(&mut game, "b", &hit_other), vec![]);
}

#[test]
fn own_join_is_ignored_and_a_new_peer_flushes_the_cache() {
    let mut game = lobby("me");
    let out = game.poll_state(&local(1, 2), 10).unwrap();
    assert_eq!(out.opcode, 1);
    assert!(game.poll_state(&local(1, 2), 20).is_none());
    game.handle_presence(&join("me"));
    assert_eq!(game.remote_players.len(), 0);
    assert!(game.poll_state(&local(1, 2), 30).is_none());
    game.handle_presence(&join("other"));
    assert_eq!(ids(&game), vec!["other"]);
    assert!(game.network_cache.flushed);
    assert!(game.poll_state(&local(1, 2), 40).is_some());
    assert!(game.poll_state(&local(1, 2), 50).is_none());
    game.handle_presence(&join("other"));
    assert!(game.poll_state(&local(1, 2), 60).is_none());
}

#[test]
fn a_leaver_is_destroyed_where_it_stood() {
    let mut game = lobby("a");
    game.handle_presence(&join("b"));
    game.handle_presence(&join("c"));
    let s = PlayerSnapshot { x: 9, y: 8, facing: true, shooting: false, weapon: 0, dead: false };
    game.handle_match_data(&data("c", 1, encode(&s).to_vec()));
    assert_eq!(
        game.handle_presence(&Event::Leave("c".to_string())),
        vec![Effect::PeerDestroyed { x: 9, y: 8 }]
    );
    assert_eq!(ids(&game), vec!["b"]);
    assert_eq!(game.handle_presence(&Event::Leave("c".to_string())), vec![]);
    assert_eq!(
        game.handle_presence(&Event::Leave("b".to_string())),
        vec![Effect::PeerDestroyed { x: 100, y: 105 }]
    );
    assert!(game.is_host());
}

#[test]
fn a_shot_is_sent_at_once_and_only_once() {
    let mut game = lobby("a");
    let first = game.poll_state(&local(5, 6), 100).unwrap();
    assert!(!decode(&first.data.clone().try_into().unwrap()).shooting);
    game.shoot();
    let shot = game.poll_state(&local(5, 6), 101).unwrap();
    let snapshot = decode(&shot.data.clone().try_into().unwrap());
    assert!(snapshot.shooting);
    assert_eq!((snapshot.x, snapshot.y), (5, 6));
    assert!(!game.shoot_pending);
    let after = game.poll_state(&local(5, 6), 102).unwrap();
    assert!(!decode(&after.data.clone().try_into().unwrap()).shooting);
    assert!(game.poll_state(&local(5, 6), 103).is_none());
}

#[test]
fn the_lobby_handshake() {
    let mut a = lobby("a");
    let mut b = lobby("b");
    for event in [join("a"), join("b")] {
        a.handle_presence(&event);
        b.handle_presence(&event);
    }
    assert!(!a.everyone_ready());
    assert!(!a.can_start());
    assert!(a.start_match().is_none());

    let ready_a = a.set_ready().unwrap();
    assert_eq!(ready_a.opcode, 6);
    assert_eq!(ready_a.data, Vec::<u8>::new());
    assert!(a.set_ready().is_none());
    deliver(&mut b, "a", &ready_a);
    assert!(!a.can_start());

    let ready_b = b.set_ready().unwrap();
    deliver(&mut a, "b", &ready_b);
    assert!(a.everyone_ready());
    assert!(b.everyone_ready());
    assert!(a.can_start());
    assert!(!b.can_start());
    assert!(b.start_match().is_none());
    assert!(!b.game_started());

    let start = a.start_match().unwrap();
    assert_eq!(start.opcode, 8);
    assert!(a.game_started());
    assert!(a.start_match().is_none());
    deliver(&mut b, "a", &start);
    assert!(b.game_started());
    assert_eq!(b.lobby_state(), LobbyState::Started);
}

#[test]
fn nobody_starts_a_match_alone_or_a_deathmatch() {
    let mut alone = lobby("a");
    alone.set_ready();
    assert!(alone.is_host());
    assert!(!alone.can_start());
    let mut dm = NakamaRealtimeGame::new(GameType::Deathmatch, "a".to_string());
    dm.handle_presence(&join("b"));
    dm.set_ready();
    dm.handle_match_data(&data("b", 6, vec![]));
    assert!(dm.everyone_ready());
    assert!(!dm.can_start());
}

#[test]
fn a_start_message_is_trusted_from_any_known_peer() {
    let mut a = lobby("a");
    a.handle_presence(&join("b"));
    assert!(a.is_host());
    a.handle_match_data(&data("b", 8, vec![]));
    assert!(a.game_started());
}

#[test]
fn one_tick_sends_and_handles_in_order() {
    let mut game = lobby("a");
    let spawn = (SpawnItem { id: 1, x: 2, y: 3, item_type: 4 }).serialize_bin();
    let delete = (DeleteItem { id: 1 }).serialize_bin();
    let inbound = vec![
        Inbound::Data(data("b", 4, spawn.clone())),
        Inbound::Presence(join("b")),
        Inbound::Data(data("b", 4, spawn)),
        Inbound::Data(data("b", 255, vec![1])),
        Inbound::Data(data("b", 5, delete.clone())),
        Inbound::Data(data("b", 5, delete)),
        Inbound::Presence(Event::Leave("b".to_string())),
    ];
    let (sent, effects) = game.update(&local(3, 4), 77, &inbound);
    let sent = sent.unwrap();
    assert_eq!(sent.opcode, 1);
    assert_eq!(sent.data, encode(&PlayerSnapshot {
        x: 3,
        y: 4,
        facing: true,
        shooting: false,
        weapon: 0,
        dead: false,
    }));
    assert_eq!(
        effects,
        vec![
            Tagged { event: 2, effect: Effect::PickupSpawned { id: 1 } },
            Tagged { event: 4, effect: Effect::PickupRemoved { id: 1 } },
            Tagged { event: 6, effect: Effect::PeerDestroyed { x: 100, y: 105 } },
        ]
    );
    assert_eq!(game.remote_players.len(), 0);
    assert_eq!(game.pickups.len(), 0);
    assert!(game.network_cache.flushed);
    let (sent, effects) = game.update(&local(3, 4), 78, &vec![]);
    assert!(sent.is_some());
    assert_eq!(effects, vec![]);
    let (sent, _) = game.update(&local(3, 4), 79, &vec![]);
    assert!(sent.is_none());
}

#[test]
fn the_idle_message_is_empty() {
    let game = lobby("a");
    let idle = game.idle();
    assert_eq!(idle.opcode, 7);
    assert_eq!(idle.data, Vec::<u8>::new());
}

#[test]
fn the_last_one_alive_wins() {
    let mut game = lobby("a");
    game.handle_presence(&join("b"));
    game.handle_presence(&join("c"));
    assert_eq!(game.alive_enemies(), 2);
    assert_eq!(game.outcome(false), None);
    game.handle_match_data(&data("b", 8, vec![]));
    assert_eq!(game.outcome(false), None);
    assert_eq!(game.outcome(true), Some(false));
    let dead = PlayerSnapshot { x: 1, y: 1, facing: true, shooting: false, weapon: 0, dead: true };
    game.handle_match_data(&data("b", 1, encode(&dead).to_vec()));
    assert_eq!(game.alive_enemies(), 1);
    assert_eq!(game.outcome(false), None);
    game.handle_match_data(&data("c", 1, encode(&dead).to_vec()));
    assert_eq!(game.alive_enemies(), 0);
    assert_eq!(game.outcome(false), Some(true));
    assert_eq!(game.outcome(true), Some(true));
    let dm = NakamaRealtimeGame::new(GameType::Deathmatch, "a".to_string());
    assert_eq!(dm.outcome(true), None);
}

#[test]
fn the_host_spawns_on_its_interval_up_to_the_cap() {
    let mut live = PickupTable::new();
    let mut spawner = GlobalEvents::new();
    assert_eq!(spawner.uid, 1);
    assert!(!spawner.should_spawn(&live, SPAWN_INTERVAL_MICROS - 1, true, true));
    assert!(spawner.should_spawn(&live, SPAWN_INTERVAL_MICROS, true, true));
    assert!(!spawner.should_spawn(&live, SPAWN_INTERVAL_MICROS, false, true));
    assert!(!spawner.should_spawn(&live, SPAWN_INTERVAL_MICROS, true, false));
    assert!(spawner.spawn(&mut live, 5, true, true, 1, 1, 1).is_none());
    assert_eq!(spawner, GlobalEvents::new());

    let mut now = 0;
    for expected in 1..=3u32 {
        now += SPAWN_INTERVAL_MICROS;
        let m = spawner.spawn(&mut live, now, true, true, 10, 20, 30).unwrap();
        assert_eq!(m, SpawnItem { id: expected, x: 10, y: 20, item_type: 30 });
        assert_eq!(spawner.last_spawn_time, now);
    }
    assert_eq!(live.len(), 3);
    now += SPAWN_INTERVAL_MICROS;
    assert!(spawner.spawn(&mut live, now, true, true, 1, 1, 1).is_none());
    assert_eq!(spawner.uid, 4);
    live.delete(2);
    assert_eq!(spawner.spawn(&mut live, now, true, true, 1, 1, 1).unwrap().id, 4);
    assert!(live.contains(1) && !live.contains(2) && live.contains(3) && live.contains(4));
}

#[test]
fn identifiers_run_out_rather_than_repeat() {
    let mut live = PickupTable::new();
    let mut spawner = GlobalEvents { last_spawn_time: 0, uid: u32::MAX };
    assert!(spawner.spawn(&mut live, SPAWN_INTERVAL_MICROS, true, true, 1, 1, 1).is_none());
    assert_eq!(live.len(), 0);
}

#[test]
fn an_avatar_claims_what_is_nearer_than_ninety() {
    assert!(in_claim_range(100, 100, 100, 116));
    assert!(in_claim_range(100, 100, 189, 116));
    assert!(!in_claim_range(100, 100, 190, 116));
    assert!(in_claim_range(189, 100, 100, 116));
    assert!(!in_claim_range(190, 100, 100, 116));
    assert!(in_claim_range(100, 189, 100, 116));
    assert!(!in_claim_range(100, 100, 100, 206));
    assert!(in_claim_range(100, 100, 100, 205));
    assert!(in_claim_range(0, 0, 63, 79));
    assert!(!in_claim_range(0, 0, 64, 80));
    assert!(!in_claim_range(u32::MAX, u32::MAX, 0, 0));
    assert!(!in_claim_range(0, 0, u16::MAX, u16::MAX));
}

#[test]
fn the_local_player_claims_before_a_mirror_does() {
    let mut game = lobby("a");
    game.handle_presence(&join("b"));
    let at = |x: u32, y: u32| {
        encode(&PlayerSnapshot { x, y, facing: true, shooting: false, weapon: 0, dead: false })
            .to_vec()
    };
    let pickup = Pickup { x: 500, y: 516, item_type: 1 };
    game.handle_match_data(&data("b", 1, at(900, 500)));
    assert_eq!(game.claimant_of(&local(100, 500), &pickup), None);
    assert_eq!(game.claimant_of(&local(450, 500), &pickup), Some(Claimant::Local));
    game.handle_match_data(&data("b", 1, at(520, 500)));
    assert_eq!(game.claimant_of(&local(100, 500), &pickup), Some(Claimant::Remote));
    assert_eq!(game.claimant_of(&local(450, 500), &pickup), Some(Claimant::Local));
    game.handle_presence(&Event::Leave("b".to_string()));
    assert_eq!(game.claimant_of(&local(100, 500), &pickup), None);
}

#[test]
fn deliveries_are_handled_by_their_kind() {
    let mut game = lobby("a");
    assert_eq!(game.handle(&Inbound::Presence(join("b"))), vec![]);
    assert_eq!(ids(&game), vec!["b"]);
    assert_eq!(game.handle(&Inbound::Data(data("b", 6, vec![]))), vec![]);
    assert!(game.remote_players.get(&"b".to_string()).unwrap().ready);
    assert_eq!(
        game.handle(&Inbound::Presence(Event::Leave("b".to_string()))),
        vec![Effect::PeerDestroyed { x: 100, y: 105 }]
    );
}

#[test]
fn a_sweep_claims_every_object_in_reach_in_ascending_order() {
    let mut game = lobby("a");
    game.handle_presence(&join("b"));
    let at = |x: u32, y: u32| {
        encode(&PlayerSnapshot { x, y, facing: true, shooting: false, weapon: 0, dead: false })
            .to_vec()
    };
    game.handle_match_data(&data("b", 1, at(800, 500)));
    for (id, x) in [(9u32, 100u16), (3, 820), (7, 400), (5, 110), (1, 790)] {
        let spawn = (SpawnItem { id, x, y: 516, item_type: 2 }).serialize_bin();
        game.handle_match_data(&data("b", 4, spawn));
    }
    let peers = game.remote_players.peers.clone();
    let sent = game.claim_sweep(&local(105, 500));
    let expected: Vec<Outgoing> = [1u32, 3, 5, 9]
        .iter()
        .map(|id| Outgoing { opcode: 5, data: (DeleteItem { id: *id }).serialize_bin() })
        .collect();
    assert_eq!(sent, expected);
    assert_eq!(pickup_ids(&game), vec![7]);
    assert_eq!(game.pickups.get(7), Some(Pickup { x: 400, y: 516, item_type: 2 }));
    assert_eq!(game.remote_players.peers, peers);
    assert!(!game.game_started());

    assert_eq!(game.claim_sweep(&local(105, 500)), vec![]);
    assert_eq!(pickup_ids(&game), vec![7]);
    assert_eq!(game.claim_sweep(&local(400, 500)).len(), 1);
    assert_eq!(game.pickups.len(), 0);
    assert_eq!(game.claim_sweep(&local(400, 500)), vec![]);
}
