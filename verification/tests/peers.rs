use fishgame::codec::PlayerSnapshot;
use fishgame::effects::Effect;
use fishgame::host::is_host;
use fishgame::ident::{id_before, id_same};
use fishgame::peers::{PeerDirectory, RemotePlayer};

fn ids_of(d: &PeerDirectory) -> Vec<String> {
    let mut v = Vec::new();
    let mut i = 0;
    while let Some(p) = d.get_at(i) {
        v.push(p.id.clone());
        i += 1;
    }
    v
}

#[test]
fn identifiers_are_ordered_by_their_bytes() {
    let s = |t: &str| t.to_string();
    assert!(id_before(&s("a"), &s("b")));
    assert!(!id_before(&s("b"), &s("a")));
    assert!(!id_before(&s("a"), &s("a")));
    assert!(id_before(&s(""), &s("a")));
    assert!(id_before(&s("a"), &s("aa")));
    assert!(id_before(&s("Z"), &s("a")));
    assert!(id_before(&s("10"), &s("9")));
    assert!(id_before(&s("z"), &s("é")));
    assert!(id_same(&s("abc"), &s("abc")));
    assert!(!id_same(&s("abc"), &s("abd")));
}

#[test]
fn a_fresh_mirror_stands_at_the_spawn_point() {
    let p = RemotePlayer::new("Ann", "id-1");
    assert_eq!(p.username, "Ann");
    assert_eq!(p.id, "id-1");
    assert_eq!(p.pos(), (100, 105));
    assert_eq!(p.weapon(), None);
    assert!(!p.dead);
    assert!(!p.ready);
    assert!(p.state.facing);
}

#[test]
fn mirror_setters_change_one_thing() {
    let mut p = RemotePlayer::new("Ann", "a");
    p.set_pos(3, 4);
    assert_eq!(p.pos(), (3, 4));
    p.set_facing(false);
    assert!(!p.state.facing);
    p.pick_weapon(77);
    assert_eq!(p.weapon(), Some(77));
    p.disarm();
    assert_eq!(p.weapon(), None);
    p.set_dead(true);
    assert!(p.dead);
    assert_eq!(p.pos(), (3, 4));
    assert_eq!(p.username, "Ann");
}

#[test]
fn the_directory_is_kept_in_ascending_order() {
    let mut d = PeerDirectory::new();
    assert_eq!(d.len(), 0);
    assert!(d.on_join("m", "M"));
    assert!(d.on_join("c", "C"));
    assert!(d.on_join("x", "X"));
    assert!(d.on_join("a", "A"));
    assert!(d.on_join("n", "N"));
    assert_eq!(ids_of(&d), vec!["a", "c", "m", "n", "x"]);
    assert_eq!(d.len(), 5);
    assert_eq!(d.find(&"m".to_string()), Some(2));
    assert_eq!(d.find(&"b".to_string()), None);
    assert!(d.contains(&"x".to_string()));
    assert_eq!(d.get(&"n".to_string()).unwrap().username, "N");
    assert!(d.get(&"zz".to_string()).is_none());
    assert!(d.get_at(5).is_none());
}

#[test]
fn a_second_join_of_the_same_identifier_changes_nothing() {
    let mut d = PeerDirectory::new();
    assert!(d.on_join("a", "first"));
    assert!(!d.on_join("a", "second"));
    assert_eq!(d.len(), 1);
    assert_eq!(d.get(&"a".to_string()).unwrap().username, "first");
}

#[test]
fn leaving_removes_the_mirror_and_returns_it() {
    let mut d = PeerDirectory::new();
    d.on_join("b", "B");
    d.on_join("a", "A");
    d.on_join("c", "C");
    let gone = d.on_leave(&"b".to_string()).unwrap();
    assert_eq!(gone.id, "b");
    assert_eq!(gone.username, "B");
    assert_eq!(ids_of(&d), vec!["a", "c"]);
    assert!(d.on_leave(&"b".to_string()).is_none());
    assert_eq!(ids_of(&d), vec!["a", "c"]);
}

#[test]
fn alone_one_is_host() {
    let d = PeerDirectory::new();
    assert!(is_host(&"zzz".to_string(), &d));
}

#[test]
fn the_smallest_identifier_is_host() {
    let mut d = PeerDirectory::new();
    d.on_join("m", "M");
    d.on_join("k", "K");
    assert!(is_host(&"a".to_string(), &d));
    assert!(is_host(&"j".to_string(), &d));
    assert!(!is_host(&"l".to_string(), &d));
    assert!(!is_host(&"z".to_string(), &d));
}

#[test]
fn peers_with_the_same_membership_agree_on_one_host() {
    let members = ["delta", "alpha", "charlie", "bravo"];
    let mut hosts = Vec::new();
    for me in members {
        let mut d = PeerDirectory::new();
        for other in members.iter().rev() {
            if *other != me {
                d.on_join(other, other);
            }
        }
        if is_host(&me.to_string(), &d) {
            hosts.push(me);
        }
    }
    assert_eq!(hosts, vec!["alpha"]);
}

#[test]
fn a_smaller_joiner_takes_the_host_from_the_former_host_only() {
    let members = ["b", "c", "d"];
    for me in members {
        let mut d = PeerDirectory::new();
        for other in members {
            if other != me {
                d.on_join(other, other);
            }
        }
        let before = is_host(&me.to_string(), &d);
        d.on_join("a", "a");
        let after = is_host(&me.to_string(), &d);
        assert_eq!(before, me == "b");
        assert!(!after);
    }
    let mut d = PeerDirectory::new();
    for other in members {
        d.on_join(other, other);
    }
    assert!(is_host(&"a".to_string(), &d));
}

#[test]
fn a_snapshot_is_taken_over_and_its_effects_are_listed() {
    let mut p = RemotePlayer::new("Ann", "a");
    let s = PlayerSnapshot { x: 10, y: 20, facing: false, shooting: true, weapon: 5, dead: false };
    let effects = p.apply_state(&s);
    assert_eq!(effects, vec![Effect::WeaponPicked { item_type: 5 }, Effect::RemoteShot]);
    assert_eq!(p.state, s);
    assert!(!p.dead);

    let s = PlayerSnapshot { x: 11, y: 21, facing: true, shooting: false, weapon: 0, dead: true };
    let effects = p.apply_state(&s);
    assert_eq!(
        effects,
        vec![Effect::Explosion { x: 11, y: 21 }, Effect::Disarmed { x: 11, y: 21 }]
    );
    assert!(p.dead);
    assert_eq!(p.weapon(), None);

    let effects = p.apply_state(&s);
    assert_eq!(effects, vec![]);
}

#[test]
fn a_changed_weapon_is_picked_without_a_disarm() {
    let mut p = RemotePlayer::new("Ann", "a");
    p.pick_weapon(5);
    let s = PlayerSnapshot { x: 1, y: 2, facing: true, shooting: false, weapon: 6, dead: false };
    assert_eq!(p.apply_state(&s), vec![Effect::WeaponPicked { item_type: 6 }]);
    assert_eq!(p.weapon(), Some(6));
}

#[test]
fn identifiers_are_listed_in_ascending_order() {
    let mut d = PeerDirectory::new();
    for id in ["q", "b", "z", "a"] {
        d.on_join(id, "name");
    }
    assert_eq!(d.ids_in_order(), vec!["a", "b", "q", "z"]);
    assert_eq!(PeerDirectory::new().ids_in_order(), Vec::<String>::new());
}

#[test]
fn mirrors_are_changed_in_place() {
    let mut d = PeerDirectory::new();
    d.on_join("b", "B");
    d.on_join("a", "A");
    d.mark_ready_at(1);
    assert!(!d.get_at(0).unwrap().ready);
    assert!(d.get_at(1).unwrap().ready);
    let s = PlayerSnapshot { x: 4, y: 5, facing: false, shooting: false, weapon: 0, dead: false };
    assert_eq!(d.apply_state_at(0, &s), vec![]);
    assert_eq!(d.get_at(0).unwrap().state, s);
    assert_eq!(d.get_at(1).unwrap().pos(), (100, 105));
    assert_eq!(d.ids_in_order(), vec!["a", "b"]);
}
