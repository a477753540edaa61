use fishgame::nakama::{
    add_leaderboard_win, add_matchmaker, async_in_progress, authenticate, authenticated, connect,
    create_private_match, error, events, join_match, leaderboard_records, leave_match,
    load_leaderboard_records, logout, match_id, register, self_id, send_bin, try_recv, username,
    Event,
};

#[test]
fn the_desktop_transport_is_never_connected() {
    connect("key", "server", 7350, "http");
    authenticate("a@b.c", "password");
    register("a@b.c", "password", "name");
    assert!(!authenticated());
    assert!(!async_in_progress());
    assert_eq!(self_id(), "self");
    assert_eq!(username(), None);
    assert_eq!(match_id(), None);
    assert_eq!(error(), Some("Nakama on desktop is not supported.".to_string()));
    create_private_match();
    add_matchmaker();
    join_match("match");
    send_bin(1, &[1, 2, 3]);
    assert_eq!(try_recv(), None);
    assert_eq!(events(), None);
    add_leaderboard_win();
    load_leaderboard_records();
    assert_eq!(leaderboard_records(), None);
    leave_match();
    logout();
}

#[test]
fn presence_kinds_are_join_and_leave() {
    assert_eq!(
        Event::from_kind(1, "id".to_string(), "name".to_string()),
        Some(Event::Join { network_id: "id".to_string(), username: "name".to_string() })
    );
    assert_eq!(
        Event::from_kind(2, "id".to_string(), "name".to_string()),
        Some(Event::Leave("id".to_string()))
    );
    assert_eq!(Event::from_kind(0, "id".to_string(), String::new()), None);
    assert_eq!(Event::from_kind(3, "id".to_string(), String::new()), None);
}
