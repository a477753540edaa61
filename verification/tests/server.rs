use fishgame::server::{disconnect, handle_message, players_message, ClientState, Outcome, World};
use fishgame::shared::{Handshake, Message, MAGIC, PROTOCOL_VERSION};
use fishgame::wire::DecodeError;

#[test]
fn the_handshake_is_twelve_little_endian_bytes() {
    assert_eq!(MAGIC, 16727391561867853824);
    assert_eq!(PROTOCOL_VERSION, 2);
    let h = Handshake::current();
    assert_eq!(h, Handshake { magic: MAGIC, version: 2 });
    let bytes = h.serialize_bin();
    assert_eq!(bytes, vec![0, 0, 0, 0, 0, 162, 35, 232, 2, 0, 0, 0]);
    assert_eq!(Handshake::deserialize_bin(&bytes), Ok(h));
    assert_eq!(Handshake::deserialize_bin(&bytes[..11]), Err(DecodeError::Truncated));
    assert!(h.is_accepted());
    assert!(!(Handshake { magic: MAGIC + 1, version: 2 }).is_accepted());
    assert!(!(Handshake { magic: MAGIC, version: 3 }).is_accepted());
}

#[test]
fn messages_have_a_two_byte_variant_number() {
    assert_eq!(Message::Move(0x0102, 3).serialize_bin(), vec![0, 0, 2, 1, 3]);
    assert_eq!(
        Message::Players(vec![(1, 2), (0x0304, 5)]).serialize_bin(),
        vec![1, 0, 2, 0, 0, 0, 0, 0, 0, 0, 1, 0, 2, 4, 3, 5]
    );
    assert_eq!(Message::Players(vec![]).serialize_bin(), vec![1, 0, 0, 0, 0, 0, 0, 0, 0, 0]);
    assert_eq!(Message::SpawnRequest.serialize_bin(), vec![2, 0]);
    assert_eq!(Message::Spawned(7).serialize_bin(), vec![3, 0, 7, 0, 0, 0, 0, 0, 0, 0]);
}

#[test]
fn messages_round_trip() {
    for m in [
        Message::Move(65535, 255),
        Message::Move(0, 0),
        Message::Players(vec![]),
        Message::Players(vec![(1, 2), (3, 4), (65535, 255)]),
        Message::SpawnRequest,
        Message::Spawned(0),
        Message::Spawned(123456789),
    ] {
        assert_eq!(Message::deserialize_bin(&m.serialize_bin()), Ok(m));
    }
}

#[test]
fn messages_that_cannot_be_read() {
    assert_eq!(Message::deserialize_bin(&[]), Err(DecodeError::Truncated));
    assert_eq!(Message::deserialize_bin(&[0]), Err(DecodeError::Truncated));
    assert_eq!(Message::deserialize_bin(&[0, 0, 1, 0]), Err(DecodeError::Truncated));
    assert_eq!(Message::deserialize_bin(&[4, 0]), Err(DecodeError::BadVariant));
    assert_eq!(Message::deserialize_bin(&[0, 1, 0, 0, 0]), Err(DecodeError::BadVariant));
    assert_eq!(Message::deserialize_bin(&[3, 0, 1, 2, 3]), Err(DecodeError::Truncated));
    assert_eq!(
        Message::deserialize_bin(&[1, 0, 2, 0, 0, 0, 0, 0, 0, 0, 1, 0, 2, 3, 0]),
        Err(DecodeError::Truncated)
    );
    assert_eq!(
        Message::deserialize_bin(&[1, 0, 255, 255, 255, 255, 255, 255, 255, 255, 1, 0, 2]),
        Err(DecodeError::Truncated)
    );
}

#[test]
fn a_connection_from_handshake_to_moves() {
    let mut world = World::new();
    let mut state = ClientState::default();
    assert_eq!(state, ClientState::Unknown);

    let hello = Handshake::current().serialize_bin();
    assert_eq!(handle_message(&mut state, &hello, &mut world), Outcome::Accepted);
    assert_eq!(state, ClientState::Connected);

    let request = Message::SpawnRequest.serialize_bin();
    assert_eq!(
        handle_message(&mut state, &request, &mut world),
        Outcome::Reply(Message::Spawned(0))
    );
    assert_eq!(state, ClientState::Spawned { id: 0 });
    assert_eq!(world.players, vec![Some((0, 0))]);
    assert_eq!(world.unique_id, 1);

    let step = Message::Move(7, 9).serialize_bin();
    assert_eq!(handle_message(&mut state, &step, &mut world), Outcome::Accepted);
    assert_eq!(world.players, vec![Some((7, 9))]);
    assert_eq!(state, ClientState::Spawned { id: 0 });
}

#[test]
fn a_wrong_handshake_closes_the_connection() {
    let mut world = World::new();
    for bad in [
        (Handshake { magic: 1, version: PROTOCOL_VERSION }).serialize_bin(),
        (Handshake { magic: MAGIC, version: 1 }).serialize_bin(),
        vec![1, 2, 3],
        Message::SpawnRequest.serialize_bin(),
    ] {
        let mut state = ClientState::Unknown;
        assert_eq!(handle_message(&mut state, &bad, &mut world), Outcome::Disconnect);
        assert_eq!(state, ClientState::Unknown);
    }
    assert_eq!(world, World::new());
}

#[test]
fn a_message_out_of_turn_closes_the_connection() {
    let mut world = World::new();
    let mut state = ClientState::Connected;
    let step = Message::Move(7, 9).serialize_bin();
    assert_eq!(handle_message(&mut state, &step, &mut world), Outcome::Disconnect);
    assert_eq!(state, ClientState::Connected);
    assert_eq!(handle_message(&mut state, &[9, 9], &mut world), Outcome::Disconnect);
    assert_eq!(world, World::new());

    let request = Message::SpawnRequest.serialize_bin();
    handle_message(&mut state, &request, &mut world);
    let before = world.clone();
    assert_eq!(handle_message(&mut state, &request, &mut world), Outcome::Disconnect);
    assert_eq!(
        handle_message(&mut state, &Message::Spawned(1).serialize_bin(), &mut world),
        Outcome::Disconnect
    );
    assert_eq!(
        handle_message(&mut state, &Message::Players(vec![]).serialize_bin(), &mut world),
        Outcome::Disconnect
    );
    assert_eq!(world, before);
    assert_eq!(state, ClientState::Spawned { id: 0 });
}

#[test]
fn each_client_is_told_of_the_others_who_are_there() {
    let mut world = World::new();
    let mut states = vec![ClientState::Connected; 4];
    let request = Message::SpawnRequest.serialize_bin();
    for (n, state) in states.iter_mut().enumerate() {
        assert_eq!(
            handle_message(state, &request, &mut world),
            Outcome::Reply(Message::Spawned(n))
        );
        let step = Message::Move(10 * n as u16, n as u8).serialize_bin();
        handle_message(state, &step, &mut world);
    }
    assert_eq!(
        players_message(&world, 1),
        Message::Players(vec![(0, 0), (20, 2), (30, 3)])
    );
    disconnect(&states[2], &mut world);
    assert_eq!(world.players[2], None);
    assert_eq!(world.unique_id, 4);
    assert_eq!(players_message(&world, 1), Message::Players(vec![(0, 0), (30, 3)]));
    assert_eq!(players_message(&world, 3), Message::Players(vec![(0, 0), (10, 1)]));
    assert_eq!(players_message(&world, 9), Message::Players(vec![(0, 0), (10, 1), (30, 3)]));
    disconnect(&ClientState::Connected, &mut world);
    assert_eq!(world.players.len(), 4);
}
