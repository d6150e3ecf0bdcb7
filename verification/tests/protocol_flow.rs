use tarot::models::{Keywords, TarotCard};
use tarot::protocol::{
    handle_client_message, interpretation_messages, ClientMessage, ProtocolError, ServerMessage,
};
use tarot::session::{Phase, SessionState};
use tarot::tarot_engine::TarotDeck;

fn standard_deck() -> TarotDeck {
    let cards: Vec<TarotCard> = (0..78)
        .map(|i| TarotCard {
            id: format!("card_{}", i),
            name: format!("Card {}", i),
            arcana: if i < 22 { "major".to_string() } else { "minor".to_string() },
            suit: None,
            number: i as i32,
            archetype: "Archetype".to_string(),
            keywords: Keywords {
                upright: vec!["insight".to_string()],
                reversed: vec!["doubt".to_string()],
            },
            situational_tags: vec!["job".to_string()],
        })
        .collect();
    TarotDeck::new(cards).unwrap()
}

fn started_session(deck: &TarotDeck) -> SessionState {
    let mut session = SessionState::new();
    let out = handle_client_message(
        ClientMessage::StartSession { query: "I am worried about my job".to_string() },
        &mut session,
        deck,
    )
    .unwrap();
    assert_eq!(out.messages.len(), 2);
    session
}

#[test]
fn duplicate_selection_is_rejected_and_state_kept() {
    let deck = standard_deck();
    let mut session = started_session(&deck);
    handle_client_message(ClientMessage::SelectCard { card_index: 7 }, &mut session, &deck)
        .unwrap();
    assert_eq!(session.selected_cards, vec![7]);
    let err = handle_client_message(ClientMessage::SelectCard { card_index: 7 }, &mut session, &deck)
        .unwrap_err();
    assert_eq!(err, ProtocolError::CardAlreadySelected);
    assert_eq!(err.message(), "Card already selected");
    assert_eq!(session.selected_cards, vec![7]);
}

#[test]
fn out_of_range_selection_is_rejected() {
    let deck = standard_deck();
    let mut session = started_session(&deck);
    let err = handle_client_message(
        ClientMessage::SelectCard { card_index: 78 },
        &mut session,
        &deck,
    )
    .unwrap_err();
    assert_eq!(err, ProtocolError::InvalidCardIndex(78));
    assert_eq!(err.message(), "Invalid card index: 78");
    assert!(session.selected_cards.is_empty());
}

#[test]
fn selection_without_query_is_rejected() {
    let deck = standard_deck();
    let mut session = SessionState::new();
    let err = handle_client_message(ClientMessage::SelectCard { card_index: 0 }, &mut session, &deck)
        .unwrap_err();
    assert_eq!(err, ProtocolError::NoActiveQuery);
    assert_eq!(err.message(), "No session started - please start a session first");
}

#[test]
fn interpretation_before_any_selection_is_rejected() {
    let deck = standard_deck();
    let mut session = SessionState::new();
    let err = handle_client_message(ClientMessage::RequestInterpretation, &mut session, &deck)
        .unwrap_err();
    assert_eq!(err, ProtocolError::NoActiveQuery);

    let mut session = started_session(&deck);
    let err = handle_client_message(ClientMessage::RequestInterpretation, &mut session, &deck)
        .unwrap_err();
    assert_eq!(err, ProtocolError::NoCardsSelected);
    assert_eq!(err.message(), "No cards selected");
}

#[test]
fn interpretation_after_selection_yields_chunks_then_completion() {
    let deck = standard_deck();
    let mut session = started_session(&deck);
    handle_client_message(ClientMessage::SelectCard { card_index: 3 }, &mut session, &deck)
        .unwrap();
    let out = handle_client_message(ClientMessage::RequestInterpretation, &mut session, &deck)
        .unwrap();
    assert!(matches!(session.phase, Phase::InterpretationDelivered));
    let pending = out.pending.unwrap();
    assert_eq!(pending.cards.len(), 1);
    let narration =
        tarot::ai_service::generate_fallback_interpretation(&pending.query, &pending.cards);
    let msgs = interpretation_messages(&narration);
    assert!(msgs.len() >= 2);
    for m in &msgs[..msgs.len() - 1] {
        assert!(matches!(m, ServerMessage::InterpretationChunk { .. }));
    }
    assert!(matches!(msgs[msgs.len() - 1], ServerMessage::InterpretationComplete));
}

#[test]
fn full_reading_flow_emits_expected_sequence_without_errors() {
    let deck = standard_deck();
    let mut session = SessionState::new();

    let out = handle_client_message(
        ClientMessage::StartSession { query: "I am worried about my job".to_string() },
        &mut session,
        &deck,
    )
    .unwrap();
    assert_eq!(out.messages.len(), 2);
    assert!(matches!(out.messages[0], ServerMessage::SessionStarted { .. }));
    match &out.messages[1] {
        ServerMessage::DeckState { card_positions } => assert_eq!(card_positions.len(), 78),
        other => panic!("expected DeckState, got {:?}", other),
    }

    let out = handle_client_message(ClientMessage::SelectCard { card_index: 0 }, &mut session, &deck)
        .unwrap();
    assert_eq!(out.messages.len(), 1);
    assert!(matches!(out.messages[0], ServerMessage::CardSelected { .. }));

    let out = handle_client_message(ClientMessage::RequestInterpretation, &mut session, &deck)
        .unwrap();
    let pending = out.pending.unwrap();
    let narration =
        tarot::ai_service::generate_fallback_interpretation(&pending.query, &pending.cards);
    let msgs = interpretation_messages(&narration);
    assert!(msgs.len() >= 2);
    assert!(matches!(msgs[0], ServerMessage::InterpretationChunk { .. }));
    assert!(matches!(msgs[msgs.len() - 1], ServerMessage::InterpretationComplete));
    for m in &msgs {
        assert!(!matches!(m, ServerMessage::Error { .. }));
    }
}

#[test]
fn shuffle_emits_one_step_per_card_and_clears_selection() {
    let deck = standard_deck();
    let mut session = started_session(&deck);
    handle_client_message(ClientMessage::SelectCard { card_index: 0 }, &mut session, &deck)
        .unwrap();
    assert_eq!(session.selected_cards, vec![0]);

    let out = handle_client_message(ClientMessage::Shuffle, &mut session, &deck).unwrap();
    assert_eq!(out.messages.len(), 1);
    match &out.messages[0] {
        ServerMessage::ShuffleAnimation { sequence } => assert_eq!(sequence.len(), 78),
        other => panic!("expected ShuffleAnimation, got {:?}", other),
    }
    assert!(session.selected_cards.is_empty());

    // After the shuffle the previously selected index must be accepted again.
    let out = handle_client_message(ClientMessage::SelectCard { card_index: 0 }, &mut session, &deck);
    assert!(out.is_ok());
}

#[test]
fn ping_yields_pong_and_changes_nothing() {
    let deck = standard_deck();
    let mut session = SessionState::new();
    let out = handle_client_message(ClientMessage::Ping, &mut session, &deck).unwrap();
    assert_eq!(out.messages.len(), 1);
    assert!(matches!(out.messages[0], ServerMessage::Pong));
    assert!(matches!(session.phase, Phase::Idle));
    assert!(session.query.is_none());
}

#[test]
fn start_session_resets_selection_and_keeps_connection_usable() {
    let deck = standard_deck();
    let mut session = started_session(&deck);
    handle_client_message(ClientMessage::SelectCard { card_index: 5 }, &mut session, &deck)
        .unwrap();
    let out = handle_client_message(
        ClientMessage::StartSession { query: "a new question".to_string() },
        &mut session,
        &deck,
    )
    .unwrap();
    assert_eq!(out.messages.len(), 2);
    assert!(session.selected_cards.is_empty());
    assert_eq!(session.query.as_deref(), Some("a new question"));
    assert_eq!(session.session_id.len(), 36);
    assert!(matches!(session.phase, Phase::QueryActive));
}

#[test]
fn deck_positions_follow_the_fan_layout() {
    let positions = tarot::protocol::generate_deck_positions(78);
    assert_eq!(positions.len(), 78);
    assert_eq!(positions[0].card_id, "card_0");
    assert_eq!(positions[0].x, 0);
    assert_eq!(positions[0].y, 0);
    assert_eq!(positions[3].card_id, "card_3");
    assert_eq!(positions[3].x, 15);
    assert_eq!(positions[3].y, -6);
    assert_eq!(positions[3].rotation, 0);
    assert_eq!(positions[3].z_index, 3);
    assert!(!positions[3].is_face_up);
}

#[test]
fn shuffle_animation_steps_stay_in_their_ranges() {
    let steps = tarot::protocol::generate_shuffle_animation(78);
    assert_eq!(steps.len(), 78);
    for (i, s) in steps.iter().enumerate() {
        assert_eq!(s.card_id, format!("card_{}", i));
        assert_eq!(s.from.x, 0);
        assert_eq!(s.from.y, 0);
        assert_eq!(s.from.rotation, 0);
        if i % 2 == 0 {
            assert!(-1500 < s.to.x && s.to.x <= -500);
        } else {
            assert!(500 <= s.to.x && s.to.x < 1500);
        }
        assert!(-300 <= s.to.y && s.to.y < 300);
        assert!(-150 <= s.to.rotation && s.to.rotation < 150);
        assert!(200 <= s.duration_ms && s.duration_ms < 400);
    }
}

#[test]
fn interpretation_messages_restore_separators() {
    let msgs = interpretation_messages("The path opens. Trust it. Walk on");
    assert_eq!(msgs.len(), 4);
    match &msgs[0] {
        ServerMessage::InterpretationChunk { text } => assert_eq!(text, "The path opens. "),
        other => panic!("expected chunk, got {:?}", other),
    }
    match &msgs[1] {
        ServerMessage::InterpretationChunk { text } => assert_eq!(text, "Trust it. "),
        other => panic!("expected chunk, got {:?}", other),
    }
    match &msgs[2] {
        ServerMessage::InterpretationChunk { text } => assert_eq!(text, "Walk on"),
        other => panic!("expected chunk, got {:?}", other),
    }
    assert!(matches!(msgs[3], ServerMessage::InterpretationComplete));
}

#[test]
fn interpretation_messages_drop_empty_pieces() {
    let msgs = interpretation_messages("One. . Two");
    assert_eq!(msgs.len(), 3);
    match &msgs[0] {
        ServerMessage::InterpretationChunk { text } => assert_eq!(text, "One. "),
        other => panic!("expected chunk, got {:?}", other),
    }
    match &msgs[1] {
        ServerMessage::InterpretationChunk { text } => assert_eq!(text, "Two"),
        other => panic!("expected chunk, got {:?}", other),
    }
}

#[test]
fn fresh_sessions_have_distinct_identities() {
    let a = SessionState::new();
    let b = SessionState::new();
    assert_eq!(a.session_id.len(), 36);
    assert_eq!(b.session_id.len(), 36);
    assert_ne!(a.session_id, b.session_id);
}
