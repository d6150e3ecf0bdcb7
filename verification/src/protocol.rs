//! The message protocol: inbound and outbound message types, and the
//! dispatcher that maps one inbound message to an ordered run of outbound
//! messages, validating against the session state.

use vstd::prelude::*;
use vstd::string::StringExecFns;

use crate::models::DrawnCard;
use crate::session::{Phase, SessionState};
use crate::tarot_engine::{
    all_from_catalog, distinct_ids, positions_in_order, TarotDeck, MAX_CATALOG_SIZE,
};
use crate::text::{dec_chars, keep_nonempty, split_sentences, u64_to_string};
use crate::rng::rand_below;

verus! {

broadcast use vstd::string::group_string_axioms;

/// One decoded inbound client message.
#[derive(Debug)]
pub enum ClientMessage {
    StartSession { query: String },
    SelectCard { card_index: usize },
    RequestInterpretation,
    Shuffle,
    Ping,
}

/// A point in the client's presentation plane, in tenths of a display
/// unit (the wire format uses fractional units; the core works in fixed
/// point).
#[derive(Debug, Clone, Copy, PartialEq, Eq, Structural)]
pub struct Position {
    pub x: i64,
    pub y: i64,
    pub rotation: i64,
}

/// Where one card sits in the client's deck layout; coordinates in tenths
/// of a display unit.
#[derive(Debug)]
pub struct CardPosition {
    pub card_id: String,
    pub x: i64,
    pub y: i64,
    pub rotation: i64,
    pub is_face_up: bool,
    pub z_index: usize,
}

/// One step of the shuffle animation; coordinates in tenths of a display
/// unit.
#[derive(Debug)]
pub struct ShuffleStep {
    pub card_id: String,
    pub from: Position,
    pub to: Position,
    pub duration_ms: u32,
}

/// One outbound server message.
#[derive(Debug)]
pub enum ServerMessage {
    SessionStarted { session_id: String },
    DeckState { card_positions: Vec<CardPosition> },
    CardSelected { card_id: String, is_reversed: bool },
    InterpretationChunk { text: String },
    InterpretationComplete,
    ShuffleAnimation { sequence: Vec<ShuffleStep> },
    Error { message: String },
    Pong,
}

/// A protocol validation failure, reported to the client as an `Error`
/// message; the connection stays open and usable.
#[derive(Debug, Clone, Copy, PartialEq, Eq, Structural)]
pub enum ProtocolError {
    /// The index lies outside the catalog.
    InvalidCardIndex(usize),
    /// The index is already in the session's selection set.
    CardAlreadySelected,
    /// No query is active.
    NoActiveQuery,
    /// Interpretation was requested with nothing selected.
    NoCardsSelected,
}

/// The text of each validation error, as the client sees it.
pub open spec fn error_text(e: ProtocolError) -> Seq<char> {
    match e {
        ProtocolError::InvalidCardIndex(idx) => "Invalid card index: "@ + dec_chars(idx as int),
        ProtocolError::CardAlreadySelected => "Card already selected"@,
        ProtocolError::NoActiveQuery => "No session started - please start a session first"@,
        ProtocolError::NoCardsSelected => "No cards selected"@,
    }
}

impl ProtocolError {
    /// Renders the message reported to the client.
    pub fn message(&self) -> (r: String)
        ensures
            r@ == error_text(*self),
    {
        match self {
            ProtocolError::InvalidCardIndex(idx) => {
                let mut r = String::new();
                r.append("Invalid card index: ");
                let num = u64_to_string(*idx as u64);
                r.append(num.as_str());
                proof {
                    assert(r@ =~= error_text(*self));
                }
                r
            },
            ProtocolError::CardAlreadySelected => String::from_str("Card already selected"),
            ProtocolError::NoActiveQuery => String::from_str(
                "No session started - please start a session first",
            ),
            ProtocolError::NoCardsSelected => String::from_str("No cards selected"),
        }
    }
}

/// The client-facing id of the card at catalog position `i`.
pub open spec fn position_card_id(i: int) -> Seq<char> {
    "card_"@ + dec_chars(i)
}

/// The fixed fan layout the client presents: position `i` sits at
/// `(0.5 i, -0.2 i)` display units — `(5 i, -2 i)` tenths — face down,
/// unrotated, stacked in order.
pub open spec fn deck_layout_ok(positions: Seq<CardPosition>, n: int) -> bool {
    &&& positions.len() == n
    &&& forall|i: int|
        0 <= i < n ==> {
            let p = #[trigger] positions[i];
            p.card_id@ == position_card_id(i) && p.x == 5 * i && p.y == -2 * i && p.rotation == 0
                && p.is_face_up == false && p.z_index == i
        }
}

fn card_id_for(i: usize) -> (r: String)
    ensures
        r@ == position_card_id(i as int),
{
    let mut r = String::new();
    r.append("card_");
    let num = u64_to_string(i as u64);
    r.append(num.as_str());
    proof {
        assert(r@ =~= position_card_id(i as int));
    }
    r
}

/// Builds the full catalog-position layout for the client's presentation.
pub fn generate_deck_positions(n: usize) -> (r: Vec<CardPosition>)
    requires
        n <= MAX_CATALOG_SIZE,
    ensures
        deck_layout_ok(r@, n as int),
{
    let mut r: Vec<CardPosition> = Vec::new();
    let mut i: usize = 0;
    while i < n
        invariant
            i <= n <= MAX_CATALOG_SIZE,
            r@.len() == i,
            forall|p: int|
                0 <= p < i ==> {
                    let c = #[trigger] r@[p];
                    c.card_id@ == position_card_id(p) && c.x == 5 * p && c.y == -2 * p
                        && c.rotation == 0 && c.is_face_up == false && c.z_index == p
                },
        decreases n - i,
    {
        let card_id = card_id_for(i);
        let x: i64 = 5 * (i as i64);
        let y: i64 = -2 * (i as i64);
        r.push(CardPosition { card_id, x, y, rotation: 0, is_face_up: false, z_index: i });
        i = i + 1;
    }
    r
}

/// The ranges every shuffle-animation step stays in: each card flies from
/// the origin to a random point, even positions to the left, odd to the
/// right, over 200-400 ms.
pub open spec fn shuffle_steps_ok(steps: Seq<ShuffleStep>, n: int) -> bool {
    &&& steps.len() == n
    &&& forall|i: int|
        0 <= i < n ==> {
            let s = #[trigger] steps[i];
            s.card_id@ == position_card_id(i) && s.from == (Position { x: 0, y: 0, rotation: 0 })
                && (i % 2 == 0 ==> -1500 < s.to.x <= -500) && (i % 2 != 0 ==> 500 <= s.to.x < 1500)
                && -300 <= s.to.y < 300 && -150 <= s.to.rotation < 150 && 200 <= s.duration_ms
                < 400
        }
}

/// Builds the presentation-only shuffle animation, one step per catalog
/// card.
pub fn generate_shuffle_animation(n: usize) -> (r: Vec<ShuffleStep>)
    requires
        n <= MAX_CATALOG_SIZE,
    ensures
        shuffle_steps_ok(r@, n as int),
{
    let mut r: Vec<ShuffleStep> = Vec::new();
    let mut i: usize = 0;
    while i < n
        invariant
            i <= n <= MAX_CATALOG_SIZE,
            r@.len() == i,
            forall|p: int|
                0 <= p < i ==> {
                    let s = #[trigger] r@[p];
                    s.card_id@ == position_card_id(p) && s.from == (Position {
                        x: 0,
                        y: 0,
                        rotation: 0,
                    }) && (p % 2 == 0 ==> -1500 < s.to.x <= -500) && (p % 2 != 0 ==> 500 <= s.to.x
                        < 1500) && -300 <= s.to.y < 300 && -150 <= s.to.rotation < 150 && 200
                        <= s.duration_ms < 400
                },
        decreases n - i,
    {
        let card_id = card_id_for(i);
        let magnitude = rand_below(1000) + 500;
        let to_x: i64 = if i % 2 == 0 {
            -(magnitude as i64)
        } else {
            magnitude as i64
        };
        let to_y: i64 = (rand_below(600) as i64) - 300;
        let to_rotation: i64 = (rand_below(300) as i64) - 150;
        let duration_ms: u32 = (rand_below(200) + 200) as u32;
        r.push(
            ShuffleStep {
                card_id,
                from: Position { x: 0, y: 0, rotation: 0 },
                to: Position { x: to_x, y: to_y, rotation: to_rotation },
                duration_ms,
            },
        );
        i = i + 1;
    }
    r
}

/// An interpretation the dispatcher has validated and drawn cards for.
/// The narration itself comes from the outside generator (with the
/// library's deterministic fallback); `interpretation_messages` then
/// chunks whatever text came back.
#[derive(Debug)]
pub struct PendingInterpretation {
    pub query: String,
    pub cards: Vec<DrawnCard>,
}

/// What handling one inbound message produced: the outbound messages, in
/// the order they must reach the wire, and — for an interpretation
/// request — the narration work the caller performs outside the library.
#[derive(Debug)]
pub struct DispatchOutcome {
    pub messages: Vec<ServerMessage>,
    pub pending: Option<PendingInterpretation>,
}

/// Registers a new query: resets the selection set, stores the query,
/// generates a fresh session identifier, and emits `SessionStarted`
/// followed by the full deck layout. Allowed from every state.
pub fn handle_start_session(query: String, session: &mut SessionState, deck: &TarotDeck) -> (out:
    DispatchOutcome)
    requires
        old(session).wf(),
        deck.wf(),
    ensures
        final(session).wf(),
        final(session).phase is QueryActive,
        final(session).query == Some(query),
        final(session).selected_cards@.len() == 0,
        final(session).session_id@.len() == 36,
        out.pending is None,
        out.messages@.len() == 2,
        (out.messages@[0] matches ServerMessage::SessionStarted { session_id } && session_id
            == final(session).session_id),
        (out.messages@[1] matches ServerMessage::DeckState { card_positions } && deck_layout_ok(
            card_positions@,
            deck@.len() as int,
        )),
{
    session.session_id = crate::session::new_session_id();
    session.query = Some(query);
    session.selected_cards = Vec::new();
    session.phase = Phase::QueryActive;

    let mut messages: Vec<ServerMessage> = Vec::new();
    messages.push(ServerMessage::SessionStarted { session_id: session.session_id.clone() });
    let card_positions = generate_deck_positions(deck.len());
    messages.push(ServerMessage::DeckState { card_positions });
    DispatchOutcome { messages, pending: None }
}

/// Validates and records one card selection: the index must lie inside
/// the catalog, must not already be selected, and a query must be active.
/// On success one card is drawn for the session's query and announced.
pub fn handle_select_card(card_index: usize, session: &mut SessionState, deck: &TarotDeck) -> (out:
    Result<DispatchOutcome, ProtocolError>)
    requires
        old(session).wf(),
        deck.wf(),
    ensures
        final(session).wf(),
        out is Err ==> *final(session) == *old(session),
        out == Result::<DispatchOutcome, ProtocolError>::Err(ProtocolError::NoActiveQuery) <==> !old(
            session,
        ).query_active(),
        out == Result::<DispatchOutcome, ProtocolError>::Err(
            ProtocolError::InvalidCardIndex(card_index),
        ) <==> (old(session).query_active() && card_index >= deck@.len()),
        out == Result::<DispatchOutcome, ProtocolError>::Err(ProtocolError::CardAlreadySelected)
            <==> (old(session).query_active() && card_index < deck@.len() && old(
            session,
        ).selected_cards@.contains(card_index)),
        out is Ok <==> (old(session).query_active() && card_index < deck@.len() && !old(
            session,
        ).selected_cards@.contains(card_index)),
        out matches Ok(o) ==> {
            &&& final(session).phase is Selecting
            &&& final(session).query == old(session).query
            &&& final(session).session_id == old(session).session_id
            &&& final(session).selected_cards@ == old(session).selected_cards@.push(card_index)
            &&& o.pending is None
            &&& o.messages@.len() == 1
            &&& (o.messages@[0] matches ServerMessage::CardSelected { card_id, is_reversed }
                && exists|i: int| 0 <= i < deck@.len() && card_id@ == (#[trigger] deck@[i]).id)
        },
{
    if !(matches!(session.phase, Phase::QueryActive) || matches!(session.phase, Phase::Selecting)) {
        return Err(ProtocolError::NoActiveQuery);
    }
    if card_index >= deck.len() {
        return Err(ProtocolError::InvalidCardIndex(card_index));
    }
    let mut i: usize = 0;
    while i < session.selected_cards.len()
        invariant
            *session == *old(session),
            session.wf(),
            deck.wf(),
            old(session).query_active(),
            card_index < deck@.len(),
            i <= session.selected_cards@.len(),
            forall|p: int| 0 <= p < i ==> (#[trigger] session.selected_cards@[p]) != card_index,
        decreases session.selected_cards@.len() - i,
    {
        if session.selected_cards[i] == card_index {
            proof {
                assert(old(session).selected_cards@.contains(card_index)) by {
                    assert(old(session).selected_cards@[i as int] == card_index);
                }
            }
            return Err(ProtocolError::CardAlreadySelected);
        }
        i = i + 1;
    }
    proof {
        assert(!session.selected_cards@.contains(card_index));
    }
    session.selected_cards.push(card_index);
    session.phase = Phase::Selecting;

    let query = match &session.query {
        Some(q) => q.clone(),
        None => String::new(),
    };
    let drawn = deck.draw_with_context(query.as_str(), 1);
    proof {
        assert(drawn.deep_view().len() == 1);
        assert(drawn.deep_view()[0] == drawn@[0]@);
    }
    let card_id = drawn[0].card.id.clone();
    let is_reversed = drawn[0].is_reversed;
    proof {
        let j = choose|j: int|
            0 <= j < deck@.len() && drawn.deep_view()[0].card == #[trigger] deck@[j];
        assert(card_id@ == deck@[j].id);
    }
    let mut messages: Vec<ServerMessage> = Vec::new();
    messages.push(ServerMessage::CardSelected { card_id, is_reversed });
    Ok(DispatchOutcome { messages, pending: None })
}

/// Validates an interpretation request — a query must be active and at
/// least one card selected — then draws as many cards as were selected
/// and hands them back for narration. The messages themselves follow from
/// `interpretation_messages` once the narration text exists.
pub fn handle_request_interpretation(session: &mut SessionState, deck: &TarotDeck) -> (out: Result<
    DispatchOutcome,
    ProtocolError,
>)
    requires
        old(session).wf(),
        deck.wf(),
    ensures
        final(session).wf(),
        out is Err ==> *final(session) == *old(session),
        out == Result::<DispatchOutcome, ProtocolError>::Err(ProtocolError::NoActiveQuery) <==> old(
            session,
        ).query is None,
        out == Result::<DispatchOutcome, ProtocolError>::Err(ProtocolError::NoCardsSelected) <==> (
        old(session).query is Some && old(session).selected_cards@.len() == 0),
        out is Ok <==> (old(session).query is Some && old(session).selected_cards@.len() > 0),
        out matches Ok(o) ==> {
            &&& final(session).phase is InterpretationDelivered
            &&& final(session).query == old(session).query
            &&& final(session).session_id == old(session).session_id
            &&& final(session).selected_cards@ == old(session).selected_cards@
            &&& o.messages@.len() == 0
            &&& (o.pending matches Some(p) && old(session).query matches Some(q) && p.query == q
                && p.cards.deep_view().len() == (if old(session).selected_cards@.len()
                <= deck@.len() {
                old(session).selected_cards@.len() as int
            } else {
                deck@.len() as int
            }) && positions_in_order(p.cards.deep_view()) && all_from_catalog(
                p.cards.deep_view(),
                deck@,
            ) && distinct_ids(p.cards.deep_view()))
        },
{
    let query = match &session.query {
        Some(q) => q.clone(),
        None => {
            return Err(ProtocolError::NoActiveQuery);
        },
    };
    if session.selected_cards.len() == 0 {
        return Err(ProtocolError::NoCardsSelected);
    }
    let cards = deck.draw_with_context(query.as_str(), session.selected_cards.len());
    session.phase = Phase::InterpretationDelivered;
    Ok(
        DispatchOutcome {
            messages: Vec::new(),
            pending: Some(PendingInterpretation { query, cards }),
        },
    )
}

/// The texts of the narration chunks: the narration split on `". "`,
/// empty pieces dropped, and the separator restored on every chunk but
/// the last.
pub open spec fn narration_chunks(s: Seq<char>) -> Seq<Seq<char>> {
    chunk_texts(keep_nonempty(split_sentences(s)))
}

/// Restores the separator on every piece but the last.
pub open spec fn chunk_texts(pieces: Seq<Seq<char>>) -> Seq<Seq<char>> {
    Seq::new(
        pieces.len(),
        |i: int|
            if i + 1 < pieces.len() {
                pieces[i] + ". "@
            } else {
                pieces[i]
            },
    )
}

/// Turns a narration into the exact outbound run the client sees: one
/// `InterpretationChunk` per chunk of the text, in order, followed by
/// exactly one `InterpretationComplete` — and nothing else.
pub fn interpretation_messages(narration: &str) -> (msgs: Vec<ServerMessage>)
    ensures
        msgs@.len() == narration_chunks(narration@).len() + 1,
        forall|j: int|
            0 <= j < msgs@.len() - 1 ==> ((#[trigger] msgs@[j])
                matches ServerMessage::InterpretationChunk { text } && text@ == narration_chunks(
                narration@,
            )[j]),
        msgs@[msgs@.len() - 1] is InterpretationComplete,
{
    let all_pieces = crate::text::split_sentences_exec(narration);
    let pieces = crate::text::keep_nonempty_exec(&all_pieces);
    let mut msgs: Vec<ServerMessage> = Vec::new();
    let mut i: usize = 0;
    while i < pieces.len()
        invariant
            i <= pieces.len(),
            pieces.deep_view() == keep_nonempty(split_sentences(narration@)),
            msgs@.len() == i,
            forall|j: int|
                0 <= j < i ==> ((#[trigger] msgs@[j])
                    matches ServerMessage::InterpretationChunk { text } && text@
                    == narration_chunks(narration@)[j]),
        decreases pieces.len() - i,
    {
        let mut text = pieces[i].clone();
        if i + 1 < pieces.len() {
            text.append(". ");
        }
        proof {
            assert(text@ == narration_chunks(narration@)[i as int]);
        }
        msgs.push(ServerMessage::InterpretationChunk { text });
        i = i + 1;
    }
    msgs.push(ServerMessage::InterpretationComplete);
    msgs
}

/// Clears the selection set — the query and phase stay as they were — and
/// emits the presentation-only shuffle animation, one step per catalog
/// card. Allowed from every state.
pub fn handle_shuffle(session: &mut SessionState, deck: &TarotDeck) -> (out: DispatchOutcome)
    requires
        old(session).wf(),
        deck.wf(),
    ensures
        final(session).wf(),
        final(session).phase == old(session).phase,
        final(session).query == old(session).query,
        final(session).session_id == old(session).session_id,
        final(session).selected_cards@.len() == 0,
        out.pending is None,
        out.messages@.len() == 1,
        (out.messages@[0] matches ServerMessage::ShuffleAnimation { sequence } && shuffle_steps_ok(
            sequence@,
            deck@.len() as int,
        )),
{
    session.selected_cards = Vec::new();
    let sequence = generate_shuffle_animation(deck.len());
    let mut messages: Vec<ServerMessage> = Vec::new();
    messages.push(ServerMessage::ShuffleAnimation { sequence });
    DispatchOutcome { messages, pending: None }
}

/// Maps one inbound message to its outcome, validating against the
/// session state; the single entry point through which the session state
/// is ever mutated.
pub fn handle_client_message(msg: ClientMessage, session: &mut SessionState, deck: &TarotDeck) -> (
    out: Result<DispatchOutcome, ProtocolError>)
    requires
        old(session).wf(),
        deck.wf(),
    ensures
        final(session).wf(),
        out is Err ==> *final(session) == *old(session),
        msg matches ClientMessage::StartSession { query } ==> (out matches Ok(o) && {
            &&& final(session).phase is QueryActive
            &&& final(session).query == Some(query)
            &&& final(session).selected_cards@.len() == 0
            &&& o.messages@.len() == 2
            &&& (o.messages@[0] matches ServerMessage::SessionStarted { session_id } && session_id
                == final(session).session_id)
            &&& (o.messages@[1] matches ServerMessage::DeckState { card_positions }
                && deck_layout_ok(card_positions@, deck@.len() as int))
        }),
        msg matches ClientMessage::SelectCard { card_index } ==> {
            &&& out == Result::<DispatchOutcome, ProtocolError>::Err(ProtocolError::NoActiveQuery)
                <==> !old(session).query_active()
            &&& out == Result::<DispatchOutcome, ProtocolError>::Err(
                ProtocolError::InvalidCardIndex(card_index),
            ) <==> (old(session).query_active() && card_index >= deck@.len())
            &&& out == Result::<DispatchOutcome, ProtocolError>::Err(
                ProtocolError::CardAlreadySelected,
            ) <==> (old(session).query_active() && card_index < deck@.len() && old(
                session,
            ).selected_cards@.contains(card_index))
            &&& out is Ok <==> (old(session).query_active() && card_index < deck@.len() && !old(
                session,
            ).selected_cards@.contains(card_index))
            &&& out matches Ok(o) ==> {
                &&& final(session).phase is Selecting
                &&& final(session).selected_cards@ == old(session).selected_cards@.push(card_index)
                &&& o.messages@.len() == 1
                &&& (o.messages@[0] matches ServerMessage::CardSelected { .. })
            }
        },
        msg is RequestInterpretation ==> {
            &&& out == Result::<DispatchOutcome, ProtocolError>::Err(ProtocolError::NoActiveQuery)
                <==> old(session).query is None
            &&& out == Result::<DispatchOutcome, ProtocolError>::Err(ProtocolError::NoCardsSelected)
                <==> (old(session).query is Some && old(session).selected_cards@.len() == 0)
            &&& out is Ok <==> (old(session).query is Some && old(session).selected_cards@.len()
                > 0)
            &&& out matches Ok(o) ==> {
                &&& final(session).phase is InterpretationDelivered
                &&& o.messages@.len() == 0
                &&& o.pending is Some
            }
        },
        msg is Shuffle ==> (out matches Ok(o) && {
            &&& final(session).phase == old(session).phase
            &&& final(session).query == old(session).query
            &&& final(session).selected_cards@.len() == 0
            &&& o.messages@.len() == 1
            &&& (o.messages@[0] matches ServerMessage::ShuffleAnimation { sequence }
                && shuffle_steps_ok(sequence@, deck@.len() as int))
        }),
        msg is Ping ==> (out matches Ok(o) && *final(session) == *old(session) && o.messages@.len()
            == 1 && o.messages@[0] is Pong),
{
    match msg {
        ClientMessage::StartSession { query } => Ok(handle_start_session(query, session, deck)),
        ClientMessage::SelectCard { card_index } => handle_select_card(card_index, session, deck),
        ClientMessage::RequestInterpretation => handle_request_interpretation(session, deck),
        ClientMessage::Shuffle => Ok(handle_shuffle(session, deck)),
        ClientMessage::Ping => {
            let mut messages: Vec<ServerMessage> = Vec::new();
            messages.push(ServerMessage::Pong);
            Ok(DispatchOutcome { messages, pending: None })
        },
    }
}

} // verus!
