use tarot::models::{DrawnCard, Keywords, TarotCard};
use tarot::tarot_engine::{LoadError, TarotDeck};

fn make_card(id: &str, name: &str, tags: &[&str]) -> TarotCard {
    TarotCard {
        id: id.to_string(),
        name: name.to_string(),
        arcana: "major".to_string(),
        suit: None,
        number: 0,
        archetype: "The Seeker".to_string(),
        keywords: Keywords {
            upright: vec!["beginnings".to_string(), "trust".to_string()],
            reversed: vec!["recklessness".to_string()],
        },
        situational_tags: tags.iter().map(|t| t.to_string()).collect(),
    }
}

fn small_deck(n: usize) -> TarotDeck {
    let cards: Vec<TarotCard> = (0..n)
        .map(|i| make_card(&format!("c{}", i), &format!("Card {}", i), &[]))
        .collect();
    TarotDeck::new(cards).unwrap()
}

fn ids_of(drawn: &[DrawnCard]) -> Vec<String> {
    drawn.iter().map(|d| d.card.id.clone()).collect()
}

#[test]
fn draw_returns_exact_count_with_distinct_ids() {
    let deck = small_deck(5);
    for _ in 0..50 {
        let drawn = deck.draw_with_context("a quiet evening", 3);
        assert_eq!(drawn.len(), 3);
        let ids = ids_of(&drawn);
        for i in 0..ids.len() {
            for j in (i + 1)..ids.len() {
                assert_ne!(ids[i], ids[j]);
            }
        }
    }
}

#[test]
fn draw_zero_yields_empty() {
    let deck = small_deck(5);
    let drawn = deck.draw_with_context("anything", 0);
    assert!(drawn.is_empty());
}

#[test]
fn draw_beyond_catalog_yields_every_card_once() {
    let deck = small_deck(5);
    for _ in 0..20 {
        let drawn = deck.draw_with_context("anything", 10);
        assert_eq!(drawn.len(), 5);
        let mut ids = ids_of(&drawn);
        ids.sort();
        assert_eq!(ids, vec!["c0", "c1", "c2", "c3", "c4"]);
    }
}

#[test]
fn draw_positions_follow_draw_order() {
    let deck = small_deck(4);
    let drawn = deck.draw_with_context("anything", 4);
    for (i, d) in drawn.iter().enumerate() {
        assert_eq!(d.position_index, i);
    }
}

#[test]
fn orientation_frequency_is_near_thirty_percent() {
    let deck = small_deck(1);
    let trials = 10000;
    let mut reversed = 0;
    for _ in 0..trials {
        let drawn = deck.draw_with_context("", 1);
        if drawn[0].is_reversed {
            reversed += 1;
        }
    }
    let fraction = reversed as f64 / trials as f64;
    assert!(fraction > 0.2, "reversed fraction {} too low", fraction);
    assert!(fraction < 0.4, "reversed fraction {} too high", fraction);
}

#[test]
fn resonant_card_is_selected_more_often() {
    let cards = vec![make_card("plain", "Plain", &[]), make_card("match", "Match", &["job"])];
    let deck = TarotDeck::new(cards).unwrap();
    let trials = 2000;
    let mut matched = 0;
    for _ in 0..trials {
        let drawn = deck.draw_with_context("I am worried about my job", 1);
        if drawn[0].card.id == "match" {
            matched += 1;
        }
    }
    // The matching card weighs 3 against 1, so it should win about 75%
    // of the trials; well above half.
    assert!(matched * 2 > trials, "matched only {} of {}", matched, trials);
}

#[test]
fn every_card_is_reachable() {
    let deck = small_deck(2);
    let mut seen_c0 = false;
    let mut seen_c1 = false;
    for _ in 0..200 {
        let drawn = deck.draw_with_context("", 1);
        match drawn[0].card.id.as_str() {
            "c0" => seen_c0 = true,
            "c1" => seen_c1 = true,
            other => panic!("unexpected id {}", other),
        }
    }
    assert!(seen_c0 && seen_c1);
}

#[test]
fn resonance_weight_counts_matching_tags() {
    let terms = vec!["job".to_string(), "money".to_string()];
    let none = make_card("a", "A", &["love"]);
    let one = make_card("b", "B", &["job"]);
    let two = make_card("c", "C", &["job", "money"]);
    assert_eq!(tarot::tarot_engine::resonance_weight(&none, &terms), 1);
    assert_eq!(tarot::tarot_engine::resonance_weight(&one, &terms), 3);
    assert_eq!(tarot::tarot_engine::resonance_weight(&two, &terms), 5);
}

#[test]
fn resonance_matching_is_bidirectional_substring() {
    let terms = vec!["jobless".to_string()];
    let tag_inside_term = make_card("a", "A", &["job"]);
    assert_eq!(tarot::tarot_engine::resonance_weight(&tag_inside_term, &terms), 3);
    let term_inside_tag = make_card("b", "B", &["joblessness"]);
    assert_eq!(tarot::tarot_engine::resonance_weight(&term_inside_tag, &terms), 3);
    let unrelated = make_card("c", "C", &["wealth"]);
    assert_eq!(tarot::tarot_engine::resonance_weight(&unrelated, &terms), 1);
}

#[test]
fn weighted_choice_scans_cumulative_weights() {
    let weights: Vec<u64> = vec![1, 2, 3];
    let avail: Vec<usize> = vec![0, 1, 2];
    // Cumulative weights are 1, 3, 6: the draw value selects the first
    // position whose cumulative weight exceeds it.
    assert_eq!(tarot::tarot_engine::select_pos(&weights, &avail, 0), 0);
    assert_eq!(tarot::tarot_engine::select_pos(&weights, &avail, 1), 1);
    assert_eq!(tarot::tarot_engine::select_pos(&weights, &avail, 2), 1);
    assert_eq!(tarot::tarot_engine::select_pos(&weights, &avail, 3), 2);
    assert_eq!(tarot::tarot_engine::select_pos(&weights, &avail, 5), 2);
}

#[test]
fn weighted_choice_skips_unavailable_indices() {
    let weights: Vec<u64> = vec![1, 2, 3];
    let avail: Vec<usize> = vec![0, 2];
    // Only indices 0 and 2 remain: cumulative weights are 1 and 4.
    assert_eq!(tarot::tarot_engine::select_pos(&weights, &avail, 0), 0);
    assert_eq!(tarot::tarot_engine::select_pos(&weights, &avail, 1), 1);
    assert_eq!(tarot::tarot_engine::select_pos(&weights, &avail, 3), 1);
}

#[test]
fn orientation_threshold_is_three_of_ten() {
    for roll in 0..10u64 {
        assert_eq!(tarot::tarot_engine::orientation_from_roll(roll), roll < 3);
    }
}

#[test]
fn query_terms_lowercases_and_splits() {
    let terms = tarot::tarot_engine::query_terms("  JOB Market\tworries ");
    assert_eq!(terms, vec!["job", "market", "worries"]);
}

#[test]
fn query_terms_of_empty_query_is_empty() {
    let terms = tarot::tarot_engine::query_terms("");
    assert!(terms.is_empty());
}

#[test]
fn deck_new_rejects_duplicate_ids() {
    let cards = vec![make_card("dup", "A", &[]), make_card("dup", "B", &[])];
    assert_eq!(TarotDeck::new(cards).unwrap_err(), LoadError::DuplicateId);
}

#[test]
fn deck_new_rejects_empty_keywords() {
    let mut card = make_card("a", "A", &[]);
    card.keywords.upright = Vec::new();
    assert_eq!(TarotDeck::new(vec![card]).unwrap_err(), LoadError::EmptyKeywords);
}

#[test]
fn deck_new_accepts_valid_catalog() {
    let deck = TarotDeck::new(vec![make_card("a", "A", &[]), make_card("b", "B", &[])]).unwrap();
    assert_eq!(deck.len(), 2);
    assert_eq!(deck.card_at(1).id, "b");
}
