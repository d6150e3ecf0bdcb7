//! The card catalog and the context-weighted, without-replacement drawer.
//!
//! Every card starts at resonance weight 1; each situational tag that
//! textually overlaps a query term adds 2. A draw repeatedly picks one of
//! the remaining catalog indices with probability proportional to its
//! weight, by the standard linear-scan weighted choice over an integer
//! weight total, then orients the card: reversed on 3 of 10 equally
//! likely rolls, upright otherwise.

use vstd::prelude::*;

use crate::models::{CardModel, DrawnCard, DrawnModel, TarotCard};
use crate::rng::rand_below;
use crate::text::{has_sub, lower_of, lowercase, split_terms, split_whitespace_terms};

verus! {

/// The largest catalog the engine accepts; keeps weight sums far from
/// machine limits (a standard deck has 78 cards).
pub const MAX_CATALOG_SIZE: usize = 10000;

/// The most situational tags one card may carry; keeps one card's weight
/// far from machine limits.
pub const MAX_TAGS_PER_CARD: usize = 1000;

/// The largest resonance weight one card can reach under the limits above.
pub const MAX_CARD_WEIGHT: u64 = 2001;

/// Whether a tag textually overlaps some query term: the tag occurs in the
/// term, or the term in the tag (intentionally loose, so "job" and
/// "jobless" resonate either way).
pub open spec fn tag_matches(tag: Seq<char>, terms: Seq<Seq<char>>) -> bool {
    exists|i: int|
        0 <= i < terms.len() && (has_sub(#[trigger] terms[i], tag) || has_sub(tag, terms[i]))
}

/// How many of the tags overlap some query term.
pub open spec fn match_count(tags: Seq<Seq<char>>, terms: Seq<Seq<char>>) -> nat
    decreases tags.len(),
{
    if tags.len() == 0 {
        0
    } else {
        match_count(tags.drop_last(), terms) + (if tag_matches(tags.last(), terms) {
            1nat
        } else {
            0nat
        })
    }
}

/// The resonance weight of a card with the given tags against the given
/// terms: 1, plus 2 for each matching tag. Additive and unbounded by
/// design; a card with many matching tags may dominate.
pub open spec fn resonance_weight_of(tags: Seq<Seq<char>>, terms: Seq<Seq<char>>) -> nat {
    1 + 2 * match_count(tags, terms)
}

/// The query terms a draw matches tags against: the query lowercased, then
/// split on whitespace.
pub open spec fn query_terms_of(query: Seq<char>) -> Seq<Seq<char>> {
    split_terms(lower_of(query))
}

/// More matching tags never mean a smaller resonance weight; selection
/// probability is proportional to weight, so over repeated draws with a
/// fixed catalog and query, a card whose tags match the query is selected
/// no less often in expectation than an otherwise-identical card whose
/// tags do not.
pub proof fn lemma_resonance_weight_monotone(
    tags_a: Seq<Seq<char>>,
    tags_b: Seq<Seq<char>>,
    terms: Seq<Seq<char>>,
)
    requires
        match_count(tags_a, terms) >= match_count(tags_b, terms),
    ensures
        resonance_weight_of(tags_a, terms) >= resonance_weight_of(tags_b, terms),
{
}

/// A card none of whose tags match the terms sits at the base weight 1.
pub proof fn lemma_no_match_weight_is_one(tags: Seq<Seq<char>>, terms: Seq<Seq<char>>)
    requires
        forall|j: int| 0 <= j < tags.len() ==> !tag_matches(#[trigger] tags[j], terms),
    ensures
        resonance_weight_of(tags, terms) == 1,
    decreases tags.len(),
{
    if tags.len() > 0 {
        lemma_no_match_weight_is_one(tags.drop_last(), terms);
    }
}

/// A card with at least one matching tag weighs at least 3: strictly more
/// than any card with none.
pub proof fn lemma_match_weight_at_least_three(tags: Seq<Seq<char>>, terms: Seq<Seq<char>>)
    requires
        exists|j: int| 0 <= j < tags.len() && tag_matches(#[trigger] tags[j], terms),
    ensures
        resonance_weight_of(tags, terms) >= 3,
    decreases tags.len(),
{
    let j = choose|j: int| 0 <= j < tags.len() && tag_matches(#[trigger] tags[j], terms);
    if j == tags.len() - 1 {
        lemma_match_count_bounds(tags.drop_last(), terms);
    } else {
        assert(tags.drop_last()[j] == tags[j]);
        lemma_match_weight_at_least_three(tags.drop_last(), terms);
    }
}

/// No more tags can match than there are tags.
pub proof fn lemma_match_count_bounds(tags: Seq<Seq<char>>, terms: Seq<Seq<char>>)
    ensures
        match_count(tags, terms) <= tags.len(),
    decreases tags.len(),
{
    if tags.len() > 0 {
        lemma_match_count_bounds(tags.drop_last(), terms);
    }
}

/// Tokenizes a query into the terms tags are matched against: the query
/// lowercased, then split on whitespace.
pub fn query_terms(query: &str) -> (terms: Vec<String>)
    ensures
        terms.deep_view() == query_terms_of(query@),
{
    let lower = lowercase(query);
    split_whitespace_terms(lower.as_str())
}

fn term_matches_tag(tag: &String, terms: &Vec<String>) -> (r: bool)
    ensures
        r == tag_matches(tag@, terms.deep_view()),
{
    let mut i: usize = 0;
    while i < terms.len()
        invariant
            i <= terms.len(),
            forall|p: int|
                0 <= p < i ==> !(has_sub(#[trigger] terms.deep_view()[p], tag@) || has_sub(
                    tag@,
                    terms.deep_view()[p],
                )),
        decreases terms.len() - i,
    {
        if contains_sub_pair(&terms[i], tag) {
            proof {
                assert(tag_matches(tag@, terms.deep_view())) by {
                    assert(has_sub(terms.deep_view()[i as int], tag@) || has_sub(
                        tag@,
                        terms.deep_view()[i as int],
                    ));
                }
            }
            return true;
        }
        i = i + 1;
    }
    false
}

fn contains_sub_pair(term: &String, tag: &String) -> (r: bool)
    ensures
        r == (has_sub(term@, tag@) || has_sub(tag@, term@)),
{
    let a = crate::text::contains_sub(term.as_str(), tag.as_str());
    if a {
        return true;
    }
    crate::text::contains_sub(tag.as_str(), term.as_str())
}

/// The resonance weight of one card against already-tokenized query terms.
pub fn resonance_weight(card: &TarotCard, terms: &Vec<String>) -> (w: u64)
    requires
        card@.tags.len() <= MAX_TAGS_PER_CARD,
    ensures
        w == resonance_weight_of(card@.tags, terms.deep_view()),
        1 <= w <= MAX_CARD_WEIGHT,
{
    let mut w: u64 = 1;
    let mut i: usize = 0;
    proof {
        assert(card@.tags.take(0) =~= Seq::<Seq<char>>::empty());
    }
    while i < card.situational_tags.len()
        invariant
            i <= card.situational_tags.len(),
            card@.tags.len() == card.situational_tags.len() <= MAX_TAGS_PER_CARD,
            card@.tags == card.situational_tags.deep_view(),
            w == resonance_weight_of(card@.tags.take(i as int), terms.deep_view()),
            w <= 1 + 2 * i,
        decreases card.situational_tags.len() - i,
    {
        proof {
            let tags = card@.tags;
            assert(tags.take(i + 1).drop_last() =~= tags.take(i as int));
            assert(tags.take(i + 1).last() == tags[i as int]);
        }
        if term_matches_tag(&card.situational_tags[i], terms) {
            w = w + 2;
        }
        i = i + 1;
    }
    proof {
        assert(card@.tags.take(card@.tags.len() as int) =~= card@.tags);
        lemma_match_count_bounds(card@.tags, terms.deep_view());
    }
    w
}

/// The orientation rule: of the 10 equally likely orientation rolls,
/// exactly the 3 lowest give a reversed card, so orientation frequency
/// converges to 30% reversed over many independent draws.
pub fn orientation_from_roll(roll: u64) -> (is_reversed: bool)
    requires
        roll < 10,
    ensures
        is_reversed == (roll < 3),
{
    roll < 3
}

/// The sum of the weights of the first `k` still-available indices.
pub open spec fn avail_weight_sum(weights: Seq<u64>, avail: Seq<usize>, k: int) -> int
    decreases k,
{
    if k <= 0 {
        0
    } else {
        avail_weight_sum(weights, avail, k - 1) + weights[avail[k - 1] as int]
    }
}

proof fn lemma_avail_weight_bounds(weights: Seq<u64>, avail: Seq<usize>, k: int)
    requires
        0 <= k <= avail.len(),
        forall|p: int| 0 <= p < avail.len() ==> (#[trigger] avail[p]) < weights.len(),
        forall|p: int|
            0 <= p < avail.len() ==> 1 <= (#[trigger] weights[avail[p] as int])
                <= MAX_CARD_WEIGHT,
    ensures
        k <= avail_weight_sum(weights, avail, k) <= k * 2001,
    decreases k,
{
    if k > 0 {
        lemma_avail_weight_bounds(weights, avail, k - 1);
    }
}

fn sum_avail_weights(weights: &Vec<u64>, avail: &Vec<usize>) -> (total: u64)
    requires
        avail@.len() <= MAX_CATALOG_SIZE,
        forall|p: int| 0 <= p < avail@.len() ==> (#[trigger] avail@[p]) < weights@.len(),
        forall|p: int|
            0 <= p < avail@.len() ==> 1 <= (#[trigger] weights@[avail@[p] as int])
                <= MAX_CARD_WEIGHT,
    ensures
        total == avail_weight_sum(weights@, avail@, avail@.len() as int),
        avail@.len() <= total,
{
    let mut total: u64 = 0;
    let mut i: usize = 0;
    while i < avail.len()
        invariant
            i <= avail@.len() <= MAX_CATALOG_SIZE,
            forall|p: int| 0 <= p < avail@.len() ==> (#[trigger] avail@[p]) < weights@.len(),
            forall|p: int|
                0 <= p < avail@.len() ==> 1 <= (#[trigger] weights@[avail@[p] as int])
                    <= MAX_CARD_WEIGHT,
            total == avail_weight_sum(weights@, avail@, i as int),
            i <= total <= i * 2001,
        decreases avail@.len() - i,
    {
        let w = weights[avail[i]];
        total = total + w;
        i = i + 1;
    }
    total
}

/// The least position whose cumulative weight exceeds the draw value `r`:
/// the standard linear-scan weighted choice over the still-available
/// indices, ties resolving to the earliest position in catalog order.
/// Deterministic in `r`, so a seeded caller can verify exact selection
/// sequences; `draw_with_context` feeds it one uniform draw value per
/// selection.
pub fn select_pos(weights: &Vec<u64>, avail: &Vec<usize>, r: u64) -> (pos: usize)
    requires
        1 <= avail@.len() <= MAX_CATALOG_SIZE,
        forall|p: int| 0 <= p < avail@.len() ==> (#[trigger] avail@[p]) < weights@.len(),
        forall|p: int|
            0 <= p < avail@.len() ==> 1 <= (#[trigger] weights@[avail@[p] as int])
                <= MAX_CARD_WEIGHT,
        r < avail_weight_sum(weights@, avail@, avail@.len() as int),
    ensures
        pos < avail@.len(),
        avail_weight_sum(weights@, avail@, pos as int) <= r,
        r < avail_weight_sum(weights@, avail@, pos as int + 1),
{
    let mut i: usize = 0;
    let mut acc: u64 = 0;
    loop
        invariant
            i < avail@.len() <= MAX_CATALOG_SIZE,
            forall|p: int| 0 <= p < avail@.len() ==> (#[trigger] avail@[p]) < weights@.len(),
            forall|p: int|
                0 <= p < avail@.len() ==> 1 <= (#[trigger] weights@[avail@[p] as int])
                    <= MAX_CARD_WEIGHT,
            r < avail_weight_sum(weights@, avail@, avail@.len() as int),
            acc == avail_weight_sum(weights@, avail@, i as int),
            acc <= r,
        decreases avail@.len() - i,
    {
        let w = weights[avail[i]];
        proof {
            lemma_avail_weight_bounds(weights@, avail@, i + 1);
        }
        if r < acc + w {
            return i;
        }
        acc = acc + w;
        proof {
            if i + 1 == avail@.len() {
                assert(false);
            }
        }
        i = i + 1;
    }
}

/// Why a catalog source was rejected at load.
#[derive(Debug, PartialEq, Eq, Structural)]
pub enum LoadError {
    /// Two cards share an id.
    DuplicateId,
    /// Some card has an empty upright or reversed keyword list.
    EmptyKeywords,
    /// The catalog or a card's tag list is larger than the engine accepts.
    TooLarge,
}

/// Whether two cards of the catalog share an id.
pub open spec fn cards_have_duplicate_id(cards: Seq<CardModel>) -> bool {
    exists|i: int, j: int|
        #![trigger cards[i], cards[j]]
        0 <= i < j < cards.len() && cards[i].id == cards[j].id
}

/// Whether some card has an empty keyword list.
pub open spec fn cards_have_empty_keywords(cards: Seq<CardModel>) -> bool {
    exists|i: int|
        0 <= i < cards.len() && ((#[trigger] cards[i]).keywords.upright.len() == 0
            || cards[i].keywords.reversed.len() == 0)
}

/// Whether the catalog exceeds the engine's size limits.
pub open spec fn cards_oversized(cards: Seq<CardModel>) -> bool {
    cards.len() > MAX_CATALOG_SIZE || exists|i: int|
        0 <= i < cards.len() && (#[trigger] cards[i]).tags.len() > MAX_TAGS_PER_CARD
}

/// The immutable, shared catalog of all card definitions, loaded once at
/// startup and never mutated afterwards.
#[derive(Debug)]
pub struct TarotDeck {
    cards: Vec<TarotCard>,
}

impl View for TarotDeck {
    type V = Seq<CardModel>;

    closed spec fn view(&self) -> Seq<CardModel> {
        self.cards.deep_view()
    }
}

impl TarotDeck {
    /// The catalog invariant: within the size limits, every keyword list
    /// non-empty, and all card ids unique.
    pub open spec fn wf(&self) -> bool {
        &&& self@.len() <= MAX_CATALOG_SIZE
        &&& forall|i: int|
            0 <= i < self@.len() ==> (#[trigger] self@[i]).keywords.upright.len() > 0
                && self@[i].keywords.reversed.len() > 0 && self@[i].tags.len()
                <= MAX_TAGS_PER_CARD
        &&& forall|i: int, j: int|
            #![trigger self@[i], self@[j]]
            0 <= i < j < self@.len() ==> self@[i].id != self@[j].id
    }

    /// Builds the catalog from already-decoded card records, rejecting a
    /// source with duplicate ids, empty keyword lists, or a size beyond
    /// the engine's limits.
    pub fn new(cards: Vec<TarotCard>) -> (r: Result<TarotDeck, LoadError>)
        ensures
            r is Ok <==> (!cards_oversized(cards.deep_view()) && !cards_have_empty_keywords(
                cards.deep_view(),
            ) && !cards_have_duplicate_id(cards.deep_view())),
            r == Result::<TarotDeck, LoadError>::Err(LoadError::TooLarge) <==> cards_oversized(
                cards.deep_view(),
            ),
            r == Result::<TarotDeck, LoadError>::Err(LoadError::EmptyKeywords) <==> (
            !cards_oversized(cards.deep_view()) && cards_have_empty_keywords(cards.deep_view())),
            r == Result::<TarotDeck, LoadError>::Err(LoadError::DuplicateId) <==> (
            !cards_oversized(cards.deep_view()) && !cards_have_empty_keywords(cards.deep_view())
                && cards_have_duplicate_id(cards.deep_view())),
            r matches Ok(deck) ==> deck@ == cards.deep_view() && deck.wf(),
    {
        let n = cards.len();
        if n > MAX_CATALOG_SIZE {
            return Err(LoadError::TooLarge);
        }
        let mut i: usize = 0;
        while i < n
            invariant
                n == cards.deep_view().len(),
                i <= n,
                forall|p: int|
                    0 <= p < i ==> (#[trigger] cards.deep_view()[p]).tags.len()
                        <= MAX_TAGS_PER_CARD,
            decreases n - i,
        {
            if cards[i].situational_tags.len() > MAX_TAGS_PER_CARD {
                proof {
                    assert(cards_oversized(cards.deep_view())) by {
                        assert((cards.deep_view()[i as int]).tags.len() > MAX_TAGS_PER_CARD);
                    }
                }
                return Err(LoadError::TooLarge);
            }
            i = i + 1;
        }
        let mut i: usize = 0;
        while i < n
            invariant
                n == cards.deep_view().len(),
                n <= MAX_CATALOG_SIZE,
                i <= n,
                !cards_oversized(cards.deep_view()),
                forall|p: int|
                    0 <= p < i ==> (#[trigger] cards.deep_view()[p]).keywords.upright.len() > 0
                        && cards.deep_view()[p].keywords.reversed.len() > 0,
            decreases n - i,
        {
            if cards[i].keywords.upright.len() == 0 || cards[i].keywords.reversed.len() == 0 {
                proof {
                    assert(cards_have_empty_keywords(cards.deep_view())) by {
                        assert((cards.deep_view()[i as int]).keywords.upright.len() == 0 || (
                        cards.deep_view()[i as int]).keywords.reversed.len() == 0);
                    }
                }
                return Err(LoadError::EmptyKeywords);
            }
            i = i + 1;
        }
        let mut i: usize = 0;
        while i < n
            invariant
                n == cards.deep_view().len(),
                i <= n,
                !cards_oversized(cards.deep_view()),
                !cards_have_empty_keywords(cards.deep_view()),
                forall|p: int, q: int|
                    #![trigger cards.deep_view()[p], cards.deep_view()[q]]
                    0 <= p < q < n && p < i ==> cards.deep_view()[p].id != cards.deep_view()[q].id,
            decreases n - i,
        {
            let mut j: usize = i + 1;
            while j < n
                invariant
                    n == cards.deep_view().len(),
                    !cards_oversized(cards.deep_view()),
                    !cards_have_empty_keywords(cards.deep_view()),
                    i < n,
                    i + 1 <= j <= n,
                    forall|q: int|
                        i < q < j ==> (#[trigger] cards.deep_view()[q]).id != cards.deep_view()[i as int].id,
                decreases n - j,
            {
                if cards[i].id == cards[j].id {
                    proof {
                        assert(cards_have_duplicate_id(cards.deep_view())) by {
                            assert((cards.deep_view()[i as int]).id == (cards.deep_view()[
                                j as int]).id);
                        }
                    }
                    return Err(LoadError::DuplicateId);
                }
                j = j + 1;
            }
            i = i + 1;
        }
        let deck = TarotDeck { cards };
        Ok(deck)
    }

    /// How many cards the catalog holds.
    pub fn len(&self) -> (n: usize)
        ensures
            n == self@.len(),
    {
        self.cards.len()
    }

    /// Read-only indexed lookup by catalog position.
    pub fn card_at(&self, i: usize) -> (c: &TarotCard)
        requires
            i < self@.len(),
        ensures
            c@ == self@[i as int],
    {
        &self.cards[i]
    }

    /// Context-aware weighted draw without replacement.
    ///
    /// Returns `min(count, catalog size)` drawn cards: when `count` is at
    /// most the catalog size, exactly `count` cards with pairwise-distinct
    /// underlying ids; when `count` exceeds it, the whole catalog, every
    /// card exactly once, in a random weighted order. Each card's
    /// selection probability is proportional to its resonance weight
    /// against the query; each orientation is an independent draw,
    /// reversed on 3 of 10 equally likely rolls.
    pub fn draw_with_context(&self, query: &str, count: usize) -> (drawn: Vec<DrawnCard>)
        requires
            self.wf(),
        ensures
            drawn.deep_view().len() == (if count as int <= self@.len() {
                count as int
            } else {
                self@.len() as int
            }),
            positions_in_order(drawn.deep_view()),
            all_from_catalog(drawn.deep_view(), self@),
            distinct_ids(drawn.deep_view()),
            count >= self@.len() ==> covers_catalog(drawn.deep_view(), self@),
    {
        let terms = query_terms(query);
        let n = self.cards.len();

        let mut weights: Vec<u64> = Vec::new();
        let mut i: usize = 0;
        while i < n
            invariant
                self.wf(),
                n == self.cards.len(),
                n == self@.len(),
                i <= n,
                weights@.len() == i,
                forall|p: int| 0 <= p < i ==> 1 <= (#[trigger] weights@[p]) <= MAX_CARD_WEIGHT,
            decreases n - i,
        {
            proof {
                assert(self.cards@[i as int]@ == self@[i as int]);
            }
            let w = resonance_weight(&self.cards[i], &terms);
            weights.push(w);
            i = i + 1;
        }

        let mut avail: Vec<usize> = Vec::new();
        let mut i: usize = 0;
        while i < n
            invariant
                i <= n,
                avail@.len() == i,
                forall|p: int| 0 <= p < i ==> (#[trigger] avail@[p]) == p,
            decreases n - i,
        {
            avail.push(i);
            i = i + 1;
        }

        let mut drawn: Vec<DrawnCard> = Vec::new();
        let ghost mut chosen: Seq<int> = Seq::empty();
        let mut k: usize = 0;
        proof {
            assert forall|c: int| 0 <= c < n implies covered_by(c, chosen, avail@) by {
                assert((avail@[c]) as int == c);
            }
        }
        while k < count && avail.len() > 0
            invariant
                self.wf(),
                n == self.cards.len(),
                n == self@.len(),
                n <= MAX_CATALOG_SIZE,
                weights@.len() == n,
                forall|p: int| 0 <= p < n ==> 1 <= (#[trigger] weights@[p]) <= MAX_CARD_WEIGHT,
                k <= count,
                drawn.deep_view().len() == k,
                chosen.len() == k,
                avail@.len() + k == n,
                forall|p: int| 0 <= p < avail@.len() ==> (#[trigger] avail@[p]) < n,
                forall|p: int, q: int|
                    #![trigger avail@[p], avail@[q]]
                    0 <= p < q < avail@.len() ==> avail@[p] != avail@[q],
                forall|j: int| 0 <= j < k ==> 0 <= (#[trigger] chosen[j]) < n,
                forall|j: int|
                    #![trigger drawn.deep_view()[j]]
                    0 <= j < k ==> drawn.deep_view()[j].card == self@[chosen[j]]
                        && drawn.deep_view()[j].position_index == j,
                forall|j: int, l: int|
                    #![trigger chosen[j], chosen[l]]
                    0 <= j < l < k ==> chosen[j] != chosen[l],
                forall|j: int, p: int|
                    #![trigger chosen[j], avail@[p]]
                    0 <= j < k && 0 <= p < avail@.len() ==> chosen[j] != avail@[p] as int,
                forall|c: int| 0 <= c < n ==> covered_by(c, chosen, avail@),
            decreases count - k,
        {
            let total = sum_avail_weights(&weights, &avail);
            let r = rand_below(total);
            let pos = select_pos(&weights, &avail, r);
            let ghost a0 = avail@;
            let idx = avail.remove(pos);
            let roll = rand_below(10);
            let pc = drawn.len();
            let ghost prev_drawn = drawn.deep_view();
            let card = self.cards[idx].clone();
            drawn.push(
                DrawnCard { card, is_reversed: orientation_from_roll(roll), position_index: pc },
            );
            proof {
                let a1 = avail@;
                a0.remove_ensures(pos as int);
                let ghost c0 = chosen;
                chosen = chosen.push(idx as int);
                assert(drawn.deep_view() =~= prev_drawn.push(drawn.deep_view()[k as int]));
                assert(drawn.deep_view()[k as int].card == self@[idx as int]);
                assert forall|p: int, q: int|
                    #![trigger a1[p], a1[q]]
                    0 <= p < q < a1.len() implies a1[p] != a1[q] by {
                    let p2: int = if p < pos { p } else { p + 1 };
                    let q2: int = if q < pos { q } else { q + 1 };
                    assert(a1[p] == a0[p2]);
                    assert(a1[q] == a0[q2]);
                }
                assert forall|j: int, p: int|
                    #![trigger chosen[j], a1[p]]
                    0 <= j < k + 1 && 0 <= p < a1.len() implies chosen[j] != a1[p] as int by {
                    let p2: int = if p < pos { p } else { p + 1 };
                    assert(a1[p] == a0[p2]);
                    if j < k {
                        assert(chosen[j] != a0[p2] as int);
                    } else {
                        assert(chosen[j] == a0[pos as int] as int);
                        assert(a0[p2] != a0[pos as int]);
                    }
                }
                assert forall|c: int| 0 <= c < n implies covered_by(c, chosen, a1) by {
                    assert(covered_by(c, c0, a0));
                    if exists|j: int| 0 <= j < c0.len() && #[trigger] c0[j] == c {
                        let j = choose|j: int| 0 <= j < c0.len() && #[trigger] c0[j] == c;
                        assert(chosen[j] == c);
                    } else {
                        let p = choose|p: int| 0 <= p < a0.len() && (#[trigger] a0[p]) as int == c;
                        if p == pos {
                            assert(chosen[k as int] == c);
                        } else {
                            let p2: int = if p < pos { p } else { p - 1 };
                            assert(a1[p2] == a0[p]);
                            assert((a1[p2]) as int == c);
                        }
                    }
                }
            }
            k = k + 1;
        }
        proof {
            let dv = drawn.deep_view();
            assert forall|j: int, l: int|
                #![trigger dv[j], dv[l]]
                0 <= j < l < dv.len() implies dv[j].card.id != dv[l].card.id by {
                let cj = chosen[j];
                let cl = chosen[l];
                assert(dv[j].card == self@[cj]);
                assert(dv[l].card == self@[cl]);
                if cj < cl {
                    assert(self@[cj].id != self@[cl].id);
                } else {
                    assert(self@[cl].id != self@[cj].id);
                }
            }
            assert forall|j: int| #![trigger dv[j]] 0 <= j < dv.len() implies exists|i: int|
                0 <= i < self@.len() && dv[j].card == #[trigger] self@[i] by {
                assert(dv[j].card == self@[chosen[j]]);
            }
            if count >= self@.len() {
                assert(avail@.len() == 0);
                assert forall|i: int| #![trigger self@[i]] 0 <= i < self@.len() implies exists|
                    j: int,
                |
                    0 <= j < dv.len() && (#[trigger] dv[j]).card == self@[i] by {
                    assert(covered_by(i, chosen, avail@));
                    let j = choose|j: int| 0 <= j < chosen.len() && #[trigger] chosen[j] == i;
                    assert(dv[j].card == self@[i]);
                }
            }
        }
        drawn
    }
}

/// Whether catalog index `c` is accounted for: already chosen, or still
/// available.
pub open spec fn covered_by(c: int, chosen: Seq<int>, avail: Seq<usize>) -> bool {
    (exists|j: int| 0 <= j < chosen.len() && #[trigger] chosen[j] == c) || (exists|p: int|
        0 <= p < avail.len() && (#[trigger] avail[p]) as int == c)
}

/// Every drawn card records its 0-based position in draw order.
pub open spec fn positions_in_order(drawn: Seq<DrawnModel>) -> bool {
    forall|j: int| 0 <= j < drawn.len() ==> (#[trigger] drawn[j]).position_index == j
}

/// Every drawn card is one of the catalog's.
pub open spec fn all_from_catalog(drawn: Seq<DrawnModel>, catalog: Seq<CardModel>) -> bool {
    forall|j: int|
        #![trigger drawn[j]]
        0 <= j < drawn.len() ==> exists|i: int|
            0 <= i < catalog.len() && drawn[j].card == #[trigger] catalog[i]
}

/// No two drawn cards share an underlying card id.
pub open spec fn distinct_ids(drawn: Seq<DrawnModel>) -> bool {
    forall|j: int, l: int|
        #![trigger drawn[j], drawn[l]]
        0 <= j < l < drawn.len() ==> drawn[j].card.id != drawn[l].card.id
}

/// Every catalog card appears among the drawn ones.
pub open spec fn covers_catalog(drawn: Seq<DrawnModel>, catalog: Seq<CardModel>) -> bool {
    forall|i: int|
        #![trigger catalog[i]]
        0 <= i < catalog.len() ==> exists|j: int|
            0 <= j < drawn.len() && (#[trigger] drawn[j]).card == catalog[i]
}

} // verus!
