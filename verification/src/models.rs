//! Card data model: the immutable card definitions the catalog holds, and
//! the record of one drawn card.

use vstd::prelude::*;

verus! {

/// Spec-level model of a keyword pair: each list as a sequence of
/// character sequences.
pub ghost struct KeywordsModel {
    pub upright: Seq<Seq<char>>,
    pub reversed: Seq<Seq<char>>,
}

/// Spec-level model of a card: every text field as a sequence of characters.
pub ghost struct CardModel {
    pub id: Seq<char>,
    pub name: Seq<char>,
    pub arcana: Seq<char>,
    pub suit: Option<Seq<char>>,
    pub number: int,
    pub archetype: Seq<char>,
    pub keywords: KeywordsModel,
    pub tags: Seq<Seq<char>>,
}

/// Spec-level model of a drawn card.
pub ghost struct DrawnModel {
    pub card: CardModel,
    pub is_reversed: bool,
    pub position_index: int,
}

/// The two keyword lists of a card, for its upright and reversed readings.
/// Invariant (established at catalog load): both lists are non-empty.
#[derive(Debug)]
pub struct Keywords {
    pub upright: Vec<String>,
    pub reversed: Vec<String>,
}

/// One card definition. Immutable after the catalog is loaded.
#[derive(Debug)]
pub struct TarotCard {
    pub id: String,
    pub name: String,
    /// `"major"` or `"minor"`.
    pub arcana: String,
    pub suit: Option<String>,
    pub number: i32,
    pub archetype: String,
    pub keywords: Keywords,
    /// Situational tags used for resonance matching against query terms.
    pub situational_tags: Vec<String>,
}

/// One card drawn by the engine: the card, its orientation, and the
/// zero-based order of the draw within one draw call.
#[derive(Debug)]
pub struct DrawnCard {
    pub card: TarotCard,
    pub is_reversed: bool,
    pub position_index: usize,
}

/// A request to draw `count` cards for a seeker's query.
#[derive(Debug)]
pub struct DrawRequest {
    pub user_query: String,
    pub count: usize,
}

/// The answer to a [`DrawRequest`]: the drawn cards and the narration
/// produced for them.
#[derive(Debug)]
pub struct DrawResponse {
    pub cards: Vec<DrawnCard>,
    pub interpretation_prompt: String,
}

impl View for Keywords {
    type V = KeywordsModel;

    open spec fn view(&self) -> KeywordsModel {
        KeywordsModel { upright: self.upright.deep_view(), reversed: self.reversed.deep_view() }
    }
}

impl View for TarotCard {
    type V = CardModel;

    open spec fn view(&self) -> CardModel {
        CardModel {
            id: self.id@,
            name: self.name@,
            arcana: self.arcana@,
            suit: match self.suit {
                Option::Some(s) => Option::Some(s@),
                Option::None => Option::None,
            },
            number: self.number as int,
            archetype: self.archetype@,
            keywords: self.keywords@,
            tags: self.situational_tags.deep_view(),
        }
    }
}

impl View for DrawnCard {
    type V = DrawnModel;

    open spec fn view(&self) -> DrawnModel {
        DrawnModel {
            card: self.card@,
            is_reversed: self.is_reversed,
            position_index: self.position_index as int,
        }
    }
}

impl DeepView for Keywords {
    type V = KeywordsModel;

    open spec fn deep_view(&self) -> KeywordsModel {
        self@
    }
}

impl DeepView for TarotCard {
    type V = CardModel;

    open spec fn deep_view(&self) -> CardModel {
        self@
    }
}

impl DeepView for DrawnCard {
    type V = DrawnModel;

    open spec fn deep_view(&self) -> DrawnModel {
        self@
    }
}

/// Clones a vector of strings; the result holds the same strings.
pub fn clone_strings(v: &Vec<String>) -> (r: Vec<String>)
    ensures
        r@ == v@,
        r.deep_view() == v.deep_view(),
{
    let r = v.clone();
    proof {
        assert forall|i: int| 0 <= i < r@.len() implies r@[i] == v@[i] by {
            assert(cloned::<String>(v[i], r[i]));
        }
        assert(r@ =~= v@);
        assert(r.deep_view() =~= v.deep_view());
    }
    r
}

impl Clone for Keywords {
    fn clone(&self) -> (r: Self)
        ensures
            r@ == self@,
    {
        Keywords {
            upright: clone_strings(&self.upright),
            reversed: clone_strings(&self.reversed),
        }
    }
}

impl Clone for TarotCard {
    fn clone(&self) -> (r: Self)
        ensures
            r@ == self@,
    {
        TarotCard {
            id: self.id.clone(),
            name: self.name.clone(),
            arcana: self.arcana.clone(),
            suit: match &self.suit {
                Option::Some(s) => Option::Some(s.clone()),
                Option::None => Option::None,
            },
            number: self.number,
            archetype: self.archetype.clone(),
            keywords: self.keywords.clone(),
            situational_tags: clone_strings(&self.situational_tags),
        }
    }
}

impl Clone for DrawnCard {
    fn clone(&self) -> (r: Self)
        ensures
            r@ == self@,
    {
        DrawnCard {
            card: self.card.clone(),
            is_reversed: self.is_reversed,
            position_index: self.position_index,
        }
    }
}

} // verus!
