//! Prompt building and the deterministic local fallback narration.
//!
//! The remote text-completion call lives outside the library; what the
//! library owns is the exact text handed to it and the fallback narration
//! synthesized from the card names and keywords when that call fails.

use vstd::prelude::*;
use vstd::string::StringExecFns;

use crate::models::{DrawnCard, DrawnModel};
use crate::text::{dec_chars, join_with, join_strings, u64_to_string};

verus! {

broadcast use vstd::string::group_string_axioms;

/// The label a card's orientation gets in prompts.
pub open spec fn orientation_label(is_reversed: bool) -> Seq<char> {
    if is_reversed {
        "Reversed"@
    } else {
        "Upright"@
    }
}

/// The keyword list a reading draws on: the reversed list for a reversed
/// card, the upright list otherwise.
pub open spec fn chosen_keywords(d: DrawnModel) -> Seq<Seq<char>> {
    if d.is_reversed {
        d.card.keywords.reversed
    } else {
        d.card.keywords.upright
    }
}

/// One prompt line: `Card <n>: <name> (<orientation>) - Keywords: <kw, kw>`,
/// with `n` counted from 1.
pub open spec fn prompt_line(idx: int, d: DrawnModel) -> Seq<char> {
    "Card "@ + dec_chars(idx + 1) + ": "@ + d.card.name + " ("@ + orientation_label(d.is_reversed)
        + ") - Keywords: "@ + join_with(chosen_keywords(d), ", "@)
}

/// The prompt lines for all drawn cards, joined with newlines.
pub open spec fn prompt_lines(cards: Seq<DrawnModel>) -> Seq<char>
    decreases cards.len(),
{
    if cards.len() == 0 {
        Seq::empty()
    } else if cards.len() == 1 {
        prompt_line(0, cards[0])
    } else {
        prompt_lines(cards.drop_last()) + "\n"@ + prompt_line(cards.len() - 1, cards.last())
    }
}

fn format_one_card(idx: u64, d: &DrawnCard) -> (r: String)
    requires
        idx < u64::MAX,
    ensures
        r@ == prompt_line(idx as int, d@),
{
    let mut r = String::new();
    r.append("Card ");
    let num = u64_to_string(idx + 1);
    r.append(num.as_str());
    r.append(": ");
    r.append(d.card.name.as_str());
    r.append(" (");
    if d.is_reversed {
        r.append("Reversed");
    } else {
        r.append("Upright");
    }
    r.append(") - Keywords: ");
    let kws = if d.is_reversed {
        &d.card.keywords.reversed
    } else {
        &d.card.keywords.upright
    };
    let joined = join_strings(kws, ", ");
    r.append(joined.as_str());
    proof {
        assert(r@ =~= prompt_line(idx as int, d@));
    }
    r
}

/// Renders the drawn cards for the interpretation prompt, one line per
/// card in draw order.
pub fn format_cards_for_prompt(cards: &Vec<DrawnCard>) -> (r: String)
    ensures
        r@ == prompt_lines(cards.deep_view()),
{
    let mut r = String::new();
    let mut i: usize = 0;
    while i < cards.len()
        invariant
            i <= cards.len(),
            r@ == prompt_lines(cards.deep_view().take(i as int)),
        decreases cards.len() - i,
    {
        if i > 0 {
            r.append("\n");
        }
        let line = format_one_card(i as u64, &cards[i]);
        r.append(line.as_str());
        proof {
            let dv = cards.deep_view();
            assert(dv.take(i + 1).drop_last() =~= dv.take(i as int));
            assert(dv.take(i + 1).last() == dv[i as int]);
            assert(r@ =~= prompt_lines(dv.take(i + 1)));
        }
        i = i + 1;
    }
    proof {
        assert(cards.deep_view().take(cards.len() as int) =~= cards.deep_view());
    }
    r
}

/// The names of the drawn cards, in draw order.
pub open spec fn card_names(cards: Seq<DrawnModel>) -> Seq<Seq<char>>
    decreases cards.len(),
{
    if cards.len() == 0 {
        Seq::empty()
    } else {
        card_names(cards.drop_last()).push(cards.last().card.name)
    }
}

/// The keywords the reading draws on, flattened over the drawn cards in
/// draw order.
pub open spec fn themed_keywords(cards: Seq<DrawnModel>) -> Seq<Seq<char>>
    decreases cards.len(),
{
    if cards.len() == 0 {
        Seq::empty()
    } else {
        themed_keywords(cards.drop_last()) + chosen_keywords(cards.last())
    }
}

fn append_all(dst: &mut Vec<String>, src: &Vec<String>)
    ensures
        final(dst).deep_view() == old(dst).deep_view() + src.deep_view(),
{
    let mut i: usize = 0;
    while i < src.len()
        invariant
            i <= src.len(),
            dst.deep_view() == old(dst).deep_view() + src.deep_view().take(i as int),
        decreases src.len() - i,
    {
        let ghost prev = dst.deep_view();
        dst.push(src[i].clone());
        proof {
            assert(dst.deep_view() =~= prev.push(src.deep_view()[i as int]));
            assert(dst.deep_view() =~= old(dst).deep_view() + src.deep_view().take(i + 1));
        }
        i = i + 1;
    }
    proof {
        assert(src.deep_view().take(src.len() as int) =~= src.deep_view());
    }
}

/// The deterministic, locally synthesized narration: a fixed opening, the
/// query, the card names, the keyword themes, and a fixed piece of advice.
pub open spec fn fallback_text(query: Seq<char>, cards: Seq<DrawnModel>) -> Seq<char> {
    "The cards have spoken, seeker. You asked: '"@ + query + "'. The cards drawn are: "@
        + join_with(card_names(cards), ", "@) + ". The key themes here are "@ + join_with(
        themed_keywords(cards),
        ", "@,
    ) + ". Advice: Focus on your inner truth."@
}

/// Builds the fallback narration from the card names and keywords; used
/// whenever the remote interpretation call fails, so a narration can
/// always be emitted.
pub fn generate_fallback_interpretation(query: &str, cards: &Vec<DrawnCard>) -> (r: String)
    ensures
        r@ == fallback_text(query@, cards.deep_view()),
{
    let mut names: Vec<String> = Vec::new();
    let mut kws: Vec<String> = Vec::new();
    let mut i: usize = 0;
    while i < cards.len()
        invariant
            i <= cards.len(),
            names.deep_view() == card_names(cards.deep_view().take(i as int)),
            kws.deep_view() == themed_keywords(cards.deep_view().take(i as int)),
        decreases cards.len() - i,
    {
        proof {
            let dv = cards.deep_view();
            assert(dv.take(i + 1).drop_last() =~= dv.take(i as int));
            assert(dv.take(i + 1).last() == dv[i as int]);
        }
        let ghost prev_names = names.deep_view();
        names.push(cards[i].card.name.clone());
        proof {
            assert(names.deep_view() =~= prev_names.push(
                cards.deep_view()[i as int].card.name,
            ));
        }
        let chosen = if cards[i].is_reversed {
            &cards[i].card.keywords.reversed
        } else {
            &cards[i].card.keywords.upright
        };
        append_all(&mut kws, chosen);
        i = i + 1;
    }
    proof {
        assert(cards.deep_view().take(cards.len() as int) =~= cards.deep_view());
    }
    let mut r = String::new();
    r.append("The cards have spoken, seeker. You asked: '");
    r.append(query);
    r.append("'. The cards drawn are: ");
    let joined_names = join_strings(&names, ", ");
    r.append(joined_names.as_str());
    r.append(". The key themes here are ");
    let joined_kws = join_strings(&kws, ", ");
    r.append(joined_kws.as_str());
    r.append(". Advice: Focus on your inner truth.");
    proof {
        assert(r@ =~= fallback_text(query@, cards.deep_view()));
    }
    r
}

/// The user-role message handed to the interpretation generator: the
/// seeker's query and the rendered card lines.
pub open spec fn user_message_text(query: Seq<char>, cards: Seq<DrawnModel>) -> Seq<char> {
    "The seeker asks: \""@ + query + "\"\n\nThe following cards have been drawn:\n"@
        + prompt_lines(cards) + "\n\nPlease provide a mystical interpretation of this reading."@
}

/// Builds the user-role message for the interpretation generator.
pub fn build_user_message(query: &str, cards: &Vec<DrawnCard>) -> (r: String)
    ensures
        r@ == user_message_text(query@, cards.deep_view()),
{
    let mut r = String::new();
    r.append("The seeker asks: \"");
    r.append(query);
    r.append("\"\n\nThe following cards have been drawn:\n");
    let lines = format_cards_for_prompt(cards);
    r.append(lines.as_str());
    r.append("\n\nPlease provide a mystical interpretation of this reading.");
    proof {
        assert(r@ =~= user_message_text(query@, cards.deep_view()));
    }
    r
}

} // verus!
