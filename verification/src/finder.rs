//! The token finder: a client browses the kinds of tokens and picks kinds for its decks.
use vstd::prelude::*;

use crate::error::{GameError, GameErrorView};
use crate::instruction::num_tag;
use crate::registry::TokenRegistry;
use crate::state_resources::spec_kind_index;
use crate::tag::{data_body, get_tag, spec_get_tag, tag_text, Tag, TagFailure};
use crate::text::{push_str, spec_split, split_on, str_eq};

verus! {

/// What reading section `tag` of `data` gives, with the error a failure is reported as.
pub open spec fn tag_read(tag: Seq<char>, data: Seq<char>) -> Result<Seq<char>, GameErrorView> {
    match spec_get_tag(tag, data) {
        Ok(v) => Ok(v),
        Err(TagFailure::NoOpening) => Err(GameErrorView::TagNotFound(tag)),
        Err(TagFailure::NoClosing) => Err(GameErrorView::ClosingTagNotFound(tag)),
        Err(TagFailure::OutOfOrder) => Err(GameErrorView::TagOutOfOrder(tag)),
    }
}

/// A text result with its error taken as a value.
pub open spec fn text_view(r: Result<String, GameError>) -> Result<Seq<char>, GameErrorView> {
    match r {
        Ok(s) => Ok(s@),
        Err(e) => Err(e@),
    }
}

/// The answer to a search: for each kind, in the registry's order, an `add_result`
/// entry holding the kind's description, each entry ended by `//INS//`.
pub open spec fn spec_search_text(kinds: Seq<crate::token_data::TokenData>) -> Seq<char>
    decreases kinds.len(),
{
    if kinds.len() == 0 {
        Seq::empty()
    } else {
        spec_search_text(kinds.drop_last()) + "add_result|"@ + num_tag(1) + tag_text(data_body(kinds.last()))
            + "//INS//"@
    }
}

/// The answer to a request for the kind in section `id` of `data`, for the deck slot in
/// section `slot`: the slot and the kind's description.
pub open spec fn spec_set_token_text(reg: TokenRegistry, data: Seq<char>) -> Result<Seq<char>, GameErrorView> {
    match tag_read("id"@, data) {
        Err(e) => Err(e),
        Ok(id) => if !reg.spec_has(id) {
            Err(GameErrorView::UnknownTokenKind(id))
        } else {
            match tag_read("slot"@, data) {
                Err(e) => Err(e),
                Ok(slot) => Ok(
                    "add_set_token|"@ + num_tag(2) + tag_text(slot) + tag_text(
                        data_body(reg.tokens@[spec_kind_index(reg, id)]),
                    ),
                ),
            }
        },
    }
}

/// Reads section `tag` of `data` (see `get_tag`).
fn read_tag(tag: &str, data: &str) -> (r: Result<String, GameError>)
    ensures
        text_view(r) == tag_read(tag@, data@),
{
    let r = get_tag(tag, data);
    match r {
        Ok(s) => Ok(s),
        Err(e) => Err(e),
    }
}

/// The answer to a search (see `spec_search_text`).
pub fn search_results(registry: &TokenRegistry) -> (r: String)
    ensures
        r@ == spec_search_text(registry.tokens@),
{
    let mut s = String::new();
    let mut i: usize = 0;
    while i < registry.tokens.len()
        invariant
            i <= registry.tokens@.len(),
            s@ == spec_search_text(registry.tokens@.take(i as int)),
        decreases registry.tokens.len() - i,
    {
        let one = Tag::U64(1).build(registry);
        let body = Tag::TokenData(&registry.tokens[i]).build(registry);
        push_str(&mut s, "add_result|");
        push_str(&mut s, one.as_str());
        push_str(&mut s, body.as_str());
        push_str(&mut s, "//INS//");
        proof {
            reveal_strlit("add_result|");
            reveal_strlit("//INS//");
            let t = registry.tokens@.take(i + 1);
            assert(t.drop_last() =~= registry.tokens@.take(i as int));
            assert(t.last() == registry.tokens@[i as int]);
        }
        i = i + 1;
        assert(s@ =~= spec_search_text(registry.tokens@.take(i as int)));
    }
    assert(registry.tokens@.take(i as int) =~= registry.tokens@);
    s
}

/// The answer to a request for a kind for a deck slot (see `spec_set_token_text`).
pub fn set_token_text(registry: &TokenRegistry, data: &str) -> (r: Result<String, GameError>)
    requires
        registry.wf(),
    ensures
        text_view(r) == spec_set_token_text(*registry, data@),
{
    proof {
        reveal_strlit("id");
        reveal_strlit("slot");
    }
    let id = match read_tag("id", data) {
        Ok(s) => s,
        Err(e) => return Err(e),
    };
    let i = match registry.find(id.as_str()) {
        Some(i) => i,
        None => return Err(GameError::UnknownTokenKind(id)),
    };
    proof {
        let k = spec_kind_index(*registry, id@);
        assert(registry.spec_has(id@));
        assert(0 <= k < registry.tokens@.len() && registry.tokens@[k].id@ == id@);
        if k != i as int {
            if k < i as int {
                assert(registry.tokens@[k].id@ != registry.tokens@[i as int].id@);
            } else {
                assert(registry.tokens@[i as int].id@ != registry.tokens@[k].id@);
            }
        }
    }
    let slot = match read_tag("slot", data) {
        Ok(s) => s,
        Err(e) => return Err(e),
    };
    let two = Tag::U64(2).build(registry);
    let slot_tag = Tag::String(slot).build(registry);
    let body = Tag::TokenData(&registry.tokens[i]).build(registry);
    let mut s = String::new();
    push_str(&mut s, "add_set_token|");
    push_str(&mut s, two.as_str());
    push_str(&mut s, slot_tag.as_str());
    push_str(&mut s, body.as_str());
    proof {
        reveal_strlit("add_set_token|");
    }
    Ok(s)
}

/// What the finder answers a message of the client, `instruction|data`, in the order
/// the answers are sent: a search clears the results and sends all kinds; a request for
/// a deck slot sends that kind, or fails; anything else gets no answer.
pub open spec fn spec_finder_answers(reg: TokenRegistry, message: Seq<char>) -> Result<Seq<Seq<char>>, GameErrorView> {
    let parts = spec_split(message, '|');
    if parts.len() != 2 {
        Ok(Seq::empty())
    } else if parts[0] == "search"@ {
        Ok(seq!["clear_results|"@ + num_tag(0), spec_search_text(reg.tokens@)])
    } else if parts[0] == "get_set_token"@ {
        match spec_set_token_text(reg, parts[1]) {
            Err(e) => Err(e),
            Ok(t) => Ok(seq![t]),
        }
    } else {
        Ok(Seq::empty())
    }
}

/// What the finder answers a message (see `spec_finder_answers`).
pub fn finder_answers(registry: &TokenRegistry, message: &str) -> (r: Result<Vec<String>, GameError>)
    requires
        registry.wf(),
    ensures
        match spec_finder_answers(*registry, message@) {
            Ok(ts) => r matches Ok(v) && v@.map_values(|s: String| s@) == ts,
            Err(e) => r matches Err(x) && x@ == e,
        },
{
    let parts = split_on(message, '|');
    let mut out: Vec<String> = Vec::new();
    if parts.len() != 2 {
        assert(out@.map_values(|s: String| s@) =~= Seq::<Seq<char>>::empty());
        return Ok(out);
    }
    let instruction = parts[0].as_str();
    if str_eq(instruction, "search") {
        let mut clear = String::new();
        push_str(&mut clear, "clear_results|");
        let zero = Tag::U64(0).build(registry);
        push_str(&mut clear, zero.as_str());
        out.push(clear);
        out.push(search_results(registry));
        proof {
            reveal_strlit("clear_results|");
            reveal_strlit("search");
        }
        assert(out@.map_values(|s: String| s@) =~= seq!["clear_results|"@ + num_tag(0), spec_search_text(registry.tokens@)]);
        Ok(out)
    } else if str_eq(instruction, "get_set_token") {
        proof {
            reveal_strlit("search");
            reveal_strlit("get_set_token");
        }
        match set_token_text(registry, parts[1].as_str()) {
            Err(e) => Err(e),
            Ok(t) => {
                out.push(t);
                assert(out@.map_values(|s: String| s@) =~= seq![out@[0]@]);
                Ok(out)
            },
        }
    } else {
        proof {
            reveal_strlit("search");
            reveal_strlit("get_set_token");
        }
        assert(out@.map_values(|s: String| s@) =~= Seq::<Seq<char>>::empty());
        Ok(out)
    }
}

} // verus!
