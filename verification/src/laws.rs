//! Properties that relate several operations of the library.
use vstd::prelude::*;

use crate::animation_presets::AnimationPreset;
use crate::board::spec_side;
use crate::error::GameError;
use crate::game_communicator::OutgoingView;
use crate::game_context::{ContextValueView, GameContext};
use crate::id_types::{spec_opponent, LocationId, PromptInstanceId, TokenInstanceId};
use crate::instruction::InstructionView;
use crate::locations::{other_than, without, LocationStore, LocationView};
use crate::prompts::{PromptCallback, PromptProfile};
use crate::registry::TokenRegistry;
use crate::state_resources::{spec_destroy, spec_kind_index, spec_move_token, StateResources};
use crate::tag::{close_tag, open_tag, spec_get_tag};
use crate::text::{
    all_digits, decimal, digit_char, digit_value, digits_value, first_occurrence_at, is_digit, lemma_find_is_first, lemma_first_occurrence_unique,
    occurs_at, spec_find, spec_parse_u64,
};
use crate::token_data::TokenData;
use crate::token_instance::TokenInstanceView;
use crate::state_resources::{spec_player, spec_summon_check};
use crate::turn::{field_location, in_row, min_row, row_of, spec_attackable, spec_field_pairs, spec_start_turn};
use crate::location_ids::{spec_identify_location, spec_is_field_of};
use crate::token_instance::TokenInstance;
use crate::id_types::PlayerId;
use crate::board::Board;
use crate::context_keys;
use crate::game_context::{ctx_player, ctx_token};
use crate::process::spec_step;
use crate::state_machine::GroupView;
use crate::token_data::{
    TokenBehaviorTrigger, TokenBehaviorTriggerWhen, TokenBehaviorTriggerWhenActivator, TokenBehaviorTriggerWhenName,
};
use crate::actions::{actions_fold, ctx_is_this, spec_trigger, WorldView};
use crate::error::GameErrorView;
use crate::process::StepKind;
use crate::token_instance::UnitStats;

verus! {

proof fn lemma_digit_round_trip(d: int)
    requires
        0 <= d < 10,
    ensures
        is_digit(digit_char(d)),
        digit_value(digit_char(d)) == d,
        digit_char(d) != '+',
{
}

proof fn lemma_decimal_digits(n: nat)
    ensures
        decimal(n).len() > 0,
        all_digits(decimal(n)),
        digits_value(decimal(n)) == n,
    decreases n,
{
    if n < 10 {
        lemma_digit_round_trip(n as int);
        assert(decimal(n).drop_last() =~= Seq::<char>::empty());
        assert(digits_value(Seq::<char>::empty()) == 0);
        assert(decimal(n).last() == digit_char(n as int));
        assert(digits_value(decimal(n)) == n);
    } else {
        lemma_decimal_digits(n / 10);
        lemma_digit_round_trip((n % 10) as int);
        let s = decimal(n);
        assert(s.drop_last() =~= decimal(n / 10));
        assert(s.last() == digit_char((n % 10) as int));
        assert((n / 10) * 10 + n % 10 == n) by (nonlinear_arith);
        assert(digits_value(s) == digits_value(decimal(n / 10)) * 10 + digit_value(s.last()));
        assert(digits_value(s) == n);
        assert forall|i: int| 0 <= i < s.len() implies is_digit(#[trigger] s[i]) by {
            if i < s.len() - 1 {
                assert(s[i] == decimal(n / 10)[i]);
            }
        }
    }
}

/// Every identifier read back from the decimal text it is written as is the same
/// identifier: parsing the decimal form of a `u64` gives that number.
pub proof fn law_decimal_round_trip(n: u64)
    ensures
        spec_parse_u64(decimal(n as nat)) == Ok::<u64, crate::text::IntParseError>(n),
{
    lemma_decimal_digits(n as nat);
    let s = decimal(n as nat);
    lemma_digit_round_trip(0);
    assert(is_digit(s[0]));
    assert(s[0] != '+');
}

/// What is taken out of a location is no longer there: a slot is left empty, and a
/// collection keeps every other token it held, in the same order of appearance.
pub proof fn law_location_remove_then_absent(l: LocationStore, t: TokenInstanceId, u: TokenInstanceId)
    requires
        u != t,
    ensures
        !l.spec_after_remove(t).contains(t),
        l.spec_is_slot() ==> l.spec_after_remove(t).len() == 0,
        !l.spec_is_slot() ==> (l.spec_after_remove(t).contains(u) <==> l.spec_tokens().contains(u)),
{
    match l {
        LocationStore::Slot(_) => {},
        LocationStore::Collection(c) => {
            let s = c.tokens@;
            if s.filter(other_than(t)).contains(t) {
                let i = choose|i: int| 0 <= i < s.filter(other_than(t)).len() && s.filter(other_than(t))[i] == t;
                s.lemma_filter_pred(other_than(t), i);
            }
            if s.contains(u) {
                let i = choose|i: int| 0 <= i < s.len() && s[i] == u;
                s.lemma_filter_contains(other_than(t), i);
            }
            if s.filter(other_than(t)).contains(u) {
                s.lemma_filter_contains_rev(other_than(t), u);
            }
        },
    }
}

/// What a location's token list becomes once `t` is taken out of it never holds `t`.
proof fn lemma_after_remove_absent(v: LocationView, t: TokenInstanceId)
    ensures
        !crate::state_resources::loc_after_remove(v, t).tokens.contains(t),
{
    if !v.is_slot {
        let s = v.tokens;
        if without(s, t).contains(t) {
            let i = choose|i: int| 0 <= i < without(s, t).len() && without(s, t)[i] == t;
            s.lemma_filter_pred(other_than(t), i);
        }
    }
}

/// A move that succeeds puts the token where it was sent: the token's location is the
/// target, the target holds the token, the place it left no longer holds it (unless it
/// was sent where it already was), and no other token is touched.
pub proof fn law_move_read_after_write(
    locs: Map<LocationId, LocationView>,
    tokens: Map<TokenInstanceId, TokenInstanceView>,
    sent: Seq<OutgoingView>,
    t: TokenInstanceId,
    to: LocationId,
    animation: Option<AnimationPreset>,
    u: TokenInstanceId,
)
    requires
        spec_move_token(locs, tokens, sent, t, to, animation).result is Ok,
    ensures
        ({
            let o = spec_move_token(locs, tokens, sent, t, to, animation);
            let from = tokens[t].location;
            &&& tokens.contains_key(t)
            &&& o.tokens.dom() == tokens.dom()
            &&& o.tokens[t].location == to
            &&& o.locs.contains_key(to)
            &&& o.locs[to].tokens.contains(t)
            &&& from != to ==> o.locs.contains_key(from) && !o.locs[from].tokens.contains(t)
            &&& u != t && tokens.contains_key(u) ==> o.tokens[u] == tokens[u]
        }),
{
    let o = spec_move_token(locs, tokens, sent, t, to, animation);
    let tok = tokens[t];
    let from = tok.location;
    let locs1 = locs.insert(from, crate::state_resources::loc_after_remove(locs[from], t));
    let added = crate::state_resources::loc_after_add(locs1[to], t);
    assert(added.tokens[added.tokens.len() - 1] == t);
    lemma_after_remove_absent(locs[from], t);
    assert(o.tokens.dom() =~= tokens.dom());
}

/// A destroyed token ends up in its owner's graveyard, so it is no longer alive.
pub proof fn law_destroyed_token_is_buried(pre: StateResources, sent: Seq<OutgoingView>, t: TokenInstanceId)
    requires
        spec_destroy(pre, sent, t).result is Ok,
    ensures
        ({
            let o = spec_destroy(pre, sent, t);
            let g = spec_side(pre.board, pre.tokens()[t].owner).graveyard;
            &&& pre.tokens().contains_key(t)
            &&& o.tokens[t].location == g
            &&& o.locs.contains_key(g)
            &&& o.locs[g].tokens.contains(t)
        }),
{
    let tok = pre.tokens()[t];
    law_move_read_after_write(
        pre.locs(),
        pre.tokens(),
        sent,
        t,
        spec_side(pre.board, tok.owner).graveyard,
        Some(AnimationPreset::EaseInOut),
        t,
    );
}

/// Destroying a hero ends the game: the hero's opponent wins, the client is told so,
/// and nothing moves.
pub proof fn law_destroying_a_hero_ends_game(pre: StateResources, sent: Seq<OutgoingView>, t: TokenInstanceId)
    requires
        pre.tokens().contains_key(t),
        pre.registry.tokens@[pre.tokens()[t].data_index as int].token_category is Hero,
    ensures
        ({
            let o = spec_destroy(pre, sent, t);
            let winner = spec_opponent(pre.tokens()[t].owner);
            &&& o.result == Err::<(), GameError>(GameError::HeroDestroyed { winner })
            &&& o.locs == pre.locs()
            &&& o.tokens == pre.tokens()
            &&& o.sent == sent.push(OutgoingView::Instruction(InstructionView::EndGame { winner }))
        }),
{
}

/// A value written into a game context under a key is what is read back under that
/// key; every other key reads as before.
pub proof fn law_context_read_after_write(
    before: GameContext,
    after: GameContext,
    key: Seq<char>,
    value: ContextValueView,
    other: Seq<char>,
)
    requires
        after.view() == before.view().insert(key, value),
    ensures
        after.view().contains_key(key),
        after.view()[key] == value,
        other != key ==> after.view().contains_key(other) == before.view().contains_key(other),
        other != key && before.view().contains_key(other) ==> after.view()[other] == before.view()[other],
{
}

/// A prompt added under an id is the one found under that id; the other prompts stay.
pub proof fn law_prompt_read_after_write(
    before: PromptCallback,
    after: PromptCallback,
    id: PromptInstanceId,
    prompt: PromptProfile,
    other: PromptInstanceId,
)
    requires
        after.prompts() == before.prompts().insert(id, prompt),
    ensures
        after.prompts().contains_key(id),
        after.prompts()[id] == prompt,
        other != id ==> after.prompts().contains_key(other) == before.prompts().contains_key(other),
        other != id && before.prompts().contains_key(other) ==> after.prompts()[other] == before.prompts()[other],
{
}

/// A kind put into the registry is the kind found under its id afterwards, whether it
/// was new or replaced an older kind with the same id.
pub proof fn law_registry_read_after_write(before: TokenRegistry, after: TokenRegistry, data: TokenData, i: int)
    requires
        before.wf(),
        before.spec_has(data.id@) ==> after.tokens@ == before.tokens@.update(
            spec_kind_index(before, data.id@),
            data,
        ),
        !before.spec_has(data.id@) ==> after.tokens@ == before.tokens@.push(data),
        0 <= i < after.tokens@.len(),
        after.tokens@[i].id@ == data.id@,
    ensures
        after.tokens@[i] == data,
{
    if before.spec_has(data.id@) {
        let k = spec_kind_index(before, data.id@);
        assert(0 <= k < before.tokens@.len() && before.tokens@[k].id@ == data.id@);
        if i != k {
            assert(before.tokens@[i].id@ == data.id@);
            if i < k {
                assert(before.tokens@[i].id@ != before.tokens@[k].id@);
            } else {
                assert(before.tokens@[k].id@ != before.tokens@[i].id@);
            }
        }
    } else {
        if i < before.tokens@.len() {
            assert(before.tokens@[i].id@ == data.id@);
        }
    }
}

/// A section written as `/tag/`, the value, `/!tag/` reads back as the value, for a tag
/// that holds no `/` and does not start with `!`, and a value that holds no closing
/// marker of its own before the one written after it.
pub proof fn law_tag_read_after_write(tag: Seq<char>, v: Seq<char>)
    requires
        forall|i: int| 0 <= i < tag.len() ==> tag[i] != '/',
        tag.len() > 0 ==> tag[0] != '!',
        spec_find(seq!['/'] + v + close_tag(tag), close_tag(tag)) == Some(v.len() + 1int),
    ensures
        spec_get_tag(tag, open_tag(tag) + v + close_tag(tag)) == Ok::<Seq<char>, crate::tag::TagFailure>(v),
{
    let data = open_tag(tag) + v + close_tag(tag);
    let w = seq!['/'] + v + close_tag(tag);
    let c = close_tag(tag);
    let n: int = tag.len() as int;
    assert(data =~= seq!['/'] + tag + w);
    assert(data.subrange(0, n + 2) =~= open_tag(tag));
    lemma_first_occurrence_unique(data, open_tag(tag), 0);
    lemma_find_is_first(w, c);
    let end: int = n + 2 + v.len();
    assert(data.subrange(end, end + c.len()) =~= c);
    assert forall|j: int| 0 <= j < end implies !occurs_at(data, c, j) by {
        if j > n {
            let k = j - (n + 1);
            assert(!occurs_at(w, c, k));
            if occurs_at(data, c, j) {
                assert(w.subrange(k, k + c.len()) =~= data.subrange(j, j + c.len()));
            }
        } else if occurs_at(data, c, j) {
            assert(data.subrange(j, j + c.len())[0] == c[0]);
            assert(data.subrange(j, j + c.len())[1] == c[1]);
            if j == 0 {
                assert(data[1] == '!');
                if n > 0 {
                    assert(data[1] == tag[0]);
                } else {
                    assert(data[1] == '/');
                }
            } else {
                assert(data[j] == tag[j - 1]);
            }
        }
    }
    lemma_first_occurrence_unique(data, c, end);
    assert(data.subrange(n + 2, end) =~= v);
}


/// A token may be played from hand only when the player whose turn it is can pay for it:
/// an answer of `true` means the token is in play, belongs to that player, lies in their
/// hand, goes to a field slot of their side, and costs no more than their thaum; a token
/// that costs more than that thaum is always refused.
pub proof fn law_summon_needs_thaum(
    res: StateResources,
    t: TokenInstanceId,
    to: LocationId,
    sp: Seq<OutgoingView>,
    sq: Seq<OutgoingView>,
    r: Result<bool, GameError>,
)
    requires
        spec_summon_check(res, t, to, sp, sq, r),
    ensures
        r == Ok::<bool, GameError>(true) ==> {
            &&& res.tokens().contains_key(t)
            &&& res.tokens()[t].cost <= spec_player(res, res.current_turn).thaum
            &&& res.tokens()[t].owner == res.current_turn
            &&& res.tokens()[t].location == spec_player(res, res.current_turn).hand
            &&& spec_side(res.board, res.current_turn).field@.contains(to)
        },
        res.tokens().contains_key(t) && res.tokens()[t].cost > spec_player(res, res.current_turn).thaum
            ==> r == Ok::<bool, GameError>(false),
{
}

/// When a turn starts, every unit of the player whose turn it is that stands on a field
/// slot has its current defense set back to its base defense, with nothing else of it
/// changed; every other token, and every token of the other player, is left as it was
/// (the player's hero aside, whose defense comes from its kind). The same tokens stay in
/// play.
pub proof fn law_turn_start_restores_defense(
    pre: StateResources,
    post: StateResources,
    gp: Seq<GroupView>,
    gq: Seq<GroupView>,
    sp: Seq<OutgoingView>,
    sq: Seq<OutgoingView>,
    r: Result<(), GameError>,
    t: TokenInstanceId,
)
    requires
        spec_start_turn(pre, post, gp, gq, sp, sq, r),
        !(r matches Err(GameError::UnknownLocation(_))),
        pre.tokens().contains_key(t),
        t != spec_player(pre, pre.current_turn).hero,
    ensures
        post.tokens().dom() == pre.tokens().dom(),
        pre.tokens()[t].owner == pre.current_turn && field_location(pre.tokens()[t].location) ==> post.tokens()[t]
            == (TokenInstanceView {
                current_stats: UnitStats { defense: pre.tokens()[t].base_stats.defense, ..pre.tokens()[t].current_stats },
                ..pre.tokens()[t]
            }),
        !(pre.tokens()[t].owner == pre.current_turn && field_location(pre.tokens()[t].location)) ==> post.tokens()[t]
            == pre.tokens()[t],
{
    if crate::turn::all_identified(pre.token_instances@) {
        let toks1 = pre.tokens().map_values(crate::turn::refresh_fn(pre.current_turn));
        assert(toks1.dom() =~= pre.tokens().dom());
        let hero = spec_player(post, pre.current_turn).hero;
        assert(hero == spec_player(pre, pre.current_turn).hero);
        if toks1.contains_key(hero) {
            let h2 = post.tokens()[hero];
            assert(post.tokens().dom() =~= pre.tokens().dom());
        }
    }
}

/// An attack that is not itself a counter-attack, and that leaves the defender alive,
/// queues exactly one more happening, at the end of the queue: the defender attacks the
/// attacker back, as a counter-attack. A counter-attack that leaves the defender alive
/// queues nothing.
pub proof fn law_attack_is_answered(
    ctx: Map<Seq<char>, ContextValueView>,
    pre: StateResources,
    gp: Seq<GroupView>,
    sp: Seq<OutgoingView>,
    new_id: TokenInstanceId,
    post: StateResources,
    ctx_post: Map<Seq<char>, ContextValueView>,
    gq: Seq<GroupView>,
    sq: Seq<OutgoingView>,
    r: Result<StepKind, GameErrorView>,
    attacker: TokenInstanceId,
    defender: TokenInstanceId,
)
    requires
        spec_step(TokenBehaviorTriggerWhenName::HasBeenAttacked, ctx, pre, gp, sp, new_id, post, ctx_post, gq, sq, r),
        r is Ok,
        ctx_token(ctx, context_keys::ATTACKER@) == Ok::<TokenInstanceId, GameErrorView>(attacker),
        ctx_token(ctx, context_keys::DEFENDER@) == Ok::<TokenInstanceId, GameErrorView>(defender),
        post.tokens().contains_key(defender),
        post.tokens()[defender].current_stats.health > 0,
    ensures
        (!ctx.contains_key(context_keys::IS_COUNTER_ATTACK@) || ctx[context_keys::IS_COUNTER_ATTACK@]
            == ContextValueView::Bool(false)) ==> gq == gp.push(
            GroupView {
                states: seq![
                    TokenBehaviorTriggerWhenName::WillAttack,
                    TokenBehaviorTriggerWhenName::WillBeAttacked,
                    TokenBehaviorTriggerWhenName::CheckCancel,
                    TokenBehaviorTriggerWhenName::HasAttacked,
                    TokenBehaviorTriggerWhenName::HasBeenAttacked,
                ],
                context: Map::empty().insert(context_keys::ATTACKER@, ContextValueView::TokenInstanceId(defender)).insert(
                    context_keys::DEFENDER@,
                    ContextValueView::TokenInstanceId(attacker),
                ).insert(context_keys::IS_COUNTER_ATTACK@, ContextValueView::Bool(true)),
            },
        ),
        (ctx.contains_key(context_keys::IS_COUNTER_ATTACK@) && ctx[context_keys::IS_COUNTER_ATTACK@]
            == ContextValueView::Bool(true)) ==> gq == gp,
{
}

/// A token whose one behavior has one trigger, for step `name`, with activator `owned`
/// (or `opponent`) and no extra condition: on that step the behavior's actions run exactly
/// when the token's owner is (or is not) the owner the context names; otherwise nothing
/// happens.
pub proof fn law_owner_activator(
    token: TokenInstanceId,
    name: TokenBehaviorTriggerWhenName,
    ctx: Map<Seq<char>, ContextValueView>,
    w: WorldView,
    cs: spec_fn(int) -> bool,
    owner: crate::id_types::PlayerId,
    activator: TokenBehaviorTriggerWhenActivator,
)
    requires
        w.rv.tokens.contains_key(token),
        ctx_player(ctx, context_keys::OWNER@) == Ok::<crate::id_types::PlayerId, GameErrorView>(owner),
        ctx_is_this(ctx, token) is Ok,
        activator == TokenBehaviorTriggerWhenActivator::Owned || activator == TokenBehaviorTriggerWhenActivator::Opponent,
        w.rv.registry.tokens@[w.rv.tokens[token].data_index as int].behaviors@.len() == 1,
        w.rv.registry.tokens@[w.rv.tokens[token].data_index as int].behaviors@[0].triggers@ == seq![
            TokenBehaviorTrigger { when: TokenBehaviorTriggerWhen { activator, name }, and: None },
        ],
    ensures
        ({
            let fire = if activator == TokenBehaviorTriggerWhenActivator::Owned {
                w.rv.tokens[token].owner == owner
            } else {
                w.rv.tokens[token].owner != owner
            };
            spec_trigger(token, name, ctx, w, cs) == if fire {
                actions_fold(
                    w.rv.registry.tokens@[w.rv.tokens[token].data_index as int].behaviors@[0].actions@,
                    ctx,
                    w,
                    cs,
                )
            } else {
                (None::<GameErrorView>, w)
            }
        }),
{
    let bs = w.rv.registry.tokens@[w.rv.tokens[token].data_index as int].behaviors@;
    let ts = bs[0].triggers@;
    assert(ts.drop_first() =~= Seq::<TokenBehaviorTrigger>::empty());
    assert(bs.drop_first() =~= Seq::<crate::token_data::TokenBehavior>::empty());
    assert(crate::actions::at_flip(w, w.k) == w);
    let is_owned = w.rv.tokens[token].owner == owner;
    let is_this = ctx_is_this(ctx, token)->Ok_0;
    let fire = crate::actions::activator_ok(activator, is_owned, is_this);
    assert(ts[0].when.name == name);
    assert(crate::actions::fires(ts.drop_first(), name, is_owned, is_this, ctx, w.rv, cs, w.k, fire) == (
        Ok::<bool, GameErrorView>(fire),
        w.k,
    ));
    assert(crate::actions::fires(ts, name, is_owned, is_this, ctx, w.rv, cs, w.k, false) == (
        Ok::<bool, GameErrorView>(fire),
        w.k,
    ));
    let x = actions_fold(bs[0].actions@, ctx, w, cs);
    assert(crate::actions::behaviors_fold(bs.drop_first(), name, is_owned, is_this, ctx, x.1, cs) == (None::<GameErrorView>, x.1));
    assert(crate::actions::behaviors_fold(bs.drop_first(), name, is_owned, is_this, ctx, w, cs) == (None::<GameErrorView>, w));
    assert(spec_trigger(token, name, ctx, w, cs) == crate::actions::behaviors_fold(bs, name, is_owned, is_this, ctx, w, cs));
}


/// The token at position `i` of the game's tokens stands on a field slot of the side of
/// the player whose turn it is not.
pub open spec fn defends(res: StateResources, i: int) -> bool {
    &&& 0 <= i < res.token_instances@.len()
    &&& on_side_field(res.token_instances@[i], spec_opponent(res.current_turn))
}

/// The row (`z`) of the slot of the token at position `i` of the game's tokens.
pub open spec fn row_at(res: StateResources, i: int) -> i32 {
    res.board.spec_slot_position(res.token_instances@[i].location).unwrap().z
}

/// The token stands on a field slot of `p`'s side.
pub open spec fn on_side_field(t: TokenInstance, p: PlayerId) -> bool {
    match spec_identify_location(t.location) {
        Some(l) => spec_is_field_of(l, p),
        None => false,
    }
}

/// Some token of `s` has the id and location of `pair` and stands on a field slot of `p`'s side.
pub open spec fn pair_from(s: Seq<TokenInstance>, p: PlayerId, pair: (TokenInstanceId, LocationId)) -> bool {
    exists|i: int| 0 <= i < s.len() && #[trigger] s[i].instance_id == pair.0 && s[i].location == pair.1 && on_side_field(s[i], p)
}

proof fn lemma_field_pairs_members(s: Seq<TokenInstance>, p: PlayerId)
    ensures
        forall|k: int| 0 <= k < spec_field_pairs(s, p).len() ==> pair_from(s, p, #[trigger] spec_field_pairs(s, p)[k]),
        forall|i: int|
            0 <= i < s.len() && on_side_field(#[trigger] s[i], p)
                ==> spec_field_pairs(s, p).contains((s[i].instance_id, s[i].location)),
    decreases s.len(),
{
    if s.len() > 0 {
        let d = s.drop_last();
        lemma_field_pairs_members(d, p);
        let pd = spec_field_pairs(d, p);
        let ps = spec_field_pairs(s, p);
        assert forall|k: int| 0 <= k < ps.len() implies pair_from(s, p, #[trigger] ps[k]) by {
            if k < pd.len() {
                assert(ps[k] == pd[k]);
                assert(pair_from(d, p, pd[k]));
                let i = choose|i: int|
                    0 <= i < d.len() && #[trigger] d[i].instance_id == pd[k].0 && d[i].location == pd[k].1 && on_side_field(d[i], p);
                assert(s[i] == d[i]);
                assert(s[i].instance_id == ps[k].0);
            } else {
                let i = s.len() - 1;
                assert(s[i] == s.last());
                assert(s[i].instance_id == ps[k].0);
            }
        }
        assert forall|i: int|
            0 <= i < s.len() && on_side_field(#[trigger] s[i], p)
            implies ps.contains((s[i].instance_id, s[i].location)) by {
            if i < d.len() {
                assert(s[i] == d[i]);
                let k = choose|k: int| 0 <= k < pd.len() && pd[k] == (d[i].instance_id, d[i].location);
                assert(ps[k] == pd[k]);
            } else {
                assert(ps[ps.len() - 1] == (s[i].instance_id, s[i].location));
            }
        }
    }
}

proof fn lemma_min_row_bounds(board: Board, s: Seq<(TokenInstanceId, LocationId)>, start: i32)
    ensures
        min_row(board, s, start) <= start,
        forall|k: int| 0 <= k < s.len() ==> min_row(board, s, start) <= row_of(board, (#[trigger] s[k]).1),
        min_row(board, s, start) == start || exists|k: int|
            0 <= k < s.len() && row_of(board, (#[trigger] s[k]).1) == min_row(board, s, start),
    decreases s.len(),
{
    if s.len() > 0 {
        let d = s.drop_last();
        lemma_min_row_bounds(board, d, start);
        assert forall|k: int| 0 <= k < s.len() implies min_row(board, s, start) <= row_of(board, (#[trigger] s[k]).1) by {
            if k < d.len() {
                assert(s[k] == d[k]);
            }
        }
        if min_row(board, s, start) != start {
            if min_row(board, d, start) == min_row(board, s, start) {
                let k = choose|k: int| 0 <= k < d.len() && row_of(board, (#[trigger] d[k]).1) == min_row(board, d, start);
                assert(s[k] == d[k]);
            } else {
                assert(row_of(board, s[s.len() - 1].1) == min_row(board, s, start));
            }
        }
    }
}

proof fn lemma_in_row_members(board: Board, s: Seq<(TokenInstanceId, LocationId)>, row: i32)
    ensures
        forall|j: int|
            0 <= j < in_row(board, s, row).len() ==> exists|k: int|
                0 <= k < s.len() && s[k].0 == #[trigger] in_row(board, s, row)[j] && row_of(board, s[k].1) == row,
        forall|k: int| 0 <= k < s.len() && row_of(board, (#[trigger] s[k]).1) == row ==> in_row(board, s, row).contains(s[k].0),
    decreases s.len(),
{
    if s.len() > 0 {
        let d = s.drop_last();
        lemma_in_row_members(board, d, row);
        let a = in_row(board, d, row);
        let b = in_row(board, s, row);
        assert forall|j: int| 0 <= j < b.len() implies exists|k: int|
            0 <= k < s.len() && s[k].0 == #[trigger] b[j] && row_of(board, s[k].1) == row by {
            if j < a.len() {
                assert(b[j] == a[j]);
                let k = choose|k: int| 0 <= k < d.len() && d[k].0 == a[j] && row_of(board, d[k].1) == row;
                assert(s[k] == d[k]);
            } else {
                assert(s[s.len() - 1] == s.last());
            }
        }
        assert forall|k: int| 0 <= k < s.len() && row_of(board, (#[trigger] s[k]).1) == row implies b.contains(s[k].0) by {
            if k < d.len() {
                assert(s[k] == d[k]);
                let j = choose|j: int| 0 <= j < a.len() && a[j] == d[k].0;
                assert(b[j] == a[j]);
            } else {
                assert(b[b.len() - 1] == s[k].0);
            }
        }
    }
}

/// What a selected attacker may attack. While the other player has a unit on a field slot
/// of their side (in a row up to 100), the targets are exactly those of their field units
/// that stand in the front-most row: each target is such a unit with no unit of theirs in
/// a row in front of it, and each such unit is a target. Only when they have no unit on
/// the field (in a row up to 100) is their hero, the token in their hero slot, the one
/// target.
pub proof fn law_attack_targets_front_row(res: StateResources, ts: Seq<TokenInstanceId>)
    requires
        spec_attackable(res) == Ok::<Seq<TokenInstanceId>, GameError>(ts),
    ensures
        (exists|i: int| #[trigger] defends(res, i) && row_at(res, i) <= 100) ==> {
            &&& forall|k: int|
                0 <= k < ts.len() ==> exists|i: int|
                    #[trigger] defends(res, i) && res.token_instances@[i].instance_id == #[trigger] ts[k] && forall|j: int|
                        #[trigger] defends(res, j) ==> row_at(res, i) <= row_at(res, j)
            &&& forall|i: int|
                #[trigger] defends(res, i) && (forall|j: int| #[trigger] defends(res, j) ==> row_at(res, i) <= row_at(res, j))
                    ==> ts.contains(res.token_instances@[i].instance_id)
        },
        (forall|i: int| #[trigger] defends(res, i) ==> row_at(res, i) > 100) ==> ts == seq![
            res.locs()[spec_side(res.board, spec_opponent(res.current_turn)).hero].tokens[0],
        ],
{
    let opp = spec_opponent(res.current_turn);
    let s = res.token_instances@;
    let pairs = spec_field_pairs(s, opp);
    let m = min_row(res.board, pairs, 100);
    let front = in_row(res.board, pairs, m);
    lemma_field_pairs_members(s, opp);
    lemma_min_row_bounds(res.board, pairs, 100);
    lemma_in_row_members(res.board, pairs, m);
    if exists|i: int| #[trigger] defends(res, i) && row_at(res, i) <= 100 {
        let i0 = choose|i: int| #[trigger] defends(res, i) && row_at(res, i) <= 100;
        assert(pairs.contains((s[i0].instance_id, s[i0].location)));
        let k0 = choose|k: int| 0 <= k < pairs.len() && pairs[k] == (s[i0].instance_id, s[i0].location);
        assert(m <= row_of(res.board, pairs[k0].1));
        let km = if m == 100 { k0 } else { choose|k: int| 0 <= k < pairs.len() && row_of(res.board, (#[trigger] pairs[k]).1) == m };
        assert(row_of(res.board, pairs[km].1) == m);
        assert(front.contains(pairs[km].0));
        assert(front.len() > 0);
        assert(ts == front);
        assert forall|k: int| 0 <= k < ts.len() implies exists|i: int|
            #[trigger] defends(res, i) && res.token_instances@[i].instance_id == #[trigger] ts[k] && forall|j: int|
                #[trigger] defends(res, j) ==> row_at(res, i) <= row_at(res, j) by {
            let q = choose|q: int| 0 <= q < pairs.len() && pairs[q].0 == front[k] && row_of(res.board, pairs[q].1) == m;
            assert(pair_from(s, opp, pairs[q]));
            let i = choose|i: int|
                0 <= i < s.len() && #[trigger] s[i].instance_id == pairs[q].0 && s[i].location == pairs[q].1
                    && on_side_field(s[i], opp);
            assert(defends(res, i));
            assert forall|j: int| #[trigger] defends(res, j) implies row_at(res, i) <= row_at(res, j) by {
                let qj = choose|q: int| 0 <= q < pairs.len() && pairs[q] == (s[j].instance_id, s[j].location);
                assert(m <= row_of(res.board, pairs[qj].1));
            }
        }
        assert forall|i: int|
            #[trigger] defends(res, i) && (forall|j: int| #[trigger] defends(res, j) ==> row_at(res, i) <= row_at(res, j))
            implies ts.contains(res.token_instances@[i].instance_id) by {
            let qi = choose|q: int| 0 <= q < pairs.len() && pairs[q] == (s[i].instance_id, s[i].location);
            assert(m <= row_of(res.board, pairs[qi].1));
            assert(pair_from(s, opp, pairs[km]));
            let p = choose|p: int|
                0 <= p < s.len() && #[trigger] s[p].instance_id == pairs[km].0 && s[p].location == pairs[km].1
                    && on_side_field(s[p], opp);
            assert(defends(res, p));
            assert(row_at(res, i) <= row_at(res, p));
            assert(row_of(res.board, pairs[qi].1) == m);
        }
    }
    if forall|i: int| #[trigger] defends(res, i) ==> row_at(res, i) > 100 {
        if front.len() > 0 {
            let q = choose|q: int| 0 <= q < pairs.len() && pairs[q].0 == front[0] && row_of(res.board, pairs[q].1) == m;
            assert(pair_from(s, opp, pairs[q]));
            let i = choose|i: int|
                0 <= i < s.len() && #[trigger] s[i].instance_id == pairs[q].0 && s[i].location == pairs[q].1
                    && on_side_field(s[i], opp);
            assert(defends(res, i));
        }
    }
}

} // verus!
