//! What the behaviors of tokens read from the game: the tokens a target names, the tokens
//! a filter lets through, and the conditions a trigger checks.
use vstd::prelude::*;

use crate::context_keys;
use crate::error::{res_view, GameError, GameErrorView};
use crate::game_context::{ctx_player, ctx_token, ContextValueView, GameContext};
use crate::id_types::{LocationId, PlayerId, TokenInstanceId};
use crate::player::keep_where;
use crate::state_resources::{ResView, StateResources};
use crate::text::str_eq;
use crate::rng::{agrees, extends, lemma_agrees_prefix, lemma_stream_of_agrees, stream_of, Coins};
use crate::token_data::{
    spec_adjacent, spec_count_holds, spec_player_target, PlayerTarget, SlotPosition, TokenBehaviorTriggerAnd,
    TokenFilter, TokenTarget, UnitTarget,
};
use crate::token_instance::TokenInstance;

verus! {

/// The unit an equipment slot belongs to: the last entry for the slot.
pub open spec fn slot_owner(s: Seq<(LocationId, TokenInstanceId)>, loc: LocationId) -> Option<TokenInstanceId>
    decreases s.len(),
{
    if s.len() == 0 {
        None
    } else if s.last().0 == loc {
        Some(s.last().1)
    } else {
        slot_owner(s.drop_last(), loc)
    }
}

/// Where on the board the token stands, if it is in play on a field slot.
pub open spec fn token_position(res: ResView, t: TokenInstanceId) -> Option<SlotPosition> {
    if res.tokens.contains_key(t) {
        res.board.spec_slot_position(res.tokens[t].location)
    } else {
        None
    }
}

/// A single id read from the context, or the reason it cannot be read.
pub open spec fn one_id(r: Result<TokenInstanceId, GameErrorView>) -> Result<Seq<TokenInstanceId>, GameErrorView> {
    match r {
        Ok(t) => Ok(seq![t]),
        Err(e) => Err(e),
    }
}

/// The unit that holds the item the behavior belongs to in one of its equipment slots.
pub open spec fn spec_equipping_unit(ctx: Map<Seq<char>, ContextValueView>, res: ResView) -> Result<
    Seq<TokenInstanceId>,
    GameErrorView,
> {
    match ctx_token(ctx, context_keys::ACTION_THIS@) {
        Err(e) => Err(e),
        Ok(this) => if !res.tokens.contains_key(this) {
            Err(GameErrorView::TokenNotFound(this))
        } else {
            match slot_owner(res.slot_owners, res.tokens[this].location) {
                None => Err(GameErrorView::NotAnEquipmentSlot(res.tokens[this].location)),
                Some(u) => Ok(seq![u]),
            }
        },
    }
}

/// Whether a token stands on a field slot next to the slot of one of the targets.
pub open spec fn adjacent_pred(res: ResView, targets: Seq<TokenInstanceId>) -> spec_fn(TokenInstanceId) -> bool {
    |t: TokenInstanceId|
        token_position(res, t) is Some && exists|k: int|
            0 <= k < targets.len() && (#[trigger] token_position(res, targets[k])) is Some && spec_adjacent(
                token_position(res, targets[k]).unwrap(),
                token_position(res, t).unwrap(),
            )
}

/// Whether a token has the first of the types (none pass an empty list).
pub open spec fn first_type_pred(res: ResView, types: Seq<Seq<char>>) -> spec_fn(TokenInstanceId) -> bool {
    |t: TokenInstanceId|
        types.len() > 0 && res.tokens[t].token_types.map_values(|x: String| x@).contains(types[0])
}

/// Whether a token's kind has the first of the ids (none pass an empty list).
pub open spec fn first_kind_pred(res: ResView, kinds: Seq<Seq<char>>) -> spec_fn(TokenInstanceId) -> bool {
    |t: TokenInstanceId|
        kinds.len() > 0 && res.registry.tokens@[res.tokens[t].data_index as int].id@ == kinds[0]
}

/// The texts of an optional list, if given.
pub open spec fn texts(o: Option<Vec<String>>) -> Option<Seq<Seq<char>>> {
    match o {
        Some(v) => Some(v@.map_values(|x: String| x@)),
        None => None,
    }
}

/// The type and kind stages of a filter, which always pass some of the tokens.
pub open spec fn filter_tail(f: TokenFilter, ids: Seq<TokenInstanceId>, res: ResView) -> Seq<TokenInstanceId> {
    let ids3 = match texts(f.contains_types) {
        Some(types) => keep_where(ids, first_type_pred(res, types)),
        None => ids,
    };
    match texts(f.id_is) {
        Some(kinds) => keep_where(ids3, first_kind_pred(res, kinds)),
        None => ids3,
    }
}

/// What a unit target names, with the coin flips of random player choices read from `cs`
/// starting at flip `k`, and where the next reading would start.
pub open spec fn spec_unit_target(
    t: UnitTarget,
    ctx: Map<Seq<char>, ContextValueView>,
    res: ResView,
    cs: spec_fn(int) -> bool,
    k: int,
) -> (Result<Seq<TokenInstanceId>, GameErrorView>, int)
    decreases t, 0int, 0int,
{
    match t {
        UnitTarget::This => (one_id(ctx_token(ctx, context_keys::ACTION_THIS@)), k),
        UnitTarget::Find { filter } => spec_filter(*filter, res.ids, ctx, res, cs, k),
        UnitTarget::EquippingUnit => (spec_equipping_unit(ctx, res), k),
        UnitTarget::All => (Err(GameErrorView::Unimplemented), k),
        UnitTarget::Context { key } => (one_id(ctx_token(ctx, key@)), k),
    }
}

/// The owner stage of a filter: each token in turn, in order, is kept when its owner is
/// one of the players the target names for it, the target being read anew for each token.
pub open spec fn owned_fold(
    pt: PlayerTarget,
    owner: PlayerId,
    ids: Seq<TokenInstanceId>,
    res: ResView,
    cs: spec_fn(int) -> bool,
    k: int,
) -> (Seq<TokenInstanceId>, int)
    decreases ids.len(),
{
    if ids.len() == 0 {
        (Seq::empty(), k)
    } else {
        let (ps, k1) = spec_player_target(pt, owner, cs, k);
        let (rest, k2) = owned_fold(pt, owner, ids.drop_first(), res, cs, k1);
        (if ps.contains(res.tokens[ids[0]].owner) {
            seq![ids[0]] + rest
        } else {
            rest
        }, k2)
    }
}

/// What a filter lets through of `ids`, in order: the tokens of the players its owner
/// target names (read against the context's owner), then those next to one of its
/// adjacency targets, then those of the first of its types, then those of the first of
/// its kinds. A stage that is not given lets every token through.
pub open spec fn spec_filter(
    f: TokenFilter,
    ids: Seq<TokenInstanceId>,
    ctx: Map<Seq<char>, ContextValueView>,
    res: ResView,
    cs: spec_fn(int) -> bool,
    k: int,
) -> (Result<Seq<TokenInstanceId>, GameErrorView>, int)
    decreases f, 3int, 0int,
{
    match f.owned_by {
        Some(pt) => if ids.len() == 0 {
            spec_adjacency(f, ids, ctx, res, cs, k)
        } else {
            match ctx_player(ctx, context_keys::OWNER@) {
                Err(e) => (Err(e), k),
                Ok(owner) => {
                    let (kept, k1) = owned_fold(pt, owner, ids, res, cs, k);
                    spec_adjacency(f, kept, ctx, res, cs, k1)
                },
            }
        },
        None => spec_adjacency(f, ids, ctx, res, cs, k),
    }
}

/// The adjacency stage of a filter and what follows it (see `adj_fold`).
pub open spec fn spec_adjacency(
    f: TokenFilter,
    ids: Seq<TokenInstanceId>,
    ctx: Map<Seq<char>, ContextValueView>,
    res: ResView,
    cs: spec_fn(int) -> bool,
    k: int,
) -> (Result<Seq<TokenInstanceId>, GameErrorView>, int)
    decreases f, 2int, 0int,
{
    match f.adjacent_to {
        None => (Ok(filter_tail(f, ids, res)), k),
        Some(ut) => {
            let (r, k1) = adj_fold(f, ids, ctx, res, cs, k);
            match r {
                Err(e) => (Err(e), k1),
                Ok(kept) => (Ok(filter_tail(f, kept, res)), k1),
            }
        },
    }
}

/// Each token in turn, in order: a token on no field slot does not pass; for one on a
/// field slot the adjacency target is read anew, and the token passes when it stands next
/// to one of the units named. A target that cannot be read stops the filter.
pub open spec fn adj_fold(
    f: TokenFilter,
    ids: Seq<TokenInstanceId>,
    ctx: Map<Seq<char>, ContextValueView>,
    res: ResView,
    cs: spec_fn(int) -> bool,
    k: int,
) -> (Result<Seq<TokenInstanceId>, GameErrorView>, int)
    decreases f, 1int, ids.len(),
{
    match f.adjacent_to {
        None => (Ok(ids), k),
        Some(ut) => if ids.len() == 0 {
            (Ok(Seq::empty()), k)
        } else if token_position(res, ids[0]) is None {
            adj_fold(f, ids.drop_first(), ctx, res, cs, k)
        } else {
            let (rt, k1) = spec_unit_target(ut, ctx, res, cs, k);
            match rt {
                Err(e) => (Err(e), k1),
                Ok(targets) => {
                    let (rest, k2) = adj_fold(f, ids.drop_first(), ctx, res, cs, k1);
                    (match rest {
                        Err(e) => Err(e),
                        Ok(rs) => Ok(if adjacent_pred(res, targets)(ids[0]) {
                            seq![ids[0]] + rs
                        } else {
                            rs
                        }),
                    }, k2)
                },
            }
        },
    }
}

/// `kept` put in front of what a fold let through.
pub open spec fn prefixed(
    kept: Seq<TokenInstanceId>,
    x: (Result<Seq<TokenInstanceId>, GameErrorView>, int),
) -> (Result<Seq<TokenInstanceId>, GameErrorView>, int) {
    (match x.0 {
        Err(e) => Err(e),
        Ok(rs) => Ok(kept + rs),
    }, x.1)
}

/// What a token target names, with the coin flips read from `cs` starting at flip `k`,
/// and where the next reading would start.
pub open spec fn spec_token_target(
    t: TokenTarget,
    ctx: Map<Seq<char>, ContextValueView>,
    res: ResView,
    cs: spec_fn(int) -> bool,
    k: int,
) -> (Result<Seq<TokenInstanceId>, GameErrorView>, int) {
    match t {
        TokenTarget::This => (one_id(ctx_token(ctx, context_keys::ACTION_THIS@)), k),
        TokenTarget::Find { filter } => spec_filter(filter, res.ids, ctx, res, cs, k),
        TokenTarget::EquippingUnit => (spec_equipping_unit(ctx, res), k),
        TokenTarget::Context { key } => (one_id(ctx_token(ctx, key@)), k),
    }
}

/// A list result with its error taken as a value.
pub open spec fn ids_view(r: Result<Vec<TokenInstanceId>, GameError>) -> Result<Seq<TokenInstanceId>, GameErrorView> {
    match r {
        Ok(v) => Ok(v@),
        Err(e) => Err(e@),
    }
}

/// Every id names a token in play.
pub open spec fn all_in_play(res: ResView, ids: Seq<TokenInstanceId>) -> bool {
    forall|i: int| 0 <= i < ids.len() ==> res.tokens.contains_key(#[trigger] ids[i])
}

impl StateResources {
    /// The ids of every token in play, in the order they are kept.
    pub fn all_token_ids(&self) -> (r: Vec<TokenInstanceId>)
        requires
            self.wf(),
        ensures
            r@ == self.rv().ids,
            all_in_play(self.rv(), r@),
    {
        let mut r: Vec<TokenInstanceId> = Vec::new();
        let mut i: usize = 0;
        while i < self.token_instances.len()
            invariant
                self.wf(),
                i <= self.token_instances@.len(),
                r@ == self.token_instances@.take(i as int).map_values(|t: TokenInstance| t.instance_id),
            decreases self.token_instances.len() - i,
        {
            r.push(self.token_instances[i].instance_id);
            i = i + 1;
            assert(r@ =~= self.token_instances@.take(i as int).map_values(|t: TokenInstance| t.instance_id));
        }
        assert(self.token_instances@.take(i as int) =~= self.token_instances@);
        proof {
            assert forall|k: int| 0 <= k < r@.len() implies self.tokens().contains_key(#[trigger] r@[k]) by {
                crate::keyed::lemma_keyed_map_index(
                    self.token_instances@,
                    crate::state_resources::token_key(),
                    crate::state_resources::token_val(),
                    k,
                );
            }
        }
        r
    }

    /// The unit an equipment slot belongs to (see `slot_owner`).
    pub fn equipment_slot_owner(&self, loc: LocationId) -> (r: Option<TokenInstanceId>)
        ensures
            r == slot_owner(self.equipment_slot_owners@, loc),
    {
        let mut i: usize = self.equipment_slot_owners.len();
        assert(self.equipment_slot_owners@.take(i as int) =~= self.equipment_slot_owners@);
        while i > 0
            invariant
                i <= self.equipment_slot_owners@.len(),
                slot_owner(self.equipment_slot_owners@, loc) == slot_owner(
                    self.equipment_slot_owners@.take(i as int),
                    loc,
                ),
            decreases i,
        {
            let ghost s = self.equipment_slot_owners@.take(i as int);
            assert(s.drop_last() =~= self.equipment_slot_owners@.take(i - 1));
            if self.equipment_slot_owners[i - 1].0 == loc {
                return Some(self.equipment_slot_owners[i - 1].1);
            }
            i = i - 1;
        }
        None
    }

    /// Where on the board a token stands, if it is in play on a field slot.
    pub fn position_of(&self, t: TokenInstanceId) -> (r: Option<SlotPosition>)
        requires
            self.wf(),
        ensures
            r == token_position(self.rv(), t),
    {
        match self.find_token(t) {
            None => None,
            Some(i) => match self.board.get_slot_position(self.token_instances[i].location) {
                Ok(p) => Some(p),
                Err(_) => None,
            },
        }
    }

    /// The unit that holds the item the behavior belongs to (see `spec_equipping_unit`).
    pub fn equipping_unit(&self, context: &GameContext) -> (r: Result<Vec<TokenInstanceId>, GameError>)
        requires
            self.wf(),
        ensures
            ids_view(r) == spec_equipping_unit(context.view(), self.rv()),
    {
        let this = match context.get_token_id(context_keys::ACTION_THIS) {
            Ok(t) => t,
            Err(e) => return Err(e),
        };
        let ti = match self.find_token(this) {
            None => return Err(GameError::TokenNotFound(this)),
            Some(i) => i,
        };
        let loc = self.token_instances[ti].location;
        match self.equipment_slot_owner(loc) {
            None => Err(GameError::NotAnEquipmentSlot(loc)),
            Some(u) => {
                let mut v = Vec::new();
                v.push(u);
                assert(v@ =~= seq![u]);
                Ok(v)
            },
        }
    }
}

/// Reads a single id from the context as a list.
fn one_id_exec(context: &GameContext, key: &str) -> (r: Result<Vec<TokenInstanceId>, GameError>)
    ensures
        ids_view(r) == one_id(ctx_token(context.view(), key@)),
{
    match context.get_token_id(key) {
        Ok(t) => {
            let mut v = Vec::new();
            v.push(t);
            assert(v@ =~= seq![t]);
            Ok(v)
        },
        Err(e) => Err(e),
    }
}

/// Keeps the ids for which `keep` holds, in order.
fn retain_ids(ids: &Vec<TokenInstanceId>, keep: &Vec<bool>, Ghost(p): Ghost<spec_fn(TokenInstanceId) -> bool>) -> (r: Vec<TokenInstanceId>)
    requires
        keep@.len() == ids@.len(),
        forall|i: int| 0 <= i < ids@.len() ==> keep@[i] == p(#[trigger] ids@[i]),
    ensures
        r@ == keep_where(ids@, p),
{
    let mut r: Vec<TokenInstanceId> = Vec::new();
    let mut i: usize = 0;
    while i < ids.len()
        invariant
            keep@.len() == ids@.len(),
            forall|j: int| 0 <= j < ids@.len() ==> keep@[j] == p(#[trigger] ids@[j]),
            i <= ids@.len(),
            r@ == keep_where(ids@.take(i as int), p),
        decreases ids.len() - i,
    {
        if keep[i] {
            r.push(ids[i]);
        }
        proof {
            assert(ids@.take(i + 1).drop_last() =~= ids@.take(i as int));
            assert(ids@.take(i + 1).last() == ids@[i as int]);
            assert(keep@[i as int] == p(ids@[i as int]));
            assert(r@ =~= keep_where(ids@.take(i + 1), p));
        }
        i = i + 1;
    }
    assert(ids@.take(i as int) =~= ids@);
    r
}

/// Whether a list of texts holds the text.
fn contains_text(v: &Vec<String>, t: &String) -> (r: bool)
    ensures
        r == v@.map_values(|x: String| x@).contains(t@),
{
    let mut i: usize = 0;
    while i < v.len()
        invariant
            i <= v@.len(),
            forall|j: int| 0 <= j < i ==> v@[j]@ != t@,
        decreases v.len() - i,
    {
        if str_eq(v[i].as_str(), t.as_str()) {
            assert(v@.map_values(|x: String| x@)[i as int] == t@);
            return true;
        }
        i = i + 1;
    }
    proof {
        let m = v@.map_values(|x: String| x@);
        if m.contains(t@) {
            let j = choose|j: int| 0 <= j < m.len() && #[trigger] m[j] == t@;
            assert(v@[j]@ == t@);
        }
    }
    false
}

impl TokenFilter {
    /// The type and kind stages (see `filter_tail`).
    fn apply_tail(&self, ids: &Vec<TokenInstanceId>, resources: &StateResources) -> (r: Vec<TokenInstanceId>)
        requires
            resources.wf(),
            all_in_play(resources.rv(), ids@),
        ensures
            r@ == filter_tail(*self, ids@, resources.rv()),
            all_in_play(resources.rv(), r@),
    {
        let ids3 = match &self.contains_types {
            Some(types) => {
                let mut keep: Vec<bool> = Vec::new();
                let mut i: usize = 0;
                while i < ids.len()
                    invariant
                        resources.wf(),
                        all_in_play(resources.rv(), ids@),
                        i <= ids@.len(),
                        keep@.len() == i,
                        forall|j: int| 0 <= j < i ==> keep@[j] == first_type_pred(resources.rv(), types@.map_values(|x: String| x@))(#[trigger] ids@[j]),
                    decreases ids.len() - i,
                {
                    let ti = resources.find_token(ids[i]).unwrap();
                    let k = if types.len() > 0 {
                        contains_text(&resources.token_instances[ti].token_types, &types[0])
                    } else {
                        false
                    };
                    keep.push(k);
                    i = i + 1;
                }
                retain_ids(ids, &keep, Ghost(first_type_pred(resources.rv(), types@.map_values(|x: String| x@))))
            },
            None => {
                let mut v: Vec<TokenInstanceId> = Vec::new();
                let mut i: usize = 0;
                while i < ids.len()
                    invariant
                        i <= ids@.len(),
                        v@ == ids@.take(i as int),
                    decreases ids.len() - i,
                {
                    v.push(ids[i]);
                    i = i + 1;
                    assert(v@ =~= ids@.take(i as int));
                }
                assert(ids@.take(i as int) =~= ids@);
                v
            },
        };
        proof {
            lemma_keep_where_in_play(resources.rv(), ids@, first_type_pred(resources.rv(), texts(self.contains_types).unwrap_or(Seq::empty())));
        }
        assert(all_in_play(resources.rv(), ids3@));
        match &self.id_is {
            Some(kinds) => {
                let mut keep: Vec<bool> = Vec::new();
                let mut i: usize = 0;
                while i < ids3.len()
                    invariant
                        resources.wf(),
                        all_in_play(resources.rv(), ids3@),
                        i <= ids3@.len(),
                        keep@.len() == i,
                        forall|j: int| 0 <= j < i ==> keep@[j] == first_kind_pred(resources.rv(), kinds@.map_values(|x: String| x@))(#[trigger] ids3@[j]),
                    decreases ids3.len() - i,
                {
                    let ti = resources.find_token(ids3[i]).unwrap();
                    let kind = resources.token_instances[ti].data_index;
                    let k = if kinds.len() > 0 {
                        str_eq(resources.registry.tokens[kind].id.as_str(), kinds[0].as_str())
                    } else {
                        false
                    };
                    keep.push(k);
                    i = i + 1;
                }
                let r = retain_ids(&ids3, &keep, Ghost(first_kind_pred(resources.rv(), kinds@.map_values(|x: String| x@))));
                proof {
                    lemma_keep_where_in_play(resources.rv(), ids3@, first_kind_pred(resources.rv(), kinds@.map_values(|x: String| x@)));
                }
                r
            },
            None => ids3,
        }
    }
}

/// What `keep_where` keeps of ids in play is in play.
pub proof fn lemma_keep_where_in_play(res: ResView, ids: Seq<TokenInstanceId>, p: spec_fn(TokenInstanceId) -> bool)
    requires
        all_in_play(res, ids),
    ensures
        all_in_play(res, keep_where(ids, p)),
    decreases ids.len(),
{
    if ids.len() > 0 {
        lemma_keep_where_in_play(res, ids.drop_last(), p);
        assert(res.tokens.contains_key(ids[ids.len() - 1]));
        let k = keep_where(ids, p);
        assert forall|i: int| 0 <= i < k.len() implies res.tokens.contains_key(#[trigger] k[i]) by {
            let k0 = keep_where(ids.drop_last(), p);
            if i < k0.len() {
                assert(k[i] == k0[i]);
            }
        }
    }
}

/// A filter's outcome as a value: the tokens it let through, or why it failed.
pub open spec fn filter_out(r: Result<(), GameError>, ids: Seq<TokenInstanceId>) -> Result<Seq<TokenInstanceId>, GameErrorView> {
    match r {
        Ok(_) => Ok(ids),
        Err(e) => Err(e@),
    }
}

/// Whether a token standing at `p` stands next to one of the targets.
fn next_to_any(t: TokenInstanceId, p: SlotPosition, targets: &Vec<TokenInstanceId>, resources: &StateResources) -> (r: bool)
    requires
        resources.wf(),
        token_position(resources.rv(), t) == Some(p),
    ensures
        r == adjacent_pred(resources.rv(), targets@)(t),
{
    let mut found = false;
    let mut m: usize = 0;
    while m < targets.len()
        invariant
            resources.wf(),
            m <= targets@.len(),
            found == exists|j: int|
                0 <= j < m && (#[trigger] token_position(resources.rv(), targets@[j])) is Some && spec_adjacent(
                    token_position(resources.rv(), targets@[j]).unwrap(),
                    p,
                ),
        decreases targets.len() - m,
    {
        match resources.position_of(targets[m]) {
            Some(q) => {
                if q.is_adjacent_to(p) {
                    found = true;
                }
            },
            None => {},
        }
        m = m + 1;
    }
    found
}

/// The owner stage of a filter (see `owned_fold`), each token taking its own reading of
/// the target.
fn owned_stage(
    pt: &PlayerTarget,
    owner: PlayerId,
    tokens: &Vec<TokenInstanceId>,
    resources: &StateResources,
    coins: &mut Coins,
) -> (r: Vec<TokenInstanceId>)
    requires
        resources.wf(),
        all_in_play(resources.rv(), tokens@),
    ensures
        extends(final(coins)@, old(coins)@),
        forall|cs: spec_fn(int) -> bool|
            agrees(cs, final(coins)@) ==> #[trigger] owned_fold(*pt, owner, tokens@, resources.rv(), cs, old(coins)@.len() as int)
                == (r@, final(coins)@.len() as int),
        all_in_play(resources.rv(), r@),
{
    let ghost k0 = coins@.len() as int;
    let ghost rv = resources.rv();
    let mut kept: Vec<TokenInstanceId> = Vec::new();
    let mut i: usize = 0;
    assert forall|cs: spec_fn(int) -> bool| agrees(cs, coins@) implies #[trigger] owned_fold(*pt, owner, tokens@, rv, cs, k0)
        == (kept@ + owned_fold(*pt, owner, tokens@.skip(0), rv, cs, coins@.len() as int).0,
            owned_fold(*pt, owner, tokens@.skip(0), rv, cs, coins@.len() as int).1) by {
        assert(tokens@.skip(0) =~= tokens@);
        assert(kept@ + owned_fold(*pt, owner, tokens@, rv, cs, k0).0 =~= owned_fold(*pt, owner, tokens@, rv, cs, k0).0);
    }
    while i < tokens.len()
        invariant
            resources.wf(),
            rv == resources.rv(),
            all_in_play(rv, tokens@),
            all_in_play(rv, kept@),
            i <= tokens@.len(),
            k0 == old(coins)@.len(),
            extends(coins@, old(coins)@),
            forall|cs: spec_fn(int) -> bool|
                agrees(cs, coins@) ==> #[trigger] owned_fold(*pt, owner, tokens@, rv, cs, k0) == (
                    kept@ + owned_fold(*pt, owner, tokens@.skip(i as int), rv, cs, coins@.len() as int).0,
                    owned_fold(*pt, owner, tokens@.skip(i as int), rv, cs, coins@.len() as int).1,
                ),
        decreases tokens.len() - i,
    {
        let ghost c1 = coins@;
        let ghost kept1 = kept@;
        let players = pt.evaluate_with(owner, coins);
        let ti = resources.find_token(tokens[i]).unwrap();
        let o = resources.token_instances[ti].owner;
        let mut found = false;
        let mut m: usize = 0;
        while m < players.len()
            invariant
                m <= players@.len(),
                found == exists|j: int| 0 <= j < m && players@[j] == o,
            decreases players.len() - m,
        {
            if players[m] == o {
                found = true;
            }
            m = m + 1;
        }
        assert(found == players@.contains(o));
        assert(o == rv.tokens[tokens@[i as int]].owner);
        if found {
            kept.push(tokens[i]);
        }
        proof {
            let rest = tokens@.skip(i as int);
            assert(rest[0] == tokens@[i as int]);
            assert(rest.drop_first() =~= tokens@.skip(i + 1));
            assert forall|j: int| 0 <= j < kept@.len() implies rv.tokens.contains_key(#[trigger] kept@[j]) by {
                if j < kept1.len() {
                    assert(kept@[j] == kept1[j]);
                } else {
                    assert(kept@[j] == tokens@[i as int]);
                }
            }
            assert forall|a: int| 0 <= a < old(coins)@.len() implies #[trigger] coins@[a] == old(coins)@[a] by {
                assert(coins@[a] == c1[a]);
            }
            assert forall|cs: spec_fn(int) -> bool| agrees(cs, coins@) implies #[trigger] owned_fold(*pt, owner, tokens@, rv, cs, k0)
                == (kept@ + owned_fold(*pt, owner, tokens@.skip(i + 1), rv, cs, coins@.len() as int).0,
                    owned_fold(*pt, owner, tokens@.skip(i + 1), rv, cs, coins@.len() as int).1) by {
                lemma_agrees_prefix(cs, coins@, c1);
                assert(spec_player_target(*pt, owner, cs, c1.len() as int) == (players@, coins@.len() as int));
                let tail = owned_fold(*pt, owner, tokens@.skip(i + 1), rv, cs, coins@.len() as int);
                assert(owned_fold(*pt, owner, rest, rv, cs, c1.len() as int) == (if found {
                    seq![tokens@[i as int]] + tail.0
                } else {
                    tail.0
                }, tail.1));
                if found {
                    assert(kept1 + (seq![tokens@[i as int]] + tail.0) =~= kept@ + tail.0);
                } else {
                    assert(kept1 + tail.0 =~= kept@ + tail.0);
                }
            }
        }
        i = i + 1;
    }
    proof {
        assert(tokens@.skip(i as int) =~= Seq::<TokenInstanceId>::empty());
        assert forall|cs: spec_fn(int) -> bool| agrees(cs, coins@) implies #[trigger] owned_fold(*pt, owner, tokens@, rv, cs, k0)
            == (kept@, coins@.len() as int) by {
            assert(kept@ + owned_fold(*pt, owner, tokens@.skip(i as int), rv, cs, coins@.len() as int).0 =~= kept@);
        }
    }
    kept
}

impl TokenFilter {
    /// Keeps of `tokens` those the filter lets through (see `spec_filter`), random player
    /// choices taking flips of `coins`.
    pub fn evaluate_with(
        &self,
        tokens: &mut Vec<TokenInstanceId>,
        context: &GameContext,
        resources: &StateResources,
        coins: &mut Coins,
    ) -> (r: Result<(), GameError>)
        requires
            resources.wf(),
            all_in_play(resources.rv(), old(tokens)@),
        ensures
            extends(final(coins)@, old(coins)@),
            forall|cs: spec_fn(int) -> bool|
                agrees(cs, final(coins)@) ==> #[trigger] spec_filter(
                    *self,
                    old(tokens)@,
                    context.view(),
                    resources.rv(),
                    cs,
                    old(coins)@.len() as int,
                ) == (filter_out(r, final(tokens)@), final(coins)@.len() as int),
            all_in_play(resources.rv(), final(tokens)@),
        decreases self, 2int,
    {
        let ghost t0 = tokens@;
        let ghost k0 = coins@.len() as int;
        let ghost rv = resources.rv();
        let ghost ctx = context.view();
        let ids1: Vec<TokenInstanceId> = match &self.owned_by {
            Some(pt) => {
                if tokens.len() == 0 {
                    Vec::new()
                } else {
                    let owner = match context.get_player_id(context_keys::OWNER) {
                        Ok(o) => o,
                        Err(e) => return Err(e),
                    };
                    owned_stage(pt, owner, tokens, resources, coins)
                }
            },
            None => {
                let mut v: Vec<TokenInstanceId> = Vec::new();
                v.append(tokens);
                v
            },
        };
        let ghost c1 = coins@;
        proof {
            if self.owned_by is Some && t0.len() == 0 {
                assert(ids1@ =~= t0);
            }
            assert forall|cs: spec_fn(int) -> bool| agrees(cs, c1) implies #[trigger] spec_filter(*self, t0, ctx, rv, cs, k0)
                == spec_adjacency(*self, ids1@, ctx, rv, cs, c1.len() as int) by {
                if self.owned_by is Some && t0.len() > 0 {
                    let owner = ctx_player(ctx, context_keys::OWNER@)->Ok_0;
                    assert(owned_fold(self.owned_by->Some_0, owner, t0, rv, cs, k0) == (ids1@, c1.len() as int));
                }
            }
        }
        let r = self.adjacency_stage(&ids1, context, resources, coins);
        proof {
            assert forall|a: int| 0 <= a < old(coins)@.len() implies #[trigger] coins@[a] == old(coins)@[a] by {
                assert(coins@[a] == c1[a]);
            }
            assert forall|cs: spec_fn(int) -> bool| agrees(cs, coins@) implies #[trigger] spec_filter(*self, t0, ctx, rv, cs, k0)
                == (ids_view(r), coins@.len() as int) by {
                lemma_agrees_prefix(cs, coins@, c1);
                assert(spec_adjacency(*self, ids1@, ctx, rv, cs, c1.len() as int) == (ids_view(r), coins@.len() as int));
            }
        }
        match r {
            Ok(v) => {
                *tokens = v;
                Ok(())
            },
            Err(e) => Err(e),
        }
    }

    /// Keeps of `tokens` those the filter lets through (see `spec_filter`), random player
    /// choices being drawn at random.
    pub fn evaluate(&self, tokens: &mut Vec<TokenInstanceId>, context: &GameContext, resources: &StateResources) -> (r: Result<(), GameError>)
        requires
            resources.wf(),
            all_in_play(resources.rv(), old(tokens)@),
        ensures
            exists|cs: spec_fn(int) -> bool|
                (#[trigger] spec_filter(*self, old(tokens)@, context.view(), resources.rv(), cs, 0)).0 == filter_out(r, final(tokens)@),
            all_in_play(resources.rv(), final(tokens)@),
    {
        let mut coins = Coins::new();
        let r = self.evaluate_with(tokens, context, resources, &mut coins);
        proof {
            lemma_stream_of_agrees(coins@);
            assert(spec_filter(*self, old(tokens)@, context.view(), resources.rv(), stream_of(coins@), 0).0 == filter_out(r, tokens@));
        }
        r
    }

    /// The adjacency stage and what follows it (see `spec_adjacency`).
    fn adjacency_stage(
        &self,
        ids: &Vec<TokenInstanceId>,
        context: &GameContext,
        resources: &StateResources,
        coins: &mut Coins,
    ) -> (r: Result<Vec<TokenInstanceId>, GameError>)
        requires
            resources.wf(),
            all_in_play(resources.rv(), ids@),
        ensures
            extends(final(coins)@, old(coins)@),
            forall|cs: spec_fn(int) -> bool|
                agrees(cs, final(coins)@) ==> #[trigger] spec_adjacency(
                    *self,
                    ids@,
                    context.view(),
                    resources.rv(),
                    cs,
                    old(coins)@.len() as int,
                ) == (ids_view(r), final(coins)@.len() as int),
            r matches Ok(v) ==> all_in_play(resources.rv(), v@),
        decreases self, 1int,
    {
        let ghost k0 = coins@.len() as int;
        let ghost rv = resources.rv();
        let ghost ctx = context.view();
        match &self.adjacent_to {
            None => Ok(self.apply_tail(ids, resources)),
            Some(ut) => {
                let mut kept: Vec<TokenInstanceId> = Vec::new();
                let mut i: usize = 0;
                assert forall|cs: spec_fn(int) -> bool| agrees(cs, coins@) implies #[trigger] adj_fold(*self, ids@, ctx, rv, cs, k0)
                    == prefixed(kept@, adj_fold(*self, ids@.skip(0), ctx, rv, cs, coins@.len() as int)) by {
                    assert(ids@.skip(0) =~= ids@);
                    let x = adj_fold(*self, ids@, ctx, rv, cs, k0);
                    if x.0 is Ok {
                        assert(kept@ + x.0->Ok_0 =~= x.0->Ok_0);
                    }
                }
                while i < ids.len()
                    invariant
                        resources.wf(),
                        rv == resources.rv(),
                        ctx == context.view(),
                        self.adjacent_to == Some(*ut),
                        all_in_play(rv, ids@),
                        all_in_play(rv, kept@),
                        i <= ids@.len(),
                        k0 == old(coins)@.len(),
                        extends(coins@, old(coins)@),
                        forall|cs: spec_fn(int) -> bool|
                            agrees(cs, coins@) ==> #[trigger] adj_fold(*self, ids@, ctx, rv, cs, k0) == prefixed(
                                kept@,
                                adj_fold(*self, ids@.skip(i as int), ctx, rv, cs, coins@.len() as int),
                            ),
                    decreases ids.len() - i,
                {
                    let ghost c1 = coins@;
                    let ghost kept1 = kept@;
                    let ghost rest = ids@.skip(i as int);
                    assert(rest[0] == ids@[i as int]);
                    assert(rest.drop_first() =~= ids@.skip(i + 1));
                    match resources.position_of(ids[i]) {
                        None => {
                            assert forall|cs: spec_fn(int) -> bool| agrees(cs, coins@) implies #[trigger] adj_fold(*self, ids@, ctx, rv, cs, k0)
                                == prefixed(kept@, adj_fold(*self, ids@.skip(i + 1), ctx, rv, cs, coins@.len() as int)) by {
                                assert(adj_fold(*self, rest, ctx, rv, cs, c1.len() as int) == adj_fold(*self, ids@.skip(i + 1), ctx, rv, cs, c1.len() as int));
                            }
                        },
                        Some(p) => {
                            let targets = match ut.evaluate_with(context, resources, coins) {
                                Ok(t) => t,
                                Err(e) => {
                                    proof {
                                        assert forall|a: int| 0 <= a < old(coins)@.len() implies #[trigger] coins@[a] == old(coins)@[a] by {
                                            assert(coins@[a] == c1[a]);
                                        }
                                        assert forall|cs: spec_fn(int) -> bool| agrees(cs, coins@) implies #[trigger] spec_adjacency(*self, ids@, ctx, rv, cs, k0)
                                            == (ids_view(Err::<Vec<TokenInstanceId>, GameError>(e)), coins@.len() as int) by {
                                            lemma_agrees_prefix(cs, coins@, c1);
                                            assert(spec_unit_target(*ut, ctx, rv, cs, c1.len() as int) == (Err::<Seq<TokenInstanceId>, GameErrorView>(e@), coins@.len() as int));
                                            assert(adj_fold(*self, rest, ctx, rv, cs, c1.len() as int) == (Err::<Seq<TokenInstanceId>, GameErrorView>(e@), coins@.len() as int));
                                            assert(adj_fold(*self, ids@, ctx, rv, cs, k0) == prefixed(kept1, adj_fold(*self, rest, ctx, rv, cs, c1.len() as int)));
                                        }
                                    }
                                    return Err(e);
                                },
                            };
                            let near = next_to_any(ids[i], p, &targets, resources);
                            if near {
                                kept.push(ids[i]);
                            }
                            proof {
                                assert forall|j: int| 0 <= j < kept@.len() implies rv.tokens.contains_key(#[trigger] kept@[j]) by {
                                    if j < kept1.len() {
                                        assert(kept@[j] == kept1[j]);
                                    } else {
                                        assert(kept@[j] == ids@[i as int]);
                                    }
                                }
                                assert forall|a: int| 0 <= a < old(coins)@.len() implies #[trigger] coins@[a] == old(coins)@[a] by {
                                    assert(coins@[a] == c1[a]);
                                }
                                assert forall|cs: spec_fn(int) -> bool| agrees(cs, coins@) implies #[trigger] adj_fold(*self, ids@, ctx, rv, cs, k0)
                                    == prefixed(kept@, adj_fold(*self, ids@.skip(i + 1), ctx, rv, cs, coins@.len() as int)) by {
                                    lemma_agrees_prefix(cs, coins@, c1);
                                    assert(spec_unit_target(*ut, ctx, rv, cs, c1.len() as int) == (Ok::<Seq<TokenInstanceId>, GameErrorView>(targets@), coins@.len() as int));
                                    let tail = adj_fold(*self, ids@.skip(i + 1), ctx, rv, cs, coins@.len() as int);
                                    assert(adj_fold(*self, ids@, ctx, rv, cs, k0) == prefixed(kept1, adj_fold(*self, rest, ctx, rv, cs, c1.len() as int)));
                                    match tail.0 {
                                        Ok(rs) => {
                                            if near {
                                                assert(kept1 + (seq![ids@[i as int]] + rs) =~= kept@ + rs);
                                            } else {
                                                assert(kept1 + rs =~= kept@ + rs);
                                            }
                                        },
                                        Err(_) => {},
                                    }
                                }
                            }
                        },
                    }
                    i = i + 1;
                }
                proof {
                    assert(ids@.skip(i as int) =~= Seq::<TokenInstanceId>::empty());
                    assert(kept@ + Seq::<TokenInstanceId>::empty() =~= kept@);
                }
                let r = self.apply_tail(&kept, resources);
                proof {
                    assert forall|cs: spec_fn(int) -> bool| agrees(cs, coins@) implies #[trigger] spec_adjacency(*self, ids@, ctx, rv, cs, k0)
                        == (ids_view(Ok::<Vec<TokenInstanceId>, GameError>(r)), coins@.len() as int) by {
                        assert(adj_fold(*self, ids@.skip(i as int), ctx, rv, cs, coins@.len() as int) == (Ok::<Seq<TokenInstanceId>, GameErrorView>(Seq::empty()), coins@.len() as int));
                        assert(adj_fold(*self, ids@, ctx, rv, cs, k0) == (Ok::<Seq<TokenInstanceId>, GameErrorView>(kept@), coins@.len() as int));
                    }
                }
                Ok(r)
            },
        }
    }
}

impl UnitTarget {
    /// The units the target names (see `spec_unit_target`), random player choices taking
    /// flips of `coins`.
    pub fn evaluate_with(&self, context: &GameContext, resources: &StateResources, coins: &mut Coins) -> (r: Result<Vec<TokenInstanceId>, GameError>)
        requires
            resources.wf(),
        ensures
            extends(final(coins)@, old(coins)@),
            forall|cs: spec_fn(int) -> bool|
                agrees(cs, final(coins)@) ==> #[trigger] spec_unit_target(*self, context.view(), resources.rv(), cs, old(coins)@.len() as int)
                    == (ids_view(r), final(coins)@.len() as int),
        decreases self, 0int,
    {
        match self {
            UnitTarget::This => one_id_exec(context, context_keys::ACTION_THIS),
            UnitTarget::Find { filter } => {
                let mut v = resources.all_token_ids();
                let ghost v0 = v@;
                let r = filter.evaluate_with(&mut v, context, resources, coins);
                proof {
                    assert forall|cs: spec_fn(int) -> bool| agrees(cs, coins@) implies #[trigger] spec_unit_target(*self, context.view(), resources.rv(), cs, old(coins)@.len() as int)
                        == (ids_view(match r { Ok(()) => Ok::<Vec<TokenInstanceId>, GameError>(v), Err(e) => Err(e) }), coins@.len() as int) by {
                        assert(spec_filter(**filter, v0, context.view(), resources.rv(), cs, old(coins)@.len() as int) == (filter_out(r, v@), coins@.len() as int));
                    }
                }
                match r {
                    Ok(()) => Ok(v),
                    Err(e) => Err(e),
                }
            },
            UnitTarget::EquippingUnit => resources.equipping_unit(context),
            UnitTarget::All => Err(GameError::Unimplemented),
            UnitTarget::Context { key } => one_id_exec(context, key.as_str()),
        }
    }

    /// The units the target names (see `spec_unit_target`), random player choices being
    /// drawn at random.
    pub fn evaluate(&self, context: &GameContext, resources: &StateResources) -> (r: Result<Vec<TokenInstanceId>, GameError>)
        requires
            resources.wf(),
        ensures
            exists|cs: spec_fn(int) -> bool|
                (#[trigger] spec_unit_target(*self, context.view(), resources.rv(), cs, 0)).0 == ids_view(r),
    {
        let mut coins = Coins::new();
        let r = self.evaluate_with(context, resources, &mut coins);
        proof {
            lemma_stream_of_agrees(coins@);
            assert(spec_unit_target(*self, context.view(), resources.rv(), stream_of(coins@), 0).0 == ids_view(r));
        }
        r
    }
}

impl TokenTarget {
    /// The tokens the target names (see `spec_token_target`), random player choices
    /// taking flips of `coins`.
    pub fn evaluate_with(&self, context: &GameContext, resources: &StateResources, coins: &mut Coins) -> (r: Result<Vec<TokenInstanceId>, GameError>)
        requires
            resources.wf(),
        ensures
            extends(final(coins)@, old(coins)@),
            forall|cs: spec_fn(int) -> bool|
                agrees(cs, final(coins)@) ==> #[trigger] spec_token_target(*self, context.view(), resources.rv(), cs, old(coins)@.len() as int)
                    == (ids_view(r), final(coins)@.len() as int),
    {
        match self {
            TokenTarget::This => one_id_exec(context, context_keys::ACTION_THIS),
            TokenTarget::Find { filter } => {
                let mut v = resources.all_token_ids();
                let ghost v0 = v@;
                let r = filter.evaluate_with(&mut v, context, resources, coins);
                proof {
                    assert forall|cs: spec_fn(int) -> bool| agrees(cs, coins@) implies #[trigger] spec_token_target(*self, context.view(), resources.rv(), cs, old(coins)@.len() as int)
                        == (ids_view(match r { Ok(()) => Ok::<Vec<TokenInstanceId>, GameError>(v), Err(e) => Err(e) }), coins@.len() as int) by {
                        assert(spec_filter(*filter, v0, context.view(), resources.rv(), cs, old(coins)@.len() as int) == (filter_out(r, v@), coins@.len() as int));
                    }
                }
                match r {
                    Ok(()) => Ok(v),
                    Err(e) => Err(e),
                }
            },
            TokenTarget::EquippingUnit => resources.equipping_unit(context),
            TokenTarget::Context { key } => one_id_exec(context, key.as_str()),
        }
    }

    /// The tokens the target names (see `spec_token_target`), random player choices
    /// being drawn at random.
    pub fn evaluate(&self, context: &GameContext, resources: &StateResources) -> (r: Result<Vec<TokenInstanceId>, GameError>)
        requires
            resources.wf(),
        ensures
            exists|cs: spec_fn(int) -> bool|
                (#[trigger] spec_token_target(*self, context.view(), resources.rv(), cs, 0)).0 == ids_view(r),
    {
        let mut coins = Coins::new();
        let r = self.evaluate_with(context, resources, &mut coins);
        proof {
            lemma_stream_of_agrees(coins@);
            assert(spec_token_target(*self, context.view(), resources.rv(), stream_of(coins@), 0).0 == ids_view(r));
        }
        r
    }
}

/// Whether every one of the tokens has every one of the types, the first token lacking a
/// type ending the check; a token not in play that is reached is refused.
pub open spec fn type_check(ts: Seq<TokenInstanceId>, types: Seq<Seq<char>>, res: ResView) -> Result<bool, GameErrorView>
    decreases ts.len(),
{
    if ts.len() == 0 {
        Ok(true)
    } else if !res.tokens.contains_key(ts[0]) {
        Err(GameErrorView::TokenNotFound(ts[0]))
    } else if !(forall|k: int| 0 <= k < types.len() ==> res.tokens[ts[0]].token_types.map_values(|x: String| x@).contains(#[trigger] types[k])) {
        Ok(false)
    } else {
        type_check(ts.drop_first(), types, res)
    }
}

/// Whether the source stands next to one of the targets, looking at the targets in order
/// and stopping at the first that is.
pub open spec fn adj_inner(s: TokenInstanceId, ts: Seq<TokenInstanceId>, res: ResView) -> Result<bool, GameErrorView>
    decreases ts.len(),
{
    if ts.len() == 0 {
        Ok(false)
    } else if !res.tokens.contains_key(s) {
        Err(GameErrorView::TokenNotFound(s))
    } else if !res.tokens.contains_key(ts[0]) {
        Err(GameErrorView::TokenNotFound(ts[0]))
    } else if token_position(res, s) is Some && token_position(res, ts[0]) is Some && spec_adjacent(
        token_position(res, s).unwrap(),
        token_position(res, ts[0]).unwrap(),
    ) {
        Ok(true)
    } else {
        adj_inner(s, ts.drop_first(), res)
    }
}

/// Whether one of the sources stands next to one of the units the target names, looking
/// at the sources in order: for each, the target is read anew and its units are looked at
/// in order (see `adj_inner`); the first source that stands next to one ends the search.
pub open spec fn adj_search(
    ss: Seq<TokenInstanceId>,
    target: UnitTarget,
    ctx: Map<Seq<char>, ContextValueView>,
    res: ResView,
    cs: spec_fn(int) -> bool,
    k: int,
) -> (Result<bool, GameErrorView>, int)
    decreases ss.len(),
{
    if ss.len() == 0 {
        (Ok(false), k)
    } else {
        let (rt, k1) = spec_unit_target(target, ctx, res, cs, k);
        match rt {
            Err(e) => (Err(e), k1),
            Ok(ts) => match adj_inner(ss[0], ts, res) {
                Err(e) => (Err(e), k1),
                Ok(true) => (Ok(true), k1),
                Ok(false) => adj_search(ss.drop_first(), target, ctx, res, cs, k1),
            },
        }
    }
}

/// Whether a trigger's extra condition holds: the tokens a target names all have the
/// types; the number of tokens a filter lets through stands in the relation to the
/// count; or a source unit stands next to a target unit. The coin flips of random player
/// choices are read from `cs` starting at flip `k`; the second value is where the next
/// reading would start.
pub open spec fn spec_check(
    a: TokenBehaviorTriggerAnd,
    ctx: Map<Seq<char>, ContextValueView>,
    res: ResView,
    cs: spec_fn(int) -> bool,
    k: int,
) -> (Result<bool, GameErrorView>, int) {
    match a {
        TokenBehaviorTriggerAnd::TypeContains { target, types } => {
            let (rt, k1) = spec_token_target(target, ctx, res, cs, k);
            (match rt {
                Err(e) => Err(e),
                Ok(ts) => type_check(ts, types@.map_values(|x: String| x@), res),
            }, k1)
        },
        TokenBehaviorTriggerAnd::Count { filter, condition, count } => {
            let (rf, k1) = spec_filter(filter, res.ids, ctx, res, cs, k);
            (match rf {
                Err(e) => Err(e),
                Ok(kept) => Ok(spec_count_holds(condition, (kept.len() as i32) as int, count as int)),
            }, k1)
        },
        TokenBehaviorTriggerAnd::AdjacentTo { source, target } => {
            let (rs, k1) = spec_unit_target(source, ctx, res, cs, k);
            match rs {
                Err(e) => (Err(e), k1),
                Ok(ss) => adj_search(ss, target, ctx, res, cs, k1),
            }
        },
    }
}

/// A check's outcome with its error taken as a value.
pub open spec fn bool_view(r: Result<bool, GameError>) -> Result<bool, GameErrorView> {
    match r {
        Ok(b) => Ok(b),
        Err(e) => Err(e@),
    }
}

/// The texts of a list of strings.
pub open spec fn texts_of(v: Seq<String>) -> Seq<Seq<char>> {
    v.map_values(|x: String| x@)
}

/// Whether a token's types include every one of the types.
fn has_all_types(token_types: &Vec<String>, types: &Vec<String>) -> (r: bool)
    ensures
        r == forall|k: int| 0 <= k < types@.len() ==> token_types@.map_values(|x: String| x@).contains(#[trigger] texts_of(types@)[k]),
{
    let ghost tv = texts_of(types@);
    let mut k: usize = 0;
    while k < types.len()
        invariant
            k <= types@.len(),
            tv == texts_of(types@),
            forall|j: int| 0 <= j < k ==> token_types@.map_values(|x: String| x@).contains(#[trigger] tv[j]),
        decreases types.len() - k,
    {
        if !contains_text(token_types, &types[k]) {
            assert(!token_types@.map_values(|x: String| x@).contains(tv[k as int]));
            return false;
        }
        k = k + 1;
    }
    true
}

/// Whether every one of the tokens has every one of the types (see `type_check`).
fn all_have_types(targets: &Vec<TokenInstanceId>, types: &Vec<String>, resources: &StateResources) -> (r: Result<bool, GameError>)
    requires
        resources.wf(),
    ensures
        bool_view(r) == type_check(targets@, texts_of(types@), resources.rv()),
{
    let ghost tv = texts_of(types@);
    let mut i: usize = 0;
    assert(targets@.skip(0) =~= targets@);
    while i < targets.len()
        invariant
            resources.wf(),
            i <= targets@.len(),
            tv == texts_of(types@),
            type_check(targets@, tv, resources.rv()) == type_check(targets@.skip(i as int), tv, resources.rv()),
        decreases targets.len() - i,
    {
        let ghost rest = targets@.skip(i as int);
        assert(rest[0] == targets@[i as int]);
        assert(rest.drop_first() =~= targets@.skip(i + 1));
        let ti = match resources.find_token(targets[i]) {
            None => return Err(GameError::TokenNotFound(targets[i])),
            Some(ti) => ti,
        };
        if !has_all_types(&resources.token_instances[ti].token_types, types) {
            return Ok(false);
        }
        i = i + 1;
    }
    assert(targets@.skip(i as int) =~= Seq::<TokenInstanceId>::empty());
    Ok(true)
}

/// Whether the source stands next to one of the targets (see `adj_inner`).
fn next_to_one(s: TokenInstanceId, targets: &Vec<TokenInstanceId>, resources: &StateResources) -> (r: Result<bool, GameError>)
    requires
        resources.wf(),
    ensures
        bool_view(r) == adj_inner(s, targets@, resources.rv()),
{
    let mut k: usize = 0;
    assert(targets@.skip(0) =~= targets@);
    while k < targets.len()
        invariant
            resources.wf(),
            k <= targets@.len(),
            adj_inner(s, targets@, resources.rv()) == adj_inner(s, targets@.skip(k as int), resources.rv()),
        decreases targets.len() - k,
    {
        let ghost trest = targets@.skip(k as int);
        assert(trest[0] == targets@[k as int]);
        assert(trest.drop_first() =~= targets@.skip(k + 1));
        if resources.find_token(s).is_none() {
            return Err(GameError::TokenNotFound(s));
        }
        if resources.find_token(targets[k]).is_none() {
            return Err(GameError::TokenNotFound(targets[k]));
        }
        match (resources.position_of(s), resources.position_of(targets[k])) {
            (Some(ps), Some(pt)) => {
                if ps.is_adjacent_to(pt) {
                    return Ok(true);
                }
            },
            _ => {},
        }
        k = k + 1;
    }
    assert(targets@.skip(k as int) =~= Seq::<TokenInstanceId>::empty());
    Ok(false)
}

/// Whether one of the sources stands next to one of the units the target names (see
/// `adj_search`), random player choices taking flips of `coins`.
fn search_adjacent(
    sources: &Vec<TokenInstanceId>,
    target: &UnitTarget,
    context: &GameContext,
    resources: &StateResources,
    coins: &mut Coins,
) -> (r: Result<bool, GameError>)
    requires
        resources.wf(),
    ensures
        extends(final(coins)@, old(coins)@),
        forall|cs: spec_fn(int) -> bool|
            agrees(cs, final(coins)@) ==> #[trigger] adj_search(sources@, *target, context.view(), resources.rv(), cs, old(coins)@.len() as int)
                == (bool_view(r), final(coins)@.len() as int),
{
    let ghost k0 = coins@.len() as int;
    let ghost rv = resources.rv();
    let ghost ctx = context.view();
    let mut i: usize = 0;
    assert(sources@.skip(0) =~= sources@);
    while i < sources.len()
        invariant
            resources.wf(),
            rv == resources.rv(),
            ctx == context.view(),
            i <= sources@.len(),
            k0 == old(coins)@.len(),
            extends(coins@, old(coins)@),
            forall|cs: spec_fn(int) -> bool|
                agrees(cs, coins@) ==> #[trigger] adj_search(sources@, *target, ctx, rv, cs, k0)
                    == adj_search(sources@.skip(i as int), *target, ctx, rv, cs, coins@.len() as int),
        decreases sources.len() - i,
    {
        let ghost c1 = coins@;
        let ghost rest = sources@.skip(i as int);
        assert(rest[0] == sources@[i as int]);
        assert(rest.drop_first() =~= sources@.skip(i + 1));
        let targets = target.evaluate_with(context, resources, coins);
        proof {
            assert forall|a: int| 0 <= a < old(coins)@.len() implies #[trigger] coins@[a] == old(coins)@[a] by {
                assert(coins@[a] == c1[a]);
            }
        }
        let targets = match targets {
            Ok(t) => t,
            Err(e) => {
                proof {
                    assert forall|cs: spec_fn(int) -> bool| agrees(cs, coins@) implies #[trigger] adj_search(sources@, *target, ctx, rv, cs, k0)
                        == (bool_view(Err::<bool, GameError>(e)), coins@.len() as int) by {
                        lemma_agrees_prefix(cs, coins@, c1);
                        assert(spec_unit_target(*target, ctx, rv, cs, c1.len() as int) == (Err::<Seq<TokenInstanceId>, GameErrorView>(e@), coins@.len() as int));
                        assert(adj_search(sources@, *target, ctx, rv, cs, k0) == adj_search(rest, *target, ctx, rv, cs, c1.len() as int));
                    }
                }
                return Err(e);
            },
        };
        let inner = next_to_one(sources[i], &targets, resources);
        proof {
            assert forall|cs: spec_fn(int) -> bool| agrees(cs, coins@) implies #[trigger] adj_search(sources@, *target, ctx, rv, cs, k0)
                == (match inner {
                    Err(e) => (Err::<bool, GameErrorView>(e@), coins@.len() as int),
                    Ok(true) => (Ok::<bool, GameErrorView>(true), coins@.len() as int),
                    Ok(false) => adj_search(sources@.skip(i + 1), *target, ctx, rv, cs, coins@.len() as int),
                }) by {
                lemma_agrees_prefix(cs, coins@, c1);
                assert(spec_unit_target(*target, ctx, rv, cs, c1.len() as int) == (Ok::<Seq<TokenInstanceId>, GameErrorView>(targets@), coins@.len() as int));
                assert(adj_search(sources@, *target, ctx, rv, cs, k0) == adj_search(rest, *target, ctx, rv, cs, c1.len() as int));
            }
        }
        match inner {
            Err(e) => return Err(e),
            Ok(true) => return Ok(true),
            Ok(false) => {},
        }
        i = i + 1;
    }
    assert(sources@.skip(i as int) =~= Seq::<TokenInstanceId>::empty());
    Ok(false)
}

impl TokenBehaviorTriggerAnd {
    /// Whether the condition holds (see `spec_check`), random player choices taking flips
    /// of `coins`.
    pub fn check_with(&self, context: &GameContext, resources: &StateResources, coins: &mut Coins) -> (r: Result<bool, GameError>)
        requires
            resources.wf(),
        ensures
            extends(final(coins)@, old(coins)@),
            forall|cs: spec_fn(int) -> bool|
                agrees(cs, final(coins)@) ==> #[trigger] spec_check(*self, context.view(), resources.rv(), cs, old(coins)@.len() as int)
                    == (bool_view(r), final(coins)@.len() as int),
    {
        let ghost k0 = coins@.len() as int;
        let ghost rv = resources.rv();
        let ghost ctx = context.view();
        match self {
            TokenBehaviorTriggerAnd::TypeContains { target, types } => {
                let targets = target.evaluate_with(context, resources, coins);
                match targets {
                    Err(e) => {
                        assert forall|cs: spec_fn(int) -> bool| agrees(cs, coins@) implies #[trigger] spec_check(*self, ctx, rv, cs, k0)
                            == (bool_view(Err::<bool, GameError>(e)), coins@.len() as int) by {
                            assert(spec_token_target(*target, ctx, rv, cs, k0) == (Err::<Seq<TokenInstanceId>, GameErrorView>(e@), coins@.len() as int));
                        }
                        Err(e)
                    },
                    Ok(targets) => {
                        let r = all_have_types(&targets, types, resources);
                        assert forall|cs: spec_fn(int) -> bool| agrees(cs, coins@) implies #[trigger] spec_check(*self, ctx, rv, cs, k0)
                            == (bool_view(r), coins@.len() as int) by {
                            assert(spec_token_target(*target, ctx, rv, cs, k0) == (Ok::<Seq<TokenInstanceId>, GameErrorView>(targets@), coins@.len() as int));
                            assert(texts_of(types@) == types@.map_values(|x: String| x@));
                        }
                        r
                    },
                }
            },
            TokenBehaviorTriggerAnd::Count { filter, condition, count } => {
                let mut tokens = resources.all_token_ids();
                let ghost t0 = tokens@;
                let fr = filter.evaluate_with(&mut tokens, context, resources, coins);
                let r = match fr {
                    Ok(()) => Ok(condition.evaluate(tokens.len() as i32, *count)),
                    Err(e) => Err(e),
                };
                assert forall|cs: spec_fn(int) -> bool| agrees(cs, coins@) implies #[trigger] spec_check(*self, ctx, rv, cs, k0)
                    == (bool_view(r), coins@.len() as int) by {
                    assert(spec_filter(*filter, t0, ctx, rv, cs, k0) == (filter_out(fr, tokens@), coins@.len() as int));
                }
                r
            },
            TokenBehaviorTriggerAnd::AdjacentTo { source, target } => {
                let sources = source.evaluate_with(context, resources, coins);
                let ghost c1 = coins@;
                match sources {
                    Err(e) => {
                        assert forall|cs: spec_fn(int) -> bool| agrees(cs, coins@) implies #[trigger] spec_check(*self, ctx, rv, cs, k0)
                            == (bool_view(Err::<bool, GameError>(e)), coins@.len() as int) by {
                            assert(spec_unit_target(*source, ctx, rv, cs, k0) == (Err::<Seq<TokenInstanceId>, GameErrorView>(e@), coins@.len() as int));
                        }
                        Err(e)
                    },
                    Ok(sources) => {
                        let r = search_adjacent(&sources, target, context, resources, coins);
                        proof {
                            assert forall|a: int| 0 <= a < old(coins)@.len() implies #[trigger] coins@[a] == old(coins)@[a] by {
                                assert(coins@[a] == c1[a]);
                            }
                            assert forall|cs: spec_fn(int) -> bool| agrees(cs, coins@) implies #[trigger] spec_check(*self, ctx, rv, cs, k0)
                                == (bool_view(r), coins@.len() as int) by {
                                lemma_agrees_prefix(cs, coins@, c1);
                                assert(spec_unit_target(*source, ctx, rv, cs, k0) == (Ok::<Seq<TokenInstanceId>, GameErrorView>(sources@), c1.len() as int));
                                assert(adj_search(sources@, *target, ctx, rv, cs, c1.len() as int) == (bool_view(r), coins@.len() as int));
                            }
                        }
                        r
                    },
                }
            },
        }
    }

    /// Whether the condition holds (see `spec_check`), random player choices being drawn
    /// at random.
    pub fn check(&self, context: &GameContext, resources: &StateResources) -> (r: Result<bool, GameError>)
        requires
            resources.wf(),
        ensures
            exists|cs: spec_fn(int) -> bool| (#[trigger] spec_check(*self, context.view(), resources.rv(), cs, 0)).0 == bool_view(r),
    {
        let mut coins = Coins::new();
        let r = self.check_with(context, resources, &mut coins);
        proof {
            lemma_stream_of_agrees(coins@);
            assert(spec_check(*self, context.view(), resources.rv(), stream_of(coins@), 0).0 == bool_view(r));
        }
        r
    }
}

} // verus!
