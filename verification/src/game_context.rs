//! What a step of the game knows: values under names.
use vstd::prelude::*;

use crate::id_types::{LocationId, PlayerId, TokenInstanceId};
use crate::error::{res_view, GameError, GameErrorView};
use crate::text::str_eq;

verus! {

/// A value kept under a name.
#[derive(Debug)]
pub enum ContextValue {
    String(String),
    U64(u64),
    I64(i64),
    Bool(bool),
    TokenInstanceId(TokenInstanceId),
    LocationId(LocationId),
    PlayerId(PlayerId),
}

/// A value kept under a name, as a value.
pub enum ContextValueView {
    String(Seq<char>),
    U64(u64),
    I64(i64),
    Bool(bool),
    TokenInstanceId(TokenInstanceId),
    LocationId(LocationId),
    PlayerId(PlayerId),
}

impl View for ContextValue {
    type V = ContextValueView;

    open spec fn view(&self) -> ContextValueView {
        match self {
            ContextValue::String(s) => ContextValueView::String(s@),
            ContextValue::U64(v) => ContextValueView::U64(*v),
            ContextValue::I64(v) => ContextValueView::I64(*v),
            ContextValue::Bool(v) => ContextValueView::Bool(*v),
            ContextValue::TokenInstanceId(v) => ContextValueView::TokenInstanceId(*v),
            ContextValue::LocationId(v) => ContextValueView::LocationId(*v),
            ContextValue::PlayerId(v) => ContextValueView::PlayerId(*v),
        }
    }
}

/// The kinds of value, to say which kind was wanted.
#[derive(Clone, Copy, PartialEq, Eq, Structural, Debug)]
pub enum ContextValueKind {
    String,
    U64,
    I64,
    Bool,
    TokenInstanceId,
    LocationId,
    PlayerId,
}

/// A value was read as a kind it is not.
#[derive(Clone, Copy, PartialEq, Eq, Structural, Debug)]
pub struct WrongContextKind(pub ContextValueKind);

impl ContextValue {
    /// A copy equal to this value.
    pub fn duplicate(&self) -> (r: ContextValue)
        ensures
            r@ == self@,
    {
        match self {
            ContextValue::String(s) => ContextValue::String(s.clone()),
            ContextValue::U64(v) => ContextValue::U64(*v),
            ContextValue::I64(v) => ContextValue::I64(*v),
            ContextValue::Bool(v) => ContextValue::Bool(*v),
            ContextValue::TokenInstanceId(v) => ContextValue::TokenInstanceId(*v),
            ContextValue::LocationId(v) => ContextValue::LocationId(*v),
            ContextValue::PlayerId(v) => ContextValue::PlayerId(*v),
        }
    }

    pub fn as_string(&self) -> (r: Result<&String, WrongContextKind>)
        ensures
            match *self {
                ContextValue::String(s) => r == Ok::<&String, WrongContextKind>(&s),
                _ => r == Err::<&String, WrongContextKind>(WrongContextKind(ContextValueKind::String)),
            },
    {
        match self {
            ContextValue::String(s) => Ok(s),
            _ => Err(WrongContextKind(ContextValueKind::String)),
        }
    }

    pub fn as_u64(&self) -> (r: Result<u64, WrongContextKind>)
        ensures
            match *self {
                ContextValue::U64(v) => r == Ok::<u64, WrongContextKind>(v),
                _ => r == Err::<u64, WrongContextKind>(WrongContextKind(ContextValueKind::U64)),
            },
    {
        match self {
            ContextValue::U64(v) => Ok(*v),
            _ => Err(WrongContextKind(ContextValueKind::U64)),
        }
    }

    pub fn as_i64(&self) -> (r: Result<i64, WrongContextKind>)
        ensures
            match *self {
                ContextValue::I64(v) => r == Ok::<i64, WrongContextKind>(v),
                _ => r == Err::<i64, WrongContextKind>(WrongContextKind(ContextValueKind::I64)),
            },
    {
        match self {
            ContextValue::I64(v) => Ok(*v),
            _ => Err(WrongContextKind(ContextValueKind::I64)),
        }
    }

    pub fn as_bool(&self) -> (r: Result<bool, WrongContextKind>)
        ensures
            match *self {
                ContextValue::Bool(v) => r == Ok::<bool, WrongContextKind>(v),
                _ => r == Err::<bool, WrongContextKind>(WrongContextKind(ContextValueKind::Bool)),
            },
    {
        match self {
            ContextValue::Bool(v) => Ok(*v),
            _ => Err(WrongContextKind(ContextValueKind::Bool)),
        }
    }

    pub fn as_token_instance_id(&self) -> (r: Result<TokenInstanceId, WrongContextKind>)
        ensures
            match *self {
                ContextValue::TokenInstanceId(v) => r == Ok::<TokenInstanceId, WrongContextKind>(v),
                _ => r == Err::<TokenInstanceId, WrongContextKind>(
                    WrongContextKind(ContextValueKind::TokenInstanceId),
                ),
            },
    {
        match self {
            ContextValue::TokenInstanceId(v) => Ok(*v),
            _ => Err(WrongContextKind(ContextValueKind::TokenInstanceId)),
        }
    }

    pub fn as_location_id(&self) -> (r: Result<LocationId, WrongContextKind>)
        ensures
            match *self {
                ContextValue::LocationId(v) => r == Ok::<LocationId, WrongContextKind>(v),
                _ => r == Err::<LocationId, WrongContextKind>(
                    WrongContextKind(ContextValueKind::LocationId),
                ),
            },
    {
        match self {
            ContextValue::LocationId(v) => Ok(*v),
            _ => Err(WrongContextKind(ContextValueKind::LocationId)),
        }
    }

    pub fn as_player_id(&self) -> (r: Result<PlayerId, WrongContextKind>)
        ensures
            match *self {
                ContextValue::PlayerId(v) => r == Ok::<PlayerId, WrongContextKind>(v),
                _ => r == Err::<PlayerId, WrongContextKind>(
                    WrongContextKind(ContextValueKind::PlayerId),
                ),
            },
    {
        match self {
            ContextValue::PlayerId(v) => Ok(*v),
            _ => Err(WrongContextKind(ContextValueKind::PlayerId)),
        }
    }
}

/// No value is kept under the requested name.
#[derive(Clone, PartialEq, Eq, Debug)]
pub struct MissingContextKey(pub String);

/// The values of a list of entries: a later entry under a name hides an earlier one.
pub open spec fn entries_map(s: Seq<(String, ContextValue)>) -> Map<Seq<char>, ContextValueView>
    decreases s.len(),
{
    if s.len() == 0 {
        Map::empty()
    } else {
        entries_map(s.drop_last()).insert(s.last().0@, s.last().1@)
    }
}

proof fn lemma_entries_map_last(s: Seq<(String, ContextValue)>, i: int)
    requires
        0 <= i < s.len(),
        forall|j: int| i < j < s.len() ==> s[j].0@ != s[i].0@,
    ensures
        entries_map(s).contains_key(s[i].0@),
        entries_map(s)[s[i].0@] == s[i].1@,
    decreases s.len(),
{
    if i < s.len() - 1 {
        lemma_entries_map_last(s.drop_last(), i);
    }
}

proof fn lemma_entries_map_absent(s: Seq<(String, ContextValue)>, k: Seq<char>)
    requires
        forall|j: int| 0 <= j < s.len() ==> s[j].0@ != k,
    ensures
        !entries_map(s).contains_key(k),
    decreases s.len(),
{
    if s.len() > 0 {
        lemma_entries_map_absent(s.drop_last(), k);
    }
}

proof fn lemma_entries_map_update(s: Seq<(String, ContextValue)>, i: int, e: (String, ContextValue))
    requires
        0 <= i < s.len(),
        s[i].0@ == e.0@,
        forall|j: int| i < j < s.len() ==> s[j].0@ != s[i].0@,
    ensures
        entries_map(s.update(i, e)) == entries_map(s).insert(e.0@, e.1@),
    decreases s.len(),
{
    if i == s.len() - 1 {
        assert(s.update(i, e).drop_last() =~= s.drop_last());
        assert(entries_map(s.update(i, e)) =~= entries_map(s).insert(e.0@, e.1@));
    } else {
        lemma_entries_map_update(s.drop_last(), i, e);
        assert(s.update(i, e).drop_last() =~= s.drop_last().update(i, e));
        assert(entries_map(s.update(i, e)) =~= entries_map(s).insert(e.0@, e.1@));
    }
}

proof fn lemma_entries_map_push(s: Seq<(String, ContextValue)>, e: (String, ContextValue))
    ensures
        entries_map(s.push(e)) == entries_map(s).insert(e.0@, e.1@),
{
    assert(s.push(e).drop_last() =~= s);
}

/// Values under names, for the steps of the game.
pub struct GameContext {
    pub values: Vec<(String, ContextValue)>,
}

impl GameContext {
    /// The values by name.
    pub open spec fn view(&self) -> Map<Seq<char>, ContextValueView> {
        entries_map(self.values@)
    }

    /// No value at all.
    pub fn new() -> (r: Self)
        ensures
            r.view() == Map::<Seq<char>, ContextValueView>::empty(),
    {
        GameContext { values: Vec::new() }
    }

    /// Where the entry that the name reads from stands, if any.
    fn find(&self, key: &str) -> (r: Option<usize>)
        ensures
            r matches Some(i) ==> i < self.values@.len() && self.values@[i as int].0@ == key@
                && forall|j: int| i < j < self.values@.len() ==> self.values@[j].0@ != key@,
            r is None ==> forall|j: int| 0 <= j < self.values@.len() ==> self.values@[j].0@ != key@,
    {
        let mut i: usize = self.values.len();
        while i > 0
            invariant
                i <= self.values.len(),
                forall|j: int| i <= j < self.values@.len() ==> self.values@[j].0@ != key@,
            decreases i,
        {
            i = i - 1;
            if str_eq(self.values[i].0.as_str(), key) {
                return Some(i);
            }
        }
        None
    }

    /// Keeps `value` under `key`, in place of any value kept there before.
    pub fn insert(&mut self, key: &str, value: ContextValue)
        ensures
            final(self).view() == old(self).view().insert(key@, value@),
    {
        let entry = (String::from_str(key), value);
        match self.find(key) {
            Some(i) => {
                proof {
                    lemma_entries_map_update(self.values@, i as int, entry);
                }
                self.values.set(i, entry);
            },
            None => {
                proof {
                    lemma_entries_map_push(self.values@, entry);
                }
                self.values.push(entry);
            },
        }
    }

    /// The value kept under `key`.
    pub fn get(&self, key: &str) -> (r: Result<&ContextValue, MissingContextKey>)
        ensures
            self.view().contains_key(key@) ==> (r matches Ok(v) && v@ == self.view()[key@]),
            !self.view().contains_key(key@) ==> (r matches Err(e) && e.0@ == key@),
    {
        match self.find(key) {
            Some(i) => {
                proof {
                    lemma_entries_map_last(self.values@, i as int);
                }
                Ok(&self.values[i].1)
            },
            None => {
                proof {
                    lemma_entries_map_absent(self.values@, key@);
                }
                Err(MissingContextKey(String::from_str(key)))
            },
        }
    }

    pub fn contains_key(&self, key: &str) -> (r: bool)
        ensures
            r == self.view().contains_key(key@),
    {
        match self.find(key) {
            Some(i) => {
                proof {
                    lemma_entries_map_last(self.values@, i as int);
                }
                true
            },
            None => {
                proof {
                    lemma_entries_map_absent(self.values@, key@);
                }
                false
            },
        }
    }

    /// Copies every value of `other` in, each in place of a value under the same name.
    pub fn append(&mut self, other: &GameContext)
        ensures
            final(self).view() == old(self).view().union_prefer_right(other.view()),
    {
        let mut i: usize = 0;
        while i < other.values.len()
            invariant
                i <= other.values.len(),
                self.view() == old(self).view().union_prefer_right(entries_map(other.values@.take(i as int))),
            decreases other.values.len() - i,
        {
            let k = other.values[i].0.as_str();
            let v = other.values[i].1.duplicate();
            let ghost before = self.view();
            self.insert(k, v);
            proof {
                assert(other.values@.take(i + 1).drop_last() =~= other.values@.take(i as int));
                assert(self.view() =~= old(self).view().union_prefer_right(entries_map(other.values@.take(i + 1))));
            }
            i = i + 1;
        }
        assert(other.values@.take(other.values.len() as int) =~= other.values@);
    }

    /// A copy holding the same values under the same names.
    pub fn duplicate(&self) -> (r: GameContext)
        ensures
            r.view() == self.view(),
    {
        let mut r = GameContext::new();
        r.append(self);
        assert(r.view() =~= self.view());
        r
    }
}

/// Reading the value under `key` as a TokenInstanceId value.
pub open spec fn ctx_token(ctx: Map<Seq<char>, ContextValueView>, key: Seq<char>) -> Result<TokenInstanceId, GameErrorView> {
    if !ctx.contains_key(key) {
        Err(GameErrorView::MissingContextKey(key))
    } else {
        match ctx[key] {
            ContextValueView::TokenInstanceId(v) => Ok(v),
            _ => Err(GameErrorView::WrongContextKind(ContextValueKind::TokenInstanceId)),
        }
    }
}

/// Reading the value under `key` as a PlayerId value.
pub open spec fn ctx_player(ctx: Map<Seq<char>, ContextValueView>, key: Seq<char>) -> Result<PlayerId, GameErrorView> {
    if !ctx.contains_key(key) {
        Err(GameErrorView::MissingContextKey(key))
    } else {
        match ctx[key] {
            ContextValueView::PlayerId(v) => Ok(v),
            _ => Err(GameErrorView::WrongContextKind(ContextValueKind::PlayerId)),
        }
    }
}

/// Reading the value under `key` as a LocationId value.
pub open spec fn ctx_location(ctx: Map<Seq<char>, ContextValueView>, key: Seq<char>) -> Result<LocationId, GameErrorView> {
    if !ctx.contains_key(key) {
        Err(GameErrorView::MissingContextKey(key))
    } else {
        match ctx[key] {
            ContextValueView::LocationId(v) => Ok(v),
            _ => Err(GameErrorView::WrongContextKind(ContextValueKind::LocationId)),
        }
    }
}

/// Reading the value under `key` as a Bool value.
pub open spec fn ctx_bool(ctx: Map<Seq<char>, ContextValueView>, key: Seq<char>) -> Result<bool, GameErrorView> {
    if !ctx.contains_key(key) {
        Err(GameErrorView::MissingContextKey(key))
    } else {
        match ctx[key] {
            ContextValueView::Bool(v) => Ok(v),
            _ => Err(GameErrorView::WrongContextKind(ContextValueKind::Bool)),
        }
    }
}

/// Reading the value under `key` as a I64 value.
pub open spec fn ctx_i64(ctx: Map<Seq<char>, ContextValueView>, key: Seq<char>) -> Result<i64, GameErrorView> {
    if !ctx.contains_key(key) {
        Err(GameErrorView::MissingContextKey(key))
    } else {
        match ctx[key] {
            ContextValueView::I64(v) => Ok(v),
            _ => Err(GameErrorView::WrongContextKind(ContextValueKind::I64)),
        }
    }
}

/// Reading the value under `key` as text.
pub open spec fn ctx_string(ctx: Map<Seq<char>, ContextValueView>, key: Seq<char>) -> Result<Seq<char>, GameErrorView> {
    if !ctx.contains_key(key) {
        Err(GameErrorView::MissingContextKey(key))
    } else {
        match ctx[key] {
            ContextValueView::String(v) => Ok(v),
            _ => Err(GameErrorView::WrongContextKind(ContextValueKind::String)),
        }
    }
}

impl GameContext {
    /// The value under `key`, which must be a TokenInstanceId value.
    pub fn get_token_id(&self, key: &str) -> (r: Result<TokenInstanceId, GameError>)
        ensures
            res_view(r) == ctx_token(self.view(), key@),
    {
        match self.get(key) {
            Err(e) => Err(GameError::MissingContextKey(e.0)),
            Ok(v) => match v.as_token_instance_id() {
                Ok(x) => Ok(x),
                Err(e) => Err(GameError::WrongContextKind(e.0)),
            },
        }
    }

    /// The value under `key`, which must be a PlayerId value.
    pub fn get_player_id(&self, key: &str) -> (r: Result<PlayerId, GameError>)
        ensures
            res_view(r) == ctx_player(self.view(), key@),
    {
        match self.get(key) {
            Err(e) => Err(GameError::MissingContextKey(e.0)),
            Ok(v) => match v.as_player_id() {
                Ok(x) => Ok(x),
                Err(e) => Err(GameError::WrongContextKind(e.0)),
            },
        }
    }

    /// The value under `key`, which must be a LocationId value.
    pub fn get_location_id(&self, key: &str) -> (r: Result<LocationId, GameError>)
        ensures
            res_view(r) == ctx_location(self.view(), key@),
    {
        match self.get(key) {
            Err(e) => Err(GameError::MissingContextKey(e.0)),
            Ok(v) => match v.as_location_id() {
                Ok(x) => Ok(x),
                Err(e) => Err(GameError::WrongContextKind(e.0)),
            },
        }
    }

    /// The value under `key`, which must be a Bool value.
    pub fn get_bool(&self, key: &str) -> (r: Result<bool, GameError>)
        ensures
            res_view(r) == ctx_bool(self.view(), key@),
    {
        match self.get(key) {
            Err(e) => Err(GameError::MissingContextKey(e.0)),
            Ok(v) => match v.as_bool() {
                Ok(x) => Ok(x),
                Err(e) => Err(GameError::WrongContextKind(e.0)),
            },
        }
    }

    /// The value under `key`, which must be a I64 value.
    pub fn get_i64(&self, key: &str) -> (r: Result<i64, GameError>)
        ensures
            res_view(r) == ctx_i64(self.view(), key@),
    {
        match self.get(key) {
            Err(e) => Err(GameError::MissingContextKey(e.0)),
            Ok(v) => match v.as_i64() {
                Ok(x) => Ok(x),
                Err(e) => Err(GameError::WrongContextKind(e.0)),
            },
        }
    }

    /// The text under `key`, which must be a text value.
    pub fn get_string(&self, key: &str) -> (r: Result<String, GameError>)
        ensures
            match ctx_string(self.view(), key@) {
                Ok(t) => r matches Ok(x) && x@ == t,
                Err(e) => r matches Err(x) && x@ == e,
            },
    {
        match self.get(key) {
            Err(e) => Err(GameError::MissingContextKey(e.0)),
            Ok(v) => match v.as_string() {
                Ok(x) => Ok(x.clone()),
                Err(e) => Err(GameError::WrongContextKind(e.0)),
            },
        }
    }
}

} // verus!
