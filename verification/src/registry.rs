//! The kinds of tokens a game knows, by id, and making tokens of them.
use vstd::prelude::*;

use crate::id_types::{LocationId, PlayerId, TokenInstanceId};
use crate::text::str_eq;
use crate::state_resources::spec_kind_index;
use crate::token_data::{TokenCategory, TokenData};
use crate::token_instance::{copy_strings, TokenInstance, UnitStats};

verus! {

/// The kinds of tokens, each under its own id.
pub struct TokenRegistry {
    pub tokens: Vec<TokenData>,
}

/// No token id was given the requested text.
#[derive(Clone, PartialEq, Eq, Debug)]
pub struct TokenNotFound(pub String);

/// The stats a token of this category starts with: heroes have health and defense,
/// units health, defense and attack; other kinds have none.
pub open spec fn spec_category_stats(c: TokenCategory) -> UnitStats {
    match c {
        TokenCategory::Hero { health, defense } => UnitStats { health, defense, attack: 0 },
        TokenCategory::Unit { health, attack, defense } => UnitStats { health, defense, attack },
        _ => UnitStats { health: 0, defense: 0, attack: 0 },
    }
}

/// The stats a token of this category starts with.
pub fn category_stats(c: &TokenCategory) -> (r: UnitStats)
    ensures
        r == spec_category_stats(*c),
{
    match c {
        TokenCategory::Hero { health, defense } => UnitStats {
            health: *health,
            defense: *defense,
            attack: 0,
        },
        TokenCategory::Unit { health, attack, defense } => UnitStats {
            health: *health,
            defense: *defense,
            attack: *attack,
        },
        _ => UnitStats { health: 0, defense: 0, attack: 0 },
    }
}

impl TokenRegistry {
    /// No two kinds share an id.
    pub open spec fn wf(&self) -> bool {
        forall|i: int, j: int|
            0 <= i < j < self.tokens@.len() ==> #[trigger] self.tokens@[i].id@
                != #[trigger] self.tokens@[j].id@
    }

    /// Whether some kind has this id.
    pub open spec fn spec_has(&self, id: Seq<char>) -> bool {
        exists|i: int| 0 <= i < self.tokens@.len() && #[trigger] self.tokens@[i].id@ == id
    }

    /// An empty registry.
    pub fn new() -> (r: Self)
        ensures
            r.tokens@.len() == 0,
            r.wf(),
    {
        TokenRegistry { tokens: Vec::new() }
    }

    /// Where the kind with this id stands, if any.
    pub fn find(&self, id: &str) -> (r: Option<usize>)
        ensures
            r matches Some(i) ==> i < self.tokens@.len() && self.tokens@[i as int].id@ == id@,
            r is None ==> !self.spec_has(id@),
    {
        let mut i: usize = 0;
        while i < self.tokens.len()
            invariant
                i <= self.tokens.len(),
                forall|j: int| 0 <= j < i ==> self.tokens@[j].id@ != id@,
            decreases self.tokens.len() - i,
        {
            if str_eq(self.tokens[i].id.as_str(), id) {
                return Some(i);
            }
            i = i + 1;
        }
        None
    }

    /// Adds a kind; one with the same id is replaced, in its place.
    pub fn insert(&mut self, data: TokenData)
        requires
            old(self).wf(),
        ensures
            final(self).wf(),
            final(self).spec_has(data.id@),
            forall|id: Seq<char>| id != data.id@ ==> (final(self).spec_has(id) == old(self).spec_has(id)),
            old(self).spec_has(data.id@) ==> final(self).tokens@ == old(self).tokens@.update(
                spec_kind_index(*old(self), data.id@),
                data,
            ),
            !old(self).spec_has(data.id@) ==> final(self).tokens@ == old(self).tokens@.push(data),
    {
        let ghost id = data.id@;
        match self.find(data.id.as_str()) {
            Some(i) => {
                proof {
                    let k = spec_kind_index(*old(self), id);
                    assert(old(self).tokens@[i as int].id@ == id);
                    assert(0 <= k < old(self).tokens@.len() && old(self).tokens@[k].id@ == id);
                    if k != i as int {
                        if k < i as int {
                            assert(old(self).tokens@[k].id@ != old(self).tokens@[i as int].id@);
                        } else {
                            assert(old(self).tokens@[i as int].id@ != old(self).tokens@[k].id@);
                        }
                    }
                }
                self.tokens.set(i, data);
                assert(self.tokens@[i as int].id@ == id);
                assert forall|other: Seq<char>| other != id implies (self.spec_has(other) == old(self).spec_has(other)) by {
                    if old(self).spec_has(other) {
                        let j = choose|j: int| 0 <= j < old(self).tokens@.len() && #[trigger] old(self).tokens@[j].id@ == other;
                        assert(self.tokens@[j].id@ == other);
                    }
                    if self.spec_has(other) {
                        let j = choose|j: int| 0 <= j < self.tokens@.len() && #[trigger] self.tokens@[j].id@ == other;
                        assert(old(self).tokens@[j].id@ == other);
                    }
                }
            },
            None => {
                self.tokens.push(data);
                let n = self.tokens.len() - 1;
                assert(self.tokens@[n as int].id@ == id);
                assert forall|other: Seq<char>| other != id implies (self.spec_has(other) == old(self).spec_has(other)) by {
                    if old(self).spec_has(other) {
                        let j = choose|j: int| 0 <= j < old(self).tokens@.len() && #[trigger] old(self).tokens@[j].id@ == other;
                        assert(self.tokens@[j].id@ == other);
                    }
                    if self.spec_has(other) {
                        let j = choose|j: int| 0 <= j < self.tokens@.len() && #[trigger] self.tokens@[j].id@ == other;
                        assert(old(self).tokens@[j].id@ == other);
                    }
                }
            },
        }
    }

    /// The data of the kind with this id.
    pub fn get_data(&self, id: &str) -> (r: Result<&TokenData, TokenNotFound>)
        ensures
            r matches Ok(d) ==> exists|i: int|
                0 <= i < self.tokens@.len() && self.tokens@[i] == *d && d.id@ == id@,
            r matches Err(e) ==> !self.spec_has(id@) && e.0@ == id@,
            r is Ok <==> self.spec_has(id@),
    {
        match self.find(id) {
            Some(i) => Ok(&self.tokens[i]),
            None => Err(TokenNotFound(String::from_str(id))),
        }
    }

    /// A new token of the kind with this id, owned by `owner` and lying at `location`:
    /// it costs what the kind costs, starts with the kind's stats and types, hidden and
    /// with nothing equipped.
    pub fn instance_token(
        &self,
        id: &str,
        instance_id: TokenInstanceId,
        location: LocationId,
        owner: PlayerId,
    ) -> (r: Result<TokenInstance, TokenNotFound>)
        ensures
            r is Ok <==> self.spec_has(id@),
            r matches Err(e) ==> e.0@ == id@,
            r matches Ok(t) ==> {
                &&& t.data_index < self.tokens@.len()
                &&& self.tokens@[t.data_index as int].id@ == id@
                &&& t.owner == owner
                &&& t.location == location
                &&& t.instance_id == instance_id
                &&& t.cost == self.tokens@[t.data_index as int].cost
                &&& t.base_stats == spec_category_stats(
                    self.tokens@[t.data_index as int].token_category,
                )
                &&& t.current_stats == t.base_stats
                &&& t.equipment_slots@.len() == 0
                &&& t.token_types@ == self.tokens@[t.data_index as int].types@
                &&& t.hidden
            },
    {
        match self.find(id) {
            None => Err(TokenNotFound(String::from_str(id))),
            Some(i) => {
                let token = &self.tokens[i];
                let stats = category_stats(&token.token_category);
                Ok(TokenInstance {
                    data_index: i,
                    owner,
                    location,
                    instance_id,
                    cost: token.cost,
                    base_stats: stats,
                    current_stats: stats,
                    equipment_slots: Vec::new(),
                    token_types: copy_strings(&token.types),
                    hidden: true,
                })
            },
        }
    }
}

} // verus!
