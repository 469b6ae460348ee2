//! The places where tokens (and cards) lie: single slots and ordered collections.
use vstd::prelude::*;
use vstd::multiset::Multiset;

use crate::id_types::{CardInstanceId, LocationId, TokenInstanceId};
use crate::rng::random_index;

verus! {

broadcast use vstd::seq_lib::group_seq_properties, vstd::multiset::group_multiset_axioms;

/// A slot that already holds something was asked to take another.
#[derive(Clone, Copy, PartialEq, Eq, Structural, Debug)]
pub struct SlotOccupied(pub LocationId);

/// The sequence with every occurrence of `x` taken out, order kept.
pub open spec fn without(s: Seq<TokenInstanceId>, x: TokenInstanceId) -> Seq<TokenInstanceId> {
    s.filter(other_than(x))
}

/// Holds of every token but `x`.
pub open spec fn other_than(x: TokenInstanceId) -> spec_fn(TokenInstanceId) -> bool {
    |y: TokenInstanceId| y != x
}

/// Removes every occurrence of `x`, keeping the order of the rest.
fn remove_all(v: &mut Vec<TokenInstanceId>, x: TokenInstanceId)
    ensures
        final(v)@ == without(old(v)@, x),
{
    let ghost pred = other_than(x);
    let mut kept: Vec<TokenInstanceId> = Vec::new();
    let mut i: usize = 0;
    while i < v.len()
        invariant
            i <= v.len(),
            v@ == old(v)@,
            pred == other_than(x),
            kept@ == v@.take(i as int).filter(pred),
        decreases v.len() - i,
    {
        let y = v[i];
        proof {
            v@.take(i as int).lemma_filter_push(y, pred);
            assert(v@.take(i as int).push(y) =~= v@.take(i + 1));
        }
        if y != x {
            kept.push(y);
        }
        i = i + 1;
    }
    assert(v@.take(v.len() as int) =~= v@);
    *v = kept;
}

/// Moves the elements into a new order picked at random, as `fastrand` decides.
fn shuffle_vec<T>(v: &mut Vec<T>)
    ensures
        final(v)@.len() == old(v)@.len(),
        final(v)@.to_multiset() == old(v)@.to_multiset(),
{
    let mut shuffled: Vec<T> = Vec::new();
    while v.len() > 0
        invariant
            v@.len() + shuffled@.len() == old(v)@.len(),
            v@.to_multiset().add(shuffled@.to_multiset()) == old(v)@.to_multiset(),
        decreases v.len(),
    {
        let ghost before = v@;
        let ghost before_shuffled = shuffled@;
        let i = random_index(v.len());
        let t = v.remove(i);
        proof {
            vstd::seq_lib::to_multiset_remove(before, i as int);
            vstd::seq_lib::to_multiset_build(before_shuffled, t);
        }
        shuffled.push(t);
        proof {
            assert(before.to_multiset().count(t) > 0) by {
                before.to_multiset_ensures();
                assert(before.contains(t)) by {
                    assert(before[i as int] == t);
                }
            }
            assert(v@.to_multiset().add(shuffled@.to_multiset()) =~= before.to_multiset().add(
                before_shuffled.to_multiset(),
            ));
        }
    }
    proof {
        v@.to_multiset_ensures();
        assert(v@.to_multiset() =~= Multiset::empty());
        assert(shuffled@.to_multiset() =~= old(v)@.to_multiset());
    }
    *v = shuffled;
}

/// A location that holds at most one token.
#[derive(Clone, Copy, Debug)]
pub struct TokenSlot {
    pub location_id: LocationId,
    pub token: Option<TokenInstanceId>,
}

pub open spec fn option_seq<T>(o: Option<T>) -> Seq<T> {
    match o {
        Some(t) => seq![t],
        None => Seq::empty(),
    }
}

impl TokenSlot {
    /// The tokens in the slot: none or one.
    pub open spec fn spec_tokens(&self) -> Seq<TokenInstanceId> {
        option_seq(self.token)
    }

    /// An empty slot.
    pub fn new(location_id: LocationId) -> (r: TokenSlot)
        ensures
            r.location_id == location_id,
            r.token is None,
    {
        TokenSlot { location_id, token: None }
    }

    pub fn set_location_id(&mut self, lid: LocationId)
        ensures
            final(self).location_id == lid,
            final(self).token == old(self).token,
    {
        self.location_id = lid;
    }

    pub fn get_location_id(&self) -> (r: LocationId)
        ensures
            r == self.location_id,
    {
        self.location_id
    }

    /// Puts the token in the slot; fails, changing nothing, when the slot is taken.
    pub fn add_token(&mut self, token: TokenInstanceId) -> (r: Result<(), SlotOccupied>)
        ensures
            old(self).token is None ==> r is Ok && final(self).token == Some(token),
            old(self).token is Some ==> r == Err::<(), SlotOccupied>(
                SlotOccupied(old(self).location_id),
            ) && *final(self) == *old(self),
            final(self).location_id == old(self).location_id,
    {
        if self.token.is_some() {
            return Err(SlotOccupied(self.location_id));
        }
        self.token = Some(token);
        Ok(())
    }

    /// Empties the slot, whatever token it holds: the slot does not compare the
    /// token it holds with the one named.
    pub fn remove_token(&mut self, token: TokenInstanceId)
        ensures
            final(self).token is None,
            final(self).location_id == old(self).location_id,
    {
        self.token = None;
    }

    pub fn clear(&mut self)
        ensures
            final(self).token is None,
            final(self).location_id == old(self).location_id,
    {
        self.token = None;
    }

    /// A slot has one order only; shuffling changes nothing.
    pub fn shuffle(&mut self)
        ensures
            *final(self) == *old(self),
    {
    }

    pub fn contains(&self, token: TokenInstanceId) -> (r: bool)
        ensures
            r == (self.token == Some(token)),
    {
        match self.token {
            Some(t) => t == token,
            None => false,
        }
    }

    pub fn has_room(&self) -> (r: bool)
        ensures
            r == (self.token is None),
    {
        self.token.is_none()
    }

    pub fn get_token(&self) -> (r: Option<TokenInstanceId>)
        ensures
            r == self.token,
    {
        self.token
    }

    pub fn get_tokens(&self) -> (r: Vec<TokenInstanceId>)
        ensures
            r@ == self.spec_tokens(),
    {
        let mut v = Vec::new();
        match self.token {
            Some(t) => {
                v.push(t);
                assert(v@ =~= seq![t]);
            },
            None => {},
        }
        v
    }
}

/// A location that holds any number of tokens in order.
pub struct TokenCollection {
    pub tokens: Vec<TokenInstanceId>,
    pub location_id: LocationId,
}

impl TokenCollection {
    /// An empty collection.
    pub fn new(location_id: LocationId) -> (r: Self)
        ensures
            r.tokens@ == Seq::<TokenInstanceId>::empty(),
            r.location_id == location_id,
    {
        Self { tokens: Vec::new(), location_id }
    }

    pub fn set_location_id(&mut self, lid: LocationId)
        ensures
            final(self).location_id == lid,
            final(self).tokens@ == old(self).tokens@,
    {
        self.location_id = lid;
    }

    pub fn get_location_id(&self) -> (r: LocationId)
        ensures
            r == self.location_id,
    {
        self.location_id
    }

    /// Puts the token last; a collection never refuses one.
    pub fn add_token(&mut self, token: TokenInstanceId) -> (r: Result<(), SlotOccupied>)
        ensures
            r is Ok,
            final(self).tokens@ == old(self).tokens@.push(token),
            final(self).location_id == old(self).location_id,
    {
        self.tokens.push(token);
        Ok(())
    }

    /// Takes out every occurrence of the token, keeping the order of the others.
    pub fn remove_token(&mut self, token: TokenInstanceId)
        ensures
            final(self).tokens@ == without(old(self).tokens@, token),
            final(self).location_id == old(self).location_id,
    {
        remove_all(&mut self.tokens, token);
    }

    pub fn clear(&mut self)
        ensures
            final(self).tokens@ == Seq::<TokenInstanceId>::empty(),
            final(self).location_id == old(self).location_id,
    {
        self.tokens.clear();
    }

    /// Puts the tokens in a random order: the same tokens, as many times each.
    pub fn shuffle(&mut self)
        ensures
            final(self).tokens@.len() == old(self).tokens@.len(),
            final(self).tokens@.to_multiset() == old(self).tokens@.to_multiset(),
            final(self).location_id == old(self).location_id,
    {
        shuffle_vec(&mut self.tokens);
    }

    pub fn contains(&self, token: TokenInstanceId) -> (r: bool)
        ensures
            r == self.tokens@.contains(token),
    {
        let mut i: usize = 0;
        while i < self.tokens.len()
            invariant
                i <= self.tokens.len(),
                forall|j: int| 0 <= j < i ==> self.tokens@[j] != token,
            decreases self.tokens.len() - i,
        {
            if self.tokens[i] == token {
                return true;
            }
            i = i + 1;
        }
        false
    }

    /// A collection always has room.
    pub fn has_room(&self) -> (r: bool)
        ensures
            r,
    {
        true
    }

    /// The first token, if any.
    pub fn get_token(&self) -> (r: Option<TokenInstanceId>)
        ensures
            r == (if self.tokens@.len() > 0 {
                Some(self.tokens@[0])
            } else {
                None
            }),
    {
        if self.tokens.len() > 0 {
            Some(self.tokens[0])
        } else {
            None
        }
    }

    pub fn get_tokens(&self) -> (r: Vec<TokenInstanceId>)
        ensures
            r@ == self.tokens@,
    {
        self.tokens.clone()
    }
}

/// A slot that holds at most one card.
pub struct CardSlot {
    pub location_id: LocationId,
    pub card: Option<CardInstanceId>,
}

impl CardSlot {
    /// An empty slot.
    pub fn new(location_id: LocationId) -> (r: CardSlot)
        ensures
            r.location_id == location_id,
            r.card is None,
    {
        CardSlot { location_id, card: None }
    }

    pub fn set_location_id(&mut self, lid: LocationId)
        ensures
            final(self).location_id == lid,
            final(self).card == old(self).card,
    {
        self.location_id = lid;
    }

    pub fn get_location_id(&self) -> (r: LocationId)
        ensures
            r == self.location_id,
    {
        self.location_id
    }

    /// Puts the card in the slot; fails, changing nothing, when the slot is taken.
    pub fn add_card(&mut self, card: CardInstanceId) -> (r: Result<(), SlotOccupied>)
        ensures
            old(self).card is None ==> r is Ok && final(self).card == Some(card),
            old(self).card is Some ==> r == Err::<(), SlotOccupied>(
                SlotOccupied(old(self).location_id),
            ) && final(self).card == old(self).card,
            final(self).location_id == old(self).location_id,
    {
        if self.card.is_some() {
            return Err(SlotOccupied(self.location_id));
        }
        self.card = Some(card);
        Ok(())
    }

    /// Empties the slot when it holds this card; otherwise changes nothing.
    pub fn remove_card(&mut self, card: CardInstanceId)
        ensures
            final(self).card == (if old(self).card == Some(card) {
                None
            } else {
                old(self).card
            }),
            final(self).location_id == old(self).location_id,
    {
        if self.card.is_some() && self.card.unwrap() == card {
            self.card = None;
        }
    }

    pub fn clear(&mut self)
        ensures
            final(self).card is None,
            final(self).location_id == old(self).location_id,
    {
        self.card = None;
    }

    pub fn contains(&self, card: CardInstanceId) -> (r: bool)
        ensures
            r == (self.card == Some(card)),
    {
        match self.card {
            Some(c) => c == card,
            None => false,
        }
    }

    pub fn get_card(&self) -> (r: Option<CardInstanceId>)
        ensures
            r == self.card,
    {
        self.card
    }

    pub fn get_cards(&self) -> (r: Vec<CardInstanceId>)
        ensures
            r@ == option_seq(self.card),
    {
        let mut v = Vec::new();
        match self.card {
            Some(c) => {
                v.push(c);
                assert(v@ =~= seq![c]);
            },
            None => {},
        }
        v
    }
}

/// A location that holds any number of cards in order.
pub struct CardCollection {
    pub cards: Vec<TokenInstanceId>,
    pub location_id: LocationId,
}

impl CardCollection {
    /// An empty collection.
    pub fn new(location_id: LocationId) -> (r: Self)
        ensures
            r.cards@ == Seq::<TokenInstanceId>::empty(),
            r.location_id == location_id,
    {
        Self { cards: Vec::new(), location_id }
    }

    pub fn set_location_id(&mut self, lid: LocationId)
        ensures
            final(self).location_id == lid,
            final(self).cards@ == old(self).cards@,
    {
        self.location_id = lid;
    }

    pub fn get_location_id(&self) -> (r: LocationId)
        ensures
            r == self.location_id,
    {
        self.location_id
    }

    /// Puts the card last; a collection never refuses one.
    pub fn add_card(&mut self, card: TokenInstanceId) -> (r: Result<(), SlotOccupied>)
        ensures
            r is Ok,
            final(self).cards@ == old(self).cards@.push(card),
            final(self).location_id == old(self).location_id,
    {
        self.cards.push(card);
        Ok(())
    }

    /// Takes out every occurrence of the card, keeping the order of the others.
    pub fn remove_card(&mut self, card: TokenInstanceId)
        ensures
            final(self).cards@ == without(old(self).cards@, card),
            final(self).location_id == old(self).location_id,
    {
        remove_all(&mut self.cards, card);
    }

    pub fn clear(&mut self)
        ensures
            final(self).cards@ == Seq::<TokenInstanceId>::empty(),
            final(self).location_id == old(self).location_id,
    {
        self.cards.clear();
    }

    /// Puts the cards in a random order: the same cards, as many times each.
    pub fn shuffle(&mut self)
        ensures
            final(self).cards@.len() == old(self).cards@.len(),
            final(self).cards@.to_multiset() == old(self).cards@.to_multiset(),
            final(self).location_id == old(self).location_id,
    {
        shuffle_vec(&mut self.cards);
    }

    pub fn contains(&self, card: TokenInstanceId) -> (r: bool)
        ensures
            r == self.cards@.contains(card),
    {
        let mut i: usize = 0;
        while i < self.cards.len()
            invariant
                i <= self.cards.len(),
                forall|j: int| 0 <= j < i ==> self.cards@[j] != card,
            decreases self.cards.len() - i,
        {
            if self.cards[i] == card {
                return true;
            }
            i = i + 1;
        }
        false
    }

    /// The first card, if any.
    pub fn get_card(&self) -> (r: Option<TokenInstanceId>)
        ensures
            r == (if self.cards@.len() > 0 {
                Some(self.cards@[0])
            } else {
                None
            }),
    {
        if self.cards.len() > 0 {
            Some(self.cards[0])
        } else {
            None
        }
    }

    pub fn get_cards(&self) -> (r: Vec<TokenInstanceId>)
        ensures
            r@ == self.cards@,
    {
        self.cards.clone()
    }
}

/// A location as a value: its id, whether it is a single slot, and its tokens in order.
pub struct LocationView {
    pub location_id: LocationId,
    pub is_slot: bool,
    pub tokens: Seq<TokenInstanceId>,
}

impl View for LocationStore {
    type V = LocationView;

    open spec fn view(&self) -> LocationView {
        LocationView {
            location_id: self.spec_location_id(),
            is_slot: self.spec_is_slot(),
            tokens: self.spec_tokens(),
        }
    }
}

/// Any of the token locations of a game.
pub enum LocationStore {
    Slot(TokenSlot),
    Collection(TokenCollection),
}

impl LocationStore {
    /// The tokens at the location, in order.
    pub open spec fn spec_tokens(&self) -> Seq<TokenInstanceId> {
        match self {
            LocationStore::Slot(s) => s.spec_tokens(),
            LocationStore::Collection(c) => c.tokens@,
        }
    }

    pub open spec fn spec_location_id(&self) -> LocationId {
        match self {
            LocationStore::Slot(s) => s.location_id,
            LocationStore::Collection(c) => c.location_id,
        }
    }

    pub open spec fn spec_has_room(&self) -> bool {
        match self {
            LocationStore::Slot(s) => s.token is None,
            LocationStore::Collection(_) => true,
        }
    }

    /// What taking `t` out leaves: a slot empties whatever it holds, a collection
    /// drops every occurrence of `t`.
    pub open spec fn spec_after_remove(&self, t: TokenInstanceId) -> Seq<TokenInstanceId> {
        match self {
            LocationStore::Slot(_) => Seq::empty(),
            LocationStore::Collection(c) => without(c.tokens@, t),
        }
    }

    pub open spec fn spec_is_slot(&self) -> bool {
        self is Slot
    }

    pub fn get_location_id(&self) -> (r: LocationId)
        ensures
            r == self.spec_location_id(),
    {
        match self {
            LocationStore::Slot(s) => s.get_location_id(),
            LocationStore::Collection(c) => c.get_location_id(),
        }
    }

    /// Adds the token: a collection puts it last, a free slot takes it, a taken slot
    /// refuses and stays as it was.
    pub fn add_token(&mut self, token: TokenInstanceId) -> (r: Result<(), SlotOccupied>)
        ensures
            old(self).spec_has_room() ==> r is Ok && final(self).spec_tokens() == old(
                self,
            ).spec_tokens().push(token),
            !old(self).spec_has_room() ==> r == Err::<(), SlotOccupied>(
                SlotOccupied(old(self).spec_location_id()),
            ) && final(self).spec_tokens() == old(self).spec_tokens(),
            final(self).spec_location_id() == old(self).spec_location_id(),
            final(self).spec_is_slot() == old(self).spec_is_slot(),
    {
        match self {
            LocationStore::Slot(s) => {
                let r = s.add_token(token);
                assert(option_seq(Some(token)) =~= Seq::<TokenInstanceId>::empty().push(token));
                r
            },
            LocationStore::Collection(c) => c.add_token(token),
        }
    }

    pub fn remove_token(&mut self, token: TokenInstanceId)
        ensures
            final(self).spec_tokens() == old(self).spec_after_remove(token),
            final(self).spec_location_id() == old(self).spec_location_id(),
            final(self).spec_is_slot() == old(self).spec_is_slot(),
    {
        match self {
            LocationStore::Slot(s) => s.remove_token(token),
            LocationStore::Collection(c) => c.remove_token(token),
        }
    }

    pub fn clear(&mut self)
        ensures
            final(self).spec_tokens() == Seq::<TokenInstanceId>::empty(),
            final(self).spec_location_id() == old(self).spec_location_id(),
            final(self).spec_is_slot() == old(self).spec_is_slot(),
    {
        match self {
            LocationStore::Slot(s) => s.clear(),
            LocationStore::Collection(c) => c.clear(),
        }
    }

    pub fn shuffle(&mut self)
        ensures
            final(self).spec_tokens().to_multiset() == old(self).spec_tokens().to_multiset(),
            final(self).spec_tokens().len() == old(self).spec_tokens().len(),
            final(self).spec_location_id() == old(self).spec_location_id(),
            final(self).spec_is_slot() == old(self).spec_is_slot(),
    {
        match self {
            LocationStore::Slot(s) => s.shuffle(),
            LocationStore::Collection(c) => c.shuffle(),
        }
    }

    pub fn contains(&self, token: TokenInstanceId) -> (r: bool)
        ensures
            r == self.spec_tokens().contains(token),
    {
        match self {
            LocationStore::Slot(s) => {
                let r = s.contains(token);
                proof {
                    if r {
                        assert(s.spec_tokens()[0] == token);
                    }
                }
                r
            },
            LocationStore::Collection(c) => c.contains(token),
        }
    }

    pub fn has_room(&self) -> (r: bool)
        ensures
            r == self.spec_has_room(),
    {
        match self {
            LocationStore::Slot(s) => s.has_room(),
            LocationStore::Collection(c) => c.has_room(),
        }
    }

    /// The first token, if any.
    pub fn get_token(&self) -> (r: Option<TokenInstanceId>)
        ensures
            r == (if self.spec_tokens().len() > 0 {
                Some(self.spec_tokens()[0])
            } else {
                None
            }),
    {
        match self {
            LocationStore::Slot(s) => s.get_token(),
            LocationStore::Collection(c) => c.get_token(),
        }
    }

    pub fn get_tokens(&self) -> (r: Vec<TokenInstanceId>)
        ensures
            r@ == self.spec_tokens(),
    {
        match self {
            LocationStore::Slot(s) => s.get_tokens(),
            LocationStore::Collection(c) => c.get_tokens(),
        }
    }
}

} // verus!
