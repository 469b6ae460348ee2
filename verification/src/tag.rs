//! The tagged text the client and server exchange: `//value/!` fields, and
//! `/name/value/!name/` sections.
use vstd::prelude::*;

use crate::error::GameError;
use crate::id_types::{spec_player_number, LocationId, PlayerId, PromptInstanceId, TokenInstanceId};
use crate::prompts::PromptType;
use crate::registry::TokenRegistry;
use crate::text::{
    chars_to_string, decimal, digit_char, find_chars, push_decimal, push_signed_decimal, push_str,
    signed_decimal, spec_find, str_chars,
};
use crate::token_data::{TokenBehavior, TokenCategory, TokenData};
use crate::token_instance::{TokenInstance, TokenInstanceView};

verus! {

pub open spec fn open_tag(tag: Seq<char>) -> Seq<char> {
    seq!['/'] + tag + seq!['/']
}

pub open spec fn close_tag(tag: Seq<char>) -> Seq<char> {
    seq!['/', '!'] + tag + seq!['/']
}

/// Why a section cannot be read.
pub enum TagFailure {
    NoOpening,
    NoClosing,
    OutOfOrder,
}

/// What reading section `tag` of `data` gives: the text between the first `/tag/` and
/// the first `/!tag/`.
pub open spec fn spec_get_tag(tag: Seq<char>, data: Seq<char>) -> Result<Seq<char>, TagFailure> {
    match spec_find(data, open_tag(tag)) {
        None => Err(TagFailure::NoOpening),
        Some(start) => match spec_find(data, close_tag(tag)) {
            None => Err(TagFailure::NoClosing),
            Some(end) => if start + tag.len() + 2 <= end {
                Ok(data.subrange(start + tag.len() + 2, end))
            } else {
                Err(TagFailure::OutOfOrder)
            },
        },
    }
}

/// Reads section `tag` of `data`: the text between the first `/tag/` and the first
/// `/!tag/`. A closing that comes before the opening ends is refused.
pub fn get_tag(tag: &str, data: &str) -> (r: Result<String, GameError>)
    ensures
        match spec_get_tag(tag@, data@) {
            Ok(v) => r matches Ok(s) && s@ == v,
            Err(TagFailure::NoOpening) => r matches Err(GameError::TagNotFound(t)) && t@ == tag@,
            Err(TagFailure::NoClosing) => r matches Err(GameError::ClosingTagNotFound(t)) && t@ == tag@,
            Err(TagFailure::OutOfOrder) => r matches Err(GameError::TagOutOfOrder(t)) && t@ == tag@,
        },
{
    let d = str_chars(data);
    let t = str_chars(tag);
    let mut open: Vec<char> = Vec::new();
    open.push('/');
    let mut close: Vec<char> = Vec::new();
    close.push('/');
    close.push('!');
    let mut i: usize = 0;
    while i < t.len()
        invariant
            i <= t@.len(),
            open@ == seq!['/'] + t@.take(i as int),
            close@ == seq!['/', '!'] + t@.take(i as int),
        decreases t.len() - i,
    {
        open.push(t[i]);
        close.push(t[i]);
        i = i + 1;
        assert(open@ =~= seq!['/'] + t@.take(i as int));
        assert(close@ =~= seq!['/', '!'] + t@.take(i as int));
    }
    open.push('/');
    close.push('/');
    assert(t@.take(t@.len() as int) =~= t@);
    assert(open@ =~= open_tag(tag@));
    assert(close@ =~= close_tag(tag@));
    let start = match find_chars(&d, &open) {
        Some(s) => s,
        None => return Err(GameError::TagNotFound(String::from_str(tag))),
    };
    let end = match find_chars(&d, &close) {
        Some(e) => e,
        None => return Err(GameError::ClosingTagNotFound(String::from_str(tag))),
    };
    assert(open@.len() == t@.len() + 2);
    let dl = d.len();
    assert(start + open@.len() <= dl);
    assert(t.len() == t@.len());
    let from = start + t.len() + 2;
    if from > end {
        return Err(GameError::TagOutOfOrder(String::from_str(tag)));
    }
    Ok(chars_to_string(&d, from, end))
}

/// A field of a message: `//` + its text + `/!`.
pub open spec fn tag_text(body: Seq<char>) -> Seq<char> {
    seq!['/', '/'] + body + seq!['/', '!']
}

/// The digits after the point of `f` thousandths, without trailing zeros.
pub open spec fn fraction_digits(f: nat) -> Seq<char> {
    let d1 = digit_char((f / 100) as int);
    let d2 = digit_char(((f / 10) % 10) as int);
    let d3 = digit_char((f % 10) as int);
    if f % 10 != 0 {
        seq![d1, d2, d3]
    } else if (f / 10) % 10 != 0 {
        seq![d1, d2]
    } else {
        seq![d1]
    }
}

/// A duration of `ms` milliseconds written in seconds, as a number prints: whole
/// seconds, then a point and the remaining digits if any.
pub open spec fn seconds_text(ms: nat) -> Seq<char> {
    if ms % 1000 == 0 {
        decimal(ms / 1000)
    } else {
        decimal(ms / 1000) + seq!['.'] + fraction_digits(ms % 1000)
    }
}

/// The texts joined with `sep` between them.
pub open spec fn joined(parts: Seq<Seq<char>>, sep: Seq<char>) -> Seq<char>
    decreases parts.len(),
{
    if parts.len() == 0 {
        Seq::empty()
    } else if parts.len() == 1 {
        parts[0]
    } else {
        joined(parts.drop_last(), sep) + sep + parts.last()
    }
}

/// The number the client knows a category by.
pub open spec fn category_number(c: TokenCategory) -> nat {
    match c {
        TokenCategory::Hero { .. } => 0,
        TokenCategory::Landscape { .. } => 1,
        TokenCategory::Unit { .. } => 2,
        TokenCategory::Item => 3,
        TokenCategory::Command => 4,
    }
}

/// An optional text, or `default` when there is none.
pub open spec fn text_or(o: Option<String>, default: Seq<char>) -> Seq<char> {
    match o {
        Some(s) => s@,
        None => default,
    }
}

/// The kind's id, category number and display name, each followed by `;;`.
pub open spec fn field_head(id: Seq<char>, category: nat, name: Seq<char>) -> Seq<char> {
    id + seq![';', ';'] + decimal(category) + seq![';', ';'] + name + seq![';', ';']
}

/// The description and cost, each followed by `;;`.
pub open spec fn field_mid(description: Seq<char>, cost: nat) -> Seq<char> {
    description + seq![';', ';'] + decimal(cost) + seq![';', ';']
}

/// Health, defense and attack, each followed by `;;`.
pub open spec fn field_stats(health: int, defense: int, attack: int) -> Seq<char> {
    signed_decimal(health) + seq![';', ';'] + signed_decimal(defense) + seq![';', ';']
        + signed_decimal(attack) + seq![';', ';']
}

/// The fields of a token description, each followed by `;;`.
pub open spec fn token_fields(
    id: Seq<char>,
    category: nat,
    name: Seq<char>,
    description: Seq<char>,
    cost: nat,
    health: int,
    defense: int,
    attack: int,
    types: Seq<Seq<char>>,
) -> Seq<char> {
    field_head(id, category, name) + field_mid(description, cost) + field_stats(health, defense, attack)
        + (joined(types, seq![',', ' ']) + seq![';', ';'])
}

/// How a kind is named to players: its name and, in brackets, its cost.
pub open spec fn display_name(d: TokenData) -> Seq<char> {
    d.name@ + seq![' ', '('] + decimal(d.cost as nat) + seq![')']
}

/// A token in play described for the client: its kind's id, category, name and
/// description, then its own cost, current stats and types.
pub open spec fn instance_body(t: TokenInstanceView, reg: TokenRegistry) -> Seq<char> {
    let d = reg.tokens@[t.data_index as int];
    token_fields(
        d.id@,
        category_number(d.token_category),
        display_name(d),
        text_or(d.description, Seq::empty()),
        t.cost as nat,
        t.current_stats.health as int,
        t.current_stats.defense as int,
        t.current_stats.attack as int,
        t.token_types.map_values(|x: String| x@),
    )
}

/// A kind described for the client, with the stats its category gives.
pub open spec fn data_body(d: TokenData) -> Seq<char> {
    let (health, defense, attack) = match d.token_category {
        TokenCategory::Hero { health, defense } => (health as int, defense as int, 0int),
        TokenCategory::Unit { health, defense, attack } => (health as int, defense as int, attack as int),
        _ => (0int, 0int, 0int),
    };
    token_fields(
        d.id@,
        category_number(d.token_category),
        display_name(d),
        text_or(d.description, seq![' ']),
        d.cost as nat,
        health,
        defense,
        attack,
        d.types@.map_values(|x: String| x@),
    )
}

/// The named behaviors, each as its name and description followed by `;;`.
pub open spec fn behaviors_body(bs: Seq<TokenBehavior>) -> Seq<char>
    decreases bs.len(),
{
    if bs.len() == 0 {
        Seq::empty()
    } else {
        behaviors_body(bs.drop_last()) + match bs.last().name {
            Some(n) => n@ + seq![';', ';'] + text_or(bs.last().description, Seq::empty()) + seq![';', ';'],
            None => Seq::empty(),
        }
    }
}

/// A field of a message.
pub enum Tag<'a> {
    Player(PlayerId),
    U64(u64),
    /// A duration in milliseconds, written in seconds.
    Seconds(u32),
    String(String),
    TokenInstanceData(TokenInstance),
    TokenData(&'a TokenData),
    TokenBehaviors(TokenInstance),
    ServerInstanceId(u64),
    TokenInstanceId(TokenInstanceId),
    LocationId(LocationId),
    PromptInstanceId(PromptInstanceId),
    PromptType(PromptType),
}

/// The text a field stands for.
pub open spec fn tag_body(t: Tag, reg: TokenRegistry) -> Seq<char> {
    match t {
        Tag::Player(p) => decimal(spec_player_number(p) as nat),
        Tag::U64(v) => decimal(v as nat),
        Tag::Seconds(ms) => seconds_text(ms as nat),
        Tag::String(s) => s@,
        Tag::TokenInstanceData(c) => instance_body(c@, reg),
        Tag::TokenData(d) => data_body(*d),
        Tag::TokenBehaviors(c) => behaviors_body(reg.tokens@[c.data_index as int].behaviors@),
        Tag::ServerInstanceId(v) => decimal(v as nat),
        Tag::TokenInstanceId(v) => decimal(v.0 as nat),
        Tag::LocationId(v) => decimal(v.0 as nat),
        Tag::PromptInstanceId(v) => decimal(v.0 as nat),
        Tag::PromptType(p) => spec_prompt_debug(p),
    }
}

/// How a prompt type prints for debugging: its variant and, in brackets, the id it binds.
pub open spec fn spec_prompt_debug(p: PromptType) -> Seq<char> {
    match p {
        PromptType::SelectCard(t) => "SelectCard(TokenInstanceId("@ + decimal(t.0 as nat) + "))"@,
        PromptType::AttackCard(t) => "AttackCard(TokenInstanceId("@ + decimal(t.0 as nat) + "))"@,
        PromptType::SelectFieldSlot(l) => "SelectFieldSlot(LocationId("@ + decimal(l.0 as nat) + "))"@,
    }
}

/// Whether the tokens a field describes have their kind in the registry.
pub open spec fn tag_fits(t: Tag, reg: TokenRegistry) -> bool {
    match t {
        Tag::TokenInstanceData(c) => c.data_index < reg.tokens@.len(),
        Tag::TokenBehaviors(c) => c.data_index < reg.tokens@.len(),
        _ => true,
    }
}

/// Appends the texts joined with `, `.
fn push_joined(s: &mut String, parts: &Vec<String>)
    ensures
        final(s)@ == old(s)@ + joined(parts@.map_values(|x: String| x@), seq![',', ' ']),
{
    let ghost views = parts@.map_values(|x: String| x@);
    let mut i: usize = 0;
    while i < parts.len()
        invariant
            i <= parts@.len(),
            views == parts@.map_values(|x: String| x@),
            s@ == old(s)@ + joined(views.take(i as int), seq![',', ' ']),
        decreases parts.len() - i,
    {
        if i > 0 {
            push_str(s, ", ");
        }
        push_str(s, parts[i].as_str());
        proof {
            reveal_strlit(", ");
            let t1 = views.take(i + 1);
            assert(t1.drop_last() =~= views.take(i as int));
            assert(t1.last() == parts@[i as int]@);
            if i == 0 {
                assert(views.take(0) =~= Seq::<Seq<char>>::empty());
            }
        }
        i = i + 1;
        proof {
            assert(s@ =~= old(s)@ + joined(views.take(i as int), seq![',', ' ']));
        }
    }
    assert(views.take(i as int) =~= views);
}

/// Appends an optional text, or `default` when there is none.
fn push_text_or(s: &mut String, o: &Option<String>, default: &str)
    ensures
        final(s)@ == old(s)@ + match o {
            Some(t) => t@,
            None => default@,
        },
{
    match o {
        Some(t) => push_str(s, t.as_str()),
        None => push_str(s, default),
    }
}

/// Appends the kind's id, category number and display name, each followed by `;;`.
fn push_kind_head(s: &mut String, d: &TokenData)
    ensures
        final(s)@ == old(s)@ + field_head(d.id@, category_number(d.token_category), display_name(*d)),
{
    let category: u64 = match d.token_category {
        TokenCategory::Hero { .. } => 0,
        TokenCategory::Landscape { .. } => 1,
        TokenCategory::Unit { .. } => 2,
        TokenCategory::Item => 3,
        TokenCategory::Command => 4,
    };
    proof {
        reveal_strlit(";;");
        reveal_strlit(" (");
        reveal_strlit(")");
    }
    push_str(s, d.id.as_str());
    push_str(s, ";;");
    push_decimal(s, category);
    push_str(s, ";;");
    push_str(s, d.name.as_str());
    push_str(s, " (");
    push_decimal(s, d.cost as u64);
    push_str(s, ")");
    push_str(s, ";;");
    assert(final(s)@ =~= old(s)@ + field_head(d.id@, category_number(d.token_category), display_name(*d)));
}

/// Appends a signed number followed by `;;`.
fn push_signed_field(s: &mut String, n: i32)
    ensures
        final(s)@ == old(s)@ + signed_decimal(n as int) + seq![';', ';'],
{
    push_signed_decimal(s, n as i64);
    push_str(s, ";;");
    proof {
        reveal_strlit(";;");
    }
    assert(final(s)@ =~= old(s)@ + signed_decimal(n as int) + seq![';', ';']);
}

/// Appends the fields of a token description (see `token_fields`).
fn push_token_fields(
    s: &mut String,
    d: &TokenData,
    default_description: &str,
    cost: u32,
    health: i32,
    defense: i32,
    attack: i32,
    types: &Vec<String>,
)
    ensures
        final(s)@ == old(s)@ + token_fields(
            d.id@,
            category_number(d.token_category),
            display_name(*d),
            text_or(d.description, default_description@),
            cost as nat,
            health as int,
            defense as int,
            attack as int,
            types@.map_values(|x: String| x@),
        ),
{
    let ghost sep = seq![';', ';'];
    proof {
        reveal_strlit(";;");
    }
    let ghost h = field_head(d.id@, category_number(d.token_category), display_name(*d));
    let ghost m = field_mid(text_or(d.description, default_description@), cost as nat);
    let ghost st = field_stats(health as int, defense as int, attack as int);
    let ghost t = joined(types@.map_values(|x: String| x@), seq![',', ' ']) + sep;
    push_kind_head(s, d);
    let ghost p1 = s@;
    push_text_or(s, &d.description, default_description);
    push_str(s, ";;");
    push_decimal(s, cost as u64);
    push_str(s, ";;");
    let ghost p2 = s@;
    assert(p2 =~= p1 + m);
    push_signed_field(s, health);
    push_signed_field(s, defense);
    push_signed_field(s, attack);
    let ghost p3 = s@;
    assert(p3 =~= p2 + st);
    push_joined(s, types);
    push_str(s, ";;");
    assert(s@ =~= p3 + t);
    assert(s@ =~= old(s)@ + (h + m + st + t));
}

/// Appends a duration of `ms` milliseconds in seconds (see `seconds_text`).
fn push_seconds(s: &mut String, ms: u32)
    ensures
        final(s)@ == old(s)@ + seconds_text(ms as nat),
{
    push_decimal(s, (ms / 1000) as u64);
    let f = ms % 1000;
    if f != 0 {
        s.push('.');
        s.push(digit_to_char(f / 100));
        if f % 10 != 0 {
            s.push(digit_to_char((f / 10) % 10));
            s.push(digit_to_char(f % 10));
        } else if (f / 10) % 10 != 0 {
            s.push(digit_to_char((f / 10) % 10));
        }
    }
    assert(final(s)@ =~= old(s)@ + seconds_text(ms as nat));
}

fn digit_to_char(d: u32) -> (c: char)
    requires
        d < 10,
    ensures
        c == digit_char(d as int),
{
    if d == 0 {
        '0'
    } else if d == 1 {
        '1'
    } else if d == 2 {
        '2'
    } else if d == 3 {
        '3'
    } else if d == 4 {
        '4'
    } else if d == 5 {
        '5'
    } else if d == 6 {
        '6'
    } else if d == 7 {
        '7'
    } else if d == 8 {
        '8'
    } else {
        '9'
    }
}

/// Appends the named behaviors of a kind (see `behaviors_body`).
fn push_behaviors(s: &mut String, bs: &Vec<TokenBehavior>)
    ensures
        final(s)@ == old(s)@ + behaviors_body(bs@),
{
    let mut i: usize = 0;
    while i < bs.len()
        invariant
            i <= bs@.len(),
            s@ == old(s)@ + behaviors_body(bs@.take(i as int)),
        decreases bs.len() - i,
    {
        let ghost before = s@;
        match &bs[i].name {
            Some(n) => {
                push_str(s, n.as_str());
                push_str(s, ";;");
                push_text_or(s, &bs[i].description, "");
                push_str(s, ";;");
            },
            None => {},
        }
        proof {
            reveal_strlit(";;");
            reveal_strlit("");
            let t1 = bs@.take(i + 1);
            assert(t1.drop_last() =~= bs@.take(i as int));
            assert(t1.last() == bs@[i as int]);
        }
        i = i + 1;
        proof {
            assert(s@ =~= old(s)@ + behaviors_body(bs@.take(i as int)));
        }
    }
    assert(bs@.take(i as int) =~= bs@);
}

impl<'a> Tag<'a> {
    /// Writes the field: `//`, its text, `/!`.
    pub fn build(&self, registry: &TokenRegistry) -> (r: String)
        requires
            tag_fits(*self, *registry),
        ensures
            r@ == tag_text(tag_body(*self, *registry)),
    {
        let mut s = String::new();
        push_str(&mut s, "//");
        match self {
            Tag::Player(p) => push_decimal(&mut s, p.number() as u64),
            Tag::U64(v) => push_decimal(&mut s, *v),
            Tag::Seconds(ms) => push_seconds(&mut s, *ms),
            Tag::String(t) => push_str(&mut s, t.as_str()),
            Tag::TokenInstanceData(c) => {
                let d = &registry.tokens[c.data_index];
                push_token_fields(
                    &mut s,
                    d,
                    "",
                    c.cost,
                    c.current_stats.health,
                    c.current_stats.defense,
                    c.current_stats.attack,
                    &c.token_types,
                );
                proof {
                    reveal_strlit("");
                }
            },
            Tag::TokenData(d) => {
                let (health, defense, attack) = match d.token_category {
                    TokenCategory::Hero { health, defense } => (health, defense, 0i32),
                    TokenCategory::Unit { health, defense, attack } => (health, defense, attack),
                    _ => (0i32, 0i32, 0i32),
                };
                push_token_fields(&mut s, d, " ", d.cost, health, defense, attack, &d.types);
                proof {
                    reveal_strlit(" ");
                }
            },
            Tag::TokenBehaviors(c) => push_behaviors(&mut s, &registry.tokens[c.data_index].behaviors),
            Tag::ServerInstanceId(v) => push_decimal(&mut s, *v),
            Tag::TokenInstanceId(v) => push_decimal(&mut s, v.0),
            Tag::LocationId(v) => push_decimal(&mut s, v.0),
            Tag::PromptInstanceId(v) => push_decimal(&mut s, v.0),
            Tag::PromptType(p) => {
                match p {
                    PromptType::SelectCard(t) => {
                        push_str(&mut s, "SelectCard(TokenInstanceId(");
                        push_decimal(&mut s, t.0);
                    },
                    PromptType::AttackCard(t) => {
                        push_str(&mut s, "AttackCard(TokenInstanceId(");
                        push_decimal(&mut s, t.0);
                    },
                    PromptType::SelectFieldSlot(l) => {
                        push_str(&mut s, "SelectFieldSlot(LocationId(");
                        push_decimal(&mut s, l.0);
                    },
                }
                push_str(&mut s, "))");
            },
        }
        push_str(&mut s, "/!");
        proof {
            reveal_strlit("//");
            reveal_strlit("/!");
            reveal_strlit("))");
            reveal_strlit("SelectCard(TokenInstanceId(");
            reveal_strlit("AttackCard(TokenInstanceId(");
            reveal_strlit("SelectFieldSlot(LocationId(");
            assert(s@ =~= tag_text(tag_body(*self, *registry)));
        }
        s
    }
}

} // verus!
