//! The messages a game step has for the client, kept in order until they are sent.
use vstd::prelude::*;

use crate::error::GameError;
use crate::instruction::{instruction_fits, spec_instruction_text, InstructionToClient, InstructionView};
use crate::registry::TokenRegistry;
use crate::text::push_str;

verus! {

/// A message for the client.
pub enum Outgoing {
    Info(String),
    Warning(String),
    Error(String),
    Instruction(InstructionToClient),
    Raw(String),
}

pub enum OutgoingView {
    Info(Seq<char>),
    Warning(Seq<char>),
    Error(Seq<char>),
    Instruction(InstructionView),
    Raw(Seq<char>),
}

impl View for Outgoing {
    type V = OutgoingView;

    open spec fn view(&self) -> OutgoingView {
        match self {
            Outgoing::Info(s) => OutgoingView::Info(s@),
            Outgoing::Warning(s) => OutgoingView::Warning(s@),
            Outgoing::Error(s) => OutgoingView::Error(s@),
            Outgoing::Instruction(i) => OutgoingView::Instruction(i@),
            Outgoing::Raw(s) => OutgoingView::Raw(s@),
        }
    }
}

/// Collects what the game has to say to the client; the connection sends it in order.
pub struct GameCommunicator {
    pub outbox: Vec<Outgoing>,
}

impl GameCommunicator {
    /// Everything said so far, in order.
    pub open spec fn sent(&self) -> Seq<OutgoingView> {
        self.outbox@.map_values(|o: Outgoing| o@)
    }

    /// Nothing said yet.
    pub fn new() -> (r: Self)
        ensures
            r.sent() == Seq::<OutgoingView>::empty(),
    {
        let r = GameCommunicator { outbox: Vec::new() };
        assert(r.sent() =~= Seq::<OutgoingView>::empty());
        r
    }

    fn say(&mut self, o: Outgoing)
        ensures
            final(self).sent() == old(self).sent().push(o@),
    {
        self.outbox.push(o);
        assert(self.sent() =~= old(self).sent().push(o@));
    }

    pub fn send_info(&mut self, info: &str)
        ensures
            final(self).sent() == old(self).sent().push(OutgoingView::Info(info@)),
    {
        self.say(Outgoing::Info(String::from_str(info)));
    }

    pub fn send_warning(&mut self, warning: &str)
        ensures
            final(self).sent() == old(self).sent().push(OutgoingView::Warning(warning@)),
    {
        self.say(Outgoing::Warning(String::from_str(warning)));
    }

    pub fn send_error(&mut self, error: &str)
        ensures
            final(self).sent() == old(self).sent().push(OutgoingView::Error(error@)),
    {
        self.say(Outgoing::Error(String::from_str(error)));
    }

    pub fn send_game_instruction(&mut self, instruction: InstructionToClient)
        ensures
            final(self).sent() == old(self).sent().push(OutgoingView::Instruction(instruction@)),
    {
        self.say(Outgoing::Instruction(instruction));
    }

    pub fn send_raw(&mut self, msg: &str)
        ensures
            final(self).sent() == old(self).sent().push(OutgoingView::Raw(msg@)),
    {
        self.say(Outgoing::Raw(String::from_str(msg)));
    }

    /// Hands over everything said so far, leaving nothing.
    pub fn take_outbox(&mut self) -> (r: Vec<Outgoing>)
        ensures
            final(self).sent() == Seq::<OutgoingView>::empty(),
            r@.map_values(|o: Outgoing| o@) == old(self).sent(),
    {
        let mut r: Vec<Outgoing> = Vec::new();
        std::mem::swap(&mut r, &mut self.outbox);
        assert(self.sent() =~= Seq::<OutgoingView>::empty());
        r
    }
}

/// The text a message goes over the wire as: notices start with `info|`, `warn|` or
/// `error|`, an instruction is its text (`Destroy` has none), raw text goes as it is.
pub open spec fn spec_wire_text(o: OutgoingView, reg: TokenRegistry) -> Option<Seq<char>> {
    match o {
        OutgoingView::Info(s) => Some("info|"@ + s),
        OutgoingView::Warning(s) => Some("warn|"@ + s),
        OutgoingView::Error(s) => Some("error|"@ + s),
        OutgoingView::Instruction(i) => spec_instruction_text(i, reg),
        OutgoingView::Raw(s) => Some(s),
    }
}

/// Whether the tokens a message describes have their kind in the registry.
pub open spec fn outgoing_fits(o: OutgoingView, reg: TokenRegistry) -> bool {
    match o {
        OutgoingView::Instruction(i) => instruction_fits(i, reg),
        _ => true,
    }
}

impl Outgoing {
    /// Whether the tokens the message describes have their kind in the registry.
    pub fn fits(&self, registry: &TokenRegistry) -> (r: bool)
        ensures
            r == outgoing_fits(self@, *registry),
    {
        match self {
            Outgoing::Instruction(InstructionToClient::CreateToken { token_data, .. }) => {
                token_data.data_index < registry.tokens.len()
            },
            Outgoing::Instruction(InstructionToClient::UpdateData { token_data }) => {
                token_data.data_index < registry.tokens.len()
            },
            Outgoing::Instruction(InstructionToClient::UpdateBehaviors { token_data }) => {
                token_data.data_index < registry.tokens.len()
            },
            _ => true,
        }
    }

    /// The text the message goes over the wire as (see `spec_wire_text`); a message with
    /// no text is refused.
    pub fn to_wire(&self, registry: &TokenRegistry) -> (r: Result<String, GameError>)
        requires
            outgoing_fits(self@, *registry),
        ensures
            match spec_wire_text(self@, *registry) {
                Some(t) => r matches Ok(s) && s@ == t,
                None => r == Err::<String, GameError>(GameError::Unimplemented),
            },
    {
        let mut s = String::new();
        match self {
            Outgoing::Info(t) => {
                push_str(&mut s, "info|");
                push_str(&mut s, t.as_str());
                proof {
                    reveal_strlit("info|");
                }
            },
            Outgoing::Warning(t) => {
                push_str(&mut s, "warn|");
                push_str(&mut s, t.as_str());
                proof {
                    reveal_strlit("warn|");
                }
            },
            Outgoing::Error(t) => {
                push_str(&mut s, "error|");
                push_str(&mut s, t.as_str());
                proof {
                    reveal_strlit("error|");
                }
            },
            Outgoing::Instruction(i) => {
                return i.build(registry);
            },
            Outgoing::Raw(t) => {
                push_str(&mut s, t.as_str());
            },
        }
        Ok(s)
    }
}

} // verus!
