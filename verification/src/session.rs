//! A game with one client: each message from the client is a step of the game, and
//! everything the game has to say is kept for the connection to send.
use vstd::prelude::*;

use crate::error::{GameError, GameErrorView};
use crate::game_communicator::GameCommunicator;
use crate::game_context::GameContext;
use crate::id_types::{LocationId, TokenInstanceId};
use crate::prompts::{PromptCallback, PromptCallbackResult};
use crate::registry::TokenRegistry;
use crate::state_machine::{spec_summon_group, GroupView, StateMachine};
use crate::state_resources::{spec_summon_check, StateResources};
use crate::start::{spec_started, StartTrace};
use crate::process::{queue_ran, queue_result, QueueStep};
use crate::turn::{spec_selectable_shown, spec_start_turn};
use crate::callbacks::spec_executed;
use crate::prompts::{add_prompt_message, remove_prompt_message, PromptProfile};
use crate::game_context::ContextValueView;
use crate::error::spec_message;
use crate::instruction::InstructionView;
use crate::id_types::spec_opponent;
use vstd::pervasive::arbitrary;
use crate::tag::get_tag;
use crate::text::{spec_parse_u64, spec_split, split_on, str_eq};
use crate::finder::tag_read;
use crate::history::kept_in;
use crate::callbacks::spec_read_answer;
use crate::game_communicator::OutgoingView;
use crate::id_types::PromptInstanceId;
use crate::token_data::TokenCategory;

verus! {

/// A running game with one client.
pub struct GameSession {
    pub communicator: GameCommunicator,
    pub state: StateMachine,
    pub resources: StateResources,
    /// The prompts the client is answering, if any.
    pub current_callback: Option<PromptCallback>,
    /// What answers to prompts keep for later answers.
    pub callback_context: GameContext,
}

/// What reading a move gives: the token, as a number in section `token_tag`, and the
/// location, as a number in section `location`; each section is read, then its number.
pub open spec fn spec_read_move(data: Seq<char>, token_tag: Seq<char>) -> Result<(TokenInstanceId, LocationId), GameErrorView> {
    match tag_read(token_tag, data) {
        Err(e) => Err(e),
        Ok(t) => match spec_parse_u64(t) {
            Err(p) => Err(GameErrorView::InvalidNumber(p)),
            Ok(a) => match tag_read("location"@, data) {
                Err(e) => Err(e),
                Ok(l) => match spec_parse_u64(l) {
                    Err(p) => Err(GameErrorView::InvalidNumber(p)),
                    Ok(b) => Ok((TokenInstanceId(a), LocationId(b))),
                },
            },
        },
    }
}

/// The instructions a client may send.
pub open spec fn known_instruction(i: Seq<char>) -> bool {
    i == "callback"@ || i == "start_game"@ || i == "move_card"@ || i == "move_token"@ || i == "pass_turn"@
}

/// How many messages closing the open prompts takes.
pub open spec fn open_prompt_count(cb: Option<PromptCallback>) -> int {
    match cb {
        Some(c) => c.prompt_instances@.len() as int,
        None => 0,
    }
}

/// The session is as given: its game, queue, messages, context and open prompts.
pub open spec fn ends_as(
    post: GameSession,
    res: StateResources,
    groups: Seq<GroupView>,
    sent: Seq<OutgoingView>,
    ctx: Map<Seq<char>, ContextValueView>,
    cur: Option<PromptCallback>,
) -> bool {
    &&& post.resources == res
    &&& post.state.groups() == groups
    &&& post.communicator.sent() == sent
    &&& post.callback_context.view() == ctx
    &&& post.current_callback == cur
}

/// The messages that take the prompts of `cb` off the client, in order.
pub open spec fn removals(cb: PromptCallback) -> Seq<OutgoingView> {
    cb.prompt_instances@.map_values(|e: (PromptInstanceId, PromptProfile)| remove_prompt_message(e))
}

/// The messages that show the prompts of `cb` on the client, in order.
pub open spec fn additions(cb: PromptCallback) -> Seq<OutgoingView> {
    cb.prompt_instances@.map_values(|e: (PromptInstanceId, PromptProfile)| add_prompt_message(e))
}

/// What the parts of handling one message came to.
pub struct HandleTrace {
    pub exec_ctx: Map<Seq<char>, ContextValueView>,
    pub exec_groups: Seq<GroupView>,
    pub exec_r: Result<PromptCallbackResult, GameError>,
    pub start: StartTrace,
    pub act_res: StateResources,
    pub act_groups: Seq<GroupView>,
    pub act_sent: Seq<OutgoingView>,
    pub act_r: Result<(), GameError>,
    pub check_r: Result<bool, GameError>,
    pub steps: Seq<QueueStep>,
    pub proc_sent: Seq<OutgoingView>,
    pub proc_r: Result<Option<PromptCallback>, GameError>,
    pub shown: Result<PromptCallback, GameError>,
}

/// After an instruction that came to `act_r` (a failure is told to the client): the
/// queue is worked through (see `queue_ran`); the prompts it asks for are opened, or else
/// the prompts to select an attacker.
pub open spec fn spec_after_instruction(
    post: GameSession,
    res: StateResources,
    groups: Seq<GroupView>,
    sent: Seq<OutgoingView>,
    ctx: Map<Seq<char>, ContextValueView>,
    cur: Option<PromptCallback>,
    act_r: Result<(), GameError>,
    t: HandleTrace,
    r: Result<(), GameError>,
) -> bool {
    let s2 = match act_r {
        Err(e) => sent.push(OutgoingView::Error(spec_message(e@))),
        Ok(_) => sent,
    };
    &&& queue_ran(t.steps, res, groups, s2, post.resources, post.state.groups(), t.proc_sent)
    &&& queue_result(t.steps, t.proc_r)
    &&& post.callback_context.view() == ctx
    &&& match t.proc_r {
        Err(e) => r == Err::<(), GameError>(e) && post.communicator.sent() == t.proc_sent && post.current_callback == cur,
        Ok(Some(cb)) => if !cb.wf() {
            r == Err::<(), GameError>(GameError::InvalidState) && post.communicator.sent() == t.proc_sent
                && post.current_callback == cur
        } else {
            r == Ok::<(), GameError>(()) && post.communicator.sent() == t.proc_sent + additions(cb)
                && post.current_callback == Some(cb)
        },
        Ok(None) => spec_selectable_shown(post.resources, t.shown) && match t.shown {
            Err(e) => r == Err::<(), GameError>(e) && post.communicator.sent() == t.proc_sent
                && post.current_callback == cur,
            Ok(cb) => r == Ok::<(), GameError>(()) && post.communicator.sent() == t.proc_sent + additions(cb)
                && post.current_callback == Some(cb),
        },
    }
}

/// Playing a unit from hand when allowed (see `spec_summon_check`), then the rest.
pub open spec fn spec_summon_then(
    post: GameSession,
    res: StateResources,
    groups: Seq<GroupView>,
    sent: Seq<OutgoingView>,
    ctx: Map<Seq<char>, ContextValueView>,
    cur: Option<PromptCallback>,
    tok: TokenInstanceId,
    loc: LocationId,
    t: HandleTrace,
    r: Result<(), GameError>,
) -> bool {
    &&& spec_summon_check(res, tok, loc, sent, t.act_sent, t.check_r)
    &&& match t.check_r {
        Err(e) => r == Err::<(), GameError>(e) && ends_as(post, res, groups, t.act_sent, ctx, cur),
        Ok(allow) => spec_after_instruction(
            post,
            res,
            if allow { seq![spec_summon_group(tok, loc)] + groups } else { groups },
            t.act_sent,
            ctx,
            cur,
            Ok(()),
            t,
            r,
        ),
    }
}

/// Doing instruction `instr` with `data`, from the game `res`, queue `groups`, messages
/// `sent`, context `ctx` and open prompts `cur`, then the rest (see
/// `spec_after_instruction`). Moving an item with `move_token` is refused with
/// `Unimplemented`: no rule says when an item may be equipped.
pub open spec fn spec_instruction(
    post: GameSession,
    res: StateResources,
    groups: Seq<GroupView>,
    sent: Seq<OutgoingView>,
    ctx: Map<Seq<char>, ContextValueView>,
    cur: Option<PromptCallback>,
    instr: Seq<char>,
    data: Seq<char>,
    t: HandleTrace,
    r: Result<(), GameError>,
) -> bool {
    if instr == "start_game"@ {
        &&& spec_started(res, t.act_res, Seq::empty(), t.act_groups, sent, t.act_sent, data, t.act_r, t.start)
        &&& spec_after_instruction(post, t.act_res, t.act_groups, t.act_sent, ctx, cur, t.act_r, t, r)
    } else if instr == "move_card"@ {
        match spec_read_move(data, "card"@) {
            Err(e) => (r matches Err(x) && x@ == e) && ends_as(post, res, groups, sent, ctx, cur),
            Ok((tok, loc)) => spec_summon_then(post, res, groups, sent, ctx, cur, tok, loc, t, r),
        }
    } else if instr == "move_token"@ {
        match spec_read_move(data, "token"@) {
            Err(e) => (r matches Err(x) && x@ == e) && ends_as(post, res, groups, sent, ctx, cur),
            Ok((tok, loc)) => if !res.tokens().contains_key(tok) {
                r == Err::<(), GameError>(GameError::TokenNotFound(tok)) && ends_as(post, res, groups, sent, ctx, cur)
            } else {
                match res.registry.tokens@[res.tokens()[tok].data_index as int].token_category {
                    TokenCategory::Unit { .. } => spec_summon_then(post, res, groups, sent, ctx, cur, tok, loc, t, r),
                    TokenCategory::Item => spec_after_instruction(
                        post,
                        res,
                        groups,
                        sent,
                        ctx,
                        cur,
                        Err(GameError::Unimplemented),
                        t,
                        r,
                    ),
                    _ => spec_after_instruction(post, res, groups, sent, ctx, cur, Ok(()), t, r),
                }
            },
        }
    } else if instr == "pass_turn"@ {
        let sent1 = match cur {
            Some(c) => sent + removals(c),
            None => sent,
        };
        if res.round == u32::MAX {
            r == Err::<(), GameError>(GameError::InvalidState) && ends_as(post, res, groups, sent1, ctx, None)
        } else {
            let player = spec_opponent(res.current_turn);
            &&& spec_start_turn(
                StateResources { current_turn: player, round: (res.round + 1) as u32, ..res },
                t.act_res,
                groups,
                t.act_groups,
                sent1.push(OutgoingView::Instruction(InstructionView::PassTurn { player_id: player })),
                t.act_sent,
                t.act_r,
            )
            &&& if t.act_r is Err {
                r == t.act_r && ends_as(post, t.act_res, t.act_groups, t.act_sent, ctx, None)
            } else {
                spec_after_instruction(post, t.act_res, t.act_groups, t.act_sent, ctx, None, Ok(()), t, r)
            }
        }
    } else if instr == "callback"@ {
        spec_after_instruction(post, res, groups, sent, ctx, cur, Ok(()), t, r)
    } else {
        &&& (t.act_r matches Err(GameError::UnknownInstruction(k)) && k@ == instr)
        &&& spec_after_instruction(post, res, groups, sent, ctx, cur, t.act_r, t, r)
    }
}

/// Handling one message (see `GameSession::handle_message`), from `pre` to `post`, with
/// the parts coming to what `t` holds.
pub open spec fn spec_handled(pre: GameSession, post: GameSession, message: Seq<char>, r: Result<(), GameError>, t: HandleTrace) -> bool {
    let parts = spec_split(message, '|');
    if parts.len() != 2 {
        r == Ok::<(), GameError>(()) && post == pre
    } else {
        let instr = parts[0];
        let data = parts[1];
        let res = pre.resources;
        let g = pre.state.groups();
        let s = pre.communicator.sent();
        let ctx = pre.callback_context.view();
        match pre.current_callback {
            Some(cb) => if instr == "callback"@ {
                &&& spec_executed(cb, data, ctx, t.exec_ctx, res, g, t.exec_groups, t.exec_r)
                &&& match t.exec_r {
                    Err(e) => r == Err::<(), GameError>(e) && ends_as(post, res, t.exec_groups, s, t.exec_ctx, Some(cb)),
                    Ok(PromptCallbackResult::Keep) => spec_instruction(post, res, t.exec_groups, s, t.exec_ctx, Some(cb), instr, data, t, r),
                    Ok(PromptCallbackResult::End(Some(nc))) => r == Ok::<(), GameError>(()) && ends_as(
                        post,
                        res,
                        t.exec_groups,
                        s + removals(cb) + additions(nc),
                        t.exec_ctx,
                        Some(nc),
                    ),
                    Ok(PromptCallbackResult::End(None)) => spec_instruction(post, res, t.exec_groups, s + removals(cb), t.exec_ctx, None, instr, data, t, r),
                }
            } else if cb.cancelable {
                spec_instruction(post, res, g, s + removals(cb), ctx, Some(cb), instr, data, t, r)
            } else {
                r == Err::<(), GameError>(GameError::Unimplemented) && post == pre
            },
            None => spec_instruction(post, res, g, s, ctx, None, instr, data, t, r),
        }
    }
}

/// Reads the token (from section `token_tag`) and the location (from section
/// `location`) of a move (see `spec_read_move`).
fn read_move(data: &str, token_tag: &str) -> (r: Result<(TokenInstanceId, LocationId), GameError>)
    ensures
        match spec_read_move(data@, token_tag@) {
            Ok(m) => r == Ok::<(TokenInstanceId, LocationId), GameError>(m),
            Err(e) => r matches Err(x) && x@ == e,
        },
{
    let token_text = match get_tag(token_tag, data) {
        Ok(s) => s,
        Err(e) => return Err(e),
    };
    let token = match TokenInstanceId::from_str(token_text.as_str()) {
        Ok(t) => t,
        Err(e) => return Err(GameError::InvalidNumber(e)),
    };
    let location_text = match get_tag("location", data) {
        Ok(s) => s,
        Err(e) => return Err(e),
    };
    let location = match LocationId::from_str(location_text.as_str()) {
        Ok(l) => l,
        Err(e) => return Err(GameError::InvalidNumber(e)),
    };
    Ok((token, location))
}

impl GameSession {
    /// The game's state is sound: its resources, and the prompts open.
    pub open spec fn wf(&self) -> bool {
        &&& self.resources.wf()
        &&& match self.current_callback {
            Some(cb) => cb.wf(),
            None => true,
        }
    }

    /// A session with nothing set up yet, making tokens of the kinds in `registry`.
    pub fn new(registry: TokenRegistry) -> (r: Self)
        requires
            registry.wf(),
        ensures
            r.wf(),
            r.current_callback is None,
            r.communicator.sent().len() == 0,
            r.state.groups().len() == 0,
            r.resources.registry == registry,
    {
        GameSession {
            communicator: GameCommunicator::new(),
            state: StateMachine::new(),
            resources: StateResources::new(registry),
            current_callback: None,
            callback_context: GameContext::new(),
        }
    }

    /// Handles one message of the client, `instruction|data`; a message in any other
    /// shape is ignored. An open callback gets the answer to one of its prompts
    /// (`callback`), or is cancelled by any other instruction when it may be. Then the
    /// instruction is done: `start_game` starts a new game, `move_token` plays a unit
    /// from hand when that is allowed (moving an item is refused with `Unimplemented`: the
    /// library has no rule for when an item may be equipped, and moving any other kind of
    /// token does nothing), `move_card` plays any token from hand when that is
    /// allowed, `pass_turn` closes a cancelable callback or else
    /// hands the turn over; a failure there, or an unknown instruction, is told to the
    /// client as an error. Then the queue is worked through, and the prompts it asks
    /// for, or else the prompts to select an attacker, are opened. A failure anywhere
    /// else ends the session. `spec_handled` says all of it; the clauses before it spell
    /// out some of its consequences.
    #[verifier::rlimit(40)]
    pub fn handle_message(&mut self, message: &str) -> (r: Result<(), GameError>)
        requires
            old(self).wf(),
        ensures
            final(self).wf(),
            spec_split(message@, '|').len() != 2 ==> r is Ok && final(self).communicator.sent() == old(
                self,
            ).communicator.sent() && final(self).state.groups() == old(self).state.groups(),
            r is Ok && spec_split(message@, '|').len() == 2 ==> final(self).current_callback is Some,
            kept_in(old(self).communicator.sent(), final(self).communicator.sent()),
            ({
                let parts = spec_split(message@, '|');
                parts.len() == 2 && parts[0] != "callback"@ && (old(self).current_callback matches Some(cb) && !cb.cancelable)
                    ==> r == Err::<(), GameError>(GameError::Unimplemented)
                    && final(self).communicator.sent() == old(self).communicator.sent()
            }),
            ({
                let parts = spec_split(message@, '|');
                parts.len() == 2 && parts[0] == "callback"@ && old(self).current_callback is Some ==> match spec_read_answer(parts[1]) {
                    None => r is Err,
                    Some((id, _)) => !old(self).current_callback->Some_0.prompts().contains_key(PromptInstanceId(id))
                        ==> r == Err::<(), GameError>(GameError::PromptNotFound(id)),
                }
            }),
            ({
                let parts = spec_split(message@, '|');
                let n = old(self).communicator.sent().len() + open_prompt_count(old(self).current_callback);
                parts.len() == 2 && !known_instruction(parts[0]) && !(old(self).current_callback matches Some(cb) && !cb.cancelable)
                    ==> final(self).communicator.sent().len() > n
                    && final(self).communicator.sent()[n] == OutgoingView::Error("Unknown instruction: "@ + parts[0])
            }),
            ({
                let parts = spec_split(message@, '|');
                parts.len() == 2 && parts[0] == "pass_turn"@ && !(old(self).current_callback matches Some(cb) && !cb.cancelable)
                    ==> if old(self).resources.round == u32::MAX {
                    r == Err::<(), GameError>(GameError::InvalidState)
                } else {
                    &&& final(self).resources.current_turn == crate::id_types::spec_opponent(old(self).resources.current_turn)
                    &&& final(self).resources.round == old(self).resources.round + 1
                }
            }),
            ({
                let parts = spec_split(message@, '|');
                parts.len() == 2 && parts[0] == "move_token"@ && !(old(self).current_callback matches Some(cb) && !cb.cancelable)
                    ==> match spec_read_move(parts[1], "token"@) {
                    Err(e) => r matches Err(x) && x@ == e,
                    Ok((t, _)) => !old(self).resources.tokens().contains_key(t) ==> r == Err::<(), GameError>(GameError::TokenNotFound(t)),
                }
            }),
            ({
                let parts = spec_split(message@, '|');
                parts.len() == 2 && parts[0] == "move_card"@ && !(old(self).current_callback matches Some(cb) && !cb.cancelable)
                    ==> match spec_read_move(parts[1], "card"@) {
                    Err(e) => r matches Err(x) && x@ == e,
                    Ok((t, _)) => !old(self).resources.tokens().contains_key(t) ==> r == Err::<(), GameError>(GameError::TokenNotFound(t)),
                }
            }),
            exists|t: HandleTrace| spec_handled(*old(self), *final(self), message@, r, t),
    {
        let ghost pre = *self;
        let ghost mut t: HandleTrace = arbitrary();
        let parts = split_on(message, '|');
        if parts.len() != 2 {
            assert(spec_handled(pre, *self, message@, Ok(()), t));
            return Ok(());
        }
        let instruction = parts[0].as_str();
        let data = parts[1].as_str();
        assert(instruction@ == spec_split(message@, '|')[0]);
        assert(data@ == spec_split(message@, '|')[1]);
        let is_callback = str_eq(instruction, "callback");
        proof {
            reveal_strlit("callback");
            reveal_strlit("start_game");
            reveal_strlit("move_card");
            reveal_strlit("move_token");
            reveal_strlit("pass_turn");
            assert("move_token"@[0] != "start_game"@[0]);
            assert("pass_turn"@[0] != "move_card"@[0]);
        }
        let mut cancel_current = false;
        let mut early: Option<Result<(), GameError>> = None;
        match &mut self.current_callback {
            Some(callback) => {
                if is_callback {
                    let res = callback.execute(
                        data,
                        &mut self.callback_context,
                        &mut self.state,
                        &mut self.resources,
                        &mut self.communicator,
                    );
                    proof {
                        t.exec_r = res;
                    }
                    match res {
                        Err(e) => {
                            early = Some(Err(e));
                        },
                        Ok(PromptCallbackResult::Keep) => {},
                        Ok(PromptCallbackResult::End(new_callback)) => {
                            callback.cancel(&mut self.communicator);
                            match &new_callback {
                                Some(cb) => cb.create_instructions(&mut self.communicator),
                                None => {},
                            }
                            let more = new_callback.is_some();
                            cancel_current = !more;
                            if more {
                                self.current_callback = new_callback;
                                early = Some(Ok(()));
                            }
                        },
                    }
                } else {
                    if callback.cancelable {
                        callback.cancel(&mut self.communicator);
                    } else {
                        early = Some(Err(GameError::Unimplemented));
                    }
                }
            },
            None => {},
        }
        proof {
            t.exec_ctx = self.callback_context.view();
            t.exec_groups = self.state.groups();
        }
        match early {
            Some(e) => {
                assert(spec_handled(pre, *self, message@, e, t));
                return e;
            },
            None => {},
        }
        if cancel_current {
            self.current_callback = None;
        }
        let result = if str_eq(instruction, "start_game") {
            self.state = StateMachine::new();
            let ghost res0 = self.resources;
            let ghost sp1 = self.communicator.sent();
            let rr = self.state.start_game(data, &mut self.resources, &mut self.communicator);
            proof {
                let tt = choose|tt: StartTrace|
                    spec_started(res0, self.resources, Seq::empty(), self.state.groups(), sp1, self.communicator.sent(), data@, rr, tt);
                t.start = tt;
                t.act_res = self.resources;
                t.act_groups = self.state.groups();
                t.act_sent = self.communicator.sent();
                t.act_r = rr;
            }
            rr
        } else if str_eq(instruction, "move_card") {
            let (token, location) = match read_move(data, "card") {
                Ok(m) => m,
                Err(e) => {
                    assert(spec_handled(pre, *self, message@, Err(e), t));
                    return Err(e);
                },
            };
            let chk = self.resources.can_player_summon_token(token, location, &mut self.communicator);
            proof {
                t.act_sent = self.communicator.sent();
                t.check_r = chk;
            }
            match chk {
                Err(e) => {
                    assert(spec_handled(pre, *self, message@, Err(e), t));
                    return Err(e);
                },
                Ok(true) => {
                    self.state.summon_token(token, location);
                    Ok(())
                },
                Ok(false) => Ok(()),
            }
        } else if str_eq(instruction, "move_token") {
            let (token, location) = match read_move(data, "token") {
                Ok(m) => m,
                Err(e) => {
                    assert(spec_handled(pre, *self, message@, Err(e), t));
                    return Err(e);
                },
            };
            let ti = match self.resources.find_token(token) {
                None => {
                    assert(spec_handled(pre, *self, message@, Err(GameError::TokenNotFound(token)), t));
                    return Err(GameError::TokenNotFound(token));
                },
                Some(i) => i,
            };
            let kind = self.resources.token_instances[ti].data_index;
            let (is_unit, is_item) = match self.resources.registry.tokens[kind].token_category {
                TokenCategory::Unit { .. } => (true, false),
                TokenCategory::Item => (false, true),
                _ => (false, false),
            };
            if is_unit {
                let chk = self.resources.can_player_summon_token(token, location, &mut self.communicator);
                proof {
                    t.act_sent = self.communicator.sent();
                    t.check_r = chk;
                }
                match chk {
                    Err(e) => {
                        assert(spec_handled(pre, *self, message@, Err(e), t));
                        return Err(e);
                    },
                    Ok(true) => {
                        self.state.summon_token(token, location);
                        Ok(())
                    },
                    Ok(false) => Ok(()),
                }
            } else if is_item {
                Err(GameError::Unimplemented)
            } else {
                Ok(())
            }
        } else if str_eq(instruction, "pass_turn") {
            let mut cancel = false;
            match &self.current_callback {
                Some(callback) => {
                    if callback.cancelable {
                        callback.cancel(&mut self.communicator);
                    } else {
                        cancel = true;
                    }
                },
                None => {},
            }
            if !cancel && self.current_callback.is_some() {
                self.current_callback = None;
            }
            if !cancel {
                if self.resources.round == u32::MAX {
                    assert(spec_handled(pre, *self, message@, Err(GameError::InvalidState), t));
                    return Err(GameError::InvalidState);
                }
                let next = self.resources.current_turn.opponent();
                let rr = self.resources.set_current_turn(next, &mut self.state, &mut self.communicator);
                proof {
                    t.act_res = self.resources;
                    t.act_groups = self.state.groups();
                    t.act_sent = self.communicator.sent();
                    t.act_r = rr;
                }
                match rr {
                    Ok(()) => {},
                    Err(e) => {
                        assert(spec_handled(pre, *self, message@, Err(e), t));
                        return Err(e);
                    },
                }
            }
            Ok(())
        } else if is_callback {
            Ok(())
        } else {
            let unknown = Err(GameError::UnknownInstruction(String::from_str(instruction)));
            proof {
                t.act_r = unknown;
            }
            unknown
        };
        let ghost res_after = self.resources;
        let ghost groups_after = self.state.groups();
        match result {
            Ok(()) => {},
            Err(e) => {
                let text = e.message();
                self.communicator.send_error(text.as_str());
            },
        }
        let ghost sent_after = self.communicator.sent();
        let pr = self.state.process(&mut self.resources, &mut self.communicator);
        proof {
            let steps = choose|steps: Seq<QueueStep>|
                queue_ran(steps, res_after, groups_after, sent_after, self.resources, self.state.groups(), self.communicator.sent())
                    && queue_result(steps, pr);
            t.steps = steps;
            t.proc_sent = self.communicator.sent();
            t.proc_r = pr;
        }
        match pr {
            Err(e) => {
                assert(spec_handled(pre, *self, message@, Err(e), t));
                return Err(e);
            },
            Ok(Some(callback)) => {
                if !callback.ids_distinct() {
                    assert(spec_handled(pre, *self, message@, Err(GameError::InvalidState), t));
                    return Err(GameError::InvalidState);
                }
                callback.create_instructions(&mut self.communicator);
                self.current_callback = Some(callback);
            },
            Ok(None) => {
                let shown = self.resources.show_selectable_tokens();
                proof {
                    t.shown = shown;
                }
                let callback = match shown {
                    Ok(cb) => cb,
                    Err(e) => {
                        assert(spec_handled(pre, *self, message@, Err(e), t));
                        return Err(e);
                    },
                };
                callback.create_instructions(&mut self.communicator);
                self.current_callback = Some(callback);
            },
        }
        assert(spec_handled(pre, *self, message@, Ok(()), t));
        Ok(())
    }
}

} // verus!
