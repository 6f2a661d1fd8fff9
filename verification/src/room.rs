//! One room's state machine: two named seats, an optional running game, and
//! the exact messages owed to the seated clients after every operation.
//!
//! Everything here is pure state transition: the surrounding process owns the
//! queue that serializes operations and the channels that carry the returned
//! envelopes to the clients.
use vstd::prelude::*;

use crate::board::{make_initial_state, spec_initial_state, DEFAULT_INITIAL_BLOCKS, DEFAULT_RADIUS};
use crate::bot::{choose_mouse_move, spec_has_border_step};
use crate::hex::{is_adjacent, spec_inside, Coord};
use crate::net::{ServerMsg, ServerMsgModel};
use crate::rules::{
    apply_action, spec_apply_action, spec_game_error_text, spec_has_legal_move, GameError,
};
use crate::types::{Action, GameModel, GameState, GameStatus, Turn};

verus! {

/// A message owed to one client.
pub struct Envelope {
    pub to: u128,
    pub msg: ServerMsg,
}

/// The mathematical image of an [`Envelope`].
pub struct EnvelopeModel {
    pub to: u128,
    pub msg: ServerMsgModel,
}

impl View for Envelope {
    type V = EnvelopeModel;

    open spec fn view(&self) -> EnvelopeModel {
        EnvelopeModel { to: self.to, msg: self.msg@ }
    }
}

/// The views of a list of envelopes, in order.
pub open spec fn envelopes_view(v: Seq<Envelope>) -> Seq<EnvelopeModel> {
    Seq::new(v.len(), |i: int| v[i]@)
}

/// Why a room refused an operation.
#[derive(Clone, Copy, PartialEq, Eq, Structural, Debug)]
pub enum RoomError {
    AlreadyStarted,
    AlreadyInRoom,
    RoomFull,
    NotStarted,
    NotYourTurn,
}

impl RoomError {
    /// The error's wording on the wire.
    pub fn message(&self) -> (r: &'static str)
        ensures
            r@ == spec_room_error_text(*self),
    {
        match self {
            RoomError::AlreadyStarted => "already started",
            RoomError::AlreadyInRoom => "already in this room",
            RoomError::RoomFull => "room is full",
            RoomError::NotStarted => "game not started",
            RoomError::NotYourTurn => "not your turn",
        }
    }
}

/// The wording of each room error.
pub open spec fn spec_room_error_text(e: RoomError) -> Seq<char> {
    match e {
        RoomError::AlreadyStarted => "already started"@,
        RoomError::AlreadyInRoom => "already in this room"@,
        RoomError::RoomFull => "room is full"@,
        RoomError::NotStarted => "game not started"@,
        RoomError::NotYourTurn => "not your turn"@,
    }
}

/// A cheap read-only projection of a room's occupancy, for listings.
#[derive(Clone, Copy, PartialEq, Eq, Structural, Debug)]
pub struct RoomSnapshot {
    pub players: u8,
    pub started: bool,
}

/// One room: its identity, its two seats, and its game.
pub struct Room {
    pub room_id: String,
    pub name: String,
    pub vs_bot: bool,
    pub trapper: Option<u128>,
    pub mouse_seat: Option<u128>,
    pub started: bool,
    pub game: Option<GameState>,
}

/// The mathematical image of a [`Room`].
pub struct RoomModel {
    pub room_id: Seq<char>,
    pub name: Seq<char>,
    pub vs_bot: bool,
    pub trapper: Option<u128>,
    pub mouse_seat: Option<u128>,
    pub started: bool,
    pub game: Option<GameModel>,
}

impl View for Room {
    type V = RoomModel;

    open spec fn view(&self) -> RoomModel {
        RoomModel {
            room_id: self.room_id@,
            name: self.name@,
            vs_bot: self.vs_bot,
            trapper: self.trapper,
            mouse_seat: self.mouse_seat,
            started: self.started,
            game: match self.game {
                Some(g) => Some(g@),
                None => None,
            },
        }
    }
}

impl RoomModel {
    /// The invariant every room keeps: a game exists exactly while the room
    /// is started and is then well-formed, a bot room never seats a second
    /// player, and the two seats never hold the same client.
    pub open spec fn wf(self) -> bool {
        &&& self.started <==> self.game is Some
        &&& self.game matches Some(g) ==> g.wf()
        &&& self.vs_bot ==> self.mouse_seat is None
        &&& (self.trapper is Some && self.mouse_seat is Some) ==> self.trapper != self.mouse_seat
    }
}

/// Whether `client` holds one of the room's seats.
pub open spec fn occupies(m: RoomModel, client: u128) -> bool {
    m.trapper == Some(client) || m.mouse_seat == Some(client)
}

/// How many seats are taken.
pub open spec fn spec_player_count(m: RoomModel) -> u8 {
    ((if m.trapper is Some {
        1int
    } else {
        0int
    }) + (if m.mouse_seat is Some {
        1int
    } else {
        0int
    })) as u8
}

/// The lobby summary a room announces after a change of occupancy.
pub open spec fn spec_lobby_msg(m: RoomModel) -> ServerMsgModel {
    ServerMsgModel::LobbyState {
        room_id: m.room_id,
        players: spec_player_count(m),
        vs_bot: m.vs_bot,
    }
}

/// One copy of `msg` for each seated client, trapper first.
pub open spec fn spec_broadcast(m: RoomModel, msg: ServerMsgModel) -> Seq<EnvelopeModel> {
    (match m.trapper {
        Some(t) => seq![EnvelopeModel { to: t, msg: msg }],
        None => Seq::empty(),
    }) + (match m.mouse_seat {
        Some(u) => seq![EnvelopeModel { to: u, msg: msg }],
        None => Seq::empty(),
    })
}

/// One copy of `msg` for `client`, delivered only while the client is seated.
pub open spec fn spec_send_to(m: RoomModel, client: u128, msg: ServerMsgModel) -> Seq<
    EnvelopeModel,
> {
    if occupies(m, client) {
        seq![EnvelopeModel { to: client, msg: msg }]
    } else {
        Seq::empty()
    }
}

/// The game-opening announcements: each seated client learns the fresh state
/// and its own role, trapper first.
pub open spec fn spec_start_msgs(m: RoomModel, g: GameModel) -> Seq<EnvelopeModel> {
    (match m.trapper {
        Some(t) => seq![
            EnvelopeModel {
                to: t,
                msg: ServerMsgModel::GameStart { state: g, your_role: Turn::Trapper },
            },
        ],
        None => Seq::empty(),
    }) + (match m.mouse_seat {
        Some(u) => seq![
            EnvelopeModel {
                to: u,
                msg: ServerMsgModel::GameStart { state: g, your_role: Turn::Mouse },
            },
        ],
        None => Seq::empty(),
    })
}

/// A joining client starts the game by filling the second seat, or the first
/// seat of a room played against the bot.
pub open spec fn spec_join_starts(m: RoomModel) -> bool {
    (m.trapper is Some && m.mouse_seat is Some) || (m.vs_bot && m.trapper is Some)
}

/// One lawful outcome of a bot turn: the step `c` is legal for the stored
/// game, the rules engine accepts it, and both seats learn the new state.
pub open spec fn spec_bot_outcome(m0: RoomModel, m1: RoomModel, eff: Seq<EnvelopeModel>, c: Coord) -> bool {
    let g = m0.game->Some_0;
    &&& is_adjacent(g.mouse, c) && spec_inside(c, g.cfg.radius as int) && !g.blocks.contains(c)
    &&& spec_apply_action(g, Action::MoveMouse { to: c }) matches Ok(g2) && m1 == (RoomModel {
        game: Some(g2),
        ..m0
    }) && eff == spec_broadcast(m0, ServerMsgModel::GameUpdate { state: g2 })
}

/// The bot is on turn: a bot room whose game is open with the mouse to move.
pub open spec fn spec_needs_bot(m: RoomModel) -> bool {
    &&& m.vs_bot
    &&& m.game matches Some(g) && g.status == GameStatus::Running && g.turn == Turn::Mouse
}

impl Room {
    /// A fresh room: both seats empty, no game.
    pub fn new(room_id: String, name: String, vs_bot: bool) -> (r: Room)
        ensures
            r@ == (RoomModel {
                room_id: room_id@,
                name: name@,
                vs_bot: vs_bot,
                trapper: None,
                mouse_seat: None,
                started: false,
                game: None,
            }),
            r@.wf(),
    {
        Room { room_id, name, vs_bot, trapper: None, mouse_seat: None, started: false, game: None }
    }

    /// The room's occupancy at a glance.
    pub fn snapshot(&self) -> (r: RoomSnapshot)
        ensures
            r.players == spec_player_count(self@),
            r.started == self@.started,
    {
        let mut players: u8 = 0;
        if self.trapper.is_some() {
            players = players + 1;
        }
        if self.mouse_seat.is_some() {
            players = players + 1;
        }
        RoomSnapshot { players, started: self.started }
    }

    /// Seat a client, and start the game when the room is thereby complete.
    ///
    /// The returned envelopes are exactly the lobby update to every seated
    /// client, followed on a start by each seated client's opening
    /// announcement; a refused join changes nothing and sends nothing.
    pub fn join(&mut self, client: u128, seed: u64) -> (out: (Result<(), RoomError>, Vec<Envelope>))
        requires
            old(self)@.wf(),
        ensures
            final(self)@.wf(),
            final(self)@.room_id == old(self)@.room_id,
            final(self)@.name == old(self)@.name,
            final(self)@.vs_bot == old(self)@.vs_bot,
            old(self)@.started ==> out.0 == Err::<(), RoomError>(RoomError::AlreadyStarted)
                && final(self)@ == old(self)@ && envelopes_view(out.1@) =~= Seq::<
                EnvelopeModel,
            >::empty(),
            !old(self)@.started && occupies(old(self)@, client) ==> out.0 == Err::<(), RoomError>(
                RoomError::AlreadyInRoom,
            ) && final(self)@ == old(self)@ && envelopes_view(out.1@) =~= Seq::<
                EnvelopeModel,
            >::empty(),
            !old(self)@.started && !occupies(old(self)@, client) && old(self)@.trapper is Some && (
            old(self)@.mouse_seat is Some || old(self)@.vs_bot) ==> out.0 == Err::<(), RoomError>(
                RoomError::RoomFull,
            ) && final(self)@ == old(self)@ && envelopes_view(out.1@) =~= Seq::<
                EnvelopeModel,
            >::empty(),
            !old(self)@.started && !occupies(old(self)@, client) && !(old(self)@.trapper is Some
                && (old(self)@.mouse_seat is Some || old(self)@.vs_bot)) ==> {
                let seated = if old(self)@.trapper is None {
                    RoomModel { trapper: Some(client), ..old(self)@ }
                } else {
                    RoomModel { mouse_seat: Some(client), ..old(self)@ }
                };
                &&& out.0 == Ok::<(), RoomError>(())
                &&& occupies(final(self)@, client)
                &&& if spec_join_starts(seated) {
                    let g = spec_initial_state(DEFAULT_RADIUS, DEFAULT_INITIAL_BLOCKS, seed);
                    &&& final(self)@ == (RoomModel { started: true, game: Some(g), ..seated })
                    &&& envelopes_view(out.1@) =~= spec_broadcast(seated, spec_lobby_msg(seated))
                        + spec_start_msgs(seated, g)
                } else {
                    &&& final(self)@ == seated
                    &&& envelopes_view(out.1@) =~= spec_broadcast(seated, spec_lobby_msg(seated))
                }
            },
    {
        if self.started {
            return (Err(RoomError::AlreadyStarted), Vec::new());
        }
        let in_trapper = match self.trapper {
            Some(t) => t == client,
            None => false,
        };
        let in_mouse = match self.mouse_seat {
            Some(u) => u == client,
            None => false,
        };
        if in_trapper || in_mouse {
            return (Err(RoomError::AlreadyInRoom), Vec::new());
        }
        if self.trapper.is_none() {
            self.trapper = Some(client);
        } else if self.mouse_seat.is_none() && !self.vs_bot {
            self.mouse_seat = Some(client);
        } else {
            return (Err(RoomError::RoomFull), Vec::new());
        }
        let ghost seated = self@;
        let mut out: Vec<Envelope> = Vec::new();
        let snap = self.snapshot();
        let lobby_trapper = ServerMsg::LobbyState {
            room_id: clone_string(&self.room_id),
            players: snap.players,
            vs_bot: self.vs_bot,
        };
        if let Some(t) = self.trapper {
            out.push(Envelope { to: t, msg: lobby_trapper });
        }
        let lobby_mouse = ServerMsg::LobbyState {
            room_id: clone_string(&self.room_id),
            players: snap.players,
            vs_bot: self.vs_bot,
        };
        if let Some(u) = self.mouse_seat {
            out.push(Envelope { to: u, msg: lobby_mouse });
        }
        proof {
            assert(envelopes_view(out@) =~= spec_broadcast(seated, spec_lobby_msg(seated)));
        }
        let starts = (self.trapper.is_some() && self.mouse_seat.is_some()) || (self.vs_bot
            && self.trapper.is_some());
        if starts {
            let g = make_initial_state(DEFAULT_RADIUS, DEFAULT_INITIAL_BLOCKS, seed);
            if let Some(t) = self.trapper {
                out.push(
                    Envelope {
                        to: t,
                        msg: ServerMsg::GameStart { state: g.duplicate(), your_role: Turn::Trapper },
                    },
                );
            }
            if let Some(u) = self.mouse_seat {
                out.push(
                    Envelope {
                        to: u,
                        msg: ServerMsg::GameStart { state: g.duplicate(), your_role: Turn::Mouse },
                    },
                );
            }
            self.started = true;
            self.game = Some(g);
            proof {
                assert(envelopes_view(out@) =~= spec_broadcast(seated, spec_lobby_msg(seated))
                    + spec_start_msgs(seated, spec_initial_state(
                    DEFAULT_RADIUS,
                    DEFAULT_INITIAL_BLOCKS,
                    seed,
                )));
            }
        }
        (Ok(()), out)
    }

    /// Clear the client's seat, if any; a departure discards any game in
    /// progress, and the remaining occupants learn the new lobby state.
    pub fn leave(&mut self, client: u128) -> (out: Vec<Envelope>)
        requires
            old(self)@.wf(),
        ensures
            final(self)@.wf(),
            !occupies(old(self)@, client) ==> final(self)@ == old(self)@ && envelopes_view(out@)
                =~= Seq::<EnvelopeModel>::empty(),
            occupies(old(self)@, client) ==> {
                let cleared = RoomModel {
                    trapper: if old(self)@.trapper == Some(client) {
                        None
                    } else {
                        old(self)@.trapper
                    },
                    mouse_seat: if old(self)@.mouse_seat == Some(client) {
                        None
                    } else {
                        old(self)@.mouse_seat
                    },
                    started: false,
                    game: None,
                    ..old(self)@
                };
                &&& final(self)@ == cleared
                &&& envelopes_view(out@) =~= spec_broadcast(cleared, spec_lobby_msg(cleared))
            },
    {
        let mut changed = false;
        if let Some(t) = self.trapper {
            if t == client {
                self.trapper = None;
                changed = true;
            }
        }
        if let Some(u) = self.mouse_seat {
            if u == client {
                self.mouse_seat = None;
                changed = true;
            }
        }
        if !changed {
            return Vec::new();
        }
        self.started = false;
        self.game = None;
        let ghost cleared = self@;
        let mut out: Vec<Envelope> = Vec::new();
        let snap = self.snapshot();
        if let Some(t) = self.trapper {
            out.push(
                Envelope {
                    to: t,
                    msg: ServerMsg::LobbyState {
                        room_id: clone_string(&self.room_id),
                        players: snap.players,
                        vs_bot: self.vs_bot,
                    },
                },
            );
        }
        if let Some(u) = self.mouse_seat {
            out.push(
                Envelope {
                    to: u,
                    msg: ServerMsg::LobbyState {
                        room_id: clone_string(&self.room_id),
                        players: snap.players,
                        vs_bot: self.vs_bot,
                    },
                },
            );
        }
        proof {
            assert(envelopes_view(out@) =~= spec_broadcast(cleared, spec_lobby_msg(cleared)));
        }
        out
    }

    /// Play one client action: the acting seat is the one whose turn the
    /// stored game says it is, the rules engine judges the action, and the
    /// envelopes carry the update to both seats or the error to the actor.
    pub fn action(&mut self, client: u128, action: Action) -> (out: Vec<Envelope>)
        requires
            old(self)@.wf(),
        ensures
            final(self)@.wf(),
            old(self)@.game is None ==> final(self)@ == old(self)@ && envelopes_view(out@)
                =~= spec_send_to(
                old(self)@,
                client,
                ServerMsgModel::Error { message: spec_room_error_text(RoomError::NotStarted) },
            ),
            old(self)@.game matches Some(g) ==> if !spec_acts(old(self)@, g, client) {
                final(self)@ == old(self)@ && envelopes_view(out@) =~= spec_send_to(
                    old(self)@,
                    client,
                    ServerMsgModel::Error { message: spec_room_error_text(RoomError::NotYourTurn) },
                )
            } else {
                match spec_apply_action(g, action) {
                    Ok(g2) => final(self)@ == (RoomModel { game: Some(g2), ..old(self)@ })
                        && envelopes_view(out@) =~= spec_broadcast(
                        old(self)@,
                        ServerMsgModel::GameUpdate { state: g2 },
                    ),
                    Err(e) => final(self)@ == old(self)@ && envelopes_view(out@) =~= spec_send_to(
                        old(self)@,
                        client,
                        ServerMsgModel::Error { message: spec_game_error_text(e) },
                    ),
                }
            },
    {
        let ghost m0 = self@;
        let g = match &self.game {
            Some(g) => g.duplicate(),
            None => {
                return self.send_to(client, RoomError::NotStarted.message());
            },
        };
        let allowed = match g.turn {
            Turn::Trapper => match self.trapper {
                Some(t) => t == client,
                None => false,
            },
            Turn::Mouse => match self.mouse_seat {
                Some(u) => u == client,
                None => false,
            },
        };
        if !allowed {
            return self.send_to(client, RoomError::NotYourTurn.message());
        }
        match apply_action(g, action) {
            Ok(g2) => {
                let mut out: Vec<Envelope> = Vec::new();
                if let Some(t) = self.trapper {
                    out.push(
                        Envelope {
                            to: t,
                            msg: ServerMsg::GameUpdate { state: g2.duplicate() },
                        },
                    );
                }
                if let Some(u) = self.mouse_seat {
                    out.push(
                        Envelope {
                            to: u,
                            msg: ServerMsg::GameUpdate { state: g2.duplicate() },
                        },
                    );
                }
                proof {
                    assert(envelopes_view(out@) =~= spec_broadcast(
                        m0,
                        ServerMsgModel::GameUpdate { state: g2@ },
                    ));
                }
                self.game = Some(g2);
                out
            },
            Err(e) => self.send_to(client, e.message()),
        }
    }

    /// One error envelope for `client`, delivered only while the client is
    /// seated, the room untouched.
    fn send_to(&mut self, client: u128, text: &str) -> (out: Vec<Envelope>)
        ensures
            final(self)@ == old(self)@,
            envelopes_view(out@) =~= spec_send_to(
                old(self)@,
                client,
                ServerMsgModel::Error { message: text@ },
            ),
    {
        let mut out: Vec<Envelope> = Vec::new();
        let in_trapper = match self.trapper {
            Some(t) => t == client,
            None => false,
        };
        let in_mouse = match self.mouse_seat {
            Some(u) => u == client,
            None => false,
        };
        if in_trapper || in_mouse {
            out.push(
                Envelope {
                    to: client,
                    msg: ServerMsg::Error { message: string_from(text) },
                },
            );
        }
        proof {
            assert(envelopes_view(out@) =~= spec_send_to(
                self@,
                client,
                ServerMsgModel::Error { message: text@ },
            ));
        }
        out
    }

    /// Whether the bot owes the room a move.
    pub fn needs_bot_move(&self) -> (r: bool)
        ensures
            r == spec_needs_bot(self@),
    {
        if !self.vs_bot {
            return false;
        }
        match &self.game {
            Some(g) => g.status == GameStatus::Running && g.turn == Turn::Mouse,
            None => false,
        }
    }

    /// Let the bot take the mouse's turn, if one is owed.
    ///
    /// When the mouse has a legal step, some legal step is played through the
    /// rules engine and both seats learn the new state; when it has none, or
    /// no move is owed, nothing changes and nothing is sent.
    pub fn bot_step(&mut self) -> (out: Vec<Envelope>)
        requires
            old(self)@.wf(),
        ensures
            final(self)@.wf(),
            !spec_needs_bot(old(self)@) ==> final(self)@ == old(self)@ && envelopes_view(out@)
                =~= Seq::<EnvelopeModel>::empty(),
            spec_needs_bot(old(self)@) && !spec_has_legal_move(old(self)@.game->Some_0)
                ==> final(self)@ == old(self)@ && envelopes_view(out@) =~= Seq::<
                EnvelopeModel,
            >::empty(),
            spec_needs_bot(old(self)@) && spec_has_legal_move(old(self)@.game->Some_0) ==> exists|
                c: Coord,
            | #[trigger] spec_bot_outcome(old(self)@, final(self)@, envelopes_view(out@), c),
            spec_needs_bot(old(self)@) && spec_has_border_step(old(self)@.game->Some_0)
                ==> (final(self)@.game matches Some(g2) && g2.status == GameStatus::MouseWon),
    {
        let ghost m0 = self@;
        if !self.needs_bot_move() {
            let out: Vec<Envelope> = Vec::new();
            proof {
                assert(envelopes_view(out@) =~= Seq::<EnvelopeModel>::empty());
            }
            return out;
        }
        let g = match &self.game {
            Some(g) => g.duplicate(),
            None => {
                proof {
                    assert(false);
                }
                return Vec::new();
            },
        };
        let mv = choose_mouse_move(&g);
        let to = match mv {
            Some(c) => c,
            None => {
                let out: Vec<Envelope> = Vec::new();
                proof {
                    assert(envelopes_view(out@) =~= Seq::<EnvelopeModel>::empty());
                }
                return out;
            },
        };
        match apply_action(g, Action::MoveMouse { to }) {
            Ok(g2) => {
                let mut out: Vec<Envelope> = Vec::new();
                if let Some(t) = self.trapper {
                    out.push(
                        Envelope {
                            to: t,
                            msg: ServerMsg::GameUpdate { state: g2.duplicate() },
                        },
                    );
                }
                if let Some(u) = self.mouse_seat {
                    out.push(
                        Envelope {
                            to: u,
                            msg: ServerMsg::GameUpdate { state: g2.duplicate() },
                        },
                    );
                }
                proof {
                    assert(envelopes_view(out@) =~= spec_broadcast(
                        m0,
                        ServerMsgModel::GameUpdate { state: g2@ },
                    ));
                }
                self.game = Some(g2);
                proof {
                    assert(spec_bot_outcome(m0, self@, envelopes_view(out@), to));
                }
                out
            },
            Err(_) => {
                proof {
                    assert(false);
                }
                Vec::new()
            },
        }
    }
}

/// The client whose turn the game says it is holds the matching seat.
pub open spec fn spec_acts(m: RoomModel, g: GameModel, client: u128) -> bool {
    match g.turn {
        Turn::Trapper => m.trapper == Some(client),
        Turn::Mouse => m.mouse_seat == Some(client),
    }
}

/// A fresh owned copy of a string.
fn clone_string(s: &String) -> (r: String)
    ensures
        r@ == s@,
{
    s.clone()
}

/// An owned string with the text of a string slice.
fn string_from(s: &str) -> (r: String)
    ensures
        r@ == s@,
{
    s.to_owned()
}

} // verus!
