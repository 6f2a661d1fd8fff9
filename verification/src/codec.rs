//! The wire codec: every game value and protocol message has one byte-exact
//! encoding, fixed-width little-endian numbers and length-prefixed lists,
//! and decoding inverts encoding — the round-trip laws at the end of this
//! file are proved for every value, not sampled.
use vstd::prelude::*;

use crate::hex::Coord;
use crate::net::{room_infos_view, ClientMsg, ClientMsgModel, RoomInfo, RoomInfoModel, ServerMsg, ServerMsgModel};
use crate::types::{Action, BoardConfig, GameModel, GameState, GameStatus, Turn};

verus! {

// ----- encodings, as byte sequences -----
pub open spec fn spec_enc_u8(x: u8) -> Seq<u8> {
    seq![x]
}

pub open spec fn spec_enc_bool(b: bool) -> Seq<u8> {
    seq![
        if b {
            1u8
        } else {
            0u8
        },
    ]
}

pub open spec fn spec_enc_u32(x: u32) -> Seq<u8> {
    seq![x as u8, (x >> 8u32) as u8, (x >> 16u32) as u8, (x >> 24u32) as u8]
}

pub open spec fn spec_enc_u64(x: u64) -> Seq<u8> {
    seq![
        x as u8,
        (x >> 8u64) as u8,
        (x >> 16u64) as u8,
        (x >> 24u64) as u8,
        (x >> 32u64) as u8,
        (x >> 40u64) as u8,
        (x >> 48u64) as u8,
        (x >> 56u64) as u8,
    ]
}

pub open spec fn spec_enc_i32(x: i32) -> Seq<u8> {
    spec_enc_u32(x as u32)
}

pub open spec fn spec_enc_usize(x: usize) -> Seq<u8> {
    spec_enc_u64(x as u64)
}

pub open spec fn spec_enc_char(c: char) -> Seq<u8> {
    spec_enc_u32(c as u32)
}

pub open spec fn spec_enc_chars(s: Seq<char>) -> Seq<u8>
    decreases s.len(),
{
    if s.len() <= 0 {
        Seq::empty()
    } else {
        spec_enc_char(s[0]) + spec_enc_chars(s.skip(1))
    }
}

pub open spec fn spec_enc_str(s: Seq<char>) -> Seq<u8> {
    spec_enc_u64(s.len() as u64) + spec_enc_chars(s)
}

// ----- decodings, as functions over byte sequences -----
pub open spec fn spec_dec_u8(b: Seq<u8>, pos: int) -> Option<(u8, int)> {
    if 0 <= pos && pos + 1 <= b.len() {
        Some((b[pos], pos + 1))
    } else {
        None
    }
}

pub open spec fn spec_dec_bool(b: Seq<u8>, pos: int) -> Option<(bool, int)> {
    match spec_dec_u8(b, pos) {
        Some((t, p)) => if t == 0 {
            Some((false, p))
        } else if t == 1 {
            Some((true, p))
        } else {
            None
        },
        None => None,
    }
}

pub open spec fn spec_dec_u32(b: Seq<u8>, pos: int) -> Option<(u32, int)> {
    if 0 <= pos && pos + 4 <= b.len() {
        Some(
            (
                (b[pos] as u32) | ((b[pos + 1] as u32) << 8u32) | ((b[pos + 2] as u32) << 16u32) | (
                (b[pos + 3] as u32) << 24u32),
                pos + 4,
            ),
        )
    } else {
        None
    }
}

pub open spec fn spec_dec_u64(b: Seq<u8>, pos: int) -> Option<(u64, int)> {
    if 0 <= pos && pos + 8 <= b.len() {
        Some(
            (
                (b[pos] as u64) | ((b[pos + 1] as u64) << 8u64) | ((b[pos + 2] as u64) << 16u64) | (
                (b[pos + 3] as u64) << 24u64) | ((b[pos + 4] as u64) << 32u64) | ((b[pos
                    + 5] as u64) << 40u64) | ((b[pos + 6] as u64) << 48u64) | ((b[pos
                    + 7] as u64) << 56u64),
                pos + 8,
            ),
        )
    } else {
        None
    }
}

pub open spec fn spec_dec_i32(b: Seq<u8>, pos: int) -> Option<(i32, int)> {
    match spec_dec_u32(b, pos) {
        Some((v, p)) => Some((v as i32, p)),
        None => None,
    }
}

pub open spec fn spec_dec_usize(b: Seq<u8>, pos: int) -> Option<(usize, int)> {
    match spec_dec_u64(b, pos) {
        Some((v, p)) => if v <= usize::MAX as u64 {
            Some((v as usize, p))
        } else {
            None
        },
        None => None,
    }
}

/// The code points a `char` may carry.
pub open spec fn is_unicode_scalar(v: u32) -> bool {
    v < 0xD800 || (0xE000 <= v && v <= 0x10FFFF)
}

pub open spec fn spec_dec_char(b: Seq<u8>, pos: int) -> Option<(char, int)> {
    match spec_dec_u32(b, pos) {
        Some((v, p)) => if is_unicode_scalar(v) {
            Some((v as char, p))
        } else {
            None
        },
        None => None,
    }
}

pub open spec fn spec_dec_chars(b: Seq<u8>, pos: int, n: int) -> Option<(Seq<char>, int)>
    decreases n,
{
    if n <= 0 {
        Some((Seq::empty(), pos))
    } else {
        match spec_dec_char(b, pos) {
            Some((c, p1)) => match spec_dec_chars(b, p1, n - 1) {
                Some((s, p2)) => Some((seq![c] + s, p2)),
                None => None,
            },
            None => None,
        }
    }
}

pub open spec fn spec_dec_str(b: Seq<u8>, pos: int) -> Option<(Seq<char>, int)> {
    match spec_dec_u64(b, pos) {
        Some((n, p1)) => spec_dec_chars(b, p1, n as int),
        None => None,
    }
}

// ----- round-trip laws for the primitive encodings -----
pub proof fn lemma_dec_enc_u8(b: Seq<u8>, pos: int, x: u8)
    requires
        0 <= pos,
        pos + 1 <= b.len(),
        b.subrange(pos, pos + 1) == spec_enc_u8(x),
    ensures
        spec_dec_u8(b, pos) == Some((x, pos + 1)),
{
    assert(b[pos] == spec_enc_u8(x)[0]);
}

pub proof fn lemma_dec_enc_bool(b: Seq<u8>, pos: int, x: bool)
    requires
        0 <= pos,
        pos + 1 <= b.len(),
        b.subrange(pos, pos + 1) == spec_enc_bool(x),
    ensures
        spec_dec_bool(b, pos) == Some((x, pos + 1)),
{
    assert(b[pos] == spec_enc_bool(x)[0]);
}

pub proof fn lemma_dec_enc_u32(b: Seq<u8>, pos: int, x: u32)
    requires
        0 <= pos,
        pos + 4 <= b.len(),
        b.subrange(pos, pos + 4) == spec_enc_u32(x),
    ensures
        spec_dec_u32(b, pos) == Some((x, pos + 4)),
{
    assert(b[pos] == x as u8 && b[pos + 1] == (x >> 8u32) as u8 && b[pos + 2] == (x
        >> 16u32) as u8 && b[pos + 3] == (x >> 24u32) as u8) by {
        assert(b.subrange(pos, pos + 4)[0] == b[pos]);
        assert(b.subrange(pos, pos + 4)[1] == b[pos + 1]);
        assert(b.subrange(pos, pos + 4)[2] == b[pos + 2]);
        assert(b.subrange(pos, pos + 4)[3] == b[pos + 3]);
    }
    assert(((x as u8) as u32) | ((((x >> 8u32) as u8) as u32) << 8u32) | ((((x
        >> 16u32) as u8) as u32) << 16u32) | ((((x >> 24u32) as u8) as u32) << 24u32) == x)
        by (bit_vector);
}

pub proof fn lemma_dec_enc_u64(b: Seq<u8>, pos: int, x: u64)
    requires
        0 <= pos,
        pos + 8 <= b.len(),
        b.subrange(pos, pos + 8) == spec_enc_u64(x),
    ensures
        spec_dec_u64(b, pos) == Some((x, pos + 8)),
{
    assert(b[pos] == x as u8 && b[pos + 1] == (x >> 8u64) as u8 && b[pos + 2] == (x
        >> 16u64) as u8 && b[pos + 3] == (x >> 24u64) as u8 && b[pos + 4] == (x >> 32u64) as u8
        && b[pos + 5] == (x >> 40u64) as u8 && b[pos + 6] == (x >> 48u64) as u8 && b[pos + 7] == (x
        >> 56u64) as u8) by {
        assert(b.subrange(pos, pos + 8)[0] == b[pos]);
        assert(b.subrange(pos, pos + 8)[1] == b[pos + 1]);
        assert(b.subrange(pos, pos + 8)[2] == b[pos + 2]);
        assert(b.subrange(pos, pos + 8)[3] == b[pos + 3]);
        assert(b.subrange(pos, pos + 8)[4] == b[pos + 4]);
        assert(b.subrange(pos, pos + 8)[5] == b[pos + 5]);
        assert(b.subrange(pos, pos + 8)[6] == b[pos + 6]);
        assert(b.subrange(pos, pos + 8)[7] == b[pos + 7]);
    }
    assert(((x as u8) as u64) | ((((x >> 8u64) as u8) as u64) << 8u64) | ((((x
        >> 16u64) as u8) as u64) << 16u64) | ((((x >> 24u64) as u8) as u64) << 24u64) | ((((x
        >> 32u64) as u8) as u64) << 32u64) | ((((x >> 40u64) as u8) as u64) << 40u64) | ((((x
        >> 48u64) as u8) as u64) << 48u64) | ((((x >> 56u64) as u8) as u64) << 56u64) == x)
        by (bit_vector);
}

pub proof fn lemma_dec_enc_i32(b: Seq<u8>, pos: int, x: i32)
    requires
        0 <= pos,
        pos + 4 <= b.len(),
        b.subrange(pos, pos + 4) == spec_enc_i32(x),
    ensures
        spec_dec_i32(b, pos) == Some((x, pos + 4)),
{
    lemma_dec_enc_u32(b, pos, x as u32);
    assert(((x as u32) as i32) == x) by (bit_vector);
}

pub proof fn lemma_dec_enc_usize(b: Seq<u8>, pos: int, x: usize)
    requires
        0 <= pos,
        pos + 8 <= b.len(),
        b.subrange(pos, pos + 8) == spec_enc_usize(x),
    ensures
        spec_dec_usize(b, pos) == Some((x, pos + 8)),
{
    lemma_dec_enc_u64(b, pos, x as u64);
}

pub proof fn lemma_dec_enc_char(b: Seq<u8>, pos: int, c: char)
    requires
        0 <= pos,
        pos + 4 <= b.len(),
        b.subrange(pos, pos + 4) == spec_enc_char(c),
    ensures
        spec_dec_char(b, pos) == Some((c, pos + 4)),
{
    lemma_dec_enc_u32(b, pos, c as u32);
}

pub proof fn lemma_dec_enc_chars(b: Seq<u8>, pos: int, s: Seq<char>)
    requires
        0 <= pos,
        pos + spec_enc_chars(s).len() <= b.len(),
        b.subrange(pos, pos + spec_enc_chars(s).len()) == spec_enc_chars(s),
    ensures
        spec_dec_chars(b, pos, s.len() as int) == Some(
            (s, pos + spec_enc_chars(s).len() as int),
        ),
    decreases s.len(),
{
    if s.len() == 0 {
        assert(s =~= Seq::<char>::empty());
    } else {
        let e = spec_enc_chars(s);
        let e0 = spec_enc_char(s[0]);
        let rest = spec_enc_chars(s.skip(1));
        assert(e == e0 + rest);
        assert(b.subrange(pos, pos + 4) =~= e0) by {
            assert forall|k: int| 0 <= k < 4 implies b.subrange(pos, pos + 4)[k] == e0[k] by {
                assert(b[pos + k] == b.subrange(pos, pos + e.len())[k]);
                assert(e[k] == e0[k]);
            }
        }
        lemma_dec_enc_char(b, pos, s[0]);
        assert(b.subrange(pos + 4, pos + 4 + rest.len()) =~= rest) by {
            assert forall|k: int| 0 <= k < rest.len() implies b.subrange(
                pos + 4,
                pos + 4 + rest.len(),
            )[k] == rest[k] by {
                assert(b[pos + 4 + k] == b.subrange(pos, pos + e.len())[4 + k]);
                assert(e[4 + k] == rest[k]);
            }
        }
        lemma_dec_enc_chars(b, pos + 4, s.skip(1));
        assert(s =~= seq![s[0]] + s.skip(1));
    }
}

pub proof fn lemma_dec_enc_str(b: Seq<u8>, pos: int, s: Seq<char>)
    requires
        0 <= pos,
        s.len() <= usize::MAX,
        pos + spec_enc_str(s).len() <= b.len(),
        b.subrange(pos, pos + spec_enc_str(s).len()) == spec_enc_str(s),
    ensures
        spec_dec_str(b, pos) == Some((s, pos + spec_enc_str(s).len() as int)),
{
    let e = spec_enc_str(s);
    let e0 = spec_enc_u64(s.len() as u64);
    let rest = spec_enc_chars(s);
    assert(e == e0 + rest);
    assert(b.subrange(pos, pos + 8) =~= e0) by {
        assert forall|k: int| 0 <= k < 8 implies b.subrange(pos, pos + 8)[k] == e0[k] by {
            assert(b[pos + k] == b.subrange(pos, pos + e.len())[k]);
            assert(e[k] == e0[k]);
        }
    }
    lemma_dec_enc_u64(b, pos, s.len() as u64);
    assert(b.subrange(pos + 8, pos + 8 + rest.len()) =~= rest) by {
        assert forall|k: int| 0 <= k < rest.len() implies b.subrange(
            pos + 8,
            pos + 8 + rest.len(),
        )[k] == rest[k] by {
            assert(b[pos + 8 + k] == b.subrange(pos, pos + e.len())[8 + k]);
            assert(e[8 + k] == rest[k]);
        }
    }
    lemma_dec_enc_chars(b, pos + 8, s);
    assert((s.len() as u64) as int == s.len() as int);
}

/// Splitting a known two-part window: each part sits at its own offsets.
pub proof fn lemma_subrange_split(b: Seq<u8>, pos: int, e1: Seq<u8>, e2: Seq<u8>)
    requires
        0 <= pos,
        pos + e1.len() + e2.len() <= b.len(),
        b.subrange(pos, pos + e1.len() + e2.len()) == e1 + e2,
    ensures
        b.subrange(pos, pos + e1.len()) == e1,
        b.subrange(pos + e1.len(), pos + e1.len() + e2.len()) == e2,
{
    let whole = b.subrange(pos, pos + e1.len() + e2.len());
    assert(b.subrange(pos, pos + e1.len()) =~= e1) by {
        assert forall|k: int| 0 <= k < e1.len() implies b.subrange(pos, pos + e1.len())[k]
            == e1[k] by {
            assert(b[pos + k] == whole[k]);
            assert(whole[k] == (e1 + e2)[k]);
        }
    }
    assert(b.subrange(pos + e1.len(), pos + e1.len() + e2.len()) =~= e2) by {
        assert forall|k: int| 0 <= k < e2.len() implies b.subrange(
            pos + e1.len(),
            pos + e1.len() + e2.len(),
        )[k] == e2[k] by {
            assert(b[pos + e1.len() + k] == whole[e1.len() + k]);
            assert(whole[e1.len() + k] == (e1 + e2)[e1.len() + k]);
        }
    }
}

// ----- encodings of the game's values -----
pub open spec fn spec_enc_coord(c: Coord) -> Seq<u8> {
    spec_enc_i32(c.q) + spec_enc_i32(c.r)
}

pub open spec fn spec_enc_turn(t: Turn) -> Seq<u8> {
    match t {
        Turn::Trapper => spec_enc_u8(0),
        Turn::Mouse => spec_enc_u8(1),
    }
}

pub open spec fn spec_enc_status(st: GameStatus) -> Seq<u8> {
    match st {
        GameStatus::Running => spec_enc_u8(0),
        GameStatus::TrapperWon => spec_enc_u8(1),
        GameStatus::MouseWon => spec_enc_u8(2),
    }
}

pub open spec fn spec_enc_action(a: Action) -> Seq<u8> {
    match a {
        Action::PlaceBlock { at } => spec_enc_u8(0) + spec_enc_coord(at),
        Action::MoveMouse { to } => spec_enc_u8(1) + spec_enc_coord(to),
    }
}

pub open spec fn spec_enc_config(c: BoardConfig) -> Seq<u8> {
    spec_enc_i32(c.radius) + spec_enc_usize(c.initial_blocks) + spec_enc_u64(c.seed)
}

pub open spec fn spec_enc_coords(s: Seq<Coord>) -> Seq<u8>
    decreases s.len(),
{
    if s.len() <= 0 {
        Seq::empty()
    } else {
        spec_enc_coord(s[0]) + spec_enc_coords(s.skip(1))
    }
}

pub open spec fn spec_enc_game(m: GameModel) -> Seq<u8> {
    spec_enc_config(m.cfg) + spec_enc_coord(m.mouse) + spec_enc_u64(m.blocks.len() as u64)
        + spec_enc_coords(m.blocks) + spec_enc_turn(m.turn) + spec_enc_status(m.status)
}

// ----- decodings of the game's values -----
pub open spec fn spec_dec_coord(b: Seq<u8>, pos: int) -> Option<(Coord, int)> {
    match spec_dec_i32(b, pos) {
        Some((q, p1)) => match spec_dec_i32(b, p1) {
            Some((r, p2)) => Some((Coord { q, r }, p2)),
            None => None,
        },
        None => None,
    }
}

pub open spec fn spec_dec_turn(b: Seq<u8>, pos: int) -> Option<(Turn, int)> {
    match spec_dec_u8(b, pos) {
        Some((t, p)) => if t == 0 {
            Some((Turn::Trapper, p))
        } else if t == 1 {
            Some((Turn::Mouse, p))
        } else {
            None
        },
        None => None,
    }
}

pub open spec fn spec_dec_status(b: Seq<u8>, pos: int) -> Option<(GameStatus, int)> {
    match spec_dec_u8(b, pos) {
        Some((t, p)) => if t == 0 {
            Some((GameStatus::Running, p))
        } else if t == 1 {
            Some((GameStatus::TrapperWon, p))
        } else if t == 2 {
            Some((GameStatus::MouseWon, p))
        } else {
            None
        },
        None => None,
    }
}

pub open spec fn spec_dec_action(b: Seq<u8>, pos: int) -> Option<(Action, int)> {
    match spec_dec_u8(b, pos) {
        Some((t, p)) => if t == 0 {
            match spec_dec_coord(b, p) {
                Some((at, p2)) => Some((Action::PlaceBlock { at }, p2)),
                None => None,
            }
        } else if t == 1 {
            match spec_dec_coord(b, p) {
                Some((to, p2)) => Some((Action::MoveMouse { to }, p2)),
                None => None,
            }
        } else {
            None
        },
        None => None,
    }
}

pub open spec fn spec_dec_config(b: Seq<u8>, pos: int) -> Option<(BoardConfig, int)> {
    match spec_dec_i32(b, pos) {
        Some((radius, p1)) => match spec_dec_usize(b, p1) {
            Some((initial_blocks, p2)) => match spec_dec_u64(b, p2) {
                Some((seed, p3)) => Some((BoardConfig { radius, initial_blocks, seed }, p3)),
                None => None,
            },
            None => None,
        },
        None => None,
    }
}

pub open spec fn spec_dec_coords(b: Seq<u8>, pos: int, n: int) -> Option<(Seq<Coord>, int)>
    decreases n,
{
    if n <= 0 {
        Some((Seq::empty(), pos))
    } else {
        match spec_dec_coord(b, pos) {
            Some((c, p1)) => match spec_dec_coords(b, p1, n - 1) {
                Some((s, p2)) => Some((seq![c] + s, p2)),
                None => None,
            },
            None => None,
        }
    }
}

pub open spec fn spec_dec_game(b: Seq<u8>, pos: int) -> Option<(GameModel, int)> {
    match spec_dec_config(b, pos) {
        Some((cfg, p1)) => match spec_dec_coord(b, p1) {
            Some((mouse, p2)) => match spec_dec_u64(b, p2) {
                Some((nb, p3)) => match spec_dec_coords(b, p3, nb as int) {
                    Some((blocks, p4)) => match spec_dec_turn(b, p4) {
                        Some((turn, p5)) => match spec_dec_status(b, p5) {
                            Some((status, p6)) => Some(
                                (GameModel { cfg, mouse, blocks, turn, status }, p6),
                            ),
                            None => None,
                        },
                        None => None,
                    },
                    None => None,
                },
                None => None,
            },
            None => None,
        },
        None => None,
    }
}

// ----- round-trip laws for the game's values -----
pub proof fn lemma_dec_enc_coord(b: Seq<u8>, pos: int, c: Coord)
    requires
        0 <= pos,
        pos + 8 <= b.len(),
        b.subrange(pos, pos + 8) == spec_enc_coord(c),
    ensures
        spec_dec_coord(b, pos) == Some((c, pos + 8)),
{
    lemma_subrange_split(b, pos, spec_enc_i32(c.q), spec_enc_i32(c.r));
    lemma_dec_enc_i32(b, pos, c.q);
    lemma_dec_enc_i32(b, pos + 4, c.r);
}

pub proof fn lemma_dec_enc_turn(b: Seq<u8>, pos: int, t: Turn)
    requires
        0 <= pos,
        pos + 1 <= b.len(),
        b.subrange(pos, pos + 1) == spec_enc_turn(t),
    ensures
        spec_dec_turn(b, pos) == Some((t, pos + 1)),
{
    match t {
        Turn::Trapper => lemma_dec_enc_u8(b, pos, 0),
        Turn::Mouse => lemma_dec_enc_u8(b, pos, 1),
    }
}

pub proof fn lemma_dec_enc_status(b: Seq<u8>, pos: int, st: GameStatus)
    requires
        0 <= pos,
        pos + 1 <= b.len(),
        b.subrange(pos, pos + 1) == spec_enc_status(st),
    ensures
        spec_dec_status(b, pos) == Some((st, pos + 1)),
{
    match st {
        GameStatus::Running => lemma_dec_enc_u8(b, pos, 0),
        GameStatus::TrapperWon => lemma_dec_enc_u8(b, pos, 1),
        GameStatus::MouseWon => lemma_dec_enc_u8(b, pos, 2),
    }
}

pub proof fn lemma_dec_enc_action(b: Seq<u8>, pos: int, a: Action)
    requires
        0 <= pos,
        pos + spec_enc_action(a).len() <= b.len(),
        b.subrange(pos, pos + spec_enc_action(a).len()) == spec_enc_action(a),
    ensures
        spec_dec_action(b, pos) == Some((a, pos + spec_enc_action(a).len() as int)),
{
    match a {
        Action::PlaceBlock { at } => {
            lemma_subrange_split(b, pos, spec_enc_u8(0), spec_enc_coord(at));
            lemma_dec_enc_u8(b, pos, 0);
            lemma_dec_enc_coord(b, pos + 1, at);
        },
        Action::MoveMouse { to } => {
            lemma_subrange_split(b, pos, spec_enc_u8(1), spec_enc_coord(to));
            lemma_dec_enc_u8(b, pos, 1);
            lemma_dec_enc_coord(b, pos + 1, to);
        },
    }
}

pub proof fn lemma_dec_enc_config(b: Seq<u8>, pos: int, c: BoardConfig)
    requires
        0 <= pos,
        pos + 20 <= b.len(),
        b.subrange(pos, pos + 20) == spec_enc_config(c),
    ensures
        spec_dec_config(b, pos) == Some((c, pos + 20)),
{
    assert(spec_enc_config(c) =~= spec_enc_i32(c.radius) + (spec_enc_usize(c.initial_blocks)
        + spec_enc_u64(c.seed)));
    lemma_subrange_split(
        b,
        pos,
        spec_enc_i32(c.radius),
        spec_enc_usize(c.initial_blocks) + spec_enc_u64(c.seed),
    );
    lemma_subrange_split(b, pos + 4, spec_enc_usize(c.initial_blocks), spec_enc_u64(c.seed));
    lemma_dec_enc_i32(b, pos, c.radius);
    lemma_dec_enc_usize(b, pos + 4, c.initial_blocks);
    lemma_dec_enc_u64(b, pos + 12, c.seed);
}

pub proof fn lemma_dec_enc_coords(b: Seq<u8>, pos: int, s: Seq<Coord>)
    requires
        0 <= pos,
        pos + spec_enc_coords(s).len() <= b.len(),
        b.subrange(pos, pos + spec_enc_coords(s).len()) == spec_enc_coords(s),
    ensures
        spec_dec_coords(b, pos, s.len() as int) == Some(
            (s, pos + spec_enc_coords(s).len() as int),
        ),
    decreases s.len(),
{
    if s.len() == 0 {
        assert(s =~= Seq::<Coord>::empty());
    } else {
        let e0 = spec_enc_coord(s[0]);
        let rest = spec_enc_coords(s.skip(1));
        lemma_subrange_split(b, pos, e0, rest);
        lemma_dec_enc_coord(b, pos, s[0]);
        lemma_dec_enc_coords(b, pos + 8, s.skip(1));
        assert(s =~= seq![s[0]] + s.skip(1));
    }
}

pub proof fn lemma_dec_enc_game(b: Seq<u8>, pos: int, m: GameModel)
    requires
        0 <= pos,
        m.blocks.len() <= usize::MAX,
        pos + spec_enc_game(m).len() <= b.len(),
        b.subrange(pos, pos + spec_enc_game(m).len()) == spec_enc_game(m),
    ensures
        spec_dec_game(b, pos) == Some((m, pos + spec_enc_game(m).len() as int)),
{
    let e1 = spec_enc_config(m.cfg);
    let e2 = spec_enc_coord(m.mouse);
    let e3 = spec_enc_u64(m.blocks.len() as u64);
    let e4 = spec_enc_coords(m.blocks);
    let e5 = spec_enc_turn(m.turn);
    let e6 = spec_enc_status(m.status);
    assert(spec_enc_game(m) =~= e1 + (e2 + (e3 + (e4 + (e5 + e6)))));
    lemma_subrange_split(b, pos, e1, e2 + (e3 + (e4 + (e5 + e6))));
    let p1 = pos + e1.len();
    lemma_subrange_split(b, p1, e2, e3 + (e4 + (e5 + e6)));
    let p2 = p1 + e2.len();
    lemma_subrange_split(b, p2, e3, e4 + (e5 + e6));
    let p3 = p2 + e3.len();
    lemma_subrange_split(b, p3, e4, e5 + e6);
    let p4 = p3 + e4.len();
    lemma_subrange_split(b, p4, e5, e6);
    let p5 = p4 + e5.len();
    lemma_dec_enc_config(b, pos, m.cfg);
    lemma_dec_enc_coord(b, p1, m.mouse);
    lemma_dec_enc_u64(b, p2, m.blocks.len() as u64);
    lemma_dec_enc_coords(b, p3, m.blocks);
    lemma_dec_enc_turn(b, p4, m.turn);
    lemma_dec_enc_status(b, p5, m.status);
}

// ----- the two std calls the codec leans on -----
/// Relies on char::from_u32: some character exactly for the Unicode scalar
/// values, and then the character with that code point.
pub assume_specification [ char::from_u32 ](v: u32) -> (r: Option<char>)
    ensures
        r is Some <==> is_unicode_scalar(v),
        r matches Some(c) ==> c == v as char,
;

/// Relies on String::push: appends exactly the one character.
#[verifier::external_body]
fn push_char(s: &mut String, c: char)
    ensures
        final(s)@ == old(s)@.push(c),
{
    s.push(c);
}

// ----- encoders -----
fn enc_u8(out: &mut Vec<u8>, x: u8)
    ensures
        final(out)@ == old(out)@ + spec_enc_u8(x),
{
    out.push(x);
    proof {
        assert(out@ =~= old(out)@ + spec_enc_u8(x));
    }
}

fn enc_bool(out: &mut Vec<u8>, x: bool)
    ensures
        final(out)@ == old(out)@ + spec_enc_bool(x),
{
    out.push(if x { 1 } else { 0 });
    proof {
        assert(out@ =~= old(out)@ + spec_enc_bool(x));
    }
}

fn enc_u32(out: &mut Vec<u8>, x: u32)
    ensures
        final(out)@ == old(out)@ + spec_enc_u32(x),
{
    out.push(#[verifier::truncate] (x as u8));
    out.push(#[verifier::truncate] ((x >> 8u32) as u8));
    out.push(#[verifier::truncate] ((x >> 16u32) as u8));
    out.push(#[verifier::truncate] ((x >> 24u32) as u8));
    proof {
        assert(out@ =~= old(out)@ + spec_enc_u32(x));
    }
}

fn enc_u64(out: &mut Vec<u8>, x: u64)
    ensures
        final(out)@ == old(out)@ + spec_enc_u64(x),
{
    out.push(#[verifier::truncate] (x as u8));
    out.push(#[verifier::truncate] ((x >> 8u64) as u8));
    out.push(#[verifier::truncate] ((x >> 16u64) as u8));
    out.push(#[verifier::truncate] ((x >> 24u64) as u8));
    out.push(#[verifier::truncate] ((x >> 32u64) as u8));
    out.push(#[verifier::truncate] ((x >> 40u64) as u8));
    out.push(#[verifier::truncate] ((x >> 48u64) as u8));
    out.push(#[verifier::truncate] ((x >> 56u64) as u8));
    proof {
        assert(out@ =~= old(out)@ + spec_enc_u64(x));
    }
}

fn enc_i32(out: &mut Vec<u8>, x: i32)
    ensures
        final(out)@ == old(out)@ + spec_enc_i32(x),
{
    enc_u32(out, #[verifier::truncate] (x as u32));
}

fn enc_usize(out: &mut Vec<u8>, x: usize)
    ensures
        final(out)@ == old(out)@ + spec_enc_usize(x),
{
    enc_u64(out, x as u64);
}

fn enc_str(out: &mut Vec<u8>, s: &str)
    ensures
        final(out)@ == old(out)@ + spec_enc_str(s@),
{
    let ghost out0 = out@;
    let n: usize = s.unicode_len();
    enc_u64(out, n as u64);
    proof {
        assert(s@.skip(0) =~= s@);
        assert(out0 + (spec_enc_u64(n as u64) + spec_enc_chars(s@)) =~= (out0 + spec_enc_u64(
            n as u64,
        )) + spec_enc_chars(s@));
    }
    let mut i: usize = 0;
    while i < n
        invariant
            i <= n,
            n == s@.len(),
            out0 + spec_enc_str(s@) == out@ + spec_enc_chars(s@.skip(i as int)),
        decreases n - i,
    {
        let c = s.get_char(i);
        let ghost pre = out@;
        enc_u32(out, c as u32);
        proof {
            assert(s@.skip(i as int)[0] == s@[i as int]);
            assert(s@.skip(i as int).skip(1) =~= s@.skip(i as int + 1));
            assert(spec_enc_chars(s@.skip(i as int)) == spec_enc_char(s@[i as int])
                + spec_enc_chars(s@.skip(i as int + 1)));
            assert(pre + (spec_enc_char(s@[i as int]) + spec_enc_chars(s@.skip(i as int + 1)))
                =~= (pre + spec_enc_char(s@[i as int])) + spec_enc_chars(s@.skip(i as int + 1)));
        }
        i += 1;
    }
    proof {
        assert(spec_enc_chars(s@.skip(n as int)) =~= Seq::<u8>::empty());
        assert(out@ + Seq::<u8>::empty() =~= out@);
    }
}

fn enc_coord(out: &mut Vec<u8>, c: Coord)
    ensures
        final(out)@ == old(out)@ + spec_enc_coord(c),
{
    enc_i32(out, c.q);
    enc_i32(out, c.r);
    proof {
        assert(out@ =~= old(out)@ + spec_enc_coord(c));
    }
}

fn enc_turn(out: &mut Vec<u8>, t: Turn)
    ensures
        final(out)@ == old(out)@ + spec_enc_turn(t),
{
    match t {
        Turn::Trapper => enc_u8(out, 0),
        Turn::Mouse => enc_u8(out, 1),
    }
}

fn enc_status(out: &mut Vec<u8>, st: GameStatus)
    ensures
        final(out)@ == old(out)@ + spec_enc_status(st),
{
    match st {
        GameStatus::Running => enc_u8(out, 0),
        GameStatus::TrapperWon => enc_u8(out, 1),
        GameStatus::MouseWon => enc_u8(out, 2),
    }
}

fn enc_action(out: &mut Vec<u8>, a: &Action)
    ensures
        final(out)@ == old(out)@ + spec_enc_action(*a),
{
    match a {
        Action::PlaceBlock { at } => {
            enc_u8(out, 0);
            enc_coord(out, *at);
        },
        Action::MoveMouse { to } => {
            enc_u8(out, 1);
            enc_coord(out, *to);
        },
    }
    proof {
        assert(out@ =~= old(out)@ + spec_enc_action(*a));
    }
}

fn enc_config(out: &mut Vec<u8>, c: &BoardConfig)
    ensures
        final(out)@ == old(out)@ + spec_enc_config(*c),
{
    enc_i32(out, c.radius);
    enc_usize(out, c.initial_blocks);
    enc_u64(out, c.seed);
    proof {
        assert(out@ =~= old(out)@ + spec_enc_config(*c));
    }
}

fn enc_coords(out: &mut Vec<u8>, s: &Vec<Coord>)
    ensures
        final(out)@ == old(out)@ + spec_enc_coords(s@),
{
    let ghost out0 = out@;
    proof {
        assert(s@.skip(0) =~= s@);
    }
    let mut i: usize = 0;
    while i < s.len()
        invariant
            i <= s@.len(),
            out0 + spec_enc_coords(s@) == out@ + spec_enc_coords(s@.skip(i as int)),
        decreases s@.len() - i,
    {
        let ghost pre = out@;
        enc_coord(out, s[i]);
        proof {
            assert(s@.skip(i as int)[0] == s@[i as int]);
            assert(s@.skip(i as int).skip(1) =~= s@.skip(i as int + 1));
            assert(spec_enc_coords(s@.skip(i as int)) == spec_enc_coord(s@[i as int])
                + spec_enc_coords(s@.skip(i as int + 1)));
            assert(pre + (spec_enc_coord(s@[i as int]) + spec_enc_coords(s@.skip(i as int + 1)))
                =~= (pre + spec_enc_coord(s@[i as int])) + spec_enc_coords(s@.skip(i as int + 1)));
        }
        i += 1;
    }
    proof {
        assert(spec_enc_coords(s@.skip(s@.len() as int)) =~= Seq::<u8>::empty());
        assert(out@ + Seq::<u8>::empty() =~= out@);
    }
}

fn enc_game(out: &mut Vec<u8>, s: &GameState)
    ensures
        final(out)@ == old(out)@ + spec_enc_game(s@),
{
    enc_config(out, &s.cfg);
    enc_coord(out, s.mouse);
    enc_u64(out, s.blocks.len() as u64);
    enc_coords(out, &s.blocks);
    enc_turn(out, s.turn);
    enc_status(out, s.status);
    proof {
        assert(out@ =~= old(out)@ + spec_enc_game(s@));
    }
}

/// The byte encoding of a game state.
pub fn encode_game_state(s: &GameState) -> (out: Vec<u8>)
    ensures
        out@ == spec_enc_game(s@),
{
    let mut out: Vec<u8> = Vec::new();
    enc_game(&mut out, s);
    proof {
        assert(Seq::<u8>::empty() + spec_enc_game(s@) =~= spec_enc_game(s@));
    }
    out
}

// ----- decoders -----
fn dec_u8(buf: &Vec<u8>, pos: usize) -> (r: Option<(u8, usize)>)
    ensures
        r matches Some(v) ==> spec_dec_u8(buf@, pos as int) == Some((v.0, v.1 as int)),
        r is None ==> spec_dec_u8(buf@, pos as int) is None,
{
    if pos >= buf.len() {
        return None;
    }
    Some((buf[pos], pos + 1))
}

fn dec_bool(buf: &Vec<u8>, pos: usize) -> (r: Option<(bool, usize)>)
    ensures
        r matches Some(v) ==> spec_dec_bool(buf@, pos as int) == Some((v.0, v.1 as int)),
        r is None ==> spec_dec_bool(buf@, pos as int) is None,
{
    match dec_u8(buf, pos) {
        Some((t, p)) => if t == 0 {
            Some((false, p))
        } else if t == 1 {
            Some((true, p))
        } else {
            None
        },
        None => None,
    }
}

fn dec_u32(buf: &Vec<u8>, pos: usize) -> (r: Option<(u32, usize)>)
    ensures
        r matches Some(v) ==> spec_dec_u32(buf@, pos as int) == Some((v.0, v.1 as int)),
        r is None ==> spec_dec_u32(buf@, pos as int) is None,
{
    if pos >= buf.len() || buf.len() - pos < 4 {
        return None;
    }
    let v = (buf[pos] as u32) | ((buf[pos + 1] as u32) << 8u32) | ((buf[pos + 2] as u32) << 16u32)
        | ((buf[pos + 3] as u32) << 24u32);
    Some((v, pos + 4))
}

fn dec_u64(buf: &Vec<u8>, pos: usize) -> (r: Option<(u64, usize)>)
    ensures
        r matches Some(v) ==> spec_dec_u64(buf@, pos as int) == Some((v.0, v.1 as int)),
        r is None ==> spec_dec_u64(buf@, pos as int) is None,
{
    if pos >= buf.len() || buf.len() - pos < 8 {
        return None;
    }
    let v = (buf[pos] as u64) | ((buf[pos + 1] as u64) << 8u64) | ((buf[pos + 2] as u64) << 16u64)
        | ((buf[pos + 3] as u64) << 24u64) | ((buf[pos + 4] as u64) << 32u64) | ((buf[pos
        + 5] as u64) << 40u64) | ((buf[pos + 6] as u64) << 48u64) | ((buf[pos + 7] as u64)
        << 56u64);
    Some((v, pos + 8))
}

fn dec_i32(buf: &Vec<u8>, pos: usize) -> (r: Option<(i32, usize)>)
    ensures
        r matches Some(v) ==> spec_dec_i32(buf@, pos as int) == Some((v.0, v.1 as int)),
        r is None ==> spec_dec_i32(buf@, pos as int) is None,
{
    match dec_u32(buf, pos) {
        Some((v, p)) => Some((#[verifier::truncate] (v as i32), p)),
        None => None,
    }
}

fn dec_usize(buf: &Vec<u8>, pos: usize) -> (r: Option<(usize, usize)>)
    ensures
        r matches Some(v) ==> spec_dec_usize(buf@, pos as int) == Some((v.0, v.1 as int)),
        r is None ==> spec_dec_usize(buf@, pos as int) is None,
{
    match dec_u64(buf, pos) {
        Some((v, p)) => if v <= usize::MAX as u64 {
            Some((v as usize, p))
        } else {
            None
        },
        None => None,
    }
}

fn dec_char(buf: &Vec<u8>, pos: usize) -> (r: Option<(char, usize)>)
    ensures
        r matches Some(v) ==> spec_dec_char(buf@, pos as int) == Some((v.0, v.1 as int)),
        r is None ==> spec_dec_char(buf@, pos as int) is None,
{
    match dec_u32(buf, pos) {
        Some((v, p)) => match char::from_u32(v) {
            Some(c) => Some((c, p)),
            None => None,
        },
        None => None,
    }
}

fn dec_str(buf: &Vec<u8>, pos: usize) -> (r: Option<(String, usize)>)
    ensures
        r matches Some(v) ==> spec_dec_str(buf@, pos as int) == Some((v.0@, v.1 as int)),
        r is None ==> spec_dec_str(buf@, pos as int) is None,
{
    let (n, p1) = match dec_u64(buf, pos) {
        Some(v) => v,
        None => { return None },
    };
    let mut acc = String::new();
    let mut pos2: usize = p1;
    let mut i: u64 = 0;
    while i < n
        invariant
            i <= n,
            spec_dec_u64(buf@, pos as int) == Some((n, p1 as int)),
            spec_dec_chars(buf@, p1 as int, n as int) == match spec_dec_chars(
                buf@,
                pos2 as int,
                n as int - i as int,
            ) {
                Some((s2, p2)) => Some((acc@ + s2, p2)),
                None => None::<(Seq<char>, int)>,
            },
        decreases n - i,
    {
        let (c, p) = match dec_char(buf, pos2) {
            Some(v) => v,
            None => {
                proof {
                    assert(spec_dec_chars(buf@, pos2 as int, n as int - i as int) is None);
                }
                return None;
            },
        };
        let ghost acc0 = acc@;
        push_char(&mut acc, c);
        proof {
            let rest = spec_dec_chars(buf@, p as int, n as int - i as int - 1);
            if rest is Some {
                let (s2, p2) = rest->Some_0;
                assert(acc0.push(c) + s2 =~= acc0 + (seq![c] + s2));
            }
        }
        pos2 = p;
        i += 1;
    }
    proof {
        assert(acc@ + Seq::<char>::empty() =~= acc@);
    }
    Some((acc, pos2))
}

fn dec_coord(buf: &Vec<u8>, pos: usize) -> (r: Option<(Coord, usize)>)
    ensures
        r matches Some(v) ==> spec_dec_coord(buf@, pos as int) == Some((v.0, v.1 as int)),
        r is None ==> spec_dec_coord(buf@, pos as int) is None,
{
    let (q, p1) = match dec_i32(buf, pos) {
        Some(v) => v,
        None => { return None },
    };
    let (rr, p2) = match dec_i32(buf, p1) {
        Some(v) => v,
        None => { return None },
    };
    Some((Coord { q, r: rr }, p2))
}

fn dec_turn(buf: &Vec<u8>, pos: usize) -> (r: Option<(Turn, usize)>)
    ensures
        r matches Some(v) ==> spec_dec_turn(buf@, pos as int) == Some((v.0, v.1 as int)),
        r is None ==> spec_dec_turn(buf@, pos as int) is None,
{
    match dec_u8(buf, pos) {
        Some((t, p)) => if t == 0 {
            Some((Turn::Trapper, p))
        } else if t == 1 {
            Some((Turn::Mouse, p))
        } else {
            None
        },
        None => None,
    }
}

fn dec_status(buf: &Vec<u8>, pos: usize) -> (r: Option<(GameStatus, usize)>)
    ensures
        r matches Some(v) ==> spec_dec_status(buf@, pos as int) == Some((v.0, v.1 as int)),
        r is None ==> spec_dec_status(buf@, pos as int) is None,
{
    match dec_u8(buf, pos) {
        Some((t, p)) => if t == 0 {
            Some((GameStatus::Running, p))
        } else if t == 1 {
            Some((GameStatus::TrapperWon, p))
        } else if t == 2 {
            Some((GameStatus::MouseWon, p))
        } else {
            None
        },
        None => None,
    }
}

fn dec_action(buf: &Vec<u8>, pos: usize) -> (r: Option<(Action, usize)>)
    ensures
        r matches Some(v) ==> spec_dec_action(buf@, pos as int) == Some((v.0, v.1 as int)),
        r is None ==> spec_dec_action(buf@, pos as int) is None,
{
    let (t, p) = match dec_u8(buf, pos) {
        Some(v) => v,
        None => { return None },
    };
    if t == 0 {
        match dec_coord(buf, p) {
            Some((at, p2)) => Some((Action::PlaceBlock { at }, p2)),
            None => None,
        }
    } else if t == 1 {
        match dec_coord(buf, p) {
            Some((to, p2)) => Some((Action::MoveMouse { to }, p2)),
            None => None,
        }
    } else {
        None
    }
}

fn dec_config(buf: &Vec<u8>, pos: usize) -> (r: Option<(BoardConfig, usize)>)
    ensures
        r matches Some(v) ==> spec_dec_config(buf@, pos as int) == Some((v.0, v.1 as int)),
        r is None ==> spec_dec_config(buf@, pos as int) is None,
{
    let (radius, p1) = match dec_i32(buf, pos) {
        Some(v) => v,
        None => { return None },
    };
    let (initial_blocks, p2) = match dec_usize(buf, p1) {
        Some(v) => v,
        None => { return None },
    };
    let (seed, p3) = match dec_u64(buf, p2) {
        Some(v) => v,
        None => { return None },
    };
    Some((BoardConfig { radius, initial_blocks, seed }, p3))
}

fn dec_coords(buf: &Vec<u8>, pos: usize, n: u64) -> (r: Option<(Vec<Coord>, usize)>)
    ensures
        r matches Some(v) ==> spec_dec_coords(buf@, pos as int, n as int) == Some(
            (v.0@, v.1 as int),
        ),
        r is None ==> spec_dec_coords(buf@, pos as int, n as int) is None,
{
    let mut acc: Vec<Coord> = Vec::new();
    let mut pos2: usize = pos;
    let mut i: u64 = 0;
    while i < n
        invariant
            i <= n,
            spec_dec_coords(buf@, pos as int, n as int) == match spec_dec_coords(
                buf@,
                pos2 as int,
                n as int - i as int,
            ) {
                Some((s2, p2)) => Some((acc@ + s2, p2)),
                None => None::<(Seq<Coord>, int)>,
            },
        decreases n - i,
    {
        let (c, p) = match dec_coord(buf, pos2) {
            Some(v) => v,
            None => {
                proof {
                    assert(spec_dec_coords(buf@, pos2 as int, n as int - i as int) is None);
                }
                return None;
            },
        };
        let ghost acc0 = acc@;
        acc.push(c);
        proof {
            let rest = spec_dec_coords(buf@, p as int, n as int - i as int - 1);
            if rest is Some {
                let (s2, p2) = rest->Some_0;
                assert(acc0.push(c) + s2 =~= acc0 + (seq![c] + s2));
            }
        }
        pos2 = p;
        i += 1;
    }
    proof {
        assert(acc@ + Seq::<Coord>::empty() =~= acc@);
    }
    Some((acc, pos2))
}

/// Decode a game state at `pos`: exactly the inverse reading of
/// `spec_enc_game`, or `None` where the bytes say something else.
pub fn decode_game_state(buf: &Vec<u8>, pos: usize) -> (r: Option<(GameState, usize)>)
    ensures
        r matches Some(v) ==> spec_dec_game(buf@, pos as int) == Some((v.0@, v.1 as int)),
        r is None ==> spec_dec_game(buf@, pos as int) is None,
{
    let (cfg, p1) = match dec_config(buf, pos) {
        Some(v) => v,
        None => { return None },
    };
    let (mouse, p2) = match dec_coord(buf, p1) {
        Some(v) => v,
        None => { return None },
    };
    let (nb, p3) = match dec_u64(buf, p2) {
        Some(v) => v,
        None => { return None },
    };
    let (blocks, p4) = match dec_coords(buf, p3, nb) {
        Some(v) => v,
        None => { return None },
    };
    let (turn, p5) = match dec_turn(buf, p4) {
        Some(v) => v,
        None => { return None },
    };
    let (status, p6) = match dec_status(buf, p5) {
        Some(v) => v,
        None => { return None },
    };
    Some((GameState { cfg, mouse, blocks, turn, status }, p6))
}

/// Round trip for game states: decoding an encoding, wherever it sits in a
/// larger buffer, gives back the very value.
pub proof fn lemma_game_state_round_trip(m: GameModel)
    requires
        m.blocks.len() <= usize::MAX,
    ensures
        spec_dec_game(spec_enc_game(m), 0) == Some((m, spec_enc_game(m).len() as int)),
{
    let b = spec_enc_game(m);
    assert(b.subrange(0, b.len() as int) =~= b);
    lemma_dec_enc_game(b, 0, m);
}

// ----- encodings of the protocol messages -----
pub open spec fn spec_enc_room_info(ri: RoomInfoModel) -> Seq<u8> {
    spec_enc_str(ri.room_id) + spec_enc_str(ri.name) + spec_enc_u8(ri.players) + spec_enc_bool(
        ri.vs_bot,
    )
}

pub open spec fn spec_enc_room_infos(s: Seq<RoomInfoModel>) -> Seq<u8>
    decreases s.len(),
{
    if s.len() <= 0 {
        Seq::empty()
    } else {
        spec_enc_room_info(s[0]) + spec_enc_room_infos(s.skip(1))
    }
}

pub open spec fn spec_enc_client_msg(m: ClientMsgModel) -> Seq<u8> {
    match m {
        ClientMsgModel::CreateRoom { name, vs_bot } => spec_enc_u8(0) + spec_enc_str(name)
            + spec_enc_bool(vs_bot),
        ClientMsgModel::JoinRoom { room_id } => spec_enc_u8(1) + spec_enc_str(room_id),
        ClientMsgModel::LeaveRoom => spec_enc_u8(2),
        ClientMsgModel::PlayerAction { action } => spec_enc_u8(3) + spec_enc_action(action),
        ClientMsgModel::ListRooms => spec_enc_u8(4),
    }
}

pub open spec fn spec_enc_server_msg(m: ServerMsgModel) -> Seq<u8> {
    match m {
        ServerMsgModel::RoomList { rooms } => spec_enc_u8(0) + spec_enc_u64(rooms.len() as u64)
            + spec_enc_room_infos(rooms),
        ServerMsgModel::LobbyState { room_id, players, vs_bot } => spec_enc_u8(1) + spec_enc_str(
            room_id,
        ) + spec_enc_u8(players) + spec_enc_bool(vs_bot),
        ServerMsgModel::GameStart { state, your_role } => spec_enc_u8(2) + spec_enc_game(state)
            + spec_enc_turn(your_role),
        ServerMsgModel::GameUpdate { state } => spec_enc_u8(3) + spec_enc_game(state),
        ServerMsgModel::Error { message } => spec_enc_u8(4) + spec_enc_str(message),
    }
}

// ----- decodings of the protocol messages -----
pub open spec fn spec_dec_room_info(b: Seq<u8>, pos: int) -> Option<(RoomInfoModel, int)> {
    match spec_dec_str(b, pos) {
        Some((room_id, p1)) => match spec_dec_str(b, p1) {
            Some((name, p2)) => match spec_dec_u8(b, p2) {
                Some((players, p3)) => match spec_dec_bool(b, p3) {
                    Some((vs_bot, p4)) => Some(
                        (RoomInfoModel { room_id, name, players, vs_bot }, p4),
                    ),
                    None => None,
                },
                None => None,
            },
            None => None,
        },
        None => None,
    }
}

pub open spec fn spec_dec_room_infos(b: Seq<u8>, pos: int, n: int) -> Option<
    (Seq<RoomInfoModel>, int),
>
    decreases n,
{
    if n <= 0 {
        Some((Seq::empty(), pos))
    } else {
        match spec_dec_room_info(b, pos) {
            Some((ri, p1)) => match spec_dec_room_infos(b, p1, n - 1) {
                Some((s, p2)) => Some((seq![ri] + s, p2)),
                None => None,
            },
            None => None,
        }
    }
}

pub open spec fn spec_dec_client_msg(b: Seq<u8>, pos: int) -> Option<(ClientMsgModel, int)> {
    match spec_dec_u8(b, pos) {
        Some((t, p)) => if t == 0 {
            match spec_dec_str(b, p) {
                Some((name, p1)) => match spec_dec_bool(b, p1) {
                    Some((vs_bot, p2)) => Some((ClientMsgModel::CreateRoom { name, vs_bot }, p2)),
                    None => None,
                },
                None => None,
            }
        } else if t == 1 {
            match spec_dec_str(b, p) {
                Some((room_id, p1)) => Some((ClientMsgModel::JoinRoom { room_id }, p1)),
                None => None,
            }
        } else if t == 2 {
            Some((ClientMsgModel::LeaveRoom, p))
        } else if t == 3 {
            match spec_dec_action(b, p) {
                Some((action, p1)) => Some((ClientMsgModel::PlayerAction { action }, p1)),
                None => None,
            }
        } else if t == 4 {
            Some((ClientMsgModel::ListRooms, p))
        } else {
            None
        },
        None => None,
    }
}

pub open spec fn spec_dec_server_msg(b: Seq<u8>, pos: int) -> Option<(ServerMsgModel, int)> {
    match spec_dec_u8(b, pos) {
        Some((t, p)) => if t == 0 {
            match spec_dec_u64(b, p) {
                Some((n, p1)) => match spec_dec_room_infos(b, p1, n as int) {
                    Some((rooms, p2)) => Some((ServerMsgModel::RoomList { rooms }, p2)),
                    None => None,
                },
                None => None,
            }
        } else if t == 1 {
            match spec_dec_str(b, p) {
                Some((room_id, p1)) => match spec_dec_u8(b, p1) {
                    Some((players, p2)) => match spec_dec_bool(b, p2) {
                        Some((vs_bot, p3)) => Some(
                            (ServerMsgModel::LobbyState { room_id, players, vs_bot }, p3),
                        ),
                        None => None,
                    },
                    None => None,
                },
                None => None,
            }
        } else if t == 2 {
            match spec_dec_game(b, p) {
                Some((state, p1)) => match spec_dec_turn(b, p1) {
                    Some((your_role, p2)) => Some(
                        (ServerMsgModel::GameStart { state, your_role }, p2),
                    ),
                    None => None,
                },
                None => None,
            }
        } else if t == 3 {
            match spec_dec_game(b, p) {
                Some((state, p1)) => Some((ServerMsgModel::GameUpdate { state }, p1)),
                None => None,
            }
        } else if t == 4 {
            match spec_dec_str(b, p) {
                Some((message, p1)) => Some((ServerMsgModel::Error { message }, p1)),
                None => None,
            }
        } else {
            None
        },
        None => None,
    }
}

// ----- what a value must satisfy to exist in a running program -----
/// Every view of a real `RoomInfo` satisfies this: strings fit in memory.
pub open spec fn room_info_fits(ri: RoomInfoModel) -> bool {
    ri.room_id.len() <= usize::MAX && ri.name.len() <= usize::MAX
}

/// Every view of a real `ClientMsg` satisfies this.
pub open spec fn client_msg_fits(m: ClientMsgModel) -> bool {
    match m {
        ClientMsgModel::CreateRoom { name, vs_bot } => name.len() <= usize::MAX,
        ClientMsgModel::JoinRoom { room_id } => room_id.len() <= usize::MAX,
        _ => true,
    }
}

/// Every view of a real `ServerMsg` satisfies this.
pub open spec fn server_msg_fits(m: ServerMsgModel) -> bool {
    match m {
        ServerMsgModel::RoomList { rooms } => rooms.len() <= usize::MAX && (forall|i: int|
            0 <= i < rooms.len() ==> room_info_fits(#[trigger] rooms[i])),
        ServerMsgModel::LobbyState { room_id, players, vs_bot } => room_id.len() <= usize::MAX,
        ServerMsgModel::GameStart { state, your_role } => state.blocks.len() <= usize::MAX,
        ServerMsgModel::GameUpdate { state } => state.blocks.len() <= usize::MAX,
        ServerMsgModel::Error { message } => message.len() <= usize::MAX,
    }
}

// ----- round-trip laws for the protocol messages -----
pub proof fn lemma_dec_enc_room_info(b: Seq<u8>, pos: int, ri: RoomInfoModel)
    requires
        0 <= pos,
        room_info_fits(ri),
        pos + spec_enc_room_info(ri).len() <= b.len(),
        b.subrange(pos, pos + spec_enc_room_info(ri).len()) == spec_enc_room_info(ri),
    ensures
        spec_dec_room_info(b, pos) == Some((ri, pos + spec_enc_room_info(ri).len() as int)),
{
    let e1 = spec_enc_str(ri.room_id);
    let e2 = spec_enc_str(ri.name);
    let e3 = spec_enc_u8(ri.players);
    let e4 = spec_enc_bool(ri.vs_bot);
    assert(spec_enc_room_info(ri) =~= e1 + (e2 + (e3 + e4)));
    lemma_subrange_split(b, pos, e1, e2 + (e3 + e4));
    let p1 = pos + e1.len();
    lemma_subrange_split(b, p1, e2, e3 + e4);
    let p2 = p1 + e2.len();
    lemma_subrange_split(b, p2, e3, e4);
    let p3 = p2 + e3.len();
    lemma_dec_enc_str(b, pos, ri.room_id);
    lemma_dec_enc_str(b, p1, ri.name);
    lemma_dec_enc_u8(b, p2, ri.players);
    lemma_dec_enc_bool(b, p3, ri.vs_bot);
}

pub proof fn lemma_dec_enc_room_infos(b: Seq<u8>, pos: int, s: Seq<RoomInfoModel>)
    requires
        0 <= pos,
        forall|i: int| 0 <= i < s.len() ==> room_info_fits(#[trigger] s[i]),
        pos + spec_enc_room_infos(s).len() <= b.len(),
        b.subrange(pos, pos + spec_enc_room_infos(s).len()) == spec_enc_room_infos(s),
    ensures
        spec_dec_room_infos(b, pos, s.len() as int) == Some(
            (s, pos + spec_enc_room_infos(s).len() as int),
        ),
    decreases s.len(),
{
    if s.len() == 0 {
        assert(s =~= Seq::<RoomInfoModel>::empty());
    } else {
        let e0 = spec_enc_room_info(s[0]);
        let rest = spec_enc_room_infos(s.skip(1));
        lemma_subrange_split(b, pos, e0, rest);
        lemma_dec_enc_room_info(b, pos, s[0]);
        lemma_dec_enc_room_infos(b, pos + e0.len(), s.skip(1));
        assert(s =~= seq![s[0]] + s.skip(1));
    }
}

pub proof fn lemma_dec_enc_client_msg(b: Seq<u8>, pos: int, m: ClientMsgModel)
    requires
        0 <= pos,
        client_msg_fits(m),
        pos + spec_enc_client_msg(m).len() <= b.len(),
        b.subrange(pos, pos + spec_enc_client_msg(m).len()) == spec_enc_client_msg(m),
    ensures
        spec_dec_client_msg(b, pos) == Some((m, pos + spec_enc_client_msg(m).len() as int)),
{
    match m {
        ClientMsgModel::CreateRoom { name, vs_bot } => {
            let e1 = spec_enc_str(name);
            let e2 = spec_enc_bool(vs_bot);
            assert(spec_enc_client_msg(m) =~= spec_enc_u8(0) + (e1 + e2));
            lemma_subrange_split(b, pos, spec_enc_u8(0), e1 + e2);
            lemma_subrange_split(b, pos + 1, e1, e2);
            lemma_dec_enc_u8(b, pos, 0);
            lemma_dec_enc_str(b, pos + 1, name);
            lemma_dec_enc_bool(b, pos + 1 + e1.len(), vs_bot);
        },
        ClientMsgModel::JoinRoom { room_id } => {
            lemma_subrange_split(b, pos, spec_enc_u8(1), spec_enc_str(room_id));
            lemma_dec_enc_u8(b, pos, 1);
            lemma_dec_enc_str(b, pos + 1, room_id);
        },
        ClientMsgModel::LeaveRoom => {
            lemma_dec_enc_u8(b, pos, 2);
        },
        ClientMsgModel::PlayerAction { action } => {
            lemma_subrange_split(b, pos, spec_enc_u8(3), spec_enc_action(action));
            lemma_dec_enc_u8(b, pos, 3);
            lemma_dec_enc_action(b, pos + 1, action);
        },
        ClientMsgModel::ListRooms => {
            lemma_dec_enc_u8(b, pos, 4);
        },
    }
}

#[verifier::rlimit(60)]
pub proof fn lemma_dec_enc_server_msg(b: Seq<u8>, pos: int, m: ServerMsgModel)
    requires
        0 <= pos,
        server_msg_fits(m),
        pos + spec_enc_server_msg(m).len() <= b.len(),
        b.subrange(pos, pos + spec_enc_server_msg(m).len()) == spec_enc_server_msg(m),
    ensures
        spec_dec_server_msg(b, pos) == Some((m, pos + spec_enc_server_msg(m).len() as int)),
{
    match m {
        ServerMsgModel::RoomList { rooms } => {
            let e1 = spec_enc_u64(rooms.len() as u64);
            let e2 = spec_enc_room_infos(rooms);
            assert(spec_enc_server_msg(m) =~= spec_enc_u8(0) + (e1 + e2));
            lemma_subrange_split(b, pos, spec_enc_u8(0), e1 + e2);
            lemma_subrange_split(b, pos + 1, e1, e2);
            lemma_dec_enc_u8(b, pos, 0);
            lemma_dec_enc_u64(b, pos + 1, rooms.len() as u64);
            lemma_dec_enc_room_infos(b, pos + 9, rooms);
        },
        ServerMsgModel::LobbyState { room_id, players, vs_bot } => {
            let e1 = spec_enc_str(room_id);
            let e2 = spec_enc_u8(players);
            let e3 = spec_enc_bool(vs_bot);
            assert(spec_enc_server_msg(m) =~= spec_enc_u8(1) + (e1 + (e2 + e3)));
            lemma_subrange_split(b, pos, spec_enc_u8(1), e1 + (e2 + e3));
            lemma_subrange_split(b, pos + 1, e1, e2 + e3);
            lemma_subrange_split(b, pos + 1 + e1.len(), e2, e3);
            lemma_dec_enc_u8(b, pos, 1);
            lemma_dec_enc_str(b, pos + 1, room_id);
            lemma_dec_enc_u8(b, pos + 1 + e1.len(), players);
            lemma_dec_enc_bool(b, pos + 2 + e1.len(), vs_bot);
        },
        ServerMsgModel::GameStart { state, your_role } => {
            let e1 = spec_enc_game(state);
            let e2 = spec_enc_turn(your_role);
            assert(spec_enc_server_msg(m) =~= spec_enc_u8(2) + (e1 + e2));
            lemma_subrange_split(b, pos, spec_enc_u8(2), e1 + e2);
            lemma_subrange_split(b, pos + 1, e1, e2);
            lemma_dec_enc_u8(b, pos, 2);
            lemma_dec_enc_game(b, pos + 1, state);
            lemma_dec_enc_turn(b, pos + 1 + e1.len(), your_role);
        },
        ServerMsgModel::GameUpdate { state } => {
            lemma_subrange_split(b, pos, spec_enc_u8(3), spec_enc_game(state));
            lemma_dec_enc_u8(b, pos, 3);
            lemma_dec_enc_game(b, pos + 1, state);
        },
        ServerMsgModel::Error { message } => {
            lemma_subrange_split(b, pos, spec_enc_u8(4), spec_enc_str(message));
            lemma_dec_enc_u8(b, pos, 4);
            lemma_dec_enc_str(b, pos + 1, message);
        },
    }
}

/// Round trip for client messages.
pub proof fn lemma_client_msg_round_trip(m: ClientMsgModel)
    requires
        client_msg_fits(m),
    ensures
        spec_dec_client_msg(spec_enc_client_msg(m), 0) == Some(
            (m, spec_enc_client_msg(m).len() as int),
        ),
{
    let b = spec_enc_client_msg(m);
    assert(b.subrange(0, b.len() as int) =~= b);
    lemma_dec_enc_client_msg(b, 0, m);
}

/// Round trip for server messages.
pub proof fn lemma_server_msg_round_trip(m: ServerMsgModel)
    requires
        server_msg_fits(m),
    ensures
        spec_dec_server_msg(spec_enc_server_msg(m), 0) == Some(
            (m, spec_enc_server_msg(m).len() as int),
        ),
{
    let b = spec_enc_server_msg(m);
    assert(b.subrange(0, b.len() as int) =~= b);
    lemma_dec_enc_server_msg(b, 0, m);
}

// ----- exec encoders and decoders for the protocol messages -----
fn enc_room_info(out: &mut Vec<u8>, ri: &RoomInfo)
    ensures
        final(out)@ == old(out)@ + spec_enc_room_info(ri@),
{
    enc_str(out, str_of(&ri.room_id));
    enc_str(out, str_of(&ri.name));
    enc_u8(out, ri.players);
    enc_bool(out, ri.vs_bot);
    proof {
        assert(out@ =~= old(out)@ + spec_enc_room_info(ri@));
    }
}

/// The string slice of a `String`, view preserved.
fn str_of(s: &String) -> (r: &str)
    ensures
        r@ == s@,
{
    s.as_str()
}

fn enc_room_infos(out: &mut Vec<u8>, s: &Vec<RoomInfo>)
    ensures
        final(out)@ == old(out)@ + spec_enc_room_infos(room_infos_view(s@)),
{
    let ghost out0 = out@;
    let ghost rvs = room_infos_view(s@);
    proof {
        assert(rvs.skip(0) =~= rvs);
    }
    let mut i: usize = 0;
    while i < s.len()
        invariant
            i <= s@.len(),
            rvs == room_infos_view(s@),
            out0 + spec_enc_room_infos(rvs) == out@ + spec_enc_room_infos(rvs.skip(i as int)),
        decreases s@.len() - i,
    {
        let ghost pre = out@;
        enc_room_info(out, &s[i]);
        proof {
            assert(rvs.skip(i as int)[0] == rvs[i as int]);
            assert(rvs.skip(i as int).skip(1) =~= rvs.skip(i as int + 1));
            assert(spec_enc_room_infos(rvs.skip(i as int)) == spec_enc_room_info(rvs[i as int])
                + spec_enc_room_infos(rvs.skip(i as int + 1)));
            assert(pre + (spec_enc_room_info(rvs[i as int]) + spec_enc_room_infos(
                rvs.skip(i as int + 1),
            )) =~= (pre + spec_enc_room_info(rvs[i as int])) + spec_enc_room_infos(
                rvs.skip(i as int + 1),
            ));
        }
        i += 1;
    }
    proof {
        assert(spec_enc_room_infos(rvs.skip(rvs.len() as int)) =~= Seq::<u8>::empty());
        assert(out@ + Seq::<u8>::empty() =~= out@);
    }
}

/// The byte encoding of a client message.
pub fn encode_client_msg(m: &ClientMsg) -> (out: Vec<u8>)
    ensures
        out@ == spec_enc_client_msg(m@),
{
    let mut out: Vec<u8> = Vec::new();
    match m {
        ClientMsg::CreateRoom { name, vs_bot } => {
            enc_u8(&mut out, 0);
            enc_str(&mut out, str_of(name));
            enc_bool(&mut out, *vs_bot);
        },
        ClientMsg::JoinRoom { room_id } => {
            enc_u8(&mut out, 1);
            enc_str(&mut out, str_of(room_id));
        },
        ClientMsg::LeaveRoom => {
            enc_u8(&mut out, 2);
        },
        ClientMsg::PlayerAction { action } => {
            enc_u8(&mut out, 3);
            enc_action(&mut out, action);
        },
        ClientMsg::ListRooms => {
            enc_u8(&mut out, 4);
        },
    }
    proof {
        assert(out@ =~= spec_enc_client_msg(m@));
    }
    out
}

/// The byte encoding of a server message.
pub fn encode_server_msg(m: &ServerMsg) -> (out: Vec<u8>)
    ensures
        out@ == spec_enc_server_msg(m@),
{
    let mut out: Vec<u8> = Vec::new();
    match m {
        ServerMsg::RoomList { rooms } => {
            enc_u8(&mut out, 0);
            enc_u64(&mut out, rooms.len() as u64);
            enc_room_infos(&mut out, rooms);
        },
        ServerMsg::LobbyState { room_id, players, vs_bot } => {
            enc_u8(&mut out, 1);
            enc_str(&mut out, str_of(room_id));
            enc_u8(&mut out, *players);
            enc_bool(&mut out, *vs_bot);
        },
        ServerMsg::GameStart { state, your_role } => {
            enc_u8(&mut out, 2);
            enc_game(&mut out, state);
            enc_turn(&mut out, *your_role);
        },
        ServerMsg::GameUpdate { state } => {
            enc_u8(&mut out, 3);
            enc_game(&mut out, state);
        },
        ServerMsg::Error { message } => {
            enc_u8(&mut out, 4);
            enc_str(&mut out, str_of(message));
        },
    }
    proof {
        assert(out@ =~= spec_enc_server_msg(m@));
    }
    out
}

fn dec_room_info(buf: &Vec<u8>, pos: usize) -> (r: Option<(RoomInfo, usize)>)
    ensures
        r matches Some(v) ==> spec_dec_room_info(buf@, pos as int) == Some((v.0@, v.1 as int)),
        r is None ==> spec_dec_room_info(buf@, pos as int) is None,
{
    let (room_id, p1) = match dec_str(buf, pos) {
        Some(v) => v,
        None => { return None },
    };
    let (name, p2) = match dec_str(buf, p1) {
        Some(v) => v,
        None => { return None },
    };
    let (players, p3) = match dec_u8(buf, p2) {
        Some(v) => v,
        None => { return None },
    };
    let (vs_bot, p4) = match dec_bool(buf, p3) {
        Some(v) => v,
        None => { return None },
    };
    Some((RoomInfo { room_id, name, players, vs_bot }, p4))
}

fn dec_room_infos(buf: &Vec<u8>, pos: usize, n: u64) -> (r: Option<(Vec<RoomInfo>, usize)>)
    ensures
        r matches Some(v) ==> spec_dec_room_infos(buf@, pos as int, n as int) == Some(
            (room_infos_view(v.0@), v.1 as int),
        ),
        r is None ==> spec_dec_room_infos(buf@, pos as int, n as int) is None,
{
    let mut acc: Vec<RoomInfo> = Vec::new();
    let mut pos2: usize = pos;
    let mut i: u64 = 0;
    proof {
        assert(room_infos_view(acc@) =~= Seq::<RoomInfoModel>::empty());
    }
    while i < n
        invariant
            i <= n,
            spec_dec_room_infos(buf@, pos as int, n as int) == match spec_dec_room_infos(
                buf@,
                pos2 as int,
                n as int - i as int,
            ) {
                Some((s2, p2)) => Some((room_infos_view(acc@) + s2, p2)),
                None => None::<(Seq<RoomInfoModel>, int)>,
            },
        decreases n - i,
    {
        let (ri, p) = match dec_room_info(buf, pos2) {
            Some(v) => v,
            None => {
                proof {
                    assert(spec_dec_room_infos(buf@, pos2 as int, n as int - i as int) is None);
                }
                return None;
            },
        };
        let ghost acc0 = acc@;
        let ghost riv = ri@;
        acc.push(ri);
        proof {
            assert(room_infos_view(acc@) =~= room_infos_view(acc0) + seq![riv]);
            let rest = spec_dec_room_infos(buf@, p as int, n as int - i as int - 1);
            if rest is Some {
                let (s2, p2) = rest->Some_0;
                assert((room_infos_view(acc0) + seq![riv]) + s2 =~= room_infos_view(acc0) + (
                seq![riv] + s2));
            }
        }
        pos2 = p;
        i += 1;
    }
    proof {
        assert(room_infos_view(acc@) + Seq::<RoomInfoModel>::empty() =~= room_infos_view(acc@));
    }
    Some((acc, pos2))
}

/// Decode a client message at `pos`: exactly the inverse reading of
/// `spec_enc_client_msg`, or `None` where the bytes say something else.
pub fn decode_client_msg(buf: &Vec<u8>, pos: usize) -> (r: Option<(ClientMsg, usize)>)
    ensures
        r matches Some(v) ==> spec_dec_client_msg(buf@, pos as int) == Some((v.0@, v.1 as int)),
        r is None ==> spec_dec_client_msg(buf@, pos as int) is None,
{
    let (t, p) = match dec_u8(buf, pos) {
        Some(v) => v,
        None => { return None },
    };
    if t == 0 {
        let (name, p1) = match dec_str(buf, p) {
            Some(v) => v,
            None => { return None },
        };
        match dec_bool(buf, p1) {
            Some((vs_bot, p2)) => Some((ClientMsg::CreateRoom { name, vs_bot }, p2)),
            None => None,
        }
    } else if t == 1 {
        match dec_str(buf, p) {
            Some((room_id, p1)) => Some((ClientMsg::JoinRoom { room_id }, p1)),
            None => None,
        }
    } else if t == 2 {
        Some((ClientMsg::LeaveRoom, p))
    } else if t == 3 {
        match dec_action(buf, p) {
            Some((action, p1)) => Some((ClientMsg::PlayerAction { action }, p1)),
            None => None,
        }
    } else if t == 4 {
        Some((ClientMsg::ListRooms, p))
    } else {
        None
    }
}

/// Decode a server message at `pos`: exactly the inverse reading of
/// `spec_enc_server_msg`, or `None` where the bytes say something else.
pub fn decode_server_msg(buf: &Vec<u8>, pos: usize) -> (r: Option<(ServerMsg, usize)>)
    ensures
        r matches Some(v) ==> spec_dec_server_msg(buf@, pos as int) == Some((v.0@, v.1 as int)),
        r is None ==> spec_dec_server_msg(buf@, pos as int) is None,
{
    let (t, p) = match dec_u8(buf, pos) {
        Some(v) => v,
        None => { return None },
    };
    if t == 0 {
        let (n, p1) = match dec_u64(buf, p) {
            Some(v) => v,
            None => { return None },
        };
        match dec_room_infos(buf, p1, n) {
            Some((rooms, p2)) => Some((ServerMsg::RoomList { rooms }, p2)),
            None => None,
        }
    } else if t == 1 {
        let (room_id, p1) = match dec_str(buf, p) {
            Some(v) => v,
            None => { return None },
        };
        let (players, p2) = match dec_u8(buf, p1) {
            Some(v) => v,
            None => { return None },
        };
        match dec_bool(buf, p2) {
            Some((vs_bot, p3)) => Some((ServerMsg::LobbyState { room_id, players, vs_bot }, p3)),
            None => None,
        }
    } else if t == 2 {
        let (state, p1) = match decode_game_state(buf, p) {
            Some(v) => v,
            None => { return None },
        };
        match dec_turn(buf, p1) {
            Some((your_role, p2)) => Some((ServerMsg::GameStart { state, your_role }, p2)),
            None => None,
        }
    } else if t == 3 {
        match decode_game_state(buf, p) {
            Some((state, p1)) => Some((ServerMsg::GameUpdate { state }, p1)),
            None => None,
        }
    } else if t == 4 {
        match dec_str(buf, p) {
            Some((message, p1)) => Some((ServerMsg::Error { message }, p1)),
            None => None,
        }
    } else {
        None
    }
}

} // verus!
