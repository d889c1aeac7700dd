//! Placement rules: where a player may put a piece of each kind, given what
//! lies around the spot, and the random rubble the world scatters.
use vstd::prelude::*;
use crate::kinds::{Kind, ReqZone};
use crate::client::ClientMode;

verus! {

/// What lies around a spot, as far as the placement rules care: whether it
/// is within 1600 units of one of the player's castles, within 800 of one
/// of the player's real-time fighters or forts, and whether no piece at all
/// lies within 800.
#[derive(Debug, PartialEq, Eq, Structural, Clone, Copy)]
pub struct Surroundings {
    pub near_castle: bool,
    pub near_rtf: bool,
    pub near_fort: bool,
    pub clear: bool,
}

pub open spec fn zone_allows_spec(zone: ReqZone, s: Surroundings) -> bool {
    match zone {
        ReqZone::NoZone => true,
        ReqZone::WithinCastle => s.near_castle || s.near_rtf,
        ReqZone::WithinCastleOrFort => s.near_castle || s.near_fort || s.near_rtf,
        ReqZone::AwayFromThings => s.clear,
        ReqZone::Both => s.clear || s.near_castle || s.near_fort,
    }
}

/// Whether a piece with placement rule `zone` may be placed on a spot with
/// surroundings `s` for `owner`. Pieces placed for nobody (by the world or
/// by a god) go anywhere.
pub fn zone_allows(zone: ReqZone, owner: Option<usize>, s: &Surroundings) -> (r: bool)
    ensures
        r == (owner.is_none() || zone_allows_spec(zone, *s)),
{
    if owner.is_none() {
        return true;
    }
    match zone {
        ReqZone::NoZone => true,
        ReqZone::WithinCastle => s.near_castle || s.near_rtf,
        ReqZone::WithinCastleOrFort => s.near_castle || s.near_fort || s.near_rtf,
        ReqZone::AwayFromThings => s.clear,
        ReqZone::Both => s.clear || s.near_castle || s.near_fort,
    }
}

/// The kind of rubble for a draw of `chance`: one in five is a chest, the
/// rest are walls.
pub fn rubble_kind(chance: u16) -> (r: Kind)
    ensures
        r == (if chance % 100 < 20 { Kind::Chest } else { Kind::Wall }),
{
    if chance % 100 < 20 {
        Kind::Chest
    } else {
        Kind::Wall
    }
}

/// A random kind of rubble.
pub fn random_rubble_kind() -> (r: Kind)
    ensures
        r == Kind::Chest || r == Kind::Wall,
{
    rubble_kind(rand::random::<u16>())
}

/// Ticks until the next rubble: a random count from 50 to 249.
pub fn next_rubble_timer() -> (r: u32)
    ensures
        50 <= r < 250,
{
    let draw: u32 = rand::random::<u32>();
    draw % 200 + 50
}

/// Whether random rubble may fall at `(x, y)`: no castle or real-time
/// fighter lies within 400 units of it along both axes at once. `castles`
/// lists their positions in whole world units.
pub fn clear_of_castles(x: i64, y: i64, castles: &Vec<(i64, i64)>) -> (r: bool)
    requires
        -0x1000_0000_0000 <= x <= 0x1000_0000_0000,
        -0x1000_0000_0000 <= y <= 0x1000_0000_0000,
        forall|k: int| 0 <= k < castles@.len() ==> -0x1000_0000_0000 <= #[trigger] castles@[k].0 <= 0x1000_0000_0000
            && -0x1000_0000_0000 <= castles@[k].1 <= 0x1000_0000_0000,
    ensures
        r == (forall|k: int| 0 <= k < castles@.len() ==> !(-400 < #[trigger] castles@[k].0 - x < 400 && -400 < castles@[k].1 - y < 400)),
{
    let mut i: usize = 0;
    while i < castles.len()
        invariant
            i <= castles@.len(),
            -0x1000_0000_0000 <= x <= 0x1000_0000_0000,
            -0x1000_0000_0000 <= y <= 0x1000_0000_0000,
            forall|k: int| 0 <= k < castles@.len() ==> -0x1000_0000_0000 <= #[trigger] castles@[k].0 <= 0x1000_0000_0000
                && -0x1000_0000_0000 <= castles@[k].1 <= 0x1000_0000_0000,
            forall|k: int| 0 <= k < i ==> !(-400 < #[trigger] castles@[k].0 - x < 400 && -400 < castles@[k].1 - y < 400),
        decreases castles@.len() - i,
    {
        let (cx, cy) = castles[i];
        let dx = cx - x;
        let dy = cy - y;
        if -400 < dx && dx < 400 && -400 < dy && dy < 400 {
            return false;
        }
        i = i + 1;
    }
    true
}

/// What one base-9 digit of a carrier variant puts in a berth.
pub open spec fn variant_kind(w: int) -> Option<Kind> {
    if w == 1 { Some(Kind::Missile) }
    else if w == 2 { Some(Kind::BasicFighter) }
    else if w == 3 { Some(Kind::TieFighter) }
    else if w == 4 { Some(Kind::Sniper) }
    else if w == 5 { Some(Kind::Nuke) }
    else if w == 6 { Some(Kind::Turret) }
    else if w == 7 { Some(Kind::MissileLauncher) }
    else if w == 8 { Some(Kind::GoldBar) }
    else { None }
}

pub open spec fn pow9(i: nat) -> nat
    decreases i,
{
    if i == 0 { 1 } else { 9 * pow9((i - 1) as nat) }
}

/// The load of a carrier variant: berth `i` holds what digit `i` (from
/// the lowest) of `variant` in base 9 names, if anything.
pub fn carrier_variant(variant: u32) -> (r: Vec<Option<Kind>>)
    ensures
        r@.len() == 10,
        forall|i: int| 0 <= i < 10 ==> #[trigger] r@[i] == variant_kind((variant as int / pow9(i as nat) as int) % 9),
{
    let mut r: Vec<Option<Kind>> = Vec::new();
    let mut bit: u64 = 1;
    let mut i: usize = 0;
    while i < 10
        invariant
            i <= 10,
            r@.len() == i,
            bit == pow9(i as nat),
            1 <= bit <= 3_486_784_401,
            forall|k: int| 0 <= k < i ==> #[trigger] r@[k] == variant_kind((variant as int / pow9(k as nat) as int) % 9),
        decreases 10 - i,
    {
        let word = (variant as u64 / bit) % 9;
        let kind = if word == 1 { Some(Kind::Missile) }
            else if word == 2 { Some(Kind::BasicFighter) }
            else if word == 3 { Some(Kind::TieFighter) }
            else if word == 4 { Some(Kind::Sniper) }
            else if word == 5 { Some(Kind::Nuke) }
            else if word == 6 { Some(Kind::Turret) }
            else if word == 7 { Some(Kind::MissileLauncher) }
            else if word == 8 { Some(Kind::GoldBar) }
            else { None };
        r.push(kind);
        proof {
            assert(r@[i as int] == variant_kind((variant as int / pow9(i as nat) as int) % 9));
            assert(pow9((i + 1) as nat) == 9 * pow9(i as nat));
            lemma_pow9_bound(i as nat);
            lemma_pow9_bound((i + 1) as nat);
        }
        if i < 9 {
            bit = bit * 9;
        } else {
            bit = 3_486_784_401;
        }
        i = i + 1;
    }
    r
}

proof fn lemma_pow9_bound(i: nat)
    requires
        i <= 10,
    ensures
        1 <= pow9(i) <= 3_486_784_401,
        i <= 8 ==> pow9(i) <= 43_046_721,
        i == 9 ==> pow9(i) == 387_420_489,
        i == 10 ==> pow9(i) == 3_486_784_401,
    decreases i,
{
    reveal_with_fuel(pow9, 11);
    if i > 0 {
        lemma_pow9_bound((i - 1) as nat);
    }
}

/// A free piece a new castle comes with: its kind, offset from the castle
/// and heading (in microradians).
#[derive(Debug, PartialEq, Eq, Structural, Clone, Copy)]
pub struct StarterPiece {
    pub kind: Kind,
    pub dx: i64,
    pub dy: i64,
    pub angle: i64,
}

/// Half a turn, in microradians.
pub const HALF_TURN: i64 = 3_141_593;

pub open spec fn starter(kind: Kind, dx: int, dy: int, angle: int) -> StarterPiece {
    StarterPiece { kind, dx: dx as i64, dy: dy as i64, angle: angle as i64 }
}

/// What a new castle comes with, by the client's mode: the pieces placed
/// around it, the score granted, and whether an air-to-air missile is.
pub open spec fn starter_kit_spec(mode: ClientMode) -> (Seq<StarterPiece>, i32, bool) {
    match mode {
        ClientMode::Normal => (seq![
            starter(Kind::BasicFighter, -200, 0, HALF_TURN as int),
            starter(Kind::BasicFighter, 200, 0, 0),
            starter(Kind::BasicFighter, 0, -200, 0),
            starter(Kind::BasicFighter, 0, 200, 0),
        ], 100, false),
        ClientMode::RealTimeFighter => (seq![
            starter(Kind::BasicFighter, -100, 0, HALF_TURN as int),
            starter(Kind::BasicFighter, 100, 0, 0),
        ], 0, true),
        ClientMode::Defense => (seq![
            starter(Kind::BasicFighter, -200, 0, HALF_TURN as int),
            starter(Kind::BasicFighter, 200, 0, 0),
            starter(Kind::Turret, 0, -200, 0),
            starter(Kind::Turret, 0, 200, 0),
        ], 25, false),
        ClientMode::Unset => (Seq::empty(), 0, false),
    }
}

pub fn starter_kit(mode: ClientMode) -> (r: (Vec<StarterPiece>, i32, bool))
    ensures
        r.0@ == starter_kit_spec(mode).0,
        r.1 == starter_kit_spec(mode).1,
        r.2 == starter_kit_spec(mode).2,
{
    let f = Kind::BasicFighter;
    match mode {
        ClientMode::Normal => {
            let v = vec![
                StarterPiece { kind: f, dx: -200, dy: 0, angle: HALF_TURN },
                StarterPiece { kind: f, dx: 200, dy: 0, angle: 0 },
                StarterPiece { kind: f, dx: 0, dy: -200, angle: 0 },
                StarterPiece { kind: f, dx: 0, dy: 200, angle: 0 },
            ];
            assert(v@ =~= starter_kit_spec(mode).0);
            (v, 100, false)
        },
        ClientMode::RealTimeFighter => {
            let v = vec![
                StarterPiece { kind: f, dx: -100, dy: 0, angle: HALF_TURN },
                StarterPiece { kind: f, dx: 100, dy: 0, angle: 0 },
            ];
            assert(v@ =~= starter_kit_spec(mode).0);
            (v, 0, true)
        },
        ClientMode::Defense => {
            let v = vec![
                StarterPiece { kind: f, dx: -200, dy: 0, angle: HALF_TURN },
                StarterPiece { kind: f, dx: 200, dy: 0, angle: 0 },
                StarterPiece { kind: Kind::Turret, dx: 0, dy: -200, angle: 0 },
                StarterPiece { kind: Kind::Turret, dx: 0, dy: 200, angle: 0 },
            ];
            assert(v@ =~= starter_kit_spec(mode).0);
            (v, 25, false)
        },
        ClientMode::Unset => {
            let v: Vec<StarterPiece> = Vec::new();
            assert(v@ =~= starter_kit_spec(mode).0);
            (v, 0, false)
        },
    }
}

/// The kind of enemy a nexus spawns for a draw of `draw`: a missile, a
/// basic fighter, a tie fighter or a sniper, one in four each.
pub fn nexus_enemy_kind(draw: u16) -> (r: Kind)
    ensures
        r == (if draw % 4 == 0 { Kind::Missile } else if draw % 4 == 1 { Kind::BasicFighter } else if draw % 4 == 2 { Kind::TieFighter } else { Kind::Sniper }),
{
    let w = draw % 4;
    if w == 0 {
        Kind::Missile
    } else if w == 1 {
        Kind::BasicFighter
    } else if w == 2 {
        Kind::TieFighter
    } else {
        Kind::Sniper
    }
}

/// A random kind of nexus enemy.
pub fn random_nexus_enemy_kind() -> (r: Kind)
    ensures
        r == Kind::Missile || r == Kind::BasicFighter || r == Kind::TieFighter || r == Kind::Sniper,
{
    nexus_enemy_kind(rand::random::<u16>())
}

} // verus!
