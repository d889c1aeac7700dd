//! The kinds of game pieces and the fixed facts that each kind carries:
//! its one-byte tag, price, capture reward, placement rule, which tags it
//! collides with, and the integer part of its construction defaults.
use vstd::prelude::*;

verus! {

/// Where a piece of a kind may be placed by a player.
#[derive(Debug, PartialEq, Eq, Structural, Clone, Copy)]
pub enum ReqZone {
    /// Anywhere.
    NoZone,
    /// Near one of the player's castles, real-time fighters or forts.
    WithinCastleOrFort,
    /// Near one of the player's castles or real-time fighters.
    WithinCastle,
    /// Far from every other piece.
    AwayFromThings,
    /// Either far from everything, or near a castle or fort of the player.
    Both,
}

/// Which pieces a targeting piece considers.
#[derive(Debug, PartialEq, Eq, Structural, Clone, Copy)]
pub enum TargetingFilter {
    Any,
    Fighters,
    Castles,
    RealTimeFighter,
    Farmer,
}

/// How a targeting piece picks among the pieces its filter admits.
#[derive(Debug, PartialEq, Eq, Structural, Clone, Copy)]
pub enum TargetingMode {
    NoTarget,
    Nearest,
    Id(u32),
}

/// Whether `filter` admits a piece with tag `tag`.
pub open spec fn filter_admits_spec(filter: TargetingFilter, tag: char) -> bool {
    match filter {
        TargetingFilter::Any => true,
        TargetingFilter::Fighters => tag == 'f' || tag == 'h' || tag == 'R' || tag == 't' || tag == 's'
            || tag == '&' || tag == 'C',
        TargetingFilter::Castles => tag == 'R' || tag == 'c',
        TargetingFilter::RealTimeFighter => tag == 'R',
        TargetingFilter::Farmer => tag == 'C' || tag == 'h' || tag == 'b',
    }
}

impl TargetingFilter {
    pub fn admits(&self, tag: char) -> (r: bool)
        ensures
            r == filter_admits_spec(*self, tag),
    {
        match self {
            TargetingFilter::Any => true,
            TargetingFilter::Fighters => tag == 'f' || tag == 'h' || tag == 'R' || tag == 't' || tag
                == 's' || tag == '&' || tag == 'C',
            TargetingFilter::Castles => tag == 'R' || tag == 'c',
            TargetingFilter::RealTimeFighter => tag == 'R',
            TargetingFilter::Farmer => tag == 'C' || tag == 'h' || tag == 'b',
        }
    }
}

/// Every kind of piece. `Air2Air` carries the id of its target,
/// `Radiation` the side of its square field, and `NexusEnemy` the id of
/// the nexus that spawned it.
#[derive(Debug, PartialEq, Eq, Structural, Clone, Copy)]
pub enum Kind {
    Castle,
    RtfCastle,
    BasicFighter,
    TieFighter,
    Sniper,
    Missile,
    Artillery,
    Bullet,
    AntiRtfBullet,
    Air2Air(u32),
    Turret,
    MissileLauncher,
    Nuke,
    Radiation(u32),
    Wall,
    Chest,
    Carrier,
    Fort,
    Block,
    Nexus,
    Seed,
    GreenThumb,
    GoldBar,
    NexusEnemy(u32),
}

/// Health, healing and collision damage are counted in thousandths of a
/// hit point.
pub const MILLI: u64 = 1000;

/// The integer part of what a kind's constructor sets up.
#[derive(Debug, PartialEq, Eq, Structural, Clone, Copy)]
pub struct PieceStats {
    pub max_health: u64,
    pub passive_heal: u64,
    pub damage: u64,
    pub shoots: bool,
    pub suppress: bool,
    pub reload: u32,
    pub range: i32,
    pub ttl: i32,
    pub max_repeats: u16,
    pub repeat_cd: u32,
    pub targeting: TargetingMode,
    pub filter: TargetingFilter,
    /// The farthest a target may be, in world units; 0 for no limit.
    pub target_range: u64,
    pub capacity: u32,
    pub can_update: bool,
    pub prevent_friendly_fire: bool,
    pub solid: bool,
    pub fixed: bool,
    /// Top speed in world units per tick; 0 for no limit.
    pub speed_cap: u32,
    /// Whether the piece wraps around the edges of the world.
    pub portals: bool,
    /// The angle of its one gun relative to its heading, in microradians.
    pub muzzle: i64,
    pub bullet: BulletType,
}

/// What a gun fires. A laser has an intensity (in thousandths) and a
/// reach; a mortar a blast size, a delay and a reach.
#[derive(Debug, PartialEq, Eq, Structural, Clone, Copy)]
pub enum BulletType {
    Bullet,
    AntiRtf,
    Laser(u32, u32),
    Mortar(u32, u32, u32),
}

/// A radiation field left behind on death: its side in world units, its
/// half-life in thousandths of a tick and its strength in thousandths.
#[derive(Debug, PartialEq, Eq, Structural, Clone, Copy)]
pub struct Explosion {
    pub size: u32,
    pub halflife: u32,
    pub strength: u32,
}

/// What every piece starts with before its kind adjusts it.
pub open spec fn base_stats() -> PieceStats {
    PieceStats {
        max_health: 2000,
        passive_heal: 0,
        damage: 1000,
        shoots: false,
        suppress: false,
        reload: 0,
        range: 30,
        ttl: -1i32,
        max_repeats: 0,
        repeat_cd: 5,
        targeting: TargetingMode::NoTarget,
        filter: TargetingFilter::Any,
        target_range: 0,
        capacity: 0,
        can_update: false,
        prevent_friendly_fire: false,
        solid: false,
        fixed: false,
        speed_cap: 0,
        portals: false,
        muzzle: 0,
        bullet: BulletType::Bullet,
    }
}

/// The kinds a carrier takes on board.
pub open spec fn carrier_accepts() -> Seq<char> {
    seq!['f', 'h', 's', 't', 'T', 'n', 'm']
}

impl Kind {
    pub open spec fn tag_spec(self) -> char {
        match self {
            Kind::Castle => 'c',
            Kind::RtfCastle => 'R',
            Kind::BasicFighter => 'f',
            Kind::TieFighter => 't',
            Kind::Sniper => 's',
            Kind::Missile => 'h',
            Kind::Artillery => 'A',
            Kind::Bullet => 'b',
            Kind::AntiRtfBullet => 'a',
            Kind::Air2Air(_) => 'a',
            Kind::Turret => 'T',
            Kind::MissileLauncher => 'm',
            Kind::Nuke => 'n',
            Kind::Radiation(_) => 'r',
            Kind::Wall => 'w',
            Kind::Chest => 'C',
            Kind::Carrier => 'K',
            Kind::Fort => 'F',
            Kind::Block => 'B',
            Kind::Nexus => 'N',
            Kind::Seed => 'S',
            Kind::GreenThumb => 'G',
            Kind::GoldBar => 'g',
            Kind::NexusEnemy(_) => '&',
        }
    }

    /// The one-byte tag that names the kind on the wire.
    pub fn identify(&self) -> (r: char)
        ensures
            r == self.tag_spec(),
    {
        match self {
            Kind::Castle => 'c',
            Kind::RtfCastle => 'R',
            Kind::BasicFighter => 'f',
            Kind::TieFighter => 't',
            Kind::Sniper => 's',
            Kind::Missile => 'h',
            Kind::Artillery => 'A',
            Kind::Bullet => 'b',
            Kind::AntiRtfBullet => 'a',
            Kind::Air2Air(_) => 'a',
            Kind::Turret => 'T',
            Kind::MissileLauncher => 'm',
            Kind::Nuke => 'n',
            Kind::Radiation(_) => 'r',
            Kind::Wall => 'w',
            Kind::Chest => 'C',
            Kind::Carrier => 'K',
            Kind::Fort => 'F',
            Kind::Block => 'B',
            Kind::Nexus => 'N',
            Kind::Seed => 'S',
            Kind::GreenThumb => 'G',
            Kind::GoldBar => 'g',
            Kind::NexusEnemy(_) => '&',
        }
    }

    pub open spec fn cost_spec(self) -> int {
        match self {
            Kind::BasicFighter => 10,
            Kind::TieFighter => 20,
            Kind::Sniper => 30,
            Kind::Missile => 5,
            Kind::Artillery => 50,
            Kind::AntiRtfBullet => 7,
            Kind::Turret => 100,
            Kind::MissileLauncher => 100,
            Kind::Nuke => 300,
            Kind::Carrier => 80,
            Kind::Fort => 120,
            Kind::Seed => 10,
            Kind::GreenThumb => 1000,
            Kind::GoldBar => 100,
            _ => 0,
        }
    }

    /// The price a player pays to place a piece of this kind.
    pub fn cost(&self) -> (r: i32)
        ensures
            r == self.cost_spec(),
    {
        match self {
            Kind::BasicFighter => 10,
            Kind::TieFighter => 20,
            Kind::Sniper => 30,
            Kind::Missile => 5,
            Kind::Artillery => 50,
            Kind::AntiRtfBullet => 7,
            Kind::Turret => 100,
            Kind::MissileLauncher => 100,
            Kind::Nuke => 300,
            Kind::Carrier => 80,
            Kind::Fort => 120,
            Kind::Seed => 10,
            Kind::GreenThumb => 1000,
            Kind::GoldBar => 100,
            _ => 0,
        }
    }

    /// The reward for destroying a piece of this kind: a few kinds name
    /// their own, the rest pay one and a half times their price, at most 75.
    pub open spec fn capture_spec(self) -> int {
        match self {
            Kind::Castle | Kind::RtfCastle => 150,
            Kind::GoldBar => 100,
            Kind::GreenThumb => 500,
            Kind::Chest => 50,
            _ => if self.cost_spec() * 3 / 2 < 75 {
                self.cost_spec() * 3 / 2
            } else {
                75
            },
        }
    }

    pub fn capture(&self) -> (r: u32)
        ensures
            r == self.capture_spec(),
    {
        match self {
            Kind::Castle | Kind::RtfCastle => 150,
            Kind::GoldBar => 100,
            Kind::GreenThumb => 500,
            Kind::Chest => 50,
            _ => {
                let c = self.cost();
                let v: i32 = c * 3 / 2;
                if v < 75 {
                    v as u32
                } else {
                    75
                }
            },
        }
    }

    pub open spec fn req_zone_spec(self) -> ReqZone {
        match self {
            Kind::Castle | Kind::RtfCastle => ReqZone::AwayFromThings,
            Kind::Fort => ReqZone::Both,
            Kind::Air2Air(_) => ReqZone::NoZone,
            Kind::Wall | Kind::Seed | Kind::Turret | Kind::MissileLauncher => ReqZone::WithinCastleOrFort,
            _ => ReqZone::WithinCastle,
        }
    }

    pub fn req_zone(&self) -> (r: ReqZone)
        ensures
            r == self.req_zone_spec(),
    {
        match self {
            Kind::Castle | Kind::RtfCastle => ReqZone::AwayFromThings,
            Kind::Fort => ReqZone::Both,
            Kind::Air2Air(_) => ReqZone::NoZone,
            Kind::Wall | Kind::Seed | Kind::Turret | Kind::MissileLauncher => ReqZone::WithinCastleOrFort,
            _ => ReqZone::WithinCastle,
        }
    }

    /// Whether a piece of this kind takes damage from (and is pushed by) a
    /// piece with tag `other`.
    pub open spec fn collides_spec(self, other: char) -> bool {
        match self {
            Kind::BasicFighter | Kind::TieFighter | Kind::Sniper | Kind::Artillery => other != 'c',
            Kind::RtfCastle => other != 'c',
            Kind::Castle => other == 'b' || other == 'r' || other == 'h',
            Kind::Wall => other != 'c' && other != 'F' && other != 'B' && other != 'N' && other != 'w',
            Kind::Chest => other != 'c' && other != 'F' && other != 'B' && other != 'S',
            Kind::Radiation(_) => false,
            Kind::Nexus => other != 'w',
            _ => true,
        }
    }

    pub fn get_does_collide(&self, other: char) -> (r: bool)
        ensures
            r == self.collides_spec(other),
    {
        match self {
            Kind::BasicFighter | Kind::TieFighter | Kind::Sniper | Kind::Artillery => other != 'c',
            Kind::RtfCastle => other != 'c',
            Kind::Castle => other == 'b' || other == 'r' || other == 'h',
            Kind::Wall => other != 'c' && other != 'F' && other != 'B' && other != 'N' && other
                != 'w',
            Kind::Chest => other != 'c' && other != 'F' && other != 'B' && other != 'S',
            Kind::Radiation(_) => false,
            Kind::Nexus => other != 'w',
            _ => true,
        }
    }

    pub open spec fn editable_spec(self) -> bool {
        match self {
            Kind::BasicFighter | Kind::TieFighter | Kind::Sniper | Kind::Missile | Kind::Artillery
            | Kind::Carrier | Kind::Nuke => true,
            _ => false,
        }
    }

    /// Whether the owner may steer a piece of this kind.
    pub fn is_editable(&self) -> (r: bool)
        ensures
            r == self.editable_spec(),
    {
        match self {
            Kind::BasicFighter | Kind::TieFighter | Kind::Sniper | Kind::Missile | Kind::Artillery
            | Kind::Carrier | Kind::Nuke => true,
            _ => false,
        }
    }

    /// Whether destroying a piece of this kind earns the killer an
    /// air-to-air missile.
    pub fn does_grant_a2a(&self) -> (r: bool)
        ensures
            r == (*self == Kind::Wall),
    {
        match self {
            Kind::Wall => true,
            _ => false,
        }
    }

    /// Whether the health of a piece of this kind is streamed to clients.
    pub fn do_stream_health(&self) -> (r: bool)
        ensures
            r == (*self == Kind::Castle || *self == Kind::RtfCastle),
    {
        match self {
            Kind::Castle | Kind::RtfCastle => true,
            _ => false,
        }
    }
}


impl Kind {
    /// The integer part of the construction defaults of the kind.
    pub open spec fn stats_spec(self) -> PieceStats {
        match self {
            Kind::Castle => PieceStats { max_health: 3000, ..base_stats() },
            Kind::RtfCastle => PieceStats { max_health: 3000, passive_heal: 2, shoots: true, suppress: true, reload: 15, speed_cap: 20, portals: true, muzzle: -1_570_796i64, ..base_stats() },
            Kind::BasicFighter => PieceStats { shoots: true, reload: 30, ..base_stats() },
            Kind::TieFighter => PieceStats { shoots: true, reload: 40, max_repeats: 1, ..base_stats() },
            Kind::Sniper => PieceStats { shoots: true, reload: 80, range: 90, ..base_stats() },
            Kind::Missile => PieceStats { max_health: 500, damage: 500, ..base_stats() },
            Kind::Artillery => PieceStats { shoots: true, reload: 100, range: 120, bullet: BulletType::Mortar(200, 0, 600), ..base_stats() },
            Kind::Bullet => PieceStats { max_health: 1000, ttl: 30, ..base_stats() },
            Kind::AntiRtfBullet => PieceStats { max_health: 1000, damage: 5000, targeting: TargetingMode::Nearest, filter: TargetingFilter::RealTimeFighter, target_range: 5000, ..base_stats() },
            Kind::Air2Air(t) => PieceStats { max_health: 1000, damage: 5000, ttl: 300, targeting: TargetingMode::Id(t), target_range: 5000, ..base_stats() },
            Kind::Turret => PieceStats { shoots: true, reload: 30, targeting: TargetingMode::Nearest, filter: TargetingFilter::Fighters, target_range: 500, can_update: true, ..base_stats() },
            Kind::MissileLauncher => PieceStats { shoots: true, reload: 150, range: 1000, damage: 5000, targeting: TargetingMode::Nearest, filter: TargetingFilter::RealTimeFighter, target_range: 1000, can_update: true, bullet: BulletType::AntiRtf, ..base_stats() },
            Kind::Nuke => PieceStats { damage: 0, ttl: 500, ..base_stats() },
            Kind::Wall => PieceStats { max_health: 5000, ttl: 2400, ..base_stats() },
            Kind::Chest => PieceStats { max_health: 2000, ttl: 4800, ..base_stats() },
            Kind::Carrier => PieceStats { max_health: 1000, passive_heal: 20, capacity: 10, prevent_friendly_fire: true, speed_cap: 12, ..base_stats() },
            Kind::Block => PieceStats { max_health: 1000000, damage: 0, solid: true, fixed: true, ..base_stats() },
            Kind::Nexus => PieceStats { max_health: 3000, ..base_stats() },
            Kind::Seed => PieceStats { max_health: 1000, ..base_stats() },
            Kind::GoldBar => PieceStats { max_health: 10, damage: 0, ..base_stats() },
            Kind::NexusEnemy(p) => PieceStats { max_health: 1000, damage: 3000, targeting: TargetingMode::Id(p), ..base_stats() },
            _ => base_stats(),
        }
    }

    pub fn stats(&self) -> (r: PieceStats)
        ensures
            r == self.stats_spec(),
    {
        let b = base();
        match *self {
            Kind::Castle => PieceStats { max_health: 3000, ..b },
            Kind::RtfCastle => PieceStats { max_health: 3000, passive_heal: 2, shoots: true, suppress: true, reload: 15, speed_cap: 20, portals: true, muzzle: -1_570_796, ..b },
            Kind::BasicFighter => PieceStats { shoots: true, reload: 30, ..b },
            Kind::TieFighter => PieceStats { shoots: true, reload: 40, max_repeats: 1, ..b },
            Kind::Sniper => PieceStats { shoots: true, reload: 80, range: 90, ..b },
            Kind::Missile => PieceStats { max_health: 500, damage: 500, ..b },
            Kind::Artillery => PieceStats { shoots: true, reload: 100, range: 120, bullet: BulletType::Mortar(200, 0, 600), ..b },
            Kind::Bullet => PieceStats { max_health: 1000, ttl: 30, ..b },
            Kind::AntiRtfBullet => PieceStats { max_health: 1000, damage: 5000, targeting: TargetingMode::Nearest, filter: TargetingFilter::RealTimeFighter, target_range: 5000, ..b },
            Kind::Air2Air(t) => PieceStats { max_health: 1000, damage: 5000, ttl: 300, targeting: TargetingMode::Id(t), target_range: 5000, ..b },
            Kind::Turret => PieceStats { shoots: true, reload: 30, targeting: TargetingMode::Nearest, filter: TargetingFilter::Fighters, target_range: 500, can_update: true, ..b },
            Kind::MissileLauncher => PieceStats { shoots: true, reload: 150, range: 1000, damage: 5000, targeting: TargetingMode::Nearest, filter: TargetingFilter::RealTimeFighter, target_range: 1000, can_update: true, bullet: BulletType::AntiRtf, ..b },
            Kind::Nuke => PieceStats { damage: 0, ttl: 500, ..b },
            Kind::Wall => PieceStats { max_health: 5000, ttl: 2400, ..b },
            Kind::Chest => PieceStats { max_health: 2000, ttl: 4800, ..b },
            Kind::Carrier => PieceStats { max_health: 1000, passive_heal: 20, capacity: 10, prevent_friendly_fire: true, speed_cap: 12, ..b },
            Kind::Block => PieceStats { max_health: 1000000, damage: 0, solid: true, fixed: true, ..b },
            Kind::Nexus => PieceStats { max_health: 3000, ..b },
            Kind::Seed => PieceStats { max_health: 1000, ..b },
            Kind::GoldBar => PieceStats { max_health: 10, damage: 0, ..b },
            Kind::NexusEnemy(p) => PieceStats { max_health: 1000, damage: 3000, targeting: TargetingMode::Id(p), ..b },
            _ => b,
        }
    }

    /// The tags a piece of this kind carries on board: none but for a carrier.
    pub fn accepts(&self) -> (r: Vec<char>)
        ensures
            r@ == (if *self == Kind::Carrier { carrier_accepts() } else { Seq::<char>::empty() }),
    {
        match self {
            Kind::Carrier => {
                let v = vec!['f', 'h', 's', 't', 'T', 'n', 'm'];
                assert(v@ =~= carrier_accepts());
                v
            },
            _ => Vec::new(),
        }
    }
}

fn base() -> (r: PieceStats)
    ensures
        r == base_stats(),
{
    PieceStats {
        max_health: 2000,
        passive_heal: 0,
        damage: 1000,
        shoots: false,
        suppress: false,
        reload: 0,
        range: 30,
        ttl: -1,
        max_repeats: 0,
        repeat_cd: 5,
        targeting: TargetingMode::NoTarget,
        filter: TargetingFilter::Any,
        target_range: 0,
        capacity: 0,
        can_update: false,
        prevent_friendly_fire: false,
        solid: false,
        fixed: false,
        speed_cap: 0,
        portals: false,
        muzzle: 0,
        bullet: BulletType::Bullet,
    }
}


impl Kind {
    /// Width and height of a piece of this kind, in world units.
    pub open spec fn size_spec(self) -> (i64, i64) {
        match self {
            Kind::Castle => (50, 50),
            Kind::RtfCastle => (18, 80),
            Kind::BasicFighter => (48, 36),
            Kind::TieFighter => (32, 36),
            Kind::Sniper => (72, 20),
            Kind::Missile => (48, 20),
            Kind::Artillery => (20, 50),
            Kind::Bullet => (10, 10),
            Kind::AntiRtfBullet => (30, 10),
            Kind::Air2Air(_) => (30, 10),
            Kind::Turret => (48, 22),
            Kind::MissileLauncher => (48, 22),
            Kind::Nuke => (36, 36),
            Kind::Radiation(side) => (side as i64, side as i64),
            Kind::Wall => (60, 60),
            Kind::Chest => (30, 30),
            Kind::Carrier => (400, 160),
            Kind::Fort => (10, 10),
            Kind::Block => (300, 300),
            Kind::Nexus => (60, 60),
            Kind::Seed => (10, 10),
            Kind::GreenThumb => (20, 10),
            Kind::GoldBar => (50, 30),
            Kind::NexusEnemy(_) => (48, 20),
        }
    }

    pub fn size(&self) -> (r: (i64, i64))
        ensures
            r == self.size_spec(),
    {
        match *self {
            Kind::Castle => (50, 50),
            Kind::RtfCastle => (18, 80),
            Kind::BasicFighter => (48, 36),
            Kind::TieFighter => (32, 36),
            Kind::Sniper => (72, 20),
            Kind::Missile => (48, 20),
            Kind::Artillery => (20, 50),
            Kind::Bullet => (10, 10),
            Kind::AntiRtfBullet => (30, 10),
            Kind::Air2Air(_) => (30, 10),
            Kind::Turret => (48, 22),
            Kind::MissileLauncher => (48, 22),
            Kind::Nuke => (36, 36),
            Kind::Radiation(side) => (side as i64, side as i64),
            Kind::Wall => (60, 60),
            Kind::Chest => (30, 30),
            Kind::Carrier => (400, 160),
            Kind::Fort => (10, 10),
            Kind::Block => (300, 300),
            Kind::Nexus => (60, 60),
            Kind::Seed => (10, 10),
            Kind::GreenThumb => (20, 10),
            Kind::GoldBar => (50, 30),
            Kind::NexusEnemy(_) => (48, 20),
        }
    }

    /// The radiation fields a piece of this kind leaves when it dies: three
    /// nested rings for a nuke, one for a missile, none otherwise.
    pub open spec fn exploder_spec(self) -> Seq<Explosion> {
        match self {
            Kind::Nuke => seq![
                Explosion { size: 200, halflife: 60_000, strength: 300 },
                Explosion { size: 1500, halflife: 250_000, strength: 300 },
                Explosion { size: 6000, halflife: 700_000, strength: 300 },
            ],
            Kind::Missile => seq![Explosion { size: 100, halflife: 1500, strength: 400_000 }],
            _ => Seq::empty(),
        }
    }

    pub fn exploder(&self) -> (r: Vec<Explosion>)
        ensures
            r@ == self.exploder_spec(),
    {
        match self {
            Kind::Nuke => {
                let v = vec![
                    Explosion { size: 200, halflife: 60_000, strength: 300 },
                    Explosion { size: 1500, halflife: 250_000, strength: 300 },
                    Explosion { size: 6000, halflife: 700_000, strength: 300 },
                ];
                assert(v@ =~= self.exploder_spec());
                v
            },
            Kind::Missile => {
                let v = vec![Explosion { size: 100, halflife: 1500, strength: 400_000 }];
                assert(v@ =~= self.exploder_spec());
                v
            },
            _ => Vec::new(),
        }
    }
}

} // verus!
