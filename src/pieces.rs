//! One type per kind of piece, as the world creates them, with the small
//! per-piece counters that some kinds keep between ticks.
use vstd::prelude::*;
use crate::kinds::Kind;

verus! {

/// Relies on rand::random: a value drawn from the thread's generator.
/// Nothing is promised of the value.
pub assume_specification<T>[ rand::random::<T> ]() -> (r: T)
    where
        rand::distributions::Standard: rand::distributions::Distribution<T>,
;

pub struct BasicFighter {}

pub struct TieFighter {}

pub struct Sniper {}

pub struct Missile {}

pub struct Artillery {}

pub struct Bullet {}

pub struct AntiRTFBullet {}

pub struct Wall {}

pub struct Chest {}

pub struct Turret {}

pub struct MissileLaunchingSystem {}

pub struct Nuke {}

pub struct Block {}

pub struct GoldBar {}

pub struct Fort {}

pub struct Carrier {}

/// A castle; a real-time fighter is a castle that its owner flies.
pub struct Castle {
    pub is_rtf: bool,
}

/// A passive farmer: every `countdown` ticks it plants a seed.
pub struct GreenThumb {
    pub countdown: u16,
}

/// A seed ripens into a chest when its countdown runs out.
pub struct Seed {
    pub countdown: u16,
    pub max_countdown: u16,
}

/// An air-to-air missile locked on `target`; it spins up for `count` ticks.
pub struct Air2Air {
    pub target: u32,
    pub count: u32,
}

/// An enemy spawned by the nexus `parent`.
pub struct NexusEnemy {
    pub parent: u32,
    pub countdown: u16,
}

/// Ticks between two seeds of a green thumb.
pub const GREEN_THUMB_PERIOD: u16 = 53;

impl BasicFighter {
    pub fn new() -> (r: Self) {
        BasicFighter {  }
    }

    pub fn kind(&self) -> (r: Kind)
        ensures
            r == Kind::BasicFighter,
    {
        Kind::BasicFighter
    }
}

impl TieFighter {
    pub fn new() -> (r: Self) {
        TieFighter {  }
    }

    pub fn kind(&self) -> (r: Kind)
        ensures
            r == Kind::TieFighter,
    {
        Kind::TieFighter
    }
}

impl Sniper {
    pub fn new() -> (r: Self) {
        Sniper {  }
    }

    pub fn kind(&self) -> (r: Kind)
        ensures
            r == Kind::Sniper,
    {
        Kind::Sniper
    }
}

impl Missile {
    pub fn new() -> (r: Self) {
        Missile {  }
    }

    pub fn kind(&self) -> (r: Kind)
        ensures
            r == Kind::Missile,
    {
        Kind::Missile
    }
}

impl Artillery {
    pub fn new() -> (r: Self) {
        Artillery {  }
    }

    pub fn kind(&self) -> (r: Kind)
        ensures
            r == Kind::Artillery,
    {
        Kind::Artillery
    }
}

impl Bullet {
    pub fn new() -> (r: Self) {
        Bullet {  }
    }

    pub fn kind(&self) -> (r: Kind)
        ensures
            r == Kind::Bullet,
    {
        Kind::Bullet
    }
}

impl AntiRTFBullet {
    pub fn new() -> (r: Self) {
        AntiRTFBullet {  }
    }

    pub fn kind(&self) -> (r: Kind)
        ensures
            r == Kind::AntiRtfBullet,
    {
        Kind::AntiRtfBullet
    }
}

impl Wall {
    pub fn new() -> (r: Self) {
        Wall {  }
    }

    pub fn kind(&self) -> (r: Kind)
        ensures
            r == Kind::Wall,
    {
        Kind::Wall
    }
}

impl Chest {
    pub fn new() -> (r: Self) {
        Chest {  }
    }

    pub fn kind(&self) -> (r: Kind)
        ensures
            r == Kind::Chest,
    {
        Kind::Chest
    }
}

impl Turret {
    pub fn new() -> (r: Self) {
        Turret {  }
    }

    pub fn kind(&self) -> (r: Kind)
        ensures
            r == Kind::Turret,
    {
        Kind::Turret
    }
}

impl MissileLaunchingSystem {
    pub fn new() -> (r: Self) {
        MissileLaunchingSystem {  }
    }

    pub fn kind(&self) -> (r: Kind)
        ensures
            r == Kind::MissileLauncher,
    {
        Kind::MissileLauncher
    }
}

impl Nuke {
    pub fn new() -> (r: Self) {
        Nuke {  }
    }

    pub fn kind(&self) -> (r: Kind)
        ensures
            r == Kind::Nuke,
    {
        Kind::Nuke
    }
}

impl Block {
    pub fn new() -> (r: Self) {
        Block {  }
    }

    pub fn kind(&self) -> (r: Kind)
        ensures
            r == Kind::Block,
    {
        Kind::Block
    }
}

impl GoldBar {
    pub fn new() -> (r: Self) {
        GoldBar {  }
    }

    pub fn kind(&self) -> (r: Kind)
        ensures
            r == Kind::GoldBar,
    {
        Kind::GoldBar
    }
}

impl Fort {
    pub fn new() -> (r: Self) {
        Fort {  }
    }

    pub fn kind(&self) -> (r: Kind)
        ensures
            r == Kind::Fort,
    {
        Kind::Fort
    }
}

impl Carrier {
    pub fn new() -> (r: Self) {
        Carrier {  }
    }

    pub fn kind(&self) -> (r: Kind)
        ensures
            r == Kind::Carrier,
    {
        Kind::Carrier
    }
}

impl Castle {
    pub fn new(is_rtf: bool) -> (r: Self)
        ensures
            r.is_rtf == is_rtf,
    {
        Castle { is_rtf }
    }

    pub fn kind(&self) -> (r: Kind)
        ensures
            r == (if self.is_rtf { Kind::RtfCastle } else { Kind::Castle }),
    {
        if self.is_rtf {
            Kind::RtfCastle
        } else {
            Kind::Castle
        }
    }
}

impl GreenThumb {
    pub open spec fn wf(&self) -> bool {
        self.countdown > 0
    }

    pub fn new() -> (r: Self)
        ensures
            r.countdown == 10,
            r.wf(),
    {
        GreenThumb { countdown: 10 }
    }

    pub fn kind(&self) -> (r: Kind)
        ensures
            r == Kind::GreenThumb,
    {
        Kind::GreenThumb
    }

    /// Counts one tick down; returns whether a seed is planted now, in which
    /// case the countdown starts over.
    pub fn tick(&mut self) -> (plant: bool)
        requires
            old(self).wf(),
        ensures
            final(self).wf(),
            plant == (old(self).countdown == 1),
            final(self).countdown == (if plant { GREEN_THUMB_PERIOD } else { (old(self).countdown - 1) as u16 }),
    {
        self.countdown = self.countdown - 1;
        if self.countdown == 0 {
            self.countdown = GREEN_THUMB_PERIOD;
            true
        } else {
            false
        }
    }
}

impl Seed {
    pub open spec fn wf(&self) -> bool {
        0 < self.countdown <= self.max_countdown
    }

    /// A seed whose ripening takes between 800 and 1599 ticks, drawn at random.
    pub fn new() -> (r: Self)
        ensures
            800 <= r.countdown < 1600,
            r.max_countdown == r.countdown,
            r.wf(),
    {
        let draw: u16 = rand::random::<u16>();
        Seed::with_countdown(800 + draw % 800)
    }

    /// A seed that ripens after `countdown` ticks.
    pub fn with_countdown(countdown: u16) -> (r: Self)
        requires
            countdown > 0,
        ensures
            r.countdown == countdown,
            r.max_countdown == countdown,
            r.wf(),
    {
        Seed { countdown, max_countdown: countdown }
    }

    pub fn kind(&self) -> (r: Kind)
        ensures
            r == Kind::Seed,
    {
        Kind::Seed
    }

    /// Counts one tick down. Returns whether the seed is ripe (it then
    /// gives way to a chest) and its completion in percent of the time left.
    pub fn tick(&mut self) -> (r: (bool, u16))
        requires
            old(self).wf(),
        ensures
            final(self).max_countdown == old(self).max_countdown,
            final(self).countdown == old(self).countdown - 1,
            r.0 == (final(self).countdown == 0),
            r.1 == final(self).countdown * 100 / final(self).max_countdown as int,
            !r.0 ==> final(self).wf(),
    {
        self.countdown = self.countdown - 1;
        let pct: u32 = (self.countdown as u32 * 100) / (self.max_countdown as u32);
        proof {
            let c = self.countdown as int;
            let m = self.max_countdown as int;
            assert(c * 100 / m <= 100) by (nonlinear_arith)
                requires
                    0 <= c < m,
            ;
        }
        (self.countdown == 0, pct as u16)
    }
}

impl Air2Air {
    pub fn new(tid: u32) -> (r: Self)
        ensures
            r.target == tid,
            r.count == 5,
    {
        Air2Air { target: tid, count: 5 }
    }

    pub fn kind(&self) -> (r: Kind)
        ensures
            r == Kind::Air2Air(self.target),
    {
        Kind::Air2Air(self.target)
    }

    /// Whether the missile is still spinning up this tick (it is then held
    /// back); each such tick uses one count.
    pub fn spin_up(&mut self) -> (r: bool)
        ensures
            final(self).target == old(self).target,
            r == (old(self).count > 0),
            final(self).count == (if r { (old(self).count - 1) as u32 } else { 0 }),
    {
        if self.count > 0 {
            self.count = self.count - 1;
            true
        } else {
            false
        }
    }
}

impl NexusEnemy {
    pub fn new(parent: u32) -> (r: Self)
        ensures
            r.parent == parent,
            r.countdown == 0,
    {
        NexusEnemy { parent, countdown: 0 }
    }

    pub fn kind(&self) -> (r: Kind)
        ensures
            r == Kind::NexusEnemy(self.parent),
    {
        Kind::NexusEnemy(self.parent)
    }
}

} // verus!
