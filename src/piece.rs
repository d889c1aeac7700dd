//! The record the world keeps for every live piece: owner, id, kind,
//! health (in thousandths), gun timers, time to live, carrier state, forts,
//! zones and upgrades; and what one tick does to its counters.
use vstd::prelude::*;
use crate::kinds::{Kind, TargetingMode, TargetingFilter, PieceStats, BulletType, Explosion};
use crate::carrier::CarrierProperties;

verus! {

/// Health never sinks below minus this much: a piece this far gone is dead
/// whatever else happens to it.
pub const HEALTH_FLOOR: i64 = 1_000_000_000_000;

/// Bound on maximum health and healing, in thousandths.
pub const HEALTH_CAP: i64 = 1_000_000_000;

/// The most upgrades one piece holds.
pub const MAX_UPGRADES: usize = 64;

/// An upgrade bought for a piece: tier `tier` (from 1) of track `track`.
#[derive(Debug, PartialEq, Eq, Structural, Clone, Copy)]
pub struct Upgrade {
    pub track: char,
    pub tier: usize,
}

/// The burst-fire state of a gun: `repeats` shots left in this burst, out
/// of `max_repeats`, `repeat_cd` ticks apart.
#[derive(Debug, PartialEq, Eq, Structural, Clone, Copy)]
pub struct RepeaterProperties {
    pub repeats: u16,
    pub max_repeats: u16,
    pub repeat_cd: u32,
}

pub struct GamePieceBase {
    pub banner: usize,
    pub id: u32,
    pub kind: Kind,
    pub health: i64,
    pub max_health: i64,
    pub passive_heal: i64,
    pub damage: i64,
    pub worthit: bool,
    pub ttl: i32,
    pub shoot_timer: u32,
    pub shoots: bool,
    pub suppress: bool,
    pub reload: u32,
    pub range: i32,
    pub repeater: RepeaterProperties,
    pub targeting: TargetingMode,
    pub filter: TargetingFilter,
    pub target_range: u64,
    pub speed_cap: u32,
    pub portals: bool,
    pub muzzle: i64,
    pub bullet: BulletType,
    pub solid: bool,
    pub fixed: bool,
    pub exploder: Vec<Explosion>,
    pub carrier: CarrierProperties,
    pub forts: Vec<u32>,
    pub upgrades: Vec<Upgrade>,
    pub zones: Vec<usize>,
    pub death_subscriptions: Vec<u32>,
}

impl GamePieceBase {
    pub open spec fn wf(&self) -> bool {
        &&& 0 < self.max_health <= HEALTH_CAP
        &&& 0 <= self.passive_heal <= HEALTH_CAP
        &&& -HEALTH_FLOOR <= self.health <= HEALTH_CAP
        &&& 0 <= self.damage <= HEALTH_CAP
        &&& self.upgrades@.len() <= MAX_UPGRADES
    }

    /// Health is within its bounds: not below zero, not above the maximum.
    pub open spec fn healthy(&self) -> bool {
        0 <= self.health <= self.max_health
    }

    pub open spec fn dead_spec(&self) -> bool {
        self.health <= 0 && self.forts@.len() == 0
    }

    /// A new piece of kind `kind` at full health, owned by the system, with
    /// id 0 until the world gives it one.
    pub fn new(kind: Kind) -> (r: Self)
        ensures
            r.wf(),
            r.kind == kind,
            r.banner == 0,
            r.id == 0,
            r.max_health == kind.stats_spec().max_health,
            r.health == r.max_health,
            r.passive_heal == kind.stats_spec().passive_heal,
            r.damage == kind.stats_spec().damage,
            r.worthit,
            r.ttl == kind.stats_spec().ttl,
            r.shoot_timer == 20,
            r.shoots == kind.stats_spec().shoots,
            r.suppress == kind.stats_spec().suppress,
            r.reload == kind.stats_spec().reload,
            r.range == kind.stats_spec().range,
            r.repeater == (RepeaterProperties {
                repeats: kind.stats_spec().max_repeats,
                max_repeats: kind.stats_spec().max_repeats,
                repeat_cd: kind.stats_spec().repeat_cd,
            }),
            r.targeting == kind.stats_spec().targeting,
            r.filter == kind.stats_spec().filter,
            r.target_range == kind.stats_spec().target_range,
            r.speed_cap == kind.stats_spec().speed_cap,
            r.portals == kind.stats_spec().portals,
            r.muzzle == kind.stats_spec().muzzle,
            r.bullet == kind.stats_spec().bullet,
            r.solid == kind.stats_spec().solid,
            r.fixed == kind.stats_spec().fixed,
            r.exploder@ == kind.exploder_spec(),
            r.carrier.space_remaining == kind.stats_spec().capacity,
            r.carrier.carrying@.len() == 0,
            r.carrier.does_accept@ == (if kind == Kind::Carrier { crate::kinds::carrier_accepts() } else { Seq::<char>::empty() }),
            r.carrier.can_update == kind.stats_spec().can_update,
            !r.carrier.is_carried,
            r.forts@.len() == 0,
            r.upgrades@.len() == 0,
            r.zones@.len() == 0,
            r.death_subscriptions@.len() == 0,
    {
        let s: PieceStats = kind.stats();
        let mut carrier = CarrierProperties::empty();
        carrier.space_remaining = s.capacity;
        carrier.does_accept = kind.accepts();
        carrier.can_update = s.can_update;
        GamePieceBase {
            banner: 0,
            id: 0,
            kind,
            health: s.max_health as i64,
            max_health: s.max_health as i64,
            passive_heal: s.passive_heal as i64,
            damage: s.damage as i64,
            worthit: true,
            ttl: s.ttl,
            shoot_timer: 20,
            shoots: s.shoots,
            suppress: s.suppress,
            reload: s.reload,
            range: s.range,
            repeater: RepeaterProperties {
                repeats: s.max_repeats,
                max_repeats: s.max_repeats,
                repeat_cd: s.repeat_cd,
            },
            targeting: s.targeting,
            filter: s.filter,
            target_range: s.target_range,
            speed_cap: s.speed_cap,
            portals: s.portals,
            muzzle: s.muzzle,
            bullet: s.bullet,
            solid: s.solid,
            fixed: s.fixed,
            exploder: kind.exploder(),
            carrier,
            forts: Vec::new(),
            upgrades: Vec::new(),
            zones: Vec::new(),
            death_subscriptions: Vec::new(),
        }
    }

    pub fn identify(&self) -> (r: char)
        ensures
            r == self.kind.tag_spec(),
    {
        self.kind.identify()
    }

    pub fn get_id(&self) -> (r: u32)
        ensures
            r == self.id,
    {
        self.id
    }

    pub fn set_id(&mut self, id: u32)
        ensures
            *final(self) == (GamePieceBase { id, ..*old(self) }),
    {
        self.id = id;
    }

    pub fn get_banner(&self) -> (r: usize)
        ensures
            r == self.banner,
    {
        self.banner
    }

    pub fn set_banner(&mut self, banner: usize)
        ensures
            *final(self) == (GamePieceBase { banner, ..*old(self) }),
    {
        self.banner = banner;
    }

    pub fn health(&self) -> (r: i64)
        ensures
            r == self.health,
    {
        self.health
    }

    pub fn get_max_health(&self) -> (r: i64)
        ensures
            r == self.max_health,
    {
        self.max_health
    }

    /// Takes `harm` thousandths of damage.
    pub fn damage(&mut self, harm: i64)
        requires
            old(self).wf(),
            0 <= harm <= HEALTH_CAP,
        ensures
            final(self).wf(),
            final(self).health == (if old(self).health - harm < -HEALTH_FLOOR { -HEALTH_FLOOR } else { old(self).health - harm }),
            *final(self) == (GamePieceBase { health: final(self).health, ..*old(self) }),
    {
        let h = self.health - harm;
        self.health = if h < -HEALTH_FLOOR {
            -HEALTH_FLOOR
        } else {
            h
        };
    }

    /// Brings health to zero.
    pub fn murder(&mut self)
        ensures
            *final(self) == (GamePieceBase { health: 0, ..*old(self) }),
    {
        self.health = 0;
    }

    /// Dead: no health left and no fort to fall back on.
    pub fn dead(&self) -> (r: bool)
        ensures
            r == self.dead_spec(),
    {
        self.health <= 0 && self.forts.len() == 0
    }

    pub fn does_give_score(&self) -> (r: bool)
        ensures
            r == self.worthit,
    {
        self.worthit
    }

    pub fn is_editable(&self) -> (r: bool)
        ensures
            r == self.kind.editable_spec(),
    {
        self.kind.is_editable()
    }

    pub fn does_grant_a2a(&self) -> (r: bool)
        ensures
            r == (self.kind == Kind::Wall),
    {
        self.kind.does_grant_a2a()
    }

    pub fn get_does_collide(&self, other: char) -> (r: bool)
        ensures
            r == self.kind.collides_spec(other),
    {
        self.kind.get_does_collide(other)
    }

    pub fn cost(&self) -> (r: i32)
        ensures
            r == self.kind.cost_spec(),
    {
        self.kind.cost()
    }

    pub fn capture(&self) -> (r: u32)
        ensures
            r == self.kind.capture_spec(),
    {
        self.kind.capture()
    }

    /// Asks to be told when the piece `other` dies.
    pub fn death_subscribe(&mut self, other: u32)
        ensures
            final(self).death_subscriptions@ == old(self).death_subscriptions@.push(other),
            *final(self) == (GamePieceBase { death_subscriptions: final(self).death_subscriptions, ..*old(self) }),
    {
        self.death_subscriptions.push(other);
    }

    /// Adds the fort `fortid` as an extra life.
    pub fn add_fort(&mut self, fortid: u32)
        ensures
            final(self).forts@ == old(self).forts@.push(fortid),
            *final(self) == (GamePieceBase { forts: final(self).forts, ..*old(self) }),
    {
        self.forts.push(fortid);
    }

    /// One tick of the counters kept by every piece, in this order: passive
    /// healing up to the maximum (and never above it), the gun, and the time
    /// to live (which, run out, brings health to zero). Returns whether the
    /// gun fires now.
    ///
    /// A gun that shoots counts down to zero while suppressed; otherwise at
    /// zero it fires and reloads, a burst with shots left using up one of
    /// them and waiting only the burst's cooldown, and an exhausted burst
    /// being refilled.
    pub fn tick_vitals(&mut self) -> (fire: bool)
        requires
            old(self).wf(),
        ensures
            final(self).wf(),
            vitals_step(*old(self), *final(self), fire),
            old(self).health > 0 ==> final(self).healthy(),
            final(self).health <= final(self).max_health,
    {
        if self.health < self.max_health {
            self.health = self.health + self.passive_heal;
        }
        if self.health > self.max_health {
            self.health = self.max_health;
        }
        let mut fire = false;
        if self.shoots {
            if self.suppress {
                if self.shoot_timer > 0 {
                    self.shoot_timer = self.shoot_timer - 1;
                }
            } else {
                if self.shoot_timer == 0 {
                    self.shoot_timer = self.reload;
                    fire = true;
                    if self.repeater.repeats > 0 {
                        self.repeater.repeats = self.repeater.repeats - 1;
                        self.shoot_timer = self.repeater.repeat_cd;
                    } else {
                        self.repeater.repeats = self.repeater.max_repeats;
                    }
                } else {
                    self.shoot_timer = self.shoot_timer - 1;
                }
            }
        }
        if self.ttl > 0 {
            self.ttl = self.ttl - 1;
        } else if self.ttl == 0 {
            self.health = 0;
        }
        fire
    }
}

/// Health after passive healing.
pub open spec fn healed(p: GamePieceBase) -> i64 {
    let h: int = if p.health < p.max_health {
        p.health + p.passive_heal
    } else {
        p.health as int
    };
    if h > p.max_health {
        p.max_health
    } else {
        h as i64
    }
}

/// The gun's timer, burst and whether it fires, after one tick.
pub open spec fn gun_step(p: GamePieceBase) -> (u32, RepeaterProperties, bool) {
    if !p.shoots {
        (p.shoot_timer, p.repeater, false)
    } else if p.suppress {
        (if p.shoot_timer > 0 { (p.shoot_timer - 1) as u32 } else { 0u32 }, p.repeater, false)
    } else if p.shoot_timer == 0 {
        if p.repeater.repeats > 0 {
            (
                p.repeater.repeat_cd,
                RepeaterProperties { repeats: (p.repeater.repeats - 1) as u16, ..p.repeater },
                true,
            )
        } else {
            (p.reload, RepeaterProperties { repeats: p.repeater.max_repeats, ..p.repeater }, true)
        }
    } else {
        ((p.shoot_timer - 1) as u32, p.repeater, false)
    }
}

/// `post` is `pre` after one tick of its counters, and `fire` tells whether
/// its gun fired.
pub open spec fn vitals_step(pre: GamePieceBase, post: GamePieceBase, fire: bool) -> bool {
    let g = gun_step(pre);
    &&& post == GamePieceBase {
        health: if pre.ttl == 0 { 0 } else { healed(pre) },
        ttl: if pre.ttl > 0 { (pre.ttl - 1) as i32 } else { pre.ttl },
        shoot_timer: g.0,
        repeater: g.1,
        ..pre
    }
    &&& fire == g.2
}

/// What an upgrade changes in a castle. The gun track 'b' shortens the
/// reload, adds a second shot to each burst, lengthens the range, and
/// finally trades the burst for a fast high-intensity laser; the drive
/// track 'f' raises the top speed to 30, then 50; the health track 'h'
/// alternately raises the healing and the maximum. Other tracks and other
/// kinds change nothing kept here.
pub open spec fn upgrade_effect(p: GamePieceBase, u: Upgrade) -> GamePieceBase {
    if p.kind != Kind::Castle && p.kind != Kind::RtfCastle {
        p
    } else if u.track == 'b' && u.tier == 1 {
        GamePieceBase { reload: 12, ..p }
    } else if u.track == 'b' && u.tier == 2 {
        GamePieceBase { repeater: RepeaterProperties { max_repeats: 1, repeat_cd: 1, ..p.repeater }, ..p }
    } else if u.track == 'b' && u.tier == 3 {
        GamePieceBase { range: 80, ..p }
    } else if u.track == 'b' && u.tier == 4 {
        GamePieceBase { reload: 10, bullet: BulletType::Laser(3000, 5000), repeater: RepeaterProperties { max_repeats: 0, ..p.repeater }, ..p }
    } else if u.track == 'f' && u.tier == 1 {
        GamePieceBase { speed_cap: 30, ..p }
    } else if u.track == 'f' && u.tier == 2 {
        GamePieceBase { speed_cap: 50, ..p }
    } else if u.track == 'h' && u.tier == 1 {
        GamePieceBase { passive_heal: 5, ..p }
    } else if u.track == 'h' && u.tier == 2 {
        GamePieceBase { max_health: 5000, ..p }
    } else if u.track == 'h' && u.tier == 3 {
        GamePieceBase { passive_heal: 10, ..p }
    } else if u.track == 'h' && u.tier == 4 {
        GamePieceBase { max_health: 8000, ..p }
    } else {
        p
    }
}

/// Whether `ups` holds tier `tier` of `track`.
pub open spec fn has_upgrade(ups: Seq<Upgrade>, track: char, tier: int) -> bool {
    exists|i: int| 0 <= i < ups.len() && ups[i].track == track && ups[i].tier == tier
}

impl GamePieceBase {
    /// Applies upgrade `u` and records it.
    pub fn upgrade(&mut self, u: Upgrade)
        requires
            old(self).wf(),
            old(self).upgrades@.len() < MAX_UPGRADES,
        ensures
            final(self).wf(),
            *final(self) == (GamePieceBase { upgrades: final(self).upgrades, ..upgrade_effect(*old(self), u) }),
            final(self).upgrades@ == old(self).upgrades@.push(u),
    {
        let castle = match self.kind {
            Kind::Castle | Kind::RtfCastle => true,
            _ => false,
        };
        if castle {
            if u.track == 'b' && u.tier == 1 {
                self.reload = 12;
            } else if u.track == 'b' && u.tier == 2 {
                self.repeater.max_repeats = 1;
                self.repeater.repeat_cd = 1;
            } else if u.track == 'b' && u.tier == 3 {
                self.range = 80;
            } else if u.track == 'b' && u.tier == 4 {
                self.reload = 10;
                self.bullet = BulletType::Laser(3000, 5000);
                self.repeater.max_repeats = 0;
            } else if u.track == 'f' && u.tier == 1 {
                self.speed_cap = 30;
            } else if u.track == 'f' && u.tier == 2 {
                self.speed_cap = 50;
            } else if u.track == 'h' && u.tier == 1 {
                self.passive_heal = 5;
            } else if u.track == 'h' && u.tier == 2 {
                self.max_health = 5000;
            } else if u.track == 'h' && u.tier == 3 {
                self.passive_heal = 10;
            } else if u.track == 'h' && u.tier == 4 {
                self.max_health = 8000;
            }
        }
        self.upgrades.push(u);
    }

    /// Gun discipline after targeting: a missile launcher holds fire exactly
    /// when it has no target; a turret fires once it has one and, carried
    /// without one, holds fire; other kinds are unchanged.
    pub fn aim(&mut self, has_target: bool)
        ensures
            *final(self) == (match old(self).kind {
                Kind::MissileLauncher => GamePieceBase { suppress: !has_target, ..*old(self) },
                Kind::Turret => if has_target {
                    GamePieceBase { suppress: false, ..*old(self) }
                } else if old(self).carrier.is_carried {
                    GamePieceBase { suppress: true, ..*old(self) }
                } else {
                    *old(self)
                },
                _ => *old(self),
            }),
    {
        match self.kind {
            Kind::MissileLauncher => {
                self.suppress = !has_target;
            },
            Kind::Turret => {
                if has_target {
                    self.suppress = false;
                } else if self.carrier.is_carried {
                    self.suppress = true;
                }
            },
            _ => {},
        }
    }

    /// The least tier (from 1) of `track` that the piece does not hold yet.
    /// It is at most one more than the number of upgrades held.
    pub fn next_tier(&self, track: char) -> (k: usize)
        requires
            self.upgrades@.len() <= MAX_UPGRADES,
        ensures
            1 <= k <= self.upgrades@.len() + 1,
            !has_upgrade(self.upgrades@, track, k as int),
            forall|j: int| 1 <= j < k ==> has_upgrade(self.upgrades@, track, j),
    {
        let ghost n = self.upgrades@.len();
        let ghost mut tried: Set<int> = Set::empty();
        let mut k: usize = 1;
        let mut found = self.find_upgrade(track, k);
        while found.is_some()
            invariant
                n == self.upgrades@.len(),
                n <= MAX_UPGRADES,
                1 <= k <= n + 1,
                found.is_none() == !has_upgrade(self.upgrades@, track, k as int),
                found.is_some() ==> found.unwrap() < n && self.upgrades@[found.unwrap() as int].track == track
                    && self.upgrades@[found.unwrap() as int].tier == k,
                forall|j: int| 1 <= j < k ==> has_upgrade(self.upgrades@, track, j),
                tried.finite(),
                tried.len() == k - 1,
                tried.subset_of(vstd::set_lib::set_int_range(0, n as int)),
                forall|i: int| tried.contains(i) ==> self.upgrades@[i].tier < k,
            decreases n + 1 - k,
        {
            let ghost i = found.unwrap() as int;
            proof {
                assert(!tried.contains(i));
                tried = tried.insert(i);
                vstd::set_lib::lemma_int_range(0, n as int);
                vstd::set_lib::lemma_len_subset(tried, vstd::set_lib::set_int_range(0, n as int));
            }
            k = k + 1;
            found = self.find_upgrade(track, k);
        }
        k
    }

    fn find_upgrade(&self, track: char, tier: usize) -> (r: Option<usize>)
        ensures
            r.is_none() == !has_upgrade(self.upgrades@, track, tier as int),
            r.is_some() ==> r.unwrap() < self.upgrades@.len() && self.upgrades@[r.unwrap() as int].track
                == track && self.upgrades@[r.unwrap() as int].tier == tier,
    {
        let mut i: usize = 0;
        while i < self.upgrades.len()
            invariant
                i <= self.upgrades@.len(),
                forall|j: int| 0 <= j < i ==> !(self.upgrades@[j].track == track && self.upgrades@[j].tier == tier),
            decreases self.upgrades@.len() - i,
        {
            if self.upgrades[i].track == track && self.upgrades[i].tier == tier {
                return Some(i);
            }
            i = i + 1;
        }
        None
    }
}

} // verus!
