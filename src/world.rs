//! The world's entity store and the rules that act on it as a whole: id
//! allocation and lookup, removal, teams and authentication, the per-tick
//! update of every piece's counters and the removal of the dead, the pairs
//! that the collision pass compares, and what a collision does.
use vstd::prelude::*;
use crate::piece::{GamePieceBase, HEALTH_CAP, MAX_UPGRADES, Upgrade, upgrade_effect, has_upgrade, vitals_step};
use crate::mode::{ModeClock, GameMode, FPS};
use crate::banners::BannerTable;
use crate::geometry::{BoxShape, SHAPE_BOUND, UNIT, zone_check, zoned};
use crate::kinds::{Kind, Explosion};

verus! {

pub struct TeamData {
    pub id: usize,
    pub banner_id: usize,
    pub password: String,
    /// Banners of the living members.
    pub members: Vec<usize>,
}

/// The outcome of checking a password.
#[derive(Debug, PartialEq, Eq, Structural, Clone, Copy)]
pub enum AuthState {
    Error,
    Single,
    /// Joined the team with this index; whether as its leader.
    Team(usize, bool),
    Spectator,
    God,
}

pub struct World {
    pub objects: Vec<GamePieceBase>,
    pub top_id: u32,
    pub teams: Vec<TeamData>,
    pub living_players: u32,
    pub isnt_rtf: u32,
    pub authenticateds: u32,
    pub zone_count: usize,
    pub admin_password: String,
    pub password: String,
    pub passwordless: bool,
    pub clock: ModeClock,
    pub banners: BannerTable,
    /// The side of the square world, in world units.
    pub gamesize: i64,
    pub readies: u32,
    pub clients_connected: u32,
}

/// The ids of `objs` are pairwise distinct and below `top`.
pub open spec fn ids_ok(objs: Seq<GamePieceBase>, top: u32) -> bool {
    &&& forall|i: int| 0 <= i < objs.len() ==> #[trigger] objs[i].id < top
    &&& forall|i: int, j: int|
        0 <= i < objs.len() && 0 <= j < objs.len() && i != j ==> objs[i].id != objs[j].id
}

pub open spec fn all_wf(objs: Seq<GamePieceBase>) -> bool {
    forall|i: int| 0 <= i < objs.len() ==> #[trigger] objs[i].wf()
}

/// Whether a piece with id `id` is in `objs`.
pub open spec fn has_id(objs: Seq<GamePieceBase>, id: u32) -> bool {
    exists|i: int| 0 <= i < objs.len() && #[trigger] objs[i].id == id
}

/// Whether `members` holds `banner`.
pub open spec fn is_member(members: Seq<usize>, banner: usize) -> bool {
    exists|i: int| 0 <= i < members.len() && members[i] == banner
}

impl World {
    pub open spec fn wf(&self) -> bool {
        &&& self.top_id >= 1
        &&& ids_ok(self.objects@, self.top_id)
        &&& all_wf(self.objects@)
        &&& self.clock.wf()
        &&& 1 <= self.zone_count <= MAX_ZONE_SIDE
        &&& self.banners.wf()
        &&& 0 <= self.gamesize <= SHAPE_BOUND
    }

    /// The side of one zone of the grid.
    pub open spec fn zone_side(&self) -> int {
        self.gamesize as int / self.zone_count as int
    }

    /// An empty world in Waiting. Ids are handed out from 1 on.
    pub fn new(
        clock: ModeClock,
        zone_count: usize,
        admin_password: String,
        password: String,
        passwordless: bool,
        banners: BannerTable,
        gamesize: i64,
    ) -> (r: Self)
        requires
            banners.wf(),
            0 <= gamesize <= SHAPE_BOUND,
            clock.wf(),
            1 <= zone_count <= MAX_ZONE_SIDE,
        ensures
            r.wf(),
            r.objects@.len() == 0,
            r.top_id == 1,
            r.teams@.len() == 0,
            r.living_players == 0,
            r.isnt_rtf == 0,
            r.authenticateds == 0,
            r.zone_count == zone_count,
            r.admin_password@ == admin_password@,
            r.password@ == password@,
            r.passwordless == passwordless,
            r.clock == clock,
            r.banners.names@ == banners.names@,
            r.readies == 0,
            r.clients_connected == 0,
            r.gamesize == gamesize,
    {
        World {
            objects: Vec::new(),
            top_id: 1,
            teams: Vec::new(),
            living_players: 0,
            isnt_rtf: 0,
            authenticateds: 0,
            zone_count,
            admin_password,
            password,
            passwordless,
            clock,
            banners,
            gamesize,
            readies: 0,
            clients_connected: 0,
        }
    }

    /// The index of the piece with id `id`, if it is live.
    pub fn obj_lookup(&self, id: u32) -> (r: Option<usize>)
        ensures
            r.is_none() == !has_id(self.objects@, id),
            r.is_some() ==> r.unwrap() < self.objects@.len() && self.objects@[r.unwrap() as int].id
                == id,
    {
        let mut i: usize = 0;
        while i < self.objects.len()
            invariant
                i <= self.objects@.len(),
                forall|j: int| 0 <= j < i ==> self.objects@[j].id != id,
            decreases self.objects@.len() - i,
        {
            if self.objects[i].id == id {
                return Some(i);
            }
            i = i + 1;
        }
        None
    }

    /// Gives `piece` the next id and the banner `banner` (the system's when
    /// none), works out the zones of the grid that its shape `shape` meets,
    /// appends it, and returns the id.
    pub fn add(&mut self, piece: GamePieceBase, banner: Option<usize>, shape: &BoxShape) -> (r: u32)
        requires
            old(self).wf(),
            piece.wf(),
            shape.wf(),
            old(self).top_id < u32::MAX,
        ensures
            final(self).wf(),
            r == old(self).top_id,
            final(self).top_id == old(self).top_id + 1,
            final(self).objects@ == old(self).objects@.push(
                GamePieceBase {
                    id: r,
                    banner: match banner {
                        Some(b) => b,
                        None => piece.banner,
                    },
                    zones: final(self).objects@.last().zones,
                    ..piece
                },
            ),
            zoned(final(self).objects@.last().zones@, *shape, old(self).zone_side(), old(self).zone_count as int),
            final(self).teams@ == old(self).teams@,
            final(self).clock == old(self).clock,
            final(self).living_players == old(self).living_players,
            final(self).isnt_rtf == old(self).isnt_rtf,
            final(self).gamesize == old(self).gamesize,
            final(self).zone_count == old(self).zone_count,
    {
        let mut piece = piece;
        let id = self.top_id;
        piece.set_id(id);
        match banner {
            Some(b) => piece.set_banner(b),
            None => {},
        }
        let n = self.zone_count;
        let side = self.gamesize / n as i64;
        proof {
            let g = self.gamesize as int;
            let nn = n as int;
            assert((g / nn) * nn <= g && g / nn >= 0) by (nonlinear_arith)
                requires
                    0 <= g,
                    nn >= 1,
            ;
            assert(nn * (g / nn) == (g / nn) * nn) by (nonlinear_arith);
        }
        piece.zones = zone_check(shape, side, n);
        self.top_id = self.top_id + 1;
        self.objects.push(piece);
        id
    }

    /// Removes the piece with id `id`, keeping the order of the rest.
    /// Returns whether there was one.
    pub fn delete_obj(&mut self, id: u32) -> (r: bool)
        requires
            old(self).wf(),
        ensures
            final(self).wf(),
            r == has_id(old(self).objects@, id),
            !has_id(final(self).objects@, id),
            r ==> exists|i: int|
                0 <= i < old(self).objects@.len() && old(self).objects@[i].id == id
                    && final(self).objects@ == old(self).objects@.remove(i),
            !r ==> final(self).objects@ == old(self).objects@,
            final(self).top_id == old(self).top_id,
            final(self).teams@ == old(self).teams@,
            final(self).clock == old(self).clock,
            final(self).living_players == old(self).living_players,
    {
        match self.obj_lookup(id) {
            Some(i) => {
                let ghost pre = self.objects@;
                self.objects.remove(i);
                assert forall|k: int| 0 <= k < self.objects@.len() implies self.objects@[k].id != id by {
                    if k < i {
                        assert(pre[k].id != pre[i as int].id);
                    } else {
                        assert(pre[k + 1].id != pre[i as int].id);
                    }
                }
                assert(ids_ok(self.objects@, self.top_id)) by {
                    assert forall|a: int, b: int|
                        0 <= a < self.objects@.len() && 0 <= b < self.objects@.len() && a != b implies self.objects@[a].id
                        != self.objects@[b].id by {
                        let a2 = if a < i { a } else { a + 1 };
                        let b2 = if b < i { b } else { b + 1 };
                        assert(pre[a2].id != pre[b2].id);
                    }
                    assert forall|a: int| 0 <= a < self.objects@.len() implies #[trigger] self.objects@[a].id < self.top_id by {
                        let a2 = if a < i { a } else { a + 1 };
                        assert(pre[a2].id < self.top_id);
                    }
                }
                assert(all_wf(self.objects@)) by {
                    assert forall|a: int| 0 <= a < self.objects@.len() implies #[trigger] self.objects@[a].wf() by {
                        let a2 = if a < i { a } else { a + 1 };
                        assert(pre[a2].wf());
                    }
                }
                true
            },
            None => false,
        }
    }

    /// The index of the first team that has `banner` among its members.
    pub fn get_team_of_banner(&self, banner: usize) -> (r: Option<usize>)
        ensures
            r.is_none() == (forall|t: int|
                0 <= t < self.teams@.len() ==> !is_member(#[trigger] self.teams@[t].members@, banner)),
            r.is_some() ==> {
                &&& r.unwrap() < self.teams@.len()
                &&& is_member(self.teams@[r.unwrap() as int].members@, banner)
                &&& forall|t: int| 0 <= t < r.unwrap() ==> !is_member(#[trigger] self.teams@[t].members@, banner)
            },
    {
        let mut t: usize = 0;
        while t < self.teams.len()
            invariant
                t <= self.teams@.len(),
                forall|u: int| 0 <= u < t ==> !is_member(#[trigger] self.teams@[u].members@, banner),
            decreases self.teams@.len() - t,
        {
            let members = &self.teams[t].members;
            let mut k: usize = 0;
            while k < members.len()
                invariant
                    k <= members@.len(),
                    t < self.teams@.len(),
                    forall|u: int| 0 <= u < t ==> !is_member(#[trigger] self.teams@[u].members@, banner),
                    members@ == self.teams@[t as int].members@,
                    forall|j: int| 0 <= j < k ==> members@[j] != banner,
                decreases members@.len() - k,
            {
                if members[k] == banner {
                    assert(is_member(self.teams@[t as int].members@, banner)) by {
                        assert(members@[k as int] == banner);
                    }
                    return Some(t);
                }
                k = k + 1;
            }
            t = t + 1;
        }
        None
    }

    /// Checks a password: the admin password makes a god; else a spectator
    /// stays one; else the main password (or none needed) admits a single
    /// player; an empty password makes a spectator; else the first team whose
    /// password matches takes the player, as its leader if it has no members
    /// yet; else the password is wrong.
    pub fn authenticate(&self, password: &String, spectator: bool) -> (r: AuthState)
        ensures
            r == auth_spec(self.admin_password@, self.password@, self.passwordless, self.teams@, password@, spectator),
    {
        if self.admin_password == *password {
            return AuthState::God;
        }
        if spectator {
            return AuthState::Spectator;
        }
        if self.password == *password || self.passwordless {
            return AuthState::Single;
        }
        if password.as_str().is_empty() {
            return AuthState::Spectator;
        }
        let mut t: usize = 0;
        while t < self.teams.len()
            invariant
                t <= self.teams@.len(),
                forall|u: int| 0 <= u < t ==> #[trigger] self.teams@[u].password@ != password@,
                self.admin_password@ != password@,
                !spectator,
                self.password@ != password@ && !self.passwordless,
                password@.len() != 0,
            decreases self.teams@.len() - t,
        {
            if self.teams[t].password == *password {
                proof {
                    assert(first_team_with(self.teams@, password@) == t as int) by {
                        lemma_first_team(self.teams@, password@, t as int);
                    }
                }
                let r = AuthState::Team(self.teams[t].id, self.teams[t].members.len() == 0);
                return r;
            }
            t = t + 1;
        }
        proof {
            lemma_no_team(self.teams@, password@);
        }
        AuthState::Error
    }

    /// Whether a newcomer may join as a player: only while waiting (or at any
    /// time in continuous mode), and, with an automatic start set up, only
    /// below its player limit.
    pub fn new_user_can_join(&self) -> (r: bool)
        ensures
            r == ((self.clock.mode == GameMode::Waiting || self.clock.is_io) && match self.clock.autonomous {
                Some(a) => self.authenticateds < a.max_players,
                None => true,
            }),
    {
        let mut ok = self.clock.mode == GameMode::Waiting;
        if self.clock.is_io {
            ok = true;
        }
        match self.clock.autonomous {
            Some(a) => ok && self.authenticateds < a.max_players,
            None => ok,
        }
    }
}

/// The index of the first team whose password is `p`, or the number of teams.
pub open spec fn first_team_with(teams: Seq<TeamData>, p: Seq<char>) -> int
    decreases teams.len(),
{
    if teams.len() == 0 {
        0
    } else if first_team_with(teams.drop_last(), p) < teams.len() - 1 {
        first_team_with(teams.drop_last(), p)
    } else if teams.last().password@ == p {
        teams.len() - 1
    } else {
        teams.len() as int
    }
}

proof fn lemma_first_team_bound(teams: Seq<TeamData>, p: Seq<char>)
    ensures
        0 <= first_team_with(teams, p) <= teams.len(),
        first_team_with(teams, p) < teams.len() ==> teams[first_team_with(teams, p)].password@ == p,
        forall|u: int| 0 <= u < first_team_with(teams, p) ==> #[trigger] teams[u].password@ != p,
    decreases teams.len(),
{
    if teams.len() > 0 {
        lemma_first_team_bound(teams.drop_last(), p);
        let d = teams.drop_last();
        assert forall|u: int| 0 <= u < d.len() implies d[u] == teams[u] by {}
    }
}

proof fn lemma_first_team(teams: Seq<TeamData>, p: Seq<char>, t: int)
    requires
        0 <= t < teams.len(),
        teams[t].password@ == p,
        forall|u: int| 0 <= u < t ==> #[trigger] teams[u].password@ != p,
    ensures
        first_team_with(teams, p) == t,
{
    lemma_first_team_bound(teams, p);
    let f = first_team_with(teams, p);
    if f < t {
        assert(teams[f].password@ != p);
    } else if f > t {
        assert(teams[t].password@ != p);
    }
}

proof fn lemma_no_team(teams: Seq<TeamData>, p: Seq<char>)
    requires
        forall|u: int| 0 <= u < teams.len() ==> #[trigger] teams[u].password@ != p,
    ensures
        first_team_with(teams, p) == teams.len(),
{
    lemma_first_team_bound(teams, p);
    if first_team_with(teams, p) < teams.len() {
        assert(teams[first_team_with(teams, p)].password@ != p);
    }
}

pub open spec fn auth_spec(
    admin: Seq<char>,
    main: Seq<char>,
    passwordless: bool,
    teams: Seq<TeamData>,
    password: Seq<char>,
    spectator: bool,
) -> AuthState {
    if admin == password {
        AuthState::God
    } else if spectator {
        AuthState::Spectator
    } else if main == password || passwordless {
        AuthState::Single
    } else if password.len() == 0 {
        AuthState::Spectator
    } else if first_team_with(teams, password) < teams.len() {
        let t = teams[first_team_with(teams, password)];
        AuthState::Team(t.id, t.members@.len() == 0)
    } else {
        AuthState::Error
    }
}

/// Whether the zone lists `a` and `b` have a zone in common.
pub open spec fn shares_zone(a: Seq<usize>, b: Seq<usize>) -> bool {
    exists|z: usize| a.contains(z) && b.contains(z)
}

/// Whether the pair loop may compare pieces `x` and `y` of `objs`: they are
/// in order and, on a world split into several zones, share one.
pub open spec fn comparable(objs: Seq<GamePieceBase>, zone_count: usize, x: int, y: int) -> bool {
    &&& 0 <= x < y < objs.len()
    &&& (zone_count == 1 || shares_zone(objs[x].zones@, objs[y].zones@))
}

/// Whether the pair loop must compare pieces `x` and `y` of `objs`: on a
/// world of one zone every pair, otherwise those listed in a common zone of
/// the `zone_count` by `zone_count` grid.
pub open spec fn must_compare(objs: Seq<GamePieceBase>, zone_count: usize, x: int, y: int) -> bool {
    zone_count == 1 || exists|z: usize|
        z < zone_count * zone_count && objs[x].zones@.contains(z) && objs[y].zones@.contains(z)
}

fn has_id_in(v: &Vec<u32>, id: u32) -> (r: bool)
    ensures
        r == v@.contains(id),
{
    let mut i: usize = 0;
    while i < v.len()
        invariant
            i <= v@.len(),
            forall|k: int| 0 <= k < i ==> v@[k] != id,
        decreases v@.len() - i,
    {
        if v[i] == id {
            assert(v@[i as int] == id);
            return true;
        }
        i = i + 1;
    }
    false
}

fn has_pair(v: &Vec<(usize, usize)>, p: (usize, usize)) -> (r: bool)
    ensures
        r == v@.contains(p),
{
    let mut i: usize = 0;
    while i < v.len()
        invariant
            i <= v@.len(),
            forall|k: int| 0 <= k < i ==> v@[k] != p,
        decreases v@.len() - i,
    {
        if v[i].0 == p.0 && v[i].1 == p.1 {
            assert(v@[i as int] == p);
            return true;
        }
        i = i + 1;
    }
    false
}

proof fn lemma_push_keeps<T>(s: Seq<T>, v: T)
    ensures
        forall|w: T| s.contains(w) ==> #[trigger] s.push(v).contains(w),
        s.push(v).contains(v),
{
    assert forall|w: T| s.contains(w) implies #[trigger] s.push(v).contains(w) by {
        let k = choose|k: int| 0 <= k < s.len() && s[k] == w;
        assert(s.push(v)[k] == w);
    }
    assert(s.push(v)[s.len() as int] == v);
}

/// Every bucket `z` lists, in increasing order, pieces below `bound` whose
/// zones hold `z`.
pub open spec fn buckets_ok(buckets: Seq<Vec<usize>>, objs: Seq<GamePieceBase>, bound: int) -> bool {
    forall|z: int, k: int|
        0 <= z < buckets.len() && 0 <= k < buckets[z]@.len() ==> {
            &&& #[trigger] buckets[z]@[k] < bound
            &&& bound <= objs.len()
            &&& objs[buckets[z]@[k] as int].zones@.contains(z as usize)
            &&& forall|k2: int| 0 <= k2 < k ==> buckets[z]@[k2] < buckets[z]@[k]
        }
}

pub const MAX_ZONE_SIDE: usize = 1024;

impl World {
    /// The pairs of pieces that the collision pass compares, each as
    /// `(x, y)` with `x < y`. On a world of one zone that is every pair;
    /// otherwise every pair of pieces listed in a common zone of the grid (a
    /// zone outside the grid is ignored), and no other. Each pair is listed
    /// once, however many zones its pieces share.
    pub fn candidate_pairs(&self) -> (r: Vec<(usize, usize)>)
        requires
            1 <= self.zone_count <= MAX_ZONE_SIDE,
        ensures
            forall|a: int, b: int| 0 <= a < b < r@.len() ==> r@[a] != r@[b],
            forall|k: int|
                0 <= k < r@.len() ==> comparable(self.objects@, self.zone_count, #[trigger] r@[k].0 as int, r@[k].1 as int),
            forall|x: int, y: int|
                0 <= x < y < self.objects@.len() && #[trigger] must_compare(self.objects@, self.zone_count, x, y)
                    ==> r@.contains((x as usize, y as usize)),
    {
        let n = self.objects.len();
        let mut pairs: Vec<(usize, usize)> = Vec::new();
        if self.zone_count == 1 {
            let mut x: usize = 0;
            while x < n
                invariant
                    n == self.objects@.len(),
                    self.zone_count == 1,
                    x <= n,
                    forall|k: int|
                        0 <= k < pairs@.len() ==> comparable(self.objects@, self.zone_count, #[trigger] pairs@[k].0 as int, pairs@[k].1 as int),
                    forall|a: int, b: int| 0 <= a < x && a < b < n ==> #[trigger] pairs@.contains((a as usize, b as usize)),
                    forall|k: int| 0 <= k < pairs@.len() ==> (#[trigger] pairs@[k]).0 < x,
                    forall|a: int, b: int| 0 <= a < b < pairs@.len() ==> pairs@[a] != pairs@[b],
                decreases n - x,
            {
                let mut y: usize = x + 1;
                while y < n
                    invariant
                        n == self.objects@.len(),
                        self.zone_count == 1,
                        x < y,
                        x < n,
                        forall|k: int|
                            0 <= k < pairs@.len() ==> comparable(self.objects@, self.zone_count, #[trigger] pairs@[k].0 as int, pairs@[k].1 as int),
                        forall|a: int, b: int| 0 <= a < x && a < b < n ==> #[trigger] pairs@.contains((a as usize, b as usize)),
                        forall|b: int| x < b < y ==> #[trigger] pairs@.contains((x, b as usize)),
                        forall|k: int| 0 <= k < pairs@.len() ==> (#[trigger] pairs@[k]).0 < x || (pairs@[k].0 == x && pairs@[k].1 < y),
                        forall|a: int, b: int| 0 <= a < b < pairs@.len() ==> pairs@[a] != pairs@[b],
                    decreases n - y,
                {
                    let ghost pre = pairs@;
                    pairs.push((x, y));
                    proof {
                        lemma_push_keeps(pre, (x, y));
                        assert(pairs@[pairs@.len() - 1] == (x, y));
                        assert forall|a: int, c: int| 0 <= a < c < pairs@.len() implies pairs@[a] != pairs@[c] by {
                            if c == pairs@.len() - 1 {
                                assert(pre[a] == pairs@[a]);
                            }
                        }
                    }
                    y = y + 1;
                }
                x = x + 1;
            }
            return pairs;
        }
        proof {
            let zc = self.zone_count as int;
            assert(zc * zc <= MAX_ZONE_SIDE * MAX_ZONE_SIDE) by (nonlinear_arith)
                requires
                    0 <= zc <= MAX_ZONE_SIDE,
            ;
        }
        let nz: usize = self.zone_count * self.zone_count;
        let mut buckets: Vec<Vec<usize>> = Vec::new();
        let mut z: usize = 0;
        while z < nz
            invariant
                z <= nz,
                buckets@.len() == z,
                forall|j: int| 0 <= j < z ==> (#[trigger] buckets@[j])@.len() == 0,
            decreases nz - z,
        {
            buckets.push(Vec::new());
            z = z + 1;
        }
        let mut i: usize = 0;
        while i < n
            invariant
                n == self.objects@.len(),
                i <= n,
                nz == self.zone_count * self.zone_count,
                buckets@.len() == nz,
                buckets_ok(buckets@, self.objects@, i as int),
                forall|zz: int, j: int| 0 <= zz < nz && 0 <= j < i && self.objects@[j].zones@.contains(zz as usize)
                    ==> #[trigger] buckets@[zz]@.contains(j as usize),
            decreases n - i,
        {
            let zones = &self.objects[i].zones;
            let mut k: usize = 0;
            while k < zones.len()
                invariant
                    n == self.objects@.len(),
                    i < n,
                    nz == self.zone_count * self.zone_count,
                    zones@ == self.objects@[i as int].zones@,
                    k <= zones@.len(),
                    buckets@.len() == nz,
                    buckets_ok(buckets@, self.objects@, i + 1),
                    forall|zz: int, kk: int|
                        0 <= zz < buckets@.len() && 0 <= kk < buckets@[zz]@.len() && buckets@[zz]@[kk] == i ==> kk == buckets@[zz]@.len() - 1,
                    forall|zz: int, j: int| 0 <= zz < nz && 0 <= j < i && self.objects@[j].zones@.contains(zz as usize)
                        ==> #[trigger] buckets@[zz]@.contains(j as usize),
                    forall|kk: int| 0 <= kk < k && zones@[kk] < nz ==> #[trigger] buckets@[zones@[kk] as int]@.contains(i),
                decreases zones@.len() - k,
            {
                let zk = zones[k];
                let ghost pre = buckets@;
                if zk < nz {
                    let len = buckets[zk].len();
                    if len == 0 || buckets[zk][len - 1] != i {
                        buckets[zk].push(i);
                        proof {
                            assert(zones@.contains(zk)) by {
                                assert(zones@[k as int] == zk);
                            }
                            assert forall|zz: int, kk: int|
                                0 <= zz < buckets@.len() && 0 <= kk < buckets@[zz]@.len() implies {
                                    &&& #[trigger] buckets@[zz]@[kk] < i + 1
                                    &&& i + 1 <= self.objects@.len()
                                    &&& self.objects@[buckets@[zz]@[kk] as int].zones@.contains(zz as usize)
                                    &&& forall|k2: int| 0 <= k2 < kk ==> buckets@[zz]@[k2] < buckets@[zz]@[kk]
                                } by {
                                if zz == zk as int {
                                    if kk == len as int {
                                        assert forall|k2: int| 0 <= k2 < kk implies buckets@[zz]@[k2] < buckets@[zz]@[kk] by {
                                            assert(pre[zz]@[k2] < i + 1);
                                            assert(pre[zz]@[k2] != i);
                                        }
                                    } else {
                                        assert(buckets@[zz]@[kk] == pre[zz]@[kk]);
                                    }
                                } else {
                                    assert(buckets@[zz] == pre[zz]);
                                }
                            }
                            lemma_push_keeps(pre[zk as int]@, i);
                            assert(buckets@[zk as int]@[len as int] == i);
                        }
                    } else {
                        proof {
                            assert(buckets@[zk as int]@[len - 1] == i);
                        }
                    }
                }
                proof {
                    assert forall|zz: int, j: int| 0 <= zz < nz && 0 <= j < i && self.objects@[j].zones@.contains(zz as usize)
                        implies #[trigger] buckets@[zz]@.contains(j as usize) by {
                        assert(pre[zz]@.contains(j as usize));
                        if zz == zk as int && zk < nz {
                            lemma_push_keeps(pre[zz]@, i);
                        }
                    }
                    assert forall|kk: int| 0 <= kk < k + 1 && zones@[kk] < nz implies #[trigger] buckets@[zones@[kk] as int]@.contains(i) by {
                        if kk < k {
                            let zz = zones@[kk] as int;
                            assert(pre[zz]@.contains(i));
                            if zz == zk as int {
                                lemma_push_keeps(pre[zz]@, i);
                            }
                        }
                    }
                }
                k = k + 1;
            }
            proof {
                assert forall|zz: int, j: int| 0 <= zz < nz && 0 <= j < i + 1 && self.objects@[j].zones@.contains(zz as usize)
                    implies #[trigger] buckets@[zz]@.contains(j as usize) by {
                    if j == i {
                        let kk = choose|kk: int| 0 <= kk < zones@.len() && zones@[kk] == zz as usize;
                        assert(buckets@[zones@[kk] as int]@.contains(i));
                    }
                }
            }
            i = i + 1;
        }
        let mut b: usize = 0;
        while b < nz
            invariant
                n == self.objects@.len(),
                nz == self.zone_count * self.zone_count,
                buckets@.len() == nz,
                buckets_ok(buckets@, self.objects@, n as int),
                self.zone_count != 1,
                b <= nz,
                forall|k: int|
                    0 <= k < pairs@.len() ==> comparable(self.objects@, self.zone_count, #[trigger] pairs@[k].0 as int, pairs@[k].1 as int),
                forall|zz: int, a: int, c: int| 0 <= zz < b && 0 <= a < c < buckets@[zz]@.len()
                    ==> #[trigger] pairs@.contains((buckets@[zz]@[a], buckets@[zz]@[c])),
                forall|a: int, c: int| 0 <= a < c < pairs@.len() ==> pairs@[a] != pairs@[c],
            decreases nz - b,
        {
            let bucket = &buckets[b];
            let m = bucket.len();
            let mut x: usize = 0;
            while x < m
                invariant
                    n == self.objects@.len(),
                    buckets@.len() == nz,
                    buckets_ok(buckets@, self.objects@, n as int),
                    b < nz,
                    bucket@ == buckets@[b as int]@,
                    m == bucket@.len(),
                    x <= m,
                    self.zone_count != 1,
                    forall|k: int|
                        0 <= k < pairs@.len() ==> comparable(self.objects@, self.zone_count, #[trigger] pairs@[k].0 as int, pairs@[k].1 as int),
                    forall|zz: int, a: int, c: int| 0 <= zz < b && 0 <= a < c < buckets@[zz]@.len()
                        ==> #[trigger] pairs@.contains((buckets@[zz]@[a], buckets@[zz]@[c])),
                    forall|a: int, c: int| 0 <= a < x && a < c < m ==> #[trigger] pairs@.contains((bucket@[a], bucket@[c])),
                    forall|a: int, c: int| 0 <= a < c < pairs@.len() ==> pairs@[a] != pairs@[c],
                decreases m - x,
            {
                let mut y: usize = x + 1;
                while y < m
                    invariant
                        n == self.objects@.len(),
                        buckets@.len() == nz,
                        buckets_ok(buckets@, self.objects@, n as int),
                        b < nz,
                        bucket@ == buckets@[b as int]@,
                        m == bucket@.len(),
                        x < y,
                        x < m,
                        self.zone_count != 1,
                        forall|k: int|
                            0 <= k < pairs@.len() ==> comparable(self.objects@, self.zone_count, #[trigger] pairs@[k].0 as int, pairs@[k].1 as int),
                        forall|zz: int, a: int, c: int| 0 <= zz < b && 0 <= a < c < buckets@[zz]@.len()
                            ==> #[trigger] pairs@.contains((buckets@[zz]@[a], buckets@[zz]@[c])),
                        forall|a: int, c: int| 0 <= a < x && a < c < m ==> #[trigger] pairs@.contains((bucket@[a], bucket@[c])),
                        forall|c: int| x < c < y ==> #[trigger] pairs@.contains((bucket@[x as int], bucket@[c])),
                        forall|a: int, c: int| 0 <= a < c < pairs@.len() ==> pairs@[a] != pairs@[c],
                    decreases m - y,
                {
                    proof {
                        let px = bucket@[x as int];
                        let py = bucket@[y as int];
                        assert(buckets@[b as int]@[y as int] == py);
                        assert(buckets@[b as int]@[x as int] == px);
                        assert(px < py);
                        assert(self.objects@[px as int].zones@.contains(b));
                        assert(self.objects@[py as int].zones@.contains(b));
                        assert(shares_zone(self.objects@[px as int].zones@, self.objects@[py as int].zones@));
                    }
                    let ghost pre = pairs@;
                    let pair = (bucket[x], bucket[y]);
                    if !has_pair(&pairs, pair) {
                        pairs.push(pair);
                        proof {
                            lemma_push_keeps(pre, pair);
                            assert(pairs@[pairs@.len() - 1] == pair);
                            assert forall|a: int, c: int| 0 <= a < c < pairs@.len() implies pairs@[a] != pairs@[c] by {
                                if c == pairs@.len() - 1 {
                                    assert(pre[a] == pairs@[a]);
                                }
                            }
                        }
                    }
                    y = y + 1;
                }
                x = x + 1;
            }
            proof {
                assert forall|zz: int, a: int, c: int| 0 <= zz < b + 1 && 0 <= a < c < buckets@[zz]@.len()
                    implies #[trigger] pairs@.contains((buckets@[zz]@[a], buckets@[zz]@[c])) by {
                    if zz == b as int {
                        assert(pairs@.contains((bucket@[a], bucket@[c])));
                    }
                }
            }
            b = b + 1;
        }
        proof {
            assert forall|x: int, y: int|
                0 <= x < y < self.objects@.len() && #[trigger] must_compare(self.objects@, self.zone_count, x, y)
                implies pairs@.contains((x as usize, y as usize)) by {
                let zz = choose|zz: usize| zz < nz && self.objects@[x].zones@.contains(zz) && self.objects@[y].zones@.contains(zz);
                assert(buckets@[zz as int]@.contains(x as usize));
                assert(buckets@[zz as int]@.contains(y as usize));
                let a = choose|a: int| 0 <= a < buckets@[zz as int]@.len() && buckets@[zz as int]@[a] == x as usize;
                let c = choose|c: int| 0 <= c < buckets@[zz as int]@.len() && buckets@[zz as int]@[c] == y as usize;
                if c < a {
                    assert(buckets@[zz as int]@[c] < buckets@[zz as int]@[a]);
                }
                assert(a != c);
                assert(pairs@.contains((buckets@[zz as int]@[a], buckets@[zz as int]@[c])));
            }
        }
        pairs
    }
}

/// What updating one piece did.
#[derive(Debug, PartialEq, Eq, Structural, Clone, Copy)]
pub enum PieceUpdate {
    /// Carried and frozen: nothing ran.
    Held,
    /// Out of health: the fort with this id was used up to restore it.
    Rescued(u32),
    /// Its counters ran; whether its gun fires.
    Ran(bool),
}

/// The ids of live pieces of `objs`.
pub open spec fn live(objs: Seq<GamePieceBase>) -> spec_fn(u32) -> bool {
    |f: u32| has_id(objs, f)
}

/// The health a piece starts its update with: full while carried.
pub open spec fn start_health(p: GamePieceBase) -> i64 {
    if p.carrier.is_carried { p.max_health } else { p.health }
}

/// What `update_piece` does to piece `i` of `pre`, given its outcome.
pub open spec fn update_outcome(pre: Seq<GamePieceBase>, i: int, post: GamePieceBase, r: PieceUpdate) -> bool {
    let p = pre[i];
    let forts = p.forts@.filter(live(pre));
    let h = start_health(p);
    if p.carrier.is_carried && !p.carrier.can_update {
        r == PieceUpdate::Held && post == GamePieceBase { health: p.max_health, ..p }
    } else if h <= 0 && forts.len() > 0 {
        &&& r == PieceUpdate::Rescued(forts[0])
        &&& post == GamePieceBase { health: p.max_health, forts: post.forts, ..p }
        &&& post.forts@ == forts.subrange(1, forts.len() as int)
    } else {
        &&& post.forts@ == forts
        &&& exists|fire: bool| r == PieceUpdate::Ran(fire) && vitals_step(GamePieceBase { health: h, forts: post.forts, ..p }, post, fire)
    }
}


/// Health is at most the maximum, and below zero only without forts.
pub open spec fn settled(p: GamePieceBase) -> bool {
    &&& p.health <= p.max_health
    &&& (p.health >= 0 || p.forts@.len() == 0)
}

impl World {
    /// The ids of `forts` that belong to live pieces, in order.
    fn live_ids(&self, forts: &Vec<u32>) -> (r: Vec<u32>)
        ensures
            forall|k: int| 0 <= k < r@.len() ==> forts@.contains(#[trigger] r@[k]) && has_id(self.objects@, r@[k]),
            forall|k: int| 0 <= k < forts@.len() && has_id(self.objects@, #[trigger] forts@[k]) ==> r@.contains(forts@[k]),
            r@ == forts@.filter(live(self.objects@)),
    {
        let mut r: Vec<u32> = Vec::new();
        let mut k: usize = 0;
        while k < forts.len()
            invariant
                k <= forts@.len(),
                forall|a: int| 0 <= a < r@.len() ==> forts@.contains(#[trigger] r@[a]) && has_id(self.objects@, r@[a]),
                forall|a: int| 0 <= a < k && has_id(self.objects@, #[trigger] forts@[a]) ==> r@.contains(forts@[a]),
                r@ == forts@.subrange(0, k as int).filter(live(self.objects@)),
            decreases forts@.len() - k,
        {
            let f = forts[k];
            let ghost r0 = r@;
            proof {
                reveal(Seq::filter);
                assert(forts@.subrange(0, k + 1).drop_last() =~= forts@.subrange(0, k as int));
                assert(forts@.subrange(0, k + 1).last() == f);
            }
            if self.obj_lookup(f).is_some() {
                r.push(f);
                assert(r@[r@.len() - 1] == f);
            }
            proof {
                assert(forts@[k as int] == f);
                assert forall|a: int| 0 <= a < k + 1 && has_id(self.objects@, #[trigger] forts@[a]) implies r@.contains(forts@[a]) by {
                    if a == k {
                        assert(r@[r@.len() - 1] == f);
                    } else {
                        assert(r0.contains(forts@[a]));
                        let w = choose|w: int| 0 <= w < r0.len() && r0[w] == forts@[a];
                        assert(r@[w] == forts@[a]);
                    }
                }
            }
            k = k + 1;
        }
        proof {
            assert(forts@.subrange(0, k as int) =~= forts@);
        }
        r
    }

    /// The bookkeeping part of one piece's update: a carried piece is held
    /// at full health, and frozen unless its kind keeps working on board;
    /// forts that no longer exist are forgotten; a piece out of health with
    /// a fort left uses up its oldest fort, which loses all its health (to
    /// minus one) and its own forts, and comes back at full health;
    /// otherwise its counters run.
    #[verifier::rlimit(100)]
    pub fn update_piece(&mut self, i: usize) -> (r: PieceUpdate)
        requires
            old(self).wf(),
            i < old(self).objects@.len(),
        ensures
            final(self).wf(),
            final(self).objects@.len() == old(self).objects@.len(),
            final(self).top_id == old(self).top_id,
            final(self).clock == old(self).clock,
            final(self).living_players == old(self).living_players,
            final(self).isnt_rtf == old(self).isnt_rtf,
            forall|k: int| 0 <= k < final(self).objects@.len() ==> #[trigger] final(self).objects@[k].id == old(self).objects@[k].id,
            settled(final(self).objects@[i as int]),
            update_outcome(old(self).objects@, i as int, final(self).objects@[i as int], r),
            forall|k: int| 0 <= k < final(self).objects@.len() && k != i ==> (#[trigger] final(self).objects@[k]) == (
                match r {
                    PieceUpdate::Rescued(f) => if old(self).objects@[k].id == f {
                        GamePieceBase { health: -1000i64, forts: final(self).objects@[k].forts, ..old(self).objects@[k] }
                    } else {
                        old(self).objects@[k]
                    },
                    _ => old(self).objects@[k],
                }),
            forall|k: int| 0 <= k < final(self).objects@.len() && k != i && (exists|f: u32| r == PieceUpdate::Rescued(f) && old(self).objects@[k].id == f)
                ==> (#[trigger] final(self).objects@[k]).forts@.len() == 0,
    {
        let ghost pre = self.objects@;
        proof {
            assert(pre[i as int].wf());
        }
        if self.objects[i].carrier.is_carried {
            let m = self.objects[i].max_health;
            self.objects[i].health = m;
            if !self.objects[i].carrier.can_update {
                proof {
                    assert(self.objects@ =~= pre.update(i as int, self.objects@[i as int]));
                    lemma_one_changed(pre, self.objects@, i as int, self.top_id);
                    assert(self.objects@[i as int] == GamePieceBase { health: pre[i as int].max_health, ..pre[i as int] });
                }
                return PieceUpdate::Held;
            }
        }
        let ghost mid = self.objects@;
        let forts = self.live_ids(&self.objects[i].forts);
        proof {
            assert(live(mid) =~= live(pre)) by {
                assert forall|f: u32| #[trigger] live(mid)(f) == live(pre)(f) by {
                    if has_id(pre, f) {
                        let w = choose|w: int| 0 <= w < pre.len() && pre[w].id == f;
                        assert(mid[w].id == f);
                    }
                    if has_id(mid, f) {
                        let w = choose|w: int| 0 <= w < mid.len() && mid[w].id == f;
                        assert(pre[w].id == f);
                    }
                }
            }
        }
        self.objects[i].forts = forts;
        if self.objects[i].health <= 0 && self.objects[i].forts.len() > 0 {
            let ghost before = self.objects@;
            let fortid = self.objects[i].forts.remove(0);
            let f = self.obj_lookup(fortid);
            match f {
                Some(fi) => {
                    if fi != i {
                        self.objects[fi].health = -1000;
                        self.objects[fi].forts = Vec::new();
                    }
                },
                None => {},
            }
            let m = self.objects[i].max_health;
            self.objects[i].health = m;
            proof {
                assert(forts@[0] == fortid);
                assert(self.objects@[i as int].forts@ =~= forts@.subrange(1, forts@.len() as int));
                lemma_ids_kept(pre, self.objects@, self.top_id);
                assert forall|k: int| 0 <= k < self.objects@.len() && k != i implies (#[trigger] self.objects@[k]) == (
                    if pre[k].id == fortid {
                        GamePieceBase { health: -1000i64, forts: self.objects@[k].forts, ..pre[k] }
                    } else {
                        pre[k]
                    }) && (pre[k].id == fortid ==> self.objects@[k].forts@.len() == 0) by {
                    match f {
                        Some(fi) => {
                            if k != fi as int {
                                assert(pre[k].id != pre[fi as int].id);
                            }
                        },
                        None => {},
                    }
                }
                assert(all_wf(self.objects@)) by {
                    assert forall|k: int| 0 <= k < self.objects@.len() implies #[trigger] self.objects@[k].wf() by {
                        assert(pre[k].wf());
                    }
                }
            }
            return PieceUpdate::Rescued(fortid);
        }
        let fire = self.objects[i].tick_vitals();
        proof {
            assert(self.objects@ =~= pre.update(i as int, self.objects@[i as int]));
            lemma_one_changed(pre, self.objects@, i as int, self.top_id);
        }
        PieceUpdate::Ran(fire)
    }
}

/// Whether a piece is removed at the end of its tick.
pub open spec fn gone() -> spec_fn(GamePieceBase) -> bool {
    |p: GamePieceBase| p.dead_spec()
}

/// Whether a piece survives the end of its tick.
pub open spec fn alive() -> spec_fn(GamePieceBase) -> bool {
    |p: GamePieceBase| !p.dead_spec()
}

/// Removing one piece keeps the ids distinct, every record well formed,
/// and every record settled.
proof fn lemma_remove_keeps(objs: Seq<GamePieceBase>, k: int, top: u32)
    requires
        0 <= k < objs.len(),
        ids_ok(objs, top),
        all_wf(objs),
        forall|a: int| 0 <= a < objs.len() ==> settled(#[trigger] objs[a]),
    ensures
        ids_ok(objs.remove(k), top),
        all_wf(objs.remove(k)),
        forall|a: int| 0 <= a < objs.remove(k).len() ==> settled(#[trigger] objs.remove(k)[a]),
{
    lemma_remove_ids(objs, k, top);
    let r = objs.remove(k);
    assert forall|a: int| 0 <= a < r.len() implies settled(#[trigger] r[a]) by {
        let a2 = if a < k { a } else { a + 1 };
        assert(settled(objs[a2]));
    }
}

/// Removing one piece keeps the ids distinct and every record well formed.
proof fn lemma_remove_ids(objs: Seq<GamePieceBase>, k: int, top: u32)
    requires
        0 <= k < objs.len(),
        ids_ok(objs, top),
        all_wf(objs),
    ensures
        ids_ok(objs.remove(k), top),
        all_wf(objs.remove(k)),
{
    let r = objs.remove(k);
    assert forall|a: int, b: int| 0 <= a < r.len() && 0 <= b < r.len() && a != b implies r[a].id != r[b].id by {
        let a2 = if a < k { a } else { a + 1 };
        let b2 = if b < k { b } else { b + 1 };
        assert(objs[a2].id != objs[b2].id);
    }
    assert forall|a: int| 0 <= a < r.len() implies #[trigger] r[a].id < top && r[a].wf() by {
        let a2 = if a < k { a } else { a + 1 };
        assert(objs[a2].id < top);
        assert(objs[a2].wf());
    }
}

impl World {
    /// Runs `update_piece` on every piece in order; returns, for each, its
    /// id and what the update did.
    pub fn update_all(&mut self) -> (r: Vec<(u32, PieceUpdate)>)
        requires
            old(self).wf(),
        ensures
            final(self).wf(),
            final(self).objects@.len() == old(self).objects@.len(),
            r@.len() == final(self).objects@.len(),
            forall|k: int| 0 <= k < r@.len() ==> (#[trigger] r@[k]).0 == old(self).objects@[k].id,
            forall|k: int| 0 <= k < final(self).objects@.len() ==> settled(#[trigger] final(self).objects@[k]),
            forall|k: int| 0 <= k < final(self).objects@.len() ==> #[trigger] final(self).objects@[k].id == old(self).objects@[k].id,
            final(self).top_id == old(self).top_id,
            final(self).clock == old(self).clock,
            final(self).living_players == old(self).living_players,
            final(self).isnt_rtf == old(self).isnt_rtf,
    {
        let mut out: Vec<(u32, PieceUpdate)> = Vec::new();
        let mut i: usize = 0;
        while i < self.objects.len()
            invariant
                self.wf(),
                self.objects@.len() == old(self).objects@.len(),
                i <= self.objects@.len(),
                out@.len() == i,
                forall|k: int| 0 <= k < i ==> (#[trigger] out@[k]).0 == old(self).objects@[k].id,
                forall|k: int| 0 <= k < i ==> settled(#[trigger] self.objects@[k]),
                forall|k: int| 0 <= k < self.objects@.len() ==> #[trigger] self.objects@[k].id == old(self).objects@[k].id,
                self.top_id == old(self).top_id,
                self.clock == old(self).clock,
                self.living_players == old(self).living_players,
                self.isnt_rtf == old(self).isnt_rtf,
            decreases self.objects@.len() - i,
        {
            let ghost pre = self.objects@;
            let u = self.update_piece(i);
            proof {
                assert forall|k: int| 0 <= k < i + 1 implies settled(#[trigger] self.objects@[k]) by {
                    if k != i {
                        assert(pre[k].wf());
                        assert(settled(pre[k]));
                    }
                }
            }
            out.push((self.objects[i].id, u));
            i = i + 1;
        }
        out
    }

    /// Removes every dead piece (no health left, no fort to fall back on),
    /// keeping the order of the rest, and returns the dead in order.
    pub fn reap(&mut self) -> (dead: Vec<GamePieceBase>)
        requires
            old(self).wf(),
            forall|k: int| 0 <= k < old(self).objects@.len() ==> settled(#[trigger] old(self).objects@[k]),
        ensures
            final(self).wf(),
            final(self).objects@ == old(self).objects@.filter(alive()),
            dead@.len() + final(self).objects@.len() == old(self).objects@.len(),
            dead@ == old(self).objects@.filter(gone()),
            forall|k: int| 0 <= k < dead@.len() ==> (#[trigger] dead@[k]).dead_spec(),
            forall|k: int| 0 <= k < final(self).objects@.len() ==> (#[trigger] final(self).objects@[k]).healthy(),
            final(self).top_id == old(self).top_id,
            final(self).teams@ == old(self).teams@,
            final(self).clock == old(self).clock,
            final(self).living_players == old(self).living_players,
            final(self).isnt_rtf == old(self).isnt_rtf,
    {
        let ghost o = self.objects@;
        let ghost n = o.len();
        let ghost mut j: int = 0;
        let mut dead: Vec<GamePieceBase> = Vec::new();
        let mut i: usize = 0;
        while i < self.objects.len()
            invariant
                self.wf(),
                0 <= j <= n,
                n == o.len(),
                self.objects@ == o.subrange(0, j).filter(alive()) + o.subrange(j, n as int),
                i == o.subrange(0, j).filter(alive()).len(),
                dead@.len() + i == j,
                dead@ == o.subrange(0, j).filter(gone()),
                forall|k: int| 0 <= k < dead@.len() ==> (#[trigger] dead@[k]).dead_spec(),
                forall|k: int| 0 <= k < self.objects@.len() ==> settled(#[trigger] self.objects@[k]),
                self.top_id == old(self).top_id,
                self.teams@ == old(self).teams@,
                self.clock == old(self).clock,
                self.living_players == old(self).living_players,
                self.isnt_rtf == old(self).isnt_rtf,
            decreases n - j,
        {
            let ghost before = self.objects@;
            proof {
                o.subrange(0, j).lemma_filter_len(alive());
                assert(self.objects@[i as int] == o[j]);
                assert(o.subrange(0, j + 1).drop_last() =~= o.subrange(0, j));
                assert(o.subrange(0, j + 1).last() == o[j]);
                reveal(Seq::filter);
                let pre_f = o.subrange(0, j).filter(alive());
                if alive()(o[j]) {
                    assert(o.subrange(0, j + 1).filter(alive()) == pre_f.push(o[j]));
                    assert(o.subrange(0, j + 1).filter(gone()) == o.subrange(0, j).filter(gone()));
                } else {
                    assert(o.subrange(0, j + 1).filter(alive()) == pre_f);
                    assert(o.subrange(0, j + 1).filter(gone()) == o.subrange(0, j).filter(gone()).push(o[j]));
                }
            }
            if self.objects[i].dead() {
                let p = self.objects.remove(i);
                proof {
                    lemma_remove_keeps(before, i as int, self.top_id);
                    assert(self.objects@ =~= o.subrange(0, j + 1).filter(alive()) + o.subrange(j + 1, n as int));
                    j = j + 1;
                }
                dead.push(p);
                proof {
                    assert(dead@ =~= o.subrange(0, j).filter(gone()));
                }
            } else {
                proof {
                    assert(self.objects@ =~= o.subrange(0, j + 1).filter(alive()) + o.subrange(j + 1, n as int));
                    j = j + 1;
                }
                i = i + 1;
            }
        }
        proof {
            assert(o.subrange(j, n as int).len() == 0);
            assert(o.subrange(0, j) =~= o);
            assert(self.objects@ =~= o.filter(alive()));
            assert forall|k: int| 0 <= k < self.objects@.len() implies (#[trigger] self.objects@[k]).healthy() by {
                o.lemma_filter_pred(alive(), k);
                assert(settled(self.objects@[k]));
            }
        }
        dead
    }

    /// The bookkeeping of a tick of play for the pieces: every piece is
    /// updated, then every dead piece is removed and handed back, in order.
    /// Every piece that is left is alive, with health between zero and its
    /// maximum.
    pub fn tick_pieces(&mut self) -> (r: (Vec<(u32, PieceUpdate)>, Vec<GamePieceBase>))
        requires
            old(self).wf(),
        ensures
            final(self).wf(),
            exists|mid: Seq<GamePieceBase>| {
                &&& mid.len() == old(self).objects@.len()
                &&& forall|k: int| 0 <= k < mid.len() ==> (#[trigger] mid[k]).id == old(self).objects@[k].id
                &&& final(self).objects@ == mid.filter(alive())
                &&& r.1@ == mid.filter(gone())
            },
            forall|k: int| 0 <= k < final(self).objects@.len() ==> !(#[trigger] final(self).objects@[k]).dead_spec(),
            forall|k: int| 0 <= k < r.0@.len() ==> (#[trigger] r.0@[k]).0 == old(self).objects@[k].id,
            forall|k: int| 0 <= k < final(self).objects@.len() ==> (#[trigger] final(self).objects@[k]).healthy(),
            forall|k: int| 0 <= k < r.1@.len() ==> (#[trigger] r.1@[k]).dead_spec(),
            r.0@.len() == old(self).objects@.len(),
            r.1@.len() + final(self).objects@.len() == old(self).objects@.len(),
            final(self).top_id == old(self).top_id,
            final(self).clock == old(self).clock,
    {
        let updates = self.update_all();
        let ghost mid = self.objects@;
        let dead = self.reap();
        proof {
            assert forall|k: int| 0 <= k < self.objects@.len() implies !(#[trigger] self.objects@[k]).dead_spec() by {
                mid.lemma_filter_pred(alive(), k);
            }
        }
        (updates, dead)
    }
}

/// What the collision pass did with one pair.
#[derive(Debug, PartialEq, Eq, Structural, Clone, Copy)]
pub enum Contact {
    /// One of the two is carried, or neither collides with the other.
    Skipped,
    /// Their shapes do not meet.
    Missed,
    /// The first index took the second on board.
    Carry(usize, usize),
    /// They hit; whether either took damage (and so may be pushed apart).
    Hit(bool),
}

/// A reward owed to a banner for a kill: score, and whether one air-to-air
/// missile comes with it.
#[derive(Debug, PartialEq, Eq, Structural, Clone, Copy)]
pub struct Award {
    pub banner: usize,
    pub score: Option<u32>,
    pub a2a: bool,
}

/// `victim` after taking the collision damage of `other`, if it collides
/// with it.
pub open spec fn after_hit(victim: GamePieceBase, other: GamePieceBase) -> GamePieceBase {
    if victim.kind.collides_spec(other.kind.tag_spec()) {
        let h = victim.health - other.damage;
        GamePieceBase { health: if h < -crate::piece::HEALTH_FLOOR { (-crate::piece::HEALTH_FLOOR) as i64 } else { h as i64 }, ..victim }
    } else {
        victim
    }
}

/// The award that the owner of `killer` earns when the hit kills `victim`
/// (given as it is after the hit, with its health before the hit): only a
/// collision that leaves a living piece newly dead, by an enemy (or of a
/// gold bar), pays.
pub open spec fn kill_award(victim: GamePieceBase, killer: GamePieceBase, health_before: i64) -> Option<Award> {
    if victim.kind.collides_spec(killer.kind.tag_spec()) && victim.dead_spec() && health_before > 0
        && (killer.banner != victim.banner || victim.kind.tag_spec() == 'g')
        && (victim.worthit || victim.kind == crate::kinds::Kind::Wall) {
        Some(Award {
            banner: killer.banner,
            score: if victim.worthit { Some(victim.kind.capture_spec() as u32) } else { None },
            a2a: victim.kind == crate::kinds::Kind::Wall,
        })
    } else {
        None
    }
}

pub open spec fn opt_seq(a: Option<Award>) -> Seq<Award> {
    match a {
        Some(x) => seq![x],
        None => Seq::empty(),
    }
}

impl World {
    /// Damages `victim` by the collision damage of `other` if it collides
    /// with it, and says what the owner of `other` earns.
    fn hit_one(&mut self, victim: usize, other: usize) -> (r: Option<Award>)
        requires
            old(self).wf(),
            victim < old(self).objects@.len(),
            other < old(self).objects@.len(),
            victim != other,
        ensures
            final(self).wf(),
            final(self).objects@ == old(self).objects@.update(victim as int, after_hit(old(self).objects@[victim as int], old(self).objects@[other as int])),
            r == kill_award(final(self).objects@[victim as int], old(self).objects@[other as int], old(self).objects@[victim as int].health),
            final(self).top_id == old(self).top_id,
            final(self).teams@ == old(self).teams@,
            final(self).clock == old(self).clock,
            final(self).living_players == old(self).living_players,
            final(self).isnt_rtf == old(self).isnt_rtf,
    {
        let ghost pre = self.objects@;
        let tag = self.objects[other].identify();
        if !self.objects[victim].get_does_collide(tag) {
            return None;
        }
        let dmg = self.objects[other].damage;
        let before = self.objects[victim].health;
        proof {
            assert(pre[victim as int].wf());
            assert(pre[other as int].wf());
        }
        self.objects[victim].damage(dmg);
        proof {
            assert(self.objects@ =~= pre.update(victim as int, after_hit(pre[victim as int], pre[other as int])));
            assert(ids_ok(self.objects@, self.top_id)) by {
                assert forall|k: int| 0 <= k < self.objects@.len() implies self.objects@[k].id == pre[k].id by {}
            }
            assert(all_wf(self.objects@)) by {
                assert forall|k: int| 0 <= k < self.objects@.len() implies #[trigger] self.objects@[k].wf() by {
                    assert(pre[k].wf());
                }
            }
        }
        let v = &self.objects[victim];
        let o = &self.objects[other];
        if v.dead() && before > 0 && (o.banner != v.banner || v.identify() == 'g') {
            let gives = v.does_give_score();
            let a2a = v.does_grant_a2a();
            if gives || a2a {
                let score = if gives { Some(v.capture()) } else { None };
                return Some(Award { banner: o.banner, score, a2a });
            }
        }
        None
    }

    /// One pair of the collision pass, given whether their shapes meet:
    /// carried pieces and pairs where neither collides with the other are
    /// skipped; a carrier that will take the other on board does so (the
    /// first of the two being asked first); otherwise each side that
    /// collides takes the other's damage, and the kills are paid for.
    pub fn resolve_contact(&mut self, x: usize, y: usize, hit: bool) -> (r: (Contact, Vec<Award>))
        requires
            old(self).wf(),
            x < old(self).objects@.len(),
            y < old(self).objects@.len(),
            x != y,
        ensures
            final(self).wf(),
            final(self).objects@.len() == old(self).objects@.len(),
            final(self).top_id == old(self).top_id,
            final(self).clock == old(self).clock,
            contact_spec(old(self).objects@, x as int, y as int, hit, final(self).objects@, r.0, r.1@),
    {
        let ghost pre = self.objects@;
        let xt = self.objects[x].identify();
        let yt = self.objects[y].identify();
        if self.objects[x].carrier.is_carried || self.objects[y].carrier.is_carried {
            return (Contact::Skipped, Vec::new());
        }
        if !self.objects[x].get_does_collide(yt) && !self.objects[y].get_does_collide(xt) {
            return (Contact::Skipped, Vec::new());
        }
        if !hit {
            return (Contact::Missed, Vec::new());
        }
        if self.objects[x].carrier.will_carry(yt) {
            self.carry_tasks(x, y);
            return (Contact::Carry(x, y), Vec::new());
        }
        if self.objects[y].carrier.will_carry(xt) {
            self.carry_tasks(y, x);
            return (Contact::Carry(y, x), Vec::new());
        }
        let mut awards: Vec<Award> = Vec::new();
        let collide_x = self.objects[x].get_does_collide(yt);
        let collide_y = self.objects[y].get_does_collide(xt);
        let ax = self.hit_one(x, y);
        let ghost mid = self.objects@;
        match ax {
            Some(a) => awards.push(a),
            None => {},
        }
        let ay = self.hit_one(y, x);
        match ay {
            Some(a) => awards.push(a),
            None => {},
        }
        proof {
            assert(mid[y as int] == pre[y as int]);
            assert(self.objects@[x as int] == mid[x as int]);
            assert(awards@ =~= opt_seq(ax) + opt_seq(ay));
        }
        (Contact::Hit(collide_x || collide_y), awards)
    }

    /// Takes piece `carried` on board `carrier`: the carrier's list and
    /// space, the carried piece's marks (its berth is chosen afterwards),
    /// the carrier's health, which grows by the newcomer's maximum, and its
    /// top speed, which a missile on board raises by 3.
    pub fn carry_tasks(&mut self, carrier: usize, carried: usize)
        requires
            old(self).wf(),
            carrier < old(self).objects@.len(),
            carried < old(self).objects@.len(),
            carrier != carried,
            old(self).objects@[carrier as int].carrier.space_remaining > 0,
        ensures
            final(self).wf(),
            final(self).objects@.len() == old(self).objects@.len(),
            carry_spec(old(self).objects@, carrier as int, carried as int, final(self).objects@),
            final(self).top_id == old(self).top_id,
            final(self).clock == old(self).clock,
    {
        let ghost pre = self.objects@;
        let carried_id = self.objects[carried].id;
        let carrier_id = self.objects[carrier].id;
        let extra = self.objects[carried].max_health;
        proof {
            assert(pre[carrier as int].wf());
            assert(pre[carried as int].wf());
        }
        self.objects[carrier].carrier.take_on_board(carried_id);
        let m = self.objects[carrier].max_health;
        let h = self.objects[carrier].health;
        self.objects[carrier].max_health = if m + extra > HEALTH_CAP { HEALTH_CAP } else { m + extra };
        self.objects[carrier].health = if h + extra > HEALTH_CAP { HEALTH_CAP } else { h + extra };
        if self.objects[carried].kind == Kind::Missile && self.objects[carrier].speed_cap <= u32::MAX - 3 {
            let c = self.objects[carrier].speed_cap;
            self.objects[carrier].speed_cap = c + 3;
        }
        self.objects[carried].carrier.board(carrier_id, 0);
        proof {
            assert(ids_ok(self.objects@, self.top_id)) by {
                assert forall|k: int| 0 <= k < self.objects@.len() implies self.objects@[k].id == pre[k].id by {}
            }
            assert(all_wf(self.objects@)) by {
                assert forall|k: int| 0 <= k < self.objects@.len() implies #[trigger] self.objects@[k].wf() by {
                    assert(pre[k].wf());
                }
            }
        }
    }
}

pub open spec fn capped(v: int) -> i64 {
    if v > HEALTH_CAP { HEALTH_CAP } else { v as i64 }
}

/// `post` is `pre` after piece `b` boarded carrier `a`.
pub open spec fn carry_spec(pre: Seq<GamePieceBase>, a: int, b: int, post: Seq<GamePieceBase>) -> bool {
    &&& post.len() == pre.len()
    &&& forall|k: int| 0 <= k < pre.len() && k != a && k != b ==> post[k] == pre[k]
    &&& post[a].carrier.carrying@ == pre[a].carrier.carrying@.push(pre[b].id)
    &&& post[a].carrier.space_remaining == pre[a].carrier.space_remaining - 1
    &&& post[a].max_health == capped(pre[a].max_health + pre[b].max_health)
    &&& post[a].health == capped(pre[a].health + pre[b].max_health)
    &&& post[a].id == pre[a].id
    &&& post[a].speed_cap == (if pre[b].kind == Kind::Missile && pre[a].speed_cap <= u32::MAX - 3 {
        (pre[a].speed_cap + 3) as u32
    } else {
        pre[a].speed_cap
    })
    &&& post[b].carrier.is_carried
    &&& post[b].carrier.carrier == pre[a].id
    &&& post[b].carrier.berth == 0
    &&& post[b].id == pre[b].id
    &&& post[b].health == pre[b].health
}

/// What `resolve_contact` does to the pieces and which awards it hands out.
pub open spec fn contact_spec(
    pre: Seq<GamePieceBase>,
    x: int,
    y: int,
    hit: bool,
    post: Seq<GamePieceBase>,
    c: Contact,
    awards: Seq<Award>,
) -> bool {
    let px = pre[x];
    let py = pre[y];
    let xt = px.kind.tag_spec();
    let yt = py.kind.tag_spec();
    if px.carrier.is_carried || py.carrier.is_carried || (!px.kind.collides_spec(yt) && !py.kind.collides_spec(xt)) {
        c == Contact::Skipped && post == pre && awards.len() == 0
    } else if !hit {
        c == Contact::Missed && post == pre && awards.len() == 0
    } else if px.carrier.does_accept@.contains(yt) && px.carrier.space_remaining > 0 {
        c == Contact::Carry(x as usize, y as usize) && carry_spec(pre, x, y, post) && awards.len() == 0
    } else if py.carrier.does_accept@.contains(xt) && py.carrier.space_remaining > 0 {
        c == Contact::Carry(y as usize, x as usize) && carry_spec(pre, y, x, post) && awards.len() == 0
    } else {
        let nx = after_hit(px, py);
        let ny = after_hit(py, px);
        &&& c == Contact::Hit(px.kind.collides_spec(yt) || py.kind.collides_spec(xt))
        &&& post == pre.update(x, nx).update(y, ny)
        &&& awards == opt_seq(kill_award(nx, py, px.health)) + opt_seq(kill_award(ny, px, py.health))
    }
}

/// The pieces that do not belong to `banner`.
pub open spec fn not_of(banner: usize) -> spec_fn(GamePieceBase) -> bool {
    |p: GamePieceBase| p.banner != banner
}

/// `s` with the element at `i` replaced by the last one, and the last dropped.
pub open spec fn swap_removed(s: Seq<usize>, i: int) -> Seq<usize> {
    s.update(i, s.last()).drop_last()
}

/// `post` is `pre` with the first occurrence of `v` swap-removed, if any.
pub open spec fn without_first(pre: Seq<usize>, v: usize, post: Seq<usize>) -> bool {
    if is_member(pre, v) {
        exists|i: int|
            0 <= i < pre.len() && pre[i] == v && (forall|j: int| 0 <= j < i ==> pre[j] != v) && post
                == swap_removed(pre, i)
    } else {
        post == pre
    }
}

impl World {
    /// Swap-removes the first occurrence of `player` from team `t`.
    fn leave_team(&mut self, t: usize, player: usize)
        requires
            t < old(self).teams@.len(),
        ensures
            final(self).teams@.len() == old(self).teams@.len(),
            forall|u: int| 0 <= u < final(self).teams@.len() && u != t ==> #[trigger] final(self).teams@[u] == old(self).teams@[u],
            without_first(old(self).teams@[t as int].members@, player, final(self).teams@[t as int].members@),
            final(self).teams@[t as int].banner_id == old(self).teams@[t as int].banner_id,
            final(self).objects@ == old(self).objects@,
            final(self).top_id == old(self).top_id,
            final(self).clock == old(self).clock,
            final(self).living_players == old(self).living_players,
            final(self).isnt_rtf == old(self).isnt_rtf,
            final(self).zone_count == old(self).zone_count,
            final(self).banners.names@ == old(self).banners.names@,
            final(self).clients_connected == old(self).clients_connected,
            final(self).gamesize == old(self).gamesize,
    {
        let mut k: usize = 0;
        let n = self.teams[t].members.len();
        while k < n
            invariant
                t < self.teams@.len(),
                n == self.teams@[t as int].members@.len(),
                k <= n,
                self.teams@ == old(self).teams@,
                self.objects@ == old(self).objects@,
                self.top_id == old(self).top_id,
                self.clock == old(self).clock,
                self.living_players == old(self).living_players,
                self.isnt_rtf == old(self).isnt_rtf,
                self.zone_count == old(self).zone_count,
                self.banners.names@ == old(self).banners.names@,
                self.clients_connected == old(self).clients_connected,
                self.gamesize == old(self).gamesize,
                forall|j: int| 0 <= j < k ==> self.teams@[t as int].members@[j] != player,
            decreases n - k,
        {
            if self.teams[t].members[k] == player {
                let ghost pre = self.teams@[t as int].members@;
                self.teams[t].members.swap_remove(k);
                proof {
                    assert(is_member(pre, player));
                    assert(self.teams@[t as int].members@ =~= swap_removed(pre, k as int));
                }
                return;
            }
            k = k + 1;
        }
    }

    /// A player's castle fell: the player leaves every team and one fewer
    /// player lives. If a team now holds every living player, its banner is
    /// returned (the first such team) as the winner; otherwise, for a player
    /// who was not a real-time fighter, one fewer such player lives.
    pub fn player_died(&mut self, player: usize, was_rtf: bool) -> (r: Option<usize>)
        requires
            old(self).living_players > 0,
            !was_rtf ==> old(self).isnt_rtf > 0,
        ensures
            final(self).living_players == old(self).living_players - 1,
            final(self).teams@.len() == old(self).teams@.len(),
            forall|t: int| 0 <= t < final(self).teams@.len() ==> without_first(old(self).teams@[t].members@, player, #[trigger] final(self).teams@[t].members@)
                && final(self).teams@[t].banner_id == old(self).teams@[t].banner_id,
            r.is_none() == (forall|t: int| 0 <= t < final(self).teams@.len() ==> (#[trigger] final(self).teams@[t]).members@.len() != final(self).living_players),
            r.is_some() ==> exists|t: int| 0 <= t < final(self).teams@.len()
                && final(self).teams@[t].members@.len() == final(self).living_players
                && final(self).teams@[t].banner_id == r.unwrap()
                && forall|u: int| 0 <= u < t ==> (#[trigger] final(self).teams@[u]).members@.len() != final(self).living_players,
            final(self).isnt_rtf == (if r.is_none() && !was_rtf { (old(self).isnt_rtf - 1) as u32 } else { old(self).isnt_rtf }),
            final(self).objects@ == old(self).objects@,
            final(self).top_id == old(self).top_id,
            final(self).clock == old(self).clock,
            final(self).zone_count == old(self).zone_count,
            final(self).banners.names@ == old(self).banners.names@,
            final(self).clients_connected == old(self).clients_connected,
            final(self).gamesize == old(self).gamesize,
    {
        let mut t: usize = 0;
        while t < self.teams.len()
            invariant
                t <= self.teams@.len(),
                self.teams@.len() == old(self).teams@.len(),
                forall|u: int| 0 <= u < t ==> without_first(old(self).teams@[u].members@, player, #[trigger] self.teams@[u].members@)
                    && self.teams@[u].banner_id == old(self).teams@[u].banner_id,
                forall|u: int| t <= u < self.teams@.len() ==> #[trigger] self.teams@[u] == old(self).teams@[u],
                self.objects@ == old(self).objects@,
                self.top_id == old(self).top_id,
                self.clock == old(self).clock,
                self.living_players == old(self).living_players,
                self.isnt_rtf == old(self).isnt_rtf,
                self.zone_count == old(self).zone_count,
                self.banners.names@ == old(self).banners.names@,
                self.clients_connected == old(self).clients_connected,
                self.gamesize == old(self).gamesize,
            decreases self.teams@.len() - t,
        {
            let ghost before = self.teams@;
            self.leave_team(t, player);
            proof {
                assert forall|u: int| 0 <= u < t + 1 implies without_first(old(self).teams@[u].members@, player, #[trigger] self.teams@[u].members@)
                    && self.teams@[u].banner_id == old(self).teams@[u].banner_id by {
                    if u < t {
                        assert(self.teams@[u] == before[u]);
                    } else {
                        assert(before[u] == old(self).teams@[u]);
                    }
                }
            }
            t = t + 1;
        }
        self.living_players = self.living_players - 1;
        let ghost mid = self.teams@;
        let mut i: usize = 0;
        while i < self.teams.len()
            invariant
                i <= self.teams@.len(),
                self.teams@ == mid,
                mid.len() == old(self).teams@.len(),
                forall|u: int| 0 <= u < mid.len() ==> without_first(old(self).teams@[u].members@, player, #[trigger] mid[u].members@)
                    && mid[u].banner_id == old(self).teams@[u].banner_id,
                self.living_players == old(self).living_players - 1,
                self.objects@ == old(self).objects@,
                self.top_id == old(self).top_id,
                self.clock == old(self).clock,
                self.isnt_rtf == old(self).isnt_rtf,
                self.zone_count == old(self).zone_count,
                self.banners.names@ == old(self).banners.names@,
                self.clients_connected == old(self).clients_connected,
                self.gamesize == old(self).gamesize,
                forall|u: int| 0 <= u < i ==> (#[trigger] self.teams@[u]).members@.len() != self.living_players,
            decreases self.teams@.len() - i,
        {
            if self.teams[i].members.len() == self.living_players as usize {
                assert(self.teams@[i as int].members@.len() == self.living_players);
                assert(self.teams@ == mid);
                assert forall|t: int| 0 <= t < self.teams@.len() implies without_first(old(self).teams@[t].members@, player, #[trigger] self.teams@[t].members@)
                    && self.teams@[t].banner_id == old(self).teams@[t].banner_id by {
                    assert(self.teams@[t] == mid[t]);
                }
                return Some(self.teams[i].banner_id);
            }
            i = i + 1;
        }
        if !was_rtf {
            self.isnt_rtf = self.isnt_rtf - 1;
        }
        None
    }

    /// Removes every piece of `banner`, keeping the order of the rest; the
    /// system's banner 0 is never cleared. Returns the ids removed.
    pub fn clear_of_banner(&mut self, banner: usize) -> (removed: Vec<u32>)
        requires
            old(self).wf(),
        ensures
            final(self).wf(),
            banner == 0 ==> final(self).objects@ == old(self).objects@ && removed@.len() == 0,
            banner != 0 ==> final(self).objects@ == old(self).objects@.filter(not_of(banner)),
            removed@.len() + final(self).objects@.len() == old(self).objects@.len(),
            final(self).top_id == old(self).top_id,
            final(self).teams@ == old(self).teams@,
            final(self).clock == old(self).clock,
            final(self).living_players == old(self).living_players,
            final(self).isnt_rtf == old(self).isnt_rtf,
            final(self).clients_connected == old(self).clients_connected,
    {
        let mut removed: Vec<u32> = Vec::new();
        if banner == 0 {
            return removed;
        }
        let ghost o = self.objects@;
        let ghost n = o.len();
        let ghost mut j: int = 0;
        let mut i: usize = 0;
        while i < self.objects.len()
            invariant
                self.wf(),
                0 <= j <= n,
                n == o.len(),
                self.objects@ == o.subrange(0, j).filter(not_of(banner)) + o.subrange(j, n as int),
                i == o.subrange(0, j).filter(not_of(banner)).len(),
                removed@.len() + i == j,
                self.clients_connected == old(self).clients_connected,
                self.gamesize == old(self).gamesize,
                self.top_id == old(self).top_id,
                self.teams@ == old(self).teams@,
                self.clock == old(self).clock,
                self.living_players == old(self).living_players,
                self.isnt_rtf == old(self).isnt_rtf,
            decreases n - j,
        {
            let ghost before = self.objects@;
            proof {
                o.subrange(0, j).lemma_filter_len(not_of(banner));
                assert(self.objects@[i as int] == o[j]);
                assert(o.subrange(0, j + 1).drop_last() =~= o.subrange(0, j));
                assert(o.subrange(0, j + 1).last() == o[j]);
                reveal(Seq::filter);
                let pre_f = o.subrange(0, j).filter(not_of(banner));
                if not_of(banner)(o[j]) {
                    assert(o.subrange(0, j + 1).filter(not_of(banner)) == pre_f.push(o[j]));
                } else {
                    assert(o.subrange(0, j + 1).filter(not_of(banner)) == pre_f);
                }
            }
            if self.objects[i].banner == banner {
                let p = self.objects.remove(i);
                proof {
                    lemma_remove_ids(before, i as int, self.top_id);
                    assert(self.objects@ =~= o.subrange(0, j + 1).filter(not_of(banner)) + o.subrange(j + 1, n as int));
                    j = j + 1;
                }
                removed.push(p.id);
            } else {
                proof {
                    assert(self.objects@ =~= o.subrange(0, j + 1).filter(not_of(banner)) + o.subrange(j + 1, n as int));
                    j = j + 1;
                }
                i = i + 1;
            }
        }
        proof {
            assert(o.subrange(0, j) =~= o);
            assert(self.objects@ =~= o.filter(not_of(banner)));
        }
        removed
    }
}

impl World {
    /// Buys the next tier of `track` for the piece with id `thing`: the
    /// least tier it does not hold yet. Returns the upgrade applied, or none
    /// when there is no such piece or it holds as many upgrades as it can.
    pub fn upgrade_next_tier(&mut self, thing: u32, track: char) -> (r: Option<Upgrade>)
        requires
            old(self).wf(),
        ensures
            final(self).wf(),
            final(self).objects@.len() == old(self).objects@.len(),
            final(self).top_id == old(self).top_id,
            final(self).clock == old(self).clock,
            !has_id(old(self).objects@, thing) ==> r.is_none() && final(self).objects@ == old(self).objects@,
            r.is_none() ==> final(self).objects@ == old(self).objects@,
            r.is_some() ==> exists|i: int| {
                &&& 0 <= i < old(self).objects@.len()
                &&& old(self).objects@[i].id == thing
                &&& r.unwrap().track == track
                &&& 1 <= r.unwrap().tier
                &&& !has_upgrade(old(self).objects@[i].upgrades@, track, r.unwrap().tier as int)
                &&& (forall|j: int| 1 <= j < r.unwrap().tier ==> has_upgrade(old(self).objects@[i].upgrades@, track, j))
                &&& final(self).objects@ == old(self).objects@.update(i, GamePieceBase {
                        upgrades: final(self).objects@[i].upgrades,
                        ..upgrade_effect(old(self).objects@[i], r.unwrap())
                    })
                &&& final(self).objects@[i].upgrades@ == old(self).objects@[i].upgrades@.push(r.unwrap())
            },
            has_id(old(self).objects@, thing) && r.is_none() ==> exists|i: int|
                0 <= i < old(self).objects@.len() && old(self).objects@[i].id == thing
                    && old(self).objects@[i].upgrades@.len() >= MAX_UPGRADES,
    {
        let ghost pre = self.objects@;
        match self.obj_lookup(thing) {
            Some(i) => {
                if self.objects[i].upgrades.len() >= MAX_UPGRADES {
                    return None;
                }
                proof {
                    assert(pre[i as int].wf());
                }
                let tier = self.objects[i].next_tier(track);
                let u = Upgrade { track, tier };
                self.objects[i].upgrade(u);
                proof {
                    assert(self.objects@ =~= pre.update(i as int, self.objects@[i as int]));
                    assert(ids_ok(self.objects@, self.top_id)) by {
                        assert forall|k: int| 0 <= k < self.objects@.len() implies self.objects@[k].id == pre[k].id by {}
                    }
                    assert(all_wf(self.objects@)) by {
                        assert forall|k: int| 0 <= k < self.objects@.len() implies #[trigger] self.objects@[k].wf() by {
                            assert(pre[k].wf());
                        }
                    }
                }
                Some(u)
            },
            None => None,
        }
    }
}

/// A change to piece `i` alone that keeps its id and leaves it well formed
/// keeps the store's invariants.
proof fn lemma_one_changed(pre: Seq<GamePieceBase>, post: Seq<GamePieceBase>, i: int, top: u32)
    requires
        ids_ok(pre, top),
        all_wf(pre),
        0 <= i < pre.len(),
        post == pre.update(i, post[i]),
        post[i].id == pre[i].id,
        post[i].wf(),
    ensures
        ids_ok(post, top),
        all_wf(post),
        forall|k: int| 0 <= k < post.len() ==> #[trigger] post[k].id == pre[k].id,
{
    assert forall|k: int| 0 <= k < post.len() implies #[trigger] post[k].id == pre[k].id && post[k].wf() by {
        if k != i {
            assert(pre[k].wf());
        }
    }
    lemma_same_ids(pre, post, top);
}

/// A change that keeps every id keeps them distinct and bounded.
proof fn lemma_ids_kept(pre: Seq<GamePieceBase>, post: Seq<GamePieceBase>, top: u32)
    requires
        ids_ok(pre, top),
        post.len() == pre.len(),
        forall|k: int| 0 <= k < post.len() ==> post[k].id == pre[k].id,
    ensures
        ids_ok(post, top),
        forall|k: int| 0 <= k < post.len() ==> #[trigger] post[k].id == pre[k].id,
{
    lemma_same_ids(pre, post, top);
}

/// Proves the invariants of the store after a change that keeps every id
/// and keeps every record well formed.
proof fn lemma_same_ids(pre: Seq<GamePieceBase>, post: Seq<GamePieceBase>, top: u32)
    requires
        ids_ok(pre, top),
        post.len() == pre.len(),
        forall|k: int| 0 <= k < post.len() ==> #[trigger] post[k].id == pre[k].id,
    ensures
        ids_ok(post, top),
{
    assert forall|a: int, b: int| 0 <= a < post.len() && 0 <= b < post.len() && a != b implies post[a].id != post[b].id by {
        assert(pre[a].id != pre[b].id);
    }
    assert forall|a: int| 0 <= a < post.len() implies #[trigger] post[a].id < top by {
        assert(pre[a].id < top);
    }
}

impl World {
    /// Lets piece `carried` off carrier `carrier`: one more place on board,
    /// the piece no longer carried, the carrier's maximum health back down
    /// by the piece's (never below one thousandth), and a missile's speed
    /// bonus taken back.
    pub fn drop_carried(&mut self, carrier: usize, carried: usize)
        requires
            old(self).wf(),
            carrier < old(self).objects@.len(),
            carried < old(self).objects@.len(),
            carrier != carried,
            old(self).objects@[carrier as int].carrier.space_remaining < u32::MAX,
        ensures
            final(self).wf(),
            final(self).objects@.len() == old(self).objects@.len(),
            forall|k: int| 0 <= k < old(self).objects@.len() && k != carrier && k != carried ==> final(self).objects@[k] == old(self).objects@[k],
            final(self).objects@[carrier as int].carrier.space_remaining == old(self).objects@[carrier as int].carrier.space_remaining + 1,
            final(self).objects@[carrier as int].carrier.carrying@ == old(self).objects@[carrier as int].carrier.carrying@,
            final(self).objects@[carrier as int].max_health == (if old(self).objects@[carrier as int].max_health - old(self).objects@[carried as int].max_health < 1 { 1 } else { old(self).objects@[carrier as int].max_health - old(self).objects@[carried as int].max_health }),
            final(self).objects@[carrier as int].health == old(self).objects@[carrier as int].health,
            final(self).objects@[carrier as int].speed_cap == (if old(self).objects@[carried as int].kind == Kind::Missile {
                if old(self).objects@[carrier as int].speed_cap >= 3 { (old(self).objects@[carrier as int].speed_cap - 3) as u32 } else { 0 }
            } else {
                old(self).objects@[carrier as int].speed_cap
            }),
            !final(self).objects@[carried as int].carrier.is_carried,
            final(self).objects@[carried as int].health == old(self).objects@[carried as int].health,
            final(self).top_id == old(self).top_id,
            final(self).clock == old(self).clock,
    {
        let ghost pre = self.objects@;
        proof {
            assert(pre[carrier as int].wf());
            assert(pre[carried as int].wf());
        }
        let less = self.objects[carried].max_health;
        self.objects[carrier].carrier.release_one();
        let m = self.objects[carrier].max_health - less;
        self.objects[carrier].max_health = if m < 1 { 1 } else { m };
        if self.objects[carried].kind == Kind::Missile {
            let c = self.objects[carrier].speed_cap;
            self.objects[carrier].speed_cap = if c >= 3 { c - 3 } else { 0 };
        }
        self.objects[carried].carrier.is_carried = false;
        proof {
            lemma_same_ids(pre, self.objects@, self.top_id);
            assert(all_wf(self.objects@)) by {
                assert forall|k: int| 0 <= k < self.objects@.len() implies #[trigger] self.objects@[k].wf() by {
                    assert(pre[k].wf());
                }
            }
        }
    }

    /// Releases every live piece whose id is in `cargo` (the load of a
    /// carrier that died) and returns the ids of `cargo` that are live, in
    /// order.
    pub fn release_cargo(&mut self, cargo: &Vec<u32>) -> (released: Vec<u32>)
        requires
            old(self).wf(),
        ensures
            final(self).wf(),
            final(self).objects@.len() == old(self).objects@.len(),
            forall|k: int| 0 <= k < final(self).objects@.len() ==> (#[trigger] final(self).objects@[k]) == (if cargo@.contains(old(self).objects@[k].id) {
                GamePieceBase { carrier: final(self).objects@[k].carrier, ..old(self).objects@[k] }
            } else {
                old(self).objects@[k]
            }),
            forall|k: int| 0 <= k < final(self).objects@.len() && cargo@.contains(old(self).objects@[k].id) ==> !(#[trigger] final(self).objects@[k]).carrier.is_carried,
            released@ == cargo@.filter(live(old(self).objects@)),
            final(self).top_id == old(self).top_id,
            final(self).clock == old(self).clock,
    {
        let mut i: usize = 0;
        while i < self.objects.len()
            invariant
                self.wf(),
                self.objects@.len() == old(self).objects@.len(),
                i <= self.objects@.len(),
                forall|k: int| 0 <= k < self.objects@.len() ==> (#[trigger] self.objects@[k]) == (if k < i && cargo@.contains(old(self).objects@[k].id) {
                    GamePieceBase { carrier: self.objects@[k].carrier, ..old(self).objects@[k] }
                } else {
                    old(self).objects@[k]
                }),
                forall|k: int| 0 <= k < i && cargo@.contains(old(self).objects@[k].id) ==> !(#[trigger] self.objects@[k]).carrier.is_carried,
                forall|k: int| 0 <= k < self.objects@.len() ==> #[trigger] self.objects@[k].id == old(self).objects@[k].id,
                self.top_id == old(self).top_id,
                self.clock == old(self).clock,
            decreases self.objects@.len() - i,
        {
            let id = self.objects[i].id;
            let mut hit = false;
            let mut k: usize = 0;
            while k < cargo.len()
                invariant
                    k <= cargo@.len(),
                    hit == (exists|j: int| 0 <= j < k && cargo@[j] == id),
                decreases cargo@.len() - k,
            {
                if cargo[k] == id {
                    hit = true;
                }
                k = k + 1;
            }
            let ghost pre = self.objects@;
            if hit {
                proof {
                    assert(pre[i as int].wf());
                }
                self.objects[i].carrier.is_carried = false;
                proof {
                    lemma_same_ids(pre, self.objects@, self.top_id);
                    assert(all_wf(self.objects@)) by {
                        assert forall|j: int| 0 <= j < self.objects@.len() implies #[trigger] self.objects@[j].wf() by {
                            assert(pre[j].wf());
                        }
                    }
                }
            }
            i = i + 1;
        }
        let released = self.live_ids(cargo);
        proof {
            let o = old(self).objects@;
            let f = self.objects@;
            assert(live(f) =~= live(o)) by {
                assert forall|x: u32| #[trigger] live(f)(x) == live(o)(x) by {
                    if has_id(o, x) {
                        let w = choose|w: int| 0 <= w < o.len() && o[w].id == x;
                        assert(f[w].id == x);
                    }
                    if has_id(f, x) {
                        let w = choose|w: int| 0 <= w < f.len() && f[w].id == x;
                        assert(o[w].id == x);
                    }
                }
            }
        }
        released
    }

    /// Fires the gun of the piece at index `shooter`, whose shot starts
    /// with shape `shape`: a bullet, or an anti-RTF missile for a gun that
    /// fires those, owned by the shooter's owner and living as many ticks as
    /// the gun's range. Lasers and mortars leave no piece: none is placed.
    /// Returns the new piece's id, if any.
    pub fn spawn_shot(&mut self, shooter: usize, shape: &BoxShape) -> (id: Option<u32>)
        requires
            old(self).wf(),
            shooter < old(self).objects@.len(),
            old(self).top_id < u32::MAX,
            shape.wf(),
        ensures
            final(self).wf(),
            ({
                let s = old(self).objects@[shooter as int];
                match s.bullet {
                    crate::kinds::BulletType::Bullet | crate::kinds::BulletType::AntiRtf => {
                        let p = final(self).objects@.last();
                        &&& id == Some(old(self).top_id)
                        &&& final(self).objects@.len() == old(self).objects@.len() + 1
                        &&& final(self).objects@.subrange(0, old(self).objects@.len() as int) == old(self).objects@
                        &&& p.kind == (if s.bullet == crate::kinds::BulletType::AntiRtf { Kind::AntiRtfBullet } else { Kind::Bullet })
                        &&& p.id == old(self).top_id
                        &&& p.banner == s.banner
                        &&& p.ttl == s.range
                        &&& p.health == p.max_health
                        &&& final(self).top_id == old(self).top_id + 1
                    },
                    _ => id.is_none() && final(self).objects@ == old(self).objects@ && final(self).top_id == old(self).top_id,
                }
            }),
            final(self).clock == old(self).clock,
    {
        let kind = match self.objects[shooter].bullet {
            crate::kinds::BulletType::AntiRtf => Kind::AntiRtfBullet,
            crate::kinds::BulletType::Bullet => Kind::Bullet,
            _ => {
                return None;
            },
        };
        let mut p = GamePieceBase::new(kind);
        p.ttl = self.objects[shooter].range;
        let banner = self.objects[shooter].banner;
        let id = self.add(p, Some(banner), shape);
        proof {
            assert(self.objects@.subrange(0, old(self).objects@.len() as int) =~= old(self).objects@);
        }
        Some(id)
    }

    /// The dead piece's radiation fields, `exploder`, placed for nobody as
    /// square fields centered at `(x, y)`, in order. Returns each new
    /// field's id with its recipe.
    pub fn explode(&mut self, x: i64, y: i64, exploder: &Vec<Explosion>) -> (r: Vec<(u32, Explosion)>)
        requires
            old(self).wf(),
            -SHAPE_BOUND <= x <= SHAPE_BOUND,
            -SHAPE_BOUND <= y <= SHAPE_BOUND,
            forall|k: int| 0 <= k < exploder@.len() ==> (#[trigger] exploder@[k]).size <= SHAPE_BOUND,
            old(self).top_id + exploder@.len() < u32::MAX,
        ensures
            final(self).wf(),
            r@.len() == exploder@.len(),
            final(self).objects@.len() == old(self).objects@.len() + exploder@.len(),
            final(self).objects@.subrange(0, old(self).objects@.len() as int) == old(self).objects@,
            forall|k: int| 0 <= k < exploder@.len() ==> {
                let p = #[trigger] final(self).objects@[old(self).objects@.len() + k];
                &&& p.kind == Kind::Radiation(exploder@[k].size)
                &&& p.id == old(self).top_id + k
                &&& p.banner == 0
                &&& r@[k] == (p.id, exploder@[k])
            },
            final(self).top_id == old(self).top_id + exploder@.len(),
            final(self).clock == old(self).clock,
    {
        let mut r: Vec<(u32, Explosion)> = Vec::new();
        let mut k: usize = 0;
        while k < exploder.len()
            invariant
                self.wf(),
                -SHAPE_BOUND <= x <= SHAPE_BOUND,
                -SHAPE_BOUND <= y <= SHAPE_BOUND,
                forall|j: int| 0 <= j < exploder@.len() ==> (#[trigger] exploder@[j]).size <= SHAPE_BOUND,
                old(self).top_id + exploder@.len() < u32::MAX,
                k <= exploder@.len(),
                r@.len() == k,
                self.top_id == old(self).top_id + k,
                self.objects@.len() == old(self).objects@.len() + k,
                self.objects@.subrange(0, old(self).objects@.len() as int) == old(self).objects@,
                forall|j: int| 0 <= j < k ==> {
                    let p = #[trigger] self.objects@[old(self).objects@.len() + j];
                    &&& p.kind == Kind::Radiation(exploder@[j].size)
                    &&& p.id == old(self).top_id + j
                    &&& p.banner == 0
                    &&& r@[j] == (p.id, exploder@[j])
                },
                self.clock == old(self).clock,
            decreases exploder@.len() - k,
        {
            let e = exploder[k];
            let side = e.size as i64;
            let shape = BoxShape { x, y, w: side, h: side, ux: UNIT, uy: 0 };
            let ghost pre = self.objects@;
            let id = self.add(GamePieceBase::new(Kind::Radiation(e.size)), None, &shape);
            r.push((id, e));
            proof {
                assert forall|j: int| 0 <= j < k + 1 implies {
                    let p = #[trigger] self.objects@[old(self).objects@.len() + j];
                    &&& p.kind == Kind::Radiation(exploder@[j].size)
                    &&& p.id == old(self).top_id + j
                    &&& p.banner == 0
                    &&& r@[j] == (p.id, exploder@[j])
                } by {
                    if j < k {
                        assert(self.objects@[old(self).objects@.len() + j] == pre[old(self).objects@.len() + j]);
                    }
                }
                assert(self.objects@.subrange(0, old(self).objects@.len() as int) =~= old(self).objects@) by {
                    assert forall|j: int| 0 <= j < old(self).objects@.len() implies self.objects@[j] == old(self).objects@[j] by {
                        assert(self.objects@[j] == pre[j]);
                        assert(pre.subrange(0, old(self).objects@.len() as int)[j] == old(self).objects@[j]);
                    }
                }
            }
            k = k + 1;
        }
        r
    }

    /// A nexus at index `nexus` that has run out of health comes back at
    /// full health, and the castles and real-time fighters of its occupants
    /// `players` lose all their health. Returns whether it had fallen.
    pub fn nexus_fallen(&mut self, nexus: usize, players: &Vec<usize>) -> (fell: bool)
        requires
            old(self).wf(),
            nexus < old(self).objects@.len(),
        ensures
            final(self).wf(),
            fell == (old(self).objects@[nexus as int].health <= 0),
            final(self).objects@.len() == old(self).objects@.len(),
            !fell ==> final(self).objects@ == old(self).objects@,
            fell ==> forall|k: int| 0 <= k < final(self).objects@.len() ==> (#[trigger] final(self).objects@[k]) == (
                if k == nexus {
                    GamePieceBase { health: old(self).objects@[k].max_health, ..old(self).objects@[k] }
                } else if players@.contains(old(self).objects@[k].banner) && (old(self).objects@[k].kind == crate::kinds::Kind::Castle || old(self).objects@[k].kind == crate::kinds::Kind::RtfCastle) {
                    GamePieceBase { health: -1000i64, ..old(self).objects@[k] }
                } else {
                    old(self).objects@[k]
                }),
            final(self).top_id == old(self).top_id,
            final(self).clock == old(self).clock,
    {
        if self.objects[nexus].health > 0 {
            return false;
        }
        let ghost o = self.objects@;
        let m = self.objects[nexus].max_health;
        self.objects[nexus].health = m;
        let mut i: usize = 0;
        while i < self.objects.len()
            invariant
                o == old(self).objects@,
                nexus < o.len(),
                self.objects@.len() == o.len(),
                i <= o.len(),
                ids_ok(o, self.top_id),
                all_wf(o),
                forall|k: int| 0 <= k < o.len() ==> (#[trigger] self.objects@[k]) == (
                    if k == nexus {
                        GamePieceBase { health: o[k].max_health, ..o[k] }
                    } else if k < i && players@.contains(o[k].banner) && (o[k].kind == crate::kinds::Kind::Castle || o[k].kind == crate::kinds::Kind::RtfCastle) {
                        GamePieceBase { health: -1000i64, ..o[k] }
                    } else {
                        o[k]
                    }),
                self.top_id == old(self).top_id,
                self.clock == old(self).clock,
                self.zone_count == old(self).zone_count,
                self.banners.wf(),
                self.gamesize == old(self).gamesize,
                self.top_id >= 1,
            decreases o.len() - i,
        {
            if i != nexus {
                let b = self.objects[i].banner;
                let is_castle = match self.objects[i].kind {
                    crate::kinds::Kind::Castle | crate::kinds::Kind::RtfCastle => true,
                    _ => false,
                };
                let mut occupied = false;
                let mut k: usize = 0;
                while k < players.len()
                    invariant
                        k <= players@.len(),
                        occupied == (exists|j: int| 0 <= j < k && players@[j] == b),
                    decreases players@.len() - k,
                {
                    if players[k] == b {
                        occupied = true;
                    }
                    k = k + 1;
                }
                if occupied && is_castle {
                    self.objects[i].health = -1000;
                }
            }
            i = i + 1;
        }
        proof {
            lemma_same_ids(o, self.objects@, self.top_id);
            assert(all_wf(self.objects@)) by {
                assert forall|k: int| 0 <= k < self.objects@.len() implies #[trigger] self.objects@[k].wf() by {
                    assert(o[k].wf());
                }
            }
        }
        true
    }
}

/// Whether the piece with id `id`, if it is live, is still carried.
pub open spec fn aboard(objs: Seq<GamePieceBase>, id: u32) -> bool {
    forall|j: int| 0 <= j < objs.len() && objs[j].id == id ==> (#[trigger] objs[j]).carrier.is_carried
}

impl World {
    /// Forgets, in the list of carrier `carrier`, the pieces that are live
    /// and no longer carried; ids of pieces that are gone stay listed.
    pub fn tidy_cargo(&mut self, carrier: usize)
        requires
            old(self).wf(),
            carrier < old(self).objects@.len(),
        ensures
            final(self).wf(),
            final(self).objects@.len() == old(self).objects@.len(),
            forall|k: int| 0 <= k < old(self).objects@.len() && k != carrier ==> final(self).objects@[k] == old(self).objects@[k],
            final(self).objects@[carrier as int].carrier.carrying@ == crate::carrier::kept(
                old(self).objects@[carrier as int].carrier.carrying@,
                Seq::new(old(self).objects@[carrier as int].carrier.carrying@.len(), |k: int| aboard(old(self).objects@, old(self).objects@[carrier as int].carrier.carrying@[k])),
            ),
            final(self).objects@[carrier as int].health == old(self).objects@[carrier as int].health,
            final(self).objects@[carrier as int].carrier.space_remaining == old(self).objects@[carrier as int].carrier.space_remaining,
            final(self).top_id == old(self).top_id,
            final(self).clock == old(self).clock,
    {
        let ghost o = self.objects@;
        let n = self.objects[carrier].carrier.carrying.len();
        let mut flags: Vec<bool> = Vec::new();
        let mut k: usize = 0;
        while k < n
            invariant
                o == self.objects@,
                carrier < o.len(),
                n == o[carrier as int].carrier.carrying@.len(),
                k <= n,
                flags@.len() == k,
                forall|j: int| 0 <= j < k ==> flags@[j] == aboard(o, o[carrier as int].carrier.carrying@[j]),
                ids_ok(o, self.top_id),
            decreases n - k,
        {
            let id = self.objects[carrier].carrier.carrying[k];
            let f = match self.obj_lookup(id) {
                Some(j) => {
                    proof {
                        assert forall|q: int| 0 <= q < o.len() && o[q].id == id implies (#[trigger] o[q]).carrier.is_carried == o[j as int].carrier.is_carried by {
                            if q != j {
                                assert(o[q].id != o[j as int].id);
                            }
                        }
                    }
                    self.objects[j].carrier.is_carried
                },
                None => true,
            };
            flags.push(f);
            k = k + 1;
        }
        let ghost pre = self.objects@;
        proof {
            assert(pre[carrier as int].wf());
            assert(flags@ =~= Seq::new(o[carrier as int].carrier.carrying@.len(), |j: int| aboard(o, o[carrier as int].carrier.carrying@[j])));
        }
        self.objects[carrier].carrier.forget_released(&flags);
        proof {
            lemma_same_ids(pre, self.objects@, self.top_id);
            assert(all_wf(self.objects@)) by {
                assert forall|q: int| 0 <= q < self.objects@.len() implies #[trigger] self.objects@[q].wf() by {
                    assert(pre[q].wf());
                }
            }
        }
    }
}

impl World {
    /// Ends the match: every piece goes, no player lives, every client is
    /// dropped, the clock waits again and only the system's banner is kept.
    pub fn reset(&mut self)
        requires
            old(self).wf(),
        ensures
            final(self).wf(),
            final(self).objects@.len() == 0,
            final(self).living_players == 0,
            final(self).isnt_rtf == 0,
            final(self).clients_connected == 0,
            final(self).clock.mode == GameMode::Waiting,
            final(self).clock.counter == 1,
            final(self).banners.names@ == old(self).banners.names@.subrange(0, 1),
            final(self).top_id == old(self).top_id,
            final(self).teams@ == old(self).teams@,
    {
        self.objects = Vec::new();
        self.isnt_rtf = 0;
        self.living_players = 0;
        self.clients_connected = 0;
        self.clock.set_mode(GameMode::Waiting);
        self.banners.clear_banners();
    }

    /// Creates a team named `name` (its banner name made unique) with the
    /// given password and no members.
    pub fn new_team(&mut self, name: String, password: String)
        requires
            old(self).wf(),
            old(self).banners.names@.len() < usize::MAX,
        ensures
            final(self).wf(),
            final(self).teams@.len() == old(self).teams@.len() + 1,
            final(self).teams@.subrange(0, old(self).teams@.len() as int) == old(self).teams@,
            final(self).teams@.last().id == old(self).teams@.len(),
            final(self).teams@.last().banner_id == old(self).banners.names@.len(),
            final(self).teams@.last().password@ == password@,
            final(self).teams@.last().members@.len() == 0,
            final(self).banners.names@.len() == old(self).banners.names@.len() + 1,
            final(self).objects@ == old(self).objects@,
            final(self).clock == old(self).clock,
            final(self).passwordless == old(self).passwordless,
    {
        let banner = self.banners.banner_add(name);
        let id = self.teams.len();
        self.teams.push(TeamData { id, banner_id: banner, password, members: Vec::new() });
        proof {
            assert(self.teams@.subrange(0, old(self).teams@.len() as int) =~= old(self).teams@);
        }
    }

    /// A client turned ready (or not). Once as many are ready as players
    /// live, the counter restarts and, unless it already is, the match goes
    /// to Play.
    pub fn ready_state(&mut self, ready: bool)
        requires
            old(self).wf(),
        ensures
            final(self).wf(),
            ({
                let r = if ready {
                    if old(self).readies < u32::MAX { old(self).readies + 1 } else { old(self).readies as int }
                } else {
                    if old(self).readies > 0 { old(self).readies - 1 } else { 0 }
                };
                if r >= old(self).living_players && old(self).clock.mode != GameMode::Play {
                    final(self).readies == 0 && final(self).clock.mode == GameMode::Play
                        && final(self).clock.counter == FPS * old(self).clock.play_secs
                } else {
                    final(self).readies == r && final(self).clock == old(self).clock
                }
            }),
            final(self).objects@ == old(self).objects@,
            final(self).living_players == old(self).living_players,
    {
        if ready {
            if self.readies < u32::MAX {
                self.readies = self.readies + 1;
            }
        } else if self.readies > 0 {
            self.readies = self.readies - 1;
        }
        if self.readies >= self.living_players && self.clock.mode != GameMode::Play {
            self.readies = 0;
            self.clock.set_mode(GameMode::Play);
        }
    }

    /// A client left. If its castle still stands, its player dies (which may
    /// end the match for a team, whose banner is returned); its pieces are
    /// removed; and the last client leaving resets the world. Returns the
    /// winning team's banner, if any, and whether the world was reset.
    pub fn disconnect(&mut self, banner: usize, was_rtf: bool, castle: Option<u32>) -> (r: (Option<usize>, bool))
        requires
            old(self).wf(),
        ensures
            final(self).wf(),
            r.1 == (old(self).clients_connected == 0),
            r.1 ==> final(self).objects@.len() == 0 && final(self).clock.mode == GameMode::Waiting,
            !r.1 ==> final(self).clients_connected == old(self).clients_connected - 1,
            !r.1 ==> forall|k: int| 0 <= k < final(self).objects@.len() ==> banner == 0 || (#[trigger] final(self).objects@[k]).banner != banner,
            ({
                let called = castle.is_some() && has_id(old(self).objects@, castle.unwrap()) && old(self).living_players > 0
                    && (was_rtf || old(self).isnt_rtf > 0);
                let living = old(self).living_players - 1;
                &&& final(self).teams@.len() == old(self).teams@.len()
                &&& called ==> (forall|t: int| 0 <= t < final(self).teams@.len() ==> without_first(old(self).teams@[t].members@, banner, #[trigger] final(self).teams@[t].members@)
                    && final(self).teams@[t].banner_id == old(self).teams@[t].banner_id)
                &&& called ==> (r.0.is_none() == forall|t: int| 0 <= t < final(self).teams@.len() ==> (#[trigger] final(self).teams@[t]).members@.len() != living)
                &&& called && r.0.is_some() ==> exists|t: int| 0 <= t < final(self).teams@.len()
                    && final(self).teams@[t].members@.len() == living
                    && final(self).teams@[t].banner_id == r.0.unwrap()
                    && forall|u: int| 0 <= u < t ==> (#[trigger] final(self).teams@[u]).members@.len() != living
                &&& !called ==> r.0.is_none() && final(self).teams@ == old(self).teams@
            }),
    {
        let mut winner: Option<usize> = None;
        let mut called = false;
        match castle {
            Some(c) => {
                if self.obj_lookup(c).is_some() && self.living_players > 0 && (was_rtf || self.isnt_rtf > 0) {
                    winner = self.player_died(banner, was_rtf);
                    called = true;
                }
            },
            None => {},
        }
        let ghost t1 = self.teams@;
        let ghost mid = self.objects@;
        self.clear_of_banner(banner);
        proof {
            if banner != 0 {
                assert forall|k: int| 0 <= k < self.objects@.len() implies (#[trigger] self.objects@[k]).banner != banner by {
                    mid.lemma_filter_pred(not_of(banner), k);
                }
            }
        }
        let result = if self.clients_connected == 0 {
            self.reset();
            (winner, true)
        } else {
            self.clients_connected = self.clients_connected - 1;
            (winner, false)
        };
        proof {
            assert(self.teams@ == t1);
            let living = old(self).living_players - 1;
            if called {
                assert(castle.is_some() && has_id(old(self).objects@, castle.unwrap()));
                if winner.is_some() {
                    let t = choose|t: int| 0 <= t < t1.len() && t1[t].members@.len() == living
                        && t1[t].banner_id == winner.unwrap()
                        && forall|u: int| 0 <= u < t ==> (#[trigger] t1[u]).members@.len() != living;
                    assert(self.teams@[t].members@.len() == living);
                }
            } else {
                if castle.is_some() {
                    let c = castle.unwrap();
                    assert(!(has_id(old(self).objects@, c) && old(self).living_players > 0 && (was_rtf || old(self).isnt_rtf > 0)));
                }
            }
        }
        result
    }
}

impl World {
    /// The index of the piece with id `id` if `banner` may steer it: its
    /// owner may, and a god may steer anything.
    pub fn steerable(&self, banner: usize, id: u32, superuser: bool) -> (r: Option<usize>)
        ensures
            r.is_some() ==> r.unwrap() < self.objects@.len() && self.objects@[r.unwrap() as int].id == id
                && (superuser || self.objects@[r.unwrap() as int].banner == banner),
            r.is_none() ==> forall|k: int| 0 <= k < self.objects@.len() && #[trigger] self.objects@[k].id == id
                ==> !superuser && self.objects@[k].banner != banner,
    {
        let mut i: usize = 0;
        while i < self.objects.len()
            invariant
                i <= self.objects@.len(),
                forall|k: int| 0 <= k < i && #[trigger] self.objects@[k].id == id ==> !superuser && self.objects@[k].banner != banner,
            decreases self.objects@.len() - i,
        {
            if self.objects[i].id == id && (self.objects[i].banner == banner || superuser) {
                return Some(i);
            }
            i = i + 1;
        }
        None
    }

    /// The answer to a role call from the client of `banner`: outside
    /// continuous mode, the last living player wins.
    pub fn role_call_winner(&self, banner: usize) -> (r: Option<usize>)
        ensures
            r == (if !self.clock.is_io && self.living_players == 1 { Some(banner) } else { None::<usize> }),
    {
        if !self.clock.is_io && self.living_players == 1 {
            Some(banner)
        } else {
            None
        }
    }
}

impl World {
    /// Places a new piece of kind `kind` with shape `shape` for `owner` on a
    /// spot with the given surroundings, if the kind's placement rule allows it there
    /// (pieces for nobody go anywhere). Returns its id, or 0 when refused.
    pub fn place(&mut self, kind: crate::kinds::Kind, owner: Option<usize>, s: &crate::placement::Surroundings, shape: &BoxShape) -> (id: u32)
        requires
            old(self).wf(),
            old(self).top_id < u32::MAX,
            shape.wf(),
        ensures
            final(self).wf(),
            id != 0 <==> (owner.is_none() || crate::placement::zone_allows_spec(kind.req_zone_spec(), *s)),
            id == 0 ==> final(self).objects@ == old(self).objects@ && final(self).top_id == old(self).top_id,
            id != 0 ==> id == old(self).top_id && final(self).top_id == old(self).top_id + 1
                && final(self).objects@.len() == old(self).objects@.len() + 1
                && final(self).objects@.subrange(0, old(self).objects@.len() as int) == old(self).objects@
                && final(self).objects@.last().kind == kind
                && final(self).objects@.last().id == id
                && final(self).objects@.last().banner == (match owner { Some(b) => b, None => 0 })
                && final(self).objects@.last().health == final(self).objects@.last().max_health,
            final(self).clock == old(self).clock,
    {
        if !crate::placement::zone_allows(kind.req_zone(), owner, s) {
            return 0;
        }
        let id = self.add(GamePieceBase::new(kind), owner, shape);
        proof {
            assert(self.objects@.subrange(0, old(self).objects@.len() as int) =~= old(self).objects@);
        }
        id
    }
}

/// Whether some live piece other than `me` on board `carrier` sits in `b`.
pub open spec fn berth_of_load(objs: Seq<GamePieceBase>, carrier: int, me: int, b: usize) -> bool {
    exists|j: int| 0 <= j < objs.len() && j != me && objs[carrier].carrier.carrying@.contains(objs[j].id)
        && objs[j].carrier.berth == b
}

/// Whether `occ` lists exactly the berths of the pieces, other than `me`,
/// that `carrier` has on board and that are live.
pub open spec fn berths_taken(objs: Seq<GamePieceBase>, carrier: int, me: int, occ: Seq<usize>) -> bool {
    &&& forall|k: int| 0 <= k < occ.len() ==> #[trigger] berth_of_load(objs, carrier, me, occ[k])
    &&& forall|j: int| 0 <= j < objs.len() && j != me && #[trigger] objs[carrier].carrier.carrying@.contains(objs[j].id)
        ==> occ.contains(objs[j].carrier.berth)
}

impl World {
    /// Parks piece `carried`, just taken on board by `carrier`, in the berth
    /// nearest to where it arrived (row `row`, column `col`) among those
    /// not taken by the rest of the load.
    pub fn assign_berth(&mut self, carrier: usize, carried: usize, row: usize, col: usize) -> (b: usize)
        requires
            old(self).wf(),
            carrier < old(self).objects@.len(),
            carried < old(self).objects@.len(),
            row < 2,
        ensures
            final(self).wf(),
            b < crate::carrier::BERTHS,
            exists|occ: Seq<usize>| berths_taken(old(self).objects@, carrier as int, carried as int, occ)
                && crate::carrier::berth_choice(occ, row as int, (if col < 5 { col } else { 4 }) as int, b as int),
            final(self).objects@ == old(self).objects@.update(carried as int, GamePieceBase {
                carrier: crate::carrier::CarrierProperties { berth: b, ..old(self).objects@[carried as int].carrier },
                ..old(self).objects@[carried as int]
            }),
            final(self).top_id == old(self).top_id,
            final(self).clock == old(self).clock,
    {
        let ghost o = self.objects@;
        let mut occ: Vec<usize> = Vec::new();
        let ghost mut idx: Seq<int> = Seq::empty();
        let mut j: usize = 0;
        while j < self.objects.len()
            invariant
                o == self.objects@,
                carrier < o.len(),
                carried < o.len(),
                j <= o.len(),
                idx.len() == occ@.len(),
                forall|k: int| 0 <= k < occ@.len() ==> 0 <= #[trigger] idx[k] < o.len() && idx[k] != carried
                    && o[carrier as int].carrier.carrying@.contains(o[idx[k]].id) && o[idx[k]].carrier.berth == occ@[k],
                forall|q: int| 0 <= q < j && q != carried && #[trigger] o[carrier as int].carrier.carrying@.contains(o[q].id)
                    ==> occ@.contains(o[q].carrier.berth),
            decreases o.len() - j,
        {
                let ghost pre = occ@;
            if j != carried {
                let id = self.objects[j].id;
                let on_board = has_id_in(&self.objects[carrier].carrier.carrying, id);
                if on_board {
                    occ.push(self.objects[j].carrier.berth);
                    proof {
                        lemma_push_keeps(pre, o[j as int].carrier.berth);
                        assert(occ@[occ@.len() - 1] == o[j as int].carrier.berth);
                        let ghost old_idx = idx;
                        idx = idx.push(j as int);
                        assert forall|k: int| 0 <= k < occ@.len() implies 0 <= #[trigger] idx[k] < o.len() && idx[k] != carried
                            && o[carrier as int].carrier.carrying@.contains(o[idx[k]].id) && o[idx[k]].carrier.berth == occ@[k] by {
                            if k < pre.len() {
                                assert(occ@[k] == pre[k]);
                                assert(idx[k] == old_idx[k]);
                            }
                        }
                    }
                }
            }
            proof {
                assert forall|q: int| 0 <= q < j + 1 && q != carried && #[trigger] o[carrier as int].carrier.carrying@.contains(o[q].id)
                    implies occ@.contains(o[q].carrier.berth) by {
                    if q < j {
                        assert(pre.contains(o[q].carrier.berth));
                        if occ@ != pre {
                            lemma_push_keeps(pre, o[j as int].carrier.berth);
                            assert(occ@ == pre.push(o[j as int].carrier.berth));
                        }
                    } else {
                        assert(occ@[occ@.len() - 1] == o[j as int].carrier.berth);
                    }
                }
            }
            j = j + 1;
        }
        let b = crate::carrier::choose_berth(&occ, row, col);
        let ghost before = self.objects@;
        self.objects[carried].carrier.berth = b;
        proof {
            assert(self.objects@ =~= before.update(carried as int, self.objects@[carried as int]));
            assert(o[carried as int].wf());
            lemma_one_changed(o, self.objects@, carried as int, self.top_id);
            assert forall|k: int| 0 <= k < occ@.len() implies #[trigger] berth_of_load(o, carrier as int, carried as int, occ@[k]) by {
                assert(0 <= idx[k] < o.len());
            }
            assert(j == o.len());
            assert forall|q: int| 0 <= q < o.len() && q != carried && #[trigger] o[carrier as int].carrier.carrying@.contains(o[q].id)
                implies occ@.contains(o[q].carrier.berth) by {}
            assert(berths_taken(o, carrier as int, carried as int, occ@));
        }
        b
    }

    /// A player's castle stood up: one more living player (and one more
    /// that is not a real-time fighter, unless it is one), and the player
    /// joins its team, if any.
    pub fn castle_joined(&mut self, banner: usize, team: Option<usize>, is_rtf: bool)
        requires
            old(self).living_players < u32::MAX,
            old(self).isnt_rtf < u32::MAX,
            team.is_some() ==> team.unwrap() < old(self).teams@.len(),
        ensures
            final(self).living_players == old(self).living_players + 1,
            final(self).isnt_rtf == (if is_rtf { old(self).isnt_rtf } else { (old(self).isnt_rtf + 1) as u32 }),
            final(self).teams@.len() == old(self).teams@.len(),
            forall|t: int| 0 <= t < final(self).teams@.len() ==> (#[trigger] final(self).teams@[t]).members@ == (
                if team.is_some() && team.unwrap() as int == t { old(self).teams@[t].members@.push(banner) } else { old(self).teams@[t].members@ })
                && final(self).teams@[t].banner_id == old(self).teams@[t].banner_id
                && final(self).teams@[t].password@ == old(self).teams@[t].password@
                && final(self).teams@[t].id == old(self).teams@[t].id,
            final(self).objects@ == old(self).objects@,
            final(self).clock == old(self).clock,
            final(self).top_id == old(self).top_id,
            final(self).zone_count == old(self).zone_count,
            final(self).gamesize == old(self).gamesize,
            final(self).banners.names@ == old(self).banners.names@,
    {
        self.living_players = self.living_players + 1;
        if !is_rtf {
            self.isnt_rtf = self.isnt_rtf + 1;
        }
        let ghost pre = self.teams@;
        match team {
            Some(t) => {
                self.teams[t].members.push(banner);
                proof {
                    assert forall|u: int| 0 <= u < self.teams@.len() && u != t implies self.teams@[u] == pre[u] by {}
                }
            },
            None => {},
        }
    }

    /// An enemy that nexus `nexus` spawned: owned by nobody, paying no
    /// score when killed, and reporting its death to the nexus. Returns its
    /// id.
    pub fn spawn_nexus_enemy(&mut self, nexus: usize, kind: Kind, shape: &BoxShape) -> (id: u32)
        requires
            old(self).wf(),
            nexus < old(self).objects@.len(),
            old(self).top_id < u32::MAX,
            shape.wf(),
        ensures
            final(self).wf(),
            id == old(self).top_id,
            final(self).objects@.len() == old(self).objects@.len() + 1,
            final(self).objects@.subrange(0, old(self).objects@.len() as int) == old(self).objects@,
            final(self).objects@.last().kind == kind,
            final(self).objects@.last().id == id,
            final(self).objects@.last().banner == 0,
            !final(self).objects@.last().worthit,
            final(self).objects@.last().death_subscriptions@ == seq![old(self).objects@[nexus as int].id],
            final(self).clock == old(self).clock,
    {
        let mut p = GamePieceBase::new(kind);
        p.worthit = false;
        let parent = self.objects[nexus].id;
        p.death_subscribe(parent);
        proof {
            assert(p.death_subscriptions@ =~= seq![parent]);
        }
        let id = self.add(p, None, shape);
        proof {
            assert(self.objects@.subrange(0, old(self).objects@.len() as int) =~= old(self).objects@);
        }
        id
    }
}

} // verus!
