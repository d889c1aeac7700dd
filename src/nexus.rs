//! The nexus: a neutral structure whose zone of influence the players
//! occupy. While occupied it spawns enemies on a countdown; each spawned
//! enemy reports its death back, and every occupant is then paid the
//! enemy's capture value.
use vstd::prelude::*;
use crate::kinds::Kind;

verus! {

/// A piece seen by the nexus this tick: its owner, its tag, and whether its
/// shape meets the nexus's zone of influence.
#[derive(Debug, PartialEq, Eq, Structural, Clone, Copy)]
pub struct Occupant {
    pub banner: usize,
    pub tag: char,
    pub inside: bool,
}

pub struct Nexus {
    pub place_counter: u16,
    pub effect_radius: u32,
    /// Banners of the players in the zone, each once.
    pub players: Vec<usize>,
}

/// Whether the piece `o` makes its owner an occupant.
pub open spec fn occupies(o: Occupant) -> bool {
    o.banner != 0 && o.tag != 'b' && o.inside
}

/// No banner appears twice in `s`.
pub open spec fn distinct(s: Seq<usize>) -> bool {
    forall|i: int, j: int| 0 <= i < s.len() && 0 <= j < s.len() && i != j ==> s[i] != s[j]
}

/// The owners of the occupying pieces of `seen`, each once, in the order
/// of their first occupying piece.
pub open spec fn occupants(seen: Seq<Occupant>) -> Seq<usize>
    decreases seen.len(),
{
    if seen.len() == 0 {
        Seq::empty()
    } else {
        let rest = occupants(seen.drop_last());
        let o = seen.last();
        if occupies(o) && !rest.contains(o.banner) {
            rest.push(o.banner)
        } else {
            rest
        }
    }
}

proof fn lemma_occupants_distinct(seen: Seq<Occupant>)
    ensures
        distinct(occupants(seen)),
    decreases seen.len(),
{
    if seen.len() > 0 {
        lemma_occupants_distinct(seen.drop_last());
    }
}

impl Nexus {
    pub open spec fn wf(&self) -> bool {
        &&& self.place_counter > 0
        &&& distinct(self.players@)
    }

    pub fn new(effect_radius: u32) -> (r: Self)
        ensures
            r.wf(),
            r.place_counter == 100,
            r.effect_radius == effect_radius,
            r.players@.len() == 0,
    {
        Nexus { place_counter: 100, effect_radius, players: Vec::new() }
    }

    pub fn kind(&self) -> (r: Kind)
        ensures
            r == Kind::Nexus,
    {
        Kind::Nexus
    }

    /// Recomputes the occupants from the pieces seen this tick.
    pub fn refresh_players(&mut self, seen: &Vec<Occupant>)
        requires
            old(self).wf(),
        ensures
            final(self).wf(),
            final(self).players@ == occupants(seen@),
            final(self).place_counter == old(self).place_counter,
            final(self).effect_radius == old(self).effect_radius,
    {
        let mut players: Vec<usize> = Vec::new();
        let mut i: usize = 0;
        while i < seen.len()
            invariant
                i <= seen@.len(),
                players@ == occupants(seen@.subrange(0, i as int)),
            decreases seen@.len() - i,
        {
            let o = seen[i];
            proof {
                assert(seen@.subrange(0, i + 1).drop_last() =~= seen@.subrange(0, i as int));
                assert(seen@.subrange(0, i + 1).last() == o);
            }
            if o.banner != 0 && o.tag != 'b' && o.inside {
                let mut k: usize = 0;
                let mut present = false;
                while k < players.len()
                    invariant
                        k <= players@.len(),
                        present == players@.subrange(0, k as int).contains(o.banner),
                    decreases players@.len() - k,
                {
                    let ghost s0 = players@.subrange(0, k as int);
                    let ghost s1 = players@.subrange(0, k + 1);
                    proof {
                        assert(s1 =~= s0.push(players@[k as int]));
                        if s1.contains(o.banner) {
                            let w = choose|w: int| 0 <= w < s1.len() && s1[w] == o.banner;
                            if w < k {
                                assert(s0[w] == o.banner);
                            }
                        }
                        if s0.contains(o.banner) {
                            let w = choose|w: int| 0 <= w < s0.len() && s0[w] == o.banner;
                            assert(s1[w] == o.banner);
                        }
                        if players@[k as int] == o.banner {
                            assert(s1[k as int] == o.banner);
                        }
                    }
                    if players[k] == o.banner {
                        present = true;
                    }
                    k = k + 1;
                }
                proof {
                    assert(players@.subrange(0, k as int) =~= players@);
                }
                if !present {
                    players.push(o.banner);
                }
            }
            i = i + 1;
        }
        proof {
            assert(seen@.subrange(0, i as int) =~= seen@);
            lemma_occupants_distinct(seen@);
        }
        self.players = players;
    }

    /// One tick of the spawn countdown, which runs only while the nexus is
    /// occupied. Returns whether an enemy is spawned now; the countdown then
    /// starts over at a random value from 200 to 499.
    pub fn tick_counter(&mut self) -> (spawn: bool)
        requires
            old(self).wf(),
        ensures
            final(self).wf(),
            final(self).players@ == old(self).players@,
            final(self).effect_radius == old(self).effect_radius,
            spawn == (old(self).players@.len() > 0 && old(self).place_counter == 1),
            old(self).players@.len() == 0 ==> final(self).place_counter == old(self).place_counter,
            old(self).players@.len() > 0 && !spawn ==> final(self).place_counter == old(self).place_counter - 1,
            spawn ==> 200 <= final(self).place_counter < 500,
    {
        if self.players.len() == 0 {
            return false;
        }
        self.place_counter = self.place_counter - 1;
        if self.place_counter == 0 {
            let draw: u16 = rand::random::<u16>();
            self.place_counter = 200 + draw % 300;
            true
        } else {
            false
        }
    }

    /// A subscribed enemy died: every occupant earns `capture`.
    pub fn on_subscribed_death(&self, capture: u32) -> (awards: Vec<(usize, u32)>)
        ensures
            awards@.len() == self.players@.len(),
            forall|k: int| 0 <= k < awards@.len() ==> #[trigger] awards@[k] == (self.players@[k], capture),
    {
        let mut awards: Vec<(usize, u32)> = Vec::new();
        let mut i: usize = 0;
        while i < self.players.len()
            invariant
                i <= self.players@.len(),
                awards@.len() == i,
                forall|k: int| 0 <= k < i ==> #[trigger] awards@[k] == (self.players@[k], capture),
            decreases self.players@.len() - i,
        {
            awards.push((self.players[i], capture));
            i = i + 1;
        }
        awards
    }
}

/// Bound on the scores of a table that awards are paid into.
pub const SCORE_BOUND: i64 = 0x1000_0000_0000_0000;

/// Bound on the number of awards paid at once.
pub const MAX_AWARDS: usize = 0x10_0000;

/// The total that `awards` pays to `banner`.
pub open spec fn paid_to(awards: Seq<(usize, u32)>, banner: usize) -> int
    decreases awards.len(),
{
    if awards.len() == 0 {
        0
    } else {
        paid_to(awards.drop_last(), banner) + if awards.last().0 == banner {
            awards.last().1 as int
        } else {
            0
        }
    }
}

proof fn lemma_paid_to_bound(awards: Seq<(usize, u32)>, banner: usize)
    ensures
        0 <= paid_to(awards, banner) <= awards.len() * (u32::MAX as int),
    decreases awards.len(),
{
    if awards.len() > 0 {
        lemma_paid_to_bound(awards.drop_last(), banner);
    }
}

/// The sum of the scores of `banners`.
pub open spec fn score_sum(scores: Seq<i64>, banners: Seq<usize>) -> int
    decreases banners.len(),
{
    if banners.len() == 0 {
        0
    } else {
        score_sum(scores, banners.drop_last()) + scores[banners.last() as int]
    }
}

/// Pays each award into the score table, which is indexed by banner.
pub fn credit(scores: &mut Vec<i64>, awards: &Vec<(usize, u32)>)
    requires
        awards@.len() <= MAX_AWARDS,
        forall|k: int| 0 <= k < awards@.len() ==> (#[trigger] awards@[k]).0 < old(scores)@.len(),
        forall|b: int| 0 <= b < old(scores)@.len() ==> -SCORE_BOUND <= #[trigger] old(scores)@[b] <= SCORE_BOUND,
    ensures
        final(scores)@.len() == old(scores)@.len(),
        forall|b: usize| b < final(scores)@.len() ==> #[trigger] final(scores)@[b as int] == old(scores)@[b as int] + paid_to(awards@, b),
{
    let mut i: usize = 0;
    while i < awards.len()
        invariant
            i <= awards@.len(),
            awards@.len() <= MAX_AWARDS,
            forall|k: int| 0 <= k < awards@.len() ==> (#[trigger] awards@[k]).0 < old(scores)@.len(),
            forall|b: int| 0 <= b < old(scores)@.len() ==> -SCORE_BOUND <= #[trigger] old(scores)@[b] <= SCORE_BOUND,
            scores@.len() == old(scores)@.len(),
            forall|b: usize| b < scores@.len() ==> #[trigger] scores@[b as int] == old(scores)@[b as int] + paid_to(awards@.subrange(0, i as int), b),
        decreases awards@.len() - i,
    {
        let (b, amount) = awards[i];
        proof {
            assert(awards@.subrange(0, i + 1).drop_last() =~= awards@.subrange(0, i as int));
            assert(awards@.subrange(0, i + 1).last() == awards@[i as int]);
            lemma_paid_to_bound(awards@.subrange(0, i as int), b);
            assert(i * (u32::MAX as int) <= MAX_AWARDS * (u32::MAX as int)) by (nonlinear_arith)
                requires
                    i <= MAX_AWARDS,
            ;
        }
        let cur = scores[b];
        let ghost before = scores@;
        scores.set(b, cur + amount as i64);
        proof {
            assert forall|cc: usize| cc < scores@.len() implies #[trigger] scores@[cc as int] == old(scores)@[cc as int] + paid_to(awards@.subrange(0, i + 1), cc) by {
                let c = cc as int;
                let sub = awards@.subrange(0, i + 1);
                assert(sub.drop_last() =~= awards@.subrange(0, i as int));
                assert(sub.last() == (b, amount));
                assert(sub.len() > 0);
                let prev = awards@.subrange(0, i as int);
                assert(sub.drop_last() == prev);
                assert(paid_to(sub, cc) == paid_to(sub.drop_last(), cc) + if sub.last().0 == cc { sub.last().1 as int } else { 0 });
                assert(paid_to(sub, cc) == paid_to(prev, cc) + if sub.last().0 == cc { sub.last().1 as int } else { 0 });
                assert(before[c] == old(scores)@[c] + paid_to(prev, cc));
                assert(scores@ == before.update(b as int, (cur + amount) as i64));
                if c == b as int {
                    assert(cc == b);
                    assert(scores@[c] == cur + amount);
                } else {
                    assert(scores@[c] == before[c]);
                }
                assert(paid_to(sub, c as usize) == paid_to(awards@.subrange(0, i as int), c as usize) + if b == c as usize { amount as int } else { 0 });
            }
        }
        i = i + 1;
    }
    proof {
        assert(awards@.subrange(0, i as int) =~= awards@);
    }
}

/// What the awards of one nexus pay to a banner: `capture` to each
/// occupant, nothing to anyone else.
proof fn lemma_nexus_paid(players: Seq<usize>, awards: Seq<(usize, u32)>, capture: u32, b: usize)
    requires
        distinct(players),
        awards.len() == players.len(),
        forall|k: int| 0 <= k < awards.len() ==> #[trigger] awards[k] == (players[k], capture),
    ensures
        paid_to(awards, b) == if players.contains(b) { capture as int } else { 0 },
    decreases awards.len(),
{
    if awards.len() > 0 {
        let rest_players = players.drop_last();
        let rest_awards = awards.drop_last();
        assert forall|k: int| 0 <= k < rest_awards.len() implies #[trigger] rest_awards[k] == (rest_players[k], capture) by {
            assert(awards[k] == (players[k], capture));
        }
        lemma_nexus_paid(rest_players, rest_awards, capture, b);
        if players.last() == b {
            assert(!rest_players.contains(b)) by {
                if rest_players.contains(b) {
                    let k = choose|k: int| 0 <= k < rest_players.len() && rest_players[k] == b;
                    assert(players[k] == players[players.len() - 1]);
                }
            }
            assert(players.contains(b)) by {
                assert(players[players.len() - 1] == b);
            }
        } else {
            if players.contains(b) {
                let k = choose|k: int| 0 <= k < players.len() && players[k] == b;
                assert(rest_players[k] == b);
            }
            if rest_players.contains(b) {
                let k = choose|k: int| 0 <= k < rest_players.len() && rest_players[k] == b;
                assert(players[k] == b);
            }
        }
    }
}

proof fn lemma_sum_shift(pre: Seq<i64>, post: Seq<i64>, banners: Seq<usize>, c: int)
    requires
        forall|k: int| 0 <= k < banners.len() ==> (#[trigger] banners[k]) < pre.len() && banners[k] < post.len()
            && post[banners[k] as int] == pre[banners[k] as int] + c,
    ensures
        score_sum(post, banners) == score_sum(pre, banners) + c * banners.len(),
    decreases banners.len(),
{
    if banners.len() > 0 {
        let d = banners.drop_last();
        assert forall|k: int| 0 <= k < d.len() implies (#[trigger] d[k]) < pre.len() && d[k] < post.len()
            && post[d[k] as int] == pre[d[k] as int] + c by {
            assert(d[k] == banners[k]);
        }
        lemma_sum_shift(pre, post, d, c);
        assert(banners[banners.len() - 1] == banners.last());
        assert(c * banners.len() == c * d.len() + c) by (nonlinear_arith)
            requires
                banners.len() == d.len() + 1,
        ;
    }
}

/// When a subscribed enemy of a nexus dies and the awards are paid, the
/// scores of the occupants together rise by the enemy's capture value
/// times the number of occupants, and no other banner's score changes.
pub proof fn lemma_nexus_payout(
    nexus: Nexus,
    capture: u32,
    awards: Seq<(usize, u32)>,
    pre: Seq<i64>,
    post: Seq<i64>,
)
    requires
        nexus.wf(),
        awards.len() == nexus.players@.len(),
        forall|k: int| 0 <= k < awards.len() ==> #[trigger] awards[k] == (nexus.players@[k], capture),
        forall|k: int| 0 <= k < nexus.players@.len() ==> (#[trigger] nexus.players@[k]) < pre.len(),
        post.len() == pre.len(),
        forall|b: usize| b < post.len() ==> #[trigger] post[b as int] == pre[b as int] + paid_to(awards, b),
    ensures
        score_sum(post, nexus.players@) == score_sum(pre, nexus.players@) + capture * nexus.players@.len(),
        forall|b: usize| b < pre.len() && !nexus.players@.contains(b) ==> post[b as int] == pre[b as int],
{
    let players = nexus.players@;
    assert forall|k: int| 0 <= k < players.len() implies (#[trigger] players[k]) < pre.len() && players[k] < post.len()
        && post[players[k] as int] == pre[players[k] as int] + capture by {
        lemma_nexus_paid(players, awards, capture, players[k]);
        assert(players.contains(players[k]));
    }
    lemma_sum_shift(pre, post, players, capture as int);
    assert forall|b: usize| b < pre.len() && !players.contains(b) implies post[b as int] == pre[b as int] by {
        lemma_nexus_paid(players, awards, capture, b);
    }
}

} // verus!
