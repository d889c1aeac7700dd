//! Target selection: which piece a targeting piece aims at. The distance to
//! each piece, and whether a shot at it would hit the shooter's own carrier,
//! come from the world's geometry; the choice itself is made here.
use vstd::prelude::*;
use crate::kinds::{TargetingMode, filter_admits_spec};
use crate::piece::GamePieceBase;
use crate::world::{World, TeamData, is_member};

verus! {

/// Whether banners `a` and `b` are members of a common team.
pub open spec fn allied(teams: Seq<TeamData>, a: usize, b: usize) -> bool {
    exists|t: int| 0 <= t < teams.len() && is_member(teams[t].members@, a) && is_member(teams[t].members@, b)
}

/// Whether `other` is off limits to `me`: `me` itself, or a piece of the
/// same player or of an ally (the system's pieces are fair game).
pub open spec fn friendly(teams: Seq<TeamData>, me: GamePieceBase, other: GamePieceBase) -> bool {
    other.id == me.id || (other.banner != 0 && (other.banner == me.banner || allied(teams, other.banner, me.banner)))
}

/// How `me` ranks `other` at distance `d` (less is better), if its mode
/// admits it at all: by distance within range (a range of 0 has no limit),
/// or, aiming at one id, only that piece.
pub open spec fn target_value(me: GamePieceBase, other: GamePieceBase, d: u64) -> Option<int> {
    match me.targeting {
        TargetingMode::Nearest => if me.target_range == 0 || d <= me.target_range {
            Some(d as int)
        } else {
            None
        },
        TargetingMode::Id(t) => if other.id == t {
            Some(0)
        } else {
            None
        },
        TargetingMode::NoTarget => None,
    }
}

/// The rank of piece `j` for the piece at index `me`, if it is a candidate.
pub open spec fn candidate(
    teams: Seq<TeamData>,
    objs: Seq<GamePieceBase>,
    me: int,
    dist: Seq<u64>,
    unsafe_shot: Seq<bool>,
    j: int,
) -> Option<int> {
    if !friendly(teams, objs[me], objs[j]) && filter_admits_spec(objs[me].filter, objs[j].kind.tag_spec())
        && !unsafe_shot[j] {
        target_value(objs[me], objs[j], dist[j])
    } else {
        None
    }
}

fn member(v: &Vec<usize>, b: usize) -> (r: bool)
    ensures
        r == is_member(v@, b),
{
    let mut i: usize = 0;
    while i < v.len()
        invariant
            i <= v@.len(),
            forall|j: int| 0 <= j < i ==> v@[j] != b,
        decreases v@.len() - i,
    {
        if v[i] == b {
            return true;
        }
        i = i + 1;
    }
    false
}

impl World {
    fn allied(&self, a: usize, b: usize) -> (r: bool)
        ensures
            r == allied(self.teams@, a, b),
    {
        let mut t: usize = 0;
        while t < self.teams.len()
            invariant
                t <= self.teams@.len(),
                forall|u: int| 0 <= u < t ==> !(is_member(self.teams@[u].members@, a) && is_member(self.teams@[u].members@, b)),
            decreases self.teams@.len() - t,
        {
            if member(&self.teams[t].members, a) && member(&self.teams[t].members, b) {
                return true;
            }
            t = t + 1;
        }
        false
    }

    /// The target of the piece at index `me`, given the distance to every
    /// piece and whether a shot at it would endanger the shooter's carrier:
    /// the first piece of least rank among the candidates, if there is one.
    pub fn select_target(&self, me: usize, dist: &Vec<u64>, unsafe_shot: &Vec<bool>) -> (r: Option<usize>)
        requires
            me < self.objects@.len(),
            dist@.len() == self.objects@.len(),
            unsafe_shot@.len() == self.objects@.len(),
        ensures
            r.is_none() == (forall|j: int| 0 <= j < self.objects@.len() ==> #[trigger] candidate(self.teams@, self.objects@, me as int, dist@, unsafe_shot@, j).is_none()),
            r.is_some() ==> {
                let best = candidate(self.teams@, self.objects@, me as int, dist@, unsafe_shot@, r.unwrap() as int);
                &&& r.unwrap() < self.objects@.len()
                &&& best.is_some()
                &&& forall|j: int| 0 <= j < self.objects@.len() && (#[trigger] candidate(self.teams@, self.objects@, me as int, dist@, unsafe_shot@, j)).is_some()
                    ==> best.unwrap() <= candidate(self.teams@, self.objects@, me as int, dist@, unsafe_shot@, j).unwrap()
                &&& forall|j: int| 0 <= j < r.unwrap() && (#[trigger] candidate(self.teams@, self.objects@, me as int, dist@, unsafe_shot@, j)).is_some()
                    ==> best.unwrap() < candidate(self.teams@, self.objects@, me as int, dist@, unsafe_shot@, j).unwrap()
            },
    {
        let ghost objs = self.objects@;
        let ghost teams = self.teams@;
        let my = &self.objects[me];
        let mut best: Option<usize> = None;
        let mut best_value: u64 = 0;
        let mut i: usize = 0;
        while i < self.objects.len()
            invariant
                objs == self.objects@,
                teams == self.teams@,
                me < objs.len(),
                *my == objs[me as int],
                dist@.len() == objs.len(),
                unsafe_shot@.len() == objs.len(),
                i <= objs.len(),
                best.is_none() ==> (forall|j: int| 0 <= j < i ==> #[trigger] candidate(teams, objs, me as int, dist@, unsafe_shot@, j).is_none()),
                best.is_some() ==> {
                    &&& best.unwrap() < i
                    &&& candidate(teams, objs, me as int, dist@, unsafe_shot@, best.unwrap() as int) == Some(best_value as int)
                    &&& forall|j: int| 0 <= j < i && (#[trigger] candidate(teams, objs, me as int, dist@, unsafe_shot@, j)).is_some()
                        ==> best_value <= candidate(teams, objs, me as int, dist@, unsafe_shot@, j).unwrap()
                    &&& forall|j: int| 0 <= j < best.unwrap() && (#[trigger] candidate(teams, objs, me as int, dist@, unsafe_shot@, j)).is_some()
                        ==> best_value < candidate(teams, objs, me as int, dist@, unsafe_shot@, j).unwrap()
                },
            decreases objs.len() - i,
        {
            let ghost old_best = best;
            let ghost old_value = best_value;
            let ghost ci = candidate(teams, objs, me as int, dist@, unsafe_shot@, i as int);
            let ghost old_none = forall|j: int| 0 <= j < i ==> #[trigger] candidate(teams, objs, me as int, dist@, unsafe_shot@, j).is_none();
            assert(old_best.is_none() ==> old_none);
            let o = &self.objects[i];
            let friendly = o.id == my.id || (o.banner != 0 && (o.banner == my.banner || self.allied(o.banner, my.banner)));
            let viable = !friendly && my.filter.admits(o.identify()) && !unsafe_shot[i];
            if viable {
                let val: Option<u64> = match my.targeting {
                    TargetingMode::Nearest => {
                        if my.target_range == 0 || dist[i] <= my.target_range {
                            Some(dist[i])
                        } else {
                            None
                        }
                    },
                    TargetingMode::Id(t) => {
                        if o.id == t {
                            Some(0)
                        } else {
                            None
                        }
                    },
                    TargetingMode::NoTarget => None,
                };
                proof {
                    assert(candidate(teams, objs, me as int, dist@, unsafe_shot@, i as int) == match val {
                        Some(v) => Some(v as int),
                        None => None::<int>,
                    });
                }
                match val {
                    Some(v) => {
                        if best.is_none() || v < best_value {
                            best_value = v;
                            best = Some(i);
                        }
                    },
                    None => {},
                }
            } else {
                proof {
                    assert(candidate(teams, objs, me as int, dist@, unsafe_shot@, i as int).is_none());
                }
            }
            proof {
                assert(old_best.is_none() ==> old_none);
                assert(ci.is_some() ==> best.is_some());
                assert(best.is_some() && best != old_best ==> best == Some(i) && ci == Some(best_value as int));
                assert forall|j: int| 0 <= j < i + 1 && (#[trigger] candidate(teams, objs, me as int, dist@, unsafe_shot@, j)).is_some()
                    implies best.is_some() && best_value <= candidate(teams, objs, me as int, dist@, unsafe_shot@, j).unwrap() by {
                    if j < i && old_best.is_none() {
                        assert(old_none);
                        assert(candidate(teams, objs, me as int, dist@, unsafe_shot@, j).is_none());
                    }
                }
                if best.is_some() {
                    assert forall|j: int| 0 <= j < best.unwrap() && (#[trigger] candidate(teams, objs, me as int, dist@, unsafe_shot@, j)).is_some()
                        implies best_value < candidate(teams, objs, me as int, dist@, unsafe_shot@, j).unwrap() by {
                        if best != old_best {
                            if j < i && old_best.is_none() {
                                assert(old_none);
                                assert(candidate(teams, objs, me as int, dist@, unsafe_shot@, j).is_none());
                            }
                        }
                    }
                }
                if best.is_none() {
                    assert forall|j: int| 0 <= j < i + 1 implies #[trigger] candidate(teams, objs, me as int, dist@, unsafe_shot@, j).is_none() by {
                        if j < i {
                            assert(old_best.is_none());
                        }
                    }
                }
            }
            i = i + 1;
        }
        proof {
            if best.is_some() {
                let b = best.unwrap() as int;
                assert(0 <= b < self.objects@.len());
                assert(candidate(self.teams@, self.objects@, me as int, dist@, unsafe_shot@, b).is_some());
                assert(!(forall|j: int| 0 <= j < self.objects@.len() ==> #[trigger] candidate(self.teams@, self.objects@, me as int, dist@, unsafe_shot@, j).is_none())) by {
                    if forall|j: int| 0 <= j < self.objects@.len() ==> #[trigger] candidate(self.teams@, self.objects@, me as int, dist@, unsafe_shot@, j).is_none() {
                        assert(candidate(self.teams@, self.objects@, me as int, dist@, unsafe_shot@, b).is_none());
                    }
                }
            }
        }
        best
    }
}

} // verus!
