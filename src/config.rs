//! Settings read at startup, as plain values, and what applying them does
//! to the world: the automatic start and the teams.
use vstd::prelude::*;
use crate::mode::{Autonomous, ModeClock};
use crate::world::World;

verus! {

/// The automatic start: at least `min_players` living players, at most
/// `max_players` admitted, and a countdown of `timeout` ticks.
pub struct AutonomousDef {
    pub min_players: u32,
    pub max_players: u32,
    pub timeout: u32,
}

/// A team: its name (shown as its banner) and its password.
pub struct TeamDef {
    pub name: String,
    pub password: String,
}

impl ModeClock {
    /// Sets up the automatic start, its countdown full.
    pub fn set_autonomous(&mut self, def: &AutonomousDef)
        requires
            old(self).wf(),
        ensures
            final(self).wf(),
            final(self).autonomous == Some(Autonomous {
                min_players: def.min_players,
                max_players: def.max_players,
                remaining: def.timeout,
                timeout: def.timeout,
            }),
            final(self).mode == old(self).mode,
            final(self).counter == old(self).counter,
            final(self).strat_secs == old(self).strat_secs,
            final(self).play_secs == old(self).play_secs,
            final(self).is_io == old(self).is_io,
    {
        self.autonomous = Some(Autonomous {
            min_players: def.min_players,
            max_players: def.max_players,
            remaining: def.timeout,
            timeout: def.timeout,
        });
    }
}

impl World {
    /// Creates the configured teams in order; a world with teams needs a
    /// password.
    pub fn load_teams(&mut self, teams: &Vec<TeamDef>)
        requires
            old(self).wf(),
            old(self).banners.names@.len() + teams@.len() < usize::MAX,
        ensures
            final(self).wf(),
            teams@.len() > 0 ==> !final(self).passwordless,
            teams@.len() == 0 ==> final(self).passwordless == old(self).passwordless,
            final(self).teams@.len() == old(self).teams@.len() + teams@.len(),
            final(self).teams@.subrange(0, old(self).teams@.len() as int) == old(self).teams@,
            forall|k: int| 0 <= k < teams@.len() ==> {
                let t = #[trigger] final(self).teams@[old(self).teams@.len() + k];
                &&& t.password@ == teams@[k].password@
                &&& t.id == old(self).teams@.len() + k
                &&& t.members@.len() == 0
            },
            final(self).objects@ == old(self).objects@,
            final(self).clock == old(self).clock,
    {
        if teams.len() > 0 {
            self.passwordless = false;
        }
        let ghost base = self.teams@;
        let mut k: usize = 0;
        while k < teams.len()
            invariant
                self.wf(),
                k <= teams@.len(),
                self.banners.names@.len() == old(self).banners.names@.len() + k,
                old(self).banners.names@.len() + teams@.len() < usize::MAX,
                base == old(self).teams@,
                self.teams@.len() == base.len() + k,
                self.teams@.subrange(0, base.len() as int) == base,
                forall|j: int| 0 <= j < k ==> {
                    let t = #[trigger] self.teams@[base.len() + j];
                    &&& t.password@ == teams@[j].password@
                    &&& t.id == base.len() + j
                    &&& t.members@.len() == 0
                },
                teams@.len() > 0 ==> !self.passwordless,
                teams@.len() == 0 ==> self.passwordless == old(self).passwordless,
                self.objects@ == old(self).objects@,
                self.clock == old(self).clock,
            decreases teams@.len() - k,
        {
            let ghost pre = self.teams@;
            let name = teams[k].name.clone();
            let password = teams[k].password.clone();
            self.new_team(name, password);
            proof {
                assert(self.teams@.subrange(0, pre.len() as int) == pre);
                assert forall|j: int| 0 <= j < k + 1 implies {
                    let t = #[trigger] self.teams@[base.len() + j];
                    &&& t.password@ == teams@[j].password@
                    &&& t.id == base.len() + j
                    &&& t.members@.len() == 0
                } by {
                    if j < k {
                        assert(self.teams@[base.len() + j] == pre[base.len() + j]);
                    }
                }
                assert(self.teams@.subrange(0, base.len() as int) =~= base) by {
                    assert forall|j: int| 0 <= j < base.len() implies self.teams@[j] == base[j] by {
                        assert(self.teams@[j] == pre[j]);
                        assert(pre.subrange(0, base.len() as int)[j] == base[j]);
                    }
                }
            }
            k = k + 1;
        }
    }
}

} // verus!
