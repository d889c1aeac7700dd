//! A client's session state and the decisions its messages lead to: the
//! score and what it can buy, the per-turn wall budget, placement gating,
//! air-to-air missiles, and the outcome of joining.
use vstd::prelude::*;
use crate::mode::GameMode;
use crate::world::AuthState;

verus! {

#[derive(Debug, PartialEq, Eq, Structural, Clone, Copy)]
pub enum ClientMode {
    Unset,
    Normal,
    Defense,
    RealTimeFighter,
}

pub struct Client {
    pub is_superuser: bool,
    pub is_authorized: bool,
    pub score: i32,
    pub has_placed: bool,
    pub banner: usize,
    pub m_castle: Option<u32>,
    pub mode: ClientMode,
    pub team: Option<usize>,
    pub is_team_leader: bool,
    /// Set when the session is to be closed.
    pub kys: bool,
    pub a2a: u16,
    pub walls_remaining: u16,
    pub walls_cap: u16,
    pub game_cmode: GameMode,
    pub is_ready: bool,
}

/// What a shop purchase leads to.
#[derive(Debug, PartialEq, Eq, Structural, Clone, Copy)]
pub enum ShopAction {
    /// Nothing: no castle yet, or the price could not be paid.
    Nothing,
    /// Two more walls per turn, available at once.
    WallCap,
    /// The next tier of this upgrade track for the castle.
    Upgrade(u32, char),
    /// One more air-to-air missile.
    A2A,
    /// An unknown item.
    Invalid,
}

/// What a placement request leads to.
#[derive(Debug, PartialEq, Eq, Structural, Clone, Copy)]
pub enum PlaceAction {
    Refused,
    Castle,
    /// A piece of this tag, owned by the player (none for a god).
    Simple(u8, Option<usize>),
    CarrierVariant(u32, Option<usize>),
    /// A fort tied to this castle.
    Fort(u32, Option<usize>),
}

/// The price of a shop item and the upgrade track it buys, if any.
pub open spec fn shop_price(thing: u8) -> int {
    if thing == 'w' as u8 { 30 }
    else if thing == 'g' as u8 { 30 }
    else if thing == 's' as u8 { 40 }
    else if thing == 'f' as u8 { 70 }
    else if thing == 'h' as u8 { 150 }
    else if thing == 'a' as u8 { 100 }
    else { -1 }
}

pub open spec fn saturated(v: int) -> i32 {
    if v > i32::MAX { i32::MAX } else if v < i32::MIN { i32::MIN } else { v as i32 }
}

impl Client {
    pub fn new() -> (r: Self)
        ensures
            !r.is_superuser && !r.is_authorized && !r.has_placed && !r.kys && !r.is_ready && !r.is_team_leader,
            r.score == 0,
            r.banner == 0,
            r.m_castle.is_none(),
            r.mode == ClientMode::Unset,
            r.team.is_none(),
            r.a2a == 0,
            r.walls_cap == 2,
            r.walls_remaining == 4,
            r.game_cmode == GameMode::Waiting,
    {
        Client {
            is_superuser: false,
            is_authorized: false,
            score: 0,
            has_placed: false,
            banner: 0,
            m_castle: None,
            mode: ClientMode::Unset,
            team: None,
            is_team_leader: false,
            kys: false,
            a2a: 0,
            walls_remaining: 4,
            walls_cap: 2,
            game_cmode: GameMode::Waiting,
            is_ready: false,
        }
    }

    /// Adds `amount` (which may be negative) to the score, saturating at the
    /// bounds of the score's type.
    pub fn collect(&mut self, amount: i32)
        ensures
            *final(self) == (Client { score: saturated(old(self).score + amount), ..*old(self) }),
    {
        let v: i64 = self.score as i64 + amount as i64;
        self.score = if v > i32::MAX as i64 {
            i32::MAX
        } else if v < i32::MIN as i64 {
            i32::MIN
        } else {
            v as i32
        };
    }

    /// Pays `amount` if the score covers it; otherwise the session is
    /// marked for closing. Returns whether it paid.
    pub fn cost(&mut self, amount: i32) -> (paid: bool)
        requires
            amount >= 0,
        ensures
            paid == (old(self).score >= amount),
            paid ==> *final(self) == (Client { score: (old(self).score - amount) as i32, ..*old(self) }),
            !paid ==> *final(self) == (Client { kys: true, ..*old(self) }),
    {
        if self.score >= amount {
            self.collect(-amount);
            true
        } else {
            self.kys = true;
            false
        }
    }

    /// The price-check handshake for a piece just placed for this client:
    /// it is paid for if the score covers `price` (a god always may), and
    /// otherwise the world must remove it again.
    pub fn attach(&mut self, price: i32) -> (keep: bool)
        requires
            price >= 0,
        ensures
            keep == (old(self).score >= price || old(self).is_superuser),
            keep ==> *final(self) == (Client { score: saturated(old(self).score - price), ..*old(self) }),
            !keep ==> *final(self) == *old(self),
    {
        if self.score >= price || self.is_superuser {
            self.collect(-price);
            true
        } else {
            false
        }
    }

    /// A tick of the world was received: a new turn of Play restores the
    /// wall budget and clears the ready flag.
    pub fn on_tick(&mut self, mode: GameMode)
        ensures
            *final(self) == (if mode == GameMode::Play {
                Client { game_cmode: mode, walls_remaining: old(self).walls_cap, is_ready: false, ..*old(self) }
            } else {
                Client { game_cmode: mode, ..*old(self) }
            }),
    {
        self.game_cmode = mode;
        if mode == GameMode::Play {
            self.walls_remaining = self.walls_cap;
            self.is_ready = false;
        }
    }

    /// One more air-to-air missile (the count saturates).
    pub fn grant_a2a(&mut self)
        ensures
            *final(self) == (Client { a2a: if old(self).a2a < u16::MAX { (old(self).a2a + 1) as u16 } else { u16::MAX }, ..*old(self) }),
    {
        if self.a2a < u16::MAX {
            self.a2a = self.a2a + 1;
        }
    }

    /// Buys an item of the shop for the client's castle. Walls cost 30 (two
    /// more per turn), the gun upgrade 30, cloaking 40, drive 70, health
    /// 150 and an air-to-air missile 100. Without a castle nothing happens.
    pub fn shop(&mut self, thing: u8) -> (r: ShopAction)
        ensures
            old(self).m_castle.is_none() ==> r == ShopAction::Nothing && *final(self) == *old(self),
            old(self).m_castle.is_some() && shop_price(thing) < 0 ==> r == ShopAction::Invalid && *final(self) == *old(self),
            old(self).m_castle.is_some() && shop_price(thing) >= 0 && old(self).score < shop_price(thing) ==> r == ShopAction::Nothing && *final(self) == (Client { kys: true, ..*old(self) }),
            old(self).m_castle.is_some() && shop_price(thing) >= 0 && old(self).score >= shop_price(thing) ==> {
                let paid = Client { score: (old(self).score - shop_price(thing)) as i32, ..*old(self) };
                let c = old(self).m_castle.unwrap();
                if thing == 'w' as u8 {
                    r == ShopAction::WallCap && *final(self) == (Client {
                        walls_cap: if paid.walls_cap <= u16::MAX - 2 { (paid.walls_cap + 2) as u16 } else { u16::MAX },
                        walls_remaining: if paid.walls_remaining <= u16::MAX - 2 { (paid.walls_remaining + 2) as u16 } else { u16::MAX },
                        ..paid
                    })
                } else if thing == 'a' as u8 {
                    r == ShopAction::A2A && *final(self) == (Client { a2a: if paid.a2a < u16::MAX { (paid.a2a + 1) as u16 } else { u16::MAX }, ..paid })
                } else {
                    *final(self) == paid && r == ShopAction::Upgrade(c, if thing == 'g' as u8 { 'b' } else if thing == 's' as u8 { 's' } else if thing == 'f' as u8 { 'f' } else { 'h' })
                }
            },
    {
        let castle = match self.m_castle {
            Some(c) => c,
            None => {
                return ShopAction::Nothing;
            },
        };
        let price: i32 = if thing == ('w' as u8) {
            30
        } else if thing == ('g' as u8) {
            30
        } else if thing == ('s' as u8) {
            40
        } else if thing == ('f' as u8) {
            70
        } else if thing == ('h' as u8) {
            150
        } else if thing == ('a' as u8) {
            100
        } else {
            return ShopAction::Invalid;
        };
        if !self.cost(price) {
            return ShopAction::Nothing;
        }
        if thing == ('w' as u8) {
            self.walls_cap = if self.walls_cap <= u16::MAX - 2 { self.walls_cap + 2 } else { u16::MAX };
            self.walls_remaining = if self.walls_remaining <= u16::MAX - 2 { self.walls_remaining + 2 } else { u16::MAX };
            ShopAction::WallCap
        } else if thing == ('a' as u8) {
            self.grant_a2a();
            ShopAction::A2A
        } else if thing == ('g' as u8) {
            ShopAction::Upgrade(castle, 'b')
        } else if thing == ('s' as u8) {
            ShopAction::Upgrade(castle, 's')
        } else if thing == ('f' as u8) {
            ShopAction::Upgrade(castle, 'f')
        } else {
            ShopAction::Upgrade(castle, 'h')
        }
    }

    /// A request to place a piece of tag `tp`. During Play only a castle
    /// may be placed (a god may place anything); a castle only once (a second
    /// attempt closes the session); a wall only while the turn's budget
    /// lasts (a god's walls are free); a fort only once the client has a
    /// castle. A god's pieces belong to nobody.
    pub fn request_place(&mut self, tp: u8, variant: u32) -> (r: PlaceAction)
        ensures
            place_spec(*old(self), tp, variant, *final(self), r),
    {
        if self.game_cmode == GameMode::Play && tp != ('c' as u8) && !self.is_superuser {
            return PlaceAction::Refused;
        }
        let owner: Option<usize> = if self.is_superuser { None } else { Some(self.banner) };
        if tp == ('c' as u8) {
            if !self.has_placed {
                self.has_placed = true;
                PlaceAction::Castle
            } else {
                self.kys = true;
                PlaceAction::Refused
            }
        } else if tp == ('w' as u8) {
            if self.walls_remaining > 0 {
                if !self.is_superuser {
                    self.walls_remaining = self.walls_remaining - 1;
                }
                PlaceAction::Simple(tp, owner)
            } else {
                PlaceAction::Refused
            }
        } else if tp == ('K' as u8) {
            if variant == 0 {
                PlaceAction::Simple(tp, owner)
            } else {
                PlaceAction::CarrierVariant(variant, owner)
            }
        } else if tp == ('F' as u8) {
            match self.m_castle {
                Some(c) => PlaceAction::Fort(c, owner),
                None => PlaceAction::Refused,
            }
        } else {
            PlaceAction::Simple(tp, owner)
        }
    }

    /// A request to launch an air-to-air missile from the client's castle.
    /// With none left the session is marked for closing; with one and a
    /// castle, one is used and the castle's id returned.
    pub fn launch_a2a(&mut self) -> (r: Option<u32>)
        ensures
            old(self).a2a == 0 ==> r.is_none() && *final(self) == (Client { kys: true, ..*old(self) }),
            old(self).a2a > 0 && old(self).m_castle.is_none() ==> r.is_none() && *final(self) == *old(self),
            old(self).a2a > 0 && old(self).m_castle.is_some() ==> r == old(self).m_castle
                && *final(self) == (Client { a2a: (old(self).a2a - 1) as u16, ..*old(self) }),
    {
        if self.a2a == 0 {
            self.kys = true;
            return None;
        }
        match self.m_castle {
            Some(c) => {
                self.a2a = self.a2a - 1;
                Some(c)
            },
            None => None,
        }
    }

    /// The world answered the join request: a team member learns its team and
    /// whether it leads it; a god gains every right; a spectator or a wrong
    /// password stays unauthorised.
    pub fn joined(&mut self, auth: AuthState)
        ensures
            *final(self) == (match auth {
                AuthState::Team(t, leader) => Client { team: Some(t), is_team_leader: leader, is_authorized: true, ..*old(self) },
                AuthState::Single => Client { is_authorized: true, ..*old(self) },
                AuthState::God => Client { is_authorized: true, is_superuser: true, ..*old(self) },
                _ => *old(self),
            }),
    {
        match auth {
            AuthState::Team(t, leader) => {
                self.team = Some(t);
                self.is_team_leader = leader;
                self.is_authorized = true;
            },
            AuthState::Single => {
                self.is_authorized = true;
            },
            AuthState::God => {
                self.is_authorized = true;
                self.is_superuser = true;
            },
            _ => {},
        }
    }
}

pub open spec fn place_spec(pre: Client, tp: u8, variant: u32, post: Client, r: PlaceAction) -> bool {
    let owner = if pre.is_superuser { None } else { Some(pre.banner) };
    if pre.game_cmode == GameMode::Play && tp != 'c' as u8 && !pre.is_superuser {
        r == PlaceAction::Refused && post == pre
    } else if tp == 'c' as u8 {
        if !pre.has_placed {
            r == PlaceAction::Castle && post == Client { has_placed: true, ..pre }
        } else {
            r == PlaceAction::Refused && post == Client { kys: true, ..pre }
        }
    } else if tp == 'w' as u8 {
        if pre.walls_remaining > 0 {
            r == PlaceAction::Simple(tp, owner) && post == (if pre.is_superuser { pre } else {
                Client { walls_remaining: (pre.walls_remaining - 1) as u16, ..pre }
            })
        } else {
            r == PlaceAction::Refused && post == pre
        }
    } else if tp == 'K' as u8 {
        post == pre && r == (if variant == 0 { PlaceAction::Simple(tp, owner) } else { PlaceAction::CarrierVariant(variant, owner) })
    } else if tp == 'F' as u8 {
        post == pre && r == (match pre.m_castle {
            Some(c) => PlaceAction::Fort(c, owner),
            None => PlaceAction::Refused,
        })
    } else {
        post == pre && r == PlaceAction::Simple(tp, owner)
    }
}

} // verus!
