use arena_core::banners::BannerTable;
use arena_core::geometry::{BoxShape, UNIT};
use arena_core::kinds::Explosion;
use arena_core::config::{AutonomousDef, TeamDef};
use arena_core::kinds::Kind;
use arena_core::mode::{GameMode, ModeClock};
use arena_core::piece::{GamePieceBase, Upgrade};
use arena_core::placement::Surroundings;
use arena_core::world::{AuthState, Award, Contact, PieceUpdate, TeamData, World};

fn world(zones: usize) -> World {
    World::new(
        ModeClock::new(10, 5, false),
        zones,
        "admin words".to_string(),
        "main".to_string(),
        false,
        BannerTable::new("Syst3m".to_string()),
        5000,
    )
}

fn shape(kind: Kind, x: i64, y: i64) -> BoxShape {
    let (w, h) = kind.size();
    BoxShape { x, y, w, h, ux: UNIT, uy: 0 }
}

fn place(w: &mut World, kind: Kind, banner: usize) -> u32 {
    w.add(GamePieceBase::new(kind), Some(banner), &shape(kind, 100, 100))
}

fn team(id: usize, banner_id: usize, password: &str, members: Vec<usize>) -> TeamData {
    TeamData { id, banner_id, password: password.to_string(), members }
}

#[test]
fn ids_are_monotonic_and_looked_up() {
    let mut w = world(1);
    let a = place(&mut w, Kind::BasicFighter, 1);
    let b = place(&mut w, Kind::Wall, 2);
    assert_eq!((a, b), (1, 2));
    assert_eq!(w.obj_lookup(2), Some(1));
    assert!(w.delete_obj(1));
    assert!(!w.delete_obj(1));
    assert_eq!(w.obj_lookup(2), Some(0));
    assert_eq!(w.obj_lookup(1), None);
    let c = place(&mut w, Kind::Chest, 0);
    assert_eq!(c, 3);
    assert_eq!(w.objects[1].banner, 0);
}

#[test]
fn new_pieces_take_their_kind_defaults() {
    let f = GamePieceBase::new(Kind::BasicFighter);
    assert_eq!((f.max_health, f.health, f.reload, f.shoot_timer), (2000, 2000, 30, 20));
    assert!(f.shoots && f.is_editable());
    let t = GamePieceBase::new(Kind::TieFighter);
    assert_eq!((t.repeater.repeats, t.repeater.max_repeats), (1, 1));
    let k = GamePieceBase::new(Kind::Carrier);
    assert_eq!(k.carrier.space_remaining, 10);
    assert!(k.carrier.will_carry('t') && !k.carrier.will_carry('c'));
    let wall = GamePieceBase::new(Kind::Wall);
    assert_eq!((wall.max_health, wall.ttl), (5000, 2400));
    assert!(wall.does_grant_a2a());
}

#[test]
fn clearing_a_banner_spares_the_system() {
    let mut w = world(1);
    place(&mut w, Kind::Wall, 0);
    place(&mut w, Kind::BasicFighter, 3);
    place(&mut w, Kind::Wall, 4);
    place(&mut w, Kind::Sniper, 3);
    assert!(w.clear_of_banner(0).is_empty());
    assert_eq!(w.objects.len(), 4);
    assert_eq!(w.clear_of_banner(3), vec![2, 4]);
    let ids: Vec<u32> = w.objects.iter().map(|p| p.id).collect();
    assert_eq!(ids, vec![1, 3]);
}

#[test]
fn authentication_outcomes() {
    let mut w = world(1);
    w.teams.push(team(0, 5, "red", vec![]));
    w.teams.push(team(1, 6, "blue", vec![7]));
    assert_eq!(w.authenticate(&"admin words".to_string(), true), AuthState::God);
    assert_eq!(w.authenticate(&"main".to_string(), true), AuthState::Spectator);
    assert_eq!(w.authenticate(&"main".to_string(), false), AuthState::Single);
    assert_eq!(w.authenticate(&"".to_string(), false), AuthState::Spectator);
    assert_eq!(w.authenticate(&"red".to_string(), false), AuthState::Team(0, true));
    assert_eq!(w.authenticate(&"blue".to_string(), false), AuthState::Team(1, false));
    assert_eq!(w.authenticate(&"green".to_string(), false), AuthState::Error);
    w.passwordless = true;
    assert_eq!(w.authenticate(&"green".to_string(), false), AuthState::Single);
    assert_eq!(w.get_team_of_banner(7), Some(1));
    assert_eq!(w.get_team_of_banner(8), None);
}

#[test]
fn joining_depends_on_mode() {
    let mut w = world(1);
    assert!(w.new_user_can_join());
    w.clock.start();
    assert!(!w.new_user_can_join());
    w.clock.is_io = true;
    assert!(w.new_user_can_join());
}

#[test]
fn team_victory_when_one_team_holds_every_living_player() {
    let mut w = world(1);
    w.teams.push(team(0, 10, "a", vec![1, 2]));
    w.teams.push(team(1, 11, "b", vec![3]));
    w.living_players = 3;
    w.isnt_rtf = 3;
    assert_eq!(w.player_died(3, false), Some(10));
    assert_eq!(w.living_players, 2);
    assert!(w.teams[1].members.is_empty());
    assert_eq!(w.isnt_rtf, 3);
    let mut v = world(1);
    v.teams.push(team(0, 10, "a", vec![1, 2]));
    v.living_players = 4;
    v.isnt_rtf = 4;
    assert_eq!(v.player_died(1, false), None);
    assert_eq!((v.living_players, v.isnt_rtf), (3, 3));
    assert_eq!(v.teams[0].members, vec![2]);
}

#[test]
fn one_zone_compares_every_pair() {
    let mut w = world(1);
    for _ in 0..3 {
        place(&mut w, Kind::Wall, 1);
    }
    assert_eq!(w.candidate_pairs(), vec![(0, 1), (0, 2), (1, 2)]);
}

#[test]
fn zones_prune_the_pair_loop() {
    let mut w = world(2);
    for _ in 0..4 {
        place(&mut w, Kind::Wall, 1);
    }
    w.objects[0].zones = vec![0];
    w.objects[1].zones = vec![0, 1];
    w.objects[2].zones = vec![3];
    w.objects[3].zones = vec![1, 1];
    assert_eq!(w.candidate_pairs(), vec![(0, 1), (1, 3)]);
}

#[test]
fn bullet_damages_a_wall() {
    let mut w = world(1);
    let bullet = GamePieceBase::new(Kind::Bullet);
    w.add(bullet, Some(1), &shape(Kind::Bullet, 100, 100));
    place(&mut w, Kind::Wall, 2);
    let (c, awards) = w.resolve_contact(0, 1, true);
    assert_eq!(c, Contact::Hit(true));
    assert_eq!(awards, vec![Award { banner: 2, score: Some(0), a2a: false }]);
    assert_eq!(w.objects[1].health, 4000);
    assert_eq!(w.objects[0].health, 0);
    let (c, _) = w.resolve_contact(0, 1, false);
    assert_eq!(c, Contact::Missed);
}

#[test]
fn killing_a_wall_pays_an_air_to_air_missile() {
    let mut w = world(1);
    place(&mut w, Kind::BasicFighter, 1);
    place(&mut w, Kind::Wall, 2);
    w.objects[1].health = 500;
    let (c, awards) = w.resolve_contact(0, 1, true);
    assert_eq!(c, Contact::Hit(true));
    assert_eq!(awards, vec![Award { banner: 1, score: Some(0), a2a: true }]);
}

#[test]
fn castles_ignore_fighters() {
    let mut w = world(1);
    place(&mut w, Kind::Castle, 1);
    place(&mut w, Kind::BasicFighter, 2);
    assert_eq!(w.resolve_contact(0, 1, true).0, Contact::Skipped);
}

#[test]
fn carrier_takes_a_fighter_on_board() {
    let mut w = world(1);
    let k = place(&mut w, Kind::Carrier, 1);
    let f = place(&mut w, Kind::BasicFighter, 1);
    let (c, awards) = w.resolve_contact(1, 0, true);
    assert_eq!(c, Contact::Carry(0, 1));
    assert!(awards.is_empty());
    assert_eq!(w.objects[0].carrier.carrying, vec![f]);
    assert_eq!(w.objects[0].carrier.space_remaining, 9);
    assert_eq!((w.objects[0].max_health, w.objects[0].health), (3000, 3000));
    assert!(w.objects[1].carrier.is_carried);
    assert_eq!(w.objects[1].carrier.carrier, k);
    assert_eq!(w.resolve_contact(0, 1, true).0, Contact::Skipped);
}

#[test]
fn the_dead_are_reaped_and_the_living_stay_in_bounds() {
    let mut w = world(1);
    place(&mut w, Kind::BasicFighter, 1);
    place(&mut w, Kind::Wall, 2);
    place(&mut w, Kind::Carrier, 3);
    w.objects[0].health = -300;
    w.objects[2].health = -5;
    let (updates, dead) = w.tick_pieces();
    assert_eq!(updates.len(), 3);
    assert_eq!(dead.len(), 1);
    assert_eq!(dead[0].id, 1);
    assert_eq!(w.objects.len(), 2);
    assert_eq!(w.objects[1].health, 15);
    for p in &w.objects {
        assert!(p.health >= 0 && p.health <= p.max_health);
    }
}

#[test]
fn a_fort_rescues_its_owner() {
    let mut w = world(1);
    let castle = place(&mut w, Kind::Castle, 1);
    let fort = place(&mut w, Kind::Fort, 1);
    w.objects[0].add_fort(fort);
    w.objects[0].add_fort(99);
    w.objects[0].health = -1;
    assert_eq!(w.update_piece(0), PieceUpdate::Rescued(fort));
    assert_eq!(w.objects[0].health, 3000);
    assert_eq!(w.objects[1].health, -1000);
    let dead = w.reap();
    assert_eq!(dead.len(), 1);
    assert_eq!(dead[0].id, fort);
    assert_eq!(w.objects[0].id, castle);
}

#[test]
fn carried_pieces_are_held() {
    let mut w = world(1);
    place(&mut w, Kind::BasicFighter, 1);
    w.objects[0].carrier.is_carried = true;
    w.objects[0].health = 1;
    assert_eq!(w.update_piece(0), PieceUpdate::Held);
    assert_eq!(w.objects[0].health, 2000);
    assert_eq!(w.objects[0].shoot_timer, 20);
}

#[test]
fn gun_timer_bursts_and_reloads() {
    let mut t = GamePieceBase::new(Kind::TieFighter);
    t.shoot_timer = 0;
    assert!(t.tick_vitals());
    assert_eq!((t.shoot_timer, t.repeater.repeats), (5, 0));
    for _ in 0..5 {
        assert!(!t.tick_vitals());
    }
    assert!(t.tick_vitals());
    assert_eq!((t.shoot_timer, t.repeater.repeats), (40, 1));
    let mut b = GamePieceBase::new(Kind::Bullet);
    for _ in 0..30 {
        b.tick_vitals();
    }
    assert_eq!((b.ttl, b.health), (0, 1000));
    b.tick_vitals();
    assert_eq!(b.health, 0);
    assert!(b.dead());
}

#[test]
fn upgrades_step_through_tiers() {
    let mut w = world(1);
    let c = place(&mut w, Kind::Castle, 1);
    assert_eq!(w.upgrade_next_tier(c, 'b'), Some(Upgrade { track: 'b', tier: 1 }));
    assert_eq!(w.objects[0].reload, 12);
    assert_eq!(w.upgrade_next_tier(c, 'b'), Some(Upgrade { track: 'b', tier: 2 }));
    assert_eq!(w.objects[0].repeater.max_repeats, 1);
    assert_eq!(w.upgrade_next_tier(c, 'h'), Some(Upgrade { track: 'h', tier: 1 }));
    assert_eq!(w.upgrade_next_tier(c, 'h'), Some(Upgrade { track: 'h', tier: 2 }));
    assert_eq!(w.objects[0].max_health, 5000);
    assert_eq!(w.upgrade_next_tier(c, 'b'), Some(Upgrade { track: 'b', tier: 3 }));
    assert_eq!(w.objects[0].range, 80);
    assert_eq!(w.upgrade_next_tier(77, 'b'), None);
    assert_eq!(w.clock.mode, GameMode::Waiting);
}

#[test]
fn turrets_aim_at_the_nearest_enemy_fighter_in_range() {
    let mut w = world(1);
    place(&mut w, Kind::Turret, 1);
    place(&mut w, Kind::BasicFighter, 1);
    place(&mut w, Kind::BasicFighter, 2);
    place(&mut w, Kind::Wall, 2);
    place(&mut w, Kind::Sniper, 3);
    place(&mut w, Kind::TieFighter, 0);
    let no = vec![false; 6];
    assert_eq!(w.select_target(0, &vec![0, 10, 300, 5, 200, 600], &no), Some(4));
    assert_eq!(w.select_target(0, &vec![0, 10, 200, 5, 200, 600], &no), Some(2));
    let mut blocked = no.clone();
    blocked[2] = true;
    blocked[4] = true;
    assert_eq!(w.select_target(0, &vec![0, 10, 200, 5, 200, 600], &blocked), None);
    assert_eq!(w.select_target(0, &vec![0, 10, 200, 5, 200, 400], &blocked), Some(5));
    w.teams.push(team(0, 9, "x", vec![1, 2]));
    assert_eq!(w.select_target(0, &vec![0, 10, 200, 5, 300, 600], &no), Some(4));
}

#[test]
fn air_to_air_locks_on_its_target_id() {
    let mut w = world(1);
    w.add(GamePieceBase::new(Kind::Air2Air(3)), Some(1), &shape(Kind::Air2Air(3), 100, 100));
    place(&mut w, Kind::Wall, 2);
    place(&mut w, Kind::Chest, 2);
    assert_eq!(w.select_target(0, &vec![0, 1, 9000], &vec![false; 3]), Some(2));
    assert_eq!(w.select_target(0, &vec![0, 1, 9000], &vec![false, false, true]), None);
}

#[test]
fn dropping_a_fighter_shrinks_the_carrier() {
    let mut w = world(1);
    place(&mut w, Kind::Carrier, 1);
    let f = place(&mut w, Kind::BasicFighter, 1);
    w.resolve_contact(0, 1, true);
    assert_eq!(w.objects[0].max_health, 3000);
    w.drop_carried(0, 1);
    assert_eq!(w.objects[0].max_health, 1000);
    assert_eq!(w.objects[0].carrier.space_remaining, 10);
    assert!(!w.objects[1].carrier.is_carried);
    assert_eq!(w.objects[0].carrier.carrying, vec![f]);
    w.tidy_cargo(0);
    assert!(w.objects[0].carrier.carrying.is_empty());
}

#[test]
fn cargo_is_released_when_its_carrier_dies() {
    let mut w = world(1);
    place(&mut w, Kind::Carrier, 1);
    let f = place(&mut w, Kind::BasicFighter, 1);
    let t = place(&mut w, Kind::TieFighter, 1);
    w.resolve_contact(0, 1, true);
    w.resolve_contact(0, 2, true);
    assert!(w.objects[1].carrier.is_carried && w.objects[2].carrier.is_carried);
    w.objects[0].health = -100;
    let (_, dead) = w.tick_pieces();
    assert_eq!(dead.len(), 1);
    let released = w.release_cargo(&dead[0].carrier.carrying);
    assert_eq!(released, vec![f, t]);
    assert!(!w.objects[0].carrier.is_carried && !w.objects[1].carrier.is_carried);
}

#[test]
fn shots_live_as_long_as_the_gun_reaches() {
    let mut w = world(1);
    place(&mut w, Kind::Sniper, 4);
    place(&mut w, Kind::MissileLauncher, 5);
    let b = w.spawn_shot(0, &shape(Kind::Bullet, 150, 100)).unwrap();
    assert_eq!(w.objects[2].id, b);
    assert_eq!((w.objects[2].kind, w.objects[2].ttl, w.objects[2].banner), (Kind::Bullet, 90, 4));
    w.spawn_shot(1, &shape(Kind::AntiRtfBullet, 150, 100));
    assert_eq!((w.objects[3].kind, w.objects[3].ttl, w.objects[3].banner), (Kind::AntiRtfBullet, 1000, 5));
    place(&mut w, Kind::Artillery, 6);
    assert_eq!(w.spawn_shot(4, &shape(Kind::Bullet, 150, 100)), None);
    assert_eq!(w.objects.len(), 5);
}

#[test]
fn a_fallen_nexus_takes_its_occupants_castles_with_it() {
    let mut w = world(1);
    place(&mut w, Kind::Nexus, 0);
    place(&mut w, Kind::Castle, 1);
    place(&mut w, Kind::Castle, 2);
    place(&mut w, Kind::BasicFighter, 1);
    assert!(!w.nexus_fallen(0, &vec![1]));
    w.objects[0].health = -10;
    assert!(w.nexus_fallen(0, &vec![1]));
    assert_eq!(w.objects[0].health, 3000);
    assert_eq!(w.objects[1].health, -1000);
    assert_eq!(w.objects[2].health, 3000);
    assert_eq!(w.objects[3].health, 2000);
}

#[test]
fn teams_readiness_and_reset() {
    let mut w = world(1);
    w.new_team("red".to_string(), "pw".to_string());
    w.new_team("red".to_string(), "pw2".to_string());
    assert_eq!(w.teams[1].banner_id, 2);
    assert_eq!(w.banners.names[2], "red.copy");
    assert_eq!(w.authenticate(&"pw2".to_string(), false), AuthState::Team(1, true));
    w.living_players = 2;
    w.clock.start();
    w.ready_state(true);
    assert_eq!(w.clock.mode, GameMode::Strategy);
    w.ready_state(true);
    assert_eq!((w.clock.mode, w.readies, w.clock.counter), (GameMode::Play, 0, 150));
    place(&mut w, Kind::Wall, 1);
    w.reset();
    assert!(w.objects.is_empty());
    assert_eq!(w.banners.len(), 1);
    assert_eq!(w.clock.mode, GameMode::Waiting);
}

#[test]
fn leaving_clients_take_their_pieces() {
    let mut w = world(1);
    w.teams.push(team(0, 10, "a", vec![1]));
    w.teams.push(team(1, 11, "b", vec![2]));
    let c1 = place(&mut w, Kind::Castle, 1);
    place(&mut w, Kind::Castle, 2);
    place(&mut w, Kind::BasicFighter, 1);
    w.living_players = 2;
    w.isnt_rtf = 2;
    w.clients_connected = 2;
    assert_eq!(w.disconnect(1, false, Some(c1)), (Some(11), false));
    assert_eq!(w.objects.len(), 1);
    assert_eq!(w.clients_connected, 1);
    assert_eq!(w.disconnect(2, false, None), (None, false));
    assert_eq!(w.disconnect(3, false, None), (None, true));
    assert_eq!(w.clock.mode, GameMode::Waiting);
}

#[test]
fn only_owners_and_gods_steer() {
    let mut w = world(1);
    let f = place(&mut w, Kind::BasicFighter, 3);
    assert_eq!(w.steerable(3, f, false), Some(0));
    assert_eq!(w.steerable(4, f, false), None);
    assert_eq!(w.steerable(4, f, true), Some(0));
    assert_eq!(w.steerable(3, 99, true), None);
}

#[test]
fn the_last_player_standing_wins() {
    let mut w = world(1);
    w.living_players = 1;
    assert_eq!(w.role_call_winner(5), Some(5));
    w.living_players = 2;
    assert_eq!(w.role_call_winner(5), None);
    w.living_players = 1;
    w.clock.is_io = true;
    assert_eq!(w.role_call_winner(5), None);
}

#[test]
fn placement_respects_the_zone_rules() {
    let mut w = world(1);
    let none = Surroundings { near_castle: false, near_rtf: false, near_fort: false, clear: false };
    let s = shape(Kind::BasicFighter, 100, 100);
    assert_eq!(w.place(Kind::BasicFighter, Some(1), &none, &s), 0);
    assert!(w.objects.is_empty());
    let near = Surroundings { near_castle: true, ..none };
    assert_eq!(w.place(Kind::BasicFighter, Some(1), &near, &s), 1);
    assert_eq!(w.place(Kind::Castle, Some(1), &near, &s), 0);
    assert_eq!(w.place(Kind::Block, None, &none, &s), 2);
    assert_eq!(w.objects[1].banner, 0);
}

#[test]
fn configured_teams_and_automatic_start() {
    let mut w = world(1);
    w.passwordless = true;
    let defs = vec![
        TeamDef { name: "red".to_string(), password: "r".to_string() },
        TeamDef { name: "blue".to_string(), password: "b".to_string() },
    ];
    w.load_teams(&defs);
    assert!(!w.passwordless);
    assert_eq!(w.teams.len(), 2);
    assert_eq!((w.teams[1].id, w.teams[1].banner_id), (1, 2));
    assert_eq!(w.banners.names[1], "red");
    assert_eq!(w.authenticate(&"b".to_string(), false), AuthState::Team(1, true));
    w.clock.set_autonomous(&AutonomousDef { min_players: 2, max_players: 6, timeout: 90 });
    let a = w.clock.autonomous.unwrap();
    assert_eq!((a.min_players, a.max_players, a.remaining, a.timeout), (2, 6, 90, 90));
    w.load_teams(&vec![]);
    assert_eq!(w.teams.len(), 2);
}

#[test]
fn launchers_and_turrets_hold_fire_without_a_target() {
    let mut m = GamePieceBase::new(Kind::MissileLauncher);
    m.aim(false);
    assert!(m.suppress);
    m.aim(true);
    assert!(!m.suppress);
    let mut t = GamePieceBase::new(Kind::Turret);
    t.aim(false);
    assert!(!t.suppress);
    t.carrier.is_carried = true;
    t.aim(false);
    assert!(t.suppress);
    t.aim(true);
    assert!(!t.suppress);
}

#[test]
fn zones_are_worked_out_when_a_piece_is_added() {
    let mut w = world(2);
    w.add(GamePieceBase::new(Kind::Wall), Some(1), &shape(Kind::Wall, 100, 100));
    assert_eq!(w.objects[0].zones, vec![0]);
    w.add(GamePieceBase::new(Kind::Wall), Some(1), &shape(Kind::Wall, 2500, 2500));
    assert_eq!(w.objects[1].zones, vec![0, 2, 1, 3]);
    w.add(GamePieceBase::new(Kind::Wall), Some(1), &shape(Kind::Wall, 4000, 1000));
    assert_eq!(w.objects[2].zones, vec![1]);
}

#[test]
fn a_pair_sharing_several_zones_is_compared_once() {
    let mut w = world(2);
    place(&mut w, Kind::Wall, 1);
    place(&mut w, Kind::Wall, 1);
    w.objects[0].zones = vec![0, 1, 2];
    w.objects[1].zones = vec![0, 1, 2];
    assert_eq!(w.candidate_pairs(), vec![(0, 1)]);
}

#[test]
fn a_used_fort_dies_with_its_own_forts() {
    let mut w = world(1);
    place(&mut w, Kind::Castle, 1);
    let fort = place(&mut w, Kind::Fort, 1);
    place(&mut w, Kind::Fort, 1);
    w.objects[0].add_fort(fort);
    w.objects[1].add_fort(3);
    w.objects[0].health = -5;
    assert_eq!(w.update_piece(0), PieceUpdate::Rescued(fort));
    assert_eq!(w.objects[1].health, -1000);
    assert!(w.objects[1].forts.is_empty());
    let (_, dead) = w.tick_pieces();
    assert_eq!(dead.len(), 1);
    assert_eq!(dead[0].id, fort);
    assert!(w.objects.iter().all(|p| !p.dead() && p.health >= 0 && p.health <= p.max_health));
}

#[test]
fn only_a_newly_dead_piece_pays() {
    let mut w = world(1);
    place(&mut w, Kind::BasicFighter, 1);
    place(&mut w, Kind::Wall, 2);
    w.objects[1].health = -50;
    let (_, awards) = w.resolve_contact(0, 1, true);
    assert!(awards.is_empty());
}

#[test]
fn a_nuke_leaves_three_radiation_fields() {
    let mut w = world(1);
    place(&mut w, Kind::Nuke, 1);
    w.objects[0].ttl = 0;
    let (_, dead) = w.tick_pieces();
    assert_eq!(dead.len(), 1);
    let fields = w.explode(1000, 1000, &dead[0].exploder);
    assert_eq!(fields.len(), 3);
    assert_eq!(fields[0].1, Explosion { size: 200, halflife: 60_000, strength: 300 });
    assert_eq!(w.objects.len(), 3);
    assert_eq!(w.objects[2].kind, Kind::Radiation(6000));
    assert_eq!(w.objects[1].banner, 0);
    assert!(!w.objects[1].get_does_collide('f'));
}

#[test]
fn boarded_pieces_take_the_nearest_free_berth() {
    let mut w = world(1);
    place(&mut w, Kind::Carrier, 1);
    place(&mut w, Kind::BasicFighter, 1);
    place(&mut w, Kind::Missile, 1);
    w.resolve_contact(0, 1, true);
    assert_eq!(w.assign_berth(0, 1, 0, 2), 4);
    w.resolve_contact(0, 2, true);
    assert_eq!(w.objects[0].speed_cap, 15);
    assert_eq!(w.assign_berth(0, 2, 0, 2), 2);
    assert_eq!(w.objects[2].carrier.berth, 2);
    w.drop_carried(0, 2);
    assert_eq!(w.objects[0].speed_cap, 12);
}

#[test]
fn joining_players_are_counted() {
    let mut w = world(1);
    w.teams.push(team(0, 9, "x", vec![]));
    w.castle_joined(3, Some(0), false);
    w.castle_joined(4, None, true);
    assert_eq!((w.living_players, w.isnt_rtf), (2, 1));
    assert_eq!(w.teams[0].members, vec![3]);
}

#[test]
fn nexus_enemies_report_to_their_nexus() {
    let mut w = world(1);
    let n = place(&mut w, Kind::Nexus, 0);
    let e = w.spawn_nexus_enemy(0, Kind::TieFighter, &shape(Kind::TieFighter, 300, 300));
    assert_eq!(w.objects[1].id, e);
    assert!(!w.objects[1].worthit);
    assert_eq!(w.objects[1].death_subscriptions, vec![n]);
    assert_eq!(w.objects[1].banner, 0);
}
