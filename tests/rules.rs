use arena_core::banners::BannerTable;
use arena_core::carrier::{choose_berth, CarrierProperties};
use arena_core::client::{Client, PlaceAction, ShopAction};
use arena_core::kinds::Kind;
use arena_core::mode::{rubble_count, GameMode, ModeClock, ModeStep, Autonomous};
use arena_core::nexus::{credit, Nexus, Occupant};
use arena_core::client::ClientMode;
use arena_core::placement::{carrier_variant, nexus_enemy_kind, starter_kit};
use arena_core::world::AuthState;

#[test]
fn banner_suffixes_until_unique() {
    let mut t = BannerTable::new("Syst3m".to_string());
    assert_eq!(t.banner_add("alice".to_string()), 1);
    assert_eq!(t.banner_add("alice".to_string()), 2);
    assert_eq!(t.banner_add("alice".to_string()), 3);
    assert_eq!(t.names[2], "alice.copy");
    assert_eq!(t.names[3], "alice.copy.copy");
    assert_eq!(t.banner_add("Syst3m".to_string()), 4);
    assert_eq!(t.names[4], "Syst3m.copy");
    t.clear_banners();
    assert_eq!(t.len(), 1);
    assert_eq!(t.names[0], "Syst3m");
}

#[test]
fn mode_cycle_flips_with_full_stages() {
    let mut c = ModeClock::new(10, 5, false);
    assert_eq!(c.mode, GameMode::Waiting);
    assert!(c.start());
    assert_eq!(c.mode, GameMode::Strategy);
    assert_eq!(c.counter, 300);
    c.counter = 0;
    assert_eq!(c.tick(2, false, 2), ModeStep::Ran);
    assert_eq!(c.mode, GameMode::Play);
    assert_eq!(c.counter, 150);
    c.counter = 0;
    c.tick(2, false, 2);
    assert_eq!(c.mode, GameMode::Strategy);
    assert_eq!(c.counter, 300);
    c.tick(2, false, 2);
    assert_eq!(c.counter, 299);
    c.tick(2, false, 0);
    assert_eq!(c.mode, GameMode::Play);
    assert_eq!(c.counter, 150);
}

#[test]
fn waiting_is_fixed_under_flip() {
    let mut c = ModeClock::new(10, 5, false);
    c.flip();
    assert_eq!(c.mode, GameMode::Waiting);
    assert_eq!(c.counter, 1);
    assert!(!c.is_io);
    assert_eq!(GameMode::Waiting.wire(), 2);
    assert_eq!(GameMode::Play.wire(), 0);
}

#[test]
fn autonomous_countdown_starts_the_match() {
    let mut c = ModeClock::new(10, 5, false);
    c.autonomous = Some(Autonomous { min_players: 2, max_players: 4, remaining: 2, timeout: 2 });
    assert_eq!(c.tick(1, false, 1), ModeStep::Idle);
    assert_eq!(c.tick(2, true, 2), ModeStep::Idle);
    assert_eq!(c.tick(2, false, 2), ModeStep::Countdown(1));
    assert_eq!(c.tick(2, false, 2), ModeStep::Started);
    assert_eq!(c.mode, GameMode::Strategy);
    let mut io = ModeClock::new(10, 5, true);
    assert_eq!(io.tick(0, false, 0), ModeStep::Started);
}

#[test]
fn rubble_scales_with_area() {
    assert_eq!(rubble_count(5000), 25);
    assert_eq!(rubble_count(100_000), 300);
    assert_eq!(rubble_count(999), 0);
}

#[test]
fn carrier_takes_accepted_kinds_while_space_lasts() {
    let mut c = CarrierProperties::empty();
    c.does_accept = Kind::Carrier.accepts();
    c.space_remaining = 1;
    assert!(c.will_carry('f'));
    assert!(!c.will_carry('c'));
    c.take_on_board(7);
    assert_eq!(c.carrying, vec![7]);
    assert!(!c.will_carry('f'));
    c.release_one();
    c.forget_released(&vec![false]);
    assert!(c.carrying.is_empty());
    assert_eq!(c.space_remaining, 1);
}

#[test]
fn berths_go_to_the_nearest_free_slot() {
    assert_eq!(choose_berth(&vec![], 0, 0), 0);
    assert_eq!(choose_berth(&vec![], 1, 9), 9);
    assert_eq!(choose_berth(&vec![4], 0, 2), 2);
    assert_eq!(choose_berth(&vec![4, 2], 0, 2), 6);
    assert_eq!(choose_berth(&vec![0, 2, 4, 6, 8], 0, 4), 9);
    assert_eq!(choose_berth(&vec![0, 2, 4, 6, 8, 1, 3, 5, 7, 9], 0, 0), 1);
}

#[test]
fn client_shop_and_costs() {
    let mut c = Client::new();
    assert_eq!(c.shop('w' as u8), ShopAction::Nothing);
    c.m_castle = Some(5);
    c.score = 100;
    assert_eq!(c.shop('g' as u8), ShopAction::Upgrade(5, 'b'));
    assert_eq!(c.score, 70);
    assert_eq!(c.shop('w' as u8), ShopAction::WallCap);
    assert_eq!((c.score, c.walls_cap, c.walls_remaining), (40, 4, 6));
    assert_eq!(c.shop('h' as u8), ShopAction::Nothing);
    assert!(c.kys);
    assert_eq!(c.shop('z' as u8), ShopAction::Invalid);
    let mut d = Client::new();
    d.m_castle = Some(1);
    d.score = 100;
    assert_eq!(d.shop('a' as u8), ShopAction::A2A);
    assert_eq!((d.score, d.a2a), (0, 1));
    assert_eq!(d.launch_a2a(), Some(1));
    assert_eq!(d.a2a, 0);
    assert_eq!(d.launch_a2a(), None);
    assert!(d.kys);
}

#[test]
fn client_placement_gating() {
    let mut c = Client::new();
    c.banner = 3;
    assert_eq!(c.request_place('c' as u8, 0), PlaceAction::Castle);
    assert_eq!(c.request_place('c' as u8, 0), PlaceAction::Refused);
    assert!(c.kys);
    let mut d = Client::new();
    d.banner = 4;
    for _ in 0..4 {
        assert_eq!(d.request_place('w' as u8, 0), PlaceAction::Simple('w' as u8, Some(4)));
    }
    assert_eq!(d.request_place('w' as u8, 0), PlaceAction::Refused);
    d.on_tick(GameMode::Play);
    assert_eq!(d.walls_remaining, 2);
    assert_eq!(d.request_place('f' as u8, 0), PlaceAction::Refused);
    assert_eq!(d.request_place('c' as u8, 0), PlaceAction::Castle);
    d.on_tick(GameMode::Strategy);
    assert_eq!(d.request_place('K' as u8, 2), PlaceAction::CarrierVariant(2, Some(4)));
    assert_eq!(d.request_place('F' as u8, 0), PlaceAction::Refused);
    d.m_castle = Some(9);
    assert_eq!(d.request_place('F' as u8, 0), PlaceAction::Fort(9, Some(4)));
    let mut g = Client::new();
    g.joined(AuthState::God);
    g.on_tick(GameMode::Play);
    assert_eq!(g.request_place('B' as u8, 0), PlaceAction::Simple('B' as u8, None));
    assert!(g.attach(1000));
    assert_eq!(g.score, -1000);
}

#[test]
fn client_attach_and_collect() {
    let mut c = Client::new();
    c.score = 20;
    assert!(c.attach(10));
    assert_eq!(c.score, 10);
    assert!(!c.attach(30));
    assert_eq!(c.score, 10);
    assert!(!c.cost(11));
    assert!(c.kys);
    c.collect(i32::MAX);
    assert_eq!(c.score, i32::MAX);
}

#[test]
fn nexus_pays_every_occupant() {
    let mut n = Nexus::new(400);
    n.refresh_players(&vec![
        Occupant { banner: 2, tag: 'c', inside: true },
        Occupant { banner: 0, tag: 'w', inside: true },
        Occupant { banner: 3, tag: 'b', inside: true },
        Occupant { banner: 2, tag: 'f', inside: true },
        Occupant { banner: 4, tag: 'f', inside: false },
        Occupant { banner: 1, tag: 'f', inside: true },
    ]);
    assert_eq!(n.players, vec![2, 1]);
    let awards = n.on_subscribed_death(Kind::BasicFighter.capture());
    assert_eq!(awards, vec![(2, 15), (1, 15)]);
    let mut scores: Vec<i64> = vec![0, 10, 20, 30];
    credit(&mut scores, &awards);
    assert_eq!(scores, vec![0, 25, 35, 30]);
}

#[test]
fn nexus_counts_down_only_while_occupied() {
    let mut n = Nexus::new(400);
    assert!(!n.tick_counter());
    assert_eq!(n.place_counter, 100);
    n.players = vec![1];
    for _ in 0..99 {
        assert!(!n.tick_counter());
    }
    assert_eq!(n.place_counter, 1);
    assert!(n.tick_counter());
    assert!(n.place_counter >= 200 && n.place_counter < 500);
}

#[test]
fn flipping_while_waiting_rewinds_the_countdown() {
    let mut c = ModeClock::new(10, 5, false);
    c.autonomous = Some(Autonomous { min_players: 2, max_players: 4, remaining: 1, timeout: 9 });
    c.flip();
    assert_eq!(c.mode, GameMode::Waiting);
    assert_eq!(c.autonomous.unwrap().remaining, 9);
}

#[test]
fn carrier_variants_decode_base_nine() {
    let slots = carrier_variant(2 + 6 * 9 + 5 * 81);
    assert_eq!(slots[0], Some(Kind::BasicFighter));
    assert_eq!(slots[1], Some(Kind::Turret));
    assert_eq!(slots[2], Some(Kind::Nuke));
    assert!(slots[3..].iter().all(|s| s.is_none()));
    let top = carrier_variant(8 * 387_420_489);
    assert_eq!(top[9], Some(Kind::GoldBar));
    assert_eq!(carrier_variant(0).len(), 10);
}

#[test]
fn starter_kits_by_mode() {
    let (pieces, score, a2a) = starter_kit(ClientMode::Normal);
    assert_eq!((pieces.len(), score, a2a), (4, 100, false));
    assert_eq!((pieces[0].dx, pieces[0].angle), (-200, 3_141_593));
    let (pieces, score, a2a) = starter_kit(ClientMode::Defense);
    assert_eq!((pieces[3].kind, score, a2a), (Kind::Turret, 25, false));
    let (pieces, score, a2a) = starter_kit(ClientMode::RealTimeFighter);
    assert_eq!((pieces.len(), score, a2a), (2, 0, true));
    assert_eq!(nexus_enemy_kind(6), Kind::TieFighter);
    assert_eq!(nexus_enemy_kind(7), Kind::Sniper);
}
