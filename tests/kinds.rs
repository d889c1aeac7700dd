use arena_core::kinds::{BulletType, Explosion, Kind, ReqZone, TargetingFilter};
use arena_core::pieces::{BasicFighter, Castle, Seed, Wall};

#[test]
fn tags_and_costs() {
    assert_eq!(BasicFighter::new().kind().identify(), 'f');
    assert_eq!(Kind::BasicFighter.cost(), 10);
    assert_eq!(Kind::Nuke.cost(), 300);
    assert_eq!(Castle::new(true).kind().identify(), 'R');
    assert_eq!(Castle::new(false).kind().identify(), 'c');
    assert_eq!(Wall::new().kind().req_zone(), ReqZone::WithinCastleOrFort);
}

#[test]
fn capture_values() {
    assert_eq!(Kind::BasicFighter.capture(), 15);
    assert_eq!(Kind::Missile.capture(), 7);
    assert_eq!(Kind::Fort.capture(), 75);
    assert_eq!(Kind::Castle.capture(), 150);
    assert_eq!(Kind::GoldBar.capture(), 100);
    assert_eq!(Kind::Chest.capture(), 50);
    assert_eq!(Kind::Bullet.capture(), 0);
}

#[test]
fn collision_rules() {
    assert!(!Kind::Wall.get_does_collide('w'));
    assert!(Kind::Wall.get_does_collide('f'));
    assert!(Kind::Castle.get_does_collide('b'));
    assert!(!Kind::Castle.get_does_collide('f'));
    assert!(!Kind::Radiation(200).get_does_collide('f'));
    assert!(TargetingFilter::Fighters.admits('C'));
    assert!(!TargetingFilter::Castles.admits('f'));
}

#[test]
fn seed_countdown_is_drawn_in_range() {
    for _ in 0..50 {
        let s = Seed::new();
        assert!(s.countdown >= 800 && s.countdown < 1600);
        assert_eq!(s.countdown, s.max_countdown);
    }
}

#[test]
fn sizes_of_the_kinds() {
    assert_eq!(Kind::BasicFighter.size(), (48, 36));
    assert_eq!(Kind::TieFighter.size(), (32, 36));
    assert_eq!(Kind::Sniper.size(), (72, 20));
    assert_eq!(Kind::Missile.size(), (48, 20));
    assert_eq!(Kind::Artillery.size(), (20, 50));
    assert_eq!(Kind::Wall.size(), (60, 60));
    assert_eq!(Kind::Chest.size(), (30, 30));
    assert_eq!(Kind::Nuke.size(), (36, 36));
    assert_eq!(Kind::Turret.size(), (48, 22));
    assert_eq!(Kind::MissileLauncher.size(), (48, 22));
    assert_eq!(Kind::GoldBar.size(), (50, 30));
    assert_eq!(Kind::GreenThumb.size(), (20, 10));
    assert_eq!(Kind::Seed.size(), (10, 10));
    assert_eq!(Kind::AntiRtfBullet.size(), (30, 10));
    assert_eq!(Kind::Air2Air(1).size(), (30, 10));
    assert_eq!(Kind::Nexus.size(), (60, 60));
    assert_eq!(Kind::Fort.size(), (10, 10));
    assert_eq!(Kind::Carrier.size(), (400, 160));
    assert_eq!(Kind::Radiation(1500).size(), (1500, 1500));
}

#[test]
fn real_time_fighters_and_guns() {
    let r = Kind::RtfCastle.stats();
    assert!(r.portals);
    assert_eq!((r.speed_cap, r.muzzle, r.passive_heal), (20, -1_570_796, 2));
    assert_eq!(Kind::Castle.stats().speed_cap, 0);
    assert_eq!(Kind::Carrier.stats().speed_cap, 12);
    assert_eq!(Kind::Artillery.stats().bullet, BulletType::Mortar(200, 0, 600));
    assert_eq!(Kind::MissileLauncher.stats().bullet, BulletType::AntiRtf);
    assert_eq!(Kind::BasicFighter.stats().bullet, BulletType::Bullet);
}

#[test]
fn explosion_recipes() {
    assert_eq!(
        Kind::Nuke.exploder(),
        vec![
            Explosion { size: 200, halflife: 60_000, strength: 300 },
            Explosion { size: 1500, halflife: 250_000, strength: 300 },
            Explosion { size: 6000, halflife: 700_000, strength: 300 },
        ]
    );
    assert_eq!(Kind::Missile.exploder(), vec![Explosion { size: 100, halflife: 1500, strength: 400_000 }]);
    assert!(Kind::Wall.exploder().is_empty());
}
