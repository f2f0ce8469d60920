use wave_pacing::catalog::{Difficulty, SpawnPacket, SpawnPackets, SpawnVariant};
use wave_pacing::clock::Millis;

fn packet(difficulty: u32, spawns: Vec<(u64, SpawnVariant)>) -> SpawnPacket {
    let entries = spawns.into_iter().map(|(m, v)| (Millis(m), v)).collect();
    SpawnPacket::new(Difficulty(difficulty), entries)
}

#[test]
fn filter_difficulty_returns_exactly_the_matching_tier() {
    let catalog = SpawnPackets(vec![
        packet(0, vec![(0, SpawnVariant::BasicEnemy)]),
        packet(1, vec![(0, SpawnVariant::BigEnemy)]),
        packet(0, vec![(0, SpawnVariant::SmallEnemy)]),
    ]);
    let zero = catalog.filter_difficulty(Difficulty(0));
    assert_eq!(zero.len(), 2);
    assert_eq!(zero[0].spawns[0].1, SpawnVariant::BasicEnemy);
    assert_eq!(zero[1].spawns[0].1, SpawnVariant::SmallEnemy);
    let one = catalog.filter_difficulty(Difficulty(1));
    assert_eq!(one.len(), 1);
    assert_eq!(one[0].spawns[0].1, SpawnVariant::BigEnemy);
    assert!(catalog.filter_difficulty(Difficulty(9)).is_empty());
}

#[test]
fn pop_spawns_takes_every_due_entry_not_just_a_prefix() {
    let mut p = packet(
        0,
        vec![
            (0, SpawnVariant::BasicEnemy),
            (200, SpawnVariant::ExplosiveBarrel),
            (100, SpawnVariant::BigEnemy),
            (100, SpawnVariant::SmallEnemy),
        ],
    );
    p.tick(Millis(150));
    let due = p.pop_spawns();
    assert_eq!(
        due,
        vec![SpawnVariant::BasicEnemy, SpawnVariant::BigEnemy, SpawnVariant::SmallEnemy]
    );
    assert_eq!(p.spawns.len(), 1);
    assert_eq!(p.spawns[0], (Millis(200), SpawnVariant::ExplosiveBarrel));
}

#[test]
fn pop_spawns_boundary_offset_is_not_yet_due() {
    let mut p = packet(0, vec![(100, SpawnVariant::BasicEnemy)]);
    p.tick(Millis(100));
    assert!(p.pop_spawns().is_empty());
    p.tick(Millis(1));
    assert_eq!(p.pop_spawns(), vec![SpawnVariant::BasicEnemy]);
    assert!(p.spawns.is_empty());
}

#[test]
fn duplicate_copies_a_packet_exactly() {
    let mut original = packet(2, vec![(0, SpawnVariant::BasicEnemy), (50, SpawnVariant::BigEnemy)]);
    original.tick(Millis(25));
    let copy = original.duplicate();
    assert_eq!(copy.difficulty, original.difficulty);
    assert_eq!(copy.elapsed_millis(), Millis(25));
    assert_eq!(copy.spawns, original.spawns);
}

#[test]
fn standard_catalog_shape() {
    let catalog = SpawnPackets::default();
    assert_eq!(catalog.0.len(), 14);
    for template in catalog.0.iter() {
        assert!(!template.spawns.is_empty());
        assert_eq!(template.elapsed_millis(), Millis(0));
    }
    for d in 0..4u32 {
        assert!(!catalog.filter_difficulty(Difficulty(d)).is_empty());
    }
}

#[test]
fn standard_catalog_opening_template() {
    let catalog = SpawnPackets::default();
    let first = &catalog.0[0];
    assert_eq!(first.difficulty, Difficulty(0));
    assert_eq!(first.spawns.len(), 6);
    assert_eq!(first.spawns[0], (Millis(0), SpawnVariant::BasicEnemy));
    assert_eq!(first.spawns[5], (Millis(300), SpawnVariant::BasicEnemy));
}
