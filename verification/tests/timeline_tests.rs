use wave_pacing::catalog::{Difficulty, SpawnPacket, SpawnPackets, SpawnVariant};
use wave_pacing::clock::{Countdown, Millis, Stopwatch};
use wave_pacing::timeline::{TickOutput, Wave, WaveAdvancement, WaveEvent, Waves};

fn wave(prep: u64, kinds: Vec<(u64, u32)>) -> Wave {
    Wave {
        prep_time: Millis(prep),
        packet_kinds: kinds.into_iter().map(|(m, d)| (Millis(m), Difficulty(d))).collect(),
    }
}

fn single_template_catalog() -> SpawnPackets {
    SpawnPackets(vec![SpawnPacket::new(
        Difficulty(0),
        vec![(Millis(0), SpawnVariant::BasicEnemy)],
    )])
}

fn tick(waves: &mut Waves, catalog: &SpawnPackets, enemies: bool) -> TickOutput {
    waves.advance(catalog, Millis(100), enemies)
}

#[test]
fn fresh_timeline_starts_at_wave_zero_without_preparation() {
    let w = Waves::new(vec![wave(0, vec![(0, 0)]), wave(5000, vec![])]);
    assert_eq!(w.current_wave_index(), 0);
    assert_eq!(w.total_waves(), 2);
    assert_eq!(w.prep_time_left(), Millis(0));
    assert!(!w.is_preparing());
    assert!(!w.is_finished());
}

#[test]
fn scenario_two_wave_plan_runs_to_the_advancement() {
    let catalog = single_template_catalog();
    let mut w = Waves::new(vec![wave(0, vec![(0, 0)]), wave(5000, vec![])]);

    // First tick: the zero-offset packet request fires and one template is
    // drawn, but nothing is signalled and nothing spawns yet.
    let out = tick(&mut w, &catalog, false);
    assert!(out.events.is_empty());
    assert!(out.spawns.is_empty());
    assert!(out.missing.is_empty());
    assert_eq!(w.current_wave_index(), 0);
    assert_eq!(w.current_packets.len(), 1);

    // Second tick, enemies still held alive by the caller: the drawn
    // packet's zero-offset spawn fires exactly once, and the timeline
    // reports that it is waiting for the arena to clear.
    let out = tick(&mut w, &catalog, true);
    assert_eq!(out.events, vec![WaveEvent::WaveWaitingForEnemies]);
    assert_eq!(out.spawns, vec![SpawnVariant::BasicEnemy]);
    assert_eq!(w.current_wave_index(), 0);
    assert!(w.current_packets.is_empty());

    // Third tick, arena clear: the timeline advances and starts preparing
    // for the second wave.
    let out = tick(&mut w, &catalog, false);
    assert_eq!(out.events, vec![WaveEvent::WaveAdvanced, WaveEvent::WaveStartedPreparing]);
    assert!(out.spawns.is_empty());
    assert_eq!(w.current_wave_index(), 1);
    assert!(w.is_preparing());
    assert_eq!(w.prep_time_left(), Millis(4900));
}

#[test]
fn exactly_two_draws_for_two_equal_zero_offset_requests() {
    let catalog = single_template_catalog();
    let mut w = Waves::new(vec![wave(0, vec![(0, 0), (0, 0)])]);
    let out = tick(&mut w, &catalog, false);
    assert_eq!(w.current_packets.len(), 2);
    assert!(out.missing.is_empty());
    // The wave's schedule is consumed: no further tick ever draws more,
    // and each of the two instances fires its own spawn.
    let out = tick(&mut w, &catalog, true);
    assert_eq!(out.spawns, vec![SpawnVariant::BasicEnemy, SpawnVariant::BasicEnemy]);
    assert!(w.current_packets.is_empty());
}

#[test]
fn backpressure_blocks_advancement_while_enemies_live() {
    let catalog = single_template_catalog();
    let mut w = Waves::new(vec![wave(0, vec![]), wave(0, vec![])]);
    for _ in 0..5 {
        let out = tick(&mut w, &catalog, true);
        assert_eq!(out.events, vec![WaveEvent::WaveWaitingForEnemies]);
        assert_eq!(w.current_wave_index(), 0);
    }
    let out = tick(&mut w, &catalog, false);
    assert_eq!(out.events, vec![WaveEvent::WaveAdvanced]);
    assert_eq!(w.current_wave_index(), 1);
}

#[test]
fn wave_index_never_decreases_over_a_long_run() {
    let catalog = single_template_catalog();
    let mut w = Waves::default();
    let mut last = w.current_wave_index();
    for round in 0..400usize {
        let enemies = round % 3 == 0;
        let _ = tick(&mut w, &catalog, enemies);
        let now = w.current_wave_index();
        assert!(now >= last);
        assert!(now <= last + 1);
        last = now;
    }
}

#[test]
fn no_draws_and_no_spawns_while_preparing() {
    let catalog = single_template_catalog();
    let mut w = Waves::new(vec![wave(0, vec![]), wave(500, vec![(0, 0)])]);
    let out = tick(&mut w, &catalog, false);
    assert_eq!(out.events, vec![WaveEvent::WaveAdvanced, WaveEvent::WaveStartedPreparing]);
    // Four more preparation ticks: clocks frozen, nothing drawn.
    for _ in 0..4 {
        let out = tick(&mut w, &catalog, false);
        assert!(out.spawns.is_empty());
        assert!(w.current_packets.is_empty());
        assert!(w.elapsed_millis() == Millis(0));
        if w.is_preparing() {
            assert!(out.events.is_empty());
        } else {
            assert_eq!(out.events, vec![WaveEvent::WaveFinishedPreparing]);
        }
    }
    assert!(!w.is_preparing());
    // The first active tick draws the second wave's packet.
    let _ = tick(&mut w, &catalog, false);
    assert_eq!(w.current_packets.len(), 1);
}

#[test]
fn live_packet_clocks_freeze_during_preparation() {
    // The drawn packet spawns at offset 100, but the timeline advances
    // into a preparation window first: the packet's clock must not run
    // until preparation ends.
    let catalog = SpawnPackets(vec![SpawnPacket::new(
        Difficulty(0),
        vec![(Millis(100), SpawnVariant::BigEnemy)],
    )]);
    let mut w = Waves::new(vec![wave(0, vec![(0, 0)]), wave(300, vec![(5000, 0)])]);
    let out = tick(&mut w, &catalog, false);
    assert!(out.spawns.is_empty());
    assert_eq!(w.current_packets.len(), 1);
    // The wave advances and prepares; the live packet is frozen.
    let out = tick(&mut w, &catalog, false);
    assert_eq!(out.events, vec![WaveEvent::WaveAdvanced, WaveEvent::WaveStartedPreparing]);
    for _ in 0..2 {
        let out = tick(&mut w, &catalog, false);
        assert!(out.spawns.is_empty());
        assert_eq!(w.current_packets[0].elapsed_millis(), Millis(0));
        if !w.is_preparing() {
            assert_eq!(out.events, vec![WaveEvent::WaveFinishedPreparing]);
        }
    }
    assert!(!w.is_preparing());
    // Active again: one tick winds the packet to 100 (not yet due), the
    // next one past it.
    let out = tick(&mut w, &catalog, false);
    assert!(out.spawns.is_empty());
    assert_eq!(w.current_packets[0].elapsed_millis(), Millis(100));
    let out = tick(&mut w, &catalog, false);
    assert_eq!(out.spawns, vec![SpawnVariant::BigEnemy]);
    assert!(w.current_packets.is_empty());
}

#[test]
fn missing_difficulty_is_reported_and_skipped() {
    let catalog = single_template_catalog();
    let mut w = Waves::new(vec![wave(0, vec![(0, 7)])]);
    let out = tick(&mut w, &catalog, false);
    assert_eq!(out.missing, vec![Difficulty(7)]);
    assert!(w.current_packets.is_empty());
    assert!(out.spawns.is_empty());
}

#[test]
fn drain_before_finish() {
    let leftover = SpawnPacket::new(Difficulty(0), vec![(Millis(0), SpawnVariant::BasicEnemy)]);
    let drained = Waves {
        waves: vec![],
        current_packets: vec![],
        wave_stopwatch: Stopwatch::new(),
        current_wave: 0,
        total_waves: 0,
        prep_timer: Countdown::new(Millis(0)),
        game_won_emitted: false,
    };
    assert!(drained.is_finished());
    let still_live = Waves {
        waves: vec![],
        current_packets: vec![leftover],
        wave_stopwatch: Stopwatch::new(),
        current_wave: 0,
        total_waves: 0,
        prep_timer: Countdown::new(Millis(0)),
        game_won_emitted: false,
    };
    assert!(!still_live.is_finished());
}

#[test]
fn game_won_fires_once_and_only_without_enemies() {
    let catalog = single_template_catalog();
    let mut w = Waves::new(vec![wave(0, vec![])]);
    // Enemies linger: the plan drains but victory is withheld.
    let out = tick(&mut w, &catalog, true);
    assert_eq!(out.events, vec![WaveEvent::WaveWaitingForEnemies]);
    let out = tick(&mut w, &catalog, false);
    assert_eq!(out.events, vec![WaveEvent::WaveAdvanced, WaveEvent::GameWon]);
    assert!(w.is_finished());
    // Victory is announced exactly once.
    let out = tick(&mut w, &catalog, false);
    assert!(out.events.is_empty());
    let out = tick(&mut w, &catalog, false);
    assert!(out.events.is_empty());
}

#[test]
fn try_advance_reports_each_outcome() {
    let mut w = Waves::new(vec![wave(0, vec![(0, 0)]), wave(0, vec![])]);
    assert_eq!(w.try_advance(Millis(100), false), WaveAdvancement::Ongoing);
    let mut empty_wave = Waves::new(vec![wave(0, vec![])]);
    assert_eq!(empty_wave.try_advance(Millis(100), true), WaveAdvancement::WaitingForEnemies);
    assert_eq!(empty_wave.try_advance(Millis(100), false), WaveAdvancement::Advanced);
    assert_eq!(empty_wave.current_wave_index(), 1);
}

#[test]
fn pop_difficulties_takes_all_due_entries_and_keeps_the_rest() {
    let mut w = Waves::new(vec![wave(0, vec![(0, 2), (5000, 1), (0, 3)])]);
    let _ = w.try_advance(Millis(100), false);
    let due = w.pop_difficulties_to_spawn();
    assert_eq!(due, vec![Difficulty(2), Difficulty(3)]);
    assert_eq!(w.waves[0].packet_kinds, vec![(Millis(5000), Difficulty(1))]);
}

#[test]
fn packet_kinds_ordered_sorts_by_offset() {
    let w = wave(0, vec![(5000, 1), (0, 0), (5000, 2), (100, 0)]);
    let ordered = w.packet_kinds_ordered();
    let offsets: Vec<u64> = ordered.iter().map(|e| e.0 .0).collect();
    assert_eq!(offsets, vec![0, 100, 5000, 5000]);
    assert_eq!(ordered.len(), w.packet_kinds.len());
    // The wave itself is untouched.
    assert_eq!(w.packet_kinds[0], (Millis(5000), Difficulty(1)));
}

#[test]
fn standard_plan_shape() {
    let w = Waves::default();
    assert_eq!(w.total_waves(), 10);
    assert_eq!(w.current_wave_index(), 0);
    assert_eq!(w.waves[0].prep_time, Millis(0));
    assert_eq!(w.waves[0].packet_kinds[1], (Millis(5000), Difficulty(0)));
    assert_eq!(w.waves[9].prep_time, Millis(10000));
    let catalog = SpawnPackets::default();
    for stage in w.waves.iter() {
        assert!(!stage.packet_kinds.is_empty());
        for (_, d) in stage.packet_kinds.iter() {
            assert!(!catalog.filter_difficulty(*d).is_empty());
        }
    }
}
