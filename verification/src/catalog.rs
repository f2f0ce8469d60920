//! The spawn-packet catalog: difficulty tiers, creature variants, and the
//! timed micro-schedules ("packets") that a wave draws from the catalog.

use vstd::prelude::*;

use crate::clock::{sat_add, Millis, Stopwatch};
use crate::seq_facts::lemma_filter_push;

verus! {

/// An opaque difficulty tier; it has no meaning beyond equality, used to
/// filter which packet templates are eligible for a draw.
#[derive(Clone, Copy, Debug, Hash, PartialEq, Eq, Structural)]
pub struct Difficulty(pub u32);

/// The kinds of content a packet can spawn.
#[derive(Clone, Copy, Debug, PartialEq, Eq, Structural)]
pub enum SpawnVariant {
    BasicEnemy,
    BigEnemy,
    SmallEnemy,
    ExplosiveBarrel,
}

/// The mathematical value of a [`SpawnPacket`]: its tier, how long its
/// private clock has run, and its remaining schedule of
/// (offset, variant) entries.
#[verifier::ext_equal]
pub struct PacketView {
    pub difficulty: u32,
    pub elapsed: u64,
    pub spawns: Seq<(u64, SpawnVariant)>,
}

/// A timed micro-schedule of concrete spawns. As a catalog template its
/// stopwatch is zero; once drawn into a wave, the instance's stopwatch runs
/// and entries are popped (and removed) as their offsets pass.
pub struct SpawnPacket {
    pub difficulty: Difficulty,
    pub stopwatch: Stopwatch,
    pub spawns: Vec<(Millis, SpawnVariant)>,
}

impl View for SpawnPacket {
    type V = PacketView;

    open spec fn view(&self) -> PacketView {
        PacketView {
            difficulty: self.difficulty.0,
            elapsed: self.stopwatch.elapsed.0,
            spawns: self.spawns@.map_values(|e: (Millis, SpawnVariant)| (e.0.0, e.1)),
        }
    }
}

/// The schedule entries of `p` that are already due: their offset lies
/// strictly below the packet's elapsed time.
pub open spec fn spec_due_spawns(p: PacketView) -> Seq<SpawnVariant> {
    p.spawns.filter(|e: (u64, SpawnVariant)| e.0 < p.elapsed).map_values(
        |e: (u64, SpawnVariant)| e.1,
    )
}

/// The schedule entries of `p` that are not yet due.
pub open spec fn spec_kept_spawns(p: PacketView) -> Seq<(u64, SpawnVariant)> {
    p.spawns.filter(|e: (u64, SpawnVariant)| e.0 >= p.elapsed)
}

impl SpawnPacket {
    /// A fresh packet whose stopwatch has not started.
    pub fn new(difficulty: Difficulty, spawns: Vec<(Millis, SpawnVariant)>) -> (r: SpawnPacket)
        ensures
            r@.difficulty == difficulty.0,
            r@.elapsed == 0,
            r@.spawns == spawns@.map_values(|e: (Millis, SpawnVariant)| (e.0.0, e.1)),
    {
        SpawnPacket { difficulty, stopwatch: Stopwatch::new(), spawns }
    }

    /// An exact copy of this packet; drawing a template from the catalog
    /// binds a copy, never the template itself.
    #[verifier::loop_isolation(false)]
    pub fn duplicate(&self) -> (r: SpawnPacket)
        ensures
            r@ == self@,
    {
        let mut spawns: Vec<(Millis, SpawnVariant)> = Vec::new();
        let mut i: usize = 0;
        while i < self.spawns.len()
            invariant
                i <= self.spawns.len(),
                spawns@ == self.spawns@.take(i as int),
            decreases self.spawns.len() - i,
        {
            spawns.push(self.spawns[i]);
            assert(self.spawns@.take(i + 1) =~= self.spawns@.take(i as int).push(
                self.spawns@[i as int],
            ));
            i += 1;
        }
        assert(self.spawns@.take(self.spawns@.len() as int) =~= self.spawns@);
        let r = SpawnPacket {
            difficulty: self.difficulty,
            stopwatch: self.stopwatch,
            spawns,
        };
        assert(r@ =~= self@);
        r
    }

    /// Runs this packet's private clock forward.
    pub fn tick(&mut self, delta: Millis)
        ensures
            final(self)@ == (PacketView {
                elapsed: sat_add(old(self)@.elapsed, delta.0),
                ..old(self)@
            }),
    {
        self.stopwatch.tick(delta);
        assert(final(self)@ =~= (PacketView {
            elapsed: sat_add(old(self)@.elapsed, delta.0),
            ..old(self)@
        }));
    }

    /// How long this packet has been live.
    pub fn elapsed_millis(&self) -> (r: Millis)
        ensures
            r.0 == self@.elapsed,
    {
        self.stopwatch.elapsed()
    }

    /// Removes and returns every schedule entry whose offset is strictly
    /// below the elapsed time, in schedule order. An entry at exactly the
    /// boundary millisecond is not yet due.
    #[verifier::loop_isolation(false)]
    pub fn pop_spawns(&mut self) -> (due: Vec<SpawnVariant>)
        ensures
            final(self)@.difficulty == old(self)@.difficulty,
            final(self)@.elapsed == old(self)@.elapsed,
            final(self)@.spawns == spec_kept_spawns(old(self)@),
            due@ == spec_due_spawns(old(self)@),
    {
        let ghost pv = self@;
        let ghost due_pred = |e: (u64, SpawnVariant)| e.0 < pv.elapsed;
        let ghost keep_pred = |e: (u64, SpawnVariant)| e.0 >= pv.elapsed;
        let ghost snd = |e: (u64, SpawnVariant)| e.1;
        let mut due: Vec<SpawnVariant> = Vec::new();
        let mut kept: Vec<(Millis, SpawnVariant)> = Vec::new();
        let elapsed = self.stopwatch.elapsed();
        let mut i: usize = 0;
        while i < self.spawns.len()
            invariant
                i <= self.spawns.len(),
                elapsed.0 == pv.elapsed,
                pv.spawns == self.spawns@.map_values(|e: (Millis, SpawnVariant)| (e.0.0, e.1)),
                due@ == pv.spawns.take(i as int).filter(due_pred).map_values(snd),
                kept@.map_values(|e: (Millis, SpawnVariant)| (e.0.0, e.1)) == pv.spawns.take(
                    i as int,
                ).filter(keep_pred),
            decreases self.spawns.len() - i,
        {
            let entry = self.spawns[i];
            proof {
                assert(pv.spawns[i as int] == (entry.0.0, entry.1));
                assert(pv.spawns.take(i + 1) =~= pv.spawns.take(i as int).push(
                    pv.spawns[i as int],
                ));
                lemma_filter_push(pv.spawns.take(i as int), pv.spawns[i as int], due_pred);
                lemma_filter_push(pv.spawns.take(i as int), pv.spawns[i as int], keep_pred);
            }
            if entry.0.0 < elapsed.0 {
                due.push(entry.1);
                proof {
                    assert(due_pred(pv.spawns[i as int]));
                    assert(pv.spawns.take(i + 1).filter(due_pred) == pv.spawns.take(
                        i as int,
                    ).filter(due_pred).push(pv.spawns[i as int]));
                    assert(due@ =~= pv.spawns.take(i + 1).filter(due_pred).map_values(snd));
                }
            } else {
                kept.push(entry);
                proof {
                    assert(keep_pred(pv.spawns[i as int]));
                    assert(pv.spawns.take(i + 1).filter(keep_pred) == pv.spawns.take(
                        i as int,
                    ).filter(keep_pred).push(pv.spawns[i as int]));
                    assert(kept@.map_values(|e: (Millis, SpawnVariant)| (e.0.0, e.1)) =~= pv.spawns
                        .take(i + 1).filter(keep_pred));
                }
            }
            i += 1;
        }
        assert(pv.spawns.take(self.spawns@.len() as int) =~= pv.spawns);
        self.spawns = kept;
        due
    }
}

/// The static, read-only library of spawn-packet templates.
pub struct SpawnPackets(pub Vec<SpawnPacket>);

impl View for SpawnPackets {
    type V = Seq<PacketView>;

    open spec fn view(&self) -> Seq<PacketView> {
        self.0@.map_values(|p: SpawnPacket| p@)
    }
}

impl SpawnPackets {
    /// A catalog is well formed when every template's stopwatch is still at
    /// zero: templates are data, they never run.
    pub open spec fn wf(&self) -> bool {
        forall|i: int| 0 <= i < self@.len() ==> (#[trigger] self@[i]).elapsed == 0
    }

    /// Whether some template in the catalog carries the given tier.
    pub open spec fn spec_has_difficulty(&self, difficulty: u32) -> bool {
        exists|i: int| 0 <= i < self@.len() && (#[trigger] self@[i]).difficulty == difficulty
    }

    /// Every template tagged exactly with the requested tier, in catalog
    /// order; there is no fallback to adjacent tiers. The returned packets
    /// are copies, so the catalog itself is never mutated by a draw.
    #[verifier::loop_isolation(false)]
    pub fn filter_difficulty(&self, difficulty: Difficulty) -> (r: Vec<SpawnPacket>)
        ensures
            r@.map_values(|p: SpawnPacket| p@) == templates_for(self@, difficulty.0),
    {
        let d_raw = difficulty.0;
        let ghost pred = |p: PacketView| p.difficulty == d_raw;
        let mut r: Vec<SpawnPacket> = Vec::new();
        let mut i: usize = 0;
        while i < self.0.len()
            invariant
                i <= self.0.len(),
                r@.map_values(|p: SpawnPacket| p@) == self@.take(i as int).filter(pred),
            decreases self.0.len() - i,
        {
            proof {
                assert(self@[i as int] == self.0@[i as int]@);
                assert(self@.take(i + 1) =~= self@.take(i as int).push(self@[i as int]));
                lemma_filter_push(self@.take(i as int), self@[i as int], pred);
            }
            if self.0[i].difficulty.0 == d_raw {
                let copy = self.0[i].duplicate();
                r.push(copy);
                proof {
                    assert(pred(self@[i as int]));
                    assert(self@.take(i + 1).filter(pred) == self@.take(i as int).filter(
                        pred,
                    ).push(self@[i as int]));
                    assert(r@.map_values(|p: SpawnPacket| p@) =~= self@.take(i + 1).filter(pred));
                }
            } else {
                proof {
                    assert(!pred(self@[i as int]));
                }
            }
            i += 1;
        }
        assert(self@.take(self.0@.len() as int) =~= self@);
        r
    }
}

impl Default for SpawnPackets {
    /// The standard template library: four escalating difficulty tiers,
    /// every template non-empty and at rest, covering every tier the
    /// standard wave plan requests.
    #[verifier::rlimit(60)]
    fn default() -> (r: SpawnPackets)
        ensures
            r.wf(),
            r@.len() == 14,
            forall|i: int| 0 <= i < r@.len() ==> (#[trigger] r@[i]).spawns.len() > 0,
            r.spec_has_difficulty(0),
            r.spec_has_difficulty(1),
            r.spec_has_difficulty(2),
            r.spec_has_difficulty(3),
    {
        let mut templates: Vec<SpawnPacket> = Vec::new();
        templates.push(SpawnPacket::new(Difficulty(0), vec![
            (Millis(0), SpawnVariant::BasicEnemy), (Millis(100), SpawnVariant::BasicEnemy),
            (Millis(100), SpawnVariant::BasicEnemy), (Millis(100), SpawnVariant::BasicEnemy),
            (Millis(200), SpawnVariant::BasicEnemy), (Millis(300), SpawnVariant::BasicEnemy),
        ]));
        templates.push(SpawnPacket::new(Difficulty(0), vec![
            (Millis(0), SpawnVariant::BasicEnemy), (Millis(100), SpawnVariant::BasicEnemy),
            (Millis(200), SpawnVariant::BasicEnemy), (Millis(100), SpawnVariant::BasicEnemy),
            (Millis(300), SpawnVariant::BasicEnemy),
            (Millis(400), SpawnVariant::ExplosiveBarrel),
            (Millis(500), SpawnVariant::ExplosiveBarrel),
        ]));
        templates.push(SpawnPacket::new(Difficulty(0), vec![
            (Millis(0), SpawnVariant::BigEnemy), (Millis(100), SpawnVariant::BasicEnemy),
            (Millis(200), SpawnVariant::BasicEnemy), (Millis(300), SpawnVariant::BasicEnemy),
            (Millis(100), SpawnVariant::BasicEnemy), (Millis(400), SpawnVariant::BasicEnemy),
        ]));
        templates.push(SpawnPacket::new(Difficulty(0), vec![
            (Millis(0), SpawnVariant::BasicEnemy), (Millis(100), SpawnVariant::BasicEnemy),
            (Millis(100), SpawnVariant::BasicEnemy), (Millis(100), SpawnVariant::BasicEnemy),
            (Millis(100), SpawnVariant::BasicEnemy),
            (Millis(200), SpawnVariant::ExplosiveBarrel),
            (Millis(300), SpawnVariant::ExplosiveBarrel),
            (Millis(400), SpawnVariant::ExplosiveBarrel),
            (Millis(500), SpawnVariant::ExplosiveBarrel),
            (Millis(600), SpawnVariant::ExplosiveBarrel),
            (Millis(700), SpawnVariant::ExplosiveBarrel),
        ]));
        templates.push(SpawnPacket::new(Difficulty(1), vec![
            (Millis(0), SpawnVariant::BasicEnemy), (Millis(100), SpawnVariant::BasicEnemy),
            (Millis(200), SpawnVariant::BigEnemy),
            (Millis(300), SpawnVariant::ExplosiveBarrel),
            (Millis(400), SpawnVariant::BasicEnemy),
            (Millis(500), SpawnVariant::ExplosiveBarrel),
            (Millis(600), SpawnVariant::SmallEnemy), (Millis(700), SpawnVariant::BasicEnemy),
            (Millis(100), SpawnVariant::BasicEnemy), (Millis(100), SpawnVariant::BasicEnemy),
        ]));
        templates.push(SpawnPacket::new(Difficulty(1), vec![
            (Millis(0), SpawnVariant::BasicEnemy), (Millis(100), SpawnVariant::BigEnemy),
            (Millis(200), SpawnVariant::BigEnemy), (Millis(300), SpawnVariant::BigEnemy),
            (Millis(100), SpawnVariant::BasicEnemy), (Millis(100), SpawnVariant::BasicEnemy),
            (Millis(400), SpawnVariant::BigEnemy),
            (Millis(500), SpawnVariant::ExplosiveBarrel),
            (Millis(600), SpawnVariant::SmallEnemy), (Millis(700), SpawnVariant::BasicEnemy),
        ]));
        templates.push(SpawnPacket::new(Difficulty(1), vec![
            (Millis(0), SpawnVariant::BasicEnemy), (Millis(100), SpawnVariant::BasicEnemy),
            (Millis(200), SpawnVariant::BasicEnemy), (Millis(300), SpawnVariant::BasicEnemy),
            (Millis(100), SpawnVariant::BasicEnemy), (Millis(100), SpawnVariant::BasicEnemy),
            (Millis(400), SpawnVariant::BasicEnemy), (Millis(500), SpawnVariant::BasicEnemy),
            (Millis(600), SpawnVariant::BasicEnemy), (Millis(700), SpawnVariant::BasicEnemy),
            (Millis(800), SpawnVariant::ExplosiveBarrel),
            (Millis(800), SpawnVariant::ExplosiveBarrel),
            (Millis(900), SpawnVariant::BasicEnemy), (Millis(1000), SpawnVariant::BasicEnemy),
            (Millis(1100), SpawnVariant::BasicEnemy), (Millis(1200), SpawnVariant::BasicEnemy),
        ]));
        templates.push(SpawnPacket::new(Difficulty(2), vec![
            (Millis(0), SpawnVariant::SmallEnemy), (Millis(100), SpawnVariant::SmallEnemy),
            (Millis(200), SpawnVariant::SmallEnemy), (Millis(100), SpawnVariant::BasicEnemy),
            (Millis(100), SpawnVariant::BasicEnemy), (Millis(300), SpawnVariant::SmallEnemy),
            (Millis(400), SpawnVariant::SmallEnemy), (Millis(500), SpawnVariant::BasicEnemy),
            (Millis(600), SpawnVariant::BasicEnemy), (Millis(700), SpawnVariant::BasicEnemy),
            (Millis(800), SpawnVariant::ExplosiveBarrel),
            (Millis(800), SpawnVariant::ExplosiveBarrel),
            (Millis(900), SpawnVariant::BasicEnemy),
        ]));
        templates.push(SpawnPacket::new(Difficulty(2), vec![
            (Millis(0), SpawnVariant::SmallEnemy), (Millis(100), SpawnVariant::SmallEnemy),
            (Millis(200), SpawnVariant::BigEnemy), (Millis(300), SpawnVariant::BigEnemy),
            (Millis(400), SpawnVariant::BigEnemy), (Millis(100), SpawnVariant::BasicEnemy),
            (Millis(100), SpawnVariant::BasicEnemy), (Millis(500), SpawnVariant::BasicEnemy),
            (Millis(600), SpawnVariant::BigEnemy), (Millis(700), SpawnVariant::BasicEnemy),
            (Millis(800), SpawnVariant::ExplosiveBarrel),
            (Millis(800), SpawnVariant::ExplosiveBarrel),
            (Millis(900), SpawnVariant::BasicEnemy),
        ]));
        templates.push(SpawnPacket::new(Difficulty(2), vec![
            (Millis(0), SpawnVariant::BigEnemy), (Millis(100), SpawnVariant::BigEnemy),
            (Millis(200), SpawnVariant::BigEnemy), (Millis(300), SpawnVariant::BigEnemy),
            (Millis(400), SpawnVariant::BigEnemy), (Millis(500), SpawnVariant::BigEnemy),
            (Millis(100), SpawnVariant::BasicEnemy), (Millis(100), SpawnVariant::BasicEnemy),
            (Millis(600), SpawnVariant::BigEnemy), (Millis(700), SpawnVariant::BigEnemy),
            (Millis(800), SpawnVariant::BigEnemy), (Millis(900), SpawnVariant::BigEnemy),
            (Millis(1000), SpawnVariant::BigEnemy),
        ]));
        templates.push(SpawnPacket::new(Difficulty(2), vec![
            (Millis(0), SpawnVariant::BasicEnemy), (Millis(100), SpawnVariant::BasicEnemy),
            (Millis(200), SpawnVariant::BasicEnemy), (Millis(300), SpawnVariant::BasicEnemy),
            (Millis(400), SpawnVariant::BasicEnemy), (Millis(400), SpawnVariant::BasicEnemy),
            (Millis(400), SpawnVariant::BasicEnemy), (Millis(500), SpawnVariant::BasicEnemy),
            (Millis(600), SpawnVariant::BasicEnemy), (Millis(700), SpawnVariant::BasicEnemy),
            (Millis(800), SpawnVariant::BasicEnemy), (Millis(900), SpawnVariant::BasicEnemy),
            (Millis(1000), SpawnVariant::BasicEnemy), (Millis(1100), SpawnVariant::BasicEnemy),
            (Millis(1200), SpawnVariant::BasicEnemy), (Millis(1300), SpawnVariant::BasicEnemy),
            (Millis(1400), SpawnVariant::BasicEnemy), (Millis(1500), SpawnVariant::BasicEnemy),
            (Millis(1600), SpawnVariant::BasicEnemy), (Millis(1700), SpawnVariant::BasicEnemy),
        ]));
        templates.push(SpawnPacket::new(Difficulty(3), vec![
            (Millis(0), SpawnVariant::BasicEnemy), (Millis(100), SpawnVariant::BasicEnemy),
            (Millis(200), SpawnVariant::BasicEnemy), (Millis(300), SpawnVariant::BasicEnemy),
            (Millis(400), SpawnVariant::BasicEnemy), (Millis(400), SpawnVariant::BasicEnemy),
            (Millis(400), SpawnVariant::BasicEnemy), (Millis(500), SpawnVariant::BasicEnemy),
            (Millis(600), SpawnVariant::BasicEnemy), (Millis(700), SpawnVariant::BasicEnemy),
            (Millis(800), SpawnVariant::BasicEnemy), (Millis(900), SpawnVariant::BasicEnemy),
            (Millis(1000), SpawnVariant::BasicEnemy), (Millis(1100), SpawnVariant::BasicEnemy),
            (Millis(1200), SpawnVariant::BasicEnemy), (Millis(1300), SpawnVariant::BasicEnemy),
            (Millis(1400), SpawnVariant::BasicEnemy), (Millis(1500), SpawnVariant::BasicEnemy),
            (Millis(1600), SpawnVariant::BasicEnemy), (Millis(1700), SpawnVariant::BasicEnemy),
            (Millis(1800), SpawnVariant::BasicEnemy), (Millis(1900), SpawnVariant::BasicEnemy),
            (Millis(2000), SpawnVariant::BasicEnemy), (Millis(2100), SpawnVariant::BasicEnemy),
            (Millis(2200), SpawnVariant::BasicEnemy), (Millis(2300), SpawnVariant::BasicEnemy),
            (Millis(2400), SpawnVariant::BasicEnemy), (Millis(2500), SpawnVariant::BasicEnemy),
            (Millis(2600), SpawnVariant::BasicEnemy), (Millis(2700), SpawnVariant::BasicEnemy),
            (Millis(2800), SpawnVariant::BasicEnemy), (Millis(2900), SpawnVariant::BasicEnemy),
            (Millis(3000), SpawnVariant::BasicEnemy), (Millis(3100), SpawnVariant::BasicEnemy),
            (Millis(3200), SpawnVariant::BasicEnemy), (Millis(3300), SpawnVariant::BasicEnemy),
            (Millis(3400), SpawnVariant::BasicEnemy), (Millis(3500), SpawnVariant::BasicEnemy),
            (Millis(3600), SpawnVariant::BasicEnemy), (Millis(3700), SpawnVariant::BasicEnemy),
            (Millis(3800), SpawnVariant::BasicEnemy),
        ]));
        templates.push(SpawnPacket::new(Difficulty(3), vec![
            (Millis(0), SpawnVariant::SmallEnemy), (Millis(100), SpawnVariant::SmallEnemy),
            (Millis(200), SpawnVariant::SmallEnemy), (Millis(300), SpawnVariant::SmallEnemy),
            (Millis(400), SpawnVariant::SmallEnemy), (Millis(100), SpawnVariant::SmallEnemy),
            (Millis(100), SpawnVariant::SmallEnemy), (Millis(500), SpawnVariant::SmallEnemy),
            (Millis(600), SpawnVariant::SmallEnemy), (Millis(700), SpawnVariant::SmallEnemy),
            (Millis(800), SpawnVariant::SmallEnemy), (Millis(900), SpawnVariant::SmallEnemy),
            (Millis(1000), SpawnVariant::SmallEnemy), (Millis(1100), SpawnVariant::SmallEnemy),
            (Millis(1200), SpawnVariant::SmallEnemy), (Millis(1300), SpawnVariant::SmallEnemy),
            (Millis(1400), SpawnVariant::SmallEnemy), (Millis(1500), SpawnVariant::SmallEnemy),
            (Millis(1600), SpawnVariant::SmallEnemy),
        ]));
        templates.push(SpawnPacket::new(Difficulty(3), vec![
            (Millis(0), SpawnVariant::BigEnemy), (Millis(100), SpawnVariant::BigEnemy),
            (Millis(200), SpawnVariant::BigEnemy), (Millis(300), SpawnVariant::BigEnemy),
            (Millis(400), SpawnVariant::BigEnemy), (Millis(500), SpawnVariant::BigEnemy),
            (Millis(600), SpawnVariant::BigEnemy), (Millis(700), SpawnVariant::BigEnemy),
            (Millis(800), SpawnVariant::BigEnemy),
            (Millis(900), SpawnVariant::ExplosiveBarrel),
            (Millis(800), SpawnVariant::ExplosiveBarrel),
            (Millis(900), SpawnVariant::ExplosiveBarrel),
            (Millis(1000), SpawnVariant::ExplosiveBarrel),
            (Millis(1100), SpawnVariant::ExplosiveBarrel),
            (Millis(1200), SpawnVariant::ExplosiveBarrel),
            (Millis(1300), SpawnVariant::ExplosiveBarrel),
            (Millis(1400), SpawnVariant::SmallEnemy), (Millis(1500), SpawnVariant::SmallEnemy),
            (Millis(1600), SpawnVariant::SmallEnemy), (Millis(1700), SpawnVariant::BasicEnemy),
            (Millis(1800), SpawnVariant::BasicEnemy), (Millis(1900), SpawnVariant::BasicEnemy),
            (Millis(2000), SpawnVariant::BasicEnemy), (Millis(2100), SpawnVariant::BasicEnemy),
            (Millis(2200), SpawnVariant::BasicEnemy), (Millis(2300), SpawnVariant::BasicEnemy),
            (Millis(2400), SpawnVariant::BasicEnemy), (Millis(2500), SpawnVariant::BasicEnemy),
            (Millis(2600), SpawnVariant::BasicEnemy), (Millis(2700), SpawnVariant::BasicEnemy),
            (Millis(2800), SpawnVariant::BasicEnemy), (Millis(2900), SpawnVariant::BasicEnemy),
            (Millis(3000), SpawnVariant::BasicEnemy),
        ]));
        let r = SpawnPackets(templates);
        proof {
            assert(r@[0].difficulty == 0);
            assert(r@[4].difficulty == 1);
            assert(r@[7].difficulty == 2);
            assert(r@[11].difficulty == 3);
        }
        r
    }
}

/// Every template in `catalog` tagged exactly with tier `d`, in order.
pub open spec fn templates_for(catalog: Seq<PacketView>, d: u32) -> Seq<PacketView> {
    catalog.filter(|p: PacketView| p.difficulty == d)
}

} // verus!
