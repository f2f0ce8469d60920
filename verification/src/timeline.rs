//! The wave timeline: the stateful orchestrator that owns the wave plan,
//! the preparation countdown, the combat stopwatch, and the packets that
//! are currently live.

use vstd::prelude::*;

use crate::catalog::{
    spec_due_spawns, spec_kept_spawns, templates_for, Difficulty, PacketView, SpawnPacket,
    SpawnPackets, SpawnVariant,
};
use crate::clock::{sat_add, sat_sub, Countdown, Millis, Stopwatch};
use crate::rng::random_below;
use crate::seq_facts::{
    lemma_filter_all, lemma_filter_none, lemma_filter_push, lemma_filter_subset,
    lemma_flatten_empty_suffix,
};

verus! {

/// One stage of the game: how long to idle before it starts, and a schedule
/// of (offset, difficulty) packet requests measured from the wave's own
/// activation. Entries are consumed as they fire.
pub struct Wave {
    pub prep_time: Millis,
    pub packet_kinds: Vec<(Millis, Difficulty)>,
}

/// The mathematical value of a [`Wave`].
#[verifier::ext_equal]
pub struct WaveView {
    pub prep_time: u64,
    pub packet_kinds: Seq<(u64, u32)>,
}

impl View for Wave {
    type V = WaveView;

    open spec fn view(&self) -> WaveView {
        WaveView {
            prep_time: self.prep_time.0,
            packet_kinds: self.packet_kinds@.map_values(|e: (Millis, Difficulty)| (e.0.0, e.1.0)),
        }
    }
}

/// Offsets never decrease along the sequence of schedule entries.
pub open spec fn sorted_by_offset(s: Seq<(u64, u32)>) -> bool {
    forall|i: int, j: int| 0 <= i < j < s.len() ==> (#[trigger] s[i]).0 <= (#[trigger] s[j]).0
}

impl Wave {
    /// The wave's schedule rearranged into nondecreasing offset order; the
    /// wave itself is left untouched.
    #[verifier::loop_isolation(false)]
    pub fn packet_kinds_ordered(&self) -> (r: Vec<(Millis, Difficulty)>)
        ensures
            r@.map_values(|e: (Millis, Difficulty)| (e.0.0, e.1.0)).to_multiset()
                == self@.packet_kinds.to_multiset(),
            sorted_by_offset(r@.map_values(|e: (Millis, Difficulty)| (e.0.0, e.1.0))),
    {
        let ghost conv = |e: (Millis, Difficulty)| (e.0.0, e.1.0);
        let mut work: Vec<(Millis, Difficulty)> = Vec::new();
        let mut i: usize = 0;
        while i < self.packet_kinds.len()
            invariant
                i <= self.packet_kinds.len(),
                work@ == self.packet_kinds@.take(i as int),
            decreases self.packet_kinds.len() - i,
        {
            work.push(self.packet_kinds[i]);
            assert(self.packet_kinds@.take(i + 1) =~= self.packet_kinds@.take(i as int).push(
                self.packet_kinds@[i as int],
            ));
            i += 1;
        }
        assert(work@ =~= self.packet_kinds@);
        let mut out: Vec<(Millis, Difficulty)> = Vec::new();
        proof {
            broadcast use vstd::seq_lib::group_to_multiset_ensures;

            assert(work@.map_values(conv) =~= self@.packet_kinds);
            assert forall|x: (u64, u32)| out@.map_values(conv).to_multiset().count(x) == 0 by {
                assert(!out@.map_values(conv).contains(x));
            }
            assert(out@.map_values(conv).to_multiset().add(work@.map_values(conv).to_multiset())
                =~= self@.packet_kinds.to_multiset());
        }
        while work.len() > 0
            invariant
                out@.map_values(conv).to_multiset().add(work@.map_values(conv).to_multiset())
                    == self@.packet_kinds.to_multiset(),
                sorted_by_offset(out@.map_values(conv)),
                forall|a: int, b: int|
                    0 <= a < out@.len() && 0 <= b < work@.len() ==> (#[trigger] out@[a]).0.0 <= (
                    #[trigger] work@[b]).0.0,
            decreases work.len(),
        {
            let mut min_idx: usize = 0;
            let mut j: usize = 1;
            while j < work.len()
                invariant
                    min_idx < j <= work.len(),
                    work@.len() > 0,
                    forall|k: int|
                        0 <= k < j ==> work@[min_idx as int].0.0 <= (#[trigger] work@[k]).0.0,
                decreases work.len() - j,
            {
                if work[j].0.0 < work[min_idx].0.0 {
                    min_idx = j;
                }
                j += 1;
            }
            let ghost work_pre = work@;
            let ghost out_pre = out@;
            let e = work.remove(min_idx);
            out.push(e);
            proof {
                broadcast use vstd::seq_lib::group_to_multiset_ensures;

                assert(work@.map_values(conv) =~= work_pre.map_values(conv).remove(
                    min_idx as int,
                ));
                assert(work_pre.map_values(conv)[min_idx as int] == conv(e));
                assert(out@.map_values(conv) =~= out_pre.map_values(conv).push(conv(e)));
                assert(out@.map_values(conv).to_multiset().add(work@.map_values(conv).to_multiset())
                    =~= self@.packet_kinds.to_multiset());
                assert forall|a: int, b: int|
                    0 <= a < out@.len() && 0 <= b < work@.len() implies (#[trigger] out@[a]).0.0
                    <= (#[trigger] work@[b]).0.0 by {
                    let src = if b < min_idx {
                        b
                    } else {
                        b + 1
                    };
                    assert(work@[b] == work_pre[src]);
                    if a < out@.len() - 1 {
                        assert(out@[a] == out_pre[a]);
                    } else {
                        assert(out@[a] == e);
                        assert(work_pre[min_idx as int].0.0 <= work_pre[src].0.0);
                    }
                }
                assert forall|a: int, b: int|
                    0 <= a < b < out@.map_values(conv).len() implies (#[trigger] out@.map_values(
                        conv,
                    )[a]).0 <= (#[trigger] out@.map_values(conv)[b]).0 by {
                    if b < out@.len() - 1 {
                        assert(sorted_by_offset(out_pre.map_values(conv)));
                        assert(out_pre.map_values(conv)[a].0 <= out_pre.map_values(conv)[b].0);
                    } else {
                        assert(out@[a] == out_pre[a]);
                        assert(out_pre[a].0.0 <= work_pre[min_idx as int].0.0);
                    }
                }
            }
        }
        proof {
            broadcast use vstd::seq_lib::group_to_multiset_ensures;

            assert forall|x: (u64, u32)| work@.map_values(conv).to_multiset().count(x) == 0 by {
                assert(!work@.map_values(conv).contains(x));
            }
            assert(out@.map_values(conv).to_multiset() =~= self@.packet_kinds.to_multiset());
        }
        out
    }
}

/// What a single call to [`Waves::try_advance`] decided.
#[derive(Clone, Copy, Debug, PartialEq, Eq, Structural)]
pub enum WaveAdvancement {
    Advanced,
    WaitingForEnemies,
    Ongoing,
}

/// The mathematical value of a [`Waves`] timeline.
#[verifier::ext_equal]
pub struct TimelineView {
    pub waves: Seq<WaveView>,
    pub current_wave: nat,
    pub total_waves: nat,
    pub elapsed: u64,
    pub prep_remaining: u64,
    pub packets: Seq<PacketView>,
    pub game_won_emitted: bool,
}

impl TimelineView {
    /// The structural invariant of a timeline.
    pub open spec fn wf(self) -> bool {
        &&& self.total_waves == self.waves.len()
        &&& self.current_wave <= self.total_waves
    }

    /// The preparation countdown still has time on it.
    pub open spec fn is_preparing(self) -> bool {
        self.prep_remaining != 0
    }

    /// The plan is exhausted and every drawn packet has drained.
    pub open spec fn is_finished(self) -> bool {
        self.current_wave >= self.waves.len() && self.packets.len() == 0
    }

    /// The current wave exists and all of its packet requests have fired.
    pub open spec fn should_advance(self) -> bool {
        self.current_wave < self.waves.len() && self.waves[self.current_wave as int].packet_kinds.len() == 0
    }

    /// The state right after moving to the next wave: the countdown is
    /// re-armed from the incoming wave (or zero past the end of the plan)
    /// and the combat stopwatch starts over.
    pub open spec fn advanced(self) -> TimelineView {
        let next = self.current_wave + 1;
        TimelineView {
            current_wave: next as nat,
            prep_remaining: if next < self.waves.len() {
                self.waves[next as int].prep_time
            } else {
                0
            },
            elapsed: 0,
            ..self
        }
    }

    /// One clock tick: while preparing only the countdown runs; otherwise
    /// the combat stopwatch and every live packet's private clock run.
    pub open spec fn ticked(self, delta: u64) -> TimelineView {
        if self.is_preparing() {
            TimelineView { prep_remaining: sat_sub(self.prep_remaining, delta), ..self }
        } else {
            TimelineView {
                elapsed: sat_add(self.elapsed, delta),
                packets: self.packets.map_values(
                    |p: PacketView| PacketView { elapsed: sat_add(p.elapsed, delta), ..p },
                ),
                ..self
            }
        }
    }

    /// The deterministic phase-and-clock part of one simulation tick.
    pub open spec fn stepped(self, delta: u64, has_enemies: bool) -> TimelineView {
        if self.should_advance() && !has_enemies {
            self.advanced().ticked(delta)
        } else {
            self.ticked(delta)
        }
    }

    /// The difficulties of the current wave's packet requests that are due:
    /// their offset lies strictly below the wave's elapsed time. Past the
    /// end of the plan nothing is ever due.
    pub open spec fn due_kinds(self) -> Seq<u32> {
        if self.current_wave < self.waves.len() {
            self.waves[self.current_wave as int].packet_kinds.filter(
                |e: (u64, u32)| e.0 < self.elapsed,
            ).map_values(|e: (u64, u32)| e.1)
        } else {
            Seq::empty()
        }
    }

    /// The state after the due packet requests have been removed from the
    /// current wave.
    pub open spec fn popped_kinds(self) -> TimelineView {
        if self.current_wave < self.waves.len() {
            let cw = self.current_wave as int;
            let w = self.waves[cw];
            TimelineView {
                waves: self.waves.update(
                    cw,
                    WaveView {
                        packet_kinds: w.packet_kinds.filter(|e: (u64, u32)| e.0 >= self.elapsed),
                        ..w
                    },
                ),
                ..self
            }
        } else {
            self
        }
    }

    /// What the tick reports about advancement.
    pub open spec fn advancement(self, has_enemies: bool) -> WaveAdvancement {
        if self.should_advance() {
            if has_enemies {
                WaveAdvancement::WaitingForEnemies
            } else {
                WaveAdvancement::Advanced
            }
        } else {
            WaveAdvancement::Ongoing
        }
    }

    /// The transition signals one tick emits, in emission order: the
    /// advancement signal, then the preparation phase edges, then the
    /// one-shot victory signal. Victory is announced only once, and only
    /// while no enemies linger after the plan has drained.
    pub open spec fn tick_events(self, delta: u64, has_enemies: bool) -> Seq<WaveEvent> {
        let post = self.stepped(delta, has_enemies);
        let s0 = match self.advancement(has_enemies) {
            WaveAdvancement::Advanced => seq![WaveEvent::WaveAdvanced],
            WaveAdvancement::WaitingForEnemies => seq![WaveEvent::WaveWaitingForEnemies],
            WaveAdvancement::Ongoing => Seq::<WaveEvent>::empty(),
        };
        let s1 = if !self.is_preparing() && post.is_preparing() {
            s0.push(WaveEvent::WaveStartedPreparing)
        } else {
            s0
        };
        let s2 = if self.is_preparing() && !post.is_preparing() {
            s1.push(WaveEvent::WaveFinishedPreparing)
        } else {
            s1
        };
        if post.is_finished() && !has_enemies && !self.game_won_emitted {
            s2.push(WaveEvent::GameWon)
        } else {
            s2
        }
    }
}

/// A transition signal produced by one tick, consumed fire-and-forget by
/// UI, audio and VFX collaborators.
#[derive(Clone, Copy, Debug, PartialEq, Eq, Structural)]
pub enum WaveEvent {
    WaveAdvanced,
    WaveWaitingForEnemies,
    WaveStartedPreparing,
    WaveFinishedPreparing,
    GameWon,
}

/// Everything one simulation tick produced: the transition signals in
/// emission order, the batch of spawns now due, and the difficulty tiers
/// for which the catalog held no template (a content-design gap that is
/// reported rather than failed on).
pub struct TickOutput {
    pub events: Vec<WaveEvent>,
    pub spawns: Vec<SpawnVariant>,
    pub missing: Vec<Difficulty>,
}

/// Every spawn that is due across the given packets, flattened in packet
/// order.
pub open spec fn due_batch(packets: Seq<PacketView>) -> Seq<SpawnVariant> {
    packets.map_values(|p: PacketView| spec_due_spawns(p)).flatten()
}

/// The packets after each has had its due entries popped.
pub open spec fn popped_packets(packets: Seq<PacketView>) -> Seq<PacketView> {
    packets.map_values(|p: PacketView| PacketView { spawns: spec_kept_spawns(p), ..p })
}

/// The difficulty tiers among `ds` for which the catalog holds no template.
pub open spec fn missing_kinds(catalog: Seq<PacketView>, ds: Seq<u32>) -> Seq<u32> {
    ds.filter(|d: u32| templates_for(catalog, d).len() == 0)
}

/// Relates the difficulties that became due on a tick to the packet
/// instances the tick appended: taking the difficulties in order, a tier
/// with no catalog template contributes nothing, and any other tier
/// contributes exactly one copy of some template tagged with it. Which
/// template is a uniformly random draw, so no more is stated.
pub open spec fn draws_match(
    catalog: Seq<PacketView>,
    ds: Seq<u32>,
    drawn: Seq<PacketView>,
) -> bool
    decreases ds.len(),
{
    if ds.len() == 0 {
        drawn.len() == 0
    } else if templates_for(catalog, ds[0]).len() == 0 {
        draws_match(catalog, ds.drop_first(), drawn)
    } else {
        &&& drawn.len() > 0
        &&& catalog.contains(drawn[0])
        &&& drawn[0].difficulty == ds[0]
        &&& draws_match(catalog, ds.drop_first(), drawn.drop_first())
    }
}

/// Extends a draw correspondence by one more difficulty: either the tier
/// has no template and nothing is appended, or one matching instance is.
proof fn lemma_draws_match_extend(
    catalog: Seq<PacketView>,
    ds: Seq<u32>,
    drawn: Seq<PacketView>,
    d: u32,
    extra: Seq<PacketView>,
)
    requires
        draws_match(catalog, ds, drawn),
        if templates_for(catalog, d).len() == 0 {
            extra.len() == 0
        } else {
            extra.len() == 1 && catalog.contains(extra[0]) && extra[0].difficulty == d
        },
    ensures
        draws_match(catalog, ds.push(d), drawn + extra),
    decreases ds.len(),
{
    reveal_with_fuel(draws_match, 3);
    if ds.len() == 0 {
        assert(ds.push(d)[0] == d);
        assert(ds.push(d).drop_first() =~= Seq::<u32>::empty());
        if templates_for(catalog, d).len() == 0 {
            assert((drawn + extra).len() == 0);
        } else {
            assert((drawn + extra)[0] == extra[0]);
            assert((drawn + extra).drop_first() =~= Seq::<PacketView>::empty());
        }
    } else {
        assert(ds.push(d)[0] == ds[0]);
        assert(ds.push(d).drop_first() =~= ds.drop_first().push(d));
        if templates_for(catalog, ds[0]).len() == 0 {
            lemma_draws_match_extend(catalog, ds.drop_first(), drawn, d, extra);
        } else {
            assert((drawn + extra)[0] == drawn[0]);
            assert((drawn + extra).drop_first() =~= drawn.drop_first() + extra);
            lemma_draws_match_extend(catalog, ds.drop_first(), drawn.drop_first(), d, extra);
        }
    }
}

/// The sole mutable orchestrator of wave progression, one per game session.
pub struct Waves {
    pub waves: Vec<Wave>,
    pub current_packets: Vec<SpawnPacket>,
    pub wave_stopwatch: Stopwatch,
    pub current_wave: usize,
    pub total_waves: usize,
    pub prep_timer: Countdown,
    pub game_won_emitted: bool,
}

impl View for Waves {
    type V = TimelineView;

    open spec fn view(&self) -> TimelineView {
        TimelineView {
            waves: self.waves@.map_values(|w: Wave| w@),
            current_wave: self.current_wave as nat,
            total_waves: self.total_waves as nat,
            elapsed: self.wave_stopwatch.elapsed.0,
            prep_remaining: self.prep_timer.remaining.0,
            packets: self.current_packets@.map_values(|p: SpawnPacket| p@),
            game_won_emitted: self.game_won_emitted,
        }
    }
}

impl Waves {
    /// The structural invariant, inherited from the view.
    pub open spec fn wf(&self) -> bool {
        self@.wf()
    }

    /// A fresh timeline over the given plan. No preparation time is armed
    /// for the opening wave: the session begins in active phase with the
    /// combat stopwatch at zero.
    pub fn new(waves: Vec<Wave>) -> (r: Waves)
        ensures
            r.wf(),
            r@.waves == waves@.map_values(|w: Wave| w@),
            r@.current_wave == 0,
            r@.total_waves == waves@.len(),
            r@.elapsed == 0,
            r@.prep_remaining == 0,
            r@.packets == Seq::<PacketView>::empty(),
            !r@.game_won_emitted,
    {
        let len = waves.len();
        let r = Waves {
            waves,
            current_packets: Vec::new(),
            wave_stopwatch: Stopwatch::new(),
            current_wave: 0,
            total_waves: len,
            prep_timer: Countdown::new(Millis(0)),
            game_won_emitted: false,
        };
        assert(r@.packets =~= Seq::<PacketView>::empty());
        r
    }

    /// The index of the wave the session is currently in.
    pub fn current_wave_index(&self) -> (r: usize)
        ensures
            r == self@.current_wave,
    {
        self.current_wave
    }

    /// How many waves the plan holds in total.
    pub fn total_waves(&self) -> (r: usize)
        ensures
            r == self@.total_waves,
    {
        self.total_waves
    }

    /// The preparation time still left before the current wave goes live.
    pub fn prep_time_left(&self) -> (r: Millis)
        ensures
            r.0 == self@.prep_remaining,
    {
        self.prep_timer.remaining()
    }

    /// How long the current wave has been in active (non-preparation) phase.
    pub fn elapsed_millis(&self) -> (r: Millis)
        ensures
            r.0 == self@.elapsed,
    {
        self.wave_stopwatch.elapsed()
    }

    /// The timeline is preparing exactly while the countdown has time left.
    pub fn is_preparing(&self) -> (r: bool)
        ensures
            r == self@.is_preparing(),
    {
        !self.prep_timer.finished()
    }

    /// The timeline is finished only when the plan is exhausted *and* every
    /// drawn packet has fully drained.
    pub fn is_finished(&self) -> (r: bool)
        ensures
            r == self@.is_finished(),
    {
        self.current_wave >= self.waves.len() && self.current_packets.is_empty()
    }

    /// The wave the session is currently in, if the plan still has one.
    pub fn current_wave(&self) -> (r: Option<&Wave>)
        ensures
            match r {
                Some(w) => self@.current_wave < self@.waves.len() && w@ == self@.waves[
                    self@.current_wave as int
                ],
                None => self@.current_wave >= self@.waves.len(),
            },
    {
        if self.current_wave < self.waves.len() {
            let w = &self.waves[self.current_wave];
            assert(w@ == self@.waves[self@.current_wave as int]);
            Some(w)
        } else {
            None
        }
    }

    /// Moves to the next wave: bumps the index, re-arms the preparation
    /// countdown from the incoming wave (zero past the end of the plan),
    /// and resets the combat stopwatch.
    pub fn advance_wave(&mut self)
        requires
            old(self).wf(),
            old(self)@.current_wave < old(self)@.waves.len(),
        ensures
            final(self).wf(),
            final(self)@ == old(self)@.advanced(),
    {
        self.current_wave = self.current_wave + 1;
        let prep_time = if self.current_wave < self.waves.len() {
            self.waves[self.current_wave].prep_time
        } else {
            Millis(0)
        };
        self.prep_timer = Countdown::new(prep_time);
        self.wave_stopwatch.reset();
        assert(final(self)@ =~= old(self)@.advanced());
    }

    /// One simulation tick of the phase machinery, given the time since the
    /// last tick and whether enemies are still alive. If the current wave
    /// has fired all its packet requests, the timeline either advances (no
    /// enemies left) or reports that it is waiting for the arena to clear
    /// (the backpressure rule). Afterwards exactly one family of clocks
    /// runs: the countdown while preparing, otherwise the combat stopwatch
    /// and every live packet's clock.
    #[verifier::loop_isolation(false)]
    pub fn try_advance(&mut self, delta: Millis, has_enemies: bool) -> (r: WaveAdvancement)
        requires
            old(self).wf(),
        ensures
            final(self).wf(),
            final(self)@ == old(self)@.stepped(delta.0, has_enemies),
            r == old(self)@.advancement(has_enemies),
    {
        let mut advancement = WaveAdvancement::Ongoing;
        let kinds_empty = match self.current_wave() {
            Some(wave) => wave.packet_kinds.len() == 0,
            None => false,
        };
        assert(kinds_empty == self@.should_advance());
        if kinds_empty {
            if has_enemies {
                advancement = WaveAdvancement::WaitingForEnemies;
            } else {
                self.advance_wave();
                advancement = WaveAdvancement::Advanced;
            }
        }
        let ghost base = self@;
        let ghost mid = old(self)@.stepped(delta.0, has_enemies);
        proof {
            assert(mid == base.ticked(delta.0));
        }
        if self.is_preparing() {
            self.prep_timer.tick(delta);
            assert(self@ =~= mid);
        } else {
            self.wave_stopwatch.tick(delta);
            let ghost pre_loop = self@;
            let ghost tick_map = |p: PacketView| PacketView {
                elapsed: sat_add(p.elapsed, delta.0),
                ..p
            };
            let mut i: usize = 0;
            while i < self.current_packets.len()
                invariant
                    i <= self.current_packets.len(),
                    self@.packets.len() == pre_loop.packets.len(),
                    forall|j: int| 0 <= j < i ==> self@.packets[j] == tick_map(pre_loop.packets[j]),
                    forall|j: int|
                        i <= j < pre_loop.packets.len() ==> self@.packets[j] == pre_loop.packets[j],
                    self@.waves == pre_loop.waves,
                    self@.current_wave == pre_loop.current_wave,
                    self@.total_waves == pre_loop.total_waves,
                    self@.elapsed == pre_loop.elapsed,
                    self@.prep_remaining == pre_loop.prep_remaining,
                    self@.game_won_emitted == pre_loop.game_won_emitted,
                decreases self.current_packets.len() - i,
            {
                let ghost at_entry = self@;
                self.current_packets[i].tick(delta);
                proof {
                    assert forall|j: int| 0 <= j <= i implies self@.packets[j] == tick_map(
                        pre_loop.packets[j],
                    ) by {
                        assert(self@.packets[j] == self.current_packets@[j]@);
                        if j < i {
                            assert(at_entry.packets[j] == tick_map(pre_loop.packets[j]));
                            assert(self.current_packets@[j]@ == at_entry.packets[j]);
                        } else {
                            assert(self@.packets[i as int] == tick_map(pre_loop.packets[i as int]));
                        }
                    }
                    assert forall|j: int|
                        i + 1 <= j < pre_loop.packets.len() implies self@.packets[j]
                        == pre_loop.packets[j] by {
                        assert(self@.packets[j] == self.current_packets@[j]@);
                        assert(self.current_packets@[j]@ == at_entry.packets[j]);
                        assert(at_entry.packets[j] == pre_loop.packets[j]);
                    }
                }
                i += 1;
            }
            assert(self@.packets =~= pre_loop.packets.map_values(tick_map));
            assert(self@ =~= mid);
        }
        advancement
    }

    /// Removes from the current wave every packet request whose offset is
    /// strictly below the elapsed wave time and returns their difficulties
    /// in schedule order. An entry at exactly the boundary millisecond is
    /// not yet due; it fires on the next tick that exceeds it. All due
    /// entries fire on the same tick, so the schedule need not be sorted.
    #[verifier::loop_isolation(false)]
    pub fn pop_difficulties_to_spawn(&mut self) -> (r: Vec<Difficulty>)
        requires
            old(self).wf(),
        ensures
            final(self).wf(),
            final(self)@ == old(self)@.popped_kinds(),
            r@.map_values(|d: Difficulty| d.0) == old(self)@.due_kinds(),
    {
        let ghost pv = self@;
        let mut due: Vec<Difficulty> = Vec::new();
        if self.current_wave >= self.waves.len() {
            assert(due@.map_values(|d: Difficulty| d.0) =~= pv.due_kinds());
            return due;
        }
        let ghost wv = pv.waves[pv.current_wave as int];
        let ghost due_pred = |e: (u64, u32)| e.0 < pv.elapsed;
        let ghost keep_pred = |e: (u64, u32)| e.0 >= pv.elapsed;
        let ghost snd = |e: (u64, u32)| e.1;
        let ghost dmk = |e: (u64, u32)| Difficulty(e.1);
        let ghost conv = |e: (Millis, Difficulty)| (e.0.0, e.1.0);
        let elapsed = self.wave_stopwatch.elapsed();
        let cw = self.current_wave;
        let mut kept: Vec<(Millis, Difficulty)> = Vec::new();
        let mut i: usize = 0;
        while i < self.waves[cw].packet_kinds.len()
            invariant
                i <= self.waves[cw as int].packet_kinds@.len(),
                self == old(self),
                due@ == wv.packet_kinds.take(i as int).filter(due_pred).map_values(dmk),
                kept@.map_values(conv) == wv.packet_kinds.take(i as int).filter(keep_pred),
            decreases self.waves[cw as int].packet_kinds@.len() - i,
        {
            let entry = self.waves[cw].packet_kinds[i];
            proof {
                assert(wv.packet_kinds[i as int] == conv(entry));
                assert(wv.packet_kinds.take(i + 1) =~= wv.packet_kinds.take(i as int).push(
                    wv.packet_kinds[i as int],
                ));
                lemma_filter_push(wv.packet_kinds.take(i as int), wv.packet_kinds[i as int],
                    due_pred);
                lemma_filter_push(wv.packet_kinds.take(i as int), wv.packet_kinds[i as int],
                    keep_pred);
            }
            if entry.0.0 < elapsed.0 {
                due.push(entry.1);
                proof {
                    assert(due_pred(wv.packet_kinds[i as int]));
                    assert(wv.packet_kinds.take(i + 1).filter(due_pred) == wv.packet_kinds.take(
                        i as int,
                    ).filter(due_pred).push(wv.packet_kinds[i as int]));
                    assert(dmk(wv.packet_kinds[i as int]) == entry.1);
                    assert(due@ =~= wv.packet_kinds.take(i + 1).filter(due_pred).map_values(dmk));
                }
            } else {
                kept.push(entry);
                proof {
                    assert(keep_pred(wv.packet_kinds[i as int]));
                    assert(wv.packet_kinds.take(i + 1).filter(keep_pred) == wv.packet_kinds.take(
                        i as int,
                    ).filter(keep_pred).push(wv.packet_kinds[i as int]));
                    assert(kept@.map_values(conv) =~= wv.packet_kinds.take(i + 1).filter(
                        keep_pred,
                    ));
                }
            }
            i += 1;
        }
        assert(wv.packet_kinds.take(wv.packet_kinds.len() as int) =~= wv.packet_kinds);
        self.waves[cw].packet_kinds = kept;
        proof {
            assert(self@.waves[cw as int] =~= pv.popped_kinds().waves[cw as int]);
            assert(self@.waves =~= pv.popped_kinds().waves);
            assert(self@ =~= pv.popped_kinds());
            assert(due@ == wv.packet_kinds.filter(due_pred).map_values(dmk));
            assert forall|k: int| 0 <= k < due@.len() implies due@.map_values(|d: Difficulty| d.0)[k]
                == pv.due_kinds()[k] by {
                assert(due@[k] == dmk(wv.packet_kinds.filter(due_pred)[k]));
                assert(pv.due_kinds()[k] == snd(wv.packet_kinds.filter(due_pred)[k]));
            }
            assert(due@.map_values(|d: Difficulty| d.0) =~= pv.due_kinds());
        }
        due
    }

    /// Discards every live packet whose spawn list has drained; the order
    /// of the remaining packets is kept.
    #[verifier::loop_isolation(false)]
    pub fn clean_finished_packets(&mut self)
        ensures
            final(self)@ == (TimelineView {
                packets: old(self)@.packets.filter(|p: PacketView| p.spawns.len() != 0),
                ..old(self)@
            }),
    {
        let ghost pv = self@;
        let ghost keep = |p: PacketView| p.spawns.len() != 0;
        let ghost viewfn = |p: SpawnPacket| p@;
        let mut kept: Vec<SpawnPacket> = Vec::new();
        while self.current_packets.len() > 0
            invariant
                self.current_packets@.len() <= pv.packets.len(),
                self.current_packets@.map_values(viewfn) == pv.packets.skip(
                    pv.packets.len() - self.current_packets@.len(),
                ),
                kept@.map_values(viewfn) == pv.packets.take(
                    pv.packets.len() - self.current_packets@.len(),
                ).filter(keep),
                self.waves == old(self).waves,
                self.wave_stopwatch == old(self).wave_stopwatch,
                self.current_wave == old(self).current_wave,
                self.total_waves == old(self).total_waves,
                self.prep_timer == old(self).prep_timer,
                self.game_won_emitted == old(self).game_won_emitted,
            decreases self.current_packets.len(),
        {
            let ghost done = pv.packets.len() - self.current_packets@.len();
            let ghost rest_pre = self.current_packets@;
            let p = self.current_packets.remove(0);
            proof {
                assert(p == rest_pre[0]);
                assert(rest_pre.map_values(viewfn)[0] == viewfn(rest_pre[0]));
                assert(pv.packets.skip(done)[0] == pv.packets[done]);
                assert(p@ == pv.packets[done]);
                assert(self.current_packets@ =~= rest_pre.skip(1));
                assert forall|k: int|
                    0 <= k < self.current_packets@.len() implies viewfn(
                    self.current_packets@[k],
                ) == pv.packets[done + 1 + k] by {
                    assert(self.current_packets@[k] == rest_pre[k + 1]);
                    assert(rest_pre.map_values(viewfn)[k + 1] == viewfn(rest_pre[k + 1]));
                    assert(pv.packets.skip(done)[k + 1] == pv.packets[done + 1 + k]);
                }
                assert(self.current_packets@.map_values(viewfn) =~= pv.packets.skip(done + 1));
                assert(pv.packets.take(done + 1) =~= pv.packets.take(done).push(pv.packets[done]));
                lemma_filter_push(pv.packets.take(done), pv.packets[done], keep);
            }
            if p.spawns.len() > 0 {
                kept.push(p);
                assert(kept@.map_values(viewfn) =~= pv.packets.take(done + 1).filter(keep));
            } else {
                assert(!keep(pv.packets[done]));
                assert(kept@.map_values(viewfn) =~= pv.packets.take(done + 1).filter(keep));
            }
        }
        assert(pv.packets.take(pv.packets.len() as int) =~= pv.packets);
        self.current_packets = kept;
        assert(final(self)@ =~= (TimelineView { packets: pv.packets.filter(keep), ..pv }));
    }

    /// One full simulation tick. Runs the phase machinery, reports the
    /// tick's transition signals in emission order, and, while the
    /// timeline is active, pops the due packet requests of the current
    /// wave, draws one matching template uniformly at random from the
    /// catalog for each (a tier with no template is reported and skipped),
    /// pops every spawn now due across the live packets into one flat
    /// batch, and discards the packets that drained. While preparing
    /// nothing is drawn and nothing spawns; once finished the timeline
    /// only reports its state.
    #[verifier::loop_isolation(false)]
    #[verifier::rlimit(60)]
    pub fn advance(&mut self, catalog: &SpawnPackets, delta: Millis, enemies_alive: bool) -> (out:
        TickOutput)
        requires
            old(self).wf(),
            catalog.wf(),
        ensures
            final(self).wf(),
            out.events@ == old(self)@.tick_events(delta.0, enemies_alive),
            final(self)@.current_wave >= old(self)@.current_wave,
            ({
                let mid = old(self)@.stepped(delta.0, enemies_alive);
                &&& final(self)@.current_wave == mid.current_wave
                &&& final(self)@.total_waves == mid.total_waves
                &&& final(self)@.elapsed == mid.elapsed
                &&& final(self)@.prep_remaining == mid.prep_remaining
                &&& final(self)@.game_won_emitted == (old(self)@.game_won_emitted || (
                mid.is_finished() && !enemies_alive))
                &&& if mid.is_finished() || mid.is_preparing() {
                    &&& final(self)@.waves == mid.waves
                    &&& final(self)@.packets == mid.packets
                    &&& out.spawns@ == Seq::<SpawnVariant>::empty()
                    &&& out.missing@ == Seq::<Difficulty>::empty()
                } else {
                    &&& final(self)@.waves == mid.popped_kinds().waves
                    &&& out.spawns@ == due_batch(mid.packets)
                    &&& out.missing@.map_values(|d: Difficulty| d.0) == missing_kinds(
                        catalog@,
                        mid.due_kinds(),
                    )
                    &&& exists|drawn: Seq<PacketView>|
                        {
                            &&& #[trigger] draws_match(catalog@, mid.due_kinds(), drawn)
                            &&& final(self)@.packets == popped_packets(mid.packets).filter(
                                |p: PacketView| p.spawns.len() != 0,
                            ) + drawn.filter(|p: PacketView| p.spawns.len() != 0)
                        }
                }
            }),
    {
        let preparing_before = self.is_preparing();
        let advancement = self.try_advance(delta, enemies_alive);
        let preparing_after = self.is_preparing();
        let ghost mid = self@;
        let mut events: Vec<WaveEvent> = Vec::new();
        match advancement {
            WaveAdvancement::Advanced => events.push(WaveEvent::WaveAdvanced),
            WaveAdvancement::WaitingForEnemies => events.push(WaveEvent::WaveWaitingForEnemies),
            WaveAdvancement::Ongoing => (),
        }
        if !preparing_before && preparing_after {
            events.push(WaveEvent::WaveStartedPreparing);
        }
        if preparing_before && !preparing_after {
            events.push(WaveEvent::WaveFinishedPreparing);
        }
        if self.is_finished() {
            if !enemies_alive && !self.game_won_emitted {
                events.push(WaveEvent::GameWon);
                self.game_won_emitted = true;
            }
            proof {
                assert(events@ =~= old(self)@.tick_events(delta.0, enemies_alive));
            }
            return TickOutput { events, spawns: Vec::new(), missing: Vec::new() };
        }
        if preparing_after {
            proof {
                assert(events@ =~= old(self)@.tick_events(delta.0, enemies_alive));
            }
            return TickOutput { events, spawns: Vec::new(), missing: Vec::new() };
        }
        let ghost ds = mid.due_kinds();
        let difficulties = self.pop_difficulties_to_spawn();
        let ghost base = self@;
        proof {
            assert(difficulties@.map_values(|d: Difficulty| d.0) == ds);
            assert(base.packets == mid.packets);
        }
        let ghost mpred = |d: u32| templates_for(catalog@, d).len() == 0;
        let ghost dmk = |d: u32| Difficulty(d);
        let ghost mut drawn: Seq<PacketView> = Seq::empty();
        let mut missing: Vec<Difficulty> = Vec::new();
        let mut i: usize = 0;
        proof {
            assert(ds.take(0) =~= Seq::<u32>::empty());
            assert(self@.packets =~= mid.packets + drawn);
            assert(missing@ =~= ds.take(0).filter(mpred).map_values(dmk));
        }
        while i < difficulties.len()
            invariant
                i <= difficulties@.len(),
                draws_match(catalog@, ds.take(i as int), drawn),
                forall|t: int| 0 <= t < drawn.len() ==> (#[trigger] drawn[t]).elapsed == 0,
                missing@ == ds.take(i as int).filter(mpred).map_values(dmk),
                self@.packets == mid.packets + drawn,
                self@.waves == base.waves,
                self@.current_wave == base.current_wave,
                self@.total_waves == base.total_waves,
                self@.elapsed == base.elapsed,
                self@.prep_remaining == base.prep_remaining,
                self@.game_won_emitted == base.game_won_emitted,
            decreases difficulties@.len() - i,
        {
            let d = difficulties[i];
            proof {
                assert(difficulties@.map_values(|x: Difficulty| x.0)[i as int] == d.0);
                assert(ds[i as int] == d.0);
                assert(ds.take(i + 1) =~= ds.take(i as int).push(ds[i as int]));
                lemma_filter_push(ds.take(i as int), ds[i as int], mpred);
            }
            let filtered = catalog.filter_difficulty(d);
            if filtered.len() == 0 {
                missing.push(d);
                proof {
                    assert(templates_for(catalog@, d.0).len() == 0);
                    assert(mpred(ds[i as int]));
                    lemma_draws_match_extend(
                        catalog@,
                        ds.take(i as int),
                        drawn,
                        ds[i as int],
                        Seq::empty(),
                    );
                    assert(drawn + Seq::<PacketView>::empty() =~= drawn);
                    assert(dmk(ds[i as int]) == d);
                    assert(missing@ =~= ds.take(i + 1).filter(mpred).map_values(dmk));
                }
            } else {
                let k = random_below(filtered.len() as u64) as usize;
                let inst = filtered[k].duplicate();
                let ghost instv = inst@;
                proof {
                    broadcast use vstd::seq_lib::group_filter_ensures;

                    let ghost dpred = |p: PacketView| p.difficulty == d.0;
                    assert(templates_for(catalog@, d.0) == catalog@.filter(dpred));
                    assert(instv == catalog@.filter(dpred)[k as int]);
                    lemma_filter_subset(catalog@, dpred, k as int);
                    assert(catalog@.contains(instv));
                    assert(dpred(instv));
                    assert(instv.difficulty == ds[i as int]);
                    let w = choose|w: int| 0 <= w < catalog@.len() && catalog@[w] == instv;
                    assert(catalog@[w].elapsed == 0);
                    assert(!mpred(ds[i as int]));
                }
                let ghost before_push = self@.packets;
                self.current_packets.push(inst);
                proof {
                    broadcast use Seq::lemma_push_map_commute;

                    assert(self@.packets =~= before_push.push(instv));
                    lemma_draws_match_extend(
                        catalog@,
                        ds.take(i as int),
                        drawn,
                        ds[i as int],
                        seq![instv],
                    );
                    assert(drawn + seq![instv] =~= drawn.push(instv));
                    drawn = drawn.push(instv);
                    assert(self@.packets =~= mid.packets + drawn);
                    assert(missing@ =~= ds.take(i + 1).filter(mpred).map_values(dmk));
                }
            }
            i += 1;
        }
        proof {
            assert(ds.take(ds.len() as int) =~= ds);
        }
        let ghost all = mid.packets + drawn;
        let ghost popped_one = |p: PacketView| PacketView { spawns: spec_kept_spawns(p), ..p };
        let ghost due_one = |p: PacketView| spec_due_spawns(p);
        let ghost pre_pop = self@;
        let mut spawns: Vec<SpawnVariant> = Vec::new();
        let mut j: usize = 0;
        proof {
            assert(self@.packets == all);
            assert(all.take(0).map_values(due_one) =~= Seq::<Seq<SpawnVariant>>::empty());
            assert(spawns@ =~= due_batch(all.take(0)));
        }
        while j < self.current_packets.len()
            invariant
                j <= all.len(),
                self@.packets.len() == all.len(),
                forall|t: int| 0 <= t < j ==> self@.packets[t] == popped_one(#[trigger] all[t]),
                forall|t: int| j <= t < all.len() ==> self@.packets[t] == #[trigger] all[t],
                spawns@ == due_batch(all.take(j as int)),
                self@.waves == pre_pop.waves,
                self@.current_wave == pre_pop.current_wave,
                self@.total_waves == pre_pop.total_waves,
                self@.elapsed == pre_pop.elapsed,
                self@.prep_remaining == pre_pop.prep_remaining,
                self@.game_won_emitted == pre_pop.game_won_emitted,
            decreases all.len() - j,
        {
            let ghost at_entry = self@;
            let mut part = self.current_packets[j].pop_spawns();
            spawns.append(&mut part);
            proof {
                assert(at_entry.packets[j as int] == all[j as int]);
                assert forall|t: int| 0 <= t <= j implies self@.packets[t] == popped_one(
                    #[trigger] all[t],
                ) by {
                    assert(self@.packets[t] == self.current_packets@[t]@);
                    if t < j {
                        assert(self.current_packets@[t]@ == at_entry.packets[t]);
                    } else {
                        assert(self@.packets[j as int] =~= popped_one(all[j as int]));
                    }
                }
                assert forall|t: int| j + 1 <= t < all.len() implies self@.packets[t]
                    == #[trigger] all[t] by {
                    assert(self@.packets[t] == self.current_packets@[t]@);
                    assert(self.current_packets@[t]@ == at_entry.packets[t]);
                }
                assert(all.take(j + 1) =~= all.take(j as int).push(all[j as int]));
                assert(all.take(j + 1).map_values(due_one) =~= all.take(j as int).map_values(
                    due_one,
                ).push(due_one(all[j as int])));
                assert(all.take(j as int).map_values(due_one).push(
                    due_one(all[j as int]),
                ).flatten() == all.take(j as int).map_values(due_one).flatten() + due_one(
                    all[j as int],
                )) by {
                    broadcast use Seq::lemma_flatten_push;

                }
                assert(spawns@ =~= due_batch(all.take(j + 1)));
            }
            j += 1;
        }
        proof {
            assert(all.take(all.len() as int) =~= all);
            assert(self@.packets =~= popped_packets(all));
        }
        self.clean_finished_packets();
        proof {
            let nonempty = |p: PacketView| p.spawns.len() != 0;
            assert(popped_packets(all) =~= popped_packets(mid.packets) + popped_packets(drawn));
            Seq::filter_distributes_over_add(
                popped_packets(mid.packets),
                popped_packets(drawn),
                nonempty,
            );
            assert forall|t: int| 0 <= t < drawn.len() implies popped_packets(drawn)[t]
                == #[trigger] drawn[t] by {
                lemma_filter_all(drawn[t].spawns, |e: (u64, SpawnVariant)| e.0 >= drawn[t].elapsed);
                assert(spec_kept_spawns(drawn[t]) == drawn[t].spawns);
                assert(popped_one(drawn[t]) =~= drawn[t]);
            }
            assert(popped_packets(drawn) =~= drawn);
            assert(self@.packets == popped_packets(mid.packets).filter(nonempty) + drawn.filter(
                nonempty,
            ));
            assert(draws_match(catalog@, mid.due_kinds(), drawn));
            assert forall|t: int| 0 <= t < drawn.len() implies (#[trigger] drawn.map_values(
                due_one,
            )[t]).len() == 0 by {
                lemma_filter_none(drawn[t].spawns, |e: (u64, SpawnVariant)| e.0 < drawn[t].elapsed);
            }
            assert(all.map_values(due_one) =~= mid.packets.map_values(due_one) + drawn.map_values(
                due_one,
            ));
            lemma_flatten_empty_suffix(mid.packets.map_values(due_one), drawn.map_values(due_one));
            assert(spawns@ == due_batch(mid.packets));
            assert(missing@ == ds.filter(mpred).map_values(dmk));
            assert forall|t: int| 0 <= t < missing@.len() implies missing@.map_values(
                |x: Difficulty| x.0,
            )[t] == missing_kinds(catalog@, ds)[t] by {
                assert(missing@[t] == dmk(ds.filter(mpred)[t]));
            }
            assert(missing@.map_values(|x: Difficulty| x.0) =~= missing_kinds(catalog@, ds));
            assert(events@ =~= old(self)@.tick_events(delta.0, enemies_alive));
        }
        TickOutput { events, spawns, missing }
    }
}

impl Default for Waves {
    /// The standard ten-wave plan: a gentle opening wave with no
    /// preparation time, then escalating schedules, each preceded by a
    /// ten-second preparation countdown. Every wave requests at least one
    /// packet, and no requested tier exceeds the standard catalog's range.
    #[verifier::rlimit(60)]
    fn default() -> (r: Waves)
        ensures
            r.wf(),
            r@.current_wave == 0,
            r@.total_waves == 10,
            r@.elapsed == 0,
            r@.prep_remaining == 0,
            r@.packets.len() == 0,
            !r@.game_won_emitted,
            forall|i: int| 0 <= i < r@.waves.len() ==> (#[trigger] r@.waves[i]).packet_kinds.len() > 0,
            forall|i: int, j: int|
                0 <= i < r@.waves.len() && 0 <= j < r@.waves[i].packet_kinds.len() ==> (
                #[trigger] r@.waves[i].packet_kinds[j]).1 <= 3,
    {
        let mut plan: Vec<Wave> = Vec::new();
        plan.push(Wave { prep_time: Millis(0), packet_kinds: vec![
            (Millis(0), Difficulty(0)), (Millis(5000), Difficulty(0)),
            (Millis(10000), Difficulty(0)),
        ] });
        plan.push(Wave { prep_time: Millis(10000), packet_kinds: vec![
            (Millis(0), Difficulty(0)), (Millis(5000), Difficulty(0)),
            (Millis(10000), Difficulty(1)),
        ] });
        plan.push(Wave { prep_time: Millis(10000), packet_kinds: vec![
            (Millis(0), Difficulty(0)), (Millis(2000), Difficulty(1)),
            (Millis(6000), Difficulty(1)), (Millis(11000), Difficulty(0)),
        ] });
        plan.push(Wave { prep_time: Millis(10000), packet_kinds: vec![
            (Millis(0), Difficulty(1)), (Millis(4000), Difficulty(1)),
            (Millis(7000), Difficulty(1)), (Millis(11000), Difficulty(1)),
        ] });
        plan.push(Wave { prep_time: Millis(10000), packet_kinds: vec![
            (Millis(0), Difficulty(0)), (Millis(0), Difficulty(0)),
            (Millis(4000), Difficulty(1)), (Millis(4000), Difficulty(1)),
            (Millis(8000), Difficulty(1)), (Millis(12000), Difficulty(1)),
        ] });
        plan.push(Wave { prep_time: Millis(10000), packet_kinds: vec![
            (Millis(0), Difficulty(2)), (Millis(4000), Difficulty(1)),
            (Millis(8000), Difficulty(1)), (Millis(8000), Difficulty(1)),
            (Millis(8000), Difficulty(0)), (Millis(12000), Difficulty(1)),
        ] });
        plan.push(Wave { prep_time: Millis(10000), packet_kinds: vec![
            (Millis(0), Difficulty(2)), (Millis(4000), Difficulty(2)),
            (Millis(8000), Difficulty(2)), (Millis(8000), Difficulty(1)),
            (Millis(8000), Difficulty(0)), (Millis(12000), Difficulty(1)),
        ] });
        plan.push(Wave { prep_time: Millis(10000), packet_kinds: vec![
            (Millis(0), Difficulty(2)), (Millis(0), Difficulty(2)),
            (Millis(8000), Difficulty(2)), (Millis(8000), Difficulty(1)),
            (Millis(8000), Difficulty(0)), (Millis(12000), Difficulty(1)),
            (Millis(12000), Difficulty(1)),
        ] });
        plan.push(Wave { prep_time: Millis(10000), packet_kinds: vec![
            (Millis(0), Difficulty(2)), (Millis(0), Difficulty(1)), (Millis(0), Difficulty(1)),
            (Millis(3000), Difficulty(1)), (Millis(3000), Difficulty(1)),
            (Millis(8000), Difficulty(2)), (Millis(8000), Difficulty(1)),
            (Millis(8000), Difficulty(0)), (Millis(8000), Difficulty(0)),
            (Millis(12000), Difficulty(1)), (Millis(12000), Difficulty(2)),
        ] });
        plan.push(Wave { prep_time: Millis(10000), packet_kinds: vec![
            (Millis(0), Difficulty(2)), (Millis(0), Difficulty(2)), (Millis(0), Difficulty(2)),
            (Millis(0), Difficulty(1)), (Millis(0), Difficulty(1)), (Millis(0), Difficulty(1)),
            (Millis(2000), Difficulty(2)), (Millis(2000), Difficulty(2)),
            (Millis(2000), Difficulty(2)), (Millis(2000), Difficulty(2)),
        ] });
        Waves::new(plan)
    }
}

} // verus!
