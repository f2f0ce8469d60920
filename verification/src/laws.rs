//! The timeline's global guarantees, stated and proved once over its
//! mathematical model rather than left implicit in the tick contracts.

use vstd::prelude::*;

use crate::seq_facts::lemma_filter_none;
use crate::timeline::{TimelineView, WaveAdvancement};

verus! {

/// The timeline state after running a whole trace of ticks, each tick
/// given as (delta, enemies alive).
pub open spec fn run_ticks(v: TimelineView, ticks: Seq<(u64, bool)>) -> TimelineView
    decreases ticks.len(),
{
    if ticks.len() == 0 {
        v
    } else {
        run_ticks(v.stepped(ticks[0].0, ticks[0].1), ticks.drop_first())
    }
}

/// Law: a single tick never decreases the wave index, and moves it by at
/// most one.
pub proof fn lemma_wave_index_single_step(v: TimelineView, delta: u64, has_enemies: bool)
    ensures
        v.stepped(delta, has_enemies).current_wave == v.current_wave || v.stepped(
            delta,
            has_enemies,
        ).current_wave == v.current_wave + 1,
        v.stepped(delta, has_enemies).current_wave >= v.current_wave,
{
}

/// Law: across any sequence of ticks the wave index never decreases.
pub proof fn lemma_wave_index_monotonic(v: TimelineView, ticks: Seq<(u64, bool)>)
    ensures
        run_ticks(v, ticks).current_wave >= v.current_wave,
    decreases ticks.len(),
{
    if ticks.len() > 0 {
        lemma_wave_index_monotonic(v.stepped(ticks[0].0, ticks[0].1), ticks.drop_first());
    }
}

/// Law (backpressure): when the current wave has fired all its packet
/// requests, a tick with enemies still alive only reports that it is
/// waiting and leaves the wave index where it is; the same tick with the
/// arena clear advances it by exactly one.
pub proof fn lemma_backpressure(v: TimelineView, delta: u64)
    requires
        v.should_advance(),
    ensures
        v.advancement(true) == WaveAdvancement::WaitingForEnemies,
        v.stepped(delta, true).current_wave == v.current_wave,
        v.advancement(false) == WaveAdvancement::Advanced,
        v.stepped(delta, false).current_wave == v.current_wave + 1,
{
}

/// Law (preparation gating): while the preparation countdown is running,
/// a tick moves only that countdown: the combat stopwatch, the live
/// packets and the wave schedules are untouched, so nothing can become
/// due and nothing spawns.
pub proof fn lemma_preparation_freezes_combat(v: TimelineView, delta: u64)
    requires
        v.is_preparing(),
    ensures
        v.ticked(delta).packets == v.packets,
        v.ticked(delta).elapsed == v.elapsed,
        v.ticked(delta).waves == v.waves,
        v.ticked(delta).current_wave == v.current_wave,
{
}

/// Law (drain before finish): with the wave plan exhausted but packets
/// still live, the timeline does not count as finished; drawn packets
/// must fully drain first.
pub proof fn lemma_drain_before_finish(v: TimelineView)
    requires
        v.wf(),
        v.current_wave == v.total_waves,
        v.packets.len() != 0,
    ensures
        !v.is_finished(),
{
}

/// Law (exactly-once firing): popping the due packet requests consumes
/// them. Popping again at the same elapsed time finds nothing due, so no
/// request can fire twice.
pub proof fn lemma_due_requests_fire_once(v: TimelineView)
    ensures
        v.popped_kinds().due_kinds() == Seq::<u32>::empty(),
{
    broadcast use vstd::seq_lib::group_filter_ensures;

    let pv = v.popped_kinds();
    if v.current_wave < v.waves.len() {
        let w = pv.waves[v.current_wave as int];
        assert forall|i: int| 0 <= i < w.packet_kinds.len() implies !((
        #[trigger] w.packet_kinds[i]).0 < pv.elapsed) by {
            assert(w.packet_kinds[i].0 >= v.elapsed);
        }
        lemma_filter_none(w.packet_kinds, |e: (u64, u32)| e.0 < pv.elapsed);
        assert(pv.due_kinds() =~= Seq::<u32>::empty());
    }
}

/// Law: a finished timeline stays finished; phases only move forward and
/// a tick neither revives packets nor rewinds the wave index.
pub proof fn lemma_finished_is_stable(v: TimelineView, delta: u64, has_enemies: bool)
    requires
        v.is_finished(),
    ensures
        v.stepped(delta, has_enemies).is_finished(),
{
}

} // verus!
