//! Laws of the thumbnail captures: what is captured when, and what never is.

use crate::capture;
use crate::capture::{Pass, Scheduler, Thumb};
use crate::state;
use crate::state::Core;
use crate::windows_laws;
use vstd::prelude::*;

verus! {

/// A listed window is captured in a pass exactly if it is wanted.
proof fn lemma_captured_iff_wanted(
    ids: Seq<u32>,
    thumbs: Map<u32, Thumb>,
    pass: Pass,
    now: u64,
    id: u32,
)
    requires
        pass.capture,
    ensures
        capture::wanted_ids(ids, thumbs, pass, now).contains(id) <==> ids.contains(id)
            && capture::wanted(id, thumbs, pass, now),
{
    let p = |id: u32| capture::wanted(id, thumbs, pass, now);
    lemma_filter_contains(ids, p, id);
}

proof fn lemma_filter_contains(s: Seq<u32>, p: spec_fn(u32) -> bool, x: u32)
    ensures
        s.filter(p).contains(x) <==> s.contains(x) && p(x),
    decreases s.len(),
{
    reveal(Seq::filter);
    if s.len() > 0 {
        let t = s.drop_last();
        lemma_filter_contains(t, p, x);
        assert(s =~= t.push(s.last()));
        assert(s.contains(x) <==> t.contains(x) || x == s.last()) by {
            if s.contains(x) {
                let k = choose|k: int| 0 <= k < s.len() && s[k] == x;
                if k < t.len() {
                    assert(t[k] == x);
                }
            }
            if t.contains(x) {
                let k = choose|k: int| 0 <= k < t.len() && t[k] == x;
                assert(s[k] == x);
            }
            assert(s[s.len() - 1] == s.last());
        }
        if p(s.last()) {
            let f = t.filter(p);
            let g = s.filter(p);
            assert(g == f.push(s.last()));
            assert(g.contains(x) <==> f.contains(x) || x == s.last()) by {
                if g.contains(x) {
                    let k = choose|k: int| 0 <= k < g.len() && g[k] == x;
                    if k < f.len() {
                        assert(f[k] == x);
                    }
                }
                if f.contains(x) {
                    let k = choose|k: int| 0 <= k < f.len() && f[k] == x;
                    assert(g[k] == x);
                }
                assert(g[f.len() as int] == s.last());
            }
        }
    }
}

/// Every pass captures each listed window that has no thumbnail.
pub proof fn law_missing_thumbnails_are_captured(
    ids: Seq<u32>,
    thumbs: Map<u32, Thumb>,
    pass: Pass,
    now: u64,
    id: u32,
)
    requires
        pass.capture,
        ids.contains(id),
        !thumbs.contains_key(id),
    ensures
        capture::wanted_ids(ids, thumbs, pass, now).contains(id),
{
    lemma_captured_iff_wanted(ids, thumbs, pass, now, id);
}

/// No pass captures a window again whose thumbnail is confirmed and no older
/// than the interval.
pub proof fn law_fresh_thumbnails_are_kept(
    ids: Seq<u32>,
    thumbs: Map<u32, Thumb>,
    pass: Pass,
    now: u64,
    id: u32,
)
    requires
        thumbs.contains_key(id),
        thumbs[id].confirmed,
        !capture::stale(thumbs[id], pass.interval_ms, now),
    ensures
        !capture::wanted_ids(ids, thumbs, pass, now).contains(id),
{
    if pass.capture {
        lemma_captured_iff_wanted(ids, thumbs, pass, now, id);
    }
}

/// Opening the overlay never captures a cached image again: a pass that is not
/// the periodic one leaves confirmed thumbnails alone, however old they are.
pub proof fn law_refresh_leaves_cached_images_alone(
    ids: Seq<u32>,
    thumbs: Map<u32, Thumb>,
    pass: Pass,
    now: u64,
    id: u32,
)
    requires
        !pass.stale_due,
        thumbs.contains_key(id),
        thumbs[id].confirmed,
    ensures
        !capture::wanted_ids(ids, thumbs, pass, now).contains(id),
{
    if pass.capture {
        lemma_captured_iff_wanted(ids, thumbs, pass, now, id);
    }
}

/// The periodic pass captures every listed window whose thumbnail is stale.
pub proof fn law_stale_thumbnails_are_refreshed(
    scheduler: Scheduler,
    core: Core,
    thumbs: Map<u32, Thumb>,
    now: u64,
    id: u32,
)
    requires
        scheduler.due(core, thumbs, now).stale_due,
        core.tracked_ids@.contains(id),
        thumbs.contains_key(id),
        capture::stale(thumbs[id], capture::interval_of(core), now),
    ensures
        capture::wanted_ids(
            core.tracked_ids@,
            thumbs,
            scheduler.due(core, thumbs, now),
            now,
        ).contains(id),
{
    lemma_captured_iff_wanted(
        core.tracked_ids@,
        thumbs,
        scheduler.due(core, thumbs, now),
        now,
        id,
    );
}

/// Captures between two periodic passes do not move the second one: after a
/// cycle that is not due for stale thumbnails, whatever was requested or waited
/// to be confirmed, the next periodic pass is due at exactly the times at which
/// it was due before.
pub proof fn law_refresh_does_not_delay_the_periodic_pass(
    before: Scheduler,
    after: Scheduler,
    core: Core,
    core_after: Core,
    thumbs: Map<u32, Thumb>,
    now: u64,
    pass: Pass,
    later_core: Core,
    later_thumbs: Map<u32, Thumb>,
    later: u64,
)
    requires
        Scheduler::begins(before, after, core, core_after, thumbs, now, pass),
        !pass.stale_due,
    ensures
        after.last_stale_pass == before.last_stale_pass,
        after.due(later_core, later_thumbs, later).stale_due == before.due(
            later_core,
            later_thumbs,
            later,
        ).stale_due,
{
}

/// A first capture is confirmed by exactly one more. The window had no
/// thumbnail when it was captured at time `at`. Once it has had time to settle,
/// the cycle at time `now` captures it again. After that image is stored the
/// thumbnail is confirmed: only a periodic pass captures the window any more.
pub proof fn law_first_capture_is_confirmed_once(
    scheduler: Scheduler,
    core: Core,
    empty: Map<u32, Thumb>,
    thumbs: Map<u32, Thumb>,
    id: u32,
    first_gen: u64,
    first_image: u64,
    at: u64,
    now: u64,
    gen: u64,
    image: u64,
    again_at: u64,
    ids: Seq<u32>,
    pass: Pass,
    later: u64,
)
    requires
        core.tracked_ids@.contains(id),
        !empty.contains_key(id),
        thumbs.contains_key(id),
        thumbs[id] == capture::stored(empty, first_gen, id, first_image, at)[id],
        state::elapsed(now, at) >= capture::SETTLE_MS * 1_000_000,
        !pass.stale_due,
    ensures
        scheduler.due(core, thumbs, now).capture,
        capture::wanted_ids(
            core.tracked_ids@,
            thumbs,
            scheduler.due(core, thumbs, now),
            now,
        ).contains(id),
        ({
            let after = capture::stored(thumbs, gen, id, image, again_at);
            &&& after[id].confirmed
            &&& !capture::settled(after[id], later)
            &&& !capture::wanted_ids(ids, after, pass, later).contains(id)
        }),
{
    let listed = core.tracked_ids@;
    let k = choose|k: int| 0 <= k < listed.len() && listed[k] == id;
    assert(thumbs.contains_key(listed[k]));
    lemma_captured_iff_wanted(listed, thumbs, scheduler.due(core, thumbs, now), now, id);
    law_refresh_leaves_cached_images_alone(
        ids,
        capture::stored(thumbs, gen, id, image, again_at),
        pass,
        later,
        id,
    );
}

/// The list of captured windows does not follow the screen while the overlay
/// is up.
pub proof fn law_no_resync_while_visible(
    scheduler: Scheduler,
    core: Core,
    thumbs: Map<u32, Thumb>,
    now: u64,
)
    requires
        core.visible,
    ensures
        !scheduler.due(core, thumbs, now).resync,
{
}

// ---------- the schedule, in numbers ----------

/// The periodic pass is due when the interval has passed since the last one, and
/// the list of captured windows follows the screen every ten seconds while the
/// overlay is closed. An interval below 0.2 seconds counts as 0.2 seconds.
pub proof fn law_schedule(scheduler: Scheduler, core: Core, thumbs: Map<u32, Thumb>, now: u64)
    ensures
        core.capture_interval_ms >= 200 ==> (scheduler.due(core, thumbs, now).stale_due <==> now
            >= scheduler.last_stale_pass + core.capture_interval_ms * 1_000_000),
        core.capture_interval_ms < 200 ==> (scheduler.due(core, thumbs, now).stale_due <==> now
            >= scheduler.last_stale_pass + 200_000_000),
        scheduler.due(core, thumbs, now).resync <==> !core.visible && now
            >= scheduler.last_resync + 10_000_000_000,
        core.refresh_all ==> scheduler.due(core, thumbs, now).capture,
        scheduler.due(core, thumbs, now).stale_due ==> scheduler.due(core, thumbs, now).capture,
{
}

/// Between two periodic passes, with no refresh asked for and no first capture to
/// confirm, nothing is captured.
pub proof fn law_idle_cycles_capture_nothing(
    scheduler: Scheduler,
    core: Core,
    thumbs: Map<u32, Thumb>,
    now: u64,
)
    requires
        !core.refresh_all,
        core.capture_interval_ms >= 200,
        now < scheduler.last_stale_pass + core.capture_interval_ms * 1_000_000,
        forall|i: int|
            0 <= i < core.tracked_ids@.len() && thumbs.contains_key(#[trigger] core.tracked_ids@[i])
                ==> thumbs[core.tracked_ids@[i]].confirmed,
    ensures
        !scheduler.due(core, thumbs, now).capture,
        capture::wanted_ids(
            core.tracked_ids@,
            thumbs,
            scheduler.due(core, thumbs, now),
            now,
        ).len() == 0,
{
}

/// Which windows a pass captures: those without a thumbnail; those whose first
/// capture is at least 50 milliseconds old and still to be confirmed; and, when
/// the periodic pass is due, those whose thumbnail is older than the interval.
pub proof fn law_what_is_captured(
    scheduler: Scheduler,
    core: Core,
    thumbs: Map<u32, Thumb>,
    now: u64,
    id: u32,
)
    requires
        scheduler.due(core, thumbs, now).capture,
        core.tracked_ids@.contains(id),
        core.capture_interval_ms >= 200,
    ensures
        capture::wanted_ids(
            core.tracked_ids@,
            thumbs,
            scheduler.due(core, thumbs, now),
            now,
        ).contains(id) <==> {
            ||| !thumbs.contains_key(id)
            ||| !thumbs[id].confirmed && now >= thumbs[id].at + 50_000_000
            ||| now >= scheduler.last_stale_pass + core.capture_interval_ms * 1_000_000 && now
                > thumbs[id].at + core.capture_interval_ms * 1_000_000
        },
{
    lemma_captured_iff_wanted(
        core.tracked_ids@,
        thumbs,
        scheduler.due(core, thumbs, now),
        now,
        id,
    );
}

/// Windows are captured in the order in which they are listed.
pub proof fn law_captures_follow_the_list(
    ids: Seq<u32>,
    thumbs: Map<u32, Thumb>,
    pass: Pass,
    now: u64,
    i: int,
    j: int,
) -> (ab: (int, int))
    requires
        pass.capture,
        0 <= i < j < ids.len(),
        !thumbs.contains_key(ids[i]),
        !thumbs.contains_key(ids[j]),
    ensures
        0 <= ab.0 < ab.1 < capture::wanted_ids(ids, thumbs, pass, now).len(),
        capture::wanted_ids(ids, thumbs, pass, now)[ab.0] == ids[i],
        capture::wanted_ids(ids, thumbs, pass, now)[ab.1] == ids[j],
{
    let p = |id: u32| capture::wanted(id, thumbs, pass, now);
    windows_laws::lemma_filter_pos(ids, p, i);
    windows_laws::lemma_filter_pos(ids, p, j);
    windows_laws::lemma_filter_pos_ascends(ids, p, i, j);
    (ids.take(i).filter(p).len() as int, ids.take(j).filter(p).len() as int)
}

/// Windows whose thumbnails are not kept are never captured.
pub proof fn law_only_tracked_windows_are_captured(
    ids: Seq<u32>,
    thumbs: Map<u32, Thumb>,
    pass: Pass,
    now: u64,
    id: u32,
)
    requires
        capture::wanted_ids(ids, thumbs, pass, now).contains(id),
    ensures
        ids.contains(id),
        pass.capture,
{
    if pass.capture {
        lemma_captured_iff_wanted(ids, thumbs, pass, now, id);
    }
}

/// Storing an image changes one entry: the window's thumbnail is then the new
/// image, taken now, of a new generation; the first image of a window is
/// provisional, any further one is confirmed.
pub proof fn law_stored_image_is_cached(
    thumbs: Map<u32, Thumb>,
    gen: u64,
    id: u32,
    image: u64,
    now: u64,
    other: u32,
)
    requires
        other != id,
    ensures
        ({
            let after = capture::stored(thumbs, gen, id, image, now);
            &&& after.contains_key(id)
            &&& after[id].image == image
            &&& after[id].at == now
            &&& after[id].gen != gen
            &&& gen < u64::MAX ==> after[id].gen == gen + 1
            &&& after[id].confirmed == thumbs.contains_key(id)
            &&& after.contains_key(other) == thumbs.contains_key(other)
            &&& thumbs.contains_key(other) ==> after[other] == thumbs[other]
        }),
{
}

} // verus!
