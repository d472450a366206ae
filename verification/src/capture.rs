//! When window thumbnails are captured, and what the thumbnail cache keeps.
//!
//! Images are known here by opaque handles; taking and releasing them is left
//! to the caller.

use crate::state;
use crate::state::{has_elapsed, Core};
use std::collections::{HashMap, HashSet};
use vstd::prelude::*;
use vstd::std_specs::iter::IteratorSpec;

verus! {

/// A cached thumbnail.
#[derive(Debug)]
pub struct Thumb {
    /// Handle of the image.
    pub image: u64,
    /// When it was captured.
    pub at: u64,
    /// Generation, by which a changed thumbnail is told from an old one.
    pub gen: u64,
    /// False for the first capture of a window, which may show it half drawn;
    /// true once it has been captured again.
    pub confirmed: bool,
}

/// Thumbnails by window id.
pub type ThumbCache = HashMap<u32, Thumb>;

/// How long a window is given to settle before its first capture is confirmed
/// by another one.
pub const SETTLE_MS: u64 = 50;

/// How often the list of captured windows follows the windows on screen while
/// the overlay is closed.
pub const RESYNC_MS: u64 = 10_000;

/// Shortest capture interval.
pub const MIN_INTERVAL_MS: u64 = 200;

/// Clock of the capture scheduler.
#[derive(Debug)]
pub struct Scheduler {
    /// When stale thumbnails were last looked for.
    pub last_stale_pass: u64,
    /// When the list of captured windows last followed the screen.
    pub last_resync: u64,
}

/// What one cycle of the scheduler has to do.
#[derive(Debug)]
pub struct Pass {
    /// Replace the captured windows by those on screen before capturing.
    pub resync: bool,
    /// Look for thumbnails to capture.
    pub capture: bool,
    /// Capture stale thumbnails, too.
    pub stale_due: bool,
    /// Age in milliseconds from which a thumbnail is stale.
    pub interval_ms: u64,
}

// ---------- what is due ----------

pub open spec fn interval_of(core: Core) -> u64 {
    if core.capture_interval_ms >= MIN_INTERVAL_MS {
        core.capture_interval_ms
    } else {
        MIN_INTERVAL_MS
    }
}

/// The thumbnail is a first capture whose window has had time to settle.
pub open spec fn settled(thumb: Thumb, now: u64) -> bool {
    !thumb.confirmed && state::elapsed(now, thumb.at) >= SETTLE_MS * 1_000_000
}

/// The thumbnail is older than the interval.
pub open spec fn stale(thumb: Thumb, interval_ms: u64, now: u64) -> bool {
    state::elapsed(now, thumb.at) > interval_ms * 1_000_000
}

/// Some captured window waits for its confirming capture.
pub open spec fn confirm_due(ids: Seq<u32>, thumbs: Map<u32, Thumb>, now: u64) -> bool {
    exists|i: int|
        0 <= i < ids.len() && thumbs.contains_key(#[trigger] ids[i]) && settled(
            thumbs[ids[i]],
            now,
        )
}

/// The window has to be captured in this pass: it has no thumbnail yet, or one
/// that is to be confirmed, or a stale one when these are due.
pub open spec fn wanted(id: u32, thumbs: Map<u32, Thumb>, pass: Pass, now: u64) -> bool {
    if thumbs.contains_key(id) {
        settled(thumbs[id], now) || (pass.stale_due && stale(thumbs[id], pass.interval_ms, now))
    } else {
        true
    }
}

/// Windows to capture in this pass, in the order in which they are listed.
pub open spec fn wanted_ids(
    ids: Seq<u32>,
    thumbs: Map<u32, Thumb>,
    pass: Pass,
    now: u64,
) -> Seq<u32> {
    if pass.capture {
        ids.filter(|id: u32| wanted(id, thumbs, pass, now))
    } else {
        Seq::empty()
    }
}

impl Scheduler {
    pub fn new(now: u64) -> (s: Self)
        ensures
            s.last_stale_pass == now,
            s.last_resync == now,
    {
        Scheduler { last_stale_pass: now, last_resync: now }
    }

    /// The pass that is due at time `now`.
    pub open spec fn due(self, core: Core, thumbs: Map<u32, Thumb>, now: u64) -> Pass {
        let interval_ms = interval_of(core);
        let stale_due = state::elapsed(now, self.last_stale_pass) >= interval_ms * 1_000_000;
        Pass {
            resync: !core.visible && state::elapsed(now, self.last_resync) >= RESYNC_MS * 1_000_000,
            capture: core.refresh_all || stale_due || confirm_due(
                core.tracked_ids@,
                thumbs,
                now,
            ),
            stale_due,
            interval_ms,
        }
    }

    /// A cycle begins at time `now`: `pass` is what is due, and the request for
    /// an immediate refresh is taken. Only a pass for stale thumbnails restarts
    /// the interval.
    pub open spec fn begins(
        before: Scheduler,
        after: Scheduler,
        core: Core,
        core_after: Core,
        thumbs: Map<u32, Thumb>,
        now: u64,
        pass: Pass,
    ) -> bool {
        &&& pass == before.due(core, thumbs, now)
        &&& after == (Scheduler {
            last_stale_pass: if pass.stale_due {
                now
            } else {
                before.last_stale_pass
            },
            last_resync: if pass.resync {
                now
            } else {
                before.last_resync
            },
        })
        &&& core_after == (Core { refresh_all: false, ..core })
    }

    /// Decide what this cycle has to do. The request for an immediate refresh
    /// is taken. Only a pass for stale thumbnails restarts the interval, so
    /// that frequent refreshes cannot put it off for ever.
    pub fn begin_pass(&mut self, core: &mut Core, thumbs: &ThumbCache, now: u64) -> (pass: Pass)
        ensures
            Self::begins(
                *old(self),
                *final(self),
                *old(core),
                *final(core),
                thumbs@,
                now,
                pass,
            ),
            old(core).wf() ==> final(core).wf(),
    {
        let interval_ms: u64 = if core.capture_interval_ms >= MIN_INTERVAL_MS {
            core.capture_interval_ms
        } else {
            MIN_INTERVAL_MS
        };
        let resync = !core.visible && has_elapsed(now, self.last_resync, RESYNC_MS);
        let refresh_all = core.refresh_all;
        core.refresh_all = false;
        let stale_due = has_elapsed(now, self.last_stale_pass, interval_ms);
        let capture = refresh_all || stale_due || any_to_confirm(&core.tracked_ids, thumbs, now);
        if resync {
            self.last_resync = now;
        }
        if stale_due {
            self.last_stale_pass = now;
        }
        Pass { resync, capture, stale_due, interval_ms }
    }
}

fn is_settled(thumb: &Thumb, now: u64) -> (yes: bool)
    ensures
        yes == settled(*thumb, now),
{
    !thumb.confirmed && has_elapsed(now, thumb.at, SETTLE_MS)
}

fn any_to_confirm(ids: &Vec<u32>, thumbs: &ThumbCache, now: u64) -> (yes: bool)
    ensures
        yes == confirm_due(ids@, thumbs@, now),
{
    broadcast use vstd::std_specs::hash::group_hash_axioms;

    let mut i: usize = 0;
    while i < ids.len()
        invariant
            i <= ids.len(),
            forall|k: int|
                0 <= k < i ==> !(thumbs@.contains_key(#[trigger] ids@[k]) && settled(
                    thumbs@[ids@[k]],
                    now,
                )),
        decreases ids.len() - i,
    {
        let id: u32 = ids[i];
        if let Some(thumb) = thumbs.get(&id) {
            if is_settled(thumb, now) {
                assert(thumbs@.contains_key(ids@[i as int]));
                return true;
            }
        }
        i += 1;
    }
    false
}

/// Windows to capture in a pass that has begun.
pub fn jobs(core: &Core, thumbs: &ThumbCache, pass: &Pass, now: u64) -> (ids: Vec<u32>)
    ensures
        ids@ == wanted_ids(core.tracked_ids@, thumbs@, *pass, now),
{
    broadcast use vstd::std_specs::hash::group_hash_axioms;

    let mut ids: Vec<u32> = Vec::new();
    if !pass.capture {
        return ids;
    }
    let ghost p = |id: u32| wanted(id, thumbs@, *pass, now);
    let ghost all = core.tracked_ids@;
    let mut i: usize = 0;
    proof {
        reveal(Seq::filter);
        assert(all.take(0) =~= Seq::empty());
    }
    while i < core.tracked_ids.len()
        invariant
            i <= all.len(),
            all == core.tracked_ids@,
            p == (|id: u32| wanted(id, thumbs@, *pass, now)),
            ids@ == all.take(i as int).filter(p),
        decreases core.tracked_ids.len() - i,
    {
        let id: u32 = core.tracked_ids[i];
        let want = match thumbs.get(&id) {
            None => true,
            Some(thumb) => is_settled(thumb, now) || (pass.stale_due && now.saturating_sub(
                thumb.at,
            ) as u128 > pass.interval_ms as u128 * 1_000_000),
        };
        proof {
            reveal(Seq::filter);
            assert(all.take(i + 1).drop_last() =~= all.take(i as int));
            assert(want == p(id));
        }
        if want {
            ids.push(id);
        }
        i += 1;
    }
    assert(all.take(i as int) =~= all);
    ids
}

// ---------- the cache ----------

/// The generation after `gen`.
pub open spec fn next_gen(gen: u64) -> u64 {
    if gen == u64::MAX {
        0
    } else {
        (gen + 1) as u64
    }
}

/// The cache after an image of window `id` was captured. The first capture of a
/// window is provisional, every further one is confirmed.
pub open spec fn stored(
    thumbs: Map<u32, Thumb>,
    gen: u64,
    id: u32,
    image: u64,
    now: u64,
) -> Map<u32, Thumb> {
    thumbs.insert(
        id,
        Thumb { image, at: now, gen: next_gen(gen), confirmed: thumbs.contains_key(id) },
    )
}

/// Put a captured image into the cache. The first capture of a window is
/// provisional, every further one is confirmed. The image that it replaces is
/// returned, to be released.
pub fn store(thumbs: &mut ThumbCache, gen: &mut u64, id: u32, image: u64, now: u64) -> (replaced:
    Option<u64>)
    ensures
        *final(gen) == next_gen(*old(gen)),
        final(thumbs)@ == stored(old(thumbs)@, *old(gen), id, image, now),
        replaced == (if old(thumbs)@.contains_key(id) {
            Some(old(thumbs)@[id].image)
        } else {
            None
        }),
{
    broadcast use vstd::std_specs::hash::group_hash_axioms;

    *gen = if *gen == u64::MAX {
        0
    } else {
        *gen + 1
    };
    let confirmed = thumbs.contains_key(&id);
    match thumbs.insert(id, Thumb { image, at: now, gen: *gen, confirmed }) {
        Some(old_thumb) => Some(old_thumb.image),
        None => None,
    }
}

/// `dropped` holds, each once, the entries of all windows that are not in
/// `keep`.
pub open spec fn all_dropped<V>(before: Map<u32, V>, keep: Set<u32>, dropped: Seq<(u32, V)>) -> bool {
    &&& forall|i: int|
        0 <= i < dropped.len() ==> before.contains_pair((#[trigger] dropped[i]).0, dropped[i].1)
            && !keep.contains(dropped[i].0)
    &&& forall|i: int, j: int|
        0 <= i < j < dropped.len() ==> (#[trigger] dropped[i]).0 != (#[trigger] dropped[j]).0
    &&& forall|id: u32| #[trigger]
        before.contains_key(id) && !keep.contains(id) ==> exists|i: int|
            0 <= i < dropped.len() && (#[trigger] dropped[i]).0 == id
}

/// Drop the entries of all windows that are not in `keep`, and return them.
pub fn drop_untracked<V>(cache: &mut HashMap<u32, V>, keep: &HashSet<u32>) -> (dropped: Vec<
    (u32, V),
>)
    ensures
        final(cache)@ == old(cache)@.restrict(keep@),
        all_dropped(old(cache)@, keep@, dropped@),
{
    broadcast use vstd::std_specs::hash::group_hash_axioms;

    let ghost all = cache@;
    let mut ids: Vec<u32> = Vec::new();
    for id in it: cache.keys()
        invariant
            cache@ == all,
            it.seq() == vstd::std_specs::hash::spec_keys_iter(cache).remaining(),
            ids@ == it.seq().unref().take(it.index()),
    {
        ids.push(*id);
    }
    let ghost keys = vstd::std_specs::hash::spec_keys_iter(cache).remaining();
    assert(ids@ =~= keys.unref());
    assert(ids@.no_duplicates());
    assert(ids@.to_set() == all.dom());
    let mut dropped: Vec<(u32, V)> = Vec::new();
    let mut i: usize = 0;
    while i < ids.len()
        invariant
            i <= ids@.len(),
            ids@.no_duplicates(),
            ids@.to_set() == all.dom(),
            forall|k: int| i <= k < ids@.len() ==> cache@.contains_key(#[trigger] ids@[k]),
            forall|id: u32| #[trigger] cache@.contains_key(id) ==> all.contains_key(id) && cache@[id] == all[id],
            forall|k: int|
                0 <= k < i ==> cache@.contains_key(#[trigger] ids@[k]) == keep@.contains(ids@[k]),
            forall|k: int|
                0 <= k < dropped@.len() ==> all.contains_pair(
                    (#[trigger] dropped@[k]).0,
                    dropped@[k].1,
                ) && !keep@.contains(dropped@[k].0) && !cache@.contains_key(dropped@[k].0),
            forall|k: int, m: int|
                0 <= k < m < dropped@.len() ==> (#[trigger] dropped@[k]).0 != (
                #[trigger] dropped@[m]).0,
            forall|k: int|
                0 <= k < i && !keep@.contains(#[trigger] ids@[k]) ==> exists|m: int|
                    0 <= m < dropped@.len() && (#[trigger] dropped@[m]).0 == ids@[k],
        decreases ids.len() - i,
    {
        let id: u32 = ids[i];
        if !keep.contains(&id) {
            let ghost before = dropped@;
            if let Some(v) = cache.remove(&id) {
                dropped.push((id, v));
                assert(dropped@[before.len() as int].0 == id);
                assert(forall|m: int| 0 <= m < before.len() ==> dropped@[m] == before[m]);
            }
        }
        i += 1;
    }
    assert forall|id: u32| #[trigger] all.contains_key(id) implies ids@.contains(id) by {
        assert(ids@.to_set().contains(id));
    }
    assert(cache@ =~= all.restrict(keep@));
    dropped
}

} // verus!
