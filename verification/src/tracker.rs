//! Lightweight face tracker: reuses cached detection results so that full
//! detection runs only every `interval` frames.

use vstd::prelude::*;

verus! {

/// Abstract state of a tracker: the detection interval, the frame counter
/// and the cached faces.
pub struct TrackerView<F> {
    pub interval: u32,
    pub frame_count: u32,
    pub faces: Seq<F>,
}

/// The counter after one skipped frame: it advances by one and wraps to
/// zero once it reaches the interval.
pub open spec fn advance_count(frame_count: u32, interval: u32) -> u32 {
    if frame_count + 1 >= interval {
        0
    } else {
        (frame_count + 1) as u32
    }
}

/// Whether the next frame runs full detection: the counter is at zero or
/// nothing is cached.
pub open spec fn detects_next<F>(v: TrackerView<F>) -> bool {
    v.frame_count == 0 || v.faces.len() == 0
}

/// The counter right after a detection: one frame of the interval has
/// passed, which with an interval of one completes it.
pub open spec fn count_after_detection(interval: u32) -> u32 {
    if interval <= 1 {
        0
    } else {
        1
    }
}

/// The state after a detection that found `faces`.
pub open spec fn after_detection<F>(v: TrackerView<F>, faces: Seq<F>) -> TrackerView<F> {
    TrackerView { interval: v.interval, frame_count: count_after_detection(v.interval), faces }
}

/// One frame of the processing loop: detect when detection is due (finding
/// `faces`), otherwise use the cache.
pub open spec fn frame_step<F>(v: TrackerView<F>, faces: Seq<F>) -> TrackerView<F> {
    if detects_next(v) {
        after_detection(v, faces)
    } else {
        after_skip(v)
    }
}

/// The state of a tracker made with `interval` before frame `k` (counted
/// from 1) of the processing loop, where the detection on frame `j` finds
/// `found(j)`.
pub open spec fn state_before_frame<F>(interval: u32, found: spec_fn(nat) -> Seq<F>, k: nat) -> TrackerView<F>
    decreases k,
{
    if k <= 1 {
        TrackerView { interval: if interval >= 1 { interval } else { 1 }, frame_count: 0, faces: Seq::empty() }
    } else {
        frame_step(state_before_frame(interval, found, (k - 1) as nat), found((k - 1) as nat))
    }
}

/// The state after a skipped frame.
pub open spec fn after_skip<F>(v: TrackerView<F>) -> TrackerView<F> {
    TrackerView { interval: v.interval, frame_count: advance_count(v.frame_count, v.interval), faces: v.faces }
}

/// The state after `k` skipped frames.
pub open spec fn after_skips<F>(v: TrackerView<F>, k: nat) -> TrackerView<F>
    decreases k,
{
    if k == 0 {
        v
    } else {
        after_skip(after_skips(v, (k - 1) as nat))
    }
}

/// The state after the cache is dropped.
pub open spec fn after_invalidate<F>(v: TrackerView<F>) -> TrackerView<F> {
    TrackerView { interval: v.interval, frame_count: 0, faces: Seq::empty() }
}

/// Tracks faces across frames by caching the last detection result.
pub struct FaceTracker<F> {
    interval: u32,
    frame_count: u32,
    cached_faces: Vec<F>,
}

impl<F> View for FaceTracker<F> {
    type V = TrackerView<F>;

    closed spec fn view(&self) -> TrackerView<F> {
        TrackerView { interval: self.interval, frame_count: self.frame_count, faces: self.cached_faces@ }
    }
}

impl<F> FaceTracker<F> {
    /// Every tracker keeps its interval at least one and its counter below
    /// the largest `u32`, so that it can always be advanced.
    #[verifier::type_invariant]
    spec fn counter_in_range(&self) -> bool {
        &&& self.interval >= 1
        &&& self.frame_count < u32::MAX
    }

    /// What the type invariant guarantees of every tracker, in terms of its
    /// view.
    pub open spec fn wf(&self) -> bool {
        &&& self@.interval >= 1
        &&& self@.frame_count < u32::MAX
    }

    /// Create a new tracker that detects every `interval`-th frame (at least 1).
    pub fn new(interval: u32) -> (t: Self)
        ensures
            t.wf(),
            t@.interval == if interval >= 1 { interval } else { 1 },
            t@.frame_count == 0,
            t@.faces.len() == 0,
    {
        FaceTracker { interval: if interval >= 1 { interval } else { 1 }, frame_count: 0, cached_faces: Vec::new() }
    }

    /// Update the detection interval at runtime (at least 1).
    pub fn set_interval(&mut self, interval: u32)
        ensures
            final(self).wf(),
            final(self)@.interval == if interval >= 1 { interval } else { 1 },
            final(self)@.frame_count == old(self)@.frame_count,
            final(self)@.faces == old(self)@.faces,
    {
        proof {
            use_type_invariant(&*self);
        }
        self.interval = if interval >= 1 { interval } else { 1 };
        proof {
            use_type_invariant(&*self);
        }
    }

    /// The current interval.
    pub fn interval(&self) -> (r: u32)
        ensures
            r == self@.interval,
    {
        self.interval
    }

    /// True when this frame should run full detection: the counter is at
    /// zero or nothing is cached.
    pub fn should_detect(&self) -> (r: bool)
        ensures
            r == detects_next(self@),
    {
        self.frame_count == 0 || self.cached_faces.len() == 0
    }

    /// Record a detection: cache the faces and count the current frame, so
    /// that the next detection comes `interval` frames after this one (on
    /// the very next frame when the interval is one).
    pub fn update_detected(&mut self, faces: Vec<F>)
        ensures
            final(self).wf(),
            final(self)@ == after_detection(old(self)@, faces@),
    {
        proof {
            use_type_invariant(&*self);
        }
        self.cached_faces = faces;
        self.frame_count = if self.interval <= 1 { 0 } else { 1 };
        proof {
            use_type_invariant(&*self);
        }
    }

    /// A skipped frame: advance the counter (wrapping to zero at the
    /// interval) and hand out the cached faces.
    pub fn get_cached(&mut self) -> (r: &[F])
        ensures
            final(self).wf(),
            final(self)@ == after_skip(old(self)@),
            r@ == old(self)@.faces,
    {
        proof {
            use_type_invariant(&*self);
        }
        let next = self.frame_count + 1;
        self.frame_count = if next >= self.interval { 0 } else { next };
        proof {
            use_type_invariant(&*self);
        }
        self.cached_faces.as_slice()
    }

    /// Force detection on the next frame and drop the cache.
    pub fn invalidate(&mut self)
        ensures
            final(self).wf(),
            final(self)@ == after_invalidate(old(self)@),
    {
        proof {
            use_type_invariant(&*self);
        }
        self.frame_count = 0;
        self.cached_faces = Vec::new();
        proof {
            use_type_invariant(&*self);
        }
    }

    /// Number of cached faces.
    pub fn face_count(&self) -> (r: usize)
        ensures
            r == self@.faces.len(),
    {
        self.cached_faces.len()
    }
}

/// The counter after a detection and `k` skipped frames is `(k + 1) mod
/// interval`.
proof fn lemma_count_after_skips<F>(v: TrackerView<F>, faces: Seq<F>, k: nat)
    requires
        v.interval >= 1,
    ensures
        after_skips(after_detection(v, faces), k).frame_count == (k as int + 1) % (v.interval as int),
        after_skips(after_detection(v, faces), k).interval == v.interval,
        after_skips(after_detection(v, faces), k).faces == faces,
    decreases k,
{
    let i = v.interval as int;
    let kk = k as int;
    let d = after_detection(v, faces);
    if k == 0 {
        if i == 1 {
            assert(1int % 1 == 0) by (nonlinear_arith);
        } else {
            assert(1int % i == 1) by (nonlinear_arith)
                requires i >= 2;
        }
    } else {
        lemma_count_after_skips(v, faces, (k - 1) as nat);
        let c = after_skips(d, (k - 1) as nat).frame_count as int;
        assert(after_skips(d, k) == after_skip(after_skips(d, (k - 1) as nat)));
        assert(c == kk % i);
        lemma_next_count(kk, i);
    }
}

/// Advancing a counter that stands at `m mod i` gives `(m + 1) mod i`.
proof fn lemma_next_count(m: int, i: int)
    requires
        i >= 1,
        m >= 0,
        i <= u32::MAX,
    ensures
        advance_count((m % i) as u32, i as u32) == (m + 1) % i,
{
    let c = m % i;
    assert(0 <= m % i < i) by (nonlinear_arith) requires i >= 1;
    vstd::arithmetic::div_mod::lemma_add_mod_noop(m, 1, i);
    if i == 1 {
        assert((m + 1) % i == 0) by (nonlinear_arith) requires i == 1;
    } else {
        assert(1int % i == 1) by (nonlinear_arith) requires i >= 2;
        assert((m + 1) % i == (c + 1) % i);
        if c + 1 >= i {
            assert(c + 1 == i);
            vstd::arithmetic::div_mod::lemma_mod_self_0(i);
        } else {
            vstd::arithmetic::div_mod::lemma_small_mod((c + 1) as nat, i as nat);
        }
    }
}

/// With faces cached, full detection recurs every `interval` frames: after
/// a detection and `k` skipped frames, the next frame runs detection
/// exactly when `k + 1` is a multiple of the interval (every frame for an
/// interval of one).
pub proof fn lemma_detection_period<F>(v: TrackerView<F>, faces: Seq<F>, k: nat)
    requires
        v.interval >= 1,
        faces.len() > 0,
    ensures
        detects_next(after_skips(after_detection(v, faces), k)) <==> (k as int + 1) % (v.interval as int) == 0,
{
    lemma_count_after_skips(v, faces, k);
}

/// In the processing loop of a new tracker, where every detection finds
/// faces, frame `k` (from 1) runs full detection exactly when `k - 1` is a
/// multiple of the interval: the first frame, then every `interval` frames,
/// and every frame for an interval of one.
pub proof fn lemma_detects_every_interval_frames<F>(interval: u32, found: spec_fn(nat) -> Seq<F>, k: nat)
    requires
        k >= 1,
        forall|j: nat| j >= 1 ==> (#[trigger] found(j)).len() > 0,
    ensures
        detects_next(state_before_frame(interval, found, k)) <==> (k as int - 1) % (
        state_before_frame(interval, found, k).interval as int) == 0,
        state_before_frame(interval, found, k).interval == if interval >= 1 { interval } else { 1 },
    decreases k,
{
    lemma_loop_counter(interval, found, k);
}

/// The loop's counter before frame `k` is `(k - 1) mod interval`, and from
/// the second frame on faces are cached.
proof fn lemma_loop_counter<F>(interval: u32, found: spec_fn(nat) -> Seq<F>, k: nat)
    requires
        k >= 1,
        forall|j: nat| j >= 1 ==> (#[trigger] found(j)).len() > 0,
    ensures
        state_before_frame(interval, found, k).interval == if interval >= 1 { interval } else { 1 },
        state_before_frame(interval, found, k).frame_count as int == (k as int - 1) % (state_before_frame(
            interval,
            found,
            k,
        ).interval as int),
        k >= 2 ==> state_before_frame(interval, found, k).faces.len() > 0,
    decreases k,
{
    let n = if interval >= 1 { interval } else { 1 };
    let i = n as int;
    if k == 1 {
        assert(0int % i == 0) by (nonlinear_arith) requires i >= 1;
    } else {
        lemma_loop_counter(interval, found, (k - 1) as nat);
        let prev = state_before_frame(interval, found, (k - 1) as nat);
        let m = k as int - 2;
        assert(prev.frame_count as int == m % i);
        assert(found((k - 1) as nat).len() > 0);
        if detects_next(prev) {
            if k >= 3 {
                assert(prev.frame_count == 0);
            }
            assert(m % i == 0);
            vstd::arithmetic::div_mod::lemma_add_mod_noop(m, 1, i);
            if i == 1 {
                assert((m + 1) % i == 0) by (nonlinear_arith) requires i == 1;
            } else {
                assert(1int % i == 1) by (nonlinear_arith) requires i >= 2;
                assert((m + 1) % i == (0 + 1int % i) % i);
                vstd::arithmetic::div_mod::lemma_small_mod(1, i as nat);
            }
        } else {
            lemma_next_count(m, i);
        }
    }
}

/// Dropping the cache forces detection on the next frame, and with an
/// interval above one a detection that found faces is followed by a
/// skipped frame.
pub proof fn lemma_invalidate_forces_detection<F>(v: TrackerView<F>, faces: Seq<F>)
    ensures
        detects_next(after_invalidate(v)),
        faces.len() > 0 && v.interval >= 2 ==> !detects_next(after_detection(v, faces)),
{
}

} // verus!
