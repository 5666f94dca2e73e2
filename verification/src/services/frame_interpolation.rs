//! Filling the frames of an animation between key frames: which key frames
//! each frame is made from.
use vstd::prelude::*;
use crate::error::{message, AppError};
use crate::text::str_eq;

verus! {

/// How frames between key frames are made.
#[derive(Debug, Clone, Copy, PartialEq, Eq, Structural)]
pub enum InterpolationMethod {
    /// A blend of the key frames before and after.
    Crossfade,
    /// A copy of the nearest key frame.
    Nearest,
}

impl InterpolationMethod {
    /// `"nearest"` selects `Nearest`; any other name selects `Crossfade`.
    pub fn from_str(s: &str) -> (m: InterpolationMethod)
        ensures
            m == (if s@ == "nearest"@ { InterpolationMethod::Nearest } else { InterpolationMethod::Crossfade }),
    {
        if str_eq(s, "nearest") {
            InterpolationMethod::Nearest
        } else {
            InterpolationMethod::Crossfade
        }
    }
}

/// Where one output frame comes from. Positions are indices into the list
/// of key frames.
#[derive(Debug, Clone, Copy, PartialEq, Eq, Structural)]
pub enum FrameSource {
    /// A copy of one key frame.
    Keyframe(usize),
    /// A blend of two key frames; the weight of `next` is
    /// (frame − frame of `prev`) / (frame of `next` − frame of `prev`).
    Blend { prev: usize, next: usize },
}

/// `k` is the last key frame placed at frame `i`.
pub open spec fn is_last_at(idx: Seq<u32>, i: int, k: int) -> bool {
    &&& 0 <= k < idx.len()
    &&& idx[k] == i
    &&& forall|m: int| k < m < idx.len() ==> idx[m] != i
}

pub open spec fn has_key_at(idx: Seq<u32>, i: int) -> bool {
    exists|k: int| 0 <= k < idx.len() && idx[k] == i
}

/// `k` is the first of the latest key frames at or before frame `i`.
pub open spec fn is_prev_key(idx: Seq<u32>, i: int, k: int) -> bool {
    &&& 0 <= k < idx.len()
    &&& idx[k] <= i
    &&& forall|m: int| 0 <= m < idx.len() && idx[m] <= i ==> idx[m] <= idx[k]
    &&& forall|m: int| 0 <= m < k && idx[m] <= i ==> idx[m] < idx[k]
}

pub open spec fn has_prev_key(idx: Seq<u32>, i: int) -> bool {
    exists|k: int| 0 <= k < idx.len() && idx[k] <= i
}

/// `k` is the first of the earliest key frames after frame `i`.
pub open spec fn is_next_key(idx: Seq<u32>, i: int, k: int) -> bool {
    &&& 0 <= k < idx.len()
    &&& idx[k] > i
    &&& forall|m: int| 0 <= m < idx.len() && idx[m] > i ==> idx[m] >= idx[k]
    &&& forall|m: int| 0 <= m < k && idx[m] > i ==> idx[m] > idx[k]
}

pub open spec fn has_next_key(idx: Seq<u32>, i: int) -> bool {
    exists|k: int| 0 <= k < idx.len() && idx[k] > i
}

pub open spec fn distance(a: int, b: int) -> int {
    if a >= b { a - b } else { b - a }
}

/// `k` is the first of the key frames nearest to frame `i`.
pub open spec fn is_nearest_key(idx: Seq<u32>, i: int, k: int) -> bool {
    &&& 0 <= k < idx.len()
    &&& forall|m: int| 0 <= m < idx.len() ==> distance(idx[m] as int, i) >= distance(idx[k] as int, i)
    &&& forall|m: int| 0 <= m < k ==> distance(idx[m] as int, i) > distance(idx[k] as int, i)
}

/// The source of output frame `i`: the last key frame placed on it; else,
/// with `Nearest`, the nearest key frame; with `Crossfade`, a blend of the
/// key frames before and after it, or a copy of the one that exists.
pub open spec fn frame_source_ok(idx: Seq<u32>, i: int, method: InterpolationMethod, s: FrameSource) -> bool {
    if has_key_at(idx, i) {
        s matches FrameSource::Keyframe(k) && is_last_at(idx, i, k as int)
    } else {
        match method {
            InterpolationMethod::Nearest => s matches FrameSource::Keyframe(k) && is_nearest_key(idx, i, k as int),
            InterpolationMethod::Crossfade => {
                if has_prev_key(idx, i) && has_next_key(idx, i) {
                    s matches FrameSource::Blend { prev, next } && is_prev_key(idx, i, prev as int)
                        && is_next_key(idx, i, next as int)
                } else if has_prev_key(idx, i) {
                    s matches FrameSource::Keyframe(k) && is_prev_key(idx, i, k as int)
                } else {
                    s matches FrameSource::Keyframe(k) && is_next_key(idx, i, k as int)
                }
            },
        }
    }
}

pub open spec fn empty_keyframes_message() -> Seq<char> {
    "キーフレームが空です"@
}

fn last_at(idx: &[u32], i: u32) -> (r: Option<usize>)
    ensures
        match r {
            Some(k) => is_last_at(idx@, i as int, k as int),
            None => !has_key_at(idx@, i as int),
        },
{
    let mut k: usize = idx.len();
    while k > 0
        invariant
            k <= idx.len(),
            forall|m: int| k <= m < idx.len() ==> idx@[m] != i,
        decreases k,
    {
        if idx[k - 1] == i {
            return Some(k - 1);
        }
        k = k - 1;
    }
    None
}

fn prev_key(idx: &[u32], i: u32) -> (r: Option<usize>)
    ensures
        match r {
            Some(k) => is_prev_key(idx@, i as int, k as int),
            None => !has_prev_key(idx@, i as int),
        },
{
    let mut best: Option<usize> = None;
    let mut m: usize = 0;
    while m < idx.len()
        invariant
            m <= idx.len(),
            match best {
                Some(k) => k < m && idx@[k as int] <= i
                    && (forall|q: int| 0 <= q < m && idx@[q] <= i ==> idx@[q] <= idx@[k as int])
                    && (forall|q: int| 0 <= q < k && idx@[q] <= i ==> idx@[q] < idx@[k as int]),
                None => forall|q: int| 0 <= q < m ==> idx@[q] > i,
            },
        decreases idx.len() - m,
    {
        if idx[m] <= i {
            match best {
                Some(b) => {
                    if idx[m] > idx[b] {
                        best = Some(m);
                    }
                },
                None => {
                    best = Some(m);
                },
            }
        }
        m = m + 1;
    }
    best
}

fn next_key(idx: &[u32], i: u32) -> (r: Option<usize>)
    ensures
        match r {
            Some(k) => is_next_key(idx@, i as int, k as int),
            None => !has_next_key(idx@, i as int),
        },
{
    let mut best: Option<usize> = None;
    let mut m: usize = 0;
    while m < idx.len()
        invariant
            m <= idx.len(),
            match best {
                Some(k) => k < m && idx@[k as int] > i
                    && (forall|q: int| 0 <= q < m && idx@[q] > i ==> idx@[q] >= idx@[k as int])
                    && (forall|q: int| 0 <= q < k && idx@[q] > i ==> idx@[q] > idx@[k as int]),
                None => forall|q: int| 0 <= q < m ==> idx@[q] <= i,
            },
        decreases idx.len() - m,
    {
        if idx[m] > i {
            match best {
                Some(b) => {
                    if idx[m] < idx[b] {
                        best = Some(m);
                    }
                },
                None => {
                    best = Some(m);
                },
            }
        }
        m = m + 1;
    }
    best
}

fn dist(a: u32, b: u32) -> (d: u32)
    ensures
        d == distance(a as int, b as int),
{
    if a >= b { a - b } else { b - a }
}

fn nearest_key(idx: &[u32], i: u32) -> (r: usize)
    requires
        idx.len() > 0,
    ensures
        is_nearest_key(idx@, i as int, r as int),
{
    let mut best: usize = 0;
    let mut m: usize = 1;
    while m < idx.len()
        invariant
            1 <= m <= idx.len(),
            best < m,
            forall|q: int| 0 <= q < m ==> distance(idx@[q] as int, i as int) >= distance(idx@[best as int] as int, i as int),
            forall|q: int| 0 <= q < best ==> distance(idx@[q] as int, i as int) > distance(idx@[best as int] as int, i as int),
        decreases idx.len() - m,
    {
        if dist(idx[m], i) < dist(idx[best], i) {
            best = m;
        }
        m = m + 1;
    }
    best
}

/// Decides where each of `total_frames` output frames comes from, given the
/// frame numbers of the key frames in the order they are listed. Key frames
/// at or beyond `total_frames` are not placed but still count as neighbours.
pub fn plan_interpolation(
    keyframe_indices: &[u32],
    total_frames: u32,
    method: InterpolationMethod,
) -> (r: Result<Vec<FrameSource>, AppError>)
    ensures
        keyframe_indices@.len() == 0 ==> (r matches Err(AppError::Validation(m))
            && m@ == empty_keyframes_message()),
        keyframe_indices@.len() > 0 ==> (r matches Ok(plan) && {
            &&& plan@.len() == total_frames
            &&& forall|i: int| 0 <= i < total_frames ==>
                frame_source_ok(keyframe_indices@, i, method, #[trigger] plan@[i])
        }),
{
    if keyframe_indices.len() == 0 {
        return Err(AppError::Validation(message("キーフレームが空です")));
    }
    let mut plan: Vec<FrameSource> = Vec::new();
    let mut i: u32 = 0;
    while i < total_frames
        invariant
            keyframe_indices@.len() > 0,
            i <= total_frames,
            plan@.len() == i,
            forall|q: int| 0 <= q < i ==> frame_source_ok(keyframe_indices@, q, method, #[trigger] plan@[q]),
        decreases total_frames - i,
    {
        let source = match last_at(keyframe_indices, i) {
            Some(k) => FrameSource::Keyframe(k),
            None => match method {
                InterpolationMethod::Nearest => FrameSource::Keyframe(nearest_key(keyframe_indices, i)),
                InterpolationMethod::Crossfade => {
                    match (prev_key(keyframe_indices, i), next_key(keyframe_indices, i)) {
                        (Some(p), Some(n)) => FrameSource::Blend { prev: p, next: n },
                        (Some(p), None) => FrameSource::Keyframe(p),
                        (None, Some(n)) => FrameSource::Keyframe(n),
                        (None, None) => {
                            proof {
                                let k0 = 0int;
                                if keyframe_indices@[k0] <= i {
                                    assert(has_prev_key(keyframe_indices@, i as int));
                                } else {
                                    assert(has_next_key(keyframe_indices@, i as int));
                                }
                            }
                            FrameSource::Keyframe(0)
                        },
                    }
                },
            },
        };
        plan.push(source);
        i = i + 1;
    }
    Ok(plan)
}

/// The law of crossfading: a frame between key frames blends the two key
/// frames that enclose it most closely. The earlier one lies before the
/// frame and the later one after it, and no key frame lies strictly
/// between them.
pub proof fn lemma_blend_uses_adjacent_keys(idx: Seq<u32>, i: int, prev: usize, next: usize)
    requires
        frame_source_ok(idx, i, InterpolationMethod::Crossfade, FrameSource::Blend { prev, next }),
    ensures
        prev < idx.len(),
        next < idx.len(),
        idx[prev as int] < i < idx[next as int],
        forall|m: int| 0 <= m < idx.len() ==> !(idx[prev as int] < #[trigger] idx[m] < idx[next as int]),
{
    assert(!has_key_at(idx, i)) by {
        if has_key_at(idx, i) {
            let k = choose|k: int| 0 <= k < idx.len() && idx[k] == i;
            assert(idx[k] == i);
        }
    }
    assert(idx[prev as int] != i) by {
        if idx[prev as int] == i {
            assert(0 <= prev < idx.len() && idx[prev as int] == i);
        }
    }
    assert forall|m: int| 0 <= m < idx.len() implies !(idx[prev as int] < #[trigger] idx[m] < idx[next as int]) by {
        if idx[m] <= i {
            assert(idx[m] <= idx[prev as int]);
        } else {
            assert(idx[m] >= idx[next as int]);
        }
    }
}

/// At the ends of an animation, crossfading copies the closest key frame
/// on the only side that has key frames: the latest one before the frame,
/// or, when none comes before it, the earliest one after it.
pub proof fn lemma_crossfade_edge_copies_closest(idx: Seq<u32>, i: int, k: usize)
    requires
        !has_key_at(idx, i),
        frame_source_ok(idx, i, InterpolationMethod::Crossfade, FrameSource::Keyframe(k)),
    ensures
        k < idx.len(),
        idx[k as int] < i ==> forall|m: int| 0 <= m < idx.len() ==> #[trigger] idx[m] <= idx[k as int],
        idx[k as int] > i ==> forall|m: int| 0 <= m < idx.len() ==> #[trigger] idx[m] >= idx[k as int],
        idx[k as int] != i,
{
    if idx[k as int] < i {
        assert forall|m: int| 0 <= m < idx.len() implies #[trigger] idx[m] <= idx[k as int] by {
            if idx[m] > i {
                assert(has_next_key(idx, i));
            }
        }
    }
    if idx[k as int] > i {
        assert forall|m: int| 0 <= m < idx.len() implies #[trigger] idx[m] >= idx[k as int] by {
            if idx[m] <= i {
                assert(has_prev_key(idx, i));
            }
        }
    }
    if idx[k as int] == i {
        assert(has_key_at(idx, i));
    }
}

/// The law of nearest copies: a frame with no key frame of its own copies
/// a key frame at least as close to it as any other.
pub proof fn lemma_nearest_is_closest(idx: Seq<u32>, i: int, k: usize)
    requires
        !has_key_at(idx, i),
        frame_source_ok(idx, i, InterpolationMethod::Nearest, FrameSource::Keyframe(k)),
    ensures
        k < idx.len(),
        forall|m: int| 0 <= m < idx.len() ==> {
            let dm = if idx[m] >= i { idx[m] - i } else { i - idx[m] };
            let dk = if idx[k as int] >= i { idx[k as int] - i } else { i - idx[k as int] };
            #[trigger] idx[m] == idx[m] && dm >= dk
        },
{
}

/// A frame on which a key frame is placed copies that key frame.
pub proof fn lemma_key_frames_are_kept(idx: Seq<u32>, i: int, method: InterpolationMethod, s: FrameSource)
    requires
        has_key_at(idx, i),
        frame_source_ok(idx, i, method, s),
    ensures
        s matches FrameSource::Keyframe(k) && k < idx.len() && idx[k as int] == i,
{
}

} // verus!
