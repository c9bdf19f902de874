//! Keyframe animation over time: whether a scene is animated, which frames
//! exist, which two keyframes a moment falls between, and which entries of
//! those keyframes belong to an object. Keyframe times are milliseconds;
//! the interpolation itself works on floating point and happens elsewhere.

use vstd::prelude::*;
use crate::text::str_eq;

verus! {

/// Whether the first keyframe is at time 0.
pub open spec fn initial_keyframe_spec(times: Seq<u64>) -> bool {
    times.len() > 0 && times[0] == 0
}

/// Whether the animation runs: enabled, with at least one frame to render,
/// a keyframe at time 0 and at least two keyframes.
pub open spec fn has_animation_spec(enabled: bool, frames_to_render: u64, times: Seq<u64>) -> bool {
    enabled && frames_to_render > 0 && initial_keyframe_spec(times) && times.len() >= 2
}

/// Whether the first keyframe is at time 0.
pub fn has_initial_keyframe(times: &Vec<u64>) -> (b: bool)
    ensures
        b == initial_keyframe_spec(times@),
{
    times.len() > 0 && times[0] == 0
}

/// Whether the animation runs (see `has_animation_spec`); the number of
/// frames to render comes from the frame rate and the last keyframe.
pub fn has_animation(enabled: bool, frames_to_render: u64, times: &Vec<u64>) -> (b: bool)
    ensures
        b == has_animation_spec(enabled, frames_to_render, times@),
{
    enabled && frames_to_render > 0 && has_initial_keyframe(times) && times.len() >= 2
}

/// Whether `frame` is one of the frames to render.
pub fn frame_exists(animated: bool, frames_to_render: u64, frame: u64) -> (b: bool)
    ensures
        b == (animated && frame < frames_to_render),
{
    animated && frame < frames_to_render
}

/// Whether `frame` may be applied to the scene: the scene is animated and
/// the frame is not past the last one (the one just past the end is
/// accepted, as the end pose).
pub fn frame_applicable(animated: bool, frames_to_render: u64, frame: u64) -> (b: bool)
    ensures
        b == (animated && frame <= frames_to_render),
{
    !(!animated || frame > frames_to_render)
}

/// The last keyframe whose time is not after `timestamp`, among the first
/// `n`; 0 when there is none.
pub open spec fn last_at_or_before(times: Seq<u64>, timestamp: u64, n: nat) -> int
    decreases n,
{
    if n == 0 {
        0
    } else if times[n - 1] <= timestamp {
        n - 1
    } else {
        last_at_or_before(times, timestamp, (n - 1) as nat)
    }
}

/// The keyframes that a moment falls between: the last one at or before it
/// (the first keyframe if none is), and the one after that (itself if it
/// is the last).
pub open spec fn keyframe_pair(times: Seq<u64>, timestamp: u64) -> (int, int) {
    let first = last_at_or_before(times, timestamp, times.len());
    let last = if first + 1 >= times.len() {
        first
    } else {
        first + 1
    };
    (first, last)
}

/// The two keyframes around a moment, and how far the moment lies past the
/// first and how far apart the two are, both in milliseconds.
#[derive(Clone, Copy, Debug, PartialEq, Eq, Structural)]
pub struct KeyframeSpan {
    pub first: usize,
    pub last: usize,
    pub time_pos: u64,
    pub time_diff: u64,
}

/// Whether finding the keyframes around `timestamp` works out: some
/// keyframe is not after the moment.
pub open spec fn span_defined(times: Seq<u64>, timestamp: u64) -> bool {
    exists|i: int| 0 <= i < times.len() && times[i] <= timestamp
}

proof fn lemma_last_at_or_before(times: Seq<u64>, timestamp: u64, n: nat)
    requires
        n <= times.len(),
    ensures
        0 <= last_at_or_before(times, timestamp, n) < if n == 0 {
            1
        } else {
            n as int
        },
        (exists|i: int| 0 <= i < n && times[i] <= timestamp) ==> {
            let k = last_at_or_before(times, timestamp, n);
            &&& times[k] <= timestamp
            &&& forall|j: int| k < j < n ==> times[j] > timestamp
        },
    decreases n,
{
    if n > 0 {
        lemma_last_at_or_before(times, timestamp, (n - 1) as nat);
        if times[n - 1] > timestamp {
            if exists|i: int| 0 <= i < n && times[i] <= timestamp {
                let i = choose|i: int| 0 <= i < n && times[i] <= timestamp;
                assert(i < n - 1);
            }
        }
    }
}

/// The scan that picks the keyframes around `timestamp`: the pair, and
/// whether any keyframe is at or before the moment.
fn scan_keyframes(times: &Vec<u64>, timestamp: u64) -> (r: (usize, usize, bool))
    ensures
        r.2 == (exists|j: int| 0 <= j < times@.len() && times@[j] <= timestamp),
        r.2 ==> r.0 == keyframe_pair(times@, timestamp).0 && r.1 == keyframe_pair(
            times@,
            timestamp,
        ).1,
        r.2 ==> r.0 < times@.len() && r.1 < times@.len(),
{
    let n = times.len();
    let mut first: usize = 0;
    let mut last: usize = 0;
    let mut found = false;
    let mut i: usize = 0;
    while i < n
        invariant
            n == times@.len(),
            i <= n,
            found == (exists|j: int| 0 <= j < i && times@[j] <= timestamp),
            first == last_at_or_before(times@, timestamp, i as nat),
            found ==> last == (if first + 1 >= n {
                first as int
            } else {
                first + 1
            }),
            found ==> first < i,
        decreases n - i,
    {
        proof {
            lemma_last_at_or_before(times@, timestamp, i as nat);
        }
        if times[i] <= timestamp {
            assert(times@[i as int] <= timestamp);
            first = i;
            found = true;
            if i + 1 >= n {
                last = i;
            } else {
                last = i + 1;
            }
        }
        i += 1;
    }
    (first, last, found)
}

/// Finds the keyframes around `timestamp` (see `keyframe_pair`).
pub fn keyframes_for_timestamp(times: &Vec<u64>, timestamp: u64) -> (span: KeyframeSpan)
    requires
        span_defined(times@, timestamp),
    ensures
        span.first == keyframe_pair(times@, timestamp).0,
        span.last == keyframe_pair(times@, timestamp).1,
        span.time_pos == timestamp - times@[span.first as int],
        span.time_diff == times@[span.last as int] - times@[span.first as int],
{
    let (first, last, _found) = scan_keyframes(times, timestamp);
    proof {
        lemma_last_at_or_before(times@, timestamp, times@.len());
        if first + 1 < times@.len() {
            assert(times@[first + 1] > timestamp);
        }
    }
    let time_pos = timestamp - times[first];
    let time_diff = times[last] - times[first];
    KeyframeSpan { first, last, time_pos, time_diff }
}

/// Finds the keyframes around `timestamp` where that works out
/// (`span_defined`), and gives `None` where no keyframe is at or before the
/// moment.
pub fn try_keyframes_for_timestamp(times: &Vec<u64>, timestamp: u64) -> (r: Option<KeyframeSpan>)
    ensures
        r is Some <==> span_defined(times@, timestamp),
        r matches Some(span) ==> {
            &&& span.first == keyframe_pair(times@, timestamp).0
            &&& span.last == keyframe_pair(times@, timestamp).1
            &&& span.time_pos == timestamp - times@[span.first as int]
            &&& span.time_diff == times@[span.last as int] - times@[span.first as int]
        },
{
    let (_first, _last, found) = scan_keyframes(times, timestamp);
    if !found {
        return None;
    }
    Some(keyframes_for_timestamp(times, timestamp))
}

/// With keyframes in time order and one at or before the moment, the
/// moment lies between the two keyframes found: at or after the first, and
/// before the second unless the first is the last keyframe.
pub proof fn lemma_keyframe_pair_brackets(times: Seq<u64>, timestamp: u64)
    requires
        times.len() > 0,
        times[0] <= timestamp,
        forall|i: int, j: int| 0 <= i <= j < times.len() ==> times[i] <= times[j],
    ensures
        span_defined(times, timestamp),
        times[keyframe_pair(times, timestamp).0] <= timestamp,
        keyframe_pair(times, timestamp).0 + 1 < times.len() ==> keyframe_pair(times, timestamp).1
            == keyframe_pair(times, timestamp).0 + 1 && timestamp < times[keyframe_pair(
            times,
            timestamp,
        ).1],
        keyframe_pair(times, timestamp).0 + 1 >= times.len() ==> keyframe_pair(times, timestamp).1
            == keyframe_pair(times, timestamp).0 && keyframe_pair(times, timestamp).0 == times.len()
            - 1,
{
    lemma_last_at_or_before(times, timestamp, times.len());
    assert(times[0] <= timestamp);
}

/// The first position in `names` that holds `name`.
pub fn find_name(names: &Vec<String>, name: &str) -> (r: Option<usize>)
    ensures
        match r {
            Some(i) => i < names@.len() && names@[i as int]@ == name@ && forall|j: int|
                0 <= j < i ==> names@[j]@ != name@,
            None => forall|j: int| 0 <= j < names@.len() ==> names@[j]@ != name@,
        },
{
    let mut i: usize = 0;
    while i < names.len()
        invariant
            i <= names@.len(),
            forall|j: int| 0 <= j < i ==> names@[j]@ != name@,
        decreases names@.len() - i,
    {
        if str_eq(names[i].as_str(), name) {
            return Some(i);
        }
        i += 1;
    }
    None
}

/// For an object, its entries in the two keyframes around a moment: the
/// first entry named like it in each, or `None` when either keyframe has
/// none.
pub fn object_entries(first_names: &Vec<String>, last_names: &Vec<String>, name: &str) -> (r: Option<(usize, usize)>)
    ensures
        match r {
            Some((a, b)) => {
                &&& a < first_names@.len() && first_names@[a as int]@ == name@
                &&& forall|j: int| 0 <= j < a ==> first_names@[j]@ != name@
                &&& b < last_names@.len() && last_names@[b as int]@ == name@
                &&& forall|j: int| 0 <= j < b ==> last_names@[j]@ != name@
            },
            None => (forall|j: int| 0 <= j < first_names@.len() ==> first_names@[j]@ != name@)
                || (forall|j: int| 0 <= j < last_names@.len() ==> last_names@[j]@ != name@),
        },
{
    let a = find_name(first_names, name);
    let b = find_name(last_names, name);
    match (a, b) {
        (Some(a), Some(b)) => Some((a, b)),
        _ => None,
    }
}

} // verus!
