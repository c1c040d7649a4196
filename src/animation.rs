use vstd::prelude::*;

verus! {

/// Number of frames from where an animation (re)starts to its last frame:
/// a looping animation restarts at its loop frame, any other at its first.
pub open spec fn frame_span_spec(start_frame: i32, end_frame: i32, loop_frame: Option<i32>) -> int {
    match loop_frame {
        Some(l) => end_frame - l,
        None => end_frame - start_frame,
    }
}

pub fn frame_span(start_frame: i32, end_frame: i32, loop_frame: Option<i32>) -> (r: i64)
    ensures
        r == frame_span_spec(start_frame, end_frame, loop_frame),
{
    let start = match loop_frame {
        Some(l) => l,
        None => start_frame,
    };
    end_frame as i64 - start as i64
}

} // verus!
