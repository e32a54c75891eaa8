use vstd::prelude::*;

verus! {

/// `VK_ERROR_OUT_OF_DATE_KHR`.
pub const ERROR_OUT_OF_DATE: i32 = -1000001004;
/// `VK_SUBOPTIMAL_KHR`.
pub const SUBOPTIMAL: i32 = 1000001003;

/// Counts a new frame and picks the set of per-frame objects it uses.
pub fn advance_frame(frame_count: usize, frames_in_flight: usize) -> (r: (usize, usize))
    requires
        frame_count < usize::MAX,
        frames_in_flight > 0,
    ensures
        r.0 == frame_count + 1,
        r.1 == (frame_count + 1) % (frames_in_flight as int),
        r.1 < frames_in_flight,
{
    let count = frame_count + 1;
    (count, count % frames_in_flight)
}

/// What to do once the next swapchain image was asked for.
pub enum FrameStep {
    /// Draw into the image of this index.
    Render(u32),
    /// The swapchain no longer fits the surface: make it again.
    Recreate,
    /// Any other error: stop.
    Fail(i32),
}

/// Whether a result code asks for the swapchain to be made again.
pub open spec fn asks_recreate(code: i32) -> bool {
    code == ERROR_OUT_OF_DATE || code == SUBOPTIMAL
}

/// Decides what follows the request for the next swapchain image.
pub fn acquire_outcome(result: Result<u32, i32>) -> (r: FrameStep)
    ensures
        match result {
            Ok(i) => r == FrameStep::Render(i),
            Err(code) => if asks_recreate(code) { r == FrameStep::Recreate } else { r == FrameStep::Fail(code) },
        },
{
    match result {
        Ok(i) => FrameStep::Render(i),
        Err(code) => if code == ERROR_OUT_OF_DATE || code == SUBOPTIMAL { FrameStep::Recreate } else { FrameStep::Fail(code) },
    }
}

/// Decides what follows the presentation of an image: `Ok(true)` when the
/// swapchain must be made again, `Ok(false)` when all went well.
pub fn present_outcome(result: Result<bool, i32>) -> (r: Result<bool, i32>)
    ensures
        match result {
            Ok(_) => r == Ok::<bool, i32>(false),
            Err(code) => if asks_recreate(code) { r == Ok::<bool, i32>(true) } else { r == Err::<bool, i32>(code) },
        },
{
    match result {
        Ok(_) => Ok(false),
        Err(code) => if code == ERROR_OUT_OF_DATE || code == SUBOPTIMAL { Ok(true) } else { Err(code) },
    }
}

} // verus!
