use vstd::prelude::*;

verus! {

/// The plugin that tells a sketch how many frames the engine has rendered
/// and how fast.
pub struct TimePlugin;

impl TimePlugin {
    /// The state the plugin starts with: no frame rendered yet.
    pub fn new_state() -> (c: FrameCounter)
        ensures
            c.frame_count() == 0,
    {
        FrameCounter::new()
    }
}

/// How the frame rate follows from the time the last update took.
#[derive(Clone, Copy, PartialEq, Eq, Debug)]
pub enum FrameRate {
    /// A second or more: the rate is 0.
    Zero,
    /// Less than a millisecond: the rate is the largest `f32`.
    Unbounded,
    /// This many whole milliseconds: the rate is 1000 divided by them.
    PerMillis(u32),
}

/// Classifies the time since the last update, given as whole seconds and
/// the milliseconds of the fraction of a second.
pub fn frame_rate(secs: u64, subsec_millis: u32) -> (r: FrameRate)
    ensures
        secs > 0 ==> r == FrameRate::Zero,
        secs == 0 && subsec_millis == 0 ==> r == FrameRate::Unbounded,
        secs == 0 && subsec_millis > 0 ==> r == FrameRate::PerMillis(subsec_millis),
{
    if secs > 0 {
        return FrameRate::Zero;
    }
    if subsec_millis == 0 {
        return FrameRate::Unbounded;
    }
    FrameRate::PerMillis(subsec_millis)
}

/// The number of frames the engine has completed.
pub struct FrameCounter {
    frame_count: u32,
}

impl FrameCounter {
    pub closed spec fn count(&self) -> u32 {
        self.frame_count
    }

    pub fn new() -> (c: Self)
        ensures
            c.count() == 0,
    {
        FrameCounter { frame_count: 0 }
    }

    #[verifier::when_used_as_spec(count)]
    pub fn frame_count(&self) -> (n: u32)
        ensures
            n == self.count(),
    {
        self.frame_count
    }

    /// One more frame is done.
    pub fn after_update(&mut self)
        requires
            old(self).count() < u32::MAX,
        ensures
            final(self).count() == old(self).count() + 1,
    {
        self.frame_count = self.frame_count + 1;
    }
}

} // verus!
