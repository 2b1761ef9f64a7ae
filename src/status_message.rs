use vstd::prelude::*;

verus! {

/// How long a status message stays on screen, in milliseconds.
pub const STATUS_MESSAGE_DURATION: u64 = 5000;

/// A notification shown on the last screen line, stamped with the time (in
/// milliseconds of a monotonic clock) at which it was posted.
pub struct StatusMessage {
    pub text: Vec<char>,
    pub time: u64,
}

impl StatusMessage {
    pub fn new(text: Vec<char>, time: u64) -> (r: StatusMessage)
        ensures
            r.text@ == text@,
            r.time == time,
    {
        StatusMessage { text, time }
    }

    /// An empty message posted at `time`.
    pub fn default(time: u64) -> (r: StatusMessage)
        ensures
            r.text@ == Seq::<char>::empty(),
            r.time == time,
    {
        StatusMessage { text: Vec::new(), time }
    }

    /// Whether the message is still shown at time `now`: less than the
    /// display duration has passed since it was posted.
    pub fn is_visible(&self, now: u64) -> (r: bool)
        ensures
            r == (now < self.time || now - self.time < STATUS_MESSAGE_DURATION),
    {
        now < self.time || now - self.time < STATUS_MESSAGE_DURATION
    }
}

} // verus!
