//! The video track: whether it is on, and the callbacks that receive its frames.
use vstd::prelude::*;

use crate::json::JsonValue;

verus! {

/// The video channel; `C` is the type of frame callbacks.
pub struct WebRTCVideoChannel<C> {
    enabled: bool,
    track_callbacks: Vec<C>,
}

impl<C> WebRTCVideoChannel<C> {
    /// Whether video is on.
    pub closed spec fn enabled(&self) -> bool {
        self.enabled
    }

    /// The callbacks, in the order they were added.
    pub closed spec fn callbacks(&self) -> Seq<C> {
        self.track_callbacks@
    }

    /// Video on, no callbacks.
    pub fn new() -> (r: Self)
        ensures
            r.enabled(),
            r.callbacks() == Seq::<C>::empty(),
    {
        WebRTCVideoChannel { enabled: true, track_callbacks: Vec::new() }
    }

    /// Turns video on or off.
    pub fn switch_video_channel(&mut self, switch: bool)
        ensures
            final(self).enabled() == switch,
            final(self).callbacks() == old(self).callbacks(),
    {
        self.enabled = switch;
    }

    /// Whether video is on.
    pub fn is_enabled(&self) -> (r: bool)
        ensures
            r == self.enabled(),
    {
        self.enabled
    }

    /// Adds a callback for frames, after those already there.
    pub fn add_track_callback(&mut self, callback: C)
        ensures
            final(self).callbacks() == old(self).callbacks().push(callback),
            final(self).enabled() == old(self).enabled(),
    {
        self.track_callbacks.push(callback);
    }

    /// The number of callbacks.
    pub fn callback_count(&self) -> (r: usize)
        ensures
            r == self.callbacks().len(),
    {
        self.track_callbacks.len()
    }

    /// The callbacks that each frame is handed to, in order.
    pub fn track_callbacks(&self) -> (r: &Vec<C>)
        ensures
            r@ == self.callbacks(),
    {
        &self.track_callbacks
    }
}

impl<C: Fn(&JsonValue)> WebRTCVideoChannel<C> {
    /// Hands `track` to each callback, in the order they were added.
    pub fn track_handler(&self, track: &JsonValue)
        requires
            forall|i: int| 0 <= i < self.callbacks().len() ==> call_requires(#[trigger] self.callbacks()[i], (track,)),
        ensures
            forall|i: int| 0 <= i < self.callbacks().len() ==> call_ensures(#[trigger] self.callbacks()[i], (track,), ()),
    {
        let mut i: usize = 0;
        while i < self.track_callbacks.len()
            invariant
                i <= self.track_callbacks@.len(),
                forall|j: int| 0 <= j < self.callbacks().len() ==> call_requires(#[trigger] self.callbacks()[j], (track,)),
                forall|j: int| 0 <= j < i ==> call_ensures(#[trigger] self.callbacks()[j], (track,), ()),
            decreases self.track_callbacks.len() - i,
        {
            let cb = &self.track_callbacks[i];
            proof {
                assert(self.callbacks()[i as int] == *cb);
            }
            cb(track);
            i = i + 1;
        }
    }
}

impl<C> Default for WebRTCVideoChannel<C> {
    /// Off, with no callbacks.
    fn default() -> (r: Self)
        ensures
            !r.enabled(),
            r.callbacks() == Seq::<C>::empty(),
    {
        WebRTCVideoChannel { enabled: false, track_callbacks: Vec::new() }
    }
}

} // verus!
