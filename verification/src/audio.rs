//! The audio track: whether it is on, and the callbacks that receive its frames.
use vstd::prelude::*;

use crate::json::JsonValue;

verus! {

/// The audio channel; `C` is the type of frame callbacks.
pub struct WebRTCAudioChannel<C> {
    enabled: bool,
    frame_callbacks: Vec<C>,
}

impl<C> WebRTCAudioChannel<C> {
    /// Whether audio is on.
    pub closed spec fn enabled(&self) -> bool {
        self.enabled
    }

    /// The callbacks, in the order they were added.
    pub closed spec fn callbacks(&self) -> Seq<C> {
        self.frame_callbacks@
    }

    /// Audio on, no callbacks.
    pub fn new() -> (r: Self)
        ensures
            r.enabled(),
            r.callbacks() == Seq::<C>::empty(),
    {
        WebRTCAudioChannel { enabled: true, frame_callbacks: Vec::new() }
    }

    /// Turns audio on or off.
    pub fn switch_audio_channel(&mut self, switch: bool)
        ensures
            final(self).enabled() == switch,
            final(self).callbacks() == old(self).callbacks(),
    {
        self.enabled = switch;
    }

    /// Whether audio is on.
    pub fn is_enabled(&self) -> (r: bool)
        ensures
            r == self.enabled(),
    {
        self.enabled
    }

    /// Adds a callback for frames, after those already there.
    pub fn add_track_callback(&mut self, callback: C)
        ensures
            final(self).callbacks() == old(self).callbacks().push(callback),
            final(self).enabled() == old(self).enabled(),
    {
        self.frame_callbacks.push(callback);
    }

    /// The number of callbacks.
    pub fn callback_count(&self) -> (r: usize)
        ensures
            r == self.callbacks().len(),
    {
        self.frame_callbacks.len()
    }

    /// The callbacks that each frame is handed to, in order.
    pub fn frame_callbacks(&self) -> (r: &Vec<C>)
        ensures
            r@ == self.callbacks(),
    {
        &self.frame_callbacks
    }
}

impl<C: Fn(&JsonValue)> WebRTCAudioChannel<C> {
    /// Hands `frame` to each callback, in the order they were added.
    pub fn frame_handler(&self, frame: &JsonValue)
        requires
            forall|i: int| 0 <= i < self.callbacks().len() ==> call_requires(#[trigger] self.callbacks()[i], (frame,)),
        ensures
            forall|i: int| 0 <= i < self.callbacks().len() ==> call_ensures(#[trigger] self.callbacks()[i], (frame,), ()),
    {
        let mut i: usize = 0;
        while i < self.frame_callbacks.len()
            invariant
                i <= self.frame_callbacks@.len(),
                forall|j: int| 0 <= j < self.callbacks().len() ==> call_requires(#[trigger] self.callbacks()[j], (frame,)),
                forall|j: int| 0 <= j < i ==> call_ensures(#[trigger] self.callbacks()[j], (frame,), ()),
            decreases self.frame_callbacks.len() - i,
        {
            let cb = &self.frame_callbacks[i];
            proof {
                assert(self.callbacks()[i as int] == *cb);
            }
            cb(frame);
            i = i + 1;
        }
    }
}

impl<C> Default for WebRTCAudioChannel<C> {
    /// Off, with no callbacks.
    fn default() -> (r: Self)
        ensures
            !r.enabled(),
            r.callbacks() == Seq::<C>::empty(),
    {
        WebRTCAudioChannel { enabled: false, frame_callbacks: Vec::new() }
    }
}

} // verus!
