//! Keep-alive bookkeeping for the data channel.
use vstd::prelude::*;

use crate::json::{Json, JsonValue};
use crate::time::{nanos_between, Duration, Instant};

verus! {

/// Tracks when the peer last answered a heartbeat.
pub struct WebRTCDataChannelHeartBeat {
    heartbeat_response: Option<Instant>,
    timeout_threshold: Duration,
    heartbeat_interval: Duration,
}

/// The timeout threshold: 6 seconds, in nanoseconds.
pub const HEARTBEAT_TIMEOUT_NANOS: u64 = 6_000_000_000;

/// The heartbeat interval: 2 seconds, in nanoseconds.
pub const HEARTBEAT_INTERVAL_NANOS: u64 = 2_000_000_000;

impl WebRTCDataChannelHeartBeat {
    /// Every heartbeat times out after 6 seconds of silence and beats every 2.
    #[verifier::type_invariant]
    spec fn fixed_timing(&self) -> bool {
        self.timeout_threshold@ == HEARTBEAT_TIMEOUT_NANOS && self.heartbeat_interval@ == HEARTBEAT_INTERVAL_NANOS
    }

    /// The instant of the last answer, if any arrived since the heartbeat started.
    pub closed spec fn last_response(&self) -> Option<Instant> {
        self.heartbeat_response
    }

    /// How long without an answer counts as a timeout.
    pub closed spec fn threshold(&self) -> Duration {
        self.timeout_threshold
    }

    /// How often a heartbeat is sent.
    pub closed spec fn interval(&self) -> Duration {
        self.heartbeat_interval
    }

    /// Whether, at `now`, the last answer is older than the threshold.
    pub open spec fn timed_out_at(&self, now: Instant) -> bool {
        match self.last_response() {
            Some(last) => nanos_between(last@, now@) > self.threshold()@,
            None => false,
        }
    }

    /// No answer yet; a 6 second threshold and a 2 second interval.
    pub fn new() -> (h: Self)
        ensures
            h.last_response() is None,
            h.threshold()@ == 6_000_000_000,
            h.interval()@ == 2_000_000_000,
    {
        WebRTCDataChannelHeartBeat {
            heartbeat_response: None,
            timeout_threshold: Duration::from_secs(6),
            heartbeat_interval: Duration::from_secs(2),
        }
    }

    /// The interval between heartbeats.
    pub fn heartbeat_interval(&self) -> (d: Duration)
        ensures
            d == self.interval(),
            d@ == HEARTBEAT_INTERVAL_NANOS,
    {
        proof {
            use_type_invariant(self);
        }
        self.heartbeat_interval
    }

    /// The timeout threshold.
    pub fn timeout_threshold(&self) -> (d: Duration)
        ensures
            d == self.threshold(),
            d@ == HEARTBEAT_TIMEOUT_NANOS,
    {
        proof {
            use_type_invariant(self);
        }
        self.timeout_threshold
    }

    /// Starts the clock: `now` counts as the last answer, so the heartbeat
    /// times out exactly when more than 6 seconds have passed since `now`.
    pub fn start_heartbeat(&mut self, now: Instant)
        ensures
            final(self).last_response() == Some(now),
            final(self).threshold() == old(self).threshold(),
            final(self).interval() == old(self).interval(),
            final(self).threshold()@ == HEARTBEAT_TIMEOUT_NANOS,
            forall|t: Instant|
                #[trigger] final(self).timed_out_at(t) <==> nanos_between(now@, t@) > HEARTBEAT_TIMEOUT_NANOS,
    {
        proof {
            use_type_invariant(&*self);
        }
        self.heartbeat_response = Some(now);
    }

    /// Records an answer received at `now`: whatever came before, the heartbeat
    /// now times out exactly when more than 6 seconds have passed since `now`.
    pub fn handle_response(&mut self, now: Instant)
        ensures
            final(self).last_response() == Some(now),
            final(self).threshold() == old(self).threshold(),
            final(self).interval() == old(self).interval(),
            final(self).threshold()@ == HEARTBEAT_TIMEOUT_NANOS,
            forall|t: Instant|
                #[trigger] final(self).timed_out_at(t) <==> nanos_between(now@, t@) > HEARTBEAT_TIMEOUT_NANOS,
    {
        proof {
            use_type_invariant(&*self);
        }
        self.heartbeat_response = Some(now);
    }

    /// Whether the peer has been silent longer than the threshold at `now`;
    /// never before the heartbeat has started.
    pub fn is_timed_out(&self, now: Instant) -> (r: bool)
        ensures
            r == self.timed_out_at(now),
            self.threshold()@ == HEARTBEAT_TIMEOUT_NANOS,
    {
        proof {
            use_type_invariant(self);
        }
        match self.heartbeat_response {
            Some(last) => now.saturating_duration_since(last).longer_than(&self.timeout_threshold),
            None => false,
        }
    }

    /// The heartbeat body: `{"timeInStr": .., "timeInNum": ..}`.
    pub fn build_heartbeat_payload(time_in_str: &str, time_in_num: i64) -> (r: JsonValue)
        ensures
            r@ == Json::Object(seq![
                ("timeInStr"@, Json::Str(time_in_str@)),
                ("timeInNum"@, Json::Int(time_in_num as int)),
            ]),
    {
        let mut r = JsonValue::new_object();
        r.push_member("timeInStr", JsonValue::from_str(time_in_str));
        r.push_member("timeInNum", JsonValue::from_i64(time_in_num));
        proof {
            assert(seq![("timeInStr"@, Json::Str(time_in_str@))].push(
                ("timeInNum"@, Json::Int(time_in_num as int)),
            ) =~= seq![
                ("timeInStr"@, Json::Str(time_in_str@)),
                ("timeInNum"@, Json::Int(time_in_num as int)),
            ]);
            assert(Seq::<(Seq<char>, Json)>::empty().push(("timeInStr"@, Json::Str(time_in_str@)))
                =~= seq![("timeInStr"@, Json::Str(time_in_str@))]);
        }
        r
    }
}

impl Default for WebRTCDataChannelHeartBeat {
    /// The same as [`WebRTCDataChannelHeartBeat::new`].
    fn default() -> (h: Self)
        ensures
            h.last_response() is None,
            h.threshold()@ == 6_000_000_000,
            h.interval()@ == 2_000_000_000,
    {
        WebRTCDataChannelHeartBeat::new()
    }
}

} // verus!
