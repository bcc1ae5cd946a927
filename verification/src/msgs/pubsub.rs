//! Topic subscriptions, per-topic throttling, and the envelope of published
//! messages.
use vstd::prelude::*;

use crate::json::{Json, JsonValue};
use crate::msgs::future_resolver::{
    opt_str, opt_str_view, result_view, resolve_topic, FutureResolver, ResolverState,
};
use crate::strmap::StrMap;
use crate::time::{nanos_between, Duration, Instant};

verus! {

/// The topic whose messages carry the compressed lidar voxel map.
pub const LIDAR_TOPIC: &'static str = "rt/utlidar/voxel_map_compressed";

/// The message type of video frames.
pub const VIDEO_TYPE: &'static str = "vid";

/// A message to publish: `{"type": msg_type, "topic": topic}`, with `"data"` when
/// there is data.
pub open spec fn publish_message(topic: Seq<char>, data: Option<Json>, msg_type: Seq<char>) -> Json {
    let base = seq![("type"@, Json::Str(msg_type)), ("topic"@, Json::Str(topic))];
    match data {
        Some(d) => Json::Object(base.push(("data"@, d))),
        None => Json::Object(base),
    }
}

/// The throttle decision for `topic` at `now`: whether to process it, given the
/// limits and the last processed instants.
pub open spec fn throttle_allows(
    limits: Map<Seq<char>, Duration>,
    last: Map<Seq<char>, Instant>,
    topic: Seq<char>,
    now: Instant,
) -> bool {
    !limits.dom().contains(topic) || !last.dom().contains(topic) || nanos_between(last[topic]@, now@)
        >= limits[topic]@
}

/// The optional view of a data value.
pub open spec fn opt_json(o: Option<JsonValue>) -> Option<Json> {
    match o {
        Some(v) => Some(v@),
        None => None,
    }
}

/// Subscriptions by topic (each with the caller's callback of type `C`), rate
/// limits for busy topics, and the resolver that matches replies to requests.
pub struct WebRTCDataChannelPubSub<C> {
    future_resolver: FutureResolver,
    subscriptions: StrMap<C>,
    last_process_time: StrMap<Instant>,
    throttle_limits: StrMap<Duration>,
}

impl<C> WebRTCDataChannelPubSub<C> {
    /// The maps are well formed.
    pub closed spec fn wf(&self) -> bool {
        &&& self.future_resolver.wf()
        &&& self.subscriptions.wf()
        &&& self.last_process_time.wf()
        &&& self.throttle_limits.wf()
    }

    /// The resolver's state.
    pub closed spec fn resolver(&self) -> ResolverState {
        self.future_resolver@
    }

    /// The subscribed topics and their callbacks.
    pub closed spec fn subscribed(&self) -> Map<Seq<char>, C> {
        self.subscriptions.view()
    }

    /// The instant each throttled topic was last let through.
    pub closed spec fn last_processed(&self) -> Map<Seq<char>, Instant> {
        self.last_process_time.view()
    }

    /// The least time between two messages of a throttled topic.
    pub closed spec fn limits(&self) -> Map<Seq<char>, Duration> {
        self.throttle_limits.view()
    }

    /// Lidar maps at most once per `lidar_interval` and video frames at most once
    /// per `video_interval`; nothing subscribed, pending or seen yet.
    pub fn new(lidar_interval: Duration, video_interval: Duration) -> (r: Self)
        ensures
            r.wf(),
            r.limits() == map![LIDAR_TOPIC@ => lidar_interval, VIDEO_TYPE@ => video_interval],
            r.last_processed() == Map::<Seq<char>, Instant>::empty(),
            r.subscribed() == Map::<Seq<char>, C>::empty(),
            r.resolver().pending == Set::<Seq<char>>::empty(),
            r.resolver().resolved == Map::<Seq<char>, Json>::empty(),
            r.resolver().chunks == Map::<Seq<char>, Seq<Seq<u8>>>::empty(),
    {
        let mut throttle_limits = StrMap::new();
        throttle_limits.insert(LIDAR_TOPIC, lidar_interval);
        throttle_limits.insert(VIDEO_TYPE, video_interval);
        let r = WebRTCDataChannelPubSub {
            future_resolver: FutureResolver::new(),
            subscriptions: StrMap::new(),
            last_process_time: StrMap::new(),
            throttle_limits,
        };
        proof {
            assert(r.limits() =~= map![LIDAR_TOPIC@ => lidar_interval, VIDEO_TYPE@ => video_interval]);
        }
        r
    }

    /// Whether a message of `topic_or_type` arriving at `now` is processed: a
    /// throttled topic passes only when its limit has elapsed since the last one
    /// that passed, and then `now` becomes its last instant.
    pub fn should_process(&mut self, topic_or_type: &str, now: Instant) -> (r: bool)
        requires
            old(self).wf(),
        ensures
            final(self).wf(),
            r == throttle_allows(old(self).limits(), old(self).last_processed(), topic_or_type@, now),
            final(self).last_processed() == if r && old(self).limits().dom().contains(topic_or_type@) {
                old(self).last_processed().insert(topic_or_type@, now)
            } else {
                old(self).last_processed()
            },
            final(self).limits() == old(self).limits(),
            final(self).subscribed() == old(self).subscribed(),
            final(self).resolver() == old(self).resolver(),
    {
        let limit = match self.throttle_limits.get(topic_or_type) {
            Some(l) => *l,
            None => return true,
        };
        match self.last_process_time.get(topic_or_type) {
            Some(last) => {
                let since = now.saturating_duration_since(*last);
                if since.shorter_than(&limit) {
                    return false;
                }
            },
            None => {},
        }
        self.last_process_time.insert(topic_or_type, now);
        true
    }

    /// Marks the key of (`message_type`, `topic`, `identifier`) as waiting for a reply.
    pub fn save_resolve(&mut self, message_type: &str, topic: &str, identifier: Option<&str>)
        requires
            old(self).wf(),
        ensures
            final(self).wf(),
            final(self).resolver().pending == old(self).resolver().pending.insert(
                crate::msgs::future_resolver::message_key(message_type@, topic@, opt_str_view(identifier)),
            ),
            final(self).resolver().resolved == old(self).resolver().resolved,
            final(self).resolver().chunks == old(self).resolver().chunks,
            final(self).subscribed() == old(self).subscribed(),
            final(self).last_processed() == old(self).last_processed(),
            final(self).limits() == old(self).limits(),
    {
        self.future_resolver.save_resolve(message_type, topic, identifier);
    }

    /// The callback subscribed to the topic of `message`, if its topic is text and
    /// has one.
    pub fn subscriber(&self, message: &JsonValue) -> (r: Option<&C>)
        requires
            self.wf(),
        ensures
            match opt_str(message@.field("topic"@)) {
                Some(t) => match r {
                    Some(c) => self.subscribed().dom().contains(t) && self.subscribed()[t] == *c,
                    None => !self.subscribed().dom().contains(t),
                },
                None => r is None,
            },
    {
        match message.get("topic") {
            Some(t) => match t.as_str() {
                Some(topic) => self.subscriptions.get(topic),
                None => None,
            },
            None => None,
        }
    }

    /// Hands out, once, the reply that arrived for `key`.
    pub fn take_resolved(&mut self, key: &str) -> (r: Option<JsonValue>)
        requires
            old(self).wf(),
        ensures
            final(self).wf(),
            match r {
                Some(v) => old(self).resolver().resolved.dom().contains(key@) && old(self).resolver().resolved[key@] == v@,
                None => !old(self).resolver().resolved.dom().contains(key@),
            },
            final(self).resolver().resolved == old(self).resolver().resolved.remove(key@),
            final(self).resolver().pending == old(self).resolver().pending,
            final(self).resolver().chunks == old(self).resolver().chunks,
            final(self).subscribed() == old(self).subscribed(),
            final(self).last_processed() == old(self).last_processed(),
            final(self).limits() == old(self).limits(),
    {
        self.future_resolver.take_resolved(key)
    }

    /// `{"type": msg_type, "topic": topic}`, with `"data"` when there is data.
    pub fn build_publish_message(topic: &str, data: Option<JsonValue>, msg_type: &str) -> (r: JsonValue)
        ensures
            r@ == publish_message(topic@, opt_json(data), msg_type@),
    {
        let mut payload = JsonValue::new_object();
        payload.push_member("type", JsonValue::from_str(msg_type));
        payload.push_member("topic", JsonValue::from_str(topic));
        proof {
            assert(Seq::<(Seq<char>, Json)>::empty().push(("type"@, Json::Str(msg_type@))).push(
                ("topic"@, Json::Str(topic@)),
            ) =~= seq![("type"@, Json::Str(msg_type@)), ("topic"@, Json::Str(topic@))]);
        }
        match data {
            Some(d) => {
                payload.push_member("data", d);
            },
            None => {},
        }
        payload
    }

    /// Subscribes `callback` to `topic`, replacing an earlier one.
    pub fn subscribe(&mut self, topic: &str, callback: C)
        requires
            old(self).wf(),
        ensures
            final(self).wf(),
            final(self).subscribed() == old(self).subscribed().insert(topic@, callback),
            final(self).resolver() == old(self).resolver(),
            final(self).last_processed() == old(self).last_processed(),
            final(self).limits() == old(self).limits(),
    {
        self.subscriptions.insert(topic, callback);
    }

    /// Drops the subscription to `topic`.
    pub fn unsubscribe(&mut self, topic: &str)
        requires
            old(self).wf(),
        ensures
            final(self).wf(),
            final(self).subscribed() == old(self).subscribed().remove(topic@),
            final(self).resolver() == old(self).resolver(),
            final(self).last_processed() == old(self).last_processed(),
            final(self).limits() == old(self).limits(),
    {
        self.subscriptions.remove(topic);
    }
}

/// Every subscribed callback accepts every message.
pub open spec fn accepts_all<C: Fn(&JsonValue)>(subs: Map<Seq<char>, C>) -> bool {
    forall|t: Seq<char>, m: &JsonValue| subs.dom().contains(t) ==> #[trigger] call_requires(subs[t], (m,))
}

/// `m` went to the callback subscribed to its topic, where its topic is text
/// and has one.
pub open spec fn handed_to_subscriber<C: Fn(&JsonValue)>(subs: Map<Seq<char>, C>, m: &JsonValue) -> bool {
    match opt_str(m@.field("topic"@)) {
        Some(t) => subs.dom().contains(t) ==> call_ensures(subs[t], (m,), ()),
        None => true,
    }
}

impl<C: Fn(&JsonValue)> WebRTCDataChannelPubSub<C> {
    /// Runs a message through the resolver (see
    /// [`FutureResolver::run_resolve_for_topic`]), then hands it, as the resolver
    /// left it, to the callback subscribed to its topic.
    pub fn run_resolve(&mut self, message: &mut JsonValue) -> (r: Result<Option<String>, String>)
        requires
            old(self).wf(),
            accepts_all(old(self).subscribed()),
        ensures
            final(self).wf(),
            (final(self).resolver(), final(message)@, result_view(r)) == resolve_topic(
                old(self).resolver(),
                old(message)@,
            ),
            final(self).subscribed() == old(self).subscribed(),
            final(self).last_processed() == old(self).last_processed(),
            final(self).limits() == old(self).limits(),
            r is Ok ==> handed_to_subscriber(old(self).subscribed(), &*final(message)),
    {
        let resolved = match self.future_resolver.run_resolve_for_topic(message) {
            Ok(k) => k,
            Err(e) => return Err(e),
        };
        match self.subscriber(message) {
            Some(callback) => {
                proof {
                    let t = opt_str(message@.field("topic"@))->0;
                    assert(self.subscribed().dom().contains(t));
                }
                callback(message);
            },
            None => {},
        }
        Ok(resolved)
    }
}

/// The last instants after messages of `topic` arrive at `times`, in order.
pub open spec fn last_after(
    limits: Map<Seq<char>, Duration>,
    last: Map<Seq<char>, Instant>,
    topic: Seq<char>,
    times: Seq<Instant>,
) -> Map<Seq<char>, Instant>
    decreases times.len(),
{
    if times.len() == 0 {
        last
    } else {
        let before = last_after(limits, last, topic, times.drop_last());
        if throttle_allows(limits, before, topic, times.last()) && limits.dom().contains(topic) {
            before.insert(topic, times.last())
        } else {
            before
        }
    }
}

/// The instants, among `times`, at which a message of `topic` is let through.
pub open spec fn passed_times(
    limits: Map<Seq<char>, Duration>,
    last: Map<Seq<char>, Instant>,
    topic: Seq<char>,
    times: Seq<Instant>,
) -> Seq<Instant>
    decreases times.len(),
{
    if times.len() == 0 {
        Seq::empty()
    } else {
        let before = last_after(limits, last, topic, times.drop_last());
        let prev = passed_times(limits, last, topic, times.drop_last());
        if throttle_allows(limits, before, topic, times.last()) {
            prev.push(times.last())
        } else {
            prev
        }
    }
}

/// Of the messages of a throttled topic, those let through are at least its
/// limit apart: each one after the first comes no sooner than the limit after
/// the one before it (and the first, no sooner than the limit after the last
/// instant recorded before).
pub proof fn lemma_throttle_spacing(
    limits: Map<Seq<char>, Duration>,
    last: Map<Seq<char>, Instant>,
    topic: Seq<char>,
    times: Seq<Instant>,
)
    requires
        limits.dom().contains(topic),
    ensures
        forall|i: int|
            0 < i < passed_times(limits, last, topic, times).len() ==> nanos_between(
                #[trigger] passed_times(limits, last, topic, times)[i - 1]@,
                passed_times(limits, last, topic, times)[i]@,
            ) >= limits[topic]@,
        passed_times(limits, last, topic, times).len() > 0 ==> last_after(limits, last, topic, times).dom().contains(topic)
            && last_after(limits, last, topic, times)[topic] == passed_times(limits, last, topic, times).last(),
        passed_times(limits, last, topic, times).len() > 0 && last.dom().contains(topic) ==> nanos_between(
            last[topic]@,
            passed_times(limits, last, topic, times)[0]@,
        ) >= limits[topic]@,
        passed_times(limits, last, topic, times).len() == 0 ==> last_after(limits, last, topic, times) == last,
    decreases times.len(),
{
    if times.len() > 0 {
        lemma_throttle_spacing(limits, last, topic, times.drop_last());
        let prev = passed_times(limits, last, topic, times.drop_last());
        let p = passed_times(limits, last, topic, times);
        if p.len() > prev.len() {
            assert(p == prev.push(times.last()));
            assert forall|i: int| 0 < i < p.len() implies nanos_between(#[trigger] p[i - 1]@, p[i]@) >= limits[topic]@ by {
                if i < prev.len() {
                    assert(p[i - 1] == prev[i - 1] && p[i] == prev[i]);
                }
            }
        }
    }
}

} // verus!
