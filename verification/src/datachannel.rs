//! The data channel's protocol state: validation, heartbeat, network status,
//! subscriptions and the routing of incoming messages.
use vstd::prelude::*;

use crate::constants::WebRTCConnectionMethod;
use crate::json::{Json, JsonValue};
use crate::msgs::error_handler::handle_error;
use crate::msgs::future_resolver::{
    opt_str, opt_str_view, result_view, resolve_topic, with_data_bytes, ResolverState,
};
use crate::msgs::heartbeat::WebRTCDataChannelHeartBeat;
use crate::msgs::pubsub::{accepts_all, handed_to_subscriber, opt_json, publish_message, throttle_allows, WebRTCDataChannelPubSub};
use crate::msgs::rtc_inner_req::{status_text, WebRTCDataChannelNetworkStatus};
use crate::msgs::validation::WebRTCDataChannelValidation;
use crate::text::{str_equal, string_from_str};
use crate::time::{Duration, Instant};

verus! {

/// The name a binary message is throttled by: its topic, else its type, else the
/// empty text.
pub open spec fn routing_name(m: Json) -> Seq<char> {
    match opt_str(m.field("topic"@)) {
        Some(t) => t,
        None => match opt_str(m.field("type"@)) {
            Some(t) => t,
            None => Seq::empty(),
        },
    }
}

/// A binary message is throttled by its topic whenever its topic is text,
/// whatever its type; by its type only when it has no text topic; and by the
/// empty name when it has neither.
pub proof fn lemma_throttled_by_topic(
    m: Json,
    limits: Map<Seq<char>, Duration>,
    last: Map<Seq<char>, Instant>,
    now: Instant,
)
    ensures
        m.field("topic"@) matches Some(Json::Str(topic)) ==> routing_name(m) == topic && throttle_allows(
            limits,
            last,
            routing_name(m),
            now,
        ) == throttle_allows(limits, last, topic, now),
        !(m.field("topic"@) matches Some(Json::Str(_))) ==> (m.field("type"@) matches Some(Json::Str(ty))
            ==> routing_name(m) == ty),
        !(m.field("topic"@) matches Some(Json::Str(_))) && !(m.field("type"@) matches Some(Json::Str(_)))
            ==> routing_name(m) == Seq::<char>::empty(),
{
}

/// The status text of an `rtc_inner_req` message: `info.status` when it is
/// text, else the empty text.
pub open spec fn info_status(m: Json) -> Seq<char> {
    match m.field("info"@) {
        Some(info) => match opt_str(info.field("status"@)) {
            Some(s) => s,
            None => Seq::empty(),
        },
        None => Seq::empty(),
    }
}

/// `"on"` or `"off"`.
pub open spec fn on_off(switch: bool) -> Seq<char> {
    if switch {
        "on"@
    } else {
        "off"@
    }
}

/// What became of a binary message.
pub enum BinaryOutcome {
    /// Dropped: its topic is throttled and came too soon.
    Throttled,
    /// A lidar frame, with its metadata object in `data`, left for the voxel decoder.
    Lidar { message: JsonValue, payload: Vec<u8> },
    /// Any other message, with its payload put in `data.data` as numbers.
    Message(JsonValue),
}

/// The data channel of a connection; `C` is the type of subscription callbacks.
pub struct WebRTCDataChannel<C> {
    pub_sub: WebRTCDataChannelPubSub<C>,
    heartbeat: WebRTCDataChannelHeartBeat,
    validation: WebRTCDataChannelValidation,
    network_status: WebRTCDataChannelNetworkStatus,
    data_channel_opened: bool,
    reconnect_requested: bool,
    decoder_type: String,
}

impl<C> WebRTCDataChannel<C> {
    /// The subscriptions, throttles and resolver.
    pub closed spec fn pubsub(&self) -> WebRTCDataChannelPubSub<C> {
        self.pub_sub
    }

    /// The heartbeat state.
    pub closed spec fn heartbeat_state(&self) -> WebRTCDataChannelHeartBeat {
        self.heartbeat
    }

    /// The validation state.
    pub closed spec fn validation_state(&self) -> WebRTCDataChannelValidation {
        self.validation
    }

    /// The network status text.
    pub closed spec fn network_state(&self) -> Seq<char> {
        self.network_status.status()
    }

    /// Whether the robot accepted the validation and the channel is open.
    pub closed spec fn opened(&self) -> bool {
        self.data_channel_opened
    }

    /// Whether a reconnect was asked for.
    pub closed spec fn reconnect_flag(&self) -> bool {
        self.reconnect_requested
    }

    /// The name of the lidar decoder in use.
    pub closed spec fn decoder(&self) -> Seq<char> {
        self.decoder_type@
    }

    /// The parts are well formed.
    pub closed spec fn wf(&self) -> bool {
        self.pub_sub.wf()
    }

    /// A closed channel with the given throttles for lidar maps and video
    /// frames, using the `libvoxel` decoder.
    pub fn new(lidar_interval: Duration, video_interval: Duration) -> (r: Self)
        ensures
            r.wf(),
            !r.opened(),
            !r.reconnect_flag(),
            r.decoder() == "libvoxel"@,
            r.pubsub().limits() == map![
                crate::msgs::pubsub::LIDAR_TOPIC@ => lidar_interval,
                crate::msgs::pubsub::VIDEO_TYPE@ => video_interval,
            ],
            r.pubsub().last_processed() == Map::<Seq<char>, Instant>::empty(),
            r.pubsub().subscribed() == Map::<Seq<char>, C>::empty(),
            r.pubsub().resolver().pending == Set::<Seq<char>>::empty(),
            r.pubsub().resolver().resolved == Map::<Seq<char>, Json>::empty(),
            r.pubsub().resolver().chunks == Map::<Seq<char>, Seq<Seq<u8>>>::empty(),
            r.heartbeat_state().last_response() is None,
            !r.validation_state().validated(),
            r.network_state() == Seq::<char>::empty(),
    {
        WebRTCDataChannel {
            pub_sub: WebRTCDataChannelPubSub::new(lidar_interval, video_interval),
            heartbeat: WebRTCDataChannelHeartBeat::new(),
            validation: WebRTCDataChannelValidation::new(),
            network_status: WebRTCDataChannelNetworkStatus::new(),
            data_channel_opened: false,
            reconnect_requested: false,
            decoder_type: string_from_str("libvoxel"),
        }
    }

    /// Chooses the lidar decoder: `libvoxel` or `native`; any other name is an
    /// error and changes nothing.
    pub fn set_decoder(&mut self, decoder_type: &str) -> (r: Result<(), String>)
        ensures
            (decoder_type@ == "libvoxel"@ || decoder_type@ == "native"@) ==> r is Ok && final(self).decoder()
                == decoder_type@,
            !(decoder_type@ == "libvoxel"@ || decoder_type@ == "native"@) ==> r == Err::<(), String>(
                r->Err_0,
            ) && r->Err_0@ == "Invalid decoder type. Choose 'libvoxel' or 'native'."@ && final(self).decoder()
                == old(self).decoder(),
            final(self).pubsub() == old(self).pubsub(),
            final(self).opened() == old(self).opened(),
            final(self).reconnect_flag() == old(self).reconnect_flag(),
            final(self).heartbeat_state() == old(self).heartbeat_state(),
            final(self).validation_state() == old(self).validation_state(),
            final(self).network_state() == old(self).network_state(),
            final(self).wf() == old(self).wf(),
    {
        if !str_equal(decoder_type, "libvoxel") && !str_equal(decoder_type, "native") {
            return Err(string_from_str("Invalid decoder type. Choose 'libvoxel' or 'native'."));
        }
        self.decoder_type = string_from_str(decoder_type);
        Ok(())
    }

    /// The name of the lidar decoder in use.
    pub fn decoder_type(&self) -> (r: &str)
        ensures
            r@ == self.decoder(),
    {
        self.decoder_type.as_str()
    }

    /// Whether the channel is open.
    pub fn is_open(&self) -> (r: bool)
        ensures
            r == self.opened(),
    {
        self.data_channel_opened
    }

    /// Whether a reconnect was asked for.
    pub fn reconnect_requested(&self) -> (r: bool)
        ensures
            r == self.reconnect_flag(),
    {
        self.reconnect_requested
    }

    /// Asks for a reconnect.
    pub fn trigger_reconnect(&mut self)
        ensures
            final(self).reconnect_flag(),
            final(self).pubsub() == old(self).pubsub(),
            final(self).opened() == old(self).opened(),
            final(self).decoder() == old(self).decoder(),
            final(self).heartbeat_state() == old(self).heartbeat_state(),
            final(self).validation_state() == old(self).validation_state(),
            final(self).network_state() == old(self).network_state(),
            final(self).wf() == old(self).wf(),
    {
        self.reconnect_requested = true;
    }

    /// Marks the key of (`message_type`, `topic`, `identifier`) as waiting for a reply.
    pub fn save_resolve(&mut self, message_type: &str, topic: &str, identifier: Option<&str>)
        requires
            old(self).wf(),
        ensures
            final(self).wf(),
            final(self).pubsub().resolver().pending == old(self).pubsub().resolver().pending.insert(
                crate::msgs::future_resolver::message_key(message_type@, topic@, opt_str_view(identifier)),
            ),
            final(self).pubsub().resolver().resolved == old(self).pubsub().resolver().resolved,
            final(self).pubsub().resolver().chunks == old(self).pubsub().resolver().chunks,
            final(self).pubsub().subscribed() == old(self).pubsub().subscribed(),
            final(self).opened() == old(self).opened(),
    {
        self.pub_sub.save_resolve(message_type, topic, identifier);
    }

    /// Hands out, once, the reply that arrived for `key`.
    pub fn take_resolved(&mut self, key: &str) -> (r: Option<JsonValue>)
        requires
            old(self).wf(),
        ensures
            final(self).wf(),
            match r {
                Some(v) => old(self).pubsub().resolver().resolved.dom().contains(key@)
                    && old(self).pubsub().resolver().resolved[key@] == v@,
                None => !old(self).pubsub().resolver().resolved.dom().contains(key@),
            },
            final(self).pubsub().resolver().resolved == old(self).pubsub().resolver().resolved.remove(key@),
            final(self).pubsub().resolver().pending == old(self).pubsub().resolver().pending,
            final(self).opened() == old(self).opened(),
    {
        self.pub_sub.take_resolved(key)
    }

    /// Subscribes `callback` to `topic`.
    pub fn subscribe(&mut self, topic: &str, callback: C)
        requires
            old(self).wf(),
        ensures
            final(self).wf(),
            final(self).pubsub().subscribed() == old(self).pubsub().subscribed().insert(topic@, callback),
            all_but_subscriptions_kept(*old(self), *final(self)),
    {
        self.pub_sub.subscribe(topic, callback);
    }

    /// Drops the subscription to `topic`.
    pub fn unsubscribe(&mut self, topic: &str)
        requires
            old(self).wf(),
        ensures
            final(self).wf(),
            final(self).pubsub().subscribed() == old(self).pubsub().subscribed().remove(topic@),
            all_but_subscriptions_kept(*old(self), *final(self)),
    {
        self.pub_sub.unsubscribe(topic);
    }

    /// The callback subscribed to the topic of `message`, if any.
    pub fn subscriber(&self, message: &JsonValue) -> (r: Option<&C>)
        requires
            self.wf(),
        ensures
            match opt_str(message@.field("topic"@)) {
                Some(t) => match r {
                    Some(c) => self.pubsub().subscribed().dom().contains(t) && self.pubsub().subscribed()[t] == *c,
                    None => !self.pubsub().subscribed().dom().contains(t),
                },
                None => r is None,
            },
    {
        self.pub_sub.subscriber(message)
    }

    /// Acts on a message by its type: a validation answer opens the channel and
    /// starts the heartbeat (or records the key to answer), an `rtc_inner_req`
    /// updates the network status, a heartbeat records the answer.
    fn handle_response(&mut self, msg: &JsonValue, now: Instant)
        requires
            old(self).wf(),
            opt_str(msg@.field("type"@)) is Some,
        ensures
            final(self).wf(),
            response_effect(*old(self), *final(self), msg@, now),
            final(self).pubsub() == old(self).pubsub(),
            final(self).decoder() == old(self).decoder(),
            final(self).reconnect_flag() == old(self).reconnect_flag(),
    {
        let msg_type = match msg.get("type") {
            Some(v) => match v.as_str() {
                Some(t) => t,
                None => return,
            },
            None => return,
        };
        proof {
            reveal_strlit("validation");
            reveal_strlit("rtc_inner_req");
            reveal_strlit("heartbeat");
            assert("validation"@.len() != "heartbeat"@.len());
            assert("validation"@.len() != "rtc_inner_req"@.len());
            assert("rtc_inner_req"@.len() != "heartbeat"@.len());
        }
        if str_equal(msg_type, "validation") {
            match msg.get("data") {
                Some(d) => match d.as_str() {
                    Some(text) => {
                        if str_equal(text, "Validation Ok.") {
                            self.validation.mark_validated();
                            self.data_channel_opened = true;
                            self.heartbeat.start_heartbeat(now);
                        } else {
                            self.validation.set_key(text);
                        }
                    },
                    None => {},
                },
                None => {},
            }
        } else if str_equal(msg_type, "rtc_inner_req") {
            match msg.get("info") {
                Some(info) => {
                    let status = match info.get("status") {
                        Some(s) => match s.as_str() {
                            Some(t) => t,
                            None => "",
                        },
                        None => "",
                    };
                    proof {
                        reveal_strlit("");
                        assert(""@ =~= Seq::<char>::empty());
                        assert(status@ == info_status(msg@));
                    }
                    let _ = self.network_status.handle_status(status, WebRTCConnectionMethod::LocalSTA);
                },
                None => {},
            }
        } else if str_equal(msg_type, "heartbeat") {
            self.heartbeat.handle_response(now);
        } else if str_equal(msg_type, "errors") || str_equal(msg_type, "add_error") || str_equal(
            msg_type,
            "rm_error",
        ) {
            let _ = handle_error(msg);
        }
    }

    /// The request that turns the robot's traffic saving on or off.
    pub fn disable_traffic_saving(&self, switch: bool) -> (r: JsonValue)
        ensures
            r@ == publish_message(
                Seq::empty(),
                Some(
                    Json::Object(
                        seq![
                            ("req_type"@, Json::Str("disable_traffic_saving"@)),
                            ("instruction"@, Json::Str(on_off(switch))),
                        ],
                    ),
                ),
                "rtc_inner_req"@,
            ),
    {
        let mut data = JsonValue::new_object();
        data.push_member("req_type", JsonValue::from_str("disable_traffic_saving"));
        data.push_member("instruction", JsonValue::from_str(if switch { "on" } else { "off" }));
        proof {
            reveal_strlit("");
            assert(""@ =~= Seq::<char>::empty());
            assert(Seq::<(Seq<char>, Json)>::empty().push(("req_type"@, Json::Str("disable_traffic_saving"@))).push(
                ("instruction"@, Json::Str(on_off(switch))),
            ) =~= seq![
                ("req_type"@, Json::Str("disable_traffic_saving"@)),
                ("instruction"@, Json::Str(on_off(switch))),
            ]);
        }
        WebRTCDataChannelPubSub::<C>::build_publish_message("", Some(data), "rtc_inner_req")
    }

    /// The message that turns the video stream on or off.
    pub fn switch_video_channel(&self, switch: bool) -> (r: JsonValue)
        ensures
            r@ == publish_message(Seq::empty(), Some(Json::Str(on_off(switch))), "vid"@),
    {
        proof {
            reveal_strlit("");
            assert(""@ =~= Seq::<char>::empty());
        }
        WebRTCDataChannelPubSub::<C>::build_publish_message(
            "",
            Some(JsonValue::from_str(if switch { "on" } else { "off" })),
            "vid",
        )
    }

    /// The message that turns the audio stream on or off.
    pub fn switch_audio_channel(&self, switch: bool) -> (r: JsonValue)
        ensures
            r@ == publish_message(Seq::empty(), Some(Json::Str(on_off(switch))), "aud"@),
    {
        proof {
            reveal_strlit("");
            assert(""@ =~= Seq::<char>::empty());
        }
        WebRTCDataChannelPubSub::<C>::build_publish_message(
            "",
            Some(JsonValue::from_str(if switch { "on" } else { "off" })),
            "aud",
        )
    }
}

impl<C: Fn(&JsonValue)> WebRTCDataChannel<C> {
    /// Runs a message through the resolver and hands it to the subscriber of
    /// its topic (see [`WebRTCDataChannelPubSub::run_resolve`]).
    pub fn deliver(&mut self, message: &mut JsonValue) -> (r: Result<Option<String>, String>)
        requires
            old(self).wf(),
            accepts_all(old(self).pubsub().subscribed()),
        ensures
            final(self).wf(),
            (final(self).pubsub().resolver(), final(message)@, result_view(r)) == resolve_topic(
                old(self).pubsub().resolver(),
                old(message)@,
            ),
            final(self).pubsub().subscribed() == old(self).pubsub().subscribed(),
            final(self).pubsub().last_processed() == old(self).pubsub().last_processed(),
            final(self).pubsub().limits() == old(self).pubsub().limits(),
            final(self).opened() == old(self).opened(),
            final(self).heartbeat_state() == old(self).heartbeat_state(),
            final(self).validation_state() == old(self).validation_state(),
            final(self).network_state() == old(self).network_state(),
            final(self).decoder() == old(self).decoder(),
            final(self).reconnect_flag() == old(self).reconnect_flag(),
            r is Ok ==> handed_to_subscriber(old(self).pubsub().subscribed(), &*final(message)),
    {
        self.pub_sub.run_resolve(message)
    }

    /// Takes a text message, already read as JSON: a copy goes through the
    /// resolver and to the subscriber of its topic, then the message updates
    /// validation, heartbeat or network status by its type. Returns the message.
    pub fn handle_text_message(&mut self, parsed: JsonValue, now: Instant) -> (r: Result<JsonValue, String>)
        requires
            old(self).wf(),
            accepts_all(old(self).pubsub().subscribed()),
        ensures
            final(self).wf(),
            ({
                let (rs, delivered, res) = resolve_topic(old(self).pubsub().resolver(), parsed@);
                &&& final(self).pubsub().resolver() == rs
                &&& match r {
                    Ok(m) => res is Ok && m@ == parsed@ && response_effect(*old(self), *final(self), parsed@, now),
                    Err(e) => res is Err && e@ == res->Err_0,
                }
                &&& r is Ok ==> exists|d: JsonValue|
                    d@ == delivered && #[trigger] handed_to_subscriber(old(self).pubsub().subscribed(), &d)
            }),
            final(self).pubsub().subscribed() == old(self).pubsub().subscribed(),
            final(self).pubsub().limits() == old(self).pubsub().limits(),
            final(self).pubsub().last_processed() == old(self).pubsub().last_processed(),
            final(self).decoder() == old(self).decoder(),
            final(self).reconnect_flag() == old(self).reconnect_flag(),
    {
        let mut delivered = parsed.deep_clone();
        match self.pub_sub.run_resolve(&mut delivered) {
            Ok(_) => {},
            Err(e) => return Err(e),
        }
        self.handle_response(&parsed, now);
        Ok(parsed)
    }

    /// Takes a binary message, already split by
    /// [`crate::message::parse_array_buffer`] and with its JSON part read: drops
    /// it when its topic is throttled, leaves a lidar frame to the decoder, and
    /// puts the payload of any other message into `data.data`, running it through
    /// the resolver (and to the subscriber of its topic) when it has a type.
    pub fn handle_binary_message(
        &mut self,
        is_lidar: bool,
        message: JsonValue,
        binary_data: Vec<u8>,
        now: Instant,
    ) -> (r: Result<BinaryOutcome, String>)
        requires
            old(self).wf(),
            accepts_all(old(self).pubsub().subscribed()),
        ensures
            final(self).wf(),
            ({
                let name = routing_name(message@);
                let old_ps = old(self).pubsub();
                let allowed = throttle_allows(old_ps.limits(), old_ps.last_processed(), name, now);
                let with_payload = with_data_bytes(message@, binary_data@);
                &&& final(self).pubsub().last_processed() == if allowed && old_ps.limits().dom().contains(name) {
                    old_ps.last_processed().insert(name, now)
                } else {
                    old_ps.last_processed()
                }
                &&& !allowed ==> (r matches Ok(BinaryOutcome::Throttled) && final(self).pubsub().resolver()
                    == old_ps.resolver())
                &&& (allowed && is_lidar) ==> final(self).pubsub().resolver() == old_ps.resolver() && match message@.field(
                    "data"@,
                ) {
                    Some(d) => if d is Object {
                        (r matches Ok(BinaryOutcome::Lidar { message: m, payload: p }) && m@ == message@ && p@
                            == binary_data@)
                    } else {
                        r is Err && r->Err_0@ == "Missing metadata for LiDAR decoding"@
                    },
                    None => r is Err && r->Err_0@ == "Missing metadata for LiDAR decoding"@,
                }
                &&& (allowed && !is_lidar && with_payload.field("type"@) is None) ==> (final(self).pubsub().resolver()
                    == old_ps.resolver() && (r matches Ok(BinaryOutcome::Message(m)) && m@ == with_payload))
                &&& (allowed && !is_lidar && with_payload.field("type"@) is Some) ==> ({
                    let (rs, dm, res) = resolve_topic(old_ps.resolver(), with_payload);
                    &&& final(self).pubsub().resolver() == rs
                    &&& match r {
                        Ok(BinaryOutcome::Message(m)) => res is Ok && m@ == with_payload,
                        Ok(_) => false,
                        Err(e) => res is Err && e@ == res->Err_0,
                    }
                    &&& r is Ok ==> exists|d: JsonValue|
                        d@ == dm && #[trigger] handed_to_subscriber(old_ps.subscribed(), &d)
                })
            }),
            final(self).pubsub().subscribed() == old(self).pubsub().subscribed(),
            final(self).pubsub().limits() == old(self).pubsub().limits(),
            final(self).opened() == old(self).opened(),
            final(self).heartbeat_state() == old(self).heartbeat_state(),
            final(self).validation_state() == old(self).validation_state(),
            final(self).network_state() == old(self).network_state(),
            final(self).decoder() == old(self).decoder(),
            final(self).reconnect_flag() == old(self).reconnect_flag(),
    {
        let name = match message.get("topic") {
            Some(t) => match t.as_str() {
                Some(s) => string_from_str(s),
                None => message_type_text(&message),
            },
            None => message_type_text(&message),
        };
        if !self.pub_sub.should_process(name.as_str(), now) {
            return Ok(BinaryOutcome::Throttled);
        }
        if is_lidar {
            let has_meta = match message.get("data") {
                Some(d) => d.is_object(),
                None => false,
            };
            if !has_meta {
                return Err(string_from_str("Missing metadata for LiDAR decoding"));
            }
            return Ok(BinaryOutcome::Lidar { message, payload: binary_data });
        }
        let mut message = message;
        let data_obj = match message.get("data") {
            Some(d) => if d.is_object() {
                Some(d.deep_clone())
            } else {
                None
            },
            None => None,
        };
        match data_obj {
            Some(mut d) => {
                d.insert("data", JsonValue::from_bytes(binary_data.as_slice()));
                message.insert("data", d);
            },
            None => {},
        }
        if message.get("type").is_some() {
            let mut delivered = message.deep_clone();
            match self.pub_sub.run_resolve(&mut delivered) {
                Ok(_) => {},
                Err(e) => return Err(e),
            }
            Ok(BinaryOutcome::Message(message))
        } else {
            Ok(BinaryOutcome::Message(message))
        }
    }

}

/// The type of a message as text, or the empty text.
fn message_type_text(message: &JsonValue) -> (r: String)
    ensures
        r@ == match opt_str(message@.field("type"@)) {
            Some(t) => t,
            None => Seq::<char>::empty(),
        },
{
    match message.get("type") {
        Some(t) => match t.as_str() {
            Some(s) => string_from_str(s),
            None => String::new(),
        },
        None => String::new(),
    }
}

/// Everything of the channel but its subscriptions is the same in `after` as
/// in `before`.
pub open spec fn all_but_subscriptions_kept<C>(before: WebRTCDataChannel<C>, after: WebRTCDataChannel<C>) -> bool {
    &&& after.pubsub().resolver() == before.pubsub().resolver()
    &&& after.pubsub().last_processed() == before.pubsub().last_processed()
    &&& after.pubsub().limits() == before.pubsub().limits()
    &&& after.opened() == before.opened()
    &&& after.heartbeat_state() == before.heartbeat_state()
    &&& after.validation_state() == before.validation_state()
    &&& after.network_state() == before.network_state()
    &&& after.decoder() == before.decoder()
    &&& after.reconnect_flag() == before.reconnect_flag()
}

/// How a message of a known type changes the channel (`before` to `after`):
/// validation, heartbeat and network status follow its type; the rest stays.
pub open spec fn response_effect<C>(before: WebRTCDataChannel<C>, after: WebRTCDataChannel<C>, m: Json, now: Instant) -> bool {
    let t = opt_str(m.field("type"@));
    let data = opt_str(m.field("data"@));
    let v0 = before.validation_state();
    let v1 = after.validation_state();
    if t == Some("validation"@) && data == Some("Validation Ok."@) {
        &&& v1.validated()
        &&& v1.key_text() == v0.key_text()
        &&& after.opened()
        &&& after.heartbeat_state().last_response() == Some(now)
        &&& after.heartbeat_state().threshold() == before.heartbeat_state().threshold()
        &&& after.heartbeat_state().interval() == before.heartbeat_state().interval()
        &&& after.network_state() == before.network_state()
    } else if t == Some("validation"@) && data is Some {
        &&& v1.key_text() == data->0
        &&& v1.validated() == v0.validated()
        &&& after.opened() == before.opened()
        &&& after.heartbeat_state() == before.heartbeat_state()
        &&& after.network_state() == before.network_state()
    } else if t == Some("rtc_inner_req"@) && m.field("info"@) is Some {
        &&& after.network_state() == match status_text(info_status(m), WebRTCConnectionMethod::LocalSTA) {
            Some(s) => s,
            None => before.network_state(),
        }
        &&& after.validation_state() == before.validation_state()
        &&& after.opened() == before.opened()
        &&& after.heartbeat_state() == before.heartbeat_state()
    } else if t == Some("heartbeat"@) {
        &&& after.heartbeat_state().last_response() == Some(now)
        &&& after.heartbeat_state().threshold() == before.heartbeat_state().threshold()
        &&& after.heartbeat_state().interval() == before.heartbeat_state().interval()
        &&& after.validation_state() == before.validation_state()
        &&& after.opened() == before.opened()
        &&& after.network_state() == before.network_state()
    } else {
        &&& after.validation_state() == before.validation_state()
        &&& after.opened() == before.opened()
        &&& after.heartbeat_state() == before.heartbeat_state()
        &&& after.network_state() == before.network_state()
    }
}

impl<C> Default for WebRTCDataChannel<C> {
    /// A closed channel that lets through 15 lidar maps and 15 video frames a
    /// second.
    fn default() -> (r: Self)
        ensures
            r.wf(),
            !r.opened(),
            !r.reconnect_flag(),
            r.decoder() == "libvoxel"@,
            r.pubsub().limits().dom() == set![crate::msgs::pubsub::LIDAR_TOPIC@, crate::msgs::pubsub::VIDEO_TYPE@],
            r.pubsub().limits()[crate::msgs::pubsub::LIDAR_TOPIC@]@ == crate::connection::DEFAULT_THROTTLE_NANOS,
            r.pubsub().limits()[crate::msgs::pubsub::VIDEO_TYPE@]@ == crate::connection::DEFAULT_THROTTLE_NANOS,
    {
        let interval = Duration::from_nanos(crate::connection::DEFAULT_THROTTLE_NANOS);
        WebRTCDataChannel::new(interval, interval)
    }
}

} // verus!
