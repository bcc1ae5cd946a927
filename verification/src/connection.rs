//! The connection to a robot: how it is reached, its connect / disconnect /
//! reconnect life cycle, the ICE configuration, and the requests it publishes
//! on the data channel.
use vstd::prelude::*;

use rand::Rng;

use crate::audio::WebRTCAudioChannel;
use crate::constants::WebRTCConnectionMethod;
use crate::datachannel::{all_but_subscriptions_kept, WebRTCDataChannel};
use crate::json::{Json, JsonValue};
use crate::msgs::future_resolver::{message_key, opt_str, ResolverState};
use crate::msgs::pubsub::{opt_json, publish_message, WebRTCDataChannelPubSub};
use crate::text::{i64_to_text, int_text, string_from_str};
use crate::time::{max_duration_nanos, Duration, Instant};
use crate::video::WebRTCVideoChannel;

verus! {

/// The robot's address on its own access point.
pub const LOCAL_AP_IP: &'static str = "192.168.12.1";

/// The public STUN server offered when STUN is enabled.
pub const STUN_URL: &'static str = "stun:stun.l.google.com:19302";

/// The default throttle of lidar maps and video frames: 1/15 s, to the nearest
/// nanosecond.
pub const DEFAULT_THROTTLE_NANOS: u64 = 66_666_667;

/// The API id a request gets when its payload names none.
pub const DEFAULT_API_ID: i64 = 1001;

/// One ICE server: its URLs and, for TURN, the credentials.
#[derive(Clone, Debug, PartialEq, Eq)]
pub struct IceServer {
    pub urls: Vec<String>,
    pub username: Option<String>,
    pub credential: Option<String>,
}

/// The ICE servers a peer connection is made with.
#[derive(Clone, Debug, PartialEq, Eq)]
pub struct WebRtcConfiguration {
    pub ice_servers: Vec<IceServer>,
}

/// An ICE server as values: URLs, user name, credential.
pub type IceServerView = (Seq<Seq<char>>, Option<Seq<char>>, Option<Seq<char>>);

/// The text of an optional string.
pub open spec fn opt_string(o: Option<String>) -> Option<Seq<char>> {
    match o {
        Some(s) => Some(s@),
        None => None,
    }
}

/// The values of an ICE server.
pub open spec fn ice_server_view(s: IceServer) -> IceServerView {
    (Seq::new(s.urls@.len(), |i: int| s.urls@[i]@), opt_string(s.username), opt_string(s.credential))
}

/// The values of a configuration's servers.
pub open spec fn configuration_view(c: WebRtcConfiguration) -> Seq<IceServerView> {
    Seq::new(c.ice_servers@.len(), |i: int| ice_server_view(c.ice_servers@[i]))
}

/// The ICE servers for the given TURN details (user name, credential, URL) and
/// switches: the TURN server when it is enabled, then the STUN server when it is
/// enabled; without TURN details there are no servers, and asking for TURN is an
/// error.
pub open spec fn webrtc_configuration(
    turn: Option<(Seq<char>, Seq<char>, Seq<char>)>,
    stun_enable: bool,
    turn_enable: bool,
) -> Result<Seq<IceServerView>, Seq<char>> {
    match turn {
        Some((user, cred, url)) => {
            let turn_part: Seq<IceServerView> = if turn_enable {
                seq![(seq![url], Some(user), Some(cred))]
            } else {
                Seq::empty()
            };
            let stun_part: Seq<IceServerView> = if stun_enable {
                seq![(seq![STUN_URL@], None, None)]
            } else {
                Seq::empty()
            };
            Ok(turn_part + stun_part)
        },
        None => if turn_enable {
            Err("TURN enabled but turn_server_info is missing"@)
        } else {
            Ok(Seq::empty())
        },
    }
}

/// The views of TURN details given as text.
pub open spec fn turn_view(t: Option<(&str, &str, &str)>) -> Option<(Seq<char>, Seq<char>, Seq<char>)> {
    match t {
        Some((u, c, url)) => Some((u@, c@, url@)),
        None => None,
    }
}

/// An event of the data channel, as its handler reports it.
pub enum DcEvent {
    Open,
    Closed,
    Message(Vec<u8>),
    Error(String),
}

/// Whether a byte may stand in a text message: printable ASCII, newline or
/// carriage return.
pub open spec fn is_text_byte(b: u8) -> bool {
    (32 <= b <= 126) || b == 10 || b == 13
}

/// The text of a data-channel payload when every byte is text-like; such a
/// payload is handled as JSON text, any other as a binary frame.
pub fn text_payload(msg: &[u8]) -> (r: Option<String>)
    ensures
        match r {
            Some(s) => (forall|i: int| 0 <= i < msg@.len() ==> is_text_byte(#[trigger] msg@[i])) && s@ == Seq::new(
                msg@.len(),
                |i: int| msg@[i] as char,
            ),
            None => exists|i: int| 0 <= i < msg@.len() && !is_text_byte(#[trigger] msg@[i]),
        },
{
    let mut s = String::new();
    let mut i: usize = 0;
    while i < msg.len()
        invariant
            i <= msg@.len(),
            forall|j: int| 0 <= j < i ==> is_text_byte(#[trigger] msg@[j]),
            s@ == Seq::new(i as nat, |j: int| msg@[j] as char),
        decreases msg.len() - i,
    {
        let b = msg[i];
        if !((32 <= b && b <= 126) || b == 10 || b == 13) {
            return None;
        }
        crate::text::push_char(&mut s, b as char);
        proof {
            assert(s@ =~= Seq::new((i + 1) as nat, |j: int| msg@[j] as char));
        }
        i = i + 1;
    }
    Some(s)
}

/// The delay before reconnect attempt `attempt` (counted from 0): the base
/// delay doubled once per earlier attempt, at most 64 times the base, and at
/// most the longest span.
pub open spec fn backoff_nanos(base: nat, attempt: nat) -> nat {
    let factor: nat = if attempt >= 6 {
        64
    } else {
        vstd::arithmetic::power2::pow2(attempt)
    };
    if base * factor <= max_duration_nanos() {
        base * factor
    } else {
        max_duration_nanos()
    }
}

/// The delay before reconnect attempt `attempt` when the first retry waits `base_delay`.
pub fn backoff_delay(base_delay: Duration, attempt: u32) -> (d: Duration)
    ensures
        d@ == backoff_nanos(base_delay@, attempt as nat),
{
    let shift: u32 = if attempt < 6 {
        attempt
    } else {
        6
    };
    let factor: u32 = 1u32 << shift;
    proof {
        vstd::arithmetic::power2::lemma2_to64();
        assert(factor == vstd::arithmetic::power2::pow2(shift as nat)) by {
            assert(shift <= 6);
            if shift == 0 {
                assert(1u32 << 0u32 == 1) by (bit_vector);
            } else if shift == 1 {
                assert(1u32 << 1u32 == 2) by (bit_vector);
            } else if shift == 2 {
                assert(1u32 << 2u32 == 4) by (bit_vector);
            } else if shift == 3 {
                assert(1u32 << 3u32 == 8) by (bit_vector);
            } else if shift == 4 {
                assert(1u32 << 4u32 == 16) by (bit_vector);
            } else if shift == 5 {
                assert(1u32 << 5u32 == 32) by (bit_vector);
            } else {
                assert(1u32 << 6u32 == 64) by (bit_vector);
            }
        }
    }
    base_delay.saturating_mul(factor)
}

/// What an automatic reconnect does at attempt `attempt` (counted from 0) of
/// `max_retries`: `None` when the attempts are used up (the reconnect has
/// failed); otherwise the attempt is made, the first at once and each later one
/// after waiting [`backoff_delay`].
pub fn reconnect_wait(attempt: u32, max_retries: u32, base_delay: Duration) -> (r: Option<Option<Duration>>)
    ensures
        attempt >= max_retries ==> r is None,
        attempt < max_retries && attempt == 0 ==> r == Some(None::<Duration>),
        attempt < max_retries && attempt > 0 ==> (r matches Some(Some(d)) && d@ == backoff_nanos(
            base_delay@,
            attempt as nat,
        )),
{
    if attempt >= max_retries {
        None
    } else if attempt == 0 {
        Some(None)
    } else {
        Some(Some(backoff_delay(base_delay, attempt)))
    }
}

/// `SystemTime::now()` since the Unix epoch, in milliseconds (0 before the
/// epoch). Nothing is promised of the value: it is the clock's.
#[verifier::external_body]
fn unix_time_millis() -> (r: i64) {
    std::time::SystemTime::now().duration_since(std::time::UNIX_EPOCH).map(|d| d.as_millis() as i64).unwrap_or(0)
}

/// `rand::thread_rng().gen::<u16>()`: a random number; nothing more is promised.
#[verifier::external_body]
fn random_u16() -> (r: u16) {
    rand::thread_rng().gen::<u16>()
}

/// A request id from the clock and a random number: the milliseconds modulo
/// 2^31 (with the sign of the milliseconds), plus the random number modulo 1001.
pub open spec fn request_id_from(millis: i64, random: u16) -> int {
    let m = millis as int;
    let base = if m >= 0 {
        m % 2147483648
    } else {
        -((-m) % 2147483648)
    };
    base + (random as int) % 1001
}

/// The request id made of `millis` and `random`.
pub fn request_id(millis: i64, random: u16) -> (r: i64)
    ensures
        r == request_id_from(millis, random),
{
    let base: i64 = if millis >= 0 {
        millis % 2147483648
    } else if millis == i64::MIN {
        0
    } else {
        -((-millis) % 2147483648)
    };
    proof {
        if millis == i64::MIN {
            assert((-(millis as int)) % 2147483648 == 0) by (nonlinear_arith)
                requires
                    millis as int == -9223372036854775808int,
            ;
        }
    }
    base + (random as i64) % 1001
}

/// A fresh request id from the clock and a random number.
pub fn generate_request_id() -> (r: i64)
    ensures
        exists|millis: i64, random: u16| r == request_id_from(millis, random),
{
    let millis = unix_time_millis();
    let random = random_u16();
    request_id(millis, random)
}

/// The payload of a request sent with [`UnitreeWebRTCConnection::publish_send_req`]:
/// the caller's payload with `api_id` and `id` added when they are missing.
pub open spec fn send_req_payload(payload: Json, api_id: int, identity_id: int) -> Json {
    let with_api = if payload.field("api_id"@) is None {
        payload.with_field("api_id"@, Json::Int(api_id))
    } else {
        payload
    };
    if with_api.field("id"@) is None {
        with_api.with_field("id"@, Json::Int(identity_id))
    } else {
        with_api
    }
}

/// An `i64` read from an optional value, with a default.
pub open spec fn i64_or(o: Option<Json>, default: i64) -> i64 {
    match o {
        Some(j) => match j.as_i64() {
            Some(i) => i,
            None => default,
        },
        None => default,
    }
}

/// The body of a request in the newer format: the identity (id and API id) in
/// `header`, a `policy` of priority 1 when the payload asks for priority, and the
/// parameter as text.
pub open spec fn request_new_body(identity_id: int, api_id: int, priority: bool, parameter: Seq<char>) -> Json {
    let identity = Json::Object(seq![("id"@, Json::Int(identity_id)), ("api_id"@, Json::Int(api_id))]);
    let header = if priority {
        Json::Object(
            seq![("identity"@, identity), ("policy"@, Json::Object(seq![("priority"@, Json::Int(1))]))],
        )
    } else {
        Json::Object(seq![("identity"@, identity)])
    };
    Json::Object(seq![("header"@, header), ("parameter"@, Json::Str(parameter))])
}

/// The text that stands for the parameter of a request in the newer format: a
/// text parameter as it is, another one by its JSON text (`rendered`), none as
/// the empty text.
pub open spec fn parameter_text(payload: Json, rendered: Option<Seq<char>>) -> Seq<char> {
    match payload.field("parameter"@) {
        Some(Json::Str(s)) => s,
        Some(_) => rendered->0,
        None => Seq::empty(),
    }
}

/// The answer the transport gives to a request in the newer format: status code
/// 0 and the request's text echoed in `data`.
pub open spec fn stub_response(topic: Seq<char>, message_text: Seq<char>) -> Json {
    Json::Object(
        seq![
            ("type"@, Json::Str("res"@)),
            ("topic"@, Json::Str(topic)),
            ("data"@, Json::Object(seq![
                ("header"@, Json::Object(seq![
                    ("status"@, Json::Object(seq![
                        ("code"@, Json::Int(0)),
                        ("message"@, Json::Str("Rust transport stub response"@)),
                    ])),
                ])),
                ("data"@, Json::Str(message_text)),
            ])),
        ],
    )
}

/// The answer to a request in the newer format whose text is `message_text`.
pub fn request_new_response(topic: &str, message_text: &str) -> (r: JsonValue)
    ensures
        r@ == stub_response(topic@, message_text@),
{
    let mut status = JsonValue::new_object();
    status.push_member("code", JsonValue::from_i64(0));
    status.push_member("message", JsonValue::from_str("Rust transport stub response"));
    let ghost sv = status@;
    let mut header = JsonValue::new_object();
    header.push_member("status", status);
    let ghost hv = header@;
    let mut data = JsonValue::new_object();
    data.push_member("header", header);
    data.push_member("data", JsonValue::from_str(message_text));
    let ghost dv = data@;
    let mut r = JsonValue::new_object();
    r.push_member("type", JsonValue::from_str("res"));
    r.push_member("topic", JsonValue::from_str(topic));
    r.push_member("data", data);
    proof {
        crate::json::lemma_members_two(("code"@, Json::Int(0)), ("message"@, Json::Str("Rust transport stub response"@)));
        crate::json::lemma_members_one(("status"@, sv));
        crate::json::lemma_members_two(("header"@, hv), ("data"@, Json::Str(message_text@)));
        crate::json::lemma_members_three(("type"@, Json::Str("res"@)), ("topic"@, Json::Str(topic@)), ("data"@, dv));
        assert(sv == Json::Object(seq![
            ("code"@, Json::Int(0)),
            ("message"@, Json::Str("Rust transport stub response"@)),
        ]));
        assert(hv == Json::Object(seq![("status"@, sv)]));
        assert(dv == Json::Object(seq![("header"@, hv), ("data"@, Json::Str(message_text@))]));
        assert(r@ == Json::Object(seq![
            ("type"@, Json::Str("res"@)),
            ("topic"@, Json::Str(topic@)),
            ("data"@, dv),
        ]));
    }
    r
}

/// A request ready to go out on the data channel: the message, the id it is
/// known by, and the key its reply will be resolved under.
pub struct OutgoingRequest {
    pub message: JsonValue,
    pub identity_id: i64,
    pub key: String,
}

/// A connection to one robot; `C` is the type of the callbacks that receive
/// subscribed messages, video frames and audio frames.
pub struct UnitreeWebRTCConnection<C> {
    pub connection_method: WebRTCConnectionMethod,
    pub serial_number: Option<String>,
    pub ip: Option<String>,
    pub token: String,
    pub is_connected: bool,
    pub intentional_disconnect: bool,
    pub is_reconnecting: bool,
    pub reconnect_attempts: u32,
    pub datachannel: Option<WebRTCDataChannel<C>>,
    pub audio: Option<WebRTCAudioChannel<C>>,
    pub video: Option<WebRTCVideoChannel<C>>,
}

/// Why a connection cannot be made with the given method: the method's
/// requirement that is not met.
pub open spec fn connect_error<C>(c: UnitreeWebRTCConnection<C>) -> Option<Seq<char>> {
    match c.connection_method {
        WebRTCConnectionMethod::Remote => if c.serial_number is None {
            Some("Remote connection requires serial_number"@)
        } else {
            None
        },
        WebRTCConnectionMethod::LocalSTA => if c.ip is None {
            Some("LocalSTA connection requires ip"@)
        } else {
            None
        },
        WebRTCConnectionMethod::LocalAP => None,
    }
}

/// The address used for the robot after a connection is prepared: the access
/// point's own for `LocalAP`, the given one otherwise.
pub open spec fn connect_ip<C>(c: UnitreeWebRTCConnection<C>) -> Option<Seq<char>> {
    match c.connection_method {
        WebRTCConnectionMethod::LocalAP => Some(LOCAL_AP_IP@),
        _ => opt_string(c.ip),
    }
}

/// `after` is `before` freshly connected: connected at the method's address,
/// with new channels (data channel closed, no subscriptions, no pending
/// requests, the `libvoxel` decoder; audio and video on).
pub open spec fn connected_fresh<C>(before: UnitreeWebRTCConnection<C>, after: UnitreeWebRTCConnection<C>) -> bool {
    &&& after.is_connected
    &&& opt_string(after.ip) == connect_ip(before)
    &&& after.datachannel is Some
    &&& !channel_open(after)
    &&& after.datachannel->0.decoder() == "libvoxel"@
    &&& after.datachannel->0.pubsub().subscribed() == Map::<Seq<char>, C>::empty()
    &&& after.datachannel->0.pubsub().resolver().pending == Set::<Seq<char>>::empty()
    &&& after.audio is Some
    &&& after.audio->0.enabled()
    &&& after.video is Some
    &&& after.video->0.enabled()
}

/// The data channel is open.
pub open spec fn channel_open<C>(c: UnitreeWebRTCConnection<C>) -> bool {
    match c.datachannel {
        Some(dc) => dc.opened(),
        None => false,
    }
}

impl<C> UnitreeWebRTCConnection<C> {
    /// Whether the last disconnect was asked for.
    pub open spec fn intentional(&self) -> bool {
        self.intentional_disconnect
    }

    /// Whether an automatic reconnect is running.
    pub open spec fn reconnecting(&self) -> bool {
        self.is_reconnecting
    }

    /// The data channel, when there is one, is well formed.
    pub open spec fn wf(&self) -> bool {
        match self.datachannel {
            Some(dc) => dc.wf(),
            None => true,
        }
    }

    /// A connection not yet made.
    pub fn new(
        connection_method: WebRTCConnectionMethod,
        serial_number: Option<String>,
        ip: Option<String>,
    ) -> (r: Self)
        ensures
            r.wf(),
            r.connection_method == connection_method,
            r.serial_number == serial_number,
            r.ip == ip,
            r.token@ == Seq::<char>::empty(),
            !r.is_connected,
            !r.intentional(),
            !r.reconnecting(),
            r.reconnect_attempts == 0,
            r.datachannel is None,
            r.audio is None,
            r.video is None,
    {
        UnitreeWebRTCConnection {
            connection_method,
            serial_number,
            ip,
            token: String::new(),
            is_connected: false,
            intentional_disconnect: false,
            is_reconnecting: false,
            reconnect_attempts: 0,
            datachannel: None,
            audio: None,
            video: None,
        }
    }

    /// The first half of connecting: forgets an earlier intentional disconnect,
    /// checks what the method needs (a serial number for `Remote`, an address for
    /// `LocalSTA`) and sets the access point's address for `LocalAP`.
    pub fn begin_connect(&mut self) -> (r: Result<(), String>)
        ensures
            !final(self).intentional(),
            match connect_error(*old(self)) {
                Some(e) => r is Err && r->Err_0@ == e && final(self).ip == old(self).ip,
                None => r is Ok && opt_string(final(self).ip) == connect_ip(*old(self)),
            },
            final(self).connection_method == old(self).connection_method,
            final(self).serial_number == old(self).serial_number,
            final(self).is_connected == old(self).is_connected,
            final(self).reconnecting() == old(self).reconnecting(),
            final(self).reconnect_attempts == old(self).reconnect_attempts,
            final(self).datachannel == old(self).datachannel,
            final(self).audio == old(self).audio,
            final(self).video == old(self).video,
            final(self).token == old(self).token,
    {
        self.intentional_disconnect = false;
        match self.connection_method {
            WebRTCConnectionMethod::Remote => {
                if self.serial_number.is_none() {
                    return Err(string_from_str("Remote connection requires serial_number"));
                }
            },
            WebRTCConnectionMethod::LocalSTA => {
                if self.ip.is_none() {
                    return Err(string_from_str("LocalSTA connection requires ip"));
                }
            },
            WebRTCConnectionMethod::LocalAP => {
                self.ip = Some(string_from_str(LOCAL_AP_IP));
            },
        }
        Ok(())
    }

    /// The second half of connecting, once the peer answered: fresh data,
    /// audio and video channels, and the connection marked connected.
    pub fn finish_connect(&mut self)
        ensures
            final(self).wf(),
            final(self).is_connected,
            final(self).datachannel is Some,
            !channel_open(*final(self)),
            final(self).datachannel->0.pubsub().subscribed() == Map::<Seq<char>, C>::empty(),
            final(self).datachannel->0.pubsub().resolver().pending == Set::<Seq<char>>::empty(),
            final(self).datachannel->0.decoder() == "libvoxel"@,
            final(self).audio is Some,
            final(self).audio->0.enabled(),
            final(self).video is Some,
            final(self).video->0.enabled(),
            final(self).connection_method == old(self).connection_method,
            final(self).serial_number == old(self).serial_number,
            final(self).ip == old(self).ip,
            final(self).intentional() == old(self).intentional(),
            final(self).reconnecting() == old(self).reconnecting(),
            final(self).reconnect_attempts == old(self).reconnect_attempts,
            final(self).token == old(self).token,
    {
        self.init_webrtc();
        self.is_connected = true;
    }

    fn init_webrtc(&mut self)
        ensures
            final(self).wf(),
            final(self).datachannel is Some,
            !channel_open(*final(self)),
            final(self).datachannel->0.pubsub().subscribed() == Map::<Seq<char>, C>::empty(),
            final(self).datachannel->0.pubsub().resolver().pending == Set::<Seq<char>>::empty(),
            final(self).datachannel->0.decoder() == "libvoxel"@,
            final(self).audio is Some,
            final(self).audio->0.enabled(),
            final(self).video is Some,
            final(self).video->0.enabled(),
            final(self).is_connected == old(self).is_connected,
            final(self).connection_method == old(self).connection_method,
            final(self).serial_number == old(self).serial_number,
            final(self).ip == old(self).ip,
            final(self).intentional() == old(self).intentional(),
            final(self).reconnecting() == old(self).reconnecting(),
            final(self).reconnect_attempts == old(self).reconnect_attempts,
            final(self).token == old(self).token,
    {
        let interval = Duration::from_nanos(DEFAULT_THROTTLE_NANOS);
        self.datachannel = Some(WebRTCDataChannel::new(interval, interval));
        self.audio = Some(WebRTCAudioChannel::new());
        self.video = Some(WebRTCVideoChannel::new());
    }

    /// Connects: [`Self::begin_connect`], then [`Self::finish_connect`].
    pub fn connect(&mut self) -> (r: Result<(), String>)
        requires
            old(self).wf(),
        ensures
            final(self).wf(),
            !final(self).intentional(),
            match connect_error(*old(self)) {
                Some(e) => {
                    &&& r is Err
                    &&& r->Err_0@ == e
                    &&& final(self).ip == old(self).ip
                    &&& final(self).is_connected == old(self).is_connected
                    &&& final(self).datachannel == old(self).datachannel
                    &&& final(self).audio == old(self).audio
                    &&& final(self).video == old(self).video
                },
                None => r is Ok && connected_fresh(*old(self), *final(self)),
            },
            final(self).connection_method == old(self).connection_method,
            final(self).serial_number == old(self).serial_number,
            final(self).reconnecting() == old(self).reconnecting(),
            final(self).reconnect_attempts == old(self).reconnect_attempts,
            final(self).token == old(self).token,
    {
        match self.begin_connect() {
            Ok(()) => {},
            Err(e) => return Err(e),
        }
        self.finish_connect();
        Ok(())
    }

    /// Disconnects on purpose: not connected, no channels, and no automatic
    /// reconnect until the next connect.
    pub fn disconnect(&mut self)
        ensures
            final(self).wf(),
            final(self).intentional(),
            !final(self).is_connected,
            final(self).datachannel is None,
            final(self).audio is None,
            final(self).video is None,
            final(self).connection_method == old(self).connection_method,
            final(self).serial_number == old(self).serial_number,
            final(self).ip == old(self).ip,
            final(self).reconnecting() == old(self).reconnecting(),
            final(self).reconnect_attempts == old(self).reconnect_attempts,
            final(self).token == old(self).token,
    {
        self.intentional_disconnect = true;
        self.is_connected = false;
        self.datachannel = None;
        self.audio = None;
        self.video = None;
    }

    /// Disconnects, then connects again.
    pub fn reconnect(&mut self) -> (r: Result<(), String>)
        requires
            old(self).wf(),
        ensures
            final(self).wf(),
            !final(self).intentional(),
            match connect_error(*old(self)) {
                Some(e) => {
                    &&& r is Err
                    &&& r->Err_0@ == e
                    &&& !final(self).is_connected
                    &&& final(self).ip == old(self).ip
                    &&& final(self).datachannel is None
                    &&& final(self).audio is None
                    &&& final(self).video is None
                },
                None => connected_fresh(*old(self), *final(self)) && r is Ok,
            },
            final(self).connection_method == old(self).connection_method,
            final(self).serial_number == old(self).serial_number,
            final(self).reconnecting() == old(self).reconnecting(),
            final(self).reconnect_attempts == old(self).reconnect_attempts,
            final(self).token == old(self).token,
    {
        self.disconnect();
        self.connect()
    }

    /// Starts an automatic reconnect, unless the connection was closed on
    /// purpose or one is already running; the attempt count starts again.
    pub fn begin_auto_reconnect(&mut self) -> (r: bool)
        ensures
            r == !(old(self).intentional() || old(self).reconnecting()),
            r ==> final(self).reconnecting() && final(self).reconnect_attempts == 0,
            !r ==> *final(self) == *old(self),
            final(self).intentional() == old(self).intentional(),
            final(self).is_connected == old(self).is_connected,
            final(self).datachannel == old(self).datachannel,
            final(self).audio == old(self).audio,
            final(self).video == old(self).video,
            final(self).connection_method == old(self).connection_method,
            final(self).serial_number == old(self).serial_number,
            final(self).ip == old(self).ip,
    {
        if self.intentional_disconnect || self.is_reconnecting {
            return false;
        }
        self.is_reconnecting = true;
        self.reconnect_attempts = 0;
        true
    }

    /// Reconnect attempt `attempt` (counted from 0) of an automatic reconnect:
    /// counts it, then reconnects.
    pub fn reconnect_attempt(&mut self, attempt: u32) -> (r: Result<(), String>)
        requires
            old(self).wf(),
            attempt < u32::MAX,
        ensures
            final(self).wf(),
            final(self).reconnect_attempts == attempt + 1,
            final(self).reconnecting() == old(self).reconnecting(),
            !final(self).intentional(),
            match connect_error(*old(self)) {
                Some(e) => {
                    &&& r is Err
                    &&& r->Err_0@ == e
                    &&& !final(self).is_connected
                    &&& final(self).ip == old(self).ip
                    &&& final(self).datachannel is None
                    &&& final(self).audio is None
                    &&& final(self).video is None
                },
                None => connected_fresh(*old(self), *final(self)) && r is Ok,
            },
            final(self).connection_method == old(self).connection_method,
            final(self).serial_number == old(self).serial_number,
            final(self).token == old(self).token,
    {
        self.reconnect_attempts = attempt + 1;
        self.reconnect()
    }

    /// Ends an automatic reconnect.
    pub fn end_auto_reconnect(&mut self)
        ensures
            !final(self).reconnecting(),
            final(self).intentional() == old(self).intentional(),
            final(self).is_connected == old(self).is_connected,
            final(self).reconnect_attempts == old(self).reconnect_attempts,
            final(self).datachannel == old(self).datachannel,
            final(self).audio == old(self).audio,
            final(self).video == old(self).video,
            final(self).connection_method == old(self).connection_method,
            final(self).serial_number == old(self).serial_number,
            final(self).ip == old(self).ip,
    {
        self.is_reconnecting = false;
    }

    /// The ICE servers for the given TURN details (user name, credential, URL)
    /// and switches; see [`webrtc_configuration`].
    pub fn create_webrtc_configuration(
        &self,
        turn_server_info: Option<(&str, &str, &str)>,
        stun_enable: bool,
        turn_enable: bool,
    ) -> (r: Result<WebRtcConfiguration, String>)
        ensures
            match webrtc_configuration(turn_view(turn_server_info), stun_enable, turn_enable) {
                Ok(servers) => r is Ok && configuration_view(r->Ok_0) == servers,
                Err(e) => r is Err && r->Err_0@ == e,
            },
    {
        let mut ice_servers: Vec<IceServer> = Vec::new();
        match turn_server_info {
            Some((username, credential, turn_url)) => {
                if turn_enable {
                    let mut urls: Vec<String> = Vec::new();
                    urls.push(string_from_str(turn_url));
                    ice_servers.push(
                        IceServer {
                            urls,
                            username: Some(string_from_str(username)),
                            credential: Some(string_from_str(credential)),
                        },
                    );
                }
                if stun_enable {
                    let mut urls: Vec<String> = Vec::new();
                    urls.push(string_from_str(STUN_URL));
                    ice_servers.push(IceServer { urls, username: None, credential: None });
                }
            },
            None => {
                if turn_enable {
                    return Err(string_from_str("TURN enabled but turn_server_info is missing"));
                }
            },
        }
        let r = WebRtcConfiguration { ice_servers };
        proof {
            match turn_view(turn_server_info) {
                Some(t) => {
                    let expected = webrtc_configuration(turn_view(turn_server_info), stun_enable, turn_enable)->Ok_0;
                    assert forall|i: int| 0 <= i < r.ice_servers@.len() implies #[trigger] ice_server_view(
                        r.ice_servers@[i],
                    ) == expected[i] by {
                        let s = r.ice_servers@[i];
                        assert(Seq::new(s.urls@.len(), |k: int| s.urls@[k]@) =~= expected[i].0);
                    }
                    assert(configuration_view(r) =~= expected);
                },
                None => {
                    assert(configuration_view(r) =~= Seq::<IceServerView>::empty());
                },
            }
        }
        Ok(r)
    }

    /// Checks that the connection and its data channel are up.
    fn ensure_open(&self) -> (r: Result<(), String>)
        ensures
            r is Ok <==> (self.is_connected && channel_open(*self)),
            r is Err ==> r->Err_0@ == "Connection or Data channel is not established"@,
    {
        let dc_open = match &self.datachannel {
            Some(dc) => dc.is_open(),
            None => false,
        };
        if !self.is_connected || !dc_open {
            return Err(string_from_str("Connection or Data channel is not established"));
        }
        Ok(())
    }

    /// Builds a request for `topic`, to be sent on the data channel: the
    /// payload with `api_id` (1001 when it names none) and `id` (a fresh one
    /// when it names none) filled in, wrapped as a `req` message. The request
    /// starts waiting for its reply with [`Self::request_sent`] once it has gone out.
    pub fn publish_send_req(&self, topic: &str, payload: &JsonValue) -> (r: Result<OutgoingRequest, String>)
        ensures
            match r {
                Ok(req) => {
                    let api_id = i64_or(payload@.field("api_id"@), DEFAULT_API_ID);
                    &&& self.is_connected && channel_open(*self)
                    &&& i64_field(payload@, "id"@) is Some ==> req.identity_id == i64_field(payload@, "id"@)->0
                    &&& req.message@ == publish_message(
                        topic@,
                        Some(send_req_payload(payload@, api_id as int, req.identity_id as int)),
                        "req"@,
                    )
                    &&& req.key@ == message_key("req"@, topic@, Some(int_text(req.identity_id as int)))
                },
                Err(e) => !(self.is_connected && channel_open(*self)) && e@
                    == "Connection or Data channel is not established"@,
            },
    {
        match self.ensure_open() {
            Ok(()) => {},
            Err(e) => return Err(e),
        }
        let api_id = match payload.get("api_id") {
            Some(v) => match v.as_i64() {
                Some(i) => i,
                None => DEFAULT_API_ID,
            },
            None => DEFAULT_API_ID,
        };
        let req_id = generate_request_id();
        let identity_id = match payload.get("id") {
            Some(v) => match v.as_i64() {
                Some(i) => i,
                None => req_id,
            },
            None => req_id,
        };
        let mut request_payload = payload.deep_clone();
        if request_payload.get("api_id").is_none() {
            request_payload.insert("api_id", JsonValue::from_i64(api_id));
        }
        if request_payload.get("id").is_none() {
            request_payload.insert("id", JsonValue::from_i64(identity_id));
        }
        let message = WebRTCDataChannelPubSub::<C>::build_publish_message(topic, Some(request_payload), "req");
        let id_text = i64_to_text(identity_id);
        let key = crate::msgs::future_resolver::FutureResolver::generate_message_key("req", topic, Some(id_text.as_str()));
        Ok(OutgoingRequest { message, identity_id, key })
    }

    /// Records that `request`, sent on `topic`, waits for its reply; returns its key.
    pub fn request_sent(&mut self, topic: &str, request: &OutgoingRequest) -> (r: String)
        requires
            old(self).wf(),
        ensures
            final(self).wf(),
            r@ == message_key("req"@, topic@, Some(int_text(request.identity_id as int))),
            match old(self).datachannel {
                Some(dc) => final(self).datachannel is Some && final(self).datachannel->0.pubsub().resolver().pending
                    == dc.pubsub().resolver().pending.insert(r@),
                None => final(self).datachannel is None,
            },
            final(self).is_connected == old(self).is_connected,
    {
        let id_text = i64_to_text(request.identity_id);
        let key = crate::msgs::future_resolver::FutureResolver::generate_message_key("req", topic, Some(id_text.as_str()));
        match &mut self.datachannel {
            Some(dc) => {
                dc.save_resolve("req", topic, Some(id_text.as_str()));
            },
            None => {},
        }
        key
    }

    /// Builds a message of type `msg_type` for `topic`, to be sent on the data
    /// channel without waiting for a reply.
    pub fn publish_without_callback(&self, topic: &str, data: Option<JsonValue>, msg_type: &str) -> (r: Result<
        JsonValue,
        String,
    >)
        ensures
            match r {
                Ok(m) => self.is_connected && channel_open(*self) && m@ == publish_message(
                    topic@,
                    opt_json(data),
                    msg_type@,
                ),
                Err(e) => !(self.is_connected && channel_open(*self)) && e@
                    == "Connection or Data channel is not established"@,
            },
    {
        match self.ensure_open() {
            Ok(()) => {},
            Err(e) => return Err(e),
        }
        Ok(WebRTCDataChannelPubSub::<C>::build_publish_message(topic, data, msg_type))
    }

    /// Subscribes `callback` to `topic` on the data channel (when there is one)
    /// and builds the `sub` message to send.
    pub fn subscribe(&mut self, topic: &str, callback: C) -> (r: Result<JsonValue, String>)
        requires
            old(self).wf(),
        ensures
            final(self).wf(),
            match old(self).datachannel {
                Some(dc) => {
                    &&& final(self).datachannel is Some
                    &&& final(self).datachannel->0.pubsub().subscribed() == dc.pubsub().subscribed().insert(topic@, callback)
                    &&& all_but_subscriptions_kept(dc, final(self).datachannel->0)
                },
                None => final(self).datachannel is None,
            },
            final(self).audio == old(self).audio,
            final(self).video == old(self).video,
            final(self).connection_method == old(self).connection_method,
            final(self).serial_number == old(self).serial_number,
            final(self).ip == old(self).ip,
            final(self).token == old(self).token,
            final(self).intentional() == old(self).intentional(),
            final(self).reconnecting() == old(self).reconnecting(),
            final(self).reconnect_attempts == old(self).reconnect_attempts,
            final(self).is_connected == old(self).is_connected,
            match r {
                Ok(m) => old(self).is_connected && channel_open(*old(self)) && m@ == publish_message(
                    topic@,
                    Some(Json::Str(Seq::empty())),
                    "sub"@,
                ),
                Err(e) => !(old(self).is_connected && channel_open(*old(self))) && e@
                    == "Connection or Data channel is not established"@,
            },
    {
        match &mut self.datachannel {
            Some(dc) => dc.subscribe(topic, callback),
            None => {},
        }
        proof {
            reveal_strlit("");
            assert(""@ =~= Seq::<char>::empty());
        }
        self.publish_without_callback(topic, Some(JsonValue::from_str("")), "sub")
    }

    /// Drops the subscription to `topic` on the data channel (when there is one)
    /// and builds the `unsub` message to send.
    pub fn unsubscribe(&mut self, topic: &str) -> (r: Result<JsonValue, String>)
        requires
            old(self).wf(),
        ensures
            final(self).wf(),
            match old(self).datachannel {
                Some(dc) => {
                    &&& final(self).datachannel is Some
                    &&& final(self).datachannel->0.pubsub().subscribed() == dc.pubsub().subscribed().remove(topic@)
                    &&& all_but_subscriptions_kept(dc, final(self).datachannel->0)
                },
                None => final(self).datachannel is None,
            },
            final(self).audio == old(self).audio,
            final(self).video == old(self).video,
            final(self).connection_method == old(self).connection_method,
            final(self).serial_number == old(self).serial_number,
            final(self).ip == old(self).ip,
            final(self).token == old(self).token,
            final(self).intentional() == old(self).intentional(),
            final(self).reconnecting() == old(self).reconnecting(),
            final(self).reconnect_attempts == old(self).reconnect_attempts,
            final(self).is_connected == old(self).is_connected,
            match r {
                Ok(m) => old(self).is_connected && channel_open(*old(self)) && m@ == publish_message(
                    topic@,
                    Some(Json::Str(Seq::empty())),
                    "unsub"@,
                ),
                Err(e) => !(old(self).is_connected && channel_open(*old(self))) && e@
                    == "Connection or Data channel is not established"@,
            },
    {
        match &mut self.datachannel {
            Some(dc) => dc.unsubscribe(topic),
            None => {},
        }
        proof {
            reveal_strlit("");
            assert(""@ =~= Seq::<char>::empty());
        }
        self.publish_without_callback(topic, Some(JsonValue::from_str("")), "unsub")
    }

    /// Builds a request in the newer format for `topic`, with `identity_id` as
    /// its id unless the payload names one: an error when the connection is
    /// down or the payload names no API id. `rendered_parameter` is the JSON text
    /// of the payload's parameter, used when the parameter is not itself text.
    pub fn request_new_message(
        &self,
        topic: &str,
        payload: &JsonValue,
        generated_id: i64,
        rendered_parameter: Option<&str>,
    ) -> (r: Result<JsonValue, String>)
        requires
            (payload@.field("parameter"@) matches Some(p) && !(p is Str)) ==> rendered_parameter is Some,
        ensures
            !self.is_connected ==> r is Err && r->Err_0@ == "Connection is not established"@,
            (self.is_connected && i64_field(payload@, "api_id"@) is None) ==> r is Err && r->Err_0@
                == "Please provide api id"@,
            (self.is_connected && i64_field(payload@, "api_id"@) is Some) ==> r is Ok && r->Ok_0@ == publish_message(
                topic@,
                Some(
                    request_new_body(
                        i64_or(payload@.field("id"@), generated_id) as int,
                        i64_field(payload@, "api_id"@)->0 as int,
                        payload@.field("priority"@) is Some,
                        parameter_text(payload@, opt_str_ref(rendered_parameter)),
                    ),
                ),
                "req"@,
            ),
    {
        if !self.is_connected {
            return Err(string_from_str("Connection is not established"));
        }
        let api_id = match payload.get("api_id") {
            Some(v) => match v.as_i64() {
                Some(i) => i,
                None => return Err(string_from_str("Please provide api id")),
            },
            None => return Err(string_from_str("Please provide api id")),
        };
        let identity_id = match payload.get("id") {
            Some(v) => match v.as_i64() {
                Some(i) => i,
                None => generated_id,
            },
            None => generated_id,
        };
        let parameter = match payload.get("parameter") {
            Some(p) => match p {
                JsonValue::String(s) => string_from_str(s.as_str()),
                _ => match rendered_parameter {
                    Some(t) => string_from_str(t),
                    None => String::new(),
                },
            },
            None => String::new(),
        };
        let priority = payload.get("priority").is_some();
        let mut identity = JsonValue::new_object();
        identity.push_member("id", JsonValue::from_i64(identity_id));
        identity.push_member("api_id", JsonValue::from_i64(api_id));
        let ghost iv = identity@;
        let mut header = JsonValue::new_object();
        header.push_member("identity", identity);
        if priority {
            let mut policy = JsonValue::new_object();
            policy.push_member("priority", JsonValue::from_i64(1));
            header.push_member("policy", policy);
        }
        let ghost hv = header@;
        let mut body = JsonValue::new_object();
        body.push_member("header", header);
        body.push_member("parameter", JsonValue::String(parameter));
        proof {
            crate::json::lemma_members_two(("id"@, Json::Int(identity_id as int)), ("api_id"@, Json::Int(api_id as int)));
            crate::json::lemma_members_one(("priority"@, Json::Int(1)));
            crate::json::lemma_members_one(("identity"@, iv));
            crate::json::lemma_members_two(("identity"@, iv), ("policy"@, Json::Object(seq![("priority"@, Json::Int(1))])));
            crate::json::lemma_members_two(("header"@, hv), ("parameter"@, Json::Str(parameter@)));
            assert(iv == Json::Object(seq![("id"@, Json::Int(identity_id as int)), ("api_id"@, Json::Int(api_id as int))]));
            if priority {
                assert(hv == Json::Object(
                    seq![("identity"@, iv), ("policy"@, Json::Object(seq![("priority"@, Json::Int(1))]))],
                ));
            } else {
                assert(hv == Json::Object(seq![("identity"@, iv)]));
            }
            assert(body@ =~= request_new_body(
                identity_id as int,
                api_id as int,
                priority,
                parameter_text(payload@, opt_str_ref(rendered_parameter)),
            ));
        }
        Ok(WebRTCDataChannelPubSub::<C>::build_publish_message(topic, Some(body), "req"))
    }

    /// [`Self::request_new_message`] with a fresh request id.
    pub fn publish_request_new(&self, topic: &str, payload: &JsonValue, rendered_parameter: Option<&str>) -> (r: Result<
        JsonValue,
        String,
    >)
        requires
            (payload@.field("parameter"@) matches Some(p) && !(p is Str)) ==> rendered_parameter is Some,
        ensures
            !self.is_connected ==> r is Err && r->Err_0@ == "Connection is not established"@,
            (self.is_connected && i64_field(payload@, "api_id"@) is None) ==> r is Err && r->Err_0@
                == "Please provide api id"@,
            (self.is_connected && i64_field(payload@, "api_id"@) is Some) ==> r is Ok && exists|generated: i64|
                r->Ok_0@ == publish_message(
                    topic@,
                    Some(
                        request_new_body(
                            i64_or(payload@.field("id"@), generated) as int,
                            i64_field(payload@, "api_id"@)->0 as int,
                            payload@.field("priority"@) is Some,
                            parameter_text(payload@, opt_str_ref(rendered_parameter)),
                        ),
                    ),
                    "req"@,
                ),
    {
        let generated = generate_request_id();
        self.request_new_message(topic, payload, generated, rendered_parameter)
    }
}

/// The `i64` in field `key` of `m`, if there is one.
pub open spec fn i64_field(m: Json, key: Seq<char>) -> Option<i64> {
    match m.field(key) {
        Some(j) => j.as_i64(),
        None => None,
    }
}

/// The text of an optional string slice.
pub open spec fn opt_str_ref(o: Option<&str>) -> Option<Seq<char>> {
    match o {
        Some(s) => Some(s@),
        None => None,
    }
}

/// Each retry waits twice as long as the one before, until the sixth; from
/// then on the wait stays at 64 times the base (waits are capped at the longest
/// span).
pub proof fn lemma_backoff_doubles(base: nat, attempt: nat)
    ensures
        attempt < 6 ==> backoff_nanos(base, attempt + 1) == if 2 * backoff_nanos(base, attempt)
            <= max_duration_nanos() {
            2 * backoff_nanos(base, attempt)
        } else {
            max_duration_nanos()
        },
        attempt >= 6 ==> backoff_nanos(base, attempt + 1) == backoff_nanos(base, attempt),
        backoff_nanos(base, 0) == if base <= max_duration_nanos() { base } else { max_duration_nanos() },
{
    vstd::arithmetic::power2::lemma2_to64();
    assert(base * 1 == base);
    if attempt < 6 {
        let f = vstd::arithmetic::power2::pow2(attempt);
        let g: nat = if attempt + 1 >= 6 { 64 } else { vstd::arithmetic::power2::pow2(attempt + 1) };
        assert(g == 2 * f);
        assert(base * g == 2 * (base * f)) by (nonlinear_arith)
            requires
                g == 2 * f,
        ;
        if base * f > max_duration_nanos() {
            assert(base * g > max_duration_nanos());
        }
    }
}

impl Default for WebRtcConfiguration {
    /// No ICE servers.
    fn default() -> (r: Self)
        ensures
            r.ice_servers@.len() == 0,
    {
        WebRtcConfiguration { ice_servers: Vec::new() }
    }
}

} // verus!
