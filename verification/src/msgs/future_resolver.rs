//! Matching replies to the requests that wait for them, and putting together
//! replies that arrive in chunks.
use vstd::prelude::*;

use vstd::utf8::encode_utf8;

use crate::json::{bytes_json, Json, JsonNumber, JsonValue};
use crate::strmap::StrMap;
use crate::text::{i64_to_text, int_text, lossy_text, push_str, string_from_str, u64_to_text, utf8_lossy};

verus! {

broadcast use vstd::string::group_string_axioms;

/// The key under which a reply meets its request: the identifier when there is
/// one, else `"<type> $ <topic>"`.
pub open spec fn message_key(message_type: Seq<char>, topic: Seq<char>, identifier: Option<Seq<char>>) -> Seq<char> {
    match identifier {
        Some(id) => id,
        None => message_type + " $ "@ + topic,
    }
}

/// The text of a value used as an identifier: a string as it is, a number by its
/// decimal text; anything else has none.
pub open spec fn scalar_text(j: Json) -> Option<Seq<char>> {
    match j {
        Json::Str(s) => Some(s),
        Json::Int(i) => Some(int_text(i)),
        Json::Float(t) => Some(t),
        _ => None,
    }
}

/// The text found in `m` along `path`.
pub open spec fn text_at(m: Json, path: Seq<Seq<char>>) -> Option<Seq<char>> {
    match m.at_path(path) {
        Some(j) => scalar_text(j),
        None => None,
    }
}

/// The identifier of a message: `data.uuid`, else `data.header.identity.id`,
/// else `info.uuid`, else `info.req_uuid`.
pub open spec fn identifier_of(m: Json) -> Option<Seq<char>> {
    let a = text_at(m, seq!["data"@, "uuid"@]);
    let b = text_at(m, seq!["data"@, "header"@, "identity"@, "id"@]);
    let c = text_at(m, seq!["info"@, "uuid"@]);
    let d = text_at(m, seq!["info"@, "req_uuid"@]);
    if a is Some {
        a
    } else if b is Some {
        b
    } else if c is Some {
        c
    } else {
        d
    }
}

/// The string held by an optional value.
pub open spec fn opt_str(o: Option<Json>) -> Option<Seq<char>> {
    match o {
        Some(j) => j.as_str(),
        None => None,
    }
}

/// The unsigned integer held by an optional value.
pub open spec fn opt_u64(o: Option<Json>) -> Option<u64> {
    match o {
        Some(j) => j.as_u64(),
        None => None,
    }
}

/// The boolean held by an optional value.
pub open spec fn opt_bool(o: Option<Json>) -> Option<bool> {
    match o {
        Some(j) => j.as_bool(),
        None => None,
    }
}

/// The topic of a message, or the empty text.
pub open spec fn topic_of(m: Json) -> Seq<char> {
    match opt_str(m.field("topic"@)) {
        Some(t) => t,
        None => Seq::empty(),
    }
}

/// Whether a message says that its data comes in chunks.
pub open spec fn is_chunked(m: Json) -> bool {
    opt_bool(m.at_path(seq!["data"@, "content_info"@, "enable_chunking"@])) == Some(true)
}

/// The bytes of a chunk given as an array of numbers; the first element that is
/// no integer, or is above 255, makes it an error.
pub open spec fn array_bytes(arr: Seq<Json>) -> Result<Seq<u8>, Seq<char>>
    decreases arr.len(),
{
    if arr.len() == 0 {
        Ok(Seq::empty())
    } else {
        match array_bytes(arr.drop_last()) {
            Err(e) => Err(e),
            Ok(p) => match arr.last().as_u64() {
                None => Err("Chunk array must contain integers"@),
                Some(n) => if n > 255 {
                    Err("Chunk byte out of range"@)
                } else {
                    Ok(p.push(n as u8))
                },
            },
        }
    }
}

/// The chunk a message carries: its position, the number of chunks, and its bytes.
pub open spec fn data_chunk(m: Json) -> Result<(u64, u64, Seq<u8>), Seq<char>> {
    match m.at_path(seq!["data"@, "content_info"@]) {
        None => Err("content_info missing"@),
        Some(ci) => match opt_u64(ci.field("chunk_index"@)) {
            None => Err("Chunk index is missing"@),
            Some(index) => match opt_u64(ci.field("total_chunk_num"@)) {
                None => Err("Total number of chunks is missing"@),
                Some(total) => if total == 0 {
                    Err("Total number of chunks cannot be zero"@)
                } else {
                    match m.at_path(seq!["data"@, "data"@]) {
                        None => Err("Chunk data missing"@),
                        Some(Json::Array(arr)) => match array_bytes(arr) {
                            Ok(b) => Ok((index, total, b)),
                            Err(e) => Err(e),
                        },
                        Some(Json::Str(s)) => Ok((index, total, encode_utf8(s))),
                        Some(_) => Err("Unsupported chunk data type"@),
                    }
                },
            },
        },
    }
}

/// What the resolver holds: the keys that wait for a reply, the replies that
/// arrived for them, and the chunks received so far for each key.
pub struct ResolverState {
    pub pending: Set<Seq<char>>,
    pub resolved: Map<Seq<char>, Json>,
    pub chunks: Map<Seq<char>, Seq<Seq<u8>>>,
}

/// The chunks stored under `key` (none when the key is absent).
pub open spec fn stored_chunks(s: ResolverState, key: Seq<char>) -> Seq<Seq<u8>> {
    if s.chunks.dom().contains(key) {
        s.chunks[key]
    } else {
        Seq::empty()
    }
}

/// The message with `data.data` replaced by the bytes, when `data` is an object.
pub open spec fn with_data_bytes(m: Json, bytes: Seq<u8>) -> Json {
    match m.field("data"@) {
        Some(d) => if d is Object {
            m.with_field("data"@, d.with_field("data"@, Json::Array(bytes_json(bytes))))
        } else {
            m
        },
        None => m,
    }
}

/// The outcome of a reply for `key`: when the key is pending it stops waiting and
/// the reply is kept for it.
pub open spec fn settle(s: ResolverState, m: Json, key: Seq<char>) -> (ResolverState, Json, Result<Option<Seq<char>>, Seq<char>>) {
    if s.pending.contains(key) {
        (
            ResolverState { pending: s.pending.remove(key), resolved: s.resolved.insert(key, m), chunks: s.chunks },
            m,
            Ok(Some(key)),
        )
    } else {
        (s, m, Ok(None))
    }
}

/// The state with `chunks` stored under `key`.
pub open spec fn with_chunks(s: ResolverState, key: Seq<char>, chunks: Seq<Seq<u8>>) -> ResolverState {
    ResolverState { pending: s.pending, resolved: s.resolved, chunks: s.chunks.insert(key, chunks) }
}

/// The state without chunks under `key`.
pub open spec fn without_chunks(s: ResolverState, key: Seq<char>) -> ResolverState {
    ResolverState { pending: s.pending, resolved: s.resolved, chunks: s.chunks.remove(key) }
}

/// The key of a message whose type is `t`.
pub open spec fn key_of(m: Json, t: Seq<char>) -> Seq<char> {
    message_key(t, topic_of(m), identifier_of(m))
}

/// One message through the resolver: the new state, the message as it ends up,
/// and the result.
pub open spec fn resolve_topic(s: ResolverState, m: Json) -> (ResolverState, Json, Result<Option<Seq<char>>, Seq<char>>) {
    match opt_str(m.field("type"@)) {
        None => (s, m, Err("Message type missing"@)),
        Some(t) => {
            let key = key_of(m, t);
            if is_chunked(m) {
                match data_chunk(m) {
                    Err(e) => (s, m, Err(e)),
                    Ok((index, total, bytes)) => {
                        let stored = stored_chunks(s, key).push(bytes);
                        if index < total {
                            (with_chunks(s, key, stored), m, Ok(None))
                        } else {
                            settle(without_chunks(s, key), with_data_bytes(m, stored.flatten()), key)
                        }
                    },
                }
            } else {
                settle(s, m, key)
            }
        },
    }
}

/// The `info.file` object of a message, if there is one.
pub open spec fn file_of(m: Json) -> Option<Json> {
    match m.field("info"@) {
        Some(info) => if info is Object {
            match info.field("file"@) {
                Some(f) => if f is Object {
                    Some(f)
                } else {
                    None
                },
                None => None,
            }
        } else {
            None
        },
        None => None,
    }
}

/// The message with `info.file.data` set to `text`.
pub open spec fn with_file_data(m: Json, text: Seq<char>) -> Json {
    let info = m.field("info"@)->0;
    let file = info.field("file"@)->0;
    m.with_field("info"@, info.with_field("file"@, file.with_field("data"@, Json::Str(text))))
}

/// One file message through the resolver (chunks in `info.file`, joined as text).
pub open spec fn resolve_file(s: ResolverState, m: Json) -> (ResolverState, Json, Result<Option<Seq<char>>, Seq<char>>) {
    match opt_str(m.field("type"@)) {
        None => (s, m, Err("Message type missing"@)),
        Some(t) => {
            let key = key_of(m, t);
            match file_of(m) {
                None => (s, m, Err("Missing info.file"@)),
                Some(file) => if opt_bool(file.field("enable_chunking"@)) == Some(true) {
                    match opt_u64(file.field("chunk_index"@)) {
                        None => (s, m, Err("Chunk index is missing"@)),
                        Some(index) => match opt_u64(file.field("total_chunk_num"@)) {
                            None => (s, m, Err("Total chunks is missing"@)),
                            Some(total) => if total == 0 {
                                (s, m, Err("Total number of chunks cannot be zero"@))
                            } else {
                                match opt_str(file.field("data"@)) {
                                    None => (s, m, Err("File chunk data missing"@)),
                                    Some(text) => {
                                        let stored = stored_chunks(s, key).push(encode_utf8(text));
                                        if index == total {
                                            settle(
                                                without_chunks(s, key),
                                                with_file_data(m, lossy_text(stored.flatten())),
                                                key,
                                            )
                                        } else {
                                            (with_chunks(s, key, stored), m, Ok(None))
                                        }
                                    },
                                }
                            },
                        },
                    }
                } else {
                    settle(s, m, key)
                },
            }
        },
    }
}

/// The text views of an optional string.
pub open spec fn opt_text(o: Option<String>) -> Option<Seq<char>> {
    match o {
        Some(s) => Some(s@),
        None => None,
    }
}

/// The text views of an optional string slice.
pub open spec fn opt_str_view(o: Option<&str>) -> Option<Seq<char>> {
    match o {
        Some(s) => Some(s@),
        None => None,
    }
}

/// The view of a resolver's result.
pub open spec fn result_view(r: Result<Option<String>, String>) -> Result<Option<Seq<char>>, Seq<char>> {
    match r {
        Ok(o) => Ok(opt_text(o)),
        Err(e) => Err(e@),
    }
}

/// Keeps, for the data channel, which requests wait for a reply, the replies that
/// came, and the chunks of replies still incomplete.
pub struct FutureResolver {
    pending_callbacks: StrMap<()>,
    resolved_messages: StrMap<JsonValue>,
    chunk_data_storage: StrMap<Vec<Vec<u8>>>,
}

/// The byte strings of a list of buffers.
pub open spec fn buffers_view(b: Seq<Vec<u8>>) -> Seq<Seq<u8>> {
    b.map_values(|v: Vec<u8>| v@)
}

impl View for FutureResolver {
    type V = ResolverState;

    closed spec fn view(&self) -> ResolverState {
        ResolverState {
            pending: self.pending_callbacks.view().dom(),
            resolved: self.resolved_messages.view().map_values(|v: JsonValue| v@),
            chunks: self.chunk_data_storage.view().map_values(|v: Vec<Vec<u8>>| buffers_view(v@)),
        }
    }
}

impl FutureResolver {
    /// The maps are well formed.
    pub closed spec fn wf(&self) -> bool {
        &&& self.pending_callbacks.wf()
        &&& self.resolved_messages.wf()
        &&& self.chunk_data_storage.wf()
    }

    /// Nothing pending, resolved or stored.
    pub fn new() -> (r: Self)
        ensures
            r.wf(),
            r@.pending == Set::<Seq<char>>::empty(),
            r@.resolved == Map::<Seq<char>, Json>::empty(),
            r@.chunks == Map::<Seq<char>, Seq<Seq<u8>>>::empty(),
    {
        let r = FutureResolver {
            pending_callbacks: StrMap::new(),
            resolved_messages: StrMap::new(),
            chunk_data_storage: StrMap::new(),
        };
        proof {
            assert(r@.pending =~= Set::<Seq<char>>::empty());
            assert(r@.resolved =~= Map::<Seq<char>, Json>::empty());
            assert(r@.chunks =~= Map::<Seq<char>, Seq<Seq<u8>>>::empty());
        }
        r
    }

    /// The key of a message: `identifier` when given, else `"<type> $ <topic>"`.
    pub fn generate_message_key(message_type: &str, topic: &str, identifier: Option<&str>) -> (r: String)
        ensures
            r@ == message_key(message_type@, topic@, opt_str_view(identifier)),
    {
        match identifier {
            Some(id) => string_from_str(id),
            None => {
                let mut s = string_from_str(message_type);
                push_str(&mut s, " $ ");
                push_str(&mut s, topic);
                s
            },
        }
    }

    /// Marks the key of (`message_type`, `topic`, `identifier`) as waiting for a reply.
    pub fn save_resolve(&mut self, message_type: &str, topic: &str, identifier: Option<&str>)
        requires
            old(self).wf(),
        ensures
            final(self).wf(),
            final(self)@.pending == old(self)@.pending.insert(
                message_key(message_type@, topic@, opt_str_view(identifier)),
            ),
            final(self)@.resolved == old(self)@.resolved,
            final(self)@.chunks == old(self)@.chunks,
    {
        let key = Self::generate_message_key(message_type, topic, identifier);
        self.pending_callbacks.insert(key.as_str(), ());
        proof {
            assert(self@.pending =~= old(self)@.pending.insert(key@));
        }
    }

    /// Whether `key` waits for a reply.
    pub fn has_pending(&self, key: &str) -> (r: bool)
        requires
            self.wf(),
        ensures
            r == self@.pending.contains(key@),
    {
        self.pending_callbacks.contains_key(key)
    }

    /// Hands out, once, the reply that arrived for `key`.
    pub fn take_resolved(&mut self, key: &str) -> (r: Option<JsonValue>)
        requires
            old(self).wf(),
        ensures
            final(self).wf(),
            match r {
                Some(v) => old(self)@.resolved.dom().contains(key@) && old(self)@.resolved[key@] == v@,
                None => !old(self)@.resolved.dom().contains(key@),
            },
            final(self)@.resolved == old(self)@.resolved.remove(key@),
            final(self)@.pending == old(self)@.pending,
            final(self)@.chunks == old(self)@.chunks,
    {
        let r = self.resolved_messages.remove(key);
        proof {
            assert(self@.resolved =~= old(self)@.resolved.remove(key@));
        }
        r
    }

    /// Appends a chunk to those stored under `key`.
    fn push_chunk(&mut self, key: &str, chunk: Vec<u8>)
        requires
            old(self).wf(),
        ensures
            final(self).wf(),
            final(self)@ == with_chunks(old(self)@, key@, stored_chunks(old(self)@, key@).push(chunk@)),
    {
        let ghost s0 = self@;
        let mut buffers = match self.chunk_data_storage.remove(key) {
            Some(b) => b,
            None => Vec::new(),
        };
        proof {
            assert(buffers_view(buffers@) == stored_chunks(s0, key@));
        }
        let ghost before = buffers@;
        buffers.push(chunk);
        proof {
            assert(buffers_view(buffers@) =~= buffers_view(before).push(chunk@));
        }
        self.chunk_data_storage.insert(key, buffers);
        proof {
            assert(self@.chunks =~= s0.chunks.insert(key@, stored_chunks(s0, key@).push(chunk@)));
        }
    }

    /// The buffers joined in order.
    fn merge_array_buffers(&self, buffers: Vec<Vec<u8>>) -> (r: Vec<u8>)
        ensures
            r@ == buffers_view(buffers@).flatten(),
    {
        let mut merged: Vec<u8> = Vec::new();
        let mut i: usize = 0;
        while i < buffers.len()
            invariant
                i <= buffers.len(),
                merged@ == buffers_view(buffers@.take(i as int)).flatten(),
            decreases buffers.len() - i,
        {
            let mut part = vstd::slice::slice_to_vec(buffers[i].as_slice());
            proof {
                assert(buffers_view(buffers@.take(i + 1)) =~= buffers_view(buffers@.take(i as int)).push(
                    buffers@[i as int]@,
                ));
                buffers_view(buffers@.take(i as int)).lemma_flatten_push(buffers@[i as int]@);
            }
            merged.append(&mut part);
            i = i + 1;
        }
        proof {
            assert(buffers@.take(buffers.len() as int) =~= buffers@);
        }
        merged
    }

    /// Stops waiting on `key` if it was pending, keeping `message` as its reply.
    fn settle_key(&mut self, key: String, message: &JsonValue) -> (r: Result<Option<String>, String>)
        requires
            old(self).wf(),
        ensures
            final(self).wf(),
            (final(self)@, message@, result_view(r)) == settle(old(self)@, message@, key@),
    {
        if self.pending_callbacks.contains_key(key.as_str()) {
            self.pending_callbacks.remove(key.as_str());
            let kept = message.deep_clone();
            self.resolved_messages.insert(key.as_str(), kept);
            proof {
                assert(self@.pending =~= old(self)@.pending.remove(key@));
                assert(self@.resolved =~= old(self)@.resolved.insert(key@, message@));
            }
            Ok(Some(key))
        } else {
            Ok(None)
        }
    }

    /// Takes one message: works out its key, stores a chunk and, at the last
    /// chunk, puts the joined bytes into `data.data`; then, if the key was pending,
    /// keeps the message as its reply and returns the key.
    pub fn run_resolve_for_topic(&mut self, message: &mut JsonValue) -> (r: Result<Option<String>, String>)
        requires
            old(self).wf(),
        ensures
            final(self).wf(),
            (final(self)@, final(message)@, result_view(r)) == resolve_topic(old(self)@, old(message)@),
    {
        let message_type = match message.get("type") {
            Some(v) => match v.as_str() {
                Some(t) => string_from_str(t),
                None => return Err(string_from_str("Message type missing")),
            },
            None => return Err(string_from_str("Message type missing")),
        };
        let topic = message_topic(message);
        let identifier = extract_identifier(message);
        let id_ref: Option<&str> = match &identifier {
            Some(id) => Some(id.as_str()),
            None => None,
        };
        let key = Self::generate_message_key(message_type.as_str(), topic.as_str(), id_ref);
        proof {
            assert(key@ == key_of(old(message)@, message_type@));
        }

        if is_chunked_data(message) {
            let (chunk_index, total_chunks, chunk_data) = match extract_data_chunk(message) {
                Ok(c) => c,
                Err(e) => return Err(e),
            };
            let ghost s0 = self@;
            let ghost chunk_view = chunk_data@;
            self.push_chunk(key.as_str(), chunk_data);
            if chunk_index < total_chunks {
                return Ok(None);
            }
            let ghost s1 = self@;
            let ghost sv1 = self.chunk_data_storage.view();
            proof {
                assert(s1.chunks.dom().contains(key@));
                assert(sv1.dom().contains(key@));
                assert(s1.chunks[key@] == buffers_view(sv1[key@]@));
            }
            let buffers = match self.chunk_data_storage.remove(key.as_str()) {
                Some(b) => b,
                None => return Err(string_from_str("Chunk storage missing")),
            };
            proof {
                assert(self@.chunks =~= s1.chunks.remove(key@));
                assert(s1.chunks.remove(key@) =~= s0.chunks.remove(key@));
                assert(buffers_view(buffers@) == stored_chunks(s0, key@).push(chunk_view));
            }
            let merged = self.merge_array_buffers(buffers);
            let data_obj = match message.get("data") {
                Some(d) => if d.is_object() {
                    Some(d.deep_clone())
                } else {
                    None
                },
                None => None,
            };
            match data_obj {
                Some(mut d) => {
                    let arr = JsonValue::from_bytes(merged.as_slice());
                    d.insert("data", arr);
                    message.insert("data", d);
                },
                None => {},
            }
        }
        self.settle_key(key, message)
    }

    /// Takes one file message: like [`Self::run_resolve_for_topic`], with the
    /// chunks in `info.file` and the joined bytes read as text into
    /// `info.file.data`.
    pub fn run_resolve_for_topic_for_file(&mut self, message: &mut JsonValue) -> (r: Result<Option<String>, String>)
        requires
            old(self).wf(),
        ensures
            final(self).wf(),
            (final(self)@, final(message)@, result_view(r)) == resolve_file(old(self)@, old(message)@),
    {
        let message_type = match message.get("type") {
            Some(v) => match v.as_str() {
                Some(t) => string_from_str(t),
                None => return Err(string_from_str("Message type missing")),
            },
            None => return Err(string_from_str("Message type missing")),
        };
        let topic = message_topic(message);
        let identifier = extract_identifier(message);
        let id_ref: Option<&str> = match &identifier {
            Some(id) => Some(id.as_str()),
            None => None,
        };
        let key = Self::generate_message_key(message_type.as_str(), topic.as_str(), id_ref);

        let (mut info, mut file) = match message.get("info") {
            Some(info) => if info.is_object() {
                match info.get("file") {
                    Some(file) => if file.is_object() {
                        (info.deep_clone(), file.deep_clone())
                    } else {
                        return Err(string_from_str("Missing info.file"));
                    },
                    None => return Err(string_from_str("Missing info.file")),
                }
            } else {
                return Err(string_from_str("Missing info.file"));
            },
            None => return Err(string_from_str("Missing info.file")),
        };

        let enable_chunking = match file.get("enable_chunking") {
            Some(v) => match v.as_bool() {
                Some(b) => b,
                None => false,
            },
            None => false,
        };
        if enable_chunking {
            let chunk_index = match file.get("chunk_index") {
                Some(v) => match v.as_u64() {
                    Some(n) => n,
                    None => return Err(string_from_str("Chunk index is missing")),
                },
                None => return Err(string_from_str("Chunk index is missing")),
            };
            let total_chunks = match file.get("total_chunk_num") {
                Some(v) => match v.as_u64() {
                    Some(n) => n,
                    None => return Err(string_from_str("Total chunks is missing")),
                },
                None => return Err(string_from_str("Total chunks is missing")),
            };
            if total_chunks == 0 {
                return Err(string_from_str("Total number of chunks cannot be zero"));
            }
            let chunk_data = match file.get("data") {
                Some(v) => match v.as_str() {
                    Some(t) => vstd::slice::slice_to_vec(t.as_bytes()),
                    None => return Err(string_from_str("File chunk data missing")),
                },
                None => return Err(string_from_str("File chunk data missing")),
            };
            let ghost s0 = self@;
            let ghost chunk_view = chunk_data@;
            self.push_chunk(key.as_str(), chunk_data);
            if chunk_index == total_chunks {
                let ghost s1 = self@;
                let ghost sv1 = self.chunk_data_storage.view();
                proof {
                    assert(s1.chunks.dom().contains(key@));
                    assert(sv1.dom().contains(key@));
                    assert(s1.chunks[key@] == buffers_view(sv1[key@]@));
                }
                let buffers = match self.chunk_data_storage.remove(key.as_str()) {
                    Some(b) => b,
                    None => return Err(string_from_str("Chunk storage missing")),
                };
                proof {
                    assert(self@.chunks =~= s1.chunks.remove(key@));
                    assert(s1.chunks.remove(key@) =~= s0.chunks.remove(key@));
                    assert(buffers_view(buffers@) == stored_chunks(s0, key@).push(chunk_view));
                }
                let merged = self.merge_array_buffers(buffers);
                let text = utf8_lossy(merged.as_slice());
                file.insert("data", JsonValue::String(text));
                info.insert("file", file);
                message.insert("info", info);
            } else {
                return Ok(None);
            }
        }
        self.settle_key(key, message)
    }
}

/// The topic of a message, or the empty text.
fn message_topic(message: &JsonValue) -> (r: String)
    ensures
        r@ == topic_of(message@),
{
    match message.get("topic") {
        Some(v) => match v.as_str() {
            Some(t) => string_from_str(t),
            None => String::new(),
        },
        None => String::new(),
    }
}

/// The identifier of a message, looked up in the four places it may stand.
fn extract_identifier(message: &JsonValue) -> (r: Option<String>)
    ensures
        opt_text(r) == identifier_of(message@),
{
    let pa: [&str; 2] = ["data", "uuid"];
    let pb: [&str; 4] = ["data", "header", "identity", "id"];
    let pc: [&str; 2] = ["info", "uuid"];
    let pd: [&str; 2] = ["info", "req_uuid"];
    proof {
        assert(path_view(pa@) =~= seq!["data"@, "uuid"@]);
        assert(path_view(pb@) =~= seq!["data"@, "header"@, "identity"@, "id"@]);
        assert(path_view(pc@) =~= seq!["info"@, "uuid"@]);
        assert(path_view(pd@) =~= seq!["info"@, "req_uuid"@]);
    }
    let a = get_nested_field(message, &pa);
    if a.is_some() {
        return a;
    }
    let b = get_nested_field(message, &pb);
    if b.is_some() {
        return b;
    }
    let c = get_nested_field(message, &pc);
    if c.is_some() {
        return c;
    }
    get_nested_field(message, &pd)
}

/// The views of a path of keys.
pub open spec fn path_view(path: Seq<&str>) -> Seq<Seq<char>> {
    Seq::new(path.len(), |i: int| path[i]@)
}

/// The text found along `path`: a string as it is, a number by its decimal text.
fn get_nested_field(message: &JsonValue, path: &[&str]) -> (r: Option<String>)
    ensures
        opt_text(r) == text_at(message@, path_view(path@)),
{
    let ghost p = path_view(path@);
    let mut current = message;
    let mut i: usize = 0;
    proof {
        assert(p.subrange(0, p.len() as int) =~= p);
    }
    while i < path.len()
        invariant
            i <= path.len(),
            p == path_view(path@),
            message@.at_path(p) == current@.at_path(p.subrange(i as int, p.len() as int)),
        decreases path.len() - i,
    {
        let ghost rest = p.subrange(i as int, p.len() as int);
        proof {
            assert(rest[0] == path@[i as int]@);
            assert(rest.subrange(1, rest.len() as int) =~= p.subrange(i + 1, p.len() as int));
        }
        match current.get(path[i]) {
            Some(next) => {
                current = next;
            },
            None => {
                return None;
            },
        }
        i = i + 1;
    }
    proof {
        assert(p.subrange(path.len() as int, p.len() as int) =~= Seq::<Seq<char>>::empty());
    }
    match current {
        JsonValue::String(s) => Some(s.clone()),
        JsonValue::Number(JsonNumber::PosInt(u)) => Some(u64_to_text(*u)),
        JsonValue::Number(JsonNumber::NegInt(n)) => Some(i64_to_text(*n)),
        JsonValue::Number(JsonNumber::Float(t)) => Some(t.clone()),
        _ => None,
    }
}

/// Whether `data.content_info.enable_chunking` is `true`.
fn is_chunked_data(message: &JsonValue) -> (r: bool)
    ensures
        r == is_chunked(message@),
{
    proof {
        crate::json::lemma_at_path_three(message@, "data"@, "content_info"@, "enable_chunking"@);
        match message@.field("data"@) {
            Some(d) => crate::json::lemma_at_path_two(d, "content_info"@, "enable_chunking"@),
            None => {},
        }
    }
    match message.get("data") {
        Some(data) => match data.get("content_info") {
            Some(ci) => match ci.get("enable_chunking") {
                Some(v) => match v.as_bool() {
                    Some(b) => b,
                    None => false,
                },
                None => false,
            },
            None => false,
        },
        None => false,
    }
}

/// The bytes of a chunk given as an array of numbers.
fn array_chunk_bytes(arr: &Vec<JsonValue>) -> (r: Result<Vec<u8>, String>)
    ensures
        match r {
            Ok(b) => array_bytes(crate::json::view_json_seq(arr@)) == Ok::<Seq<u8>, Seq<char>>(b@),
            Err(e) => array_bytes(crate::json::view_json_seq(arr@)) == Err::<Seq<u8>, Seq<char>>(e@),
        },
{
    let ghost va = crate::json::view_json_seq(arr@);
    proof {
        crate::json::lemma_view_json_seq(arr@);
    }
    let mut bytes: Vec<u8> = Vec::new();
    let mut i: usize = 0;
    while i < arr.len()
        invariant
            i <= arr.len(),
            va == crate::json::view_json_seq(arr@),
            va.len() == arr.len(),
            forall|j: int| 0 <= j < arr.len() ==> #[trigger] va[j] == arr@[j]@,
            array_bytes(va.take(i as int)) == Ok::<Seq<u8>, Seq<char>>(bytes@),
        decreases arr.len() - i,
    {
        proof {
            assert(va.take(i + 1).drop_last() =~= va.take(i as int));
            assert(va.take(i + 1).last() == arr@[i as int]@);
        }
        let num = match arr[i].as_u64() {
            Some(n) => n,
            None => {
                proof {
                    lemma_array_bytes_prefix_err(va, i as int + 1);
                }
                return Err(string_from_str("Chunk array must contain integers"));
            },
        };
        if num > 255 {
            proof {
                lemma_array_bytes_prefix_err(va, i as int + 1);
            }
            return Err(string_from_str("Chunk byte out of range"));
        }
        bytes.push(num as u8);
        i = i + 1;
    }
    proof {
        assert(va.take(arr.len() as int) =~= va);
    }
    Ok(bytes)
}

proof fn lemma_array_bytes_prefix_err(a: Seq<Json>, n: int)
    requires
        0 <= n <= a.len(),
        array_bytes(a.take(n)) is Err,
    ensures
        array_bytes(a) == array_bytes(a.take(n)),
    decreases a.len() - n,
{
    if n < a.len() {
        assert(a.take(n + 1).drop_last() =~= a.take(n));
        lemma_array_bytes_prefix_err(a, n + 1);
    } else {
        assert(a.take(n) =~= a);
    }
}

/// The position, count and bytes of the chunk a message carries.
fn extract_data_chunk(message: &JsonValue) -> (r: Result<(u64, u64, Vec<u8>), String>)
    ensures
        match r {
            Ok((index, total, bytes)) => data_chunk(message@) == Ok::<(u64, u64, Seq<u8>), Seq<char>>((index, total, bytes@)),
            Err(e) => data_chunk(message@) == Err::<(u64, u64, Seq<u8>), Seq<char>>(e@),
        },
{
    proof {
        crate::json::lemma_at_path_two(message@, "data"@, "content_info"@);
        crate::json::lemma_at_path_two(message@, "data"@, "data"@);
    }
    let content_info = match message.get("data") {
        Some(data) => match data.get("content_info") {
            Some(ci) => ci,
            None => return Err(string_from_str("content_info missing")),
        },
        None => return Err(string_from_str("content_info missing")),
    };
    let chunk_index = match content_info.get("chunk_index") {
        Some(v) => match v.as_u64() {
            Some(n) => n,
            None => return Err(string_from_str("Chunk index is missing")),
        },
        None => return Err(string_from_str("Chunk index is missing")),
    };
    let total_chunks = match content_info.get("total_chunk_num") {
        Some(v) => match v.as_u64() {
            Some(n) => n,
            None => return Err(string_from_str("Total number of chunks is missing")),
        },
        None => return Err(string_from_str("Total number of chunks is missing")),
    };
    if total_chunks == 0 {
        return Err(string_from_str("Total number of chunks cannot be zero"));
    }
    let data_chunk_value = match message.get("data") {
        Some(data) => match data.get("data") {
            Some(d) => d,
            None => return Err(string_from_str("Chunk data missing")),
        },
        None => return Err(string_from_str("Chunk data missing")),
    };
    let chunk_bytes = match data_chunk_value {
        JsonValue::Array(arr) => match array_chunk_bytes(arr) {
            Ok(b) => b,
            Err(e) => return Err(e),
        },
        JsonValue::String(s) => vstd::slice::slice_to_vec(s.as_str().as_bytes()),
        _ => return Err(string_from_str("Unsupported chunk data type")),
    };
    Ok((chunk_index, total_chunks, chunk_bytes))
}

/// A reply whose key waits is resolved under that key and kept as it came, when
/// its data is not chunked; its key then no longer waits.
pub proof fn lemma_pending_reply_resolves(s: ResolverState, m: Json)
    requires
        opt_str(m.field("type"@)) is Some,
        !is_chunked(m),
        s.pending.contains(key_of(m, opt_str(m.field("type"@))->0)),
    ensures
        ({
            let key = key_of(m, opt_str(m.field("type"@))->0);
            let (s2, m2, r) = resolve_topic(s, m);
            &&& r == Ok::<Option<Seq<char>>, Seq<char>>(Some(key))
            &&& m2 == m
            &&& s2.resolved.dom().contains(key)
            &&& s2.resolved[key] == m
            &&& !s2.pending.contains(key)
        }),
{
}

/// A reply whose key does not wait resolves nothing and changes no pending key
/// or kept reply.
pub proof fn lemma_unexpected_reply_ignored(s: ResolverState, m: Json)
    requires
        opt_str(m.field("type"@)) is Some,
        !s.pending.contains(key_of(m, opt_str(m.field("type"@))->0)),
    ensures
        resolve_topic(s, m).0.pending == s.pending,
        resolve_topic(s, m).0.resolved == s.resolved,
        !(resolve_topic(s, m).2 is Ok && resolve_topic(s, m).2->Ok_0 is Some),
{
}

/// The value under `a`, then `b`, of a message, if both are there.
pub open spec fn member2(m: Json, a: Seq<char>, b: Seq<char>) -> Option<Json> {
    match m.field(a) {
        Some(x) => x.field(b),
        None => None,
    }
}

/// The value under `data.header.identity.id` of a message, if it is there.
pub open spec fn header_identity_id(m: Json) -> Option<Json> {
    match member2(m, "data"@, "header"@) {
        Some(h) => member2(h, "identity"@, "id"@),
        None => None,
    }
}

proof fn lemma_paths(m: Json)
    ensures
        m.at_path(seq!["data"@, "uuid"@]) == member2(m, "data"@, "uuid"@),
        m.at_path(seq!["info"@, "uuid"@]) == member2(m, "info"@, "uuid"@),
        m.at_path(seq!["info"@, "req_uuid"@]) == member2(m, "info"@, "req_uuid"@),
        m.at_path(seq!["data"@, "header"@, "identity"@, "id"@]) == header_identity_id(m),
{
    crate::json::lemma_at_path_two(m, "data"@, "uuid"@);
    crate::json::lemma_at_path_two(m, "info"@, "uuid"@);
    crate::json::lemma_at_path_two(m, "info"@, "req_uuid"@);
    let p = seq!["data"@, "header"@, "identity"@, "id"@];
    assert(p.subrange(1, 4) =~= seq!["header"@, "identity"@, "id"@]);
    let q = seq!["header"@, "identity"@, "id"@];
    assert(q.subrange(1, 3) =~= seq!["identity"@, "id"@]);
    match m.field("data"@) {
        Some(d) => {
            assert(m.at_path(p) == d.at_path(q));
            match d.field("header"@) {
                Some(h) => {
                    assert(d.at_path(q) == h.at_path(seq!["identity"@, "id"@]));
                    crate::json::lemma_at_path_two(h, "identity"@, "id"@);
                },
                None => {
                    assert(d.at_path(q) is None);
                },
            }
        },
        None => {
            assert(m.at_path(p) is None);
        },
    }
}

/// A reply is matched to its request by the first of `data.uuid`,
/// `data.header.identity.id`, `info.uuid`, `info.req_uuid` that it carries (a
/// text as it is, a number by its decimal text); a reply with none of them is
/// matched by its type, `" $ "` and its topic.
pub proof fn lemma_reply_key_precedence(m: Json, t: Seq<char>)
    ensures
        member2(m, "data"@, "uuid"@) matches Some(Json::Str(a)) ==> key_of(m, t) == a,
        member2(m, "data"@, "uuid"@) is None ==> (header_identity_id(m) matches Some(Json::Str(b)) ==> key_of(m, t)
            == b),
        member2(m, "data"@, "uuid"@) is None ==> (header_identity_id(m) matches Some(Json::Int(n)) ==> key_of(m, t)
            == int_text(n)),
        (member2(m, "data"@, "uuid"@) is None && header_identity_id(m) is None) ==> (member2(m, "info"@, "uuid"@) matches Some(
            Json::Str(c),
        ) ==> key_of(m, t) == c),
        (member2(m, "data"@, "uuid"@) is None && header_identity_id(m) is None && member2(m, "info"@, "uuid"@) is None)
            ==> (member2(m, "info"@, "req_uuid"@) matches Some(Json::Str(d)) ==> key_of(m, t) == d),
        (member2(m, "data"@, "uuid"@) is None && header_identity_id(m) is None && member2(m, "info"@, "uuid"@) is None
            && member2(m, "info"@, "req_uuid"@) is None) ==> key_of(m, t) == t + " $ "@ + match m.field("topic"@) {
            Some(Json::Str(p)) => p,
            _ => Seq::<char>::empty(),
        },
{
    lemma_paths(m);
}

/// A file reply that is not chunked (its `info.file` is an object whose
/// `enable_chunking` is not `true`) and whose key waits is resolved under that
/// key: the key stops waiting, the reply is kept as it came, nothing else changes.
pub proof fn lemma_pending_file_reply_resolves(s: ResolverState, m: Json, t: Seq<char>)
    requires
        m.field("type"@) == Some(Json::Str(t)),
        m.field("info"@) matches Some(info) && info is Object && (info.field("file"@) matches Some(f) && f is Object
            && f.field("enable_chunking"@) != Some(Json::Bool(true))),
        s.pending.contains(key_of(m, t)),
    ensures
        ({
            let key = key_of(m, t);
            let (s2, m2, r) = resolve_file(s, m);
            &&& r == Ok::<Option<Seq<char>>, Seq<char>>(Some(key))
            &&& m2 == m
            &&& s2.pending == s.pending.remove(key)
            &&& s2.resolved == s.resolved.insert(key, m)
            &&& s2.chunks == s.chunks
        }),
{
}

/// A file reply that is not chunked and whose key does not wait resolves nothing
/// and changes nothing.
pub proof fn lemma_unexpected_file_reply_ignored(s: ResolverState, m: Json, t: Seq<char>)
    requires
        m.field("type"@) == Some(Json::Str(t)),
        m.field("info"@) matches Some(info) && info is Object && (info.field("file"@) matches Some(f) && f is Object
            && f.field("enable_chunking"@) != Some(Json::Bool(true))),
        !s.pending.contains(key_of(m, t)),
    ensures
        resolve_file(s, m) == (s, m, Ok::<Option<Seq<char>>, Seq<char>>(None)),
{
}

/// The bytes of the chunk a message carries (none when it carries no valid chunk).
pub open spec fn chunk_of(m: Json) -> Seq<u8> {
    match data_chunk(m) {
        Ok((_, _, b)) => b,
        Err(_) => Seq::empty(),
    }
}

/// The state after the messages, taken one after the other.
pub open spec fn resolve_each(s: ResolverState, ms: Seq<Json>) -> ResolverState
    decreases ms.len(),
{
    if ms.len() == 0 {
        s
    } else {
        resolve_topic(resolve_each(s, ms.drop_last()), ms.last()).0
    }
}

/// The messages are the chunks of one reply of type `t` and key `key`,
/// numbered 1 to n of n, in order.
pub open spec fn chunk_series(ms: Seq<Json>, t: Seq<char>, key: Seq<char>) -> bool {
    forall|i: int|
        0 <= i < ms.len() ==> {
            &&& opt_str(#[trigger] ms[i].field("type"@)) == Some(t)
            &&& key_of(ms[i], t) == key
            &&& is_chunked(ms[i])
            &&& data_chunk(ms[i]) is Ok
            &&& data_chunk(ms[i])->Ok_0.0 == i + 1
            &&& data_chunk(ms[i])->Ok_0.1 == ms.len()
        }
}

proof fn lemma_chunks_stored(s: ResolverState, ms: Seq<Json>, t: Seq<char>, key: Seq<char>, k: int)
    requires
        chunk_series(ms, t, key),
        0 <= k < ms.len(),
        !s.chunks.dom().contains(key),
    ensures
        stored_chunks(resolve_each(s, ms.take(k)), key) == Seq::new(k as nat, |i: int| chunk_of(ms[i])),
        resolve_each(s, ms.take(k)).chunks.remove(key) == s.chunks.remove(key),
        resolve_each(s, ms.take(k)).pending == s.pending,
        resolve_each(s, ms.take(k)).resolved == s.resolved,
    decreases k,
{
    if k == 0 {
        assert(ms.take(0) =~= Seq::<Json>::empty());
        assert(Seq::new(0, |i: int| chunk_of(ms[i])) =~= Seq::<Seq<u8>>::empty());
    } else {
        lemma_chunks_stored(s, ms, t, key, k - 1);
        let prev = resolve_each(s, ms.take(k - 1));
        assert(ms.take(k).drop_last() =~= ms.take(k - 1));
        assert(ms.take(k).last() == ms[k - 1]);
        let m = ms[k - 1];
        assert(opt_str(m.field("type"@)) == Some(t));
        let stored = stored_chunks(prev, key).push(chunk_of(m));
        assert(resolve_each(s, ms.take(k)) == with_chunks(prev, key, stored));
        assert(stored =~= Seq::new(k as nat, |i: int| chunk_of(ms[i])));
        assert(with_chunks(prev, key, stored).chunks.remove(key) =~= prev.chunks.remove(key));
    }
}

/// Chunks 1 to n of a reply, fed in order with none stored before, are kept until
/// the last; at the last the reply carries all their bytes joined in order in
/// `data.data`, the stored chunks are dropped, and the key is resolved if it
/// waited.
pub proof fn lemma_chunks_reassemble(s: ResolverState, ms: Seq<Json>, t: Seq<char>, key: Seq<char>)
    requires
        chunk_series(ms, t, key),
        ms.len() > 0,
        !s.chunks.dom().contains(key),
    ensures
        ({
            let before_last = resolve_each(s, ms.drop_last());
            let (s2, m2, r) = resolve_topic(before_last, ms.last());
            let joined = Seq::new(ms.len(), |i: int| chunk_of(ms[i])).flatten();
            &&& m2 == with_data_bytes(ms.last(), joined)
            &&& s2.chunks == s.chunks
            &&& r == (if s.pending.contains(key) {
                Ok::<Option<Seq<char>>, Seq<char>>(Some(key))
            } else {
                Ok::<Option<Seq<char>>, Seq<char>>(None)
            })
        }),
{
    let n = ms.len() as int;
    lemma_chunks_stored(s, ms, t, key, n - 1);
    assert(ms.take(n - 1) =~= ms.drop_last());
    let prev = resolve_each(s, ms.drop_last());
    let m = ms[n - 1];
    assert(opt_str(m.field("type"@)) == Some(t));
    let stored = stored_chunks(prev, key).push(chunk_of(m));
    assert(stored =~= Seq::new(ms.len(), |i: int| chunk_of(ms[i])));
    assert(without_chunks(prev, key).chunks =~= s.chunks);
}

impl Default for FutureResolver {
    /// The same as [`FutureResolver::new`].
    fn default() -> (r: Self)
        ensures
            r.wf(),
            r@.pending == Set::<Seq<char>>::empty(),
            r@.resolved == Map::<Seq<char>, Json>::empty(),
            r@.chunks == Map::<Seq<char>, Seq<Seq<u8>>>::empty(),
    {
        FutureResolver::new()
    }
}

} // verus!
