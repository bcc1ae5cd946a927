//! Requests to the robot's audio hub (playback, recordings, megaphone, uploads).
use vstd::prelude::*;

use crate::json::{Json, JsonValue};
use crate::text::{lemma_text_chunks_ascii, seq_chunks, split_text_chunks, string_views, text_chunks};
use vstd::utf8::{encode_utf8, is_ascii_chars};

verus! {

const AUDIO_HUB_TOPIC: &'static str = "rt/api/audiohub/request";
const API_GET_AUDIO_LIST: i64 = 1001;
const API_SELECT_START_PLAY: i64 = 1002;
const API_PAUSE: i64 = 1003;
const API_UNSUSPEND: i64 = 1004;
const API_SET_PLAY_MODE: i64 = 1007;
const API_SELECT_RENAME: i64 = 1008;
const API_SELECT_DELETE: i64 = 1009;
const API_GET_PLAY_MODE: i64 = 1010;
const API_UPLOAD_AUDIO_FILE: i64 = 2001;
const API_ENTER_MEGAPHONE: i64 = 4001;
const API_EXIT_MEGAPHONE: i64 = 4002;
const API_UPLOAD_MEGAPHONE: i64 = 4003;

/// An audio-hub request: `{"topic": <audio hub topic>, "api_id": .., "parameter": ..}`.
pub open spec fn hub_request(api_id: int, parameter: Json) -> Json {
    Json::Object(seq![
        ("topic"@, Json::Str("rt/api/audiohub/request"@)),
        ("api_id"@, Json::Int(api_id)),
        ("parameter"@, parameter),
    ])
}

/// An object with one text member.
pub open spec fn text_param(key: Seq<char>, val: Seq<char>) -> Json {
    Json::Object(seq![(key, Json::Str(val))])
}

/// The parameter of one block of an audio file upload (`index` counts from 1).
pub open spec fn upload_file_param(
    file_name: Seq<char>,
    file_size: int,
    file_md5: Seq<char>,
    block: Seq<char>,
    index: int,
    total: int,
) -> Json {
    Json::Object(seq![
        ("file_name"@, Json::Str(file_name)),
        ("file_type"@, Json::Str("wav"@)),
        ("file_size"@, Json::Int(file_size)),
        ("current_block_index"@, Json::Int(index)),
        ("total_block_number"@, Json::Int(total)),
        ("block_content"@, Json::Str(block)),
        ("current_block_size"@, Json::Int(encode_utf8(block).len() as int)),
        ("file_md5"@, Json::Str(file_md5)),
    ])
}

/// The parameter of one block of a megaphone upload (`index` counts from 1).
pub open spec fn megaphone_param(block: Seq<char>, index: int, total: int) -> Json {
    Json::Object(seq![
        ("current_block_size"@, Json::Int(encode_utf8(block).len() as int)),
        ("block_content"@, Json::Str(block)),
        ("current_block_index"@, Json::Int(index)),
        ("total_block_number"@, Json::Int(total)),
    ])
}

fn build_request(api_id: i64, parameter: JsonValue) -> (r: JsonValue)
    ensures
        r@ == hub_request(api_id as int, parameter@),
{
    let mut r = JsonValue::new_object();
    r.push_member("topic", JsonValue::from_str(AUDIO_HUB_TOPIC));
    r.push_member("api_id", JsonValue::from_i64(api_id));
    let ghost p = parameter@;
    r.push_member("parameter", parameter);
    proof {
        reveal_strlit("rt/api/audiohub/request");
        assert(Seq::<(Seq<char>, Json)>::empty().push(("topic"@, Json::Str(AUDIO_HUB_TOPIC@))).push(
            ("api_id"@, Json::Int(api_id as int)),
        ).push(("parameter"@, p)) =~= seq![
            ("topic"@, Json::Str("rt/api/audiohub/request"@)),
            ("api_id"@, Json::Int(api_id as int)),
            ("parameter"@, p),
        ]);
    }
    r
}

fn text_object(key: &str, val: &str) -> (r: JsonValue)
    ensures
        r@ == text_param(key@, val@),
{
    let mut r = JsonValue::new_object();
    r.push_member(key, JsonValue::from_str(val));
    proof {
        assert(Seq::<(Seq<char>, Json)>::empty().push((key@, Json::Str(val@))) =~= seq![(key@, Json::Str(val@))]);
    }
    r
}

/// Builds the request for each block of `base64_content` split every `block_size`
/// bytes (zero keeps one block).
fn split_and_build_upload_requests(
    api_id: i64,
    file_name: &str,
    file_size: usize,
    file_md5: &str,
    base64_content: &str,
    block_size: usize,
) -> (r: Vec<JsonValue>)
    ensures
        ({
            let blocks = text_chunks(base64_content@, block_size as nat);
            &&& r@.len() == blocks.len()
            &&& forall|i: int| 0 <= i < r@.len() ==> #[trigger] r@[i]@ == hub_request(
                api_id as int,
                upload_file_param(file_name@, file_size as int, file_md5@, blocks[i], i + 1, blocks.len() as int),
            )
        }),
{
    let chunks = split_chunks(base64_content, block_size);
    let ghost blocks = text_chunks(base64_content@, block_size as nat);
    let total = chunks.len();
    let mut out: Vec<JsonValue> = Vec::new();
    let mut index: usize = 0;
    while index < chunks.len()
        invariant
            string_views(chunks@) == blocks,
            total == chunks.len(),
            index <= chunks.len(),
            out@.len() == index,
            forall|i: int| 0 <= i < index ==> #[trigger] out@[i]@ == hub_request(
                api_id as int,
                upload_file_param(file_name@, file_size as int, file_md5@, blocks[i], i + 1, blocks.len() as int),
            ),
        decreases chunks.len() - index,
    {
        let chunk = chunks[index].as_str();
        let chunk_len = chunk.as_bytes().len();
        assert(blocks[index as int] == chunk@);
        let mut p = JsonValue::new_object();
        p.push_member("file_name", JsonValue::from_str(file_name));
        p.push_member("file_type", JsonValue::from_str("wav"));
        p.push_member("file_size", JsonValue::from_u64(file_size as u64));
        p.push_member("current_block_index", JsonValue::from_u64((index + 1) as u64));
        p.push_member("total_block_number", JsonValue::from_u64(total as u64));
        p.push_member("block_content", JsonValue::from_str(chunk));
        p.push_member("current_block_size", JsonValue::from_u64(chunk_len as u64));
        p.push_member("file_md5", JsonValue::from_str(file_md5));
        proof {
            reveal_strlit("wav");
            assert(p@ == upload_file_param(
                file_name@, file_size as int, file_md5@, chunk@, index + 1, blocks.len() as int,
            )) by {
                assert(p@ is Object);
                let ms = p@->Object_0;
                assert(ms =~= seq![
                    ("file_name"@, Json::Str(file_name@)),
                    ("file_type"@, Json::Str("wav"@)),
                    ("file_size"@, Json::Int(file_size as int)),
                    ("current_block_index"@, Json::Int(index + 1)),
                    ("total_block_number"@, Json::Int(blocks.len() as int)),
                    ("block_content"@, Json::Str(chunk@)),
                    ("current_block_size"@, Json::Int(encode_utf8(chunk@).len() as int)),
                    ("file_md5"@, Json::Str(file_md5@)),
                ]);
            }
        }
        let req = build_request(api_id, p);
        out.push(req);
        index = index + 1;
    }
    out
}

/// `content` split every `block_size` bytes; zero keeps it whole.
fn split_chunks(content: &str, block_size: usize) -> (r: Vec<String>)
    ensures
        string_views(r@) == text_chunks(content@, block_size as nat),
{
    split_text_chunks(content, block_size)
}

/// Builds audio-hub requests.
pub struct WebRTCAudioHub;

impl WebRTCAudioHub {
    /// The request builder.
    pub fn new() -> (r: Self) {
        WebRTCAudioHub
    }

    /// Lists the recordings.
    pub fn get_audio_list_request() -> (r: JsonValue)
        ensures
            r@ == hub_request(1001, Json::Object(Seq::empty())),
    {
        build_request(API_GET_AUDIO_LIST, JsonValue::new_object())
    }

    /// Plays the recording `unique_id`.
    pub fn play_by_uuid_request(unique_id: &str) -> (r: JsonValue)
        ensures
            r@ == hub_request(1002, text_param("unique_id"@, unique_id@)),
    {
        build_request(API_SELECT_START_PLAY, text_object("unique_id", unique_id))
    }

    /// Pauses playback.
    pub fn pause_request() -> (r: JsonValue)
        ensures
            r@ == hub_request(1003, Json::Object(Seq::empty())),
    {
        build_request(API_PAUSE, JsonValue::new_object())
    }

    /// Resumes playback.
    pub fn resume_request() -> (r: JsonValue)
        ensures
            r@ == hub_request(1004, Json::Object(Seq::empty())),
    {
        build_request(API_UNSUSPEND, JsonValue::new_object())
    }

    /// Sets the play mode.
    pub fn set_play_mode_request(play_mode: &str) -> (r: JsonValue)
        ensures
            r@ == hub_request(1007, text_param("play_mode"@, play_mode@)),
    {
        build_request(API_SET_PLAY_MODE, text_object("play_mode", play_mode))
    }

    /// Renames the recording `unique_id`.
    pub fn rename_record_request(unique_id: &str, new_name: &str) -> (r: JsonValue)
        ensures
            r@ == hub_request(1008, Json::Object(seq![
                ("unique_id"@, Json::Str(unique_id@)),
                ("new_name"@, Json::Str(new_name@)),
            ])),
    {
        let mut p = JsonValue::new_object();
        p.push_member("unique_id", JsonValue::from_str(unique_id));
        p.push_member("new_name", JsonValue::from_str(new_name));
        proof {
            assert(Seq::<(Seq<char>, Json)>::empty().push(("unique_id"@, Json::Str(unique_id@))).push(
                ("new_name"@, Json::Str(new_name@)),
            ) =~= seq![("unique_id"@, Json::Str(unique_id@)), ("new_name"@, Json::Str(new_name@))]);
        }
        build_request(API_SELECT_RENAME, p)
    }

    /// Deletes the recording `unique_id`.
    pub fn delete_record_request(unique_id: &str) -> (r: JsonValue)
        ensures
            r@ == hub_request(1009, text_param("unique_id"@, unique_id@)),
    {
        build_request(API_SELECT_DELETE, text_object("unique_id", unique_id))
    }

    /// Asks for the play mode.
    pub fn get_play_mode_request() -> (r: JsonValue)
        ensures
            r@ == hub_request(1010, Json::Object(Seq::empty())),
    {
        build_request(API_GET_PLAY_MODE, JsonValue::new_object())
    }

    /// Enters megaphone mode.
    pub fn enter_megaphone_request() -> (r: JsonValue)
        ensures
            r@ == hub_request(4001, Json::Object(Seq::empty())),
    {
        build_request(API_ENTER_MEGAPHONE, JsonValue::new_object())
    }

    /// Leaves megaphone mode.
    pub fn exit_megaphone_request() -> (r: JsonValue)
        ensures
            r@ == hub_request(4002, Json::Object(Seq::empty())),
    {
        build_request(API_EXIT_MEGAPHONE, JsonValue::new_object())
    }

    /// The requests that upload a wav file, one per block of its base64 text.
    pub fn upload_audio_file_requests(
        file_name: &str,
        file_size: usize,
        file_md5: &str,
        base64_content: &str,
        block_size: usize,
    ) -> (r: Vec<JsonValue>)
        ensures
            ({
                let blocks = text_chunks(base64_content@, block_size as nat);
                &&& r@.len() == blocks.len()
                &&& forall|i: int| 0 <= i < r@.len() ==> #[trigger] r@[i]@ == hub_request(
                    2001,
                    upload_file_param(file_name@, file_size as int, file_md5@, blocks[i], i + 1, blocks.len() as int),
                )
            }),
            block_size > 0 && is_ascii_chars(base64_content@) ==> text_chunks(base64_content@, block_size as nat)
                == seq_chunks(base64_content@, block_size as nat),
    {
        proof {
            lemma_text_chunks_ascii(base64_content@, block_size as nat);
        }
        split_and_build_upload_requests(
            API_UPLOAD_AUDIO_FILE,
            file_name,
            file_size,
            file_md5,
            base64_content,
            block_size,
        )
    }

    /// The requests that stream audio to the megaphone, one per block of its base64 text.
    pub fn upload_megaphone_requests(base64_content: &str, block_size: usize) -> (r: Vec<JsonValue>)
        ensures
            ({
                let blocks = text_chunks(base64_content@, block_size as nat);
                &&& r@.len() == blocks.len()
                &&& forall|i: int| 0 <= i < r@.len() ==> #[trigger] r@[i]@ == hub_request(
                    4003,
                    megaphone_param(blocks[i], i + 1, blocks.len() as int),
                )
            }),
            block_size > 0 && is_ascii_chars(base64_content@) ==> text_chunks(base64_content@, block_size as nat)
                == seq_chunks(base64_content@, block_size as nat),
    {
        proof {
            lemma_text_chunks_ascii(base64_content@, block_size as nat);
        }
        let chunks = split_chunks(base64_content, block_size);
        let ghost blocks = text_chunks(base64_content@, block_size as nat);
        let total = chunks.len();
        let mut out: Vec<JsonValue> = Vec::new();
        let mut index: usize = 0;
        while index < chunks.len()
            invariant
                string_views(chunks@) == blocks,
                total == chunks.len(),
                index <= chunks.len(),
                out@.len() == index,
                forall|i: int| 0 <= i < index ==> #[trigger] out@[i]@ == hub_request(
                    4003,
                    megaphone_param(blocks[i], i + 1, blocks.len() as int),
                ),
            decreases chunks.len() - index,
        {
            let chunk = chunks[index].as_str();
            let chunk_len = chunk.as_bytes().len();
            assert(blocks[index as int] == chunk@);
            let mut p = JsonValue::new_object();
            p.push_member("current_block_size", JsonValue::from_u64(chunk_len as u64));
            p.push_member("block_content", JsonValue::from_str(chunk));
            p.push_member("current_block_index", JsonValue::from_u64((index + 1) as u64));
            p.push_member("total_block_number", JsonValue::from_u64(total as u64));
            proof {
                assert(p@ is Object);
                let ms = p@->Object_0;
                assert(ms =~= seq![
                    ("current_block_size"@, Json::Int(encode_utf8(chunk@).len() as int)),
                    ("block_content"@, Json::Str(chunk@)),
                    ("current_block_index"@, Json::Int(index + 1)),
                    ("total_block_number"@, Json::Int(blocks.len() as int)),
                ]);
            }
            let req = build_request(API_UPLOAD_MEGAPHONE, p);
            out.push(req);
            index = index + 1;
        }
        out
    }
}

impl Default for WebRTCAudioHub {
    /// The same as [`WebRTCAudioHub::new`].
    fn default() -> (r: Self) {
        WebRTCAudioHub::new()
    }
}

} // verus!
