//! `cx olly`: chats with the AI assistant, their messages and interactions,
//! artifacts and their downloaded content, and the requests of the Olly API.

use vstd::prelude::*;
use crate::json::{
    array_of, entry_views, json_array, json_object_of, json_opt_count, json_opt_string,
    json_string, object_of, opt_count_value, opt_field, opt_field_value, opt_string_value,
    string_value,
};
use vstd::utf8::{decode_utf8, valid_utf8};
use crate::request::{ApiRequest, Method};
use crate::text::{eq_ignore_case, join, owned, views};

verus! {

/// Path of the chats API.
pub const CHATS_BASE: &'static str = "/api/v2/olly/v2/chats";

/// Path of the artifacts API.
pub const ARTIFACTS_BASE: &'static str = "/api/v2/olly/artifacts";

// ── Messages ─────────────────────────────────────────────────────────────────

/// A content block sent with a message.
#[derive(Debug)]
pub struct InputContentBlock {
    pub content_type: String,
    pub text: String,
}

impl InputContentBlock {
    /// A text block.
    pub fn text(text: &str) -> (r: Self)
        ensures
            r.content_type@ == "input_text"@,
            r.text@ == text@,
    {
        InputContentBlock {
            content_type: crate::text::owned("input_text"),
            text: crate::text::owned(text),
        }
    }
}

#[derive(Debug)]
pub struct SharedOptions {
    pub shared_type: Option<String>,
    pub shared_user_ids: Option<Vec<String>>,
}

#[derive(Debug)]
pub struct Chat {
    pub id: String,
    pub title: String,
    pub user_id: Option<String>,
    pub created_at: Option<String>,
    pub chat_type: Option<String>,
    pub shared_options: Option<SharedOptions>,
    pub metadata: Option<serde_json::Value>,
}

#[derive(Debug)]
pub struct TextContentBlock {
    pub text: String,
}

#[derive(Debug)]
pub struct FileContentBlock {
    pub file_id: Option<String>,
    pub filename: Option<String>,
}

/// A content block of an answer; block types this client does not know are
/// kept as `Unknown`.
#[derive(Debug)]
pub enum ContentBlock {
    Text(TextContentBlock),
    File(FileContentBlock),
    Unknown,
}

impl ContentBlock {
    /// The text of a text block.
    pub fn as_text(&self) -> (r: Option<&str>)
        ensures
            match self {
                ContentBlock::Text(t) => r matches Some(s) && s@ == t.text@,
                _ => r is None,
            },
    {
        match self {
            ContentBlock::Text(t) => Some(t.text.as_str()),
            _ => None,
        }
    }
}

/// The texts of the text blocks, in order.
pub open spec fn block_texts(blocks: Seq<ContentBlock>) -> Seq<Seq<char>>
    decreases blocks.len(),
{
    if blocks.len() == 0 {
        seq![]
    } else {
        match blocks.last() {
            ContentBlock::Text(t) => block_texts(blocks.drop_last()).push(t.text@),
            _ => block_texts(blocks.drop_last()),
        }
    }
}

#[derive(Debug)]
pub struct Message {
    pub id: Option<String>,
    pub role: String,
    pub content: Vec<ContentBlock>,
}

/// The text of a message: its text blocks joined by newlines.
pub open spec fn message_text(m: Message) -> Seq<char> {
    join(block_texts(m.content@), "\n"@)
}

impl Message {
    /// The text blocks of the message, joined with newlines.
    pub fn text_content(&self) -> (r: String)
        ensures
            r@ == message_text(*self),
    {
        let mut texts: Vec<String> = Vec::new();
        let n = self.content.len();
        for i in 0..n
            invariant
                n == self.content@.len(),
                views(texts@) == block_texts(self.content@.take(i as int)),
        {
            assert(self.content@.take(i + 1).drop_last() =~= self.content@.take(i as int));
            assert(self.content@.take(i + 1).last() == self.content@[i as int]);
            match self.content[i].as_text() {
                Some(t) => {
                    let ghost before = texts@;
                    let s = crate::text::owned(t);
                    texts.push(s);
                    proof {
                        crate::text::lemma_views_push(before, s);
                    }
                },
                None => {},
            }
        }
        assert(self.content@.take(n as int) =~= self.content@);
        crate::text::join_strings(&texts, "\n")
    }
}

// ── Interactions ─────────────────────────────────────────────────────────────

#[derive(Debug)]
pub struct Interaction {
    pub id: String,
    pub chat_id: String,
    pub status: String,
    pub created_at: Option<String>,
    pub interaction_mode: Option<String>,
    pub model_choice: Option<String>,
    pub data_sources: Vec<serde_json::Value>,
    pub feedback: Option<String>,
    pub feedback_description: Option<String>,
    pub responses: Option<Vec<Message>>,
}

/// The texts of the assistant's messages that are not empty, in order.
pub open spec fn assistant_texts(msgs: Seq<Message>) -> Seq<Seq<char>>
    decreases msgs.len(),
{
    if msgs.len() == 0 {
        seq![]
    } else {
        let m = msgs.last();
        if m.role@ == "assistant"@ && message_text(m).len() > 0 {
            assistant_texts(msgs.drop_last()).push(message_text(m))
        } else {
            assistant_texts(msgs.drop_last())
        }
    }
}

/// What the assistant answered: its non-empty messages joined by blank
/// lines; `None` without responses or when none has text.
pub open spec fn spec_assistant_text(i: Interaction) -> Option<Seq<char>> {
    match i.responses {
        Some(msgs) => if assistant_texts(msgs@).len() == 0 {
            None
        } else {
            Some(join(assistant_texts(msgs@), "\n\n"@))
        },
        None => None,
    }
}

impl Interaction {
    /// Whether the interaction completed (status in any ASCII case).
    pub fn is_completed(&self) -> (r: bool)
        ensures
            r == eq_ignore_case(self.status@, "completed"@),
    {
        crate::text::eq_ignore_case_str(self.status.as_str(), "completed")
    }

    /// Whether the interaction failed.
    pub fn is_error(&self) -> (r: bool)
        ensures
            r == eq_ignore_case(self.status@, "error"@),
    {
        crate::text::eq_ignore_case_str(self.status.as_str(), "error")
    }

    /// Whether the interaction was stopped.
    pub fn is_stopped(&self) -> (r: bool)
        ensures
            r == eq_ignore_case(self.status@, "stopped"@),
    {
        crate::text::eq_ignore_case_str(self.status.as_str(), "stopped")
    }

    /// Whether the interaction is over: completed, failed or stopped.
    pub fn is_terminal(&self) -> (r: bool)
        ensures
            r == (eq_ignore_case(self.status@, "completed"@) || eq_ignore_case(
                self.status@,
                "error"@,
            ) || eq_ignore_case(self.status@, "stopped"@)),
    {
        self.is_completed() || self.is_error() || self.is_stopped()
    }

    /// The assistant's answer: its non-empty messages joined by blank lines.
    pub fn assistant_text(&self) -> (r: Option<String>)
        ensures
            crate::text::field_view(r) == spec_assistant_text(*self),
    {
        match &self.responses {
            Some(msgs) => {
                let mut texts: Vec<String> = Vec::new();
                let n = msgs.len();
                for i in 0..n
                    invariant
                        n == msgs@.len(),
                        views(texts@) == assistant_texts(msgs@.take(i as int)),
                {
                    assert(msgs@.take(i + 1).drop_last() =~= msgs@.take(i as int));
                    assert(msgs@.take(i + 1).last() == msgs@[i as int]);
                    let m = &msgs[i];
                    let is_assistant = crate::text::chars_eq_str(
                        &crate::text::chars_of(m.role.as_str()),
                        "assistant",
                    );
                    if is_assistant {
                        let t = m.text_content();
                        if t.unicode_len() > 0 {
                            let ghost before = texts@;
                            texts.push(t);
                            proof {
                                crate::text::lemma_views_push(before, t);
                            }
                        }
                    }
                }
                assert(msgs@.take(n as int) =~= msgs@);
                if texts.len() == 0 {
                    None
                } else {
                    Some(crate::text::join_strings(&texts, "\n\n"))
                }
            },
            None => None,
        }
    }
}

#[derive(Debug)]
pub struct ChatWithMessages {
    pub id: String,
    pub title: String,
    pub messages: Vec<Message>,
    pub interactions: Vec<Interaction>,
}

#[derive(Debug)]
pub struct Artifact {
    pub id: Option<String>,
    pub download_url: Option<String>,
    pub filename: Option<String>,
    pub content_type: Option<String>,
    pub size: Option<u64>,
    pub created_at: Option<String>,
    pub artifact_type: Option<String>,
}

// ── Requests ─────────────────────────────────────────────────────────────────

/// The Olly API, over a client that owns its connection.
pub struct OllyApi<C> {
    client: C,
}

impl<C> OllyApi<C> {
    pub fn new(client: C) -> (r: Self)
        ensures
            r.client() == client,
    {
        Self { client }
    }

    pub closed spec fn client(&self) -> C {
        self.client
    }

    /// The client requests are sent with.
    pub fn client_ref(&self) -> (r: &C)
        ensures
            *r == self.client(),
    {
        &self.client
    }

    /// `POST {CHATS_BASE}/` with `{"chat_type": "cli"}`.
    pub fn create_chat_request(&self) -> (r: ApiRequest)
        ensures
            r.method == Method::Post,
            r.path@ == CHATS_BASE@ + "/"@,
            r.query@.len() == 0,
    {
        ApiRequest::new(Method::Post, CHATS_BASE, "/")
    }

    /// `GET {CHATS_BASE}/{chat_id}?response_format=CONTENT_BLOCKS`.
    pub fn get_chat_request(&self, chat_id: &str) -> (r: ApiRequest)
        ensures
            r.method == Method::Get,
            r.path@ == CHATS_BASE@ + "/"@ + chat_id@,
            r.query@.len() == 1,
            r.query@[0].0@ == "response_format"@,
            r.query@[0].1@ == "CONTENT_BLOCKS"@,
    {
        let mut r = ApiRequest::with_id(Method::Get, CHATS_BASE, chat_id);
        r.push_query("response_format", "CONTENT_BLOCKS");
        r
    }

    /// `POST {CHATS_BASE}/{chat_id}/interactions/`.
    pub fn send_message_request(&self, chat_id: &str) -> (r: ApiRequest)
        ensures
            r.method == Method::Post,
            r.path@ == CHATS_BASE@ + "/"@ + chat_id@ + "/interactions/"@,
            r.query@.len() == 0,
    {
        ApiRequest::with_segment(Method::Post, CHATS_BASE, chat_id, "/interactions/")
    }

    /// `GET {CHATS_BASE}/{chat_id}/interactions/{interaction_id}`.
    pub fn get_interaction_request(&self, chat_id: &str, interaction_id: &str) -> (r: ApiRequest)
        ensures
            r.method == Method::Get,
            r.path@ == CHATS_BASE@ + "/"@ + chat_id@ + "/interactions/"@ + interaction_id@,
            r.query@.len() == 0,
    {
        let mut r = ApiRequest::with_segment(Method::Get, CHATS_BASE, chat_id, "/interactions/");
        r.path.append(interaction_id);
        r
    }

    /// `GET {ARTIFACTS_BASE}/`.
    pub fn list_artifacts_request(&self) -> (r: ApiRequest)
        ensures
            r.method == Method::Get,
            r.path@ == ARTIFACTS_BASE@ + "/"@,
            r.query@.len() == 0,
    {
        ApiRequest::new(Method::Get, ARTIFACTS_BASE, "/")
    }

    /// `GET {ARTIFACTS_BASE}/{artifact_id}`.
    pub fn get_artifact_request(&self, artifact_id: &str) -> (r: ApiRequest)
        ensures
            r.method == Method::Get,
            r.path@ == ARTIFACTS_BASE@ + "/"@ + artifact_id@,
            r.query@.len() == 0,
    {
        ApiRequest::with_id(Method::Get, ARTIFACTS_BASE, artifact_id)
    }
}

// ── Artifact content ─────────────────────────────────────────────────────────

/// What downloaded artifact content comes to.
#[derive(Debug)]
pub enum ArtifactContent {
    /// Text that can be shown in a terminal.
    Text(String),
    Binary,
}

/// What `flate2::read::GzDecoder` reads to the end from `data`: the
/// decompressed bytes of its first gzip member, `None` when it fails.
pub uninterp spec fn spec_gunzip(data: Seq<u8>) -> Option<Seq<u8>>;

/// `GzDecoder::new(data)` then `read_to_end`. The result is a function of
/// the input alone, named `spec_gunzip`. The decoder first reads a ten-byte
/// header that must start with the gzip magic bytes `1f 8b`, so shorter
/// input, or input without them, fails.
#[verifier::external_body]
fn decompress_gzip(data: &[u8]) -> (r: Option<Vec<u8>>)
    ensures
        match r {
            Some(v) => spec_gunzip(data@) == Some(v@),
            None => spec_gunzip(data@) is None,
        },
        (data@.len() < 10 || data@[0] != 0x1f || data@[1] != 0x8b) ==> r is None,
{
    let mut decoder = flate2::read::GzDecoder::new(data);
    let mut out = Vec::new();
    match std::io::Read::read_to_end(&mut decoder, &mut out) {
        Ok(_) => Some(out),
        Err(_) => None,
    }
}

/// `String::from_utf8`: the text the bytes encode when they are valid UTF-8.
#[verifier::external_body]
fn utf8_text(bytes: Vec<u8>) -> (r: Option<String>)
    ensures
        match r {
            Some(s) => valid_utf8(bytes@) && s@ == decode_utf8(bytes@),
            None => !valid_utf8(bytes@),
        },
{
    String::from_utf8(bytes).ok()
}

/// The bytes content stands for: decompressed when they are gzip, as they
/// came otherwise.
pub open spec fn content_bytes(bytes: Seq<u8>) -> Seq<u8> {
    match spec_gunzip(bytes) {
        Some(d) => d,
        None => bytes,
    }
}

/// Processes downloaded bytes: decompresses gzip, then keeps valid UTF-8 as
/// text; anything else is binary.
pub fn process_content(bytes: Vec<u8>) -> (r: ArtifactContent)
    ensures
        valid_utf8(content_bytes(bytes@)) ==> (r matches ArtifactContent::Text(s) && s@
            == decode_utf8(content_bytes(bytes@))),
        !valid_utf8(content_bytes(bytes@)) ==> r is Binary,
        (bytes@.len() < 10 || bytes@[0] != 0x1f || bytes@[1] != 0x8b) ==> content_bytes(bytes@)
            == bytes@,
{
    let data = match decompress_gzip(&bytes) {
        Some(d) => d,
        None => bytes,
    };
    match utf8_text(data) {
        Some(text) => ArtifactContent::Text(text),
        None => ArtifactContent::Binary,
    }
}

// ── Temp file names ──────────────────────────────────────────────────────────

pub const FNV_OFFSET: u64 = 14695981039346656037;

pub const FNV_PRIME: u64 = 1099511628211;

/// FNV-1a over the bytes, in 64 bits.
pub open spec fn fnv1a(bytes: Seq<u8>) -> u64
    decreases bytes.len(),
{
    if bytes.len() == 0 {
        FNV_OFFSET
    } else {
        (((fnv1a(bytes.drop_last()) ^ (bytes.last() as u64)) as int * FNV_PRIME as int)
            % 0x1_0000_0000_0000_0000) as u64
    }
}

/// Lower-case hexadecimal digit for `d < 16`.
pub open spec fn lower_hex_digit(d: nat) -> char {
    if d < 10 {
        (('0' as u32) + d) as char
    } else {
        (('a' as u32) + d - 10) as char
    }
}

/// The lowest `width` hexadecimal digits of `n`, most significant first.
pub open spec fn hex_fixed(n: nat, width: nat) -> Seq<char>
    decreases width,
{
    if width == 0 {
        seq![]
    } else {
        hex_fixed(n / 16, (width - 1) as nat).push(lower_hex_digit(n % 16))
    }
}

/// The first eight digits of the 64-bit FNV-1a hash written as sixteen
/// lower-case hexadecimal digits: the hash's upper half.
pub open spec fn spec_short_hash(bytes: Seq<u8>) -> Seq<char> {
    hex_fixed(fnv1a(bytes) as nat / 0x1_0000_0000, 8)
}

/// A short, stable hash of the bytes, for naming temp files.
pub fn short_hash_bytes(bytes: &[u8]) -> (r: String)
    ensures
        r@ == spec_short_hash(bytes@),
{
    let mut hash: u64 = FNV_OFFSET;
    let n = bytes.len();
    for i in 0..n
        invariant
            n == bytes@.len(),
            hash == fnv1a(bytes@.take(i as int)),
    {
        assert(bytes@.take(i + 1).drop_last() =~= bytes@.take(i as int));
        assert(bytes@.take(i + 1).last() == bytes@[i as int]);
        hash = hash ^ (bytes[i] as u64);
        hash = hash.wrapping_mul(FNV_PRIME);
    }
    assert(bytes@.take(n as int) =~= bytes@);
    let top: u64 = hash / 0x1_0000_0000;
    let mut digits: Vec<char> = Vec::new();
    let mut rest: u64 = top;
    let mut k: usize = 0;
    while k < 8
        invariant
            k <= 8,
            digits@.len() == k,
            hex_fixed(top as nat, 8) == hex_fixed(rest as nat, (8 - k) as nat) + digits@,
        decreases 8 - k,
    {
        let d = rest % 16;
        let c = if d < 10 {
            ((48 + d) as u8) as char
        } else {
            ((97 + d - 10) as u8) as char
        };
        assert(c == lower_hex_digit((rest % 16) as nat));
        let mut next: Vec<char> = Vec::new();
        next.push(c);
        let m = digits.len();
        for j in 0..m
            invariant
                m == digits@.len(),
                next@ == seq![c] + digits@.take(j as int),
        {
            next.push(digits[j]);
            assert(next@ =~= seq![c] + digits@.take((j + 1) as int));
        }
        assert(digits@.take(m as int) =~= digits@);
        assert(hex_fixed(rest as nat, (8 - k) as nat) == hex_fixed((rest / 16) as nat, (8 - k
            - 1) as nat).push(c));
        assert(hex_fixed((rest / 16) as nat, (8 - k - 1) as nat).push(c) + digits@ =~= hex_fixed(
            (rest / 16) as nat,
            (8 - k - 1) as nat,
        ) + next@);
        digits = next;
        rest = rest / 16;
        k = k + 1;
    }
    assert(hex_fixed(rest as nat, 0) =~= Seq::<char>::empty());
    assert(digits@ =~= hex_fixed(top as nat, 8));
    crate::text::string_of(&digits)
}

/// The file name text artifacts are written to:
/// `{prefix}_artifact_{artifact_id}_{hash}.txt`.
pub open spec fn spec_artifact_file_name(prefix: Seq<char>, artifact_id: Seq<char>, content: Seq<
    char,
>) -> Seq<char> {
    prefix + "_artifact_"@ + artifact_id + "_"@ + spec_short_hash(vstd::utf8::encode_utf8(content))
        + ".txt"@
}

/// The name of the temp file a text artifact is written to.
pub fn artifact_file_name(prefix: &str, artifact_id: &str, content: &str) -> (r: String)
    ensures
        r@ == spec_artifact_file_name(prefix@, artifact_id@, content@),
{
    let hash = short_hash_bytes(content.as_bytes());
    let mut r = crate::text::owned(prefix);
    r.append("_artifact_");
    r.append(artifact_id);
    r.append("_");
    r.append(hash.as_str());
    r.append(".txt");
    r
}

// ── JSON rows ────────────────────────────────────────────────────────────────

/// The JSON of an artifact.
pub open spec fn artifact_json(artifact: Artifact) -> serde_json::Value {
    json_object_of(
        seq![
            ("id"@, opt_field(artifact.id)),
            ("download_url"@, opt_field(artifact.download_url)),
            ("filename"@, opt_field(artifact.filename)),
            ("content_type"@, opt_field(artifact.content_type)),
            ("size"@, json_opt_count(match artifact.size { Some(s) => Some(s as nat), None => None })),
        ],
    )
}

/// The JSON of an artifact.
pub fn artifact_to_json(artifact: &Artifact) -> (r: serde_json::Value)
    ensures
        r == artifact_json(*artifact),
{
    let entries = vec![
        (owned("id"), opt_field_value(&artifact.id)),
        (owned("download_url"), opt_field_value(&artifact.download_url)),
        (owned("filename"), opt_field_value(&artifact.filename)),
        (owned("content_type"), opt_field_value(&artifact.content_type)),
        (owned("size"), opt_count_value(artifact.size)),
    ];
    assert(entry_views(entries@) =~= seq![
        ("id"@, opt_field(artifact.id)),
        ("download_url"@, opt_field(artifact.download_url)),
        ("filename"@, opt_field(artifact.filename)),
        ("content_type"@, opt_field(artifact.content_type)),
        ("size"@, json_opt_count(match artifact.size { Some(s) => Some(s as nat), None => None })),
    ]);
    object_of(entries)
}

/// A string entry when the text is there, nothing otherwise.
pub open spec fn opt_entry(key: Seq<char>, value: Option<Seq<char>>) -> Seq<
    (Seq<char>, serde_json::Value),
> {
    match value {
        Some(t) => seq![(key, json_string(t))],
        None => seq![],
    }
}

/// The JSON of an interaction: the chat, the interaction and its status,
/// then the assistant's answer, the mode and the model, each only when
/// there is one.
pub open spec fn interaction_json(i: Interaction, chat_id: Seq<char>) -> serde_json::Value {
    json_object_of(
        seq![
            ("chat_id"@, json_string(chat_id)),
            ("interaction_id"@, json_string(i.id@)),
            ("status"@, json_string(i.status@)),
        ] + opt_entry("response"@, spec_assistant_text(i)) + opt_entry(
            "interaction_mode"@,
            crate::text::field_view(i.interaction_mode),
        ) + opt_entry("model_choice"@, crate::text::field_view(i.model_choice)),
    )
}

fn push_opt_entry(entries: &mut Vec<(String, serde_json::Value)>, key: &str, value: Option<&str>)
    ensures
        entry_views(final(entries)@) == entry_views(old(entries)@) + opt_entry(
            key@,
            match value {
                Some(t) => Some(t@),
                None => None,
            },
        ),
{
    match value {
        Some(t) => {
            let e = (owned(key), string_value(t));
            let ghost before = entries@;
            entries.push(e);
            assert(entry_views(entries@) =~= entry_views(before) + seq![(key@, json_string(t@))]);
        },
        None => {
            assert(entry_views(entries@) =~= entry_views(entries@) + Seq::<(Seq<char>, serde_json::Value)>::empty());
        },
    }
}

/// The JSON of an interaction of a chat.
pub fn interaction_to_json(interaction: &Interaction, chat_id: &str) -> (r: serde_json::Value)
    ensures
        r == interaction_json(*interaction, chat_id@),
{
    let mut entries = vec![
        (owned("chat_id"), string_value(chat_id)),
        (owned("interaction_id"), string_value(interaction.id.as_str())),
        (owned("status"), string_value(interaction.status.as_str())),
    ];
    assert(entry_views(entries@) =~= seq![
        ("chat_id"@, json_string(chat_id@)),
        ("interaction_id"@, json_string(interaction.id@)),
        ("status"@, json_string(interaction.status@)),
    ]);
    let text = interaction.assistant_text();
    let t = match &text {
        Some(x) => Some(x.as_str()),
        None => None,
    };
    push_opt_entry(&mut entries, "response", t);
    push_opt_entry(&mut entries, "interaction_mode", crate::json::opt_str(&interaction.interaction_mode));
    push_opt_entry(&mut entries, "model_choice", crate::json::opt_str(&interaction.model_choice));
    object_of(entries)
}

// ── Downloaded content, as shown ─────────────────────────────────────────────

/// What became of an artifact's content: JSON items, a text file it was
/// written to, or nothing (no URL, or binary content).
#[derive(Debug)]
pub enum ProcessedContent {
    Json(Vec<serde_json::Value>),
    Text { path: String },
    NoContent,
}

/// The JSON items a text holds: an array's items, or the one value;
/// `None` when the text is no JSON.
pub open spec fn spec_json_content(text: Seq<char>) -> Option<Seq<serde_json::Value>> {
    match crate::json::json_parse(text) {
        Some(v) => match crate::json::json_array_items(v) {
            Some(items) => Some(items),
            None => Some(seq![v]),
        },
        None => None,
    }
}

/// The JSON items of downloaded text, or `None` when it is no JSON (and is
/// to be written to a file instead).
pub fn json_content(text: &str) -> (r: Option<Vec<serde_json::Value>>)
    ensures
        match r {
            Some(items) => spec_json_content(text@) == Some(items@),
            None => spec_json_content(text@) is None,
        },
{
    match crate::json::parse_json(text) {
        Some(v) => match crate::json::array_items(&v) {
            Some(items) => Some(items),
            None => {
                let items = vec![v];
                assert(items@ =~= seq![v]);
                Some(items)
            },
        },
        None => None,
    }
}

/// The artifact's description followed by what its content came to.
pub open spec fn artifact_response_json(a: Artifact, p: ProcessedContent) -> serde_json::Value {
    json_object_of(
        seq![
            ("id"@, opt_field(a.id)),
            ("filename"@, opt_field(a.filename)),
            ("content_type"@, opt_field(a.content_type)),
            ("size"@, json_opt_count(match a.size {
                Some(s) => Some(s as nat),
                None => None,
            })),
        ] + match p {
            ProcessedContent::Json(items) => seq![("content"@, json_array(items@))],
            ProcessedContent::Text { path } => seq![("file"@, json_string(path@))],
            ProcessedContent::NoContent => seq![("content"@, json_opt_string(None))],
        },
    )
}

/// The JSON answer of `cx olly artifacts get`: the artifact and its
/// content, the file it was written to, or `null`.
pub fn artifact_response(artifact: &Artifact, processed: ProcessedContent) -> (r: serde_json::Value)
    ensures
        r == artifact_response_json(*artifact, processed),
{
    let mut entries = vec![
        (owned("id"), opt_field_value(&artifact.id)),
        (owned("filename"), opt_field_value(&artifact.filename)),
        (owned("content_type"), opt_field_value(&artifact.content_type)),
        (owned("size"), opt_count_value(artifact.size)),
    ];
    let ghost head = entry_views(entries@);
    let ghost pv = processed;
    match processed {
        ProcessedContent::Json(items) => {
            entries.push((owned("content"), array_of(items)));
        },
        ProcessedContent::Text { path } => {
            entries.push((owned("file"), string_value(path.as_str())));
        },
        ProcessedContent::NoContent => {
            entries.push((owned("content"), opt_string_value(None)));
        },
    }
    assert(entry_views(entries@) =~= seq![
        ("id"@, opt_field(artifact.id)),
        ("filename"@, opt_field(artifact.filename)),
        ("content_type"@, opt_field(artifact.content_type)),
        ("size"@, json_opt_count(match artifact.size {
            Some(s) => Some(s as nat),
            None => None,
        })),
    ] + match pv {
        ProcessedContent::Json(items) => seq![("content"@, json_array(items@))],
        ProcessedContent::Text { path } => seq![("file"@, json_string(path@))],
        ProcessedContent::NoContent => seq![("content"@, json_opt_string(None))],
    });
    object_of(entries)
}

/// The short answer for agents when the content is no JSON: the artifact,
/// then the file the text went to, or `null`.
pub open spec fn artifact_agents_json(a: Artifact, path: Option<Seq<char>>) -> serde_json::Value {
    json_object_of(
        seq![("id"@, opt_field(a.id)), ("filename"@, opt_field(a.filename))] + match path {
            Some(p) => seq![("file"@, json_string(p))],
            None => seq![("content"@, json_opt_string(None))],
        },
    )
}

/// The short answer for agents about an artifact whose content is no JSON.
pub fn artifact_agents_response(artifact: &Artifact, path: Option<&str>) -> (r: serde_json::Value)
    ensures
        r == artifact_agents_json(
            *artifact,
            match path {
                Some(p) => Some(p@),
                None => None,
            },
        ),
{
    let mut entries = vec![
        (owned("id"), opt_field_value(&artifact.id)),
        (owned("filename"), opt_field_value(&artifact.filename)),
    ];
    let ghost head = entry_views(entries@);
    match path {
        Some(p) => {
            entries.push((owned("file"), string_value(p)));
        },
        None => {
            entries.push((owned("content"), opt_string_value(None)));
        },
    }
    assert(entry_views(entries@) =~= seq![("id"@, opt_field(artifact.id)), ("filename"@, opt_field(artifact.filename))] + match path {
        Some(p) => seq![("file"@, json_string(p@))],
        None => seq![("content"@, json_opt_string(None))],
    });
    object_of(entries)
}


// ── Text output ──────────────────────────────────────────────────────────────

/// A size in bytes as the artifact table shows it: `<n> B`, or `-`.
pub open spec fn size_cell(size: Option<u64>) -> Seq<char> {
    match size {
        Some(n) => crate::text::decimal_nat(n as nat) + " B"@,
        None => "-"@,
    }
}

/// An artifact as a row of the artifact table: id, file name, type, size
/// and creation time, `-` for each that is absent.
pub open spec fn artifact_row(a: Artifact) -> Seq<Seq<char>> {
    seq![
        crate::text::value_or_dash(crate::text::field_view(a.id)),
        crate::text::value_or_dash(crate::text::field_view(a.filename)),
        crate::text::value_or_dash(crate::text::field_view(a.artifact_type)),
        size_cell(a.size),
        crate::text::value_or_dash(crate::text::field_view(a.created_at)),
    ]
}

/// The header of the artifact table.
pub open spec fn artifact_header() -> Seq<Seq<char>> {
    seq!["ID"@, "FILENAME"@, "TYPE"@, "SIZE"@, "CREATED"@]
}

/// The header of the artifact table.
pub fn artifact_table_header() -> (r: Vec<String>)
    ensures
        views(r@) == artifact_header(),
{
    let r = vec![owned("ID"), owned("FILENAME"), owned("TYPE"), owned("SIZE"), owned("CREATED")];
    assert(views(r@) =~= artifact_header());
    r
}

/// One artifact as a row of the artifact table.
pub fn artifact_table_row(a: &Artifact) -> (r: Vec<String>)
    ensures
        views(r@) == artifact_row(*a),
{
    let size = match a.size {
        Some(n) => {
            let mut t = crate::text::decimal_u64(n);
            crate::text::push_str(&mut t, " B");
            t
        },
        None => owned("-"),
    };
    let r = vec![
        owned(crate::text::field_or_dash(&a.id)),
        owned(crate::text::field_or_dash(&a.filename)),
        owned(crate::text::field_or_dash(&a.artifact_type)),
        size,
        owned(crate::text::field_or_dash(&a.created_at)),
    ];
    assert(views(r@) =~= artifact_row(*a));
    r
}

/// The rows of the artifact table, one per artifact in order.
pub fn artifact_table_rows(artifacts: &[Artifact]) -> (r: Vec<Vec<String>>)
    ensures
        r@.len() == artifacts@.len(),
        forall|i: int| 0 <= i < artifacts@.len() ==> views(#[trigger] r@[i]@) == artifact_row(artifacts@[i]),
{
    let mut out: Vec<Vec<String>> = Vec::new();
    let n = artifacts.len();
    for i in 0..n
        invariant
            n == artifacts@.len(),
            out@.len() == i,
            forall|j: int| 0 <= j < i ==> views(#[trigger] out@[j]@) == artifact_row(artifacts@[j]),
    {
        out.push(artifact_table_row(&artifacts[i]));
    }
    out
}

/// The header lines shown above an artifact's content: `Artifact ID:`,
/// `Filename:`, `Type:` and `Size:` (in bytes), each only when known, as
/// label and value.
pub open spec fn artifact_header_lines(a: Artifact) -> Seq<(Seq<char>, Seq<char>)> {
    (match a.id {
        Some(v) => seq![("Artifact ID:"@, v@)],
        None => seq![],
    }) + (match a.filename {
        Some(v) => seq![("Filename:"@, v@)],
        None => seq![],
    }) + (match a.content_type {
        Some(v) => seq![("Type:"@, v@)],
        None => seq![],
    }) + (match a.size {
        Some(n) => seq![("Size:"@, crate::text::decimal_nat(n as nat) + " bytes"@)],
        None => seq![],
    })
}

/// The labelled header lines of an artifact's text output.
pub fn artifact_text_header(a: &Artifact) -> (r: Vec<(String, String)>)
    ensures
        r@.map_values(|l: (String, String)| (l.0@, l.1@)) == artifact_header_lines(*a),
{
    let mut out: Vec<(String, String)> = Vec::new();
    if let Some(v) = &a.id {
        out.push((owned("Artifact ID:"), owned(v.as_str())));
    }
    if let Some(v) = &a.filename {
        out.push((owned("Filename:"), owned(v.as_str())));
    }
    if let Some(v) = &a.content_type {
        out.push((owned("Type:"), owned(v.as_str())));
    }
    if let Some(n) = a.size {
        let mut t = crate::text::decimal_u64(n);
        crate::text::push_str(&mut t, " bytes");
        out.push((owned("Size:"), t));
    }
    assert(out@.map_values(|l: (String, String)| (l.0@, l.1@)) =~= artifact_header_lines(*a));
    out
}

} // verus!
