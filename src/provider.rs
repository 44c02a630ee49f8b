//! The Ollama vision provider: its configuration, what it reports of itself,
//! and the steps of an analysis that decide rather than wait on I/O.

use vstd::prelude::*;
use crate::error::AnalysisError;
use crate::reply_text::{chars_of, copy_range, lemma_trim_unchanged, string_of, trim, trim_chars};
use crate::repair::{json_is_object, json_keys, json_str_at};
use crate::sampling::{sample_frames, sampled};

verus! {

#[verifier::external_type_specification]
#[verifier::external_body]
pub struct ExClient(reqwest::Client);

/// The endpoint a new provider talks to.
pub const DEFAULT_BASE_URL: &'static str = "http://100.82.18.91:11434";

/// The model a new provider asks for.
pub const DEFAULT_MODEL: &'static str = "qwen3-vl:32b";

/// The most frames that one analysis sends.
pub const MAX_FRAMES: usize = 30;

/// The input token budget that the provider reports.
pub const MAX_INPUT_TOKENS: u32 = 128000;

/// The longest frame, in bytes, whose base64 text still has a `usize` length.
pub const MAX_ENCODABLE: usize = usize::MAX / 4 * 3;

/// The name under which the provider is registered.
pub const PROVIDER_NAME: &'static str = "ollama";

/// The path of the chat call under the endpoint.
pub const CHAT_PATH: &'static str = "/api/chat";

/// The instruction sent with every batch of frames: the summary's JSON schema
/// and the demand for bare JSON.
pub const PROMPT: &'static str = "请分析这些屏幕截图，识别用户的活动并输出 严格 JSON（不要多余文本，不要 markdown）。\n\nJSON schema:\n{\n  \"title\": \"10字以内\",\n  \"summary\": \"50-100字\",\n  \"tags\": [\n    {\"category\":\"work|communication|learning|personal|idle|other\",\"confidence\":0.0,\"keywords\":[\"...\"]}\n  ],\n  \"key_moments\": [\n    {\"time\":\"MM:SS\",\"description\":\"...\",\"importance\":1}\n  ],\n  \"productivity_score\": 0,\n  \"focus_score\": 0\n}\n\n只返回 JSON。";

/// The standard base64 text (RFC 4648 alphabet, padded) of `bytes`.
pub uninterp spec fn base64_standard(bytes: Seq<u8>) -> Seq<char>;

/// Relies on base64's `general_purpose::STANDARD.encode`: the standard padded
/// text, four characters for each started group of three bytes. It panics
/// where that length overflows `usize`.
#[verifier::external_body]
fn base64_encode(bytes: &[u8]) -> (r: String)
    requires
        4 * ((bytes@.len() + 2) / 3) <= usize::MAX,
    ensures
        r@ == base64_standard(bytes@),
        r@.len() == 4 * ((bytes@.len() + 2) / 3),
{
    base64::Engine::encode(&base64::engine::general_purpose::STANDARD, bytes)
}

/// Relies on `serde_json::Value::get` and `as_str`: the string under `key`
/// of an object; nothing where the value is no object or lacks the key.
#[verifier::external_body]
fn json_str_field(v: &serde_json::Value, key: &str) -> (r: Option<String>)
    ensures
        json_str_at(*v, key@) == match r {
            Some(s) => Some(s@),
            None => None,
        },
        !json_is_object(*v) ==> r is None,
        json_is_object(*v) && !json_keys(*v).contains(key@) ==> r is None,
{
    v.get(key).and_then(serde_json::Value::as_str).map(str::to_string)
}

/// `s` without the slashes it ends with.
pub open spec fn strip_trailing_slashes(s: Seq<char>) -> Seq<char>
    decreases s.len(),
{
    if s.len() > 0 && s.last() == '/' {
        strip_trailing_slashes(s.drop_last())
    } else {
        s
    }
}

/// The chat address under the endpoint `base`.
pub open spec fn chat_url_of(base: Seq<char>) -> Seq<char> {
    strip_trailing_slashes(base) + CHAT_PATH@
}

/// An endpoint counts as set when it holds more than whitespace.
pub open spec fn endpoint_set(base: Seq<char>) -> bool {
    trim(base).len() > 0
}

/// The image formats that the provider reports.
pub open spec fn image_formats() -> Seq<Seq<char>> {
    seq![seq!['j', 'p', 'g'], seq!['j', 'p', 'e', 'g'], seq!['p', 'n', 'g']]
}

/// The characters of each string of `v`.
pub open spec fn views_of(v: Seq<String>) -> Seq<Seq<char>> {
    v.map_values(|s: String| s@)
}

/// What a provider reports it can do.
#[derive(Clone, Debug)]
pub struct ProviderCapabilities {
    pub vision_support: bool,
    pub batch_analysis: bool,
    pub streaming: bool,
    pub max_input_tokens: u32,
    pub supported_image_formats: Vec<String>,
}

/// The descriptor of this provider: vision and batches, no streaming, the
/// fixed token budget, and jpg, jpeg and png images.
pub open spec fn is_ollama_capabilities(c: &ProviderCapabilities) -> bool {
    &&& c.vision_support
    &&& c.batch_analysis
    &&& !c.streaming
    &&& c.max_input_tokens == MAX_INPUT_TOKENS
    &&& views_of(c.supported_image_formats@) == image_formats()
}

/// Every descriptor that `capabilities` may return says the same, whatever
/// the provider and its configuration: repeated calls agree.
pub proof fn lemma_capabilities_fixed(a: &ProviderCapabilities, b: &ProviderCapabilities)
    requires
        is_ollama_capabilities(a),
        is_ollama_capabilities(b),
    ensures
        a.vision_support == b.vision_support,
        a.batch_analysis == b.batch_analysis,
        a.streaming == b.streaming,
        a.max_input_tokens == b.max_input_tokens,
        views_of(a.supported_image_formats@) == views_of(b.supported_image_formats@),
{
}

/// One turn of a chat request.
#[derive(Clone, Debug)]
pub struct ChatMessage {
    pub role: String,
    pub content: String,
    pub images: Option<Vec<String>>,
}

/// A chat request to the service.
#[derive(Clone, Debug)]
pub struct ChatRequest {
    pub model: String,
    pub stream: bool,
    pub messages: Vec<ChatMessage>,
}

/// The provider: an HTTP client, the endpoint and model, whether the endpoint
/// is set, and the session that analyses belong to.
pub struct OllamaProvider {
    client: reqwest::Client,
    base_url: String,
    model: String,
    configured: bool,
    session_id: Option<i64>,
}

impl OllamaProvider {
    /// The endpoint address.
    pub closed spec fn spec_base_url(&self) -> Seq<char> {
        self.base_url@
    }

    /// The model identifier.
    pub closed spec fn spec_model(&self) -> Seq<char> {
        self.model@
    }

    /// Whether the provider counts as configured.
    pub closed spec fn spec_configured(&self) -> bool {
        self.configured
    }

    /// The session that analyses are attached to.
    pub closed spec fn spec_session_id(&self) -> Option<i64> {
        self.session_id
    }

    /// The flag agrees with the endpoint.
    pub open spec fn wf(&self) -> bool {
        self.spec_configured() == endpoint_set(self.spec_base_url())
    }

    /// A provider on `client` with the default endpoint and model; it is
    /// configured from the start.
    pub fn new(client: reqwest::Client) -> (r: Self)
        ensures
            r.spec_base_url() == DEFAULT_BASE_URL@,
            r.spec_model() == DEFAULT_MODEL@,
            r.spec_configured(),
            r.spec_session_id() is None,
            r.wf(),
    {
        let base_url = DEFAULT_BASE_URL.to_string();
        proof {
            reveal_strlit("http://100.82.18.91:11434");
            lemma_trim_unchanged(base_url@);
        }
        OllamaProvider {
            client,
            base_url,
            model: DEFAULT_MODEL.to_string(),
            configured: true,
            session_id: None,
        }
    }

    /// The HTTP client that chat calls go through.
    pub fn client(&self) -> &reqwest::Client {
        &self.client
    }

    /// Attaches the provider to a session.
    pub fn set_session_id(&mut self, session_id: i64)
        ensures
            final(self).spec_session_id() == Some(session_id),
            final(self).spec_base_url() == old(self).spec_base_url(),
            final(self).spec_model() == old(self).spec_model(),
            final(self).spec_configured() == old(self).spec_configured(),
    {
        self.session_id = Some(session_id);
    }

    /// The session the provider is attached to, if any.
    pub fn session_id(&self) -> (r: Option<i64>)
        ensures
            r == self.spec_session_id(),
    {
        self.session_id
    }

    /// The endpoint address.
    pub fn base_url(&self) -> (r: &str)
        ensures
            r@ == self.spec_base_url(),
    {
        self.base_url.as_str()
    }

    /// The model identifier.
    pub fn model(&self) -> (r: &str)
        ensures
            r@ == self.spec_model(),
    {
        self.model.as_str()
    }

    /// Takes the endpoint and the model that are given, keeps the others, and
    /// counts the provider as configured exactly when the endpoint holds more
    /// than whitespace.
    pub fn configure_with(&mut self, base_url: Option<String>, model: Option<String>)
        ensures
            final(self).spec_base_url() == match base_url {
                Some(u) => u@,
                None => old(self).spec_base_url(),
            },
            final(self).spec_model() == match model {
                Some(m) => m@,
                None => old(self).spec_model(),
            },
            final(self).spec_configured() == endpoint_set(final(self).spec_base_url()),
            final(self).spec_session_id() == old(self).spec_session_id(),
            final(self).wf(),
    {
        if let Some(u) = base_url {
            self.base_url = u;
        }
        if let Some(m) = model {
            self.model = m;
        }
        self.configured = endpoint_is_set(&self.base_url);
    }

    /// Reads the string keys `base_url` and `model` of a configuration
    /// object; other keys, and keys that hold no string, change nothing.
    pub fn configure(&mut self, config: serde_json::Value) -> (r: Result<(), AnalysisError>)
        ensures
            r is Ok,
            final(self).spec_base_url() == match json_str_at(config, "base_url"@) {
                Some(u) => u,
                None => old(self).spec_base_url(),
            },
            final(self).spec_model() == match json_str_at(config, "model"@) {
                Some(m) => m,
                None => old(self).spec_model(),
            },
            final(self).spec_configured() == endpoint_set(final(self).spec_base_url()),
            final(self).spec_session_id() == old(self).spec_session_id(),
            final(self).wf(),
    {
        let base_url = json_str_field(&config, "base_url");
        let model = json_str_field(&config, "model");
        self.configure_with(base_url, model);
        Ok(())
    }

    /// Whether an endpoint is set.
    pub fn is_configured(&self) -> (r: bool)
        ensures
            r == self.spec_configured(),
    {
        self.configured
    }

    /// The name of the provider.
    pub fn name(&self) -> (r: &str)
        ensures
            r@ == PROVIDER_NAME@,
    {
        PROVIDER_NAME
    }

    /// What the provider can do; the same on every call.
    pub fn capabilities(&self) -> (r: ProviderCapabilities)
        ensures
            is_ollama_capabilities(&r),
    {
        let mut formats: Vec<String> = Vec::new();
        formats.push("jpg".to_string());
        formats.push("jpeg".to_string());
        formats.push("png".to_string());
        proof {
            reveal_strlit("jpg");
            reveal_strlit("jpeg");
            reveal_strlit("png");
            assert(formats@[0]@ =~= seq!['j', 'p', 'g']);
            assert(formats@[1]@ =~= seq!['j', 'p', 'e', 'g']);
            assert(formats@[2]@ =~= seq!['p', 'n', 'g']);
            assert(views_of(formats@) =~= image_formats());
        }
        ProviderCapabilities {
            vision_support: true,
            batch_analysis: true,
            streaming: false,
            max_input_tokens: MAX_INPUT_TOKENS,
            supported_image_formats: formats,
        }
    }

    /// The instruction text, the same on every call.
    pub fn build_prompt(&self) -> (r: String)
        ensures
            r@ == PROMPT@,
    {
        PROMPT.to_string()
    }

    /// The address of the chat call: the endpoint without trailing slashes,
    /// then the chat path.
    pub fn chat_url(&self) -> (r: String)
        ensures
            r@ == chat_url_of(self.spec_base_url()),
    {
        let cs = chars_of(self.base_url.as_str());
        let mut hi: usize = cs.len();
        assert(cs@.subrange(0, hi as int) =~= cs@);
        while hi > 0 && cs[hi - 1] == '/'
            invariant
                hi <= cs@.len(),
                strip_trailing_slashes(cs@) == strip_trailing_slashes(cs@.subrange(0, hi as int)),
            decreases hi,
        {
            assert(cs@.subrange(0, hi as int).drop_last() =~= cs@.subrange(0, hi - 1));
            hi -= 1;
        }
        let kept = copy_range(cs.as_slice(), 0, hi);
        let mut url = string_of(kept.as_slice());
        url.append(CHAT_PATH);
        url
    }

    /// The request for one batch: the model, no streaming, and one user turn
    /// with the instruction text and the images in their order.
    pub fn chat_request(&self, images_b64: Vec<String>) -> (r: ChatRequest)
        ensures
            r.model@ == self.spec_model(),
            !r.stream,
            r.messages@.len() == 1,
            r.messages@[0].role@ == seq!['u', 's', 'e', 'r'],
            r.messages@[0].content@ == PROMPT@,
            r.messages@[0].images == Some(images_b64),
    {
        let role = "user".to_string();
        proof {
            reveal_strlit("user");
        }
        let mut messages: Vec<ChatMessage> = Vec::new();
        messages.push(
            ChatMessage { role, content: self.build_prompt(), images: Some(images_b64) },
        );
        ChatRequest { model: self.model.clone(), stream: false, messages }
    }

    /// The frames that an analysis sends: none and an error while no endpoint
    /// is set, else at most `MAX_FRAMES` of them, spread and in order.
    pub fn plan_frames(&self, frames: &[String]) -> (r: Result<Vec<String>, AnalysisError>)
        ensures
            !self.spec_configured() ==> r matches Err(AnalysisError::NotConfigured),
            self.spec_configured() ==> (r matches Ok(v) && v@ == sampled(
                frames@,
                MAX_FRAMES as nat,
            )),
    {
        if !self.configured {
            return Err(AnalysisError::NotConfigured);
        }
        Ok(sample_frames(frames, MAX_FRAMES))
    }
}

/// Whether the endpoint `base` holds more than whitespace.
fn endpoint_is_set(base: &String) -> (r: bool)
    ensures
        r == endpoint_set(base@),
{
    let cs = chars_of(base.as_str());
    trim_chars(cs.as_slice()).len() > 0
}

/// A frame of this size can be encoded.
pub open spec fn encodable(b: Seq<u8>) -> bool {
    b.len() <= MAX_ENCODABLE
}

/// The base64 texts of the frames that were read and can be encoded, in order.
pub open spec fn encoded_frames(reads: Seq<Option<Vec<u8>>>) -> Seq<Seq<char>>
    decreases reads.len(),
{
    if reads.len() == 0 {
        Seq::empty()
    } else {
        let rest = encoded_frames(reads.drop_last());
        match reads.last() {
            Some(b) => if encodable(b@) {
                rest.push(base64_standard(b@))
            } else {
                rest
            },
            None => rest,
        }
    }
}

/// Where no frame could be read, as where there were none, nothing is left
/// to send.
pub proof fn lemma_unreadable_batch_is_empty(reads: Seq<Option<Vec<u8>>>)
    requires
        forall|i: int| 0 <= i < reads.len() ==> reads[i] is None,
    ensures
        encoded_frames(reads).len() == 0,
    decreases reads.len(),
{
    if reads.len() > 0 {
        lemma_unreadable_batch_is_empty(reads.drop_last());
    }
}

/// The base64 text of one frame's bytes, or nothing where the frame is too
/// large to encode.
pub fn encode_image(bytes: &[u8]) -> (r: Option<String>)
    ensures
        encodable(bytes@) ==> (r matches Some(s) && s@ == base64_standard(bytes@) && s@.len() == 4
            * ((bytes@.len() + 2) / 3)),
        !encodable(bytes@) ==> r is None,
{
    if bytes.len() > MAX_ENCODABLE {
        return None;
    }
    proof {
        let n = bytes@.len() as int;
        let q = usize::MAX as int / 4;
        assert(n <= 3 * q);
        vstd::arithmetic::div_mod::lemma_div_is_ordered(n + 2, 3 * q + 2, 3);
        vstd::arithmetic::div_mod::lemma_fundamental_div_mod(3 * q + 2, 3);
        assert((3 * q + 2) / 3 == q);
        assert(4 * q <= usize::MAX);
    }
    Some(base64_encode(bytes))
}

/// Encodes the frames that could be read, in their order, skipping those that
/// could not; fails with `NoUsableFrames` where nothing is left, so that no
/// request goes out.
pub fn encode_frames(reads: Vec<Option<Vec<u8>>>) -> (r: Result<Vec<String>, AnalysisError>)
    ensures
        encoded_frames(reads@).len() == 0 ==> r matches Err(AnalysisError::NoUsableFrames),
        encoded_frames(reads@).len() > 0 ==> (r matches Ok(v) && views_of(v@) == encoded_frames(
            reads@,
        )),
{
    let mut out: Vec<String> = Vec::new();
    let mut i: usize = 0;
    while i < reads.len()
        invariant
            i <= reads@.len(),
            views_of(out@) == encoded_frames(reads@.subrange(0, i as int)),
        decreases reads.len() - i,
    {
        assert(reads@.subrange(0, i + 1).drop_last() =~= reads@.subrange(0, i as int));
        match &reads[i] {
            Some(bytes) => {
                if let Some(s) = encode_image(bytes.as_slice()) {
                    out.push(s);
                }
            },
            None => {},
        }
        assert(views_of(out@) =~= encoded_frames(reads@.subrange(0, i + 1)));
        i += 1;
    }
    assert(reads@.subrange(0, reads@.len() as int) =~= reads@);
    if out.len() == 0 {
        return Err(AnalysisError::NoUsableFrames);
    }
    Ok(out)
}

} // verus!
