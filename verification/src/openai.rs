use vstd::prelude::*;

use crate::text::{lemma_strip_end_properties, strip_end, strip_trailing, trim, trim_text};

verus! {

/// Whether `reqwest::Url::parse` accepts the text as an absolute URL.
pub uninterp spec fn url_parses(s: Seq<char>) -> bool;

/// The text of the URL that `path` names relative to the absolute URL
/// `base`, when both parse.
pub uninterp spec fn url_join(base: Seq<char>, path: Seq<char>) -> Option<Seq<char>>;

/// Calls `reqwest::Url::parse` (the `url` crate's parser); its success is a
/// function of the text alone, named `url_parses`.
#[verifier::external_body]
fn url_is_valid(s: &str) -> (r: bool)
    ensures
        r == url_parses(s@),
{
    reqwest::Url::parse(s).is_ok()
}

/// Resolves `path` against `base` with `reqwest::Url::parse` and
/// `reqwest::Url::join` and returns the resulting URL's text (`Url::as_str`).
/// The result is a function of the two texts alone, named `url_join`.
#[verifier::external_body]
fn join_url(base: &str, path: &str) -> (r: Option<String>)
    ensures
        r is Some <==> url_join(base@, path@) is Some,
        r matches Some(u) ==> Some(u@) == url_join(base@, path@),
{
    let base = reqwest::Url::parse(base).ok()?;
    let joined = base.join(path).ok()?;
    Some(joined.as_str().to_string())
}

/// The settings of the audio API as found in the environment.
#[derive(Debug, Clone)]
pub struct OpenAiEnv {
    /// `OPENAI_API_KEY`
    pub api_key: Option<String>,
    /// `OPENAI_BASE_URL`
    pub base_url: Option<String>,
    /// `WHISPER_WRITE_TRANSCRIBE_MODEL`
    pub transcribe_model: Option<String>,
    /// `WHISPER_WRITE_TRANSLATE_MODEL`
    pub translate_model: Option<String>,
}

/// Connection settings for the audio API.
#[derive(Debug, Clone)]
pub struct OpenAiConfig {
    pub api_key: String,
    /// The base URL, ending in a single `/`.
    pub base_url: String,
    pub transcribe_model: String,
    pub translate_model: String,
}

/// Why the API settings are rejected.
#[derive(Debug, Clone, Copy, PartialEq, Eq, Structural)]
pub enum OpenAiConfigError {
    MissingApiKey,
    InvalidBaseUrl,
}

impl OpenAiConfigError {
    /// The human-readable description of the problem.
    pub fn message(&self) -> (m: &'static str)
        ensures
            m@ == match self {
                OpenAiConfigError::MissingApiKey => "OPENAI_API_KEY is not set. Provide it via environment or .env file."@,
                OpenAiConfigError::InvalidBaseUrl => "OPENAI_BASE_URL is not a valid URL"@,
            },
    {
        match self {
            OpenAiConfigError::MissingApiKey => "OPENAI_API_KEY is not set. Provide it via environment or .env file.",
            OpenAiConfigError::InvalidBaseUrl => "OPENAI_BASE_URL is not a valid URL",
        }
    }
}

/// The value of an optional setting, or its default.
pub open spec fn setting_or(v: Option<String>, default: Seq<char>) -> Seq<char> {
    match v {
        Some(s) => s@,
        None => default,
    }
}

/// The base URL as it is parsed: trailing slashes removed, then exactly one added.
pub open spec fn normalized_base_url(base: Option<String>) -> Seq<char> {
    strip_end(setting_or(base, "https://api.openai.com/v1"@), '/') + "/"@
}

fn setting_or_default(v: &Option<String>, default: &str) -> (r: String)
    ensures
        r@ == setting_or(*v, default@),
{
    match v {
        Some(s) => s.clone(),
        None => String::from_str(default),
    }
}

impl OpenAiConfig {
    /// Builds the settings from the environment: the API key is required, the
    /// base URL (default `https://api.openai.com/v1`) must parse once normalized
    /// to end in a single `/`, and the models default to `gpt-transcribe` and
    /// `whisper-1`.
    pub fn from_env(env: &OpenAiEnv) -> (r: Result<OpenAiConfig, OpenAiConfigError>)
        ensures
            env.api_key is None ==> r == Err::<OpenAiConfig, OpenAiConfigError>(OpenAiConfigError::MissingApiKey),
            env.api_key is Some && !url_parses(normalized_base_url(env.base_url))
                ==> r == Err::<OpenAiConfig, OpenAiConfigError>(OpenAiConfigError::InvalidBaseUrl),
            r is Ok <==> env.api_key is Some && url_parses(normalized_base_url(env.base_url)),
            r matches Ok(c) ==> {
                &&& c.api_key@ == env.api_key.unwrap()@
                &&& c.base_url@ == normalized_base_url(env.base_url)
                &&& c.transcribe_model@ == setting_or(env.transcribe_model, "gpt-transcribe"@)
                &&& c.translate_model@ == setting_or(env.translate_model, "whisper-1"@)
            },
    {
        let api_key = match &env.api_key {
            Some(k) => k.clone(),
            None => return Err(OpenAiConfigError::MissingApiKey),
        };
        let base = setting_or_default(&env.base_url, "https://api.openai.com/v1");
        let stripped = strip_trailing(base.as_str(), '/');
        let normalized = stripped.concat("/");
        if !url_is_valid(normalized.as_str()) {
            return Err(OpenAiConfigError::InvalidBaseUrl);
        }
        let base_url = normalized;
        let transcribe_model = setting_or_default(&env.transcribe_model, "gpt-transcribe");
        let translate_model = setting_or_default(&env.translate_model, "whisper-1");
        Ok(OpenAiConfig { api_key, base_url, transcribe_model, translate_model })
    }

    /// The model used for an endpoint.
    pub fn model_for(&self, endpoint: AudioEndpoint) -> (m: String)
        ensures
            m@ == match endpoint {
                AudioEndpoint::Transcriptions => self.transcribe_model@,
                AudioEndpoint::Translations => self.translate_model@,
            },
    {
        match endpoint {
            AudioEndpoint::Transcriptions => self.transcribe_model.clone(),
            AudioEndpoint::Translations => self.translate_model.clone(),
        }
    }
}

/// A named audio file to upload.
#[derive(Debug, Clone)]
pub struct AudioFile {
    pub name: String,
    pub bytes: Vec<u8>,
}

impl AudioFile {
    pub fn new(name: String, bytes: Vec<u8>) -> (f: AudioFile)
        ensures
            f.name == name,
            f.bytes == bytes,
    {
        AudioFile { name, bytes }
    }
}

/// The two audio endpoints of the API.
#[derive(Debug, Clone, Copy, PartialEq, Eq, Structural)]
pub enum AudioEndpoint {
    Transcriptions,
    Translations,
}

/// The path of an endpoint relative to the base URL.
pub open spec fn endpoint_path(e: AudioEndpoint) -> Seq<char> {
    match e {
        AudioEndpoint::Transcriptions => "audio/transcriptions"@,
        AudioEndpoint::Translations => "audio/translations"@,
    }
}

impl AudioEndpoint {
    /// The endpoint's path relative to the base URL.
    pub fn path(self) -> (p: &'static str)
        ensures
            p@ == endpoint_path(self),
    {
        match self {
            AudioEndpoint::Transcriptions => "audio/transcriptions",
            AudioEndpoint::Translations => "audio/translations",
        }
    }
}

/// Everything an upload of audio sends, besides the API key.
#[derive(Debug)]
pub struct AudioRequest {
    pub url: String,
    pub model: String,
    pub file_name: String,
    pub bytes: Vec<u8>,
    pub mime_type: String,
    pub response_format: String,
}

/// What to do with an audio file.
#[derive(Debug)]
pub enum AudioRequestPlan {
    /// The file is empty: the text is empty without asking the API.
    Skip,
    /// Upload the file.
    Send(AudioRequest),
}

/// Why an upload could not be prepared.
#[derive(Debug, Clone, Copy, PartialEq, Eq, Structural)]
pub enum AudioRequestError {
    /// The endpoint's path could not be resolved against the base URL.
    InvalidEndpointUrl,
}

/// Prepares the upload of `file` to `endpoint` with the endpoint's model,
/// asking for a JSON response; an empty file needs no upload.
pub fn plan_audio_request(config: &OpenAiConfig, endpoint: AudioEndpoint, file: AudioFile) -> (r: Result<AudioRequestPlan, AudioRequestError>)
    ensures
        file.bytes@.len() == 0 ==> r matches Ok(AudioRequestPlan::Skip),
        file.bytes@.len() > 0 ==> !(r matches Ok(AudioRequestPlan::Skip)),
        file.bytes@.len() > 0 ==> (r is Err <==> url_join(config.base_url@, endpoint_path(endpoint)) is None),
        r matches Err(e) ==> e == AudioRequestError::InvalidEndpointUrl,
        r matches Ok(AudioRequestPlan::Send(req)) ==> {
            &&& Some(req.url@) == url_join(config.base_url@, endpoint_path(endpoint))
            &&& req.model@ == (match endpoint {
                AudioEndpoint::Transcriptions => config.transcribe_model@,
                AudioEndpoint::Translations => config.translate_model@,
            })
            &&& req.file_name == file.name
            &&& req.bytes == file.bytes
            &&& req.mime_type@ == "audio/wav"@
            &&& req.response_format@ == "json"@
        },
{
    if file.bytes.len() == 0 {
        return Ok(AudioRequestPlan::Skip);
    }
    let model = config.model_for(endpoint);
    let url = match join_url(config.base_url.as_str(), endpoint.path()) {
        Some(u) => u,
        None => return Err(AudioRequestError::InvalidEndpointUrl),
    };
    Ok(AudioRequestPlan::Send(AudioRequest {
        url,
        model,
        file_name: file.name,
        bytes: file.bytes,
        mime_type: String::from_str("audio/wav"),
        response_format: String::from_str("json"),
    }))
}

/// The text of an API response: the `text` field, empty when absent,
/// without leading and trailing white space.
pub fn response_text(text: Option<String>) -> (r: String)
    ensures
        r@ == trim(setting_or(text, Seq::empty())),
{
    match text {
        Some(t) => trim_text(t.as_str()),
        None => {
            let e = String::new();
            proof {
                assert(e@ == Seq::<char>::empty());
            }
            trim_text(e.as_str())
        },
    }
}


/// The base URL always ends in exactly one slash.
pub proof fn lemma_base_url_single_slash(base: Option<String>)
    ensures
        ({
            let n = normalized_base_url(base);
            &&& n.len() >= 1
            &&& n.last() == '/'
            &&& (n.len() == 1 || n[n.len() - 2] != '/')
        }),
{
    let s = strip_end(setting_or(base, "https://api.openai.com/v1"@), '/');
    lemma_strip_end_properties(setting_or(base, "https://api.openai.com/v1"@), '/');
    reveal_strlit("/");
    let n = normalized_base_url(base);
    assert(n == s + "/"@);
    if s.len() > 0 {
        assert(n[n.len() - 2] == s.last());
    }
}

} // verus!
