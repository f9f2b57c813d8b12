use vstd::prelude::*;

use crate::openai::{normalized_base_url, setting_or, url_parses, OpenAiConfig, OpenAiConfigError, OpenAiEnv};
use crate::speech::{default_speech_config, lemma_default_config_valid, SpeechConfig, SpeechConfigError};

verus! {

/// Whether speech is written down as spoken or translated to English.
#[derive(Debug, Clone, Copy, PartialEq, Eq, Structural)]
pub enum Mode {
    Transcribe,
    Translate,
}

/// How recognised text reaches the active window.
#[derive(Debug, Clone, Copy, PartialEq, Eq, Structural)]
pub enum OutputMode {
    Auto,
    Type,
    Paste,
}

/// The command-line options.
#[derive(Debug, Clone, Copy, PartialEq, Eq, Structural)]
pub struct CliArgs {
    pub translate: bool,
    pub output: OutputMode,
    pub device_index: Option<usize>,
    pub daemon: bool,
    pub continuous: bool,
    pub restore_clipboard: bool,
}

/// The whole configuration of a run.
#[derive(Debug, Clone)]
pub struct AppConfig {
    pub mode: Mode,
    pub output_mode: OutputMode,
    pub device_index: Option<usize>,
    pub speech: SpeechConfig,
    pub openai: OpenAiConfig,
    pub daemon: bool,
    pub continuous: bool,
    pub restore_clipboard: bool,
}

/// Why a run could not be configured.
#[derive(Debug, Clone, Copy, PartialEq, Eq, Structural)]
pub enum AppConfigError {
    OpenAi(OpenAiConfigError),
    Speech(SpeechConfigError),
}

/// The mode the options select.
pub open spec fn mode_of(translate: bool) -> Mode {
    if translate { Mode::Translate } else { Mode::Transcribe }
}

impl AppConfig {
    /// Combines the command-line options with the API settings from the
    /// environment and the default speech settings.
    pub fn from_env_and_args(args: &CliArgs, env: &OpenAiEnv) -> (r: Result<AppConfig, AppConfigError>)
        ensures
            r is Ok <==> env.api_key is Some && url_parses(normalized_base_url(env.base_url)),
            env.api_key is None ==> r matches Err(AppConfigError::OpenAi(OpenAiConfigError::MissingApiKey)),
            env.api_key is Some && !url_parses(normalized_base_url(env.base_url))
                ==> r matches Err(AppConfigError::OpenAi(OpenAiConfigError::InvalidBaseUrl)),
            r matches Ok(c) ==> {
                &&& c.mode == mode_of(args.translate)
                &&& c.output_mode == args.output
                &&& c.device_index == args.device_index
                &&& c.speech == default_speech_config()
                &&& c.daemon == args.daemon
                &&& c.continuous == args.continuous
                &&& c.restore_clipboard == args.restore_clipboard
                &&& c.openai.api_key@ == env.api_key.unwrap()@
                &&& c.openai.base_url@ == normalized_base_url(env.base_url)
                &&& c.openai.transcribe_model@ == setting_or(env.transcribe_model, "gpt-transcribe"@)
                &&& c.openai.translate_model@ == setting_or(env.translate_model, "whisper-1"@)
            },
    {
        let openai = match OpenAiConfig::from_env(env) {
            Ok(c) => c,
            Err(e) => return Err(AppConfigError::OpenAi(e)),
        };
        let speech = SpeechConfig::default();
        proof {
            lemma_default_config_valid();
        }
        match speech.validate() {
            Ok(()) => {},
            Err(e) => return Err(AppConfigError::Speech(e)),
        }
        Ok(AppConfig {
            mode: if args.translate { Mode::Translate } else { Mode::Transcribe },
            output_mode: args.output,
            device_index: args.device_index,
            speech,
            openai,
            daemon: args.daemon,
            continuous: args.continuous,
            restore_clipboard: args.restore_clipboard,
        })
    }
}

} // verus!
