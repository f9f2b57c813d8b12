use whisper_write::config::{AppConfig, AppConfigError, CliArgs, Mode, OutputMode};
use whisper_write::openai::{
    plan_audio_request, response_text, AudioEndpoint, AudioFile, AudioRequestPlan, OpenAiConfig,
    OpenAiConfigError, OpenAiEnv,
};
use whisper_write::session::{endpoint_for_mode, segment_audio_file, segment_file_name, text_to_type};
use whisper_write::speech::{SpeechConfig, SpeechSegment};
use whisper_write::text::{char_is_whitespace, decimal_string, strip_trailing, trim_text};

fn env_with_key() -> OpenAiEnv {
    OpenAiEnv {
        api_key: Some("sk-test".to_string()),
        base_url: None,
        transcribe_model: None,
        translate_model: None,
    }
}

#[test]
fn trim_removes_surrounding_white_space() {
    assert_eq!(trim_text("  hello world \n\t"), "hello world");
    assert_eq!(trim_text("\u{3000}x\u{a0}"), "x");
    assert_eq!(trim_text("   "), "");
    assert_eq!(trim_text(""), "");
    assert_eq!(trim_text("a b"), "a b");
}

#[test]
fn strip_trailing_removes_every_trailing_occurrence() {
    assert_eq!(strip_trailing("https://x/v1///", '/'), "https://x/v1");
    assert_eq!(strip_trailing("abc", '/'), "abc");
    assert_eq!(strip_trailing("///", '/'), "");
    assert_eq!(strip_trailing("line\n\n", '\n'), "line");
}

#[test]
fn decimal_string_matches_to_string() {
    for n in [0u64, 7, 10, 42, 1000, 123456789, u64::MAX] {
        assert_eq!(decimal_string(n), n.to_string());
    }
}

#[test]
fn from_env_requires_api_key() {
    let env = OpenAiEnv { api_key: None, base_url: None, transcribe_model: None, translate_model: None };
    assert_eq!(OpenAiConfig::from_env(&env).err(), Some(OpenAiConfigError::MissingApiKey));
}

#[test]
fn from_env_defaults() {
    let c = OpenAiConfig::from_env(&env_with_key()).unwrap();
    assert_eq!(c.api_key, "sk-test");
    assert_eq!(c.base_url.as_str(), "https://api.openai.com/v1/");
    assert_eq!(c.transcribe_model, "gpt-transcribe");
    assert_eq!(c.translate_model, "whisper-1");
}

#[test]
fn from_env_normalizes_base_url() {
    let mut env = env_with_key();
    env.base_url = Some("http://localhost:8080/api//".to_string());
    env.transcribe_model = Some("m1".to_string());
    env.translate_model = Some("m2".to_string());
    let c = OpenAiConfig::from_env(&env).unwrap();
    assert_eq!(c.base_url.as_str(), "http://localhost:8080/api/");
    assert_eq!(c.transcribe_model, "m1");
    assert_eq!(c.translate_model, "m2");
}

#[test]
fn from_env_rejects_invalid_base_url() {
    let mut env = env_with_key();
    env.base_url = Some("not a url".to_string());
    assert_eq!(OpenAiConfig::from_env(&env).err(), Some(OpenAiConfigError::InvalidBaseUrl));
    assert_eq!(OpenAiConfigError::InvalidBaseUrl.message(), "OPENAI_BASE_URL is not a valid URL");
}

#[test]
fn endpoint_paths() {
    assert_eq!(AudioEndpoint::Transcriptions.path(), "audio/transcriptions");
    assert_eq!(AudioEndpoint::Translations.path(), "audio/translations");
}

#[test]
fn model_follows_endpoint() {
    let c = OpenAiConfig::from_env(&env_with_key()).unwrap();
    assert_eq!(c.model_for(AudioEndpoint::Transcriptions), "gpt-transcribe");
    assert_eq!(c.model_for(AudioEndpoint::Translations), "whisper-1");
}

#[test]
fn plan_skips_empty_audio() {
    let c = OpenAiConfig::from_env(&env_with_key()).unwrap();
    let plan = plan_audio_request(&c, AudioEndpoint::Transcriptions, AudioFile::new("a.wav".to_string(), Vec::new()));
    assert!(matches!(plan, Ok(AudioRequestPlan::Skip)));
}

#[test]
fn plan_builds_upload() {
    let c = OpenAiConfig::from_env(&env_with_key()).unwrap();
    let plan = plan_audio_request(&c, AudioEndpoint::Translations, AudioFile::new("segment-3.wav".to_string(), vec![1, 2, 3]));
    match plan {
        Ok(AudioRequestPlan::Send(req)) => {
            assert_eq!(req.url.as_str(), "https://api.openai.com/v1/audio/translations");
            assert_eq!(req.model, "whisper-1");
            assert_eq!(req.file_name, "segment-3.wav");
            assert_eq!(req.bytes, vec![1, 2, 3]);
            assert_eq!(req.mime_type, "audio/wav");
            assert_eq!(req.response_format, "json");
        }
        other => panic!("unexpected plan {:?}", other),
    }
}

#[test]
fn response_text_is_trimmed() {
    assert_eq!(response_text(Some("  Hello there.\n".to_string())), "Hello there.");
    assert_eq!(response_text(None), "");
}

#[test]
fn app_config_from_args_and_env() {
    let args = CliArgs {
        translate: true,
        output: OutputMode::Paste,
        device_index: Some(1),
        daemon: false,
        continuous: true,
        restore_clipboard: true,
    };
    let c = AppConfig::from_env_and_args(&args, &env_with_key()).unwrap();
    assert_eq!(c.mode, Mode::Translate);
    assert_eq!(c.output_mode, OutputMode::Paste);
    assert_eq!(c.device_index, Some(1));
    assert_eq!(c.speech, SpeechConfig::default());
    assert!(!c.daemon);
    assert!(c.continuous);
    assert!(c.restore_clipboard);
}

#[test]
fn app_config_defaults_to_transcription() {
    let args = CliArgs {
        translate: false,
        output: OutputMode::Auto,
        device_index: None,
        daemon: false,
        continuous: false,
        restore_clipboard: false,
    };
    let c = AppConfig::from_env_and_args(&args, &env_with_key()).unwrap();
    assert_eq!(c.mode, Mode::Transcribe);
    let env = OpenAiEnv { api_key: None, base_url: None, transcribe_model: None, translate_model: None };
    assert_eq!(
        AppConfig::from_env_and_args(&args, &env).err(),
        Some(AppConfigError::OpenAi(OpenAiConfigError::MissingApiKey))
    );
}

#[test]
fn segment_upload_name() {
    assert_eq!(segment_file_name(0), "segment-0.wav");
    assert_eq!(segment_file_name(17), "segment-17.wav");
    let seg = SpeechSegment { audio_bytes: vec![9, 8], speech_samples: 5, sample_rate: 1000, sequence_id: 4 };
    let f = segment_audio_file(seg);
    assert_eq!(f.name, "segment-4.wav");
    assert_eq!(f.bytes, vec![9, 8]);
}

#[test]
fn mode_selects_endpoint() {
    assert_eq!(endpoint_for_mode(Mode::Transcribe), AudioEndpoint::Transcriptions);
    assert_eq!(endpoint_for_mode(Mode::Translate), AudioEndpoint::Translations);
}

#[test]
fn typed_text_gets_trailing_space() {
    assert_eq!(text_to_type(""), None);
    assert_eq!(text_to_type("Hi"), Some("Hi ".to_string()));
    assert_eq!(text_to_type("Привет"), Some("Привет ".to_string()));
}

#[test]
fn plan_targets_transcriptions_endpoint() {
    let mut env = env_with_key();
    env.base_url = Some("https://x.test/v1///".to_string());
    let c = OpenAiConfig::from_env(&env).unwrap();
    assert_eq!(c.base_url, "https://x.test/v1/");
    let plan = plan_audio_request(&c, AudioEndpoint::Transcriptions, AudioFile::new("s.wav".to_string(), vec![7]));
    match plan {
        Ok(AudioRequestPlan::Send(req)) => {
            assert_eq!(req.url, "https://x.test/v1/audio/transcriptions");
            assert_eq!(req.model, "gpt-transcribe");
        }
        other => panic!("unexpected plan {:?}", other),
    }
}

#[test]
fn white_space_matches_std() {
    for code in 0u32..=0x10ffff {
        if let Some(c) = char::from_u32(code) {
            assert_eq!(char_is_whitespace(c), c.is_whitespace(), "U+{:04X}", code);
        }
    }
}
