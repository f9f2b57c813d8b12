use whisper_write::clipboard::{
    accept_read_text, accepted_reading, available_read_backends, available_write_backends, get_text_from_klipper, read_command,
    read_output_text, resolve_clipboard_text, write_command, ClipboardProbe, LinuxClipboardBackend,
};
use whisper_write::config::OutputMode;
use whisper_write::daemon::{daemon_start_line, maybe_daemonize, pid_file_contents, pid_lock_contended, DaemonStep};
use whisper_write::session::{device_choice, retry_send, DeviceChoice, SendOutcome};
use whisper_write::typing::{clipboard_to_restore, needs_clipboard_fallback, output_plan, wants_clipboard, FallbackAction, OutputPlan};

fn all_tools(is_wayland: bool) -> ClipboardProbe {
    ClipboardProbe {
        is_wayland,
        has_wl_copy: true,
        has_wl_paste: true,
        has_qdbus: true,
        has_xclip: true,
        has_xsel: true,
    }
}

#[test]
fn non_ascii_needs_clipboard() {
    assert!(!needs_clipboard_fallback("hello, world!"));
    assert!(needs_clipboard_fallback("привет"));
    assert!(needs_clipboard_fallback("café"));
    assert!(!needs_clipboard_fallback(""));
}

#[test]
fn clipboard_opened_for_paste_and_auto() {
    assert!(wants_clipboard(OutputMode::Auto));
    assert!(wants_clipboard(OutputMode::Paste));
    assert!(!wants_clipboard(OutputMode::Type));
}

#[test]
fn auto_tries_wtype_then_pastes() {
    assert_eq!(
        output_plan(OutputMode::Auto, true, true, true, false),
        OutputPlan { try_wtype: true, fallback: FallbackAction::Paste }
    );
    assert_eq!(
        output_plan(OutputMode::Auto, true, false, true, false),
        OutputPlan { try_wtype: true, fallback: FallbackAction::KeySequence }
    );
}

#[test]
fn type_mode_pastes_non_ascii_on_linux() {
    assert_eq!(
        output_plan(OutputMode::Type, true, false, true, true),
        OutputPlan { try_wtype: true, fallback: FallbackAction::OpenClipboardThenPaste }
    );
    assert_eq!(
        output_plan(OutputMode::Type, true, true, true, true),
        OutputPlan { try_wtype: true, fallback: FallbackAction::Paste }
    );
    assert_eq!(
        output_plan(OutputMode::Type, true, false, true, false),
        OutputPlan { try_wtype: true, fallback: FallbackAction::KeySequence }
    );
    assert_eq!(
        output_plan(OutputMode::Type, true, false, false, true),
        OutputPlan { try_wtype: true, fallback: FallbackAction::KeySequence }
    );
}

#[test]
fn paste_mode_never_types() {
    assert_eq!(
        output_plan(OutputMode::Paste, true, true, true, false),
        OutputPlan { try_wtype: false, fallback: FallbackAction::Paste }
    );
    assert_eq!(
        output_plan(OutputMode::Paste, true, false, true, false),
        OutputPlan { try_wtype: false, fallback: FallbackAction::Nothing }
    );
    assert_eq!(
        output_plan(OutputMode::Auto, false, true, true, false),
        OutputPlan { try_wtype: false, fallback: FallbackAction::Nothing }
    );
}

#[test]
fn restore_only_when_asked() {
    assert_eq!(clipboard_to_restore(true, Some("old".to_string())), Some("old".to_string()));
    assert_eq!(clipboard_to_restore(false, Some("old".to_string())), None);
    assert_eq!(clipboard_to_restore(true, None), None);
}

#[test]
fn write_backends_in_order() {
    assert_eq!(
        available_write_backends(&all_tools(true)),
        vec![
            LinuxClipboardBackend::WlClipboard,
            LinuxClipboardBackend::KdeKlipper,
            LinuxClipboardBackend::XclipClipboard,
            LinuxClipboardBackend::XselClipboard,
        ]
    );
    assert_eq!(
        available_write_backends(&all_tools(false)),
        vec![
            LinuxClipboardBackend::KdeKlipper,
            LinuxClipboardBackend::XclipClipboard,
            LinuxClipboardBackend::XselClipboard,
        ]
    );
}

#[test]
fn read_backends_try_primary_last() {
    assert_eq!(
        available_read_backends(&all_tools(true)),
        vec![
            LinuxClipboardBackend::WlClipboard,
            LinuxClipboardBackend::KdeKlipper,
            LinuxClipboardBackend::XclipClipboard,
            LinuxClipboardBackend::XselClipboard,
            LinuxClipboardBackend::WlPrimary,
            LinuxClipboardBackend::XclipPrimary,
            LinuxClipboardBackend::XselPrimary,
        ]
    );
    let only_xsel = ClipboardProbe {
        is_wayland: false,
        has_wl_copy: false,
        has_wl_paste: false,
        has_qdbus: false,
        has_xclip: false,
        has_xsel: true,
    };
    assert_eq!(
        available_read_backends(&only_xsel),
        vec![LinuxClipboardBackend::XselClipboard, LinuxClipboardBackend::XselPrimary]
    );
    assert!(available_write_backends(&ClipboardProbe { has_xsel: false, ..only_xsel }).is_empty());
}

#[test]
fn write_commands() {
    let c = write_command(LinuxClipboardBackend::XclipClipboard, "hi").unwrap();
    assert_eq!(c.program, "xclip");
    assert_eq!(c.args, vec!["-selection".to_string(), "clipboard".to_string()]);
    assert_eq!(c.stdin, Some("hi".to_string()));
    let k = write_command(LinuxClipboardBackend::KdeKlipper, "hi").unwrap();
    assert_eq!(k.program, "qdbus");
    assert_eq!(k.args.last().unwrap(), "hi");
    assert_eq!(k.stdin, None);
    let w = write_command(LinuxClipboardBackend::WlClipboard, "x").unwrap();
    assert_eq!(w.program, "wl-copy");
    assert!(w.args.is_empty());
    assert!(write_command(LinuxClipboardBackend::XselPrimary, "x").is_none());
}

#[test]
fn read_commands() {
    let c = read_command(LinuxClipboardBackend::WlPrimary);
    assert_eq!(c.program, "wl-paste");
    assert_eq!(c.args, vec!["--primary".to_string(), "--no-newline".to_string()]);
    let c = read_command(LinuxClipboardBackend::XclipClipboard);
    assert_eq!(c.args, vec!["-selection".to_string(), "clipboard".to_string(), "-o".to_string()]);
    assert_eq!(c.stdin, None);
}

#[test]
fn klipper_output_loses_trailing_newlines() {
    assert_eq!(get_text_from_klipper("copied\n\n"), "copied");
    assert_eq!(read_output_text(LinuxClipboardBackend::KdeKlipper, "a\n"), "a");
    assert_eq!(read_output_text(LinuxClipboardBackend::XselClipboard, "a\n"), "a\n");
}

#[test]
fn blank_reads_are_not_accepted() {
    assert!(!accept_read_text(" \n\t"));
    assert!(!accept_read_text(""));
    assert!(accept_read_text(" x "));
}

#[test]
fn clipboard_text_falls_back_to_empty() {
    assert_eq!(resolve_clipboard_text(Some("s".to_string()), Some("p".to_string())), "s");
    assert_eq!(resolve_clipboard_text(None, Some("p".to_string())), "p");
    assert_eq!(resolve_clipboard_text(None, None), "");
}

#[test]
fn device_selection() {
    assert_eq!(device_choice(Some(2), true), DeviceChoice::ByIndex(2));
    assert_eq!(device_choice(Some(2), false), DeviceChoice::Default);
    assert_eq!(device_choice(None, true), DeviceChoice::Default);
}

#[test]
fn send_retries_only_after_timeout() {
    assert!(retry_send(SendOutcome::TimedOut, false));
    assert!(!retry_send(SendOutcome::TimedOut, true));
    assert!(!retry_send(SendOutcome::Sent, false));
    assert!(!retry_send(SendOutcome::Disconnected, false));
}

#[test]
fn daemon_texts() {
    assert_eq!(daemon_start_line(1700000000), "\n[1700000000] starting whisper-write daemon");
    assert_eq!(pid_file_contents(4242), "4242\n");
}

#[test]
fn pid_lock_contention() {
    assert!(pid_lock_contended(Some(11), 11, 35));
    assert!(pid_lock_contended(Some(35), 11, 35));
    assert!(!pid_lock_contended(Some(13), 11, 11));
    assert!(!pid_lock_contended(None, 11, 11));
}

#[test]
fn reading_accepted_only_when_not_blank() {
    assert_eq!(accepted_reading(LinuxClipboardBackend::KdeKlipper, Some("x\n".to_string())), Some("x".to_string()));
    assert_eq!(accepted_reading(LinuxClipboardBackend::XclipClipboard, Some("  ".to_string())), None);
    assert_eq!(accepted_reading(LinuxClipboardBackend::XclipClipboard, None), None);
}

#[test]
fn daemonizes_only_when_asked() {
    assert_eq!(maybe_daemonize(true), DaemonStep::Detach);
    assert_eq!(maybe_daemonize(false), DaemonStep::Stay);
}
