use vstd::prelude::*;

use crate::config::OutputMode;

verus! {

/// What to do when typing directly through `wtype` is not possible (or not tried).
#[derive(Debug, Clone, Copy, PartialEq, Eq, Structural)]
pub enum FallbackAction {
    /// Give up silently.
    Nothing,
    /// Paste through the clipboard that is already open.
    Paste,
    /// Open the clipboard, then paste through it.
    OpenClipboardThenPaste,
    /// Type the text key by key.
    KeySequence,
}

/// How a text is output: optionally try `wtype` first; if that is not tried
/// or fails, take the fallback.
#[derive(Debug, Clone, Copy, PartialEq, Eq, Structural)]
pub struct OutputPlan {
    pub try_wtype: bool,
    pub fallback: FallbackAction,
}

/// Whether the output needs the clipboard from the start.
pub fn wants_clipboard(mode: OutputMode) -> (r: bool)
    ensures
        r == (mode is Paste || mode is Auto),
{
    match mode {
        OutputMode::Paste | OutputMode::Auto => true,
        OutputMode::Type => false,
    }
}

/// Whether a text has characters that keyboard emulation may not type
/// correctly (anything outside ASCII).
pub fn needs_clipboard_fallback(text: &str) -> (r: bool)
    ensures
        r == !vstd::string::is_ascii(text),
{
    !text.is_ascii()
}

/// The plan for outputting text in `mode`. `has_keyboard` tells whether the
/// keyboard emulator is available, `has_clipboard` whether the clipboard is
/// open, `on_linux` whether the program runs on Linux and `non_ascii` whether
/// the text needs the clipboard to be typed faithfully.
pub fn output_plan(mode: OutputMode, has_keyboard: bool, has_clipboard: bool, on_linux: bool, non_ascii: bool) -> (p: OutputPlan)
    ensures
        !has_keyboard ==> p == (OutputPlan { try_wtype: false, fallback: FallbackAction::Nothing }),
        has_keyboard && mode is Auto ==> p == (OutputPlan {
            try_wtype: true,
            fallback: if has_clipboard { FallbackAction::Paste } else { FallbackAction::KeySequence },
        }),
        has_keyboard && mode is Type ==> p == (OutputPlan {
            try_wtype: true,
            fallback: if on_linux && non_ascii {
                if has_clipboard { FallbackAction::Paste } else { FallbackAction::OpenClipboardThenPaste }
            } else {
                FallbackAction::KeySequence
            },
        }),
        has_keyboard && mode is Paste ==> p == (OutputPlan {
            try_wtype: false,
            fallback: if has_clipboard { FallbackAction::Paste } else { FallbackAction::Nothing },
        }),
{
    if !has_keyboard {
        return OutputPlan { try_wtype: false, fallback: FallbackAction::Nothing };
    }
    match mode {
        OutputMode::Auto => OutputPlan {
            try_wtype: true,
            fallback: if has_clipboard { FallbackAction::Paste } else { FallbackAction::KeySequence },
        },
        OutputMode::Type => {
            let fallback = if on_linux && non_ascii {
                if has_clipboard { FallbackAction::Paste } else { FallbackAction::OpenClipboardThenPaste }
            } else {
                FallbackAction::KeySequence
            };
            OutputPlan { try_wtype: true, fallback }
        },
        OutputMode::Paste => OutputPlan {
            try_wtype: false,
            fallback: if has_clipboard { FallbackAction::Paste } else { FallbackAction::Nothing },
        },
    }
}

/// The clipboard contents to put back after a paste: the previous contents
/// when restoring is asked for and they could be read, otherwise none.
pub fn clipboard_to_restore(restore_clipboard: bool, previous: Option<String>) -> (r: Option<String>)
    ensures
        r == (if restore_clipboard { previous } else { None }),
{
    if restore_clipboard { previous } else { None }
}

} // verus!
