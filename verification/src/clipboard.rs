use vstd::prelude::*;

use crate::text::{strip_end, strip_trailing, trim, trim_text};

verus! {

/// The system clipboard tools tried on Linux, in their order of preference.
#[derive(Debug, Clone, Copy, PartialEq, Eq, Structural)]
pub enum LinuxClipboardBackend {
    WlClipboard,
    KdeKlipper,
    XclipClipboard,
    XselClipboard,
    WlPrimary,
    XclipPrimary,
    XselPrimary,
}

/// What is known of the desktop session: whether it is Wayland, and which
/// clipboard tools are installed.
#[derive(Debug, Clone, Copy, PartialEq, Eq, Structural)]
pub struct ClipboardProbe {
    pub is_wayland: bool,
    pub has_wl_copy: bool,
    pub has_wl_paste: bool,
    pub has_qdbus: bool,
    pub has_xclip: bool,
    pub has_xsel: bool,
}

/// `seq![x]` when `b` holds, the empty sequence otherwise.
pub open spec fn if_present<T>(b: bool, x: T) -> Seq<T> {
    if b { seq![x] } else { Seq::empty() }
}

/// The tools that can write the clipboard, most preferred first.
pub open spec fn write_backends(p: ClipboardProbe) -> Seq<LinuxClipboardBackend> {
    if_present(p.is_wayland && p.has_wl_copy, LinuxClipboardBackend::WlClipboard)
        + if_present(p.has_qdbus, LinuxClipboardBackend::KdeKlipper)
        + if_present(p.has_xclip, LinuxClipboardBackend::XclipClipboard)
        + if_present(p.has_xsel, LinuxClipboardBackend::XselClipboard)
}

/// The tools that can read the clipboard, most preferred first; the primary
/// selections come last.
pub open spec fn read_backends(p: ClipboardProbe) -> Seq<LinuxClipboardBackend> {
    if_present(p.is_wayland && p.has_wl_paste, LinuxClipboardBackend::WlClipboard)
        + if_present(p.has_qdbus, LinuxClipboardBackend::KdeKlipper)
        + if_present(p.has_xclip, LinuxClipboardBackend::XclipClipboard)
        + if_present(p.has_xsel, LinuxClipboardBackend::XselClipboard)
        + if_present(p.is_wayland && p.has_wl_paste, LinuxClipboardBackend::WlPrimary)
        + if_present(p.has_xclip, LinuxClipboardBackend::XclipPrimary)
        + if_present(p.has_xsel, LinuxClipboardBackend::XselPrimary)
}

fn push_if(v: &mut Vec<LinuxClipboardBackend>, b: bool, x: LinuxClipboardBackend)
    ensures
        final(v)@ == old(v)@ + if_present(b, x),
{
    if b {
        v.push(x);
    }
    proof {
        assert(final(v)@ =~= old(v)@ + if_present(b, x));
    }
}

/// The tools that can write the clipboard in this session, most preferred first.
pub fn available_write_backends(p: &ClipboardProbe) -> (r: Vec<LinuxClipboardBackend>)
    ensures
        r@ == write_backends(*p),
{
    let mut v: Vec<LinuxClipboardBackend> = Vec::new();
    push_if(&mut v, p.is_wayland && p.has_wl_copy, LinuxClipboardBackend::WlClipboard);
    push_if(&mut v, p.has_qdbus, LinuxClipboardBackend::KdeKlipper);
    push_if(&mut v, p.has_xclip, LinuxClipboardBackend::XclipClipboard);
    push_if(&mut v, p.has_xsel, LinuxClipboardBackend::XselClipboard);
    proof {
        assert(v@ =~= write_backends(*p));
    }
    v
}

/// The tools that can read the clipboard in this session, most preferred first.
pub fn available_read_backends(p: &ClipboardProbe) -> (r: Vec<LinuxClipboardBackend>)
    ensures
        r@ == read_backends(*p),
{
    let mut v: Vec<LinuxClipboardBackend> = Vec::new();
    push_if(&mut v, p.is_wayland && p.has_wl_paste, LinuxClipboardBackend::WlClipboard);
    push_if(&mut v, p.has_qdbus, LinuxClipboardBackend::KdeKlipper);
    push_if(&mut v, p.has_xclip, LinuxClipboardBackend::XclipClipboard);
    push_if(&mut v, p.has_xsel, LinuxClipboardBackend::XselClipboard);
    push_if(&mut v, p.is_wayland && p.has_wl_paste, LinuxClipboardBackend::WlPrimary);
    push_if(&mut v, p.has_xclip, LinuxClipboardBackend::XclipPrimary);
    push_if(&mut v, p.has_xsel, LinuxClipboardBackend::XselPrimary);
    proof {
        assert(v@ =~= read_backends(*p));
    }
    v
}

/// A program to run: its name, its arguments, and the text to feed on its
/// standard input, if any.
#[derive(Debug, Clone)]
pub struct CommandLine {
    pub program: String,
    pub args: Vec<String>,
    pub stdin: Option<String>,
}

/// The texts of a list of strings.
pub open spec fn strings_view(v: Seq<String>) -> Seq<Seq<char>> {
    v.map_values(|s: String| s@)
}

/// Whether a command line runs `program` with `args` and gives it `stdin`.
pub open spec fn runs(c: CommandLine, program: Seq<char>, args: Seq<Seq<char>>, stdin: Option<Seq<char>>) -> bool {
    &&& c.program@ == program
    &&& strings_view(c.args@) == args
    &&& match (c.stdin, stdin) {
        (Some(a), Some(b)) => a@ == b,
        (None, None) => true,
        _ => false,
    }
}

fn strings(parts: &[&str]) -> (v: Vec<String>)
    ensures
        v@.len() == parts@.len(),
        forall|i: int| 0 <= i < parts@.len() ==> #[trigger] v@[i]@ == parts@[i]@,
{
    let mut v: Vec<String> = Vec::new();
    let mut i: usize = 0;
    while i < parts.len()
        invariant
            i <= parts@.len(),
            v@.len() == i,
            forall|k: int| 0 <= k < i ==> #[trigger] v@[k]@ == parts@[k]@,
        decreases parts@.len() - i,
    {
        v.push(String::from_str(parts[i]));
        i = i + 1;
    }
    v
}

/// How a tool writes `text` to the clipboard; the primary selections are
/// never written.
pub fn write_command(backend: LinuxClipboardBackend, text: &str) -> (r: Option<CommandLine>)
    ensures
        match backend {
            LinuxClipboardBackend::WlClipboard => r matches Some(c) && runs(c, "wl-copy"@, seq![], Some(text@)),
            LinuxClipboardBackend::KdeKlipper => r matches Some(c) && runs(c, "qdbus"@,
                seq!["org.kde.klipper"@, "/klipper"@, "org.kde.klipper.klipper.setClipboardContents"@, text@], None),
            LinuxClipboardBackend::XclipClipboard => r matches Some(c) && runs(c, "xclip"@,
                seq!["-selection"@, "clipboard"@], Some(text@)),
            LinuxClipboardBackend::XselClipboard => r matches Some(c) && runs(c, "xsel"@,
                seq!["--clipboard"@, "--input"@], Some(text@)),
            _ => r is None,
        },
{
    let (program, args, stdin) = match backend {
        LinuxClipboardBackend::WlClipboard => ("wl-copy", strings(&[]), true),
        LinuxClipboardBackend::KdeKlipper => (
            "qdbus",
            strings(&["org.kde.klipper", "/klipper", "org.kde.klipper.klipper.setClipboardContents", text]),
            false,
        ),
        LinuxClipboardBackend::XclipClipboard => ("xclip", strings(&["-selection", "clipboard"]), true),
        LinuxClipboardBackend::XselClipboard => ("xsel", strings(&["--clipboard", "--input"]), true),
        _ => return None,
    };
    let c = CommandLine {
        program: String::from_str(program),
        args,
        stdin: if stdin { Some(String::from_str(text)) } else { None },
    };
    proof {
        match backend {
            LinuxClipboardBackend::WlClipboard => {
                assert(strings_view(c.args@) =~= seq![]);
            },
            LinuxClipboardBackend::KdeKlipper => {
                assert(strings_view(c.args@) =~= seq!["org.kde.klipper"@, "/klipper"@,
                    "org.kde.klipper.klipper.setClipboardContents"@, text@]);
            },
            LinuxClipboardBackend::XclipClipboard => {
                assert(strings_view(c.args@) =~= seq!["-selection"@, "clipboard"@]);
            },
            LinuxClipboardBackend::XselClipboard => {
                assert(strings_view(c.args@) =~= seq!["--clipboard"@, "--input"@]);
            },
            _ => {},
        }
    }
    Some(c)
}

/// How a tool reads the clipboard (or a primary selection).
pub fn read_command(backend: LinuxClipboardBackend) -> (c: CommandLine)
    ensures
        match backend {
            LinuxClipboardBackend::WlClipboard => runs(c, "wl-paste"@, seq!["--no-newline"@], None),
            LinuxClipboardBackend::KdeKlipper => runs(c, "qdbus"@,
                seq!["org.kde.klipper"@, "/klipper"@, "org.kde.klipper.klipper.getClipboardContents"@], None),
            LinuxClipboardBackend::XclipClipboard => runs(c, "xclip"@, seq!["-selection"@, "clipboard"@, "-o"@], None),
            LinuxClipboardBackend::XselClipboard => runs(c, "xsel"@, seq!["--clipboard"@, "--output"@], None),
            LinuxClipboardBackend::WlPrimary => runs(c, "wl-paste"@, seq!["--primary"@, "--no-newline"@], None),
            LinuxClipboardBackend::XclipPrimary => runs(c, "xclip"@, seq!["-selection"@, "primary"@, "-o"@], None),
            LinuxClipboardBackend::XselPrimary => runs(c, "xsel"@, seq!["--primary"@, "--output"@], None),
        },
{
    let (program, args) = match backend {
        LinuxClipboardBackend::WlClipboard => ("wl-paste", strings(&["--no-newline"])),
        LinuxClipboardBackend::KdeKlipper => (
            "qdbus",
            strings(&["org.kde.klipper", "/klipper", "org.kde.klipper.klipper.getClipboardContents"]),
        ),
        LinuxClipboardBackend::XclipClipboard => ("xclip", strings(&["-selection", "clipboard", "-o"])),
        LinuxClipboardBackend::XselClipboard => ("xsel", strings(&["--clipboard", "--output"])),
        LinuxClipboardBackend::WlPrimary => ("wl-paste", strings(&["--primary", "--no-newline"])),
        LinuxClipboardBackend::XclipPrimary => ("xclip", strings(&["-selection", "primary", "-o"])),
        LinuxClipboardBackend::XselPrimary => ("xsel", strings(&["--primary", "--output"])),
    };
    let c = CommandLine { program: String::from_str(program), args, stdin: None };
    proof {
        match backend {
            LinuxClipboardBackend::WlClipboard => {
                assert(strings_view(c.args@) =~= seq!["--no-newline"@]);
            },
            LinuxClipboardBackend::KdeKlipper => {
                assert(strings_view(c.args@) =~= seq!["org.kde.klipper"@, "/klipper"@,
                    "org.kde.klipper.klipper.getClipboardContents"@]);
            },
            LinuxClipboardBackend::XclipClipboard => {
                assert(strings_view(c.args@) =~= seq!["-selection"@, "clipboard"@, "-o"@]);
            },
            LinuxClipboardBackend::XselClipboard => {
                assert(strings_view(c.args@) =~= seq!["--clipboard"@, "--output"@]);
            },
            LinuxClipboardBackend::WlPrimary => {
                assert(strings_view(c.args@) =~= seq!["--primary"@, "--no-newline"@]);
            },
            LinuxClipboardBackend::XclipPrimary => {
                assert(strings_view(c.args@) =~= seq!["-selection"@, "primary"@, "-o"@]);
            },
            LinuxClipboardBackend::XselPrimary => {
                assert(strings_view(c.args@) =~= seq!["--primary"@, "--output"@]);
            },
        }
    }
    c
}

/// The clipboard text Klipper reports, without its trailing newlines.
pub fn get_text_from_klipper(output: &str) -> (r: String)
    ensures
        r@ == strip_end(output@, '\n'),
{
    strip_trailing(output, '\n')
}

/// The text a tool read from the clipboard: Klipper's output loses its
/// trailing newlines, the others are taken as they are.
pub fn read_output_text(backend: LinuxClipboardBackend, output: &str) -> (r: String)
    ensures
        r@ == (if backend is KdeKlipper { strip_end(output@, '\n') } else { output@ }),
{
    match backend {
        LinuxClipboardBackend::KdeKlipper => get_text_from_klipper(output),
        _ => String::from_str(output),
    }
}

/// Whether a read is taken as the clipboard contents: some tools report
/// success with nothing but white space, and the next tool is tried then.
pub fn accept_read_text(text: &str) -> (r: bool)
    ensures
        r == (trim(text@).len() > 0),
{
    let t = trim_text(text);
    t.as_str().unicode_len() > 0
}

/// The clipboard contents: what the system tools read, or else what the
/// portable clipboard read, or else the empty text (an empty or non-text
/// clipboard does not stop the output).
pub fn resolve_clipboard_text(system: Option<String>, portable: Option<String>) -> (r: String)
    ensures
        r@ == match (system, portable) {
            (Some(s), _) => s@,
            (None, Some(p)) => p@,
            (None, None) => Seq::<char>::empty(),
        },
{
    match system {
        Some(s) => s,
        None => match portable {
            Some(p) => p,
            None => String::new(),
        },
    }
}


/// The outcome of one attempt to read the clipboard with a tool: the text
/// it yields when the tool ran and its text is not blank; otherwise the
/// next tool is tried.
pub fn accepted_reading(backend: LinuxClipboardBackend, output: Option<String>) -> (r: Option<String>)
    ensures
        match output {
            None => r is None,
            Some(o) => {
                let t = if backend is KdeKlipper { strip_end(o@, '\n') } else { o@ };
                &&& trim(t).len() > 0 ==> (r matches Some(x) && x@ == t)
                &&& trim(t).len() == 0 ==> r is None
            },
        },
{
    match output {
        None => None,
        Some(o) => {
            let text = read_output_text(backend, o.as_str());
            if accept_read_text(text.as_str()) { Some(text) } else { None }
        },
    }
}


/// Whether a tool reads a primary selection (the last highlighted text)
/// rather than the clipboard.
pub open spec fn is_primary_selection(b: LinuxClipboardBackend) -> bool {
    b is WlPrimary || b is XclipPrimary || b is XselPrimary
}

/// The order of preference of the tools: Wayland, Klipper, xclip, xsel for
/// the clipboard, then the same tools for the primary selection.
pub open spec fn preference(b: LinuxClipboardBackend) -> int {
    match b {
        LinuxClipboardBackend::WlClipboard => 0,
        LinuxClipboardBackend::KdeKlipper => 1,
        LinuxClipboardBackend::XclipClipboard => 2,
        LinuxClipboardBackend::XselClipboard => 3,
        LinuxClipboardBackend::WlPrimary => 4,
        LinuxClipboardBackend::XclipPrimary => 5,
        LinuxClipboardBackend::XselPrimary => 6,
    }
}

/// Every entry is strictly preferred to the ones after it, and all are
/// preferred to rank `bound`.
pub open spec fn ranked_below(v: Seq<LinuxClipboardBackend>, bound: int) -> bool {
    &&& forall|i: int, j: int| 0 <= i < j < v.len() ==> preference(#[trigger] v[i]) < preference(#[trigger] v[j])
    &&& forall|i: int| 0 <= i < v.len() ==> preference(#[trigger] v[i]) < bound
}

proof fn lemma_append_ranked(v: Seq<LinuxClipboardBackend>, bound: int, present: bool, x: LinuxClipboardBackend)
    requires
        ranked_below(v, bound),
        preference(x) == bound,
    ensures
        ranked_below(v + if_present(present, x), bound + 1),
        forall|y: LinuxClipboardBackend| preference(y) < bound ==>
            ((v + if_present(present, x)).contains(y) <==> v.contains(y)),
        (v + if_present(present, x)).contains(x) <==> present,
{
    let w = v + if_present(present, x);
    if present {
        assert(w =~= v.push(x));
        assert forall|y: LinuxClipboardBackend| preference(y) < bound implies (w.contains(y) <==> v.contains(y)) by {
            if w.contains(y) {
                let k = choose|k: int| 0 <= k < w.len() && w[k] == y;
                assert(k < v.len());
                assert(v[k] == y);
            }
            if v.contains(y) {
                let k = choose|k: int| 0 <= k < v.len() && v[k] == y;
                assert(w[k] == y);
            }
        }
        assert(w[v.len() as int] == x);
    } else {
        assert(w =~= v);
        if v.contains(x) {
            let k = choose|k: int| 0 <= k < v.len() && v[k] == x;
            assert(preference(v[k]) < bound);
        }
    }
}

/// Reading tries every clipboard tool before any primary selection, each
/// tool at most once and in the order of preference, and tries exactly the
/// tools that are installed (the Wayland ones only in a Wayland session).
#[verifier::spinoff_prover]
#[verifier::rlimit(60)]
pub proof fn lemma_read_backends_order(p: ClipboardProbe)
    ensures
        ({
            let r = read_backends(p);
            &&& forall|i: int, j: int| 0 <= i < j < r.len() ==>
                !(is_primary_selection(#[trigger] r[i]) && !is_primary_selection(#[trigger] r[j]))
            &&& forall|i: int, j: int| 0 <= i < j < r.len() ==> preference(#[trigger] r[i]) < preference(#[trigger] r[j])
            &&& (r.contains(LinuxClipboardBackend::WlClipboard) <==> p.is_wayland && p.has_wl_paste)
            &&& (r.contains(LinuxClipboardBackend::KdeKlipper) <==> p.has_qdbus)
            &&& (r.contains(LinuxClipboardBackend::XclipClipboard) <==> p.has_xclip)
            &&& (r.contains(LinuxClipboardBackend::XselClipboard) <==> p.has_xsel)
            &&& (r.contains(LinuxClipboardBackend::WlPrimary) <==> p.is_wayland && p.has_wl_paste)
            &&& (r.contains(LinuxClipboardBackend::XclipPrimary) <==> p.has_xclip)
            &&& (r.contains(LinuxClipboardBackend::XselPrimary) <==> p.has_xsel)
        }),
{
    let wl = p.is_wayland && p.has_wl_paste;
    let v0: Seq<LinuxClipboardBackend> = Seq::empty();
    let v1 = v0 + if_present(wl, LinuxClipboardBackend::WlClipboard);
    lemma_append_ranked(v0, 0, wl, LinuxClipboardBackend::WlClipboard);
    let v2 = v1 + if_present(p.has_qdbus, LinuxClipboardBackend::KdeKlipper);
    lemma_append_ranked(v1, 1, p.has_qdbus, LinuxClipboardBackend::KdeKlipper);
    let v3 = v2 + if_present(p.has_xclip, LinuxClipboardBackend::XclipClipboard);
    lemma_append_ranked(v2, 2, p.has_xclip, LinuxClipboardBackend::XclipClipboard);
    let v4 = v3 + if_present(p.has_xsel, LinuxClipboardBackend::XselClipboard);
    lemma_append_ranked(v3, 3, p.has_xsel, LinuxClipboardBackend::XselClipboard);
    let v5 = v4 + if_present(wl, LinuxClipboardBackend::WlPrimary);
    lemma_append_ranked(v4, 4, wl, LinuxClipboardBackend::WlPrimary);
    let v6 = v5 + if_present(p.has_xclip, LinuxClipboardBackend::XclipPrimary);
    lemma_append_ranked(v5, 5, p.has_xclip, LinuxClipboardBackend::XclipPrimary);
    let v7 = v6 + if_present(p.has_xsel, LinuxClipboardBackend::XselPrimary);
    lemma_append_ranked(v6, 6, p.has_xsel, LinuxClipboardBackend::XselPrimary);
    let r = read_backends(p);
    assert(v1 =~= if_present(wl, LinuxClipboardBackend::WlClipboard));
    assert(r =~= v7);
    assert forall|i: int, j: int| 0 <= i < j < r.len() implies
        !(is_primary_selection(#[trigger] r[i]) && !is_primary_selection(#[trigger] r[j])) by {
        assert(preference(r[i]) < preference(r[j]));
    }
}

/// Writing uses clipboard tools only, never a primary selection, each at
/// most once and in the order of preference, and exactly the tools that
/// are installed (`wl-copy` only in a Wayland session).
pub proof fn lemma_write_backends_order(p: ClipboardProbe)
    ensures
        ({
            let r = write_backends(p);
            &&& forall|i: int| 0 <= i < r.len() ==> !is_primary_selection(#[trigger] r[i])
            &&& forall|i: int, j: int| 0 <= i < j < r.len() ==> preference(#[trigger] r[i]) < preference(#[trigger] r[j])
            &&& (r.contains(LinuxClipboardBackend::WlClipboard) <==> p.is_wayland && p.has_wl_copy)
            &&& (r.contains(LinuxClipboardBackend::KdeKlipper) <==> p.has_qdbus)
            &&& (r.contains(LinuxClipboardBackend::XclipClipboard) <==> p.has_xclip)
            &&& (r.contains(LinuxClipboardBackend::XselClipboard) <==> p.has_xsel)
        }),
{
    let wl = p.is_wayland && p.has_wl_copy;
    let v0: Seq<LinuxClipboardBackend> = Seq::empty();
    let v1 = v0 + if_present(wl, LinuxClipboardBackend::WlClipboard);
    lemma_append_ranked(v0, 0, wl, LinuxClipboardBackend::WlClipboard);
    let v2 = v1 + if_present(p.has_qdbus, LinuxClipboardBackend::KdeKlipper);
    lemma_append_ranked(v1, 1, p.has_qdbus, LinuxClipboardBackend::KdeKlipper);
    let v3 = v2 + if_present(p.has_xclip, LinuxClipboardBackend::XclipClipboard);
    lemma_append_ranked(v2, 2, p.has_xclip, LinuxClipboardBackend::XclipClipboard);
    let v4 = v3 + if_present(p.has_xsel, LinuxClipboardBackend::XselClipboard);
    lemma_append_ranked(v3, 3, p.has_xsel, LinuxClipboardBackend::XselClipboard);
    let r = write_backends(p);
    assert(v1 =~= if_present(wl, LinuxClipboardBackend::WlClipboard));
    assert(r =~= v4);
    assert forall|i: int| 0 <= i < r.len() implies !is_primary_selection(#[trigger] r[i]) by {
        assert(preference(r[i]) < 4);
    }
}

} // verus!
