//! The workstation side: the requests it sends, and what it makes of the
//! events streamed back.
use vstd::prelude::*;

use crate::paths::{safe_file_name, safe_name_text};
use crate::protocol::{
    platform_text, DeviceOverrides, DeviceView, EventView, FirmwareUpload, Phase, RequestView,
    UploadView, WireEvent, WireRequest,
};
use crate::text::{
    decimal, decimal_i32, decimal_u64, join, join_text, lemma_split_join, signed_decimal,
    split_text,
};

verus! {

// ---------------------------------------------------------------------------
// Requests
// ---------------------------------------------------------------------------

/// A request to flash the image at `firmware_path`, `firmware_len` bytes long,
/// named after the path's file name.
pub fn flash_request(
    device: DeviceOverrides,
    firmware_path: &str,
    firmware_len: u64,
    monitor_after: bool,
) -> (r: WireRequest)
    ensures
        r@ == (RequestView::Flash {
            device: device@,
            firmware_name: safe_name_text(firmware_path@),
            firmware_len,
            monitor_after,
        }),
{
    WireRequest::Flash {
        device,
        firmware_name: safe_file_name(firmware_path),
        firmware_len,
        monitor_after,
    }
}

/// A request to monitor a target, with the image at `firmware` (a path and a
/// length) uploaded for the monitor to read symbols from.
pub fn monitor_request(device: DeviceOverrides, firmware: Option<(&str, u64)>) -> (r: WireRequest)
    ensures
        r@ == (RequestView::Monitor {
            device: device@,
            firmware: match firmware {
                Some((path, len)) => Some(UploadView { name: safe_name_text(path@), len }),
                None => None,
            },
        }),
{
    let upload = match firmware {
        Some((path, len)) => Some(FirmwareUpload { name: safe_file_name(path), len }),
        None => None,
    };
    WireRequest::Monitor { device, firmware: upload }
}

// ---------------------------------------------------------------------------
// Printing commands
// ---------------------------------------------------------------------------

/// The name of a phase.
pub open spec fn phase_text(p: Phase) -> Seq<char> {
    match p {
        Phase::Flash => "flash"@,
        Phase::Monitor => "monitor"@,
    }
}

/// The name of a phase, as printed before its commands.
pub fn phase_name(phase: Phase) -> (s: String)
    ensures
        s@ == phase_text(phase),
{
    match phase {
        Phase::Flash => String::from_str("flash"),
        Phase::Monitor => String::from_str("monitor"),
    }
}

/// What `format!("{:?}", s)` makes of a string: it quoted and escaped.
pub uninterp spec fn debug_text(s: Seq<char>) -> Seq<char>;

/// `format!("{:?}", s)` for a string slice; the text is named by `debug_text`.
#[verifier::external_body]
fn debug_quote(s: &str) -> (r: String)
    ensures
        r@ == debug_text(s@),
{
    format!("{:?}", s)
}

/// Characters a shell takes literally: ASCII letters and digits and `-_./:=+`.
pub open spec fn shell_safe(c: char) -> bool {
    ('a' <= c && c <= 'z') || ('A' <= c && c <= 'Z') || ('0' <= c && c <= '9') || c == '-' || c
        == '_' || c == '.' || c == '/' || c == ':' || c == '=' || c == '+'
}

/// An argument as printed: as it is when every character is shell-safe,
/// else quoted and escaped.
pub open spec fn shell_word_text(a: Seq<char>) -> Seq<char> {
    if forall|i: int| 0 <= i < a.len() ==> shell_safe(#[trigger] a[i]) {
        a
    } else {
        debug_text(a)
    }
}

/// A command as printed: its arguments as printed, separated by spaces.
pub open spec fn shellish_text(argv: Seq<Seq<char>>) -> Seq<char> {
    join_text(argv.map_values(|a: Seq<char>| shell_word_text(a)), seq![' '])
}

/// An argument as printed.
pub fn shell_word(arg: &str) -> (s: String)
    ensures
        s@ == shell_word_text(arg@),
{
    let v = crate::text::chars_of(arg);
    let mut i: usize = 0;
    while i < v.len()
        invariant
            v@ == arg@,
            i <= v.len(),
            forall|j: int| 0 <= j < i ==> shell_safe(#[trigger] v@[j]),
        decreases v.len() - i,
    {
        let c = v[i];
        let safe = ('a' <= c && c <= 'z') || ('A' <= c && c <= 'Z') || ('0' <= c && c <= '9') || c
            == '-' || c == '_' || c == '.' || c == '/' || c == ':' || c == '=' || c == '+';
        if !safe {
            return debug_quote(arg);
        }
        i = i + 1;
    }
    String::from_str(arg)
}

/// A command as printed: each argument as printed, separated by spaces.
pub fn shellish(argv: &[String]) -> (s: String)
    ensures
        s@ == shellish_text(argv.deep_view()),
{
    let ghost args = argv.deep_view();
    let mut words: Vec<String> = Vec::new();
    let mut i: usize = 0;
    while i < argv.len()
        invariant
            args == argv.deep_view(),
            i <= argv.len(),
            words@.len() == i,
            forall|j: int| 0 <= j < i ==> (#[trigger] words@[j])@ == shell_word_text(args[j]),
        decreases argv.len() - i,
    {
        words.push(shell_word(argv[i].as_str()));
        i = i + 1;
    }
    let s = join(&words, " ");
    proof {
        reveal_strlit(" ");
        assert(words.deep_view() =~= args.map_values(|a: Seq<char>| shell_word_text(a)));
        assert(" "@ =~= seq![' ']);
    }
    s
}

// ---------------------------------------------------------------------------
// Events
// ---------------------------------------------------------------------------

/// What the workstation prints for an event.
pub enum ClientOutput {
    /// A line on standard output.
    Line(String),
    /// A line on standard error.
    ErrLine(String),
    /// Text on standard output, as it came.
    Text(String),
    /// Text on standard error, as it came.
    ErrText(String),
}

pub enum OutputView {
    Line(Seq<char>),
    ErrLine(Seq<char>),
    Text(Seq<char>),
    ErrText(Seq<char>),
}

impl View for ClientOutput {
    type V = OutputView;

    open spec fn view(&self) -> OutputView {
        match self {
            ClientOutput::Line(s) => OutputView::Line(s@),
            ClientOutput::ErrLine(s) => OutputView::ErrLine(s@),
            ClientOutput::Text(s) => OutputView::Text(s@),
            ClientOutput::ErrText(s) => OutputView::ErrText(s@),
        }
    }
}

/// The view of an optional output.
pub open spec fn opt_output(o: Option<ClientOutput>) -> Option<OutputView> {
    match o {
        Some(x) => Some(x@),
        None => None,
    }
}

/// The bracketed phase that starts a command's lines.
pub open spec fn phase_tag(p: Phase) -> Seq<char> {
    "["@ + phase_text(p) + "]"@
}

/// The outcome recorded after `ev`, and what is printed for it. `Done`
/// records its outcome; `Error` records a failure.
pub open spec fn client_step(success: Option<bool>, ev: EventView) -> (Option<bool>, Option<
    OutputView,
>) {
    match ev {
        EventView::Accepted { peer } => (
            success,
            Some(OutputView::Line("accepted by server as peer "@ + peer)),
        ),
        EventView::FirmwareSaved { bytes } => (
            success,
            Some(OutputView::Line("uploaded "@ + decimal(bytes as nat) + " bytes"@)),
        ),
        EventView::Status { message } => (success, Some(OutputView::Line("[status] "@ + message))),
        EventView::TargetResolved { target, platform } => (
            success,
            Some(
                OutputView::Line(
                    "[target] "@ + target + " ("@ + match platform {
                        Some(p) => platform_text(p),
                        None => "unspecified"@,
                    } + ")"@,
                ),
            ),
        ),
        EventView::CommandStarted { phase, argv } => (
            success,
            Some(OutputView::Line(phase_tag(phase) + " "@ + shellish_text(argv))),
        ),
        EventView::Stdout { phase, text } => (success, Some(OutputView::Text(text))),
        EventView::Stderr { phase, text } => (success, Some(OutputView::ErrText(text))),
        EventView::CommandExited { phase, code, success: ok } => (
            success,
            Some(
                OutputView::Line(
                    phase_tag(phase) + " exited with "@ + match code {
                        Some(c) => signed_decimal(c as int),
                        None => "signal"@,
                    } + " ("@ + if ok {
                        "ok"@
                    } else {
                        "failed"@
                    } + ")"@,
                ),
            ),
        ),
        EventView::Done { success: ok } => (Some(ok), None),
        EventView::Error { message } => (
            Some(false),
            Some(OutputView::ErrLine("server error: "@ + message)),
        ),
    }
}

/// Why a remote request did not succeed.
#[derive(Debug, Clone, Copy, PartialEq, Eq, Structural)]
pub enum ClientError {
    /// The agent reported a failure.
    RemoteFailed,
    /// The stream ended without a completion event.
    NoCompletion,
}

/// The result of a request whose recorded outcome is `success`.
pub open spec fn outcome_result(success: Option<bool>) -> Result<(), ClientError> {
    match success {
        Some(true) => Ok(()),
        Some(false) => Err(ClientError::RemoteFailed),
        None => Err(ClientError::NoCompletion),
    }
}

/// The outcome recorded after the events `evs`, starting from `success`.
pub open spec fn client_fold(success: Option<bool>, evs: Seq<EventView>) -> Option<bool>
    decreases evs.len(),
{
    if evs.len() == 0 {
        success
    } else {
        client_step(client_fold(success, evs.drop_last()), evs.last()).0
    }
}

/// The events of one request as the workstation follows them.
pub struct ClientSession {
    pub success: Option<bool>,
}

/// Appends `b` to `s`.
fn append_text(s: &mut String, b: &str)
    ensures
        final(s)@ == old(s)@ + b@,
{
    s.append(b);
}

impl ClientSession {
    /// A session that has seen no event.
    pub fn new() -> (s: Self)
        ensures
            s.success is None,
    {
        ClientSession { success: None }
    }

    /// Takes in one event; returns what to print for it.
    pub fn on_event(&mut self, ev: WireEvent) -> (out: Option<ClientOutput>)
        ensures
            (final(self).success, opt_output(out)) == client_step(old(self).success, ev@),
    {
        match ev {
            WireEvent::Accepted { peer } => {
                let mut s = String::from_str("accepted by server as peer ");
                append_text(&mut s, peer.as_str());
                Some(ClientOutput::Line(s))
            },
            WireEvent::FirmwareSaved { bytes } => {
                let mut s = String::from_str("uploaded ");
                let n = decimal_u64(bytes);
                append_text(&mut s, n.as_str());
                append_text(&mut s, " bytes");
                Some(ClientOutput::Line(s))
            },
            WireEvent::Status { message } => {
                let mut s = String::from_str("[status] ");
                append_text(&mut s, message.as_str());
                Some(ClientOutput::Line(s))
            },
            WireEvent::TargetResolved { target, platform } => {
                let mut s = String::from_str("[target] ");
                append_text(&mut s, target.as_str());
                append_text(&mut s, " (");
                match platform {
                    Some(p) => {
                        let n = p.name();
                        append_text(&mut s, n.as_str());
                    },
                    None => append_text(&mut s, "unspecified"),
                }
                append_text(&mut s, ")");
                Some(ClientOutput::Line(s))
            },
            WireEvent::CommandStarted { phase, argv } => {
                let mut s = String::from_str("[");
                let n = phase_name(phase);
                append_text(&mut s, n.as_str());
                append_text(&mut s, "] ");
                let cmd = shellish(argv.as_slice());
                append_text(&mut s, cmd.as_str());
                assert(s@ =~= phase_tag(phase) + " "@ + shellish_text(argv.deep_view())) by {
                    reveal_strlit("] ");
                    reveal_strlit("]");
                    reveal_strlit(" ");
                }
                Some(ClientOutput::Line(s))
            },
            WireEvent::Stdout { phase, text } => Some(ClientOutput::Text(text)),
            WireEvent::Stderr { phase, text } => Some(ClientOutput::ErrText(text)),
            WireEvent::CommandExited { phase, code, success } => {
                let mut s = String::from_str("[");
                let n = phase_name(phase);
                append_text(&mut s, n.as_str());
                append_text(&mut s, "] exited with ");
                match code {
                    Some(c) => {
                        let t = decimal_i32(c);
                        append_text(&mut s, t.as_str());
                    },
                    None => append_text(&mut s, "signal"),
                }
                append_text(&mut s, " (");
                if success {
                    append_text(&mut s, "ok");
                } else {
                    append_text(&mut s, "failed");
                }
                append_text(&mut s, ")");
                assert(s@ =~= phase_tag(phase) + " exited with "@ + match code {
                    Some(c) => signed_decimal(c as int),
                    None => "signal"@,
                } + " ("@ + if success {
                    "ok"@
                } else {
                    "failed"@
                } + ")"@) by {
                    reveal_strlit("] exited with ");
                    reveal_strlit("]");
                    reveal_strlit(" exited with ");
                }
                Some(ClientOutput::Line(s))
            },
            WireEvent::Done { success } => {
                self.success = Some(success);
                None
            },
            WireEvent::Error { message } => {
                self.success = Some(false);
                let mut s = String::from_str("server error: ");
                append_text(&mut s, message.as_str());
                Some(ClientOutput::ErrLine(s))
            },
        }
    }

    /// The result of the request once the stream has ended: success only when
    /// the last completion event reported it.
    pub fn outcome(&self) -> (r: Result<(), ClientError>)
        ensures
            r == outcome_result(self.success),
    {
        match self.success {
            Some(true) => Ok(()),
            Some(false) => Err(ClientError::RemoteFailed),
            None => Err(ClientError::NoCompletion),
        }
    }
}

// ---------------------------------------------------------------------------
// Laws
// ---------------------------------------------------------------------------

/// A command whose arguments are all shell-safe is printed as its arguments
/// separated by single spaces: splitting the line at spaces gives them back.
pub proof fn lemma_shellish_splits_back(argv: Seq<Seq<char>>)
    requires
        argv.len() >= 1,
        forall|i: int, j: int|
            0 <= i < argv.len() && 0 <= j < argv[i].len() ==> shell_safe(#[trigger] argv[i][j]),
    ensures
        split_text(shellish_text(argv), ' ') == argv,
{
    let words = argv.map_values(|a: Seq<char>| shell_word_text(a));
    assert forall|i: int| 0 <= i < argv.len() implies #[trigger] words[i] == argv[i] by {
        assert(forall|j: int| 0 <= j < argv[i].len() ==> shell_safe(#[trigger] argv[i][j]));
    }
    assert(words =~= argv);
    assert forall|i: int| 0 <= i < argv.len() implies !(#[trigger] argv[i]).contains(' ') by {
        if argv[i].contains(' ') {
            let j = choose|j: int| 0 <= j < argv[i].len() && argv[i][j] == ' ';
            assert(shell_safe(argv[i][j]));
        }
    }
    lemma_split_join(argv, ' ');
}

/// The line printed when a command starts or exits begins with the bracketed
/// name of that command's own phase, and leaves the recorded outcome alone.
pub proof fn lemma_command_lines_name_their_phase(
    success: Option<bool>,
    phase: Phase,
    argv: Seq<Seq<char>>,
    code: Option<i32>,
    ok: bool,
)
    ensures
        client_step(success, EventView::CommandStarted { phase, argv }).0 == success,
        client_step(success, EventView::CommandExited { phase, code, success: ok }).0 == success,
        client_step(success, EventView::CommandStarted { phase, argv }).1 matches Some(
            OutputView::Line(l),
        ) && starts_with_phase(l, phase),
        client_step(success, EventView::CommandExited { phase, code, success: ok }).1 matches Some(
            OutputView::Line(l),
        ) && starts_with_phase(l, phase),
{
    reveal_strlit("[");
    reveal_strlit("]");
    reveal_strlit(" ");
    reveal_strlit("flash");
    reveal_strlit("monitor");
    reveal_strlit(" exited with ");
    let started = client_step(success, EventView::CommandStarted { phase, argv }).1->0;
    let exited = client_step(success, EventView::CommandExited { phase, code, success: ok }).1->0;
    let l1 = started->Line_0;
    let l2 = exited->Line_0;
    match phase {
        Phase::Flash => {
            assert(l1.take(8) =~= seq!['[', 'f', 'l', 'a', 's', 'h', ']', ' ']);
            assert(l2.take(8) =~= seq!['[', 'f', 'l', 'a', 's', 'h', ']', ' ']);
        },
        Phase::Monitor => {
            assert(l1.take(10) =~= seq!['[', 'm', 'o', 'n', 'i', 't', 'o', 'r', ']', ' ']);
            assert(l2.take(10) =~= seq!['[', 'm', 'o', 'n', 'i', 't', 'o', 'r', ']', ' ']);
        },
    }
}

/// `l` begins with `[flash] ` or `[monitor] `, as `phase` is.
pub open spec fn starts_with_phase(l: Seq<char>, phase: Phase) -> bool {
    match phase {
        Phase::Flash => l.len() >= 8 && l.take(8) == seq!['[', 'f', 'l', 'a', 's', 'h', ']', ' '],
        Phase::Monitor => l.len() >= 10 && l.take(10) == seq![
            '[',
            'm',
            'o',
            'n',
            'i',
            't',
            'o',
            'r',
            ']',
            ' ',
        ],
    }
}

/// Only a completion event changes the recorded outcome.
pub proof fn lemma_only_completion_decides(success: Option<bool>, ev: EventView)
    requires
        !(ev is Done),
        !(ev is Error),
    ensures
        client_step(success, ev).0 == success,
{
}

/// After a last completion event `Done { success }`, followed by any events
/// that are not completion events, the request succeeds exactly when
/// `success` is true; after a last `Error` it fails.
pub proof fn lemma_last_completion_decides(
    start: Option<bool>,
    before: Seq<EventView>,
    last: EventView,
    after: Seq<EventView>,
)
    requires
        last is Done || last is Error,
        forall|i: int| 0 <= i < after.len() ==> !(#[trigger] after[i] is Done) && !(after[i] is Error),
    ensures
        outcome_result(client_fold(start, before.push(last) + after)) == match last {
            EventView::Done { success } => if success {
                Ok::<(), ClientError>(())
            } else {
                Err(ClientError::RemoteFailed)
            },
            _ => Err(ClientError::RemoteFailed),
        },
    decreases after.len(),
{
    let evs = before.push(last) + after;
    if after.len() == 0 {
        assert(evs =~= before.push(last));
        assert(evs.drop_last() =~= before);
    } else {
        assert(evs.drop_last() =~= before.push(last) + after.drop_last());
        assert(evs.last() == after.last());
        lemma_last_completion_decides(start, before, last, after.drop_last());
    }
}

/// A stream that ends without any completion event leaves the outcome as it was.
pub proof fn lemma_no_completion(start: Option<bool>, evs: Seq<EventView>)
    requires
        forall|i: int| 0 <= i < evs.len() ==> !(#[trigger] evs[i] is Done) && !(evs[i] is Error),
    ensures
        client_fold(start, evs) == start,
    decreases evs.len(),
{
    if evs.len() > 0 {
        lemma_no_completion(start, evs.drop_last());
    }
}

} // verus!
