//! The decisions taken while a flash or monitor command runs: which events
//! its output becomes, and when it is over.
use vstd::prelude::*;

use crate::config::copy_words;
use crate::protocol::{EventView, Phase, WireEvent};

verus! {

/// What `String::from_utf8_lossy` makes of `bytes`.
pub uninterp spec fn utf8_lossy(bytes: Seq<u8>) -> Seq<char>;

/// `String::from_utf8_lossy`: the text of `bytes`, each invalid sequence
/// replaced by U+FFFD. As std documents, valid UTF-8 comes back as the text it
/// encodes, and since every byte ends up in a character or a replacement, some
/// bytes never give an empty text; which replacements are made is left unsaid.
#[verifier::external_body]
fn lossy_text(bytes: &[u8]) -> (s: String)
    ensures
        s@ == if vstd::utf8::valid_utf8(bytes@) {
            vstd::utf8::decode_utf8(bytes@)
        } else {
            utf8_lossy(bytes@)
        },
        s@.len() > 0 || bytes@.len() == 0,
{
    String::from_utf8_lossy(bytes).into_owned()
}

/// The text that output bytes are sent as.
pub open spec fn output_text(bytes: Seq<u8>) -> Seq<char> {
    if vstd::utf8::valid_utf8(bytes) {
        vstd::utf8::decode_utf8(bytes)
    } else {
        utf8_lossy(bytes)
    }
}

/// The text that output bytes are sent as.
pub fn lossy_output(bytes: &[u8]) -> (s: String)
    ensures
        s@ == output_text(bytes@),
        bytes@.len() > 0 ==> s@.len() > 0,
{
    lossy_text(bytes)
}

/// What the running command reported.
pub enum ProcessEvent {
    /// A read from its standard output; an empty read means it was closed.
    Stdout(Vec<u8>),
    /// A read from its standard error; an empty read means it was closed.
    Stderr(Vec<u8>),
    /// It exited, with its exit code unless a signal ended it.
    Exited { code: Option<i32>, success: bool },
}

/// Why a command could not be started.
#[derive(Debug, Clone, Copy, PartialEq, Eq, Structural)]
pub enum CommandError {
    EmptyCommand,
}

/// A running command: which of its output streams are still open, and how
/// it exited once it has.
pub struct CommandRun {
    pub phase: Phase,
    pub stdout_open: bool,
    pub stderr_open: bool,
    pub exit: Option<(Option<i32>, bool)>,
}

/// A command is over once both streams are closed and it has exited.
pub open spec fn is_running(r: CommandRun) -> bool {
    r.stdout_open || r.stderr_open || r.exit is None
}

/// The state after `ev` and the event, if any, sent for it.
pub open spec fn run_step(r: CommandRun, ev: ProcessEvent) -> (CommandRun, Option<EventView>) {
    match ev {
        ProcessEvent::Stdout(bytes) => if !r.stdout_open {
            (r, None)
        } else if bytes@.len() == 0 {
            (CommandRun { stdout_open: false, ..r }, None)
        } else {
            (r, Some(EventView::Stdout { phase: r.phase, text: output_text(bytes@) }))
        },
        ProcessEvent::Stderr(bytes) => if !r.stderr_open {
            (r, None)
        } else if bytes@.len() == 0 {
            (CommandRun { stderr_open: false, ..r }, None)
        } else {
            (r, Some(EventView::Stderr { phase: r.phase, text: output_text(bytes@) }))
        },
        ProcessEvent::Exited { code, success } => if r.exit is Some {
            (r, None)
        } else {
            (CommandRun { exit: Some((code, success)), ..r }, None)
        },
    }
}

/// The view of an optional event.
pub open spec fn opt_event(e: Option<WireEvent>) -> Option<EventView> {
    match e {
        Some(x) => Some(x@),
        None => None,
    }
}

impl CommandRun {
    /// Starts tracking a command; an empty command cannot be started.
    /// Returns the event that announces it.
    pub fn start(phase: Phase, argv: &Vec<String>) -> (r: Result<(CommandRun, WireEvent), CommandError>)
        ensures
            argv@.len() == 0 <==> r is Err,
            r matches Ok((run, ev)) ==> run == (CommandRun {
                phase,
                stdout_open: true,
                stderr_open: true,
                exit: None,
            }) && ev@ == (EventView::CommandStarted { phase, argv: argv.deep_view() }),
    {
        if argv.len() == 0 {
            return Err(CommandError::EmptyCommand);
        }
        let run = CommandRun { phase, stdout_open: true, stderr_open: true, exit: None };
        Ok((run, WireEvent::CommandStarted { phase, argv: copy_words(argv) }))
    }

    /// Whether the command still has to be waited for.
    pub fn running(&self) -> (b: bool)
        ensures
            b == is_running(*self),
    {
        self.stdout_open || self.stderr_open || self.exit.is_none()
    }

    /// Takes in what the command reported; returns the event to send, if any.
    pub fn on_event(&mut self, ev: ProcessEvent) -> (out: Option<WireEvent>)
        ensures
            (*final(self), opt_event(out)) == run_step(*old(self), ev),
            out matches Some(WireEvent::Stdout { text, .. }) ==> text@.len() > 0,
            out matches Some(WireEvent::Stderr { text, .. }) ==> text@.len() > 0,
    {
        match ev {
            ProcessEvent::Stdout(bytes) => {
                if !self.stdout_open {
                    None
                } else if bytes.len() == 0 {
                    self.stdout_open = false;
                    None
                } else {
                    let text = lossy_output(bytes.as_slice());
                    Some(WireEvent::Stdout { phase: self.phase, text })
                }
            },
            ProcessEvent::Stderr(bytes) => {
                if !self.stderr_open {
                    None
                } else if bytes.len() == 0 {
                    self.stderr_open = false;
                    None
                } else {
                    let text = lossy_output(bytes.as_slice());
                    Some(WireEvent::Stderr { phase: self.phase, text })
                }
            },
            ProcessEvent::Exited { code, success } => {
                if self.exit.is_none() {
                    self.exit = Some((code, success));
                }
                None
            },
        }
    }

    /// Once the command is over, the event that reports how it exited and
    /// whether it succeeded.
    pub fn finish(&self) -> (r: Option<(WireEvent, bool)>)
        ensures
            r is None <==> is_running(*self),
            r matches Some((ev, ok)) ==> self.exit matches Some((code, success)) && ok == success
                && ev@ == (EventView::CommandExited { phase: self.phase, code, success }),
    {
        if self.running() {
            return None;
        }
        match self.exit {
            Some((code, success)) => Some(
                (WireEvent::CommandExited { phase: self.phase, code, success }, success),
            ),
            None => None,
        }
    }
}

/// Output read after a stream closed is dropped, and an exit is recorded once:
/// a command that is over stays over whatever else is reported.
pub proof fn lemma_finished_stays_finished(r: CommandRun, ev: ProcessEvent)
    requires
        !is_running(r),
    ensures
        run_step(r, ev) == (r, None::<EventView>),
{
}

/// A command is over exactly when both its streams are closed and its exit
/// has been observed; while either stream is open it is still running.
pub proof fn lemma_running_until_all_closed(r: CommandRun)
    ensures
        !is_running(r) <==> (!r.stdout_open && !r.stderr_open && r.exit is Some),
        r.stdout_open ==> is_running(r),
        r.stderr_open ==> is_running(r),
        r.exit is None ==> is_running(r),
{
}

/// While a stream is open, every non-empty read from it is sent as an event of
/// the command's phase carrying that read's text, and nothing else changes;
/// an empty read closes that stream alone.
pub proof fn lemma_open_stream_output_sent(r: CommandRun, bytes: Vec<u8>)
    ensures
        r.stdout_open && bytes@.len() > 0 ==> run_step(r, ProcessEvent::Stdout(bytes)) == (
            r,
            Some(EventView::Stdout { phase: r.phase, text: output_text(bytes@) }),
        ),
        r.stderr_open && bytes@.len() > 0 ==> run_step(r, ProcessEvent::Stderr(bytes)) == (
            r,
            Some(EventView::Stderr { phase: r.phase, text: output_text(bytes@) }),
        ),
        r.stdout_open && bytes@.len() == 0 ==> run_step(r, ProcessEvent::Stdout(bytes)).0 == (
        CommandRun { stdout_open: false, ..r }),
        r.stderr_open && bytes@.len() == 0 ==> run_step(r, ProcessEvent::Stderr(bytes)).0 == (
        CommandRun { stderr_open: false, ..r }),
{
}

} // verus!
