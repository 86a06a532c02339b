//! The agent's handling of one connection, as a state machine: each input
//! (what the network, the upload or a finished command reported) gives the
//! next state and the actions to perform.
use vstd::prelude::*;

use crate::config::{peer_allowed, PeerKey, SeggerRttConfig, SeggerRttView, ServerConfig, TargetView};
use crate::paths::{safe_file_name, safe_name_text};
use crate::protocol::{EventView, Phase, RequestView, WireEvent, WireRequest};
use crate::runner::{
    flash_result, lemma_render_args_pointwise, monitor_result, render_arg_result, resolve_result, LaunchView, MonitorLaunch, RenderError,
    RenderFault, ResolveError, ResolveFault, ResolvedTarget, ResolvedView,
};

verus! {

/// What follows a completed upload.
#[derive(Debug, Clone, Copy, PartialEq, Eq, Structural)]
pub enum AfterUpload {
    Flash { monitor_after: bool },
    Monitor,
}

/// Where a connection stands.
pub enum SessionState {
    Start,
    AwaitingRequest,
    Receiving { target: ResolvedTarget, firmware_name: String, expected: u64, after: AfterUpload },
    Flashing {
        target: ResolvedTarget,
        firmware_path: String,
        firmware_name: String,
        monitor_after: bool,
    },
    Monitoring,
    Finished,
}

pub enum StateView {
    Start,
    AwaitingRequest,
    Receiving { target: ResolvedView, firmware_name: Seq<char>, expected: u64, after: AfterUpload },
    Flashing {
        target: ResolvedView,
        firmware_path: Seq<char>,
        firmware_name: Seq<char>,
        monitor_after: bool,
    },
    Monitoring,
    Finished,
}

impl View for SessionState {
    type V = StateView;

    open spec fn view(&self) -> StateView {
        match self {
            SessionState::Start => StateView::Start,
            SessionState::AwaitingRequest => StateView::AwaitingRequest,
            SessionState::Receiving { target, firmware_name, expected, after } =>
                StateView::Receiving {
                target: target@,
                firmware_name: firmware_name@,
                expected: *expected,
                after: *after,
            },
            SessionState::Flashing { target, firmware_path, firmware_name, monitor_after } =>
                StateView::Flashing {
                target: target@,
                firmware_path: firmware_path@,
                firmware_name: firmware_name@,
                monitor_after: *monitor_after,
            },
            SessionState::Monitoring => StateView::Monitoring,
            SessionState::Finished => StateView::Finished,
        }
    }
}

/// What happened on the connection.
pub enum SessionInput {
    /// A peer connected.
    Connected { peer: PeerKey, peer_text: String },
    /// The request was read; `None` when the stream ended first.
    Request(Option<WireRequest>),
    /// The upload was written to `path`; `copied` bytes arrived.
    FirmwareStored { copied: u64, path: String },
    /// The running command or monitor ended.
    CommandFinished { success: bool },
}

pub enum InputView {
    Connected { peer: PeerKey, peer_text: Seq<char> },
    Request(Option<RequestView>),
    FirmwareStored { copied: u64, path: Seq<char> },
    CommandFinished { success: bool },
}

impl View for SessionInput {
    type V = InputView;

    open spec fn view(&self) -> InputView {
        match self {
            SessionInput::Connected { peer, peer_text } => InputView::Connected {
                peer: *peer,
                peer_text: peer_text@,
            },
            SessionInput::Request(r) => InputView::Request(
                match r {
                    Some(q) => Some(q@),
                    None => None,
                },
            ),
            SessionInput::FirmwareStored { copied, path } => InputView::FirmwareStored {
                copied: *copied,
                path: path@,
            },
            SessionInput::CommandFinished { success } => InputView::CommandFinished {
                success: *success,
            },
        }
    }
}

/// Why a connection ends without a completion event.
#[derive(Debug)]
pub enum SessionError {
    Unauthorized,
    ClientClosed,
    Resolve(ResolveError),
    Render(RenderError),
    UploadIncomplete { copied: u64, expected: u64 },
    OutOfOrder,
}

pub enum SessionFault {
    Unauthorized,
    ClientClosed,
    Resolve(ResolveFault),
    Render(RenderFault),
    UploadIncomplete { copied: u64, expected: u64 },
    OutOfOrder,
}

impl View for SessionError {
    type V = SessionFault;

    open spec fn view(&self) -> SessionFault {
        match self {
            SessionError::Unauthorized => SessionFault::Unauthorized,
            SessionError::ClientClosed => SessionFault::ClientClosed,
            SessionError::Resolve(e) => SessionFault::Resolve(e@),
            SessionError::Render(e) => SessionFault::Render(e@),
            SessionError::UploadIncomplete { copied, expected } => SessionFault::UploadIncomplete {
                copied: *copied,
                expected: *expected,
            },
            SessionError::OutOfOrder => SessionFault::OutOfOrder,
        }
    }
}

/// What the agent is to do next.
pub enum SessionAction {
    /// Close the connection as unauthorized.
    Reject,
    /// Send an event to the peer.
    Send(WireEvent),
    /// Read the request.
    ReadRequest,
    /// Store the next `len` bytes of the stream as `file_name`.
    ReceiveFirmware { file_name: String, len: u64 },
    /// Run a command and stream its output.
    RunCommand { phase: Phase, argv: Vec<String> },
    /// Stream the target's logs from a SEGGER RTT endpoint.
    RunSeggerRtt(SeggerRttConfig),
    /// Finish the stream.
    Finish,
    /// Give up on the connection.
    Fail(SessionError),
}

pub enum ActionView {
    Reject,
    Send(EventView),
    ReadRequest,
    ReceiveFirmware { file_name: Seq<char>, len: u64 },
    RunCommand { phase: Phase, argv: Seq<Seq<char>> },
    RunSeggerRtt(SeggerRttView),
    Finish,
    Fail(SessionFault),
}

impl View for SessionAction {
    type V = ActionView;

    open spec fn view(&self) -> ActionView {
        match self {
            SessionAction::Reject => ActionView::Reject,
            SessionAction::Send(e) => ActionView::Send(e@),
            SessionAction::ReadRequest => ActionView::ReadRequest,
            SessionAction::ReceiveFirmware { file_name, len } => ActionView::ReceiveFirmware {
                file_name: file_name@,
                len: *len,
            },
            SessionAction::RunCommand { phase, argv } => ActionView::RunCommand {
                phase: *phase,
                argv: argv.deep_view(),
            },
            SessionAction::RunSeggerRtt(c) => ActionView::RunSeggerRtt(c@),
            SessionAction::Finish => ActionView::Finish,
            SessionAction::Fail(e) => ActionView::Fail(e@),
        }
    }
}

/// The views of a list of actions.
pub open spec fn actions_view(v: Vec<SessionAction>) -> Seq<ActionView> {
    v@.map_values(|a: SessionAction| a@)
}

/// Starting the rendered monitor, or failing to render it.
pub open spec fn launch(r: Result<LaunchView, RenderFault>) -> (StateView, Seq<ActionView>) {
    match r {
        Ok(LaunchView::Command(argv)) => (
            StateView::Monitoring,
            seq![ActionView::RunCommand { phase: Phase::Monitor, argv }],
        ),
        Ok(LaunchView::SeggerRtt(c)) => (StateView::Monitoring, seq![ActionView::RunSeggerRtt(c)]),
        Err(e) => (StateView::Finished, seq![ActionView::Fail(SessionFault::Render(e))]),
    }
}

/// Reporting the request's outcome and ending the stream.
pub open spec fn done(success: bool) -> (StateView, Seq<ActionView>) {
    (StateView::Finished, seq![ActionView::Send(EventView::Done { success }), ActionView::Finish])
}

/// The next state and the actions for input `i` in state `s`, for an agent
/// that authorizes `peers` and serves `targets`.
pub open spec fn next(
    s: StateView,
    peers: Seq<PeerKey>,
    targets: Seq<(Seq<char>, TargetView)>,
    i: InputView,
) -> (StateView, Seq<ActionView>) {
    match (s, i) {
        (StateView::Start, InputView::Connected { peer, peer_text }) => if peer_allowed(
            peers,
            peer,
        ) {
            (
                StateView::AwaitingRequest,
                seq![
                    ActionView::Send(EventView::Accepted { peer: peer_text }),
                    ActionView::ReadRequest,
                ],
            )
        } else {
            (
                StateView::Finished,
                seq![ActionView::Reject, ActionView::Fail(SessionFault::Unauthorized)],
            )
        },
        (StateView::AwaitingRequest, InputView::Request(None)) => (
            StateView::Finished,
            seq![ActionView::Fail(SessionFault::ClientClosed)],
        ),
        (StateView::AwaitingRequest, InputView::Request(Some(req))) => match req {
            RequestView::Flash { device, firmware_name, firmware_len, monitor_after } => match
            resolve_result(targets, device) {
                Err(e) => (StateView::Finished, seq![ActionView::Fail(SessionFault::Resolve(e))]),
                Ok(t) => (
                    StateView::Receiving {
                        target: t,
                        firmware_name,
                        expected: firmware_len,
                        after: AfterUpload::Flash { monitor_after },
                    },
                    seq![
                        ActionView::ReceiveFirmware {
                            file_name: safe_name_text(firmware_name),
                            len: firmware_len,
                        },
                    ],
                ),
            },
            RequestView::Monitor { device, firmware } => match resolve_result(targets, device) {
                Err(e) => (StateView::Finished, seq![ActionView::Fail(SessionFault::Resolve(e))]),
                Ok(t) => match firmware {
                    Some(up) => (
                        StateView::Receiving {
                            target: t,
                            firmware_name: up.name,
                            expected: up.len,
                            after: AfterUpload::Monitor,
                        },
                        seq![
                            ActionView::ReceiveFirmware {
                                file_name: safe_name_text(up.name),
                                len: up.len,
                            },
                        ],
                    ),
                    None => launch(monitor_result(t, None, Seq::empty())),
                },
            },
        },
        (
            StateView::Receiving { target, firmware_name, expected, after },
            InputView::FirmwareStored { copied, path },
        ) => if copied != expected {
            (
                StateView::Finished,
                seq![ActionView::Fail(SessionFault::UploadIncomplete { copied, expected })],
            )
        } else {
            let saved = ActionView::Send(EventView::FirmwareSaved { bytes: expected });
            match after {
                AfterUpload::Flash { monitor_after } => match flash_result(
                    target,
                    path,
                    firmware_name,
                ) {
                    Err(e) => (
                        StateView::Finished,
                        seq![saved, ActionView::Fail(SessionFault::Render(e))],
                    ),
                    Ok(argv) => (
                        StateView::Flashing {
                            target,
                            firmware_path: path,
                            firmware_name,
                            monitor_after,
                        },
                        seq![saved, ActionView::RunCommand { phase: Phase::Flash, argv }],
                    ),
                },
                AfterUpload::Monitor => {
                    let l = launch(monitor_result(target, Some(path), firmware_name));
                    (l.0, seq![saved] + l.1)
                },
            }
        },
        (
            StateView::Flashing { target, firmware_path, firmware_name, monitor_after },
            InputView::CommandFinished { success },
        ) => if success && monitor_after {
            launch(monitor_result(target, Some(firmware_path), firmware_name))
        } else {
            done(success)
        },
        (StateView::Monitoring, InputView::CommandFinished { success }) => done(success),
        _ => (StateView::Finished, seq![ActionView::Fail(SessionFault::OutOfOrder)]),
    }
}

/// One connection of the agent.
pub struct Session {
    pub state: SessionState,
}

/// The action that starts a rendered monitor, or the failure to render it.
fn launch_action(r: Result<MonitorLaunch, RenderError>) -> (out: (SessionState, SessionAction))
    ensures
        (out.0@, seq![out.1@]) == launch(crate::runner::launch_result(r)),
{
    let out = match r {
        Ok(MonitorLaunch::Command(argv)) => (
            SessionState::Monitoring,
            SessionAction::RunCommand { phase: Phase::Monitor, argv },
        ),
        Ok(MonitorLaunch::SeggerRtt(c)) => (SessionState::Monitoring, SessionAction::RunSeggerRtt(c)),
        Err(e) => (SessionState::Finished, SessionAction::Fail(SessionError::Render(e))),
    };
    assert(seq![out.1@] =~= launch(crate::runner::launch_result(r)).1);
    out
}

impl Session {
    /// A connection that has just been accepted.
    pub fn new() -> (s: Self)
        ensures
            s.state@ == StateView::Start,
    {
        Session { state: SessionState::Start }
    }

    /// Takes in one input; returns the actions to perform, in order.
    pub fn step(&mut self, config: &ServerConfig, input: SessionInput) -> (actions: Vec<
        SessionAction,
    >)
        ensures
            (final(self).state@, actions_view(actions)) == next(
                old(self).state@,
                config.authorized_peers@,
                config.targets@,
                input@,
            ),
    {
        let ghost s0 = self.state@;
        let ghost i0 = input@;
        let mut state = SessionState::Finished;
        std::mem::swap(&mut state, &mut self.state);
        let mut actions: Vec<SessionAction> = Vec::new();
        match (state, input) {
            (SessionState::Start, SessionInput::Connected { peer, peer_text }) => {
                if config.is_authorized(&peer) {
                    actions.push(SessionAction::Send(WireEvent::Accepted { peer: peer_text }));
                    actions.push(SessionAction::ReadRequest);
                    self.state = SessionState::AwaitingRequest;
                } else {
                    actions.push(SessionAction::Reject);
                    actions.push(SessionAction::Fail(SessionError::Unauthorized));
                }
            },
            (SessionState::AwaitingRequest, SessionInput::Request(None)) => {
                actions.push(SessionAction::Fail(SessionError::ClientClosed));
            },
            (SessionState::AwaitingRequest, SessionInput::Request(Some(req))) => {
                match req {
                    WireRequest::Flash { device, firmware_name, firmware_len, monitor_after } => {
                        match ResolvedTarget::resolve(&config.targets, device) {
                            Err(e) => {
                                actions.push(SessionAction::Fail(SessionError::Resolve(e)));
                            },
                            Ok(t) => {
                                actions.push(
                                    SessionAction::ReceiveFirmware {
                                        file_name: safe_file_name(firmware_name.as_str()),
                                        len: firmware_len,
                                    },
                                );
                                self.state = SessionState::Receiving {
                                    target: t,
                                    firmware_name,
                                    expected: firmware_len,
                                    after: AfterUpload::Flash { monitor_after },
                                };
                            },
                        }
                    },
                    WireRequest::Monitor { device, firmware } => {
                        match ResolvedTarget::resolve(&config.targets, device) {
                            Err(e) => {
                                actions.push(SessionAction::Fail(SessionError::Resolve(e)));
                            },
                            Ok(t) => {
                                match firmware {
                                    Some(up) => {
                                        actions.push(
                                            SessionAction::ReceiveFirmware {
                                                file_name: safe_file_name(up.name.as_str()),
                                                len: up.len,
                                            },
                                        );
                                        self.state = SessionState::Receiving {
                                            target: t,
                                            firmware_name: up.name,
                                            expected: up.len,
                                            after: AfterUpload::Monitor,
                                        };
                                    },
                                    None => {
                                        let r = t.render_monitor(None, "");
                                        proof {
                                            reveal_strlit("");
                                            assert(""@ =~= Seq::<char>::empty());
                                        }
                                        let (st, act) = launch_action(r);
                                        actions.push(act);
                                        self.state = st;
                                    },
                                }
                            },
                        }
                    },
                }
            },
            (
                SessionState::Receiving { target, firmware_name, expected, after },
                SessionInput::FirmwareStored { copied, path },
            ) => {
                if copied != expected {
                    actions.push(
                        SessionAction::Fail(SessionError::UploadIncomplete { copied, expected }),
                    );
                } else {
                    actions.push(SessionAction::Send(WireEvent::FirmwareSaved { bytes: expected }));
                    match after {
                        AfterUpload::Flash { monitor_after } => {
                            match target.render_flash(path.as_str(), firmware_name.as_str()) {
                                Err(e) => {
                                    actions.push(SessionAction::Fail(SessionError::Render(e)));
                                },
                                Ok(argv) => {
                                    actions.push(
                                        SessionAction::RunCommand { phase: Phase::Flash, argv },
                                    );
                                    self.state = SessionState::Flashing {
                                        target,
                                        firmware_path: path,
                                        firmware_name,
                                        monitor_after,
                                    };
                                },
                            }
                        },
                        AfterUpload::Monitor => {
                            let r = target.render_monitor(
                                Some(path.as_str()),
                                firmware_name.as_str(),
                            );
                            let (st, act) = launch_action(r);
                            actions.push(act);
                            self.state = st;
                        },
                    }
                }
            },
            (
                SessionState::Flashing { target, firmware_path, firmware_name, monitor_after },
                SessionInput::CommandFinished { success },
            ) => {
                if success && monitor_after {
                    let r = target.render_monitor(
                        Some(firmware_path.as_str()),
                        firmware_name.as_str(),
                    );
                    let (st, act) = launch_action(r);
                    actions.push(act);
                    self.state = st;
                } else {
                    actions.push(SessionAction::Send(WireEvent::Done { success }));
                    actions.push(SessionAction::Finish);
                }
            },
            (SessionState::Monitoring, SessionInput::CommandFinished { success }) => {
                actions.push(SessionAction::Send(WireEvent::Done { success }));
                actions.push(SessionAction::Finish);
            },
            (_, _) => {
                actions.push(SessionAction::Fail(SessionError::OutOfOrder));
            },
        }
        assert(actions_view(actions) =~= next(
            s0,
            config.authorized_peers@,
            config.targets@,
            i0,
        ).1);
        actions
    }
}

// ---------------------------------------------------------------------------
// Laws
// ---------------------------------------------------------------------------

/// A peer that is not authorized is turned away before any request is read,
/// and nothing it sends afterwards is acted on.
pub proof fn lemma_unauthorized_turned_away(
    peers: Seq<PeerKey>,
    targets: Seq<(Seq<char>, TargetView)>,
    peer: PeerKey,
    peer_text: Seq<char>,
    later: InputView,
)
    requires
        !peer_allowed(peers, peer),
    ensures
        next(StateView::Start, peers, targets, InputView::Connected { peer, peer_text }) == (
            StateView::Finished,
            seq![ActionView::Reject, ActionView::Fail(SessionFault::Unauthorized)],
        ),
        next(StateView::Finished, peers, targets, later) == (
            StateView::Finished,
            seq![ActionView::Fail(SessionFault::OutOfOrder)],
        ),
{
}

/// An upload that ends short of the announced length is neither flashed nor
/// monitored: the connection fails.
pub proof fn lemma_short_upload_never_run(
    peers: Seq<PeerKey>,
    targets: Seq<(Seq<char>, TargetView)>,
    target: ResolvedView,
    firmware_name: Seq<char>,
    expected: u64,
    after: AfterUpload,
    copied: u64,
    path: Seq<char>,
)
    requires
        copied != expected,
    ensures
        next(
            StateView::Receiving { target, firmware_name, expected, after },
            peers,
            targets,
            InputView::FirmwareStored { copied, path },
        ) == (
            StateView::Finished,
            seq![ActionView::Fail(SessionFault::UploadIncomplete { copied, expected })],
        ),
{
}

/// A failed flash is reported as the request's failure and no monitor is
/// started; a flash without a monitor reports its own result; once a monitor
/// runs, its result is the request's result.
pub proof fn lemma_reported_outcome(
    peers: Seq<PeerKey>,
    targets: Seq<(Seq<char>, TargetView)>,
    target: ResolvedView,
    firmware_path: Seq<char>,
    firmware_name: Seq<char>,
    monitor_after: bool,
    success: bool,
)
    ensures
        next(
            StateView::Flashing { target, firmware_path, firmware_name, monitor_after: false },
            peers,
            targets,
            InputView::CommandFinished { success },
        ) == done(success),
        next(
            StateView::Flashing { target, firmware_path, firmware_name, monitor_after },
            peers,
            targets,
            InputView::CommandFinished { success: false },
        ) == done(false),
        next(StateView::Monitoring, peers, targets, InputView::CommandFinished { success }) == done(
            success,
        ),
{
}

/// A flash request for a target that resolves asks for the upload under the
/// request's file name; once exactly the announced bytes are stored, the
/// command run is the target's flash template with every argument rendered
/// with the stored path as `{firmware}` and the request's `firmware_name` as
/// `{firmware_name}`, and it is run whenever that rendering succeeds.
pub proof fn lemma_flash_runs_rendered_template(
    peers: Seq<PeerKey>,
    targets: Seq<(Seq<char>, TargetView)>,
    device: crate::protocol::DeviceView,
    firmware_name: Seq<char>,
    firmware_len: u64,
    monitor_after: bool,
    path: Seq<char>,
)
    ensures
        resolve_result(targets, device) matches Ok(t) ==> {
            let first = next(
                StateView::AwaitingRequest,
                peers,
                targets,
                InputView::Request(
                    Some(
                        RequestView::Flash { device, firmware_name, firmware_len, monitor_after },
                    ),
                ),
            );
            let second = next(
                first.0,
                peers,
                targets,
                InputView::FirmwareStored { copied: firmware_len, path },
            );
            &&& first.1 == seq![
                ActionView::ReceiveFirmware {
                    file_name: safe_name_text(firmware_name),
                    len: firmware_len,
                },
            ]
            &&& second.1.len() >= 1
            &&& second.1[0] == ActionView::Send(EventView::FirmwareSaved { bytes: firmware_len })
            &&& forall|k: int|
                0 <= k < second.1.len() ==> (#[trigger] second.1[k] matches ActionView::RunCommand {
                    phase,
                    argv,
                } ==> phase == Phase::Flash && (t.flash matches Some(template) && argv.len()
                    == template.len() && forall|j: int|
                    0 <= j < template.len() ==> render_arg_result(
                        t,
                        template[j],
                        Some(path),
                        firmware_name,
                    ) == Ok::<Seq<char>, RenderFault>(#[trigger] argv[j])))
            &&& (t.flash matches Some(template) && template.len() > 0 && (forall|j: int|
                0 <= j < template.len() ==> (#[trigger] render_arg_result(
                    t,
                    template[j],
                    Some(path),
                    firmware_name,
                )) is Ok)) ==> second.1.len() == 2 && second.1[1] is RunCommand
        },
{
    if let Ok(t) = resolve_result(targets, device) {
        if let Some(template) = t.flash {
            lemma_render_args_pointwise(t, template, Some(path), firmware_name);
            lemma_render_args_all_ok(t, template, Some(path), firmware_name);
        }
    }
}

proof fn lemma_render_args_all_ok(
    t: ResolvedView,
    args: Seq<Seq<char>>,
    firmware: Option<Seq<char>>,
    firmware_name: Seq<char>,
)
    ensures
        (forall|j: int|
            0 <= j < args.len() ==> (#[trigger] render_arg_result(
                t,
                args[j],
                firmware,
                firmware_name,
            )) is Ok) ==> crate::runner::render_args(t, args, firmware, firmware_name) is Ok,
    decreases args.len(),
{
    if args.len() > 0 {
        lemma_render_args_all_ok(t, args.drop_last(), firmware, firmware_name);
        if forall|j: int|
            0 <= j < args.len() ==> (#[trigger] render_arg_result(
                t,
                args[j],
                firmware,
                firmware_name,
            )) is Ok {
            assert forall|j: int| 0 <= j < args.drop_last().len() implies (#[trigger] render_arg_result(
                t,
                args.drop_last()[j],
                firmware,
                firmware_name,
            )) is Ok by {
                assert(args.drop_last()[j] == args[j]);
            }
            assert(render_arg_result(t, args[args.len() - 1], firmware, firmware_name) is Ok);
        }
    }
}

/// The completion event is sent only as the connection's last event: the
/// step that sends it finishes the stream and ends the session.
pub proof fn lemma_done_ends_session(
    s: StateView,
    peers: Seq<PeerKey>,
    targets: Seq<(Seq<char>, TargetView)>,
    i: InputView,
    k: int,
)
    requires
        0 <= k < next(s, peers, targets, i).1.len(),
        next(s, peers, targets, i).1[k] matches ActionView::Send(EventView::Done { .. }),
    ensures
        next(s, peers, targets, i).1[k] matches ActionView::Send(EventView::Done { success })
            ==> next(s, peers, targets, i) == done(success),
{
    let r = next(s, peers, targets, i);
    match (s, i) {
        (
            StateView::Receiving { target, firmware_name, expected, after: AfterUpload::Monitor },
            InputView::FirmwareStored { copied, path },
        ) => {
            if copied == expected {
                let saved = ActionView::Send(EventView::FirmwareSaved { bytes: expected });
                let l = launch(monitor_result(target, Some(path), firmware_name));
                assert(r.1 == seq![saved] + l.1);
                assert(r.1[k] == if k == 0 { saved } else { l.1[k - 1] });
            }
        },
        _ => {},
    }
}

/// The completion event that the agent sends decides the workstation's
/// result: success exactly when the agent reported success.
pub proof fn lemma_done_decides_client(prior: Option<bool>, success: bool)
    ensures
        done(success).1[0] == ActionView::Send(EventView::Done { success }),
        crate::client::outcome_result(
            crate::client::client_step(prior, EventView::Done { success }).0,
        ) is Ok <==> success,
{
}

} // verus!
