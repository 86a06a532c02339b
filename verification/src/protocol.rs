//! Messages exchanged between the bench agent and a workstation, and the
//! length-prefixed framing that carries them.
use vstd::prelude::*;

verus! {

/// Largest frame body, in bytes, that either side sends or accepts.
pub const MAX_FRAME_BYTES: u32 = 1048576;

/// Target overrides sent by the workstation with a request.
pub struct DeviceOverrides {
    pub target: Option<String>,
    pub platform: Option<Platform>,
    pub serial: Option<String>,
    pub baud: Option<u32>,
    pub chip: Option<String>,
}

pub struct DeviceView {
    pub target: Option<Seq<char>>,
    pub platform: Option<Platform>,
    pub serial: Option<Seq<char>>,
    pub baud: Option<u32>,
    pub chip: Option<Seq<char>>,
}

impl View for DeviceOverrides {
    type V = DeviceView;

    open spec fn view(&self) -> DeviceView {
        DeviceView {
            target: crate::config::opt_text(self.target),
            platform: self.platform,
            serial: crate::config::opt_text(self.serial),
            baud: self.baud,
            chip: crate::config::opt_text(self.chip),
        }
    }
}

/// A firmware image that follows a request on the stream.
pub struct FirmwareUpload {
    pub name: String,
    pub len: u64,
}

/// A request from the workstation.
pub enum WireRequest {
    Flash { device: DeviceOverrides, firmware_name: String, firmware_len: u64, monitor_after: bool },
    Monitor { device: DeviceOverrides, firmware: Option<FirmwareUpload> },
}

/// An event streamed back from the agent.
pub enum WireEvent {
    Accepted { peer: String },
    FirmwareSaved { bytes: u64 },
    Status { message: String },
    TargetResolved { target: String, platform: Option<Platform> },
    CommandStarted { phase: Phase, argv: Vec<String> },
    Stdout { phase: Phase, text: String },
    Stderr { phase: Phase, text: String },
    CommandExited { phase: Phase, code: Option<i32>, success: bool },
    Done { success: bool },
    Error { message: String },
}

pub struct UploadView {
    pub name: Seq<char>,
    pub len: u64,
}

impl View for FirmwareUpload {
    type V = UploadView;

    open spec fn view(&self) -> UploadView {
        UploadView { name: self.name@, len: self.len }
    }
}

pub enum RequestView {
    Flash { device: DeviceView, firmware_name: Seq<char>, firmware_len: u64, monitor_after: bool },
    Monitor { device: DeviceView, firmware: Option<UploadView> },
}

impl View for WireRequest {
    type V = RequestView;

    open spec fn view(&self) -> RequestView {
        match self {
            WireRequest::Flash { device, firmware_name, firmware_len, monitor_after } =>
                RequestView::Flash {
                device: device@,
                firmware_name: firmware_name@,
                firmware_len: *firmware_len,
                monitor_after: *monitor_after,
            },
            WireRequest::Monitor { device, firmware } => RequestView::Monitor {
                device: device@,
                firmware: match firmware {
                    Some(u) => Some(u@),
                    None => None,
                },
            },
        }
    }
}

pub enum EventView {
    Accepted { peer: Seq<char> },
    FirmwareSaved { bytes: u64 },
    Status { message: Seq<char> },
    TargetResolved { target: Seq<char>, platform: Option<Platform> },
    CommandStarted { phase: Phase, argv: Seq<Seq<char>> },
    Stdout { phase: Phase, text: Seq<char> },
    Stderr { phase: Phase, text: Seq<char> },
    CommandExited { phase: Phase, code: Option<i32>, success: bool },
    Done { success: bool },
    Error { message: Seq<char> },
}

impl View for WireEvent {
    type V = EventView;

    open spec fn view(&self) -> EventView {
        match self {
            WireEvent::Accepted { peer } => EventView::Accepted { peer: peer@ },
            WireEvent::FirmwareSaved { bytes } => EventView::FirmwareSaved { bytes: *bytes },
            WireEvent::Status { message } => EventView::Status { message: message@ },
            WireEvent::TargetResolved { target, platform } => EventView::TargetResolved {
                target: target@,
                platform: *platform,
            },
            WireEvent::CommandStarted { phase, argv } => EventView::CommandStarted {
                phase: *phase,
                argv: argv.deep_view(),
            },
            WireEvent::Stdout { phase, text } => EventView::Stdout { phase: *phase, text: text@ },
            WireEvent::Stderr { phase, text } => EventView::Stderr { phase: *phase, text: text@ },
            WireEvent::CommandExited { phase, code, success } => EventView::CommandExited {
                phase: *phase,
                code: *code,
                success: *success,
            },
            WireEvent::Done { success } => EventView::Done { success: *success },
            WireEvent::Error { message } => EventView::Error { message: message@ },
        }
    }
}

/// The step of a request that a command belongs to.
#[derive(Debug, Clone, Copy, PartialEq, Eq, Structural)]
pub enum Phase {
    Flash,
    Monitor,
}

/// A family of boards.
#[derive(Debug, Clone, Copy, PartialEq, Eq, Structural)]
pub enum Platform {
    Esp,
    Stm32,
    Nordic,
}

/// The lower-case name of a platform.
pub open spec fn platform_text(p: Platform) -> Seq<char> {
    match p {
        Platform::Esp => seq!['e', 's', 'p'],
        Platform::Stm32 => seq!['s', 't', 'm', '3', '2'],
        Platform::Nordic => seq!['n', 'o', 'r', 'd', 'i', 'c'],
    }
}

impl Platform {
    /// The lower-case name of the platform, as written in configuration files.
    pub fn name(&self) -> (s: String)
        ensures
            s@ == platform_text(*self),
    {
        match self {
            Platform::Esp => {
                let s = String::from_str("esp");
                proof {
                    reveal_strlit("esp");
                }
                s
            },
            Platform::Stm32 => {
                let s = String::from_str("stm32");
                proof {
                    reveal_strlit("stm32");
                }
                s
            },
            Platform::Nordic => {
                let s = String::from_str("nordic");
                proof {
                    reveal_strlit("nordic");
                }
                s
            },
        }
    }
}

// ---------------------------------------------------------------------------
// Framing
// ---------------------------------------------------------------------------

/// Why a frame could not be written or read.
#[derive(Debug, Clone, Copy, PartialEq, Eq, Structural)]
pub enum FrameError {
    /// The body is longer than a 32-bit length prefix can express.
    LengthOverflow,
    /// The body is longer than `MAX_FRAME_BYTES`.
    OverLimit { len: u32 },
    /// The stream ended before the announced body was complete.
    Truncated { expected: u32, available: u64 },
}

/// The big-endian bytes of `n`.
pub open spec fn be_bytes(n: u32) -> Seq<u8> {
    seq![
        (n / 0x1000000) as u8,
        ((n / 0x10000) % 0x100) as u8,
        ((n / 0x100) % 0x100) as u8,
        (n % 0x100) as u8,
    ]
}

/// The number whose big-endian bytes are `b[0..4]`.
pub open spec fn be_value(b: Seq<u8>) -> u32 {
    (b[0] * 0x1000000 + b[1] * 0x10000 + b[2] * 0x100 + b[3]) as u32
}

/// The frame that carries `body`: its length as 4 big-endian bytes, then the body.
pub open spec fn frame_bytes(body: Seq<u8>) -> Seq<u8> {
    be_bytes(body.len() as u32) + body
}

/// What writing `body` as a frame yields.
pub open spec fn encode_result(body: Seq<u8>) -> Result<Seq<u8>, FrameError> {
    if body.len() > u32::MAX {
        Err(FrameError::LengthOverflow)
    } else if body.len() > MAX_FRAME_BYTES {
        Err(FrameError::OverLimit { len: body.len() as u32 })
    } else {
        Ok(frame_bytes(body))
    }
}

/// What reading one frame from the start of `buf` yields: `None` when the
/// stream ends before a whole length prefix, else the body and the number of
/// bytes the frame takes.
pub open spec fn decode_result(buf: Seq<u8>) -> Result<Option<(Seq<u8>, int)>, FrameError> {
    if buf.len() < 4 {
        Ok(None)
    } else {
        let n = be_value(buf);
        if n > MAX_FRAME_BYTES {
            Err(FrameError::OverLimit { len: n })
        } else if buf.len() < 4 + n {
            Err(FrameError::Truncated { expected: n, available: (buf.len() - 4) as u64 })
        } else {
            Ok(Some((buf.subrange(4, 4 + n), 4 + n)))
        }
    }
}

proof fn lemma_be_roundtrip(n: u32)
    ensures
        be_value(be_bytes(n)) == n,
{
    assert(n / 0x1000000 < 0x100) by (bit_vector);
    assert((n / 0x1000000) * 0x1000000 + ((n / 0x10000) % 0x100) * 0x10000 + ((n / 0x100)
        % 0x100) * 0x100 + (n % 0x100) == n) by (bit_vector);
}

/// A frame written for a body within the limit reads back as that body, and
/// the bytes that follow it are left for the next frame.
pub proof fn lemma_frame_roundtrip(body: Seq<u8>, rest: Seq<u8>)
    requires
        body.len() <= MAX_FRAME_BYTES,
    ensures
        encode_result(body) == Ok::<Seq<u8>, FrameError>(frame_bytes(body)),
        decode_result(frame_bytes(body) + rest) == Ok::<Option<(Seq<u8>, int)>, FrameError>(
            Some((body, 4 + body.len() as int)),
        ),
{
    let buf = frame_bytes(body) + rest;
    lemma_be_roundtrip(body.len() as u32);
    assert(be_value(buf) == be_value(be_bytes(body.len() as u32)));
    assert(buf.subrange(4, 4 + body.len() as int) =~= body);
}

/// A body over the limit is never written, and a prefix announcing one is
/// never accepted.
pub proof fn lemma_frame_limit(body: Seq<u8>, buf: Seq<u8>)
    requires
        body.len() > MAX_FRAME_BYTES,
        buf.len() >= 4,
        be_value(buf) > MAX_FRAME_BYTES,
    ensures
        encode_result(body) is Err,
        decode_result(buf) is Err,
{
}

/// Writes `body` as a frame: its length as 4 big-endian bytes, then the body.
pub fn encode_frame(body: &[u8]) -> (r: Result<Vec<u8>, FrameError>)
    ensures
        match (r, encode_result(body@)) {
            (Ok(v), Ok(s)) => v@ == s,
            (Err(e), Err(f)) => e == f,
            _ => false,
        },
{
    let len = body.len();
    if len as u64 > 0xffff_ffffu64 {
        return Err(FrameError::LengthOverflow);
    }
    let n = len as u32;
    if n > MAX_FRAME_BYTES {
        return Err(FrameError::OverLimit { len: n });
    }
    let mut out: Vec<u8> = Vec::new();
    out.push((n / 0x1000000) as u8);
    out.push(((n / 0x10000) % 0x100) as u8);
    out.push(((n / 0x100) % 0x100) as u8);
    out.push((n % 0x100) as u8);
    let mut i: usize = 0;
    while i < len
        invariant
            len == body@.len(),
            n == len,
            i <= len,
            out@ == be_bytes(n) + body@.take(i as int),
        decreases len - i,
    {
        out.push(body[i]);
        i = i + 1;
        assert(out@ =~= be_bytes(n) + body@.take(i as int));
    }
    assert(body@.take(len as int) =~= body@);
    Ok(out)
}

/// The body length announced by a 4-byte frame prefix, refused over the limit.
pub fn frame_body_len(header: [u8; 4]) -> (r: Result<u32, FrameError>)
    ensures
        be_value(header@) > MAX_FRAME_BYTES ==> r == Err::<u32, FrameError>(
            FrameError::OverLimit { len: be_value(header@) },
        ),
        be_value(header@) <= MAX_FRAME_BYTES ==> r == Ok::<u32, FrameError>(be_value(header@)),
{
    let b0 = header[0] as u32;
    let b1 = header[1] as u32;
    let b2 = header[2] as u32;
    let b3 = header[3] as u32;
    assert(b0 * 0x1000000 + b1 * 0x10000 + b2 * 0x100 + b3 <= 0xffff_ffff) by (nonlinear_arith)
        requires
            b0 < 256,
            b1 < 256,
            b2 < 256,
            b3 < 256,
    ;
    let n = b0 * 0x1000000 + b1 * 0x10000 + b2 * 0x100 + b3;
    assert(n == be_value(header@));
    if n > MAX_FRAME_BYTES {
        Err(FrameError::OverLimit { len: n })
    } else {
        Ok(n)
    }
}

/// Reads one frame from the start of `buf`.
pub fn decode_frame(buf: &[u8]) -> (r: Result<Option<(Vec<u8>, usize)>, FrameError>)
    ensures
        match (r, decode_result(buf@)) {
            (Ok(None), Ok(None)) => true,
            (Ok(Some((body, used))), Ok(Some((b, u)))) => body@ == b && used == u,
            (Err(e), Err(f)) => e == f,
            _ => false,
        },
{
    if buf.len() < 4 {
        return Ok(None);
    }
    let header: [u8; 4] = [buf[0], buf[1], buf[2], buf[3]];
    assert(header@ =~= buf@.take(4));
    let n = match frame_body_len(header) {
        Ok(n) => n,
        Err(e) => return Err(e),
    };
    let avail = buf.len() - 4;
    if (avail as u64) < (n as u64) {
        return Err(FrameError::Truncated { expected: n, available: avail as u64 });
    }
    let end = 4 + n as usize;
    let mut body: Vec<u8> = Vec::new();
    let mut i: usize = 4;
    while i < end
        invariant
            4 <= i <= end <= buf@.len(),
            body@ == buf@.subrange(4, i as int),
        decreases end - i,
    {
        body.push(buf[i]);
        i = i + 1;
        assert(body@ =~= buf@.subrange(4, i as int));
    }
    Ok(Some((body, end)))
}

} // verus!
