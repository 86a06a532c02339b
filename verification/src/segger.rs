//! The decisions of a SEGGER RTT monitor: which endpoint to reach, and the
//! events its stream becomes.
use vstd::prelude::*;

use crate::command::{lossy_output, output_text};
use crate::config::{SeggerRttConfig, SeggerRttView};
use crate::protocol::{EventView, Phase, WireEvent};
use crate::text::{decimal, push_decimal, push_char, trim, trim_text};

verus! {

/// Why a SEGGER RTT endpoint cannot be reached.
#[derive(Debug, Clone, Copy, PartialEq, Eq, Structural)]
pub enum SeggerError {
    EmptyHost,
    ZeroPort,
}

/// `host:port` of an endpoint.
pub open spec fn endpoint_text(c: SeggerRttView) -> Seq<char> {
    c.host + seq![':'] + decimal(c.port as nat)
}

/// The endpoint of `c`, or why it cannot be reached: a host of white space
/// only, or port 0.
pub open spec fn endpoint_result(c: SeggerRttView) -> Result<Seq<char>, SeggerError> {
    if trim_text(c.host).len() == 0 {
        Err(SeggerError::EmptyHost)
    } else if c.port == 0 {
        Err(SeggerError::ZeroPort)
    } else {
        Ok(endpoint_text(c))
    }
}

/// An RTT stream at a checked endpoint.
pub struct RttSession {
    pub endpoint: String,
}

impl RttSession {
    /// Checks the endpoint of `config`; on success returns the session and
    /// the status event announcing the connection attempt.
    pub fn start(config: &SeggerRttConfig) -> (r: Result<(RttSession, WireEvent), SeggerError>)
        ensures
            match (r, endpoint_result(config@)) {
                (Ok((s, ev)), Ok(e)) => s.endpoint@ == e && ev@ == (EventView::Status {
                    message: "connecting to SEGGER RTT at "@ + e,
                }),
                (Err(x), Err(y)) => x == y,
                _ => false,
            },
    {
        let host = trim(config.host.as_str());
        if host.as_str().is_empty() {
            return Err(SeggerError::EmptyHost);
        }
        if config.port == 0 {
            return Err(SeggerError::ZeroPort);
        }
        let mut endpoint = config.host.clone();
        push_char(&mut endpoint, ':');
        push_decimal(&mut endpoint, config.port as u64);
        assert(endpoint@ =~= endpoint_text(config@));
        let mut message = String::from_str("connecting to SEGGER RTT at ");
        message.append(endpoint.as_str());
        Ok((RttSession { endpoint }, WireEvent::Status { message }))
    }

    /// The status event once connected.
    pub fn connected(&self) -> (ev: WireEvent)
        ensures
            ev@ == (EventView::Status { message: "connected to SEGGER RTT at "@ + self.endpoint@ }),
    {
        let mut message = String::from_str("connected to SEGGER RTT at ");
        message.append(self.endpoint.as_str());
        WireEvent::Status { message }
    }

    /// The event for one read from the stream, and whether the stream is over:
    /// an empty read means the endpoint closed it, which ends the monitor
    /// successfully.
    pub fn on_read(&self, data: &[u8]) -> (r: (WireEvent, bool))
        ensures
            data@.len() == 0 ==> r.1 && r.0@ == (EventView::Status {
                message: "SEGGER RTT connection at "@ + self.endpoint@ + " closed"@,
            }),
            data@.len() > 0 ==> !r.1 && r.0@ == (EventView::Stdout {
                phase: Phase::Monitor,
                text: output_text(data@),
            }) && output_text(data@).len() > 0,
    {
        if data.len() == 0 {
            let mut message = String::from_str("SEGGER RTT connection at ");
            message.append(self.endpoint.as_str());
            message.append(" closed");
            (WireEvent::Status { message }, true)
        } else {
            (WireEvent::Stdout { phase: Phase::Monitor, text: lossy_output(data) }, false)
        }
    }
}

} // verus!
