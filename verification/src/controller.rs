//! The flow controller: the state machine that decides, on each device
//! line, what to echo, what to transmit, and whether the stream may
//! advance by one command.
//!
//! The controller itself performs no input or output.  The surrounding
//! driver hands it each line received from the device and each raw input
//! line it asks for, and carries out the transmissions and echoes the
//! controller returns.

use vstd::prelude::*;

use crate::protocol::{
    cancel_marker, cancel_marker_bytes, cancelled_note, cancelled_note_bytes, ok_token,
    ok_token_bytes, pause_command, pause_command_bytes, pause_marker, pause_marker_bytes,
    paused_note, paused_note_bytes, resume_command, resume_command_bytes, resume_marker,
    resume_marker_bytes, resumed_note, resumed_note_bytes, start_token, start_token_bytes,
};
use crate::text::{
    contains_bytes, contains_spec, starts_with_bytes, starts_with_spec, trim_bytes, trim_spec,
};

verus! {

/// The session state owned by the flow controller.
#[derive(Clone, Copy, PartialEq, Eq, Structural, Debug)]
pub struct FlowController {
    /// The control loop should keep waiting for events.
    pub running: bool,
    /// The handshake has been observed; gates the first transmission.
    pub device_online: bool,
    /// A pause command must be injected at the next send opportunity.
    pub pending_pause: bool,
    /// A pause command went out and no resume signal has been handled.
    pub paused: bool,
}

/// How a trimmed device line is classified, in the fixed match order:
/// cancel, pause, resume, handshake, acknowledgment, anything else.
pub enum LineClass {
    Cancel,
    Pause,
    Resume,
    Start,
    Ack,
    Other,
}

/// Classification of a trimmed device line.  Only the first matching rule
/// fires: the action markers are sought anywhere in the line, the
/// handshake and acknowledgment tokens only as prefixes.
pub open spec fn classify(t: Seq<u8>) -> LineClass {
    if contains_spec(t, cancel_marker()) {
        LineClass::Cancel
    } else if contains_spec(t, pause_marker()) {
        LineClass::Pause
    } else if contains_spec(t, resume_marker()) {
        LineClass::Resume
    } else if starts_with_spec(t, start_token()) {
        LineClass::Start
    } else if starts_with_spec(t, ok_token()) {
        LineClass::Ack
    } else {
        LineClass::Other
    }
}

/// The state after the immediate effect of one trimmed device line,
/// before any advance it may have requested.
pub open spec fn rx_state(s: FlowController, t: Seq<u8>) -> FlowController {
    match classify(t) {
        LineClass::Cancel => FlowController { running: false, ..s },
        LineClass::Pause => FlowController { pending_pause: true, ..s },
        LineClass::Resume => s,
        LineClass::Start => if !s.device_online {
            FlowController { device_online: true, ..s }
        } else {
            s
        },
        LineClass::Ack => s,
        LineClass::Other => s,
    }
}

/// The lines a trimmed device line puts on the primary output: the line
/// itself, then the status note its classification calls for.
pub open spec fn rx_outputs(t: Seq<u8>) -> Seq<Seq<u8>> {
    match classify(t) {
        LineClass::Cancel => seq![t, cancelled_note()],
        LineClass::Pause => seq![t, paused_note()],
        LineClass::Resume => seq![t, resumed_note()],
        LineClass::Start => seq![t],
        LineClass::Ack => seq![t],
        LineClass::Other => seq![t],
    }
}

/// The command a trimmed device line has transmitted at once: only a
/// resume signal does, bypassing the advance gate.
pub open spec fn rx_transmit(t: Seq<u8>) -> Option<Seq<u8>> {
    if classify(t) is Resume {
        Some(resume_command())
    } else {
        None
    }
}

/// Whether a device line satisfies an advance condition: the first
/// handshake, or an acknowledgment while not paused.
pub open spec fn rx_advance(s: FlowController, t: Seq<u8>) -> bool {
    (classify(t) is Start && !s.device_online) || (classify(t) is Ack && !s.paused)
}

/// What the controller asks of the driver after one device line.
pub struct RxResponse {
    /// Lines for the primary output, in order.
    pub outputs: Vec<Vec<u8>>,
    /// A command to transmit at once, if any.
    pub transmit: Option<Vec<u8>>,
    /// The stream may advance by one command: the driver must run the
    /// advance steps next.
    pub advance: bool,
}

/// The first advance step: either a command to transmit, or a request to
/// pull raw input lines.
pub enum AdvanceAction {
    /// Transmit this command; the advance is complete.
    Transmit(Vec<u8>),
    /// Pull raw lines, offering each to `normalize_line`, until one yields
    /// a command to transmit or the source is exhausted.
    PullInput,
}

impl FlowController {
    /// A fresh controller: not running, handshake unseen, no pause in any
    /// form.
    pub fn new() -> (c: Self)
        ensures
            c == (FlowController {
                running: false,
                device_online: false,
                pending_pause: false,
                paused: false,
            }),
    {
        FlowController { running: false, device_online: false, pending_pause: false, paused: false }
    }

    /// Enter the control loop: the session is now running.
    pub fn start(&mut self)
        ensures
            *final(self) == (FlowController { running: true, ..*old(self) }),
    {
        self.running = true;
    }

    /// The line source is exhausted: the session winds down without error.
    pub fn end_of_input(&mut self)
        ensures
            *final(self) == (FlowController { running: false, ..*old(self) }),
    {
        self.running = false;
    }

    /// Handle one line received from the device: trim it, echo it, and
    /// classify it in the fixed order.  The response carries the echo and
    /// status lines, any immediate transmission, and whether the stream
    /// may advance.
    pub fn on_device_line(&mut self, raw: &Vec<u8>) -> (r: RxResponse)
        ensures
            *final(self) == rx_state(*old(self), trim_spec(raw@)),
            r.outputs.deep_view() == rx_outputs(trim_spec(raw@)),
            r.transmit.deep_view() == rx_transmit(trim_spec(raw@)),
            r.advance == rx_advance(*old(self), trim_spec(raw@)),
    {
        let line = trim_bytes(raw);
        let mut outputs: Vec<Vec<u8>> = Vec::new();
        let mut transmit: Option<Vec<u8>> = None;
        let mut advance = false;
        let ghost t = trim_spec(raw@);
        if contains_bytes(&line, &cancel_marker_bytes()) {
            outputs.push(line);
            outputs.push(cancelled_note_bytes());
            self.running = false;
            proof {
                assert(outputs.deep_view() =~~= rx_outputs(t));
            }
        } else if contains_bytes(&line, &pause_marker_bytes()) {
            outputs.push(line);
            outputs.push(paused_note_bytes());
            self.pending_pause = true;
            proof {
                assert(outputs.deep_view() =~~= rx_outputs(t));
            }
        } else if contains_bytes(&line, &resume_marker_bytes()) {
            outputs.push(line);
            outputs.push(resumed_note_bytes());
            let rc = resume_command_bytes();
            proof {
                assert(rc.deep_view() =~= resume_command());
            }
            transmit = Some(rc);
            proof {
                assert(outputs.deep_view() =~~= rx_outputs(t));
            }
        } else {
            let is_start = starts_with_bytes(&line, &start_token_bytes());
            let is_ack = starts_with_bytes(&line, &ok_token_bytes());
            outputs.push(line);
            if is_start {
                if !self.device_online {
                    self.device_online = true;
                    advance = true;
                }
            } else if is_ack {
                if !self.paused {
                    advance = true;
                }
            }
            proof {
                assert(outputs.deep_view() =~~= rx_outputs(t));
            }
        }
        RxResponse { outputs, transmit, advance }
    }

    /// The first step of an advance.  A pending pause is consumed here:
    /// the fixed pause command goes out instead of an input line and the
    /// stream is now paused.  Otherwise the driver must pull input.
    pub fn advance_step(&mut self) -> (a: AdvanceAction)
        ensures
            old(self).pending_pause ==> (a matches AdvanceAction::Transmit(c) && c@
                == pause_command()) && *final(self) == (FlowController {
                pending_pause: false,
                paused: true,
                ..*old(self)
            }),
            !old(self).pending_pause ==> (a is PullInput) && *final(self) == *old(self),
    {
        if self.pending_pause {
            self.pending_pause = false;
            self.paused = true;
            AdvanceAction::Transmit(pause_command_bytes())
        } else {
            AdvanceAction::PullInput
        }
    }
}

} // verus!
