use gcode_stream::controller::{AdvanceAction, FlowController};
use gcode_stream::model::run_session;
use gcode_stream::protocol::{
    cancel_marker_bytes, cancelled_note_bytes, frame_command, ok_token_bytes, pause_command_bytes,
    pause_marker_bytes, paused_note_bytes, resume_command_bytes, resume_marker_bytes,
    resumed_note_bytes, start_token_bytes,
};
use gcode_stream::text::{contains_bytes, normalize_line, starts_with_bytes, trim_bytes};

fn b(s: &str) -> Vec<u8> {
    s.as_bytes().to_vec()
}

fn lines(xs: &[&str]) -> Vec<Vec<u8>> {
    let mut v = Vec::new();
    for x in xs {
        v.push(b(x));
    }
    v
}

#[test]
fn tokens_have_their_literal_values() {
    assert_eq!(cancel_marker_bytes(), b("action:cancel"));
    assert_eq!(pause_marker_bytes(), b("action:pause"));
    assert_eq!(resume_marker_bytes(), b("action:resume"));
    assert_eq!(start_token_bytes(), b("start"));
    assert_eq!(ok_token_bytes(), b("ok"));
    assert_eq!(pause_command_bytes(), b("M601"));
    assert_eq!(resume_command_bytes(), b("M602"));
    assert_eq!(cancelled_note_bytes(), b("USER CANCELLED"));
    assert_eq!(paused_note_bytes(), b("PAUSED"));
    assert_eq!(resumed_note_bytes(), b("RESUMED"));
}

#[test]
fn trim_removes_surrounding_whitespace() {
    assert_eq!(trim_bytes(&b("  G1 X10 \t\r\n")), b("G1 X10"));
    assert_eq!(trim_bytes(&b("G1")), b("G1"));
    assert_eq!(trim_bytes(&b("   ")), b(""));
    assert_eq!(trim_bytes(&b("")), b(""));
}

#[test]
fn normalize_strips_comment_and_whitespace() {
    assert_eq!(normalize_line(&b("G1 X10 ; move")), Some(b("G1 X10")));
    assert_eq!(normalize_line(&b("G1 X10")), Some(b("G1 X10")));
    assert_eq!(normalize_line(&b("  G28  ")), Some(b("G28")));
}

#[test]
fn normalize_keeps_only_the_part_before_the_first_delimiter() {
    assert_eq!(normalize_line(&b("a;b;c")), Some(b("a")));
    assert_eq!(normalize_line(&b("M104 S200 ; heat ; really")), Some(b("M104 S200")));
}

#[test]
fn blank_and_comment_only_lines_yield_no_command() {
    assert_eq!(normalize_line(&b("")), None);
    assert_eq!(normalize_line(&b("   ")), None);
    assert_eq!(normalize_line(&b("; just a comment")), None);
    assert_eq!(normalize_line(&b("  \t ; indented comment")), None);
    assert_eq!(normalize_line(&b(";")), None);
}

#[test]
fn substring_and_prefix_search() {
    assert!(contains_bytes(&b("echo: action:pause requested"), &pause_marker_bytes()));
    assert!(!contains_bytes(&b("action:paus"), &pause_marker_bytes()));
    assert!(contains_bytes(&b("x"), &b("")));
    assert!(starts_with_bytes(&b("ok T:210"), &ok_token_bytes()));
    assert!(!starts_with_bytes(&b(" ok"), &ok_token_bytes()));
    assert!(!starts_with_bytes(&b("o"), &ok_token_bytes()));
}

#[test]
fn framed_command_ends_with_crlf() {
    assert_eq!(frame_command(&b("G1 X10")), b("G1 X10\r\n"));
    assert_eq!(frame_command(&b("")), b("\r\n"));
}

#[test]
fn fresh_controller_is_idle_until_started() {
    let mut c = FlowController::new();
    assert!(!c.running && !c.device_online && !c.pending_pause && !c.paused);
    c.start();
    assert!(c.running);
}

#[test]
fn device_echo_is_trimmed_and_mirrored() {
    let mut c = FlowController::new();
    c.start();
    let r = c.on_device_line(&b("  echo: busy \r"));
    assert_eq!(r.outputs, lines(&["echo: busy"]));
    assert_eq!(r.transmit, None);
    assert!(!r.advance);
}

#[test]
fn handshake_advances_once_and_only_once() {
    let mut c = FlowController::new();
    c.start();
    let r1 = c.on_device_line(&b("start"));
    assert!(r1.advance);
    assert!(c.device_online);
    let r2 = c.on_device_line(&b("start"));
    assert!(!r2.advance);
}

#[test]
fn acknowledgment_advances_only_while_not_paused() {
    let mut c = FlowController::new();
    c.start();
    c.device_online = true;
    let r1 = c.on_device_line(&b("ok T:210"));
    assert!(r1.advance);
    c.paused = true;
    let r2 = c.on_device_line(&b("ok"));
    assert!(!r2.advance);
    assert!(c.paused);
}

#[test]
fn pause_is_injected_at_the_next_advance() {
    let mut c = FlowController::new();
    c.start();
    c.device_online = true;
    let r = c.on_device_line(&b("// action:pause"));
    assert_eq!(r.outputs, lines(&["// action:pause", "PAUSED"]));
    assert_eq!(r.transmit, None);
    assert!(!r.advance);
    assert!(c.pending_pause);
    let r2 = c.on_device_line(&b("ok"));
    assert!(r2.advance);
    match c.advance_step() {
        AdvanceAction::Transmit(cmd) => assert_eq!(cmd, b("M601")),
        AdvanceAction::PullInput => panic!("expected the injected pause command"),
    }
    assert!(!c.pending_pause);
    assert!(c.paused);
}

#[test]
fn resume_transmits_immediately() {
    let mut c = FlowController::new();
    c.start();
    c.device_online = true;
    c.paused = true;
    let r = c.on_device_line(&b("// action:resume"));
    assert_eq!(r.outputs, lines(&["// action:resume", "RESUMED"]));
    assert_eq!(r.transmit, Some(b("M602")));
    assert!(!r.advance);
}

#[test]
fn cancel_stops_the_session() {
    let mut c = FlowController::new();
    c.start();
    let r = c.on_device_line(&b("// action:cancel"));
    assert_eq!(r.outputs, lines(&["// action:cancel", "USER CANCELLED"]));
    assert_eq!(r.transmit, None);
    assert!(!r.advance);
    assert!(!c.running);
}

#[test]
fn end_of_input_stops_the_session_without_error() {
    let mut c = FlowController::new();
    c.start();
    c.end_of_input();
    assert!(!c.running);
}

#[test]
fn session_streams_one_command_per_acknowledgment() {
    let log = run_session(
        &lines(&["G1 X10 ; move", "", "; note", "G1 X20"]),
        &lines(&["start", "ok", "ok"]),
    );
    assert_eq!(log.transmits, lines(&["G1 X10", "G1 X20"]));
    assert_eq!(log.outputs, lines(&["start", "ok", "ok"]));
    assert_eq!(log.consumed, 4);
    assert!(!log.state.running);
}

#[test]
fn session_second_handshake_has_no_effect() {
    let log = run_session(&lines(&["G1 X10", "G1 X20"]), &lines(&["start", "start"]));
    assert_eq!(log.transmits, lines(&["G1 X10"]));
    assert_eq!(log.consumed, 1);
    assert!(log.state.running);
}

#[test]
fn session_pause_defers_until_acknowledgment() {
    let log = run_session(
        &lines(&["G1 X10", "G1 X20"]),
        &lines(&["start", "// action:pause", "ok", "ok"]),
    );
    assert_eq!(log.transmits, lines(&["G1 X10", "M601"]));
    assert_eq!(
        log.outputs,
        lines(&["start", "// action:pause", "PAUSED", "ok", "ok"]),
    );
    assert!(log.state.paused);
    assert_eq!(log.consumed, 1);
}

#[test]
fn session_resume_bypasses_the_gate() {
    let log = run_session(
        &lines(&["G1 X10", "G1 X20"]),
        &lines(&["start", "// action:pause", "ok", "// action:resume"]),
    );
    assert_eq!(log.transmits, lines(&["G1 X10", "M601", "M602"]));
    assert!(log.outputs.contains(&b("RESUMED")));
}

#[test]
fn session_cancel_ends_the_run_at_once() {
    let log = run_session(
        &lines(&["G1 X10", "G1 X20", "G1 X30"]),
        &lines(&["start", "// action:cancel", "ok", "ok"]),
    );
    assert_eq!(log.transmits, lines(&["G1 X10"]));
    assert_eq!(
        log.outputs,
        lines(&["start", "// action:cancel", "USER CANCELLED"]),
    );
    assert!(!log.state.running);
    assert_eq!(log.consumed, 1);
}

#[test]
fn session_exhausted_input_ends_cleanly() {
    let log = run_session(&lines(&["G1 X10"]), &lines(&["start", "ok", "ok"]));
    assert_eq!(log.transmits, lines(&["G1 X10"]));
    assert!(!log.state.running);
    assert_eq!(log.consumed, 1);
}

#[test]
fn session_with_no_events_does_nothing() {
    let log = run_session(&lines(&["G1 X10"]), &lines(&[]));
    assert_eq!(log.transmits, lines(&[]));
    assert_eq!(log.outputs, lines(&[]));
    assert!(log.state.running);
    assert_eq!(log.consumed, 0);
}

#[test]
fn acknowledgment_alone_advances_even_before_handshake() {
    // Only the handshake path is gated on `device_online`; a bare
    // acknowledgment advances the stream whether or not the handshake has
    // been seen.  A real device acknowledges only commands it received,
    // so this arises only from a device that skips its handshake.
    let log = run_session(&lines(&["G1 X10"]), &lines(&["ok"]));
    assert_eq!(log.transmits, lines(&["G1 X10"]));
    assert!(!log.state.device_online);
}

#[test]
fn resume_leaves_the_paused_flag_as_is() {
    // Handling a resume signal transmits the resume command at once but
    // does not itself clear `paused`, so a later acknowledgment is still
    // gated.
    let log = run_session(
        &lines(&["G1 X10", "G1 X20"]),
        &lines(&["start", "// action:pause", "ok", "// action:resume", "ok"]),
    );
    assert_eq!(log.transmits, lines(&["G1 X10", "M601", "M602"]));
    assert!(log.state.paused);
    assert_eq!(log.consumed, 1);
}

#[test]
fn session_ignores_lines_before_handshake() {
    let log = run_session(&lines(&["G1 X10"]), &lines(&["echo: booting", "hello"]));
    assert_eq!(log.transmits, lines(&[]));
    assert_eq!(log.outputs, lines(&["echo: booting", "hello"]));
    assert!(log.state.running);
    assert_eq!(log.consumed, 0);
}
