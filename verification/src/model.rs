//! The session as a mathematical object: what a whole run transmits and
//! outputs, as a function of the input lines and the device's lines, and
//! the laws the state machine obeys.

use vstd::prelude::*;

use crate::controller::{
    classify, rx_advance, rx_outputs, rx_state, rx_transmit, AdvanceAction, FlowController,
};
use crate::protocol::{pause_command, resume_command};
use crate::text::{normalize_line, normalize_spec, trim_spec};

verus! {

/// The first command the line source yields at or after `cursor`: the
/// position just past the line it came from, and the normalized command.
/// `None` when every remaining line normalizes to nothing.
pub open spec fn next_command_from(input: Seq<Seq<u8>>, cursor: int) -> Option<(int, Seq<u8>)>
    decreases input.len() - cursor
        when 0 <= cursor <= input.len()
{
    if cursor < 0 || cursor >= input.len() {
        None
    } else if normalize_spec(input[cursor]).len() > 0 {
        Some((cursor + 1, normalize_spec(input[cursor])))
    } else {
        next_command_from(input, cursor + 1)
    }
}

/// One satisfied advance condition: the state after it, the new input
/// cursor, and what it transmitted.  A pending pause is consumed without
/// touching the input; otherwise the next command is pulled, or the
/// session winds down when the source is exhausted.
pub open spec fn advance_spec(s: FlowController, input: Seq<Seq<u8>>, cursor: int) -> (
    FlowController,
    int,
    Seq<Seq<u8>>,
) {
    if s.pending_pause {
        (FlowController { pending_pause: false, paused: true, ..s }, cursor, seq![pause_command()])
    } else {
        match next_command_from(input, cursor) {
            Some(hit) => (s, hit.0, seq![hit.1]),
            None => (FlowController { running: false, ..s }, input.len() as int, Seq::empty()),
        }
    }
}

/// One device line handled in full: its immediate effect, then the
/// advance it satisfied, if any.  Yields the state, the cursor, the
/// commands transmitted and the lines put on the primary output.
pub open spec fn handle_spec(
    s: FlowController,
    input: Seq<Seq<u8>>,
    cursor: int,
    raw: Seq<u8>,
) -> (FlowController, int, Seq<Seq<u8>>, Seq<Seq<u8>>) {
    let t = trim_spec(raw);
    let s1 = rx_state(s, t);
    let tx0 = match rx_transmit(t) {
        Some(c) => seq![c],
        None => Seq::empty(),
    };
    if rx_advance(s, t) {
        let adv = advance_spec(s1, input, cursor);
        (adv.0, adv.1, tx0 + adv.2, rx_outputs(t))
    } else {
        (s1, cursor, tx0, rx_outputs(t))
    }
}

/// A whole run: device lines handled in order until none remain or the
/// controller stops running.  Yields the final state, the cursor, and
/// everything transmitted and output, in order.
pub open spec fn run_spec(
    s: FlowController,
    input: Seq<Seq<u8>>,
    cursor: int,
    events: Seq<Seq<u8>>,
) -> (FlowController, int, Seq<Seq<u8>>, Seq<Seq<u8>>)
    decreases events.len(),
{
    if events.len() == 0 || !s.running {
        (s, cursor, Seq::empty(), Seq::empty())
    } else {
        let step = handle_spec(s, input, cursor, events[0]);
        let rest = run_spec(step.0, input, step.1, events.drop_first());
        (rest.0, rest.1, step.2 + rest.2, step.3 + rest.3)
    }
}

/// The state a session starts in: running, with the handshake unseen and
/// no pause in any form.
pub open spec fn session_start() -> FlowController {
    FlowController { running: true, device_online: false, pending_pause: false, paused: false }
}

/// Everything one run of the state machine produced.
pub struct SessionLog {
    /// The controller state the run ended in.
    pub state: FlowController,
    /// How many input lines were consumed.
    pub consumed: usize,
    /// Every command transmitted, in order, bare of its terminator.
    pub transmits: Vec<Vec<u8>>,
    /// Every line put on the primary output, in order.
    pub outputs: Vec<Vec<u8>>,
}

/// The whole state machine run in isolation from any device: the given
/// lines stand for the line source, the given device lines for the event
/// channel, in order.  The log is exactly what `run_spec` says of them.
pub fn run_session(input: &Vec<Vec<u8>>, events: &Vec<Vec<u8>>) -> (log: SessionLog)
    ensures
        ({
            let r = run_spec(session_start(), input.deep_view(), 0, events.deep_view());
            &&& log.state == r.0
            &&& log.consumed as int == r.1
            &&& log.transmits.deep_view() == r.2
            &&& log.outputs.deep_view() == r.3
        }),
{
    let ghost di = input.deep_view();
    let ghost de = events.deep_view();
    let mut ctrl = FlowController::new();
    ctrl.start();
    let mut cursor: usize = 0;
    let mut transmits: Vec<Vec<u8>> = Vec::new();
    let mut outputs: Vec<Vec<u8>> = Vec::new();
    let mut i: usize = 0;
    proof {
        assert(de.skip(0) =~= de);
        assert(Seq::<Seq<u8>>::empty() + run_spec(session_start(), di, 0, de).2 =~= run_spec(
            session_start(),
            di,
            0,
            de,
        ).2);
        assert(Seq::<Seq<u8>>::empty() + run_spec(session_start(), di, 0, de).3 =~= run_spec(
            session_start(),
            di,
            0,
            de,
        ).3);
    }
    while i < events.len() && ctrl.running
        invariant
            di == input.deep_view(),
            de == events.deep_view(),
            0 <= i <= de.len(),
            0 <= cursor <= di.len(),
            ({
                let full = run_spec(session_start(), di, 0, de);
                let rem = run_spec(ctrl, di, cursor as int, de.skip(i as int));
                &&& full.0 == rem.0
                &&& full.1 == rem.1
                &&& full.2 == transmits.deep_view() + rem.2
                &&& full.3 == outputs.deep_view() + rem.3
            }),
        decreases de.len() - i,
    {
        let ghost ctrl0 = ctrl;
        let ghost cursor0 = cursor as int;
        let ghost tx_b = transmits.deep_view();
        let ghost out_b = outputs.deep_view();
        let ghost i0 = i as int;
        let ghost t = trim_spec(de[i0]);
        proof {
            assert(events@[i0].deep_view() =~= events@[i0]@);
        }
        let mut resp = ctrl.on_device_line(&events[i]);
        outputs.append(&mut resp.outputs);
        proof {
            assert(outputs.deep_view() =~~= out_b + rx_outputs(t));
        }
        let ghost tx0 = (match rx_transmit(t) {
            Some(c) => seq![c],
            None => Seq::<Seq<u8>>::empty(),
        });
        match resp.transmit {
            Some(c) => {
                proof {
                    assert(rx_transmit(t) == Some(c.deep_view()));
                    assert(c.deep_view() =~= c@);
                }
                transmits.push(c);
            },
            None => {},
        }
        proof {
            assert(transmits.deep_view() =~~= tx_b + tx0);
        }
        if resp.advance {
            match ctrl.advance_step() {
                AdvanceAction::Transmit(c) => {
                    proof {
                        assert(c.deep_view() =~= c@);
                    }
                    transmits.push(c);
                    proof {
                        assert(transmits.deep_view() =~~= tx_b + tx0 + seq![pause_command()]);
                    }
                },
                AdvanceAction::PullInput => {
                    let ghost c0 = cursor as int;
                    let mut adv_cmd: Option<Vec<u8>> = None;
                    while adv_cmd.is_none() && cursor < input.len()
                        invariant
                            di == input.deep_view(),
                            c0 <= cursor as int <= di.len(),
                            adv_cmd is None ==> next_command_from(di, c0) == next_command_from(
                                di,
                                cursor as int,
                            ),
                            adv_cmd matches Some(c) ==> next_command_from(di, c0) == Some(
                                (cursor as int, c@),
                            ),
                        decreases di.len() - cursor,
                    {
                        proof {
                            assert(input@[cursor as int].deep_view() =~= input@[cursor as int]@);
                        }
                        let r = normalize_line(&input[cursor]);
                        let ghost cb = cursor as int;
                        cursor = cursor + 1;
                        match r {
                            Some(cmd) => {
                                adv_cmd = Some(cmd);
                            },
                            None => {
                                proof {
                                    lemma_blank_line_skipped(di, cb);
                                }
                            },
                        }
                    }
                    match adv_cmd {
                        Some(cmd) => {
                            let ghost cmdv = cmd@;
                            proof {
                                assert(next_command_from(di, c0) == Some((cursor as int, cmdv)));
                                assert(cmd.deep_view() =~= cmd@);
                            }
                            transmits.push(cmd);
                            proof {
                                assert(transmits.deep_view() =~~= tx_b + tx0 + seq![cmdv]);
                            }
                        },
                        None => {
                            ctrl.end_of_input();
                        },
                    }
                },
            }
        }
        i = i + 1;
        proof {
            let full = run_spec(session_start(), di, 0, de);
            let step = handle_spec(ctrl0, di, cursor0, de[i0]);
            assert(de.skip(i0)[0] == de[i0]);
            assert(de.skip(i0).drop_first() =~= de.skip(i0 + 1));
            assert(ctrl == step.0);
            assert(cursor as int == step.1);
            assert(transmits.deep_view() =~~= tx_b + step.2);
            assert(outputs.deep_view() =~~= out_b + step.3);
            let rem0 = run_spec(ctrl0, di, cursor0, de.skip(i0));
            let rem = run_spec(ctrl, di, cursor as int, de.skip(i0 + 1));
            assert(rem0.2 == step.2 + rem.2);
            assert(rem0.3 == step.3 + rem.3);
            assert(full.2 =~= (tx_b + step.2) + rem.2);
            assert(full.3 =~= (out_b + step.3) + rem.3);
        }
    }
    proof {
        if i == events.len() {
            assert(de.skip(i as int) =~= Seq::<Seq<u8>>::empty());
        }
        let full = run_spec(session_start(), di, 0, de);
        let rem = run_spec(ctrl, di, cursor as int, de.skip(i as int));
        assert(rem.2 == Seq::<Seq<u8>>::empty() && rem.3 == Seq::<Seq<u8>>::empty());
        assert(full.2 =~= transmits.deep_view());
        assert(full.3 =~= outputs.deep_view());
    }
    SessionLog { state: ctrl, consumed: cursor, transmits, outputs }
}

/// Law: a blank or comment-only input line is skipped, never transmitted.
/// The search for the next command steps over it unchanged.
pub proof fn lemma_blank_line_skipped(input: Seq<Seq<u8>>, cursor: int)
    requires
        0 <= cursor < input.len(),
        normalize_spec(input[cursor]).len() == 0,
    ensures
        next_command_from(input, cursor) == next_command_from(input, cursor + 1),
{
}

/// Law: one satisfied advance condition transmits at most one command —
/// exactly one unless the line source is exhausted with no pause pending,
/// and then the session stops running instead.
pub proof fn lemma_one_transmission_per_advance(
    s: FlowController,
    input: Seq<Seq<u8>>,
    cursor: int,
)
    ensures
        advance_spec(s, input, cursor).2.len() <= 1,
        advance_spec(s, input, cursor).2.len() == 1 <==> (s.pending_pause || next_command_from(
            input,
            cursor,
        ) is Some),
        !s.pending_pause && next_command_from(input, cursor) is None ==> !advance_spec(
            s,
            input,
            cursor,
        ).0.running,
{
}

/// Law: one device line never transmits more than one command; nothing is
/// ever batched.
pub proof fn lemma_never_batched(
    s: FlowController,
    input: Seq<Seq<u8>>,
    cursor: int,
    raw: Seq<u8>,
)
    ensures
        handle_spec(s, input, cursor, raw).2.len() <= 1,
{
}

/// Law: while the stream is paused, an acknowledgment alone does nothing:
/// the state, the cursor and the transmissions are untouched; only the
/// echo of the line itself appears.
pub proof fn lemma_ack_while_paused(
    s: FlowController,
    input: Seq<Seq<u8>>,
    cursor: int,
    raw: Seq<u8>,
)
    requires
        s.paused,
        classify(trim_spec(raw)) is Ack,
    ensures
        handle_spec(s, input, cursor, raw).0 == s,
        handle_spec(s, input, cursor, raw).1 == cursor,
        handle_spec(s, input, cursor, raw).2 == Seq::<Seq<u8>>::empty(),
        handle_spec(s, input, cursor, raw).3 == seq![trim_spec(raw)],
{
}

/// Law: `paused` can only become true by consuming `pending_pause` while
/// an advance condition is satisfied, and the two are never left true
/// together by one step.
pub proof fn lemma_paused_only_from_pending(
    s: FlowController,
    input: Seq<Seq<u8>>,
    cursor: int,
    raw: Seq<u8>,
)
    ensures
        ({
            let s2 = handle_spec(s, input, cursor, raw).0;
            s2.paused != s.paused ==> {
                &&& s.pending_pause
                &&& !s2.pending_pause
                &&& s2.paused
                &&& rx_advance(s, trim_spec(raw))
            }
        }),
{
}

/// A run over a split event sequence is the run over the first part,
/// continued from where it left off over the second.
pub proof fn lemma_run_split(
    s: FlowController,
    input: Seq<Seq<u8>>,
    cursor: int,
    events: Seq<Seq<u8>>,
    n: int,
)
    requires
        0 <= n <= events.len(),
    ensures
        ({
            let pre = run_spec(s, input, cursor, events.take(n));
            let post = run_spec(pre.0, input, pre.1, events.skip(n));
            run_spec(s, input, cursor, events) == (post.0, post.1, pre.2 + post.2, pre.3 + post.3)
        }),
    decreases n,
{
    let pre = run_spec(s, input, cursor, events.take(n));
    let post = run_spec(pre.0, input, pre.1, events.skip(n));
    let full = run_spec(s, input, cursor, events);
    if n == 0 {
        assert(events.take(0).len() == 0);
        assert(events.skip(0) =~= events);
        assert(Seq::<Seq<u8>>::empty() + full.2 =~= full.2);
        assert(Seq::<Seq<u8>>::empty() + full.3 =~= full.3);
    } else if !s.running {
        assert(pre == (s, cursor, Seq::<Seq<u8>>::empty(), Seq::<Seq<u8>>::empty()));
        assert(post == (s, cursor, Seq::<Seq<u8>>::empty(), Seq::<Seq<u8>>::empty()));
        assert(Seq::<Seq<u8>>::empty() + Seq::<Seq<u8>>::empty() =~= Seq::<Seq<u8>>::empty());
    } else {
        let step = handle_spec(s, input, cursor, events[0]);
        let tail = events.drop_first();
        assert(events.take(n)[0] == events[0]);
        assert(events.take(n).drop_first() =~= tail.take(n - 1));
        assert(events.skip(n) =~= tail.skip(n - 1));
        lemma_run_split(step.0, input, step.1, tail, n - 1);
        let tpre = run_spec(step.0, input, step.1, tail.take(n - 1));
        let tpost = run_spec(tpre.0, input, tpre.1, tail.skip(n - 1));
        assert(pre.2 == step.2 + tpre.2);
        assert(pre.3 == step.3 + tpre.3);
        assert(pre.0 == tpre.0 && pre.1 == tpre.1);
        assert(full.2 =~= (step.2 + tpre.2) + tpost.2);
        assert(full.3 =~= (step.3 + tpre.3) + tpost.3);
    }
}

/// Law: before the handshake has been observed, no ordinary command goes
/// out.  Over any run whose device lines hold no handshake — and, as the
/// machine is defined, no acknowledgment, which a device never sends
/// before its handshake — everything transmitted is the fixed resume
/// command, never a command from the input stream.
pub proof fn lemma_no_command_before_handshake(
    s: FlowController,
    input: Seq<Seq<u8>>,
    cursor: int,
    events: Seq<Seq<u8>>,
)
    requires
        forall|i: int| 0 <= i < events.len() ==> !(classify(trim_spec(events[i])) is Start),
        forall|i: int| 0 <= i < events.len() ==> !(classify(trim_spec(events[i])) is Ack),
    ensures
        forall|k: int|
            0 <= k < run_spec(s, input, cursor, events).2.len() ==> run_spec(
                s,
                input,
                cursor,
                events,
            ).2[k] == resume_command(),
    decreases events.len(),
{
    if events.len() == 0 || !s.running {
    } else {
        let t = trim_spec(events[0]);
        let step = handle_spec(s, input, cursor, events[0]);
        assert(!rx_advance(s, t));
        let rest_events = events.drop_first();
        assert(forall|i: int|
            0 <= i < rest_events.len() ==> rest_events[i] == events[i + 1]);
        lemma_no_command_before_handshake(step.0, input, step.1, rest_events);
        let rest = run_spec(step.0, input, step.1, rest_events);
        assert forall|k: int|
            0 <= k < run_spec(s, input, cursor, events).2.len() implies run_spec(
            s,
            input,
            cursor,
            events,
        ).2[k] == resume_command() by {
            if k < step.2.len() {
                assert(run_spec(s, input, cursor, events).2[k] == step.2[k]);
            } else {
                assert(run_spec(s, input, cursor, events).2[k] == rest.2[k - step.2.len()]);
            }
        }
    }
}

/// Law: so long as the device sends no acknowledgment before its
/// handshake, everything transmitted ahead of the first handshake event is
/// the fixed resume command: no ordinary command from the input goes out
/// before the handshake has been observed.
pub proof fn lemma_transmits_before_handshake(
    s: FlowController,
    input: Seq<Seq<u8>>,
    cursor: int,
    events: Seq<Seq<u8>>,
    n: int,
)
    requires
        0 <= n <= events.len(),
        forall|i: int|
            0 <= i < events.len() && classify(trim_spec(events[i])) is Ack ==> exists|j: int|
                0 <= j < i && classify(trim_spec(events[j])) is Start,
        forall|j: int| 0 <= j < n ==> !(classify(trim_spec(events[j])) is Start),
    ensures
        ({
            let pre = run_spec(s, input, cursor, events.take(n));
            let full = run_spec(s, input, cursor, events);
            &&& full.2.take(pre.2.len() as int) == pre.2
            &&& forall|k: int| 0 <= k < pre.2.len() ==> pre.2[k] == resume_command()
        }),
{
    let sub = events.take(n);
    assert forall|i: int| 0 <= i < sub.len() implies !(classify(trim_spec(sub[i])) is Start)
        && !(classify(trim_spec(sub[i])) is Ack) by {
        assert(sub[i] == events[i]);
        if classify(trim_spec(events[i])) is Ack {
            let j = choose|j: int| 0 <= j < i && classify(trim_spec(events[j])) is Start;
            assert(false);
        }
    }
    lemma_no_command_before_handshake(s, input, cursor, sub);
    lemma_run_split(s, input, cursor, events, n);
    let pre = run_spec(s, input, cursor, sub);
    let full = run_spec(s, input, cursor, events);
    assert(full.2.take(pre.2.len() as int) =~= pre.2);
}

} // verus!
