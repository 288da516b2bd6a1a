//! The fixed protocol vocabulary: action markers and tokens the device
//! sends, the synthetic pause/resume commands sent back to it, the status
//! lines written to the primary output, and the line terminator.

use vstd::prelude::*;

verus! {

/// The marker `action:cancel` in a device line: abandon the stream.
pub open spec fn cancel_marker() -> Seq<u8> {
    seq![97u8, 99u8, 116u8, 105u8, 111u8, 110u8, 58u8, 99u8, 97u8, 110u8, 99u8, 101u8, 108u8]
}

/// The marker `action:pause` in a device line: inject a pause command at
/// the next send opportunity.
pub open spec fn pause_marker() -> Seq<u8> {
    seq![97u8, 99u8, 116u8, 105u8, 111u8, 110u8, 58u8, 112u8, 97u8, 117u8, 115u8, 101u8]
}

/// The marker `action:resume` in a device line: send the resume command at
/// once.
pub open spec fn resume_marker() -> Seq<u8> {
    seq![97u8, 99u8, 116u8, 105u8, 111u8, 110u8, 58u8, 114u8, 101u8, 115u8, 117u8, 109u8, 101u8]
}

/// The handshake prefix `start`: the device is ready for its first command.
pub open spec fn start_token() -> Seq<u8> {
    seq![115u8, 116u8, 97u8, 114u8, 116u8]
}

/// The acknowledgment prefix `ok`: the device consumed the last command.
pub open spec fn ok_token() -> Seq<u8> {
    seq![111u8, 107u8]
}

/// The fixed pause command `M601`.
pub open spec fn pause_command() -> Seq<u8> {
    seq![77u8, 54u8, 48u8, 49u8]
}

/// The fixed resume command `M602`.
pub open spec fn resume_command() -> Seq<u8> {
    seq![77u8, 54u8, 48u8, 50u8]
}

/// The status line `USER CANCELLED`.
pub open spec fn cancelled_note() -> Seq<u8> {
    seq![85u8, 83u8, 69u8, 82u8, 32u8, 67u8, 65u8, 78u8, 67u8, 69u8, 76u8, 76u8, 69u8, 68u8]
}

/// The status line `PAUSED`.
pub open spec fn paused_note() -> Seq<u8> {
    seq![80u8, 65u8, 85u8, 83u8, 69u8, 68u8]
}

/// The status line `RESUMED`.
pub open spec fn resumed_note() -> Seq<u8> {
    seq![82u8, 69u8, 83u8, 85u8, 77u8, 69u8, 68u8]
}

/// The protocol line terminator: carriage return, line feed.
pub open spec fn terminator() -> Seq<u8> {
    seq![13u8, 10u8]
}

/// Runtime value of `cancel_marker`.
pub fn cancel_marker_bytes() -> (v: Vec<u8>)
    ensures
        v@ == cancel_marker(),
{
    let v: Vec<u8> = vec![97u8, 99u8, 116u8, 105u8, 111u8, 110u8, 58u8, 99u8, 97u8, 110u8, 99u8, 101u8, 108u8];
    proof {
        assert(v@ =~= cancel_marker());
    }
    v
}

/// Runtime value of `pause_marker`.
pub fn pause_marker_bytes() -> (v: Vec<u8>)
    ensures
        v@ == pause_marker(),
{
    let v: Vec<u8> = vec![97u8, 99u8, 116u8, 105u8, 111u8, 110u8, 58u8, 112u8, 97u8, 117u8, 115u8, 101u8];
    proof {
        assert(v@ =~= pause_marker());
    }
    v
}

/// Runtime value of `resume_marker`.
pub fn resume_marker_bytes() -> (v: Vec<u8>)
    ensures
        v@ == resume_marker(),
{
    let v: Vec<u8> = vec![97u8, 99u8, 116u8, 105u8, 111u8, 110u8, 58u8, 114u8, 101u8, 115u8, 117u8, 109u8, 101u8];
    proof {
        assert(v@ =~= resume_marker());
    }
    v
}

/// Runtime value of `start_token`.
pub fn start_token_bytes() -> (v: Vec<u8>)
    ensures
        v@ == start_token(),
{
    let v: Vec<u8> = vec![115u8, 116u8, 97u8, 114u8, 116u8];
    proof {
        assert(v@ =~= start_token());
    }
    v
}

/// Runtime value of `ok_token`.
pub fn ok_token_bytes() -> (v: Vec<u8>)
    ensures
        v@ == ok_token(),
{
    let v: Vec<u8> = vec![111u8, 107u8];
    proof {
        assert(v@ =~= ok_token());
    }
    v
}

/// Runtime value of `pause_command`.
pub fn pause_command_bytes() -> (v: Vec<u8>)
    ensures
        v@ == pause_command(),
{
    let v: Vec<u8> = vec![77u8, 54u8, 48u8, 49u8];
    proof {
        assert(v@ =~= pause_command());
    }
    v
}

/// Runtime value of `resume_command`.
pub fn resume_command_bytes() -> (v: Vec<u8>)
    ensures
        v@ == resume_command(),
{
    let v: Vec<u8> = vec![77u8, 54u8, 48u8, 50u8];
    proof {
        assert(v@ =~= resume_command());
    }
    v
}

/// Runtime value of `cancelled_note`.
pub fn cancelled_note_bytes() -> (v: Vec<u8>)
    ensures
        v@ == cancelled_note(),
{
    let v: Vec<u8> = vec![85u8, 83u8, 69u8, 82u8, 32u8, 67u8, 65u8, 78u8, 67u8, 69u8, 76u8, 76u8, 69u8, 68u8];
    proof {
        assert(v@ =~= cancelled_note());
    }
    v
}

/// Runtime value of `paused_note`.
pub fn paused_note_bytes() -> (v: Vec<u8>)
    ensures
        v@ == paused_note(),
{
    let v: Vec<u8> = vec![80u8, 65u8, 85u8, 83u8, 69u8, 68u8];
    proof {
        assert(v@ =~= paused_note());
    }
    v
}

/// Runtime value of `resumed_note`.
pub fn resumed_note_bytes() -> (v: Vec<u8>)
    ensures
        v@ == resumed_note(),
{
    let v: Vec<u8> = vec![82u8, 69u8, 83u8, 85u8, 77u8, 69u8, 68u8];
    proof {
        assert(v@ =~= resumed_note());
    }
    v
}

/// A command framed for the wire: its text followed by the terminator.
pub fn frame_command(cmd: &Vec<u8>) -> (out: Vec<u8>)
    ensures
        out@ == cmd@ + terminator(),
{
    let mut out: Vec<u8> = Vec::new();
    let mut i: usize = 0;
    while i < cmd.len()
        invariant
            0 <= i <= cmd@.len(),
            out@ == cmd@.subrange(0, i as int),
        decreases cmd@.len() - i,
    {
        out.push(cmd[i]);
        assert(out@ =~= cmd@.subrange(0, i + 1));
        i = i + 1;
    }
    out.push(13u8);
    out.push(10u8);
    proof {
        assert(cmd@.subrange(0, cmd@.len() as int) =~= cmd@);
        assert(out@ =~= cmd@ + terminator());
    }
    out
}

} // verus!
