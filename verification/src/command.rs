//! Outbound command encoding.
//!
//! Every directive to the minifilter is one fixed-size record: a 32-bit
//! message-type code, the 32-bit pid it concerns, the 64-bit gid it concerns,
//! and a null-terminated UTF-16 path buffer of 520 code units. Fields a given
//! message type does not use are zero-filled. The layout is a compiled
//! contract with the kernel side: field order, widths and little-endian byte
//! order must not change.

use crate::utf16::{encode_utf16_units, utf16_encode};
use crate::wire::{
    lemma_u16s_at_of_to_le_bytes, lemma_u16s_to_le_bytes_len, push_u16s_le, push_u32_le,
    push_u64_le, read_u16s_at, read_u32_at, read_u64_at, spec_u16s_at, spec_u16s_to_le_bytes,
};
use vstd::bytes::*;
use vstd::prelude::*;

verus! {

/// Capacity of a command's path buffer in UTF-16 code units, terminator
/// included.
pub const BUF_PATH_LEN: usize = 520;

/// Size in bytes of one encoded command: two 32-bit fields, one 64-bit field,
/// and the path buffer.
pub const COM_MESSAGE_SIZE: usize = 1056;

/// The directives the usermode agent can send to the minifilter.
#[derive(Debug, Clone, Copy, PartialEq, Eq, Structural)]
pub enum ComMessageType {
    /// Ask the minifilter to also watch a directory.
    MessageAddScanDirectory,
    /// Ask the minifilter to stop watching a directory.
    MessageRemScanDirectory,
    /// Ask for the next batch of I/O events, if any.
    MessageGetOps,
    /// Register this agent's own pid, so its I/O is not reported back.
    MessageSetPid,
    /// Ask the minifilter to kill every process of the family with this gid.
    MessageKillGid,
}

/// The wire code of each message type; the kernel side is compiled against
/// these exact values.
pub open spec fn message_type_code(t: ComMessageType) -> u32 {
    match t {
        ComMessageType::MessageAddScanDirectory => 0u32,
        ComMessageType::MessageRemScanDirectory => 1u32,
        ComMessageType::MessageGetOps => 2u32,
        ComMessageType::MessageSetPid => 3u32,
        ComMessageType::MessageKillGid => 4u32,
    }
}

impl ComMessageType {
    /// The wire code of this message type.
    pub fn code(&self) -> (r: u32)
        ensures
            r == message_type_code(*self),
    {
        match self {
            ComMessageType::MessageAddScanDirectory => 0u32,
            ComMessageType::MessageRemScanDirectory => 1u32,
            ComMessageType::MessageGetOps => 2u32,
            ComMessageType::MessageSetPid => 3u32,
            ComMessageType::MessageKillGid => 4u32,
        }
    }
}

/// `s` padded with zero units up to length `n`.
pub open spec fn zero_pad(s: Seq<u16>, n: int) -> Seq<u16>
    recommends
        s.len() <= n,
{
    s + Seq::new((n - s.len()) as nat, |i: int| 0u16)
}

/// Whether a path string can be carried by a command: its UTF-16 encoding
/// holds no interior null unit and leaves room for the terminator.
pub open spec fn path_fits(s: Seq<char>) -> bool {
    &&& utf16_encode(s).len() + 1 <= BUF_PATH_LEN
    &&& !utf16_encode(s).contains(0u16)
}

/// One outbound command record, in field form. `path` always holds exactly
/// [`BUF_PATH_LEN`] code units.
#[derive(Debug, Clone)]
pub struct ComMessage {
    /// Wire code of the message type.
    pub mtype: u32,
    /// The pid the message concerns; zero when unused.
    pub pid: u32,
    /// The gid the message concerns; zero when unused.
    pub gid: u64,
    /// Null-terminated UTF-16 path buffer; all zero when unused.
    pub path: Vec<u16>,
}

/// The byte image of one command, little-endian field by field.
pub open spec fn spec_encode_com_message(m: ComMessage) -> Seq<u8> {
    spec_u32_to_le_bytes(m.mtype) + spec_u32_to_le_bytes(m.pid) + spec_u64_to_le_bytes(m.gid)
        + spec_u16s_to_le_bytes(m.path@)
}

impl ComMessage {
    /// A command is well-formed when its path buffer has the fixed capacity.
    pub open spec fn wf(&self) -> bool {
        self.path@.len() == BUF_PATH_LEN
    }

    /// Encodes this command into the exact byte image the driver expects.
    pub fn encode(&self) -> (r: Vec<u8>)
        requires
            self.wf(),
        ensures
            r@ == spec_encode_com_message(*self),
            r@.len() == COM_MESSAGE_SIZE,
    {
        let mut r: Vec<u8> = Vec::new();
        push_u32_le(&mut r, self.mtype);
        push_u32_le(&mut r, self.pid);
        push_u64_le(&mut r, self.gid);
        push_u16s_le(&mut r, &self.path);
        proof {
            lemma_u16s_to_le_bytes_len(self.path@);
            lemma_auto_spec_u32_to_from_le_bytes();
            lemma_auto_spec_u64_to_from_le_bytes();
            assert(r@ =~= spec_encode_com_message(*self));
        }
        r
    }

    /// Decodes a byte buffer against the fixed command layout; `None` exactly
    /// when the buffer has the wrong size.
    pub fn decode(buf: &[u8]) -> (r: Option<ComMessage>)
        ensures
            r is Some <==> buf@.len() == COM_MESSAGE_SIZE,
            r matches Some(m) ==> {
                &&& m.wf()
                &&& m.mtype == spec_u32_from_le_bytes(buf@.subrange(0, 4))
                &&& m.pid == spec_u32_from_le_bytes(buf@.subrange(4, 8))
                &&& m.gid == spec_u64_from_le_bytes(buf@.subrange(8, 16))
                &&& m.path@ == spec_u16s_at(buf@, 16, BUF_PATH_LEN as int)
            },
    {
        if buf.len() != COM_MESSAGE_SIZE {
            return None;
        }
        let mtype = read_u32_at(buf, 0);
        let pid = read_u32_at(buf, 4);
        let gid = read_u64_at(buf, 8);
        let path = read_u16s_at(buf, 16, BUF_PATH_LEN);
        Some(ComMessage { mtype, pid, gid, path })
    }
}

/// Law: decoding the byte image of a well-formed command recovers every field
/// value, so one poll-loop round trip loses nothing.
pub proof fn lemma_com_message_round_trip(m: ComMessage)
    requires
        m.wf(),
    ensures
        spec_encode_com_message(m).len() == COM_MESSAGE_SIZE,
        spec_u32_from_le_bytes(spec_encode_com_message(m).subrange(0, 4)) == m.mtype,
        spec_u32_from_le_bytes(spec_encode_com_message(m).subrange(4, 8)) == m.pid,
        spec_u64_from_le_bytes(spec_encode_com_message(m).subrange(8, 16)) == m.gid,
        spec_u16s_at(spec_encode_com_message(m), 16, BUF_PATH_LEN as int) == m.path@,
{
    let b = spec_encode_com_message(m);
    lemma_u16s_to_le_bytes_len(m.path@);
    lemma_auto_spec_u32_to_from_le_bytes();
    lemma_auto_spec_u64_to_from_le_bytes();
    assert(b.subrange(0, 4) =~= spec_u32_to_le_bytes(m.mtype));
    assert(b.subrange(4, 8) =~= spec_u32_to_le_bytes(m.pid));
    assert(b.subrange(8, 16) =~= spec_u64_to_le_bytes(m.gid));
    assert(b.subrange(16, COM_MESSAGE_SIZE as int) =~= spec_u16s_to_le_bytes(m.path@));
    lemma_u16s_at_of_to_le_bytes(b, 16, m.path@);
}

/// Converts a path string into the fixed command buffer: its UTF-16 units,
/// one null terminator, and zero fill. `None` exactly when the encoding
/// holds an interior null unit or is too long for the buffer — an oversized
/// path is refused outright rather than silently truncated.
pub fn string_to_commessage_buffer(bufstr: &str) -> (r: Option<Vec<u16>>)
    ensures
        r is Some <==> path_fits(bufstr@),
        r matches Some(buf) ==> {
            &&& buf@.len() == BUF_PATH_LEN
            &&& buf@ == zero_pad(utf16_encode(bufstr@), BUF_PATH_LEN as int)
        },
{
    let units = encode_utf16_units(bufstr);
    let n = units.len();
    if n >= BUF_PATH_LEN {
        return None;
    }
    let mut i: usize = 0;
    while i < n
        invariant
            i <= n,
            n == units@.len(),
            units@ == utf16_encode(bufstr@),
            forall|j: int| 0 <= j < i ==> units@[j] != 0u16,
        decreases n - i,
    {
        if units[i] == 0 {
            assert(units@.contains(0u16));
            return None;
        }
        i = i + 1;
    }
    proof {
        assert(!units@.contains(0u16)) by {
            if units@.contains(0u16) {
                let j = choose|j: int| 0 <= j < units@.len() && units@[j] == 0u16;
                assert(units@[j] != 0u16);
            }
        }
    }
    let mut buf = units;
    while buf.len() < BUF_PATH_LEN
        invariant
            utf16_encode(bufstr@).len() <= buf@.len() <= BUF_PATH_LEN,
            buf@ == zero_pad(utf16_encode(bufstr@), buf@.len() as int),
        decreases BUF_PATH_LEN - buf@.len(),
    {
        buf.push(0);
        proof {
            assert(buf@ =~= zero_pad(utf16_encode(bufstr@), buf@.len() as int));
        }
    }
    proof {
        assert(buf@ =~= zero_pad(utf16_encode(bufstr@), BUF_PATH_LEN as int));
    }
    Some(buf)
}

/// Builds one outbound command from its logical fields. `None` exactly when
/// the path does not fit the fixed buffer.
pub fn build_irp_msg(commsgtype: ComMessageType, pid: u32, gid: u64, path: &str) -> (r: Option<
    ComMessage,
>)
    ensures
        r is Some <==> path_fits(path@),
        r matches Some(m) ==> {
            &&& m.wf()
            &&& m.mtype == message_type_code(commsgtype)
            &&& m.pid == pid
            &&& m.gid == gid
            &&& m.path@ == zero_pad(utf16_encode(path@), BUF_PATH_LEN as int)
        },
{
    match string_to_commessage_buffer(path) {
        Some(buf) => Some(
            ComMessage { mtype: commsgtype.code(), pid, gid, path: buf },
        ),
        None => None,
    }
}

/// An all-zero path buffer, for the commands that carry no path.
pub fn empty_path_buffer() -> (r: Vec<u16>)
    ensures
        r@ == Seq::new(BUF_PATH_LEN as nat, |i: int| 0u16),
        r@.len() == BUF_PATH_LEN,
{
    let r: Vec<u16> = vec![0u16; BUF_PATH_LEN];
    proof {
        assert(r@ =~= Seq::new(BUF_PATH_LEN as nat, |i: int| 0u16));
    }
    r
}

/// Builds the poll command asking for the next batch of events. Only the
/// sender's pid is carried; gid and path are unused and zero-filled.
pub fn build_get_ops_msg(pid: u32) -> (m: ComMessage)
    ensures
        m.wf(),
        m.mtype == message_type_code(ComMessageType::MessageGetOps),
        m.pid == pid,
        m.gid == 0,
        m.path@ == Seq::new(BUF_PATH_LEN as nat, |i: int| 0u16),
{
    ComMessage {
        mtype: ComMessageType::MessageGetOps.code(),
        pid,
        gid: 0,
        path: empty_path_buffer(),
    }
}

/// Builds the kill-group command for one process family. Only the gid is
/// carried; pid and path are unused and zero-filled.
pub fn build_kill_msg(gid: u64) -> (m: ComMessage)
    ensures
        m.wf(),
        m.mtype == message_type_code(ComMessageType::MessageKillGid),
        m.pid == 0,
        m.gid == gid,
        m.path@ == Seq::new(BUF_PATH_LEN as nat, |i: int| 0u16),
{
    ComMessage {
        mtype: ComMessageType::MessageKillGid.code(),
        pid: 0,
        gid,
        path: empty_path_buffer(),
    }
}

/// The fixed volume-device path carried by the register-pid command fits its
/// buffer: it is short, ASCII, and free of null characters.
pub proof fn lemma_set_pid_path_fits()
    ensures
        path_fits("\\Device\\harddiskVolume"@),
{
    reveal_strlit("\\Device\\harddiskVolume");
    let s = "\\Device\\harddiskVolume"@;
    assert(s.len() == 22);
    assert(forall|i: int| 0 <= i < s.len() ==> (s[i] as u32) < 0x10000 && s[i] != '\u{0}');
    crate::utf16::lemma_utf16_encode_bmp(s);
    let enc = utf16_encode(s);
    assert(!enc.contains(0u16)) by {
        if enc.contains(0u16) {
            let j = choose|j: int| 0 <= j < enc.len() && enc[j] == 0u16;
            assert(enc[j] == ((s[j] as u32) as u16));
            assert(s[j] != '\u{0}');
        }
    }
}

/// Builds the register-pid command that excludes the agent's own I/O from
/// event delivery. It carries the fixed volume-device path the driver
/// expects; that path always fits the buffer, so the command always builds.
pub fn build_set_pid_msg(pid: u32) -> (m: ComMessage)
    ensures
        m.wf(),
        m.mtype == message_type_code(ComMessageType::MessageSetPid),
        m.pid == pid,
        m.gid == 0,
        m.path@ == zero_pad(utf16_encode("\\Device\\harddiskVolume"@), BUF_PATH_LEN as int),
{
    proof {
        lemma_set_pid_path_fits();
    }
    match build_irp_msg(ComMessageType::MessageSetPid, pid, 0, "\\Device\\harddiskVolume") {
        Some(m) => m,
        None => vstd::pervasive::unreached(),
    }
}

} // verus!
