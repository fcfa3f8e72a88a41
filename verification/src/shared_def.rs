//! Inbound reply layout: the event collection header, the raw event records
//! it links together, and their conversion into owned records.
//!
//! A poll reply is a 24-byte header followed, somewhere inside the caller's
//! scratch buffer, by a singly-linked list of fixed-layout event records. The
//! links are absolute addresses into that buffer, valid only until the next
//! poll reuses it, so every visited record is copied into an owned value
//! before the walk returns. The walk is bounded twice: by the header's record
//! count and by the first null link; a link that leaves the buffer ends the
//! walk early with the valid prefix, it is never followed.
//!
//! Record layout, byte offsets within one 104-byte record, little-endian:
//! extension `0..24` (12 UTF-16 units), volume serial number `24..32`, file
//! identifier `32..48`, bytes transferred `48..56`, entropy `56..64`
//! (IEEE 754 bits), pid `64..68`, operation byte `68`, entropy-computed flag
//! `69`, change byte `70`, location byte `71`, path length `72..74`, path
//! capacity `74..76`, path address `80..88`, gid `88..96`, next link
//! `96..104`.

use crate::utf16::{decode_utf16_units, utf16_decode};
use crate::wire::{
    read_bytes_at, read_u16_at, read_u16s_at, read_u32_at, read_u64_at, spec_u16s_at,
};
use vstd::bytes::{spec_u16_from_le_bytes, spec_u32_from_le_bytes, spec_u64_from_le_bytes};
use vstd::prelude::*;

verus! {

/// Size in bytes of a reply header.
pub const REPLY_HEADER_SIZE: usize = 24;

/// Capacity in bytes of the caller-owned scratch buffer a poll hands to the
/// driver — large enough for a typical batch; the driver spreads a larger
/// backlog over subsequent polls.
pub const REPLY_BUFFER_CAPACITY: usize = 65536;

/// Size in bytes of one raw event record.
pub const DRIVER_MSG_SIZE: usize = 104;

/// Number of UTF-16 code units in a record's extension field.
pub const EXTENSION_LEN: usize = 12;

/// The header of one poll reply.
#[derive(Debug, Clone, Copy, PartialEq, Eq, Structural)]
pub struct ReplyIrp {
    /// Total size in bytes the driver filled.
    pub data_size: u64,
    /// Address of the first event record; null when the collection is empty.
    pub data: u64,
    /// Number of event records the driver put in the collection.
    pub num_ops: u64,
}

/// The variable-length UTF-16 path span of a raw record: a unit count, the
/// span's capacity, and the address of its first unit inside the reply
/// buffer.
#[derive(Debug, Clone, Copy, PartialEq, Eq, Structural)]
pub struct UnicodeString {
    /// Number of code units to read at `buffer`.
    pub length: u16,
    /// Allocated capacity at `buffer`, in code units; carried but not used.
    pub maximum_length: u16,
    /// Address of the first code unit; an address, not an offset.
    pub buffer: u64,
}

/// One raw event record, copied field by field out of the reply buffer. Its
/// `filepath` and `next` fields still name addresses inside that buffer, so a
/// raw record is only meaningful while the buffer holds this reply.
#[derive(Debug)]
pub struct CDriverMsg {
    /// File extension, 12 UTF-16 code units, zero padded.
    pub extension: Vec<u16>,
    /// Serial number of the volume holding the file.
    pub file_id_vsn: u64,
    /// 128-bit file identifier on that volume.
    pub file_id_id: Vec<u8>,
    /// Number of bytes transferred by the operation.
    pub mem_sized_used: u64,
    /// Entropy estimate of the data, as the IEEE 754 bit pattern of the
    /// driver's 64-bit float; meaningful only when `is_entropy_calc` is set.
    pub entropy: u64,
    /// Pid of the process that performed the operation.
    pub pid: u32,
    /// Operation byte, decoded by [`crate::codes::IrpMajorOp::from_byte`].
    pub irp_op: u8,
    /// Whether the driver computed `entropy`.
    pub is_entropy_calc: u8,
    /// Change byte, decoded by [`crate::codes::FileChangeInfo::from_byte`].
    pub file_change: u8,
    /// Location byte, decoded by
    /// [`crate::codes::FileLocationInfo::from_byte`].
    pub file_location_info: u8,
    /// The file path span inside the reply buffer.
    pub filepath: UnicodeString,
    /// Gid of the process family the operation belongs to.
    pub gid: u64,
    /// Address of the next record; null ends the collection.
    pub next: u64,
}

impl Clone for CDriverMsg {
    /// A clone keeps every field value.
    fn clone(&self) -> (r: Self)
        ensures
            r@ == self@,
    {
        let r = CDriverMsg {
            extension: self.extension.clone(),
            file_id_vsn: self.file_id_vsn,
            file_id_id: self.file_id_id.clone(),
            mem_sized_used: self.mem_sized_used,
            entropy: self.entropy,
            pid: self.pid,
            irp_op: self.irp_op,
            is_entropy_calc: self.is_entropy_calc,
            file_change: self.file_change,
            file_location_info: self.file_location_info,
            filepath: self.filepath,
            gid: self.gid,
            next: self.next,
        };
        proof {
            assert(r@ =~= self@);
        }
        r
    }
}

/// Spec-level value of a raw record.
#[verifier::ext_equal]
pub struct CDriverMsgView {
    pub extension: Seq<u16>,
    pub file_id_vsn: u64,
    pub file_id_id: Seq<u8>,
    pub mem_sized_used: u64,
    pub entropy: u64,
    pub pid: u32,
    pub irp_op: u8,
    pub is_entropy_calc: u8,
    pub file_change: u8,
    pub file_location_info: u8,
    pub filepath: UnicodeString,
    pub gid: u64,
    pub next: u64,
}

impl View for CDriverMsg {
    type V = CDriverMsgView;

    open spec fn view(&self) -> CDriverMsgView {
        CDriverMsgView {
            extension: self.extension@,
            file_id_vsn: self.file_id_vsn,
            file_id_id: self.file_id_id@,
            mem_sized_used: self.mem_sized_used,
            entropy: self.entropy,
            pid: self.pid,
            irp_op: self.irp_op,
            is_entropy_calc: self.is_entropy_calc,
            file_change: self.file_change,
            file_location_info: self.file_location_info,
            filepath: self.filepath,
            gid: self.gid,
            next: self.next,
        }
    }
}

/// The raw record stored at byte offset `off` of the reply buffer.
pub open spec fn spec_msg_at(b: Seq<u8>, off: int) -> CDriverMsgView {
    CDriverMsgView {
        extension: spec_u16s_at(b, off, EXTENSION_LEN as int),
        file_id_vsn: spec_u64_from_le_bytes(b.subrange(off + 24, off + 32)),
        file_id_id: b.subrange(off + 32, off + 48),
        mem_sized_used: spec_u64_from_le_bytes(b.subrange(off + 48, off + 56)),
        entropy: spec_u64_from_le_bytes(b.subrange(off + 56, off + 64)),
        pid: spec_u32_from_le_bytes(b.subrange(off + 64, off + 68)),
        irp_op: b[off + 68],
        is_entropy_calc: b[off + 69],
        file_change: b[off + 70],
        file_location_info: b[off + 71],
        filepath: UnicodeString {
            length: spec_u16_from_le_bytes(b.subrange(off + 72, off + 74)),
            maximum_length: spec_u16_from_le_bytes(b.subrange(off + 74, off + 76)),
            buffer: spec_u64_from_le_bytes(b.subrange(off + 80, off + 88)),
        },
        gid: spec_u64_from_le_bytes(b.subrange(off + 88, off + 96)),
        next: spec_u64_from_le_bytes(b.subrange(off + 96, off + 104)),
    }
}

impl CDriverMsg {
    /// Copies the raw record at byte offset `off` out of the reply buffer.
    pub fn read_at(buf: &[u8], off: usize) -> (r: CDriverMsg)
        requires
            off + DRIVER_MSG_SIZE <= buf@.len(),
        ensures
            r@ == spec_msg_at(buf@, off as int),
    {
        proof {
            vstd::slice::axiom_spec_len(buf);
        }
        let r = CDriverMsg {
            extension: read_u16s_at(buf, off, EXTENSION_LEN),
            file_id_vsn: read_u64_at(buf, off + 24),
            file_id_id: read_bytes_at(buf, off + 32, 16),
            mem_sized_used: read_u64_at(buf, off + 48),
            entropy: read_u64_at(buf, off + 56),
            pid: read_u32_at(buf, off + 64),
            irp_op: *vstd::slice::slice_index_get(buf, off + 68),
            is_entropy_calc: *vstd::slice::slice_index_get(buf, off + 69),
            file_change: *vstd::slice::slice_index_get(buf, off + 70),
            file_location_info: *vstd::slice::slice_index_get(buf, off + 71),
            filepath: UnicodeString {
                length: read_u16_at(buf, off + 72),
                maximum_length: read_u16_at(buf, off + 74),
                buffer: read_u64_at(buf, off + 80),
            },
            gid: read_u64_at(buf, off + 88),
            next: read_u64_at(buf, off + 96),
        };
        proof {
            assert(r@ =~= spec_msg_at(buf@, off as int));
        }
        r
    }
}

/// Whether a link can be followed: it is non-null, points at or after the
/// buffer's base address, and a whole record fits between it and the buffer's
/// end.
pub open spec fn valid_link(b: Seq<u8>, base: u64, link: u64) -> bool {
    &&& link != 0
    &&& link >= base
    &&& link - base + DRIVER_MSG_SIZE <= b.len()
}

/// The link leaving the record that `link` points at.
pub open spec fn next_of(b: Seq<u8>, base: u64, link: u64) -> u64 {
    spec_msg_at(b, link - base).next
}

/// The addresses of the records a bounded walk of the linked list visits:
/// starting at `link`, at most `count` records, stopping early at a null link
/// or at a link a whole record does not fit behind.
pub open spec fn walk_links(b: Seq<u8>, base: u64, link: u64, count: nat) -> Seq<u64>
    decreases count,
{
    if count == 0 || !valid_link(b, base, link) {
        Seq::empty()
    } else {
        seq![link] + walk_links(b, base, next_of(b, base, link), (count - 1) as nat)
    }
}

/// The raw records a bounded walk of the linked list visits, in link order.
pub open spec fn walk_msgs(b: Seq<u8>, base: u64, link: u64, count: nat) -> Seq<CDriverMsgView> {
    walk_links(b, base, link, count).map_values(|l: u64| spec_msg_at(b, l - base))
}

impl ReplyIrp {
    /// Walks the reply's linked list and copies every visited record out of
    /// the buffer, in link order. `base` is the address of `buf`'s first
    /// byte, which the links are relative to.
    pub fn unpack_drivermsg(&self, buf: &[u8], base: u64) -> (r: Vec<CDriverMsg>)
        ensures
            r@.map_values(|m: CDriverMsg| m@) == walk_msgs(buf@, base, self.data, self.num_ops as nat),
            r@.len() <= self.num_ops,
            self.num_ops == 0 ==> r@.len() == 0,
    {
        proof {
            vstd::slice::axiom_spec_len(buf);
        }
        let buflen = buf.len();
        let mut r: Vec<CDriverMsg> = Vec::new();
        let mut link = self.data;
        let mut remaining = self.num_ops;
        while remaining > 0
            invariant
                buflen == buf@.len(),
                r@.len() + remaining <= self.num_ops,
                r@.map_values(|m: CDriverMsg| m@) + walk_msgs(buf@, base, link, remaining as nat)
                    == walk_msgs(buf@, base, self.data, self.num_ops as nat),
            decreases remaining,
        {
            let followable = link != 0 && link >= base && link - base <= (buflen as u64)
                && (buflen as u64) - (link - base) >= DRIVER_MSG_SIZE as u64;
            if followable {
                assert(valid_link(buf@, base, link));
                let off = (link - base) as usize;
                let msg = CDriverMsg::read_at(buf, off);
                let nxt = msg.next;
                proof {
                    assert(walk_links(buf@, base, link, remaining as nat) == seq![link]
                        + walk_links(buf@, base, next_of(buf@, base, link), (remaining - 1) as nat));
                    assert(msg@ == spec_msg_at(buf@, link - base));
                    assert(nxt == next_of(buf@, base, link));
                }
                let ghost old_r = r@;
                r.push(msg);
                proof {
                    assert(r@.map_values(|m: CDriverMsg| m@) =~= old_r.map_values(
                        |m: CDriverMsg| m@,
                    ) + seq![spec_msg_at(buf@, link - base)]);
                    assert(walk_msgs(buf@, base, link, remaining as nat) =~= seq![
                        spec_msg_at(buf@, link - base),
                    ] + walk_msgs(buf@, base, nxt, (remaining - 1) as nat));
                }
                link = nxt;
                remaining = remaining - 1;
            } else {
                proof {
                    assert(!valid_link(buf@, base, link));
                    assert(walk_msgs(buf@, base, link, remaining as nat) =~= Seq::<
                        CDriverMsgView,
                    >::empty());
                    assert(walk_msgs(buf@, base, link, 0) =~= Seq::<CDriverMsgView>::empty());
                }
                remaining = 0;
            }
        }
        proof {
            assert(walk_msgs(buf@, base, link, 0) =~= Seq::<CDriverMsgView>::empty());
            assert(r@.map_values(|m: CDriverMsg| m@) =~= walk_msgs(
                buf@,
                base,
                self.data,
                self.num_ops as nat,
            ));
        }
        r
    }

    /// Reads a poll outcome: `None` exactly when the driver wrote zero bytes
    /// (no new activity), otherwise the reply header at the buffer's start.
    pub fn from_poll(bytes_returned: u32, buf: &[u8]) -> (r: Option<ReplyIrp>)
        requires
            buf@.len() >= REPLY_HEADER_SIZE,
        ensures
            r is Some <==> bytes_returned != 0,
            r matches Some(h) ==> {
                &&& h.data_size == spec_u64_from_le_bytes(buf@.subrange(0, 8))
                &&& h.data == spec_u64_from_le_bytes(buf@.subrange(8, 16))
                &&& h.num_ops == spec_u64_from_le_bytes(buf@.subrange(16, 24))
            },
    {
        proof {
            vstd::slice::axiom_spec_len(buf);
        }
        if bytes_returned == 0 {
            None
        } else {
            Some(
                ReplyIrp {
                    data_size: read_u64_at(buf, 0),
                    data: read_u64_at(buf, 8),
                    num_ops: read_u64_at(buf, 16),
                },
            )
        }
    }
}

/// The prefix of a path span that precedes its first null unit. The span is
/// length-prefixed, so a null is only an early terminator: a span with no
/// null at all is taken whole.
pub open spec fn span_before_nul(u: Seq<u16>) -> Seq<u16>
    decreases u.len(),
{
    if u.len() == 0 {
        Seq::empty()
    } else if u[0] == 0 {
        Seq::empty()
    } else {
        seq![u[0]] + span_before_nul(u.skip(1))
    }
}

/// A span without any null unit is taken whole.
pub proof fn lemma_span_before_nul_whole(u: Seq<u16>)
    requires
        forall|j: int| 0 <= j < u.len() ==> u[j] != 0,
    ensures
        span_before_nul(u) == u,
    decreases u.len(),
{
    if u.len() > 0 {
        let rest = u.skip(1);
        assert(forall|j: int| 0 <= j < rest.len() ==> rest[j] == u[j + 1] && rest[j] != 0);
        lemma_span_before_nul_whole(rest);
        assert(seq![u[0]] + rest =~= u);
    }
}

/// When the first null of `u` sits at index `k`, the prefix before the null
/// is exactly the first `k` units.
pub proof fn lemma_span_before_nul_at(u: Seq<u16>, k: int)
    requires
        0 <= k < u.len(),
        u[k] == 0,
        forall|j: int| 0 <= j < k ==> u[j] != 0,
    ensures
        span_before_nul(u) == u.take(k),
    decreases k,
{
    if k == 0 {
        assert(span_before_nul(u) =~= u.take(0));
    } else {
        let rest = u.skip(1);
        assert(rest[k - 1] == u[k]);
        assert(forall|j: int| 0 <= j < k - 1 ==> rest[j] == u[j + 1] && rest[j] != 0);
        lemma_span_before_nul_at(rest, k - 1);
        assert(span_before_nul(u) == seq![u[0]] + rest.take(k - 1));
        assert(seq![u[0]] + rest.take(k - 1) =~= u.take(k));
    }
}

/// The UTF-16 units of a record's path span, read out of the reply buffer;
/// empty when the span's address is null or does not fit the buffer.
pub open spec fn spec_path_units(b: Seq<u8>, base: u64, us: UnicodeString) -> Seq<u16> {
    if us.buffer != 0 && us.buffer >= base && us.buffer - base + 2 * (us.length as int) <= b.len() {
        spec_u16s_at(b, us.buffer - base, us.length as int)
    } else {
        Seq::empty()
    }
}

/// The characters of a record's path: its span, cut at the first null unit
/// if one exists, decoded as UTF-16.
pub open spec fn spec_path_chars(b: Seq<u8>, base: u64, us: UnicodeString) -> Seq<char> {
    utf16_decode(span_before_nul(spec_path_units(b, base, us)))
}

impl UnicodeString {
    /// Materializes the path span as an owned string: reads `length` code
    /// units at the span's address, cuts at the first null unit if one
    /// exists, and decodes the UTF-16. A span that is null or does not fit
    /// the buffer yields the empty string.
    pub fn to_string(&self, buf: &[u8], base: u64) -> (r: String)
        ensures
            r@ == spec_path_chars(buf@, base, *self),
    {
        proof {
            vstd::slice::axiom_spec_len(buf);
        }
        let buflen = buf.len();
        let fits = self.buffer != 0 && self.buffer >= base && self.buffer - base <= (buflen as u64)
            && (buflen as u64) - (self.buffer - base) >= 2 * (self.length as u64);
        if !fits {
            proof {
                assert(spec_path_units(buf@, base, *self) =~= Seq::<u16>::empty());
                assert(span_before_nul(Seq::<u16>::empty()) =~= Seq::<u16>::empty());
                assert(utf16_decode(Seq::<u16>::empty()) =~= Seq::<char>::empty());
            }
            let empty = String::new();
            return empty;
        }
        let off = (self.buffer - base) as usize;
        let mut units = read_u16s_at(buf, off, self.length as usize);
        let n = units.len();
        let mut first_zero: usize = 0;
        let mut found = false;
        let mut i: usize = 0;
        while i < n
            invariant
                i <= n,
                n == units@.len(),
                !found ==> first_zero == 0 && (forall|j: int| 0 <= j < i ==> units@[j] != 0u16),
                found ==> i == n,
                found ==> {
                    &&& first_zero < n
                    &&& units@[first_zero as int] == 0u16
                    &&& (forall|j: int| 0 <= j < first_zero ==> units@[j] != 0u16)
                },
            decreases n - i,
        {
            if units[i] == 0 {
                first_zero = i;
                found = true;
                proof {
                    assert(units@[first_zero as int] == 0u16);
                }
                i = n;
            } else {
                i = i + 1;
            }
        }
        if found {
            proof {
                lemma_span_before_nul_at(units@, first_zero as int);
            }
            units.truncate(first_zero);
        } else {
            proof {
                lemma_span_before_nul_whole(units@);
            }
        }
        proof {
            assert(units@ == span_before_nul(spec_path_units(buf@, base, *self)));
        }
        decode_utf16_units(units.as_slice())
    }
}

/// Facts this agent knows about the event's process family that the driver
/// does not: the path of the family's root executable, and whether that file
/// still exists. Filled in by the process-tracking side after unmarshalling.
#[derive(Debug, Clone)]
pub struct RuntimeFeatures {
    /// Path of the family's root executable; empty until filled in.
    pub exepath: String,
    /// Whether the root executable still exists on disk.
    pub exe_still_exists: bool,
}

/// Spec-level value of [`RuntimeFeatures`].
#[verifier::ext_equal]
pub struct RuntimeFeaturesView {
    pub exepath: Seq<char>,
    pub exe_still_exists: bool,
}

impl View for RuntimeFeatures {
    type V = RuntimeFeaturesView;

    open spec fn view(&self) -> RuntimeFeaturesView {
        RuntimeFeaturesView { exepath: self.exepath@, exe_still_exists: self.exe_still_exists }
    }
}

impl RuntimeFeatures {
    /// The default extension of a freshly unmarshalled record: no known root
    /// executable path yet, existence assumed until checked.
    pub fn new() -> (r: RuntimeFeatures)
        ensures
            r@.exepath == Seq::<char>::empty(),
            r@.exe_still_exists == true,
    {
        RuntimeFeatures { exepath: String::new(), exe_still_exists: true }
    }
}

/// One owned event record: every field of the raw record copied out of the
/// reply buffer, the path materialized as an owned string, the link replaced
/// by the record's position in the unpacked sequence, and the agent-side
/// [`RuntimeFeatures`] attached. Holds no address into the reply buffer, so
/// it stays valid after the buffer is reused.
#[derive(Debug, Clone)]
pub struct DriverMsg {
    /// File extension, 12 UTF-16 code units, zero padded.
    pub extension: Vec<u16>,
    /// Serial number of the volume holding the file.
    pub file_id_vsn: u64,
    /// 128-bit file identifier on that volume.
    pub file_id_id: Vec<u8>,
    /// Number of bytes transferred by the operation.
    pub mem_sized_used: u64,
    /// Entropy estimate as the IEEE 754 bit pattern of the driver's 64-bit
    /// float; meaningful only when `is_entropy_calc` is set.
    pub entropy: u64,
    /// Pid of the process that performed the operation.
    pub pid: u32,
    /// Operation byte, decoded by [`crate::codes::IrpMajorOp::from_byte`].
    pub irp_op: u8,
    /// Whether the driver computed `entropy`.
    pub is_entropy_calc: u8,
    /// Change byte, decoded by [`crate::codes::FileChangeInfo::from_byte`].
    pub file_change: u8,
    /// Location byte, decoded by
    /// [`crate::codes::FileLocationInfo::from_byte`].
    pub file_location_info: u8,
    /// The file path, owned.
    pub filepathstr: String,
    /// Gid of the process family the operation belongs to.
    pub gid: u64,
    /// Agent-side facts about the process family.
    pub runtime_features: RuntimeFeatures,
}

/// Spec-level value of an owned record.
#[verifier::ext_equal]
pub struct DriverMsgView {
    pub extension: Seq<u16>,
    pub file_id_vsn: u64,
    pub file_id_id: Seq<u8>,
    pub mem_sized_used: u64,
    pub entropy: u64,
    pub pid: u32,
    pub irp_op: u8,
    pub is_entropy_calc: u8,
    pub file_change: u8,
    pub file_location_info: u8,
    pub filepathstr: Seq<char>,
    pub gid: u64,
    pub runtime_features: RuntimeFeaturesView,
}

impl View for DriverMsg {
    type V = DriverMsgView;

    open spec fn view(&self) -> DriverMsgView {
        DriverMsgView {
            extension: self.extension@,
            file_id_vsn: self.file_id_vsn,
            file_id_id: self.file_id_id@,
            mem_sized_used: self.mem_sized_used,
            entropy: self.entropy,
            pid: self.pid,
            irp_op: self.irp_op,
            is_entropy_calc: self.is_entropy_calc,
            file_change: self.file_change,
            file_location_info: self.file_location_info,
            filepathstr: self.filepathstr@,
            gid: self.gid,
            runtime_features: self.runtime_features@,
        }
    }
}

/// The owned record a raw record converts to, given the reply buffer the raw
/// record's path span points into.
pub open spec fn spec_owned_of(b: Seq<u8>, base: u64, m: CDriverMsgView) -> DriverMsgView {
    DriverMsgView {
        extension: m.extension,
        file_id_vsn: m.file_id_vsn,
        file_id_id: m.file_id_id,
        mem_sized_used: m.mem_sized_used,
        entropy: m.entropy,
        pid: m.pid,
        irp_op: m.irp_op,
        is_entropy_calc: m.is_entropy_calc,
        file_change: m.file_change,
        file_location_info: m.file_location_info,
        filepathstr: spec_path_chars(b, base, m.filepath),
        gid: m.gid,
        runtime_features: RuntimeFeaturesView {
            exepath: Seq::empty(),
            exe_still_exists: true,
        },
    }
}

impl DriverMsg {
    /// Converts one raw record into its owned counterpart, materializing the
    /// path out of the reply buffer and attaching fresh [`RuntimeFeatures`].
    pub fn from(c_drivermsg: &CDriverMsg, buf: &[u8], base: u64) -> (r: DriverMsg)
        ensures
            r@ == spec_owned_of(buf@, base, c_drivermsg@),
    {
        let r = DriverMsg {
            extension: c_drivermsg.extension.clone(),
            file_id_vsn: c_drivermsg.file_id_vsn,
            file_id_id: c_drivermsg.file_id_id.clone(),
            mem_sized_used: c_drivermsg.mem_sized_used,
            entropy: c_drivermsg.entropy,
            pid: c_drivermsg.pid,
            irp_op: c_drivermsg.irp_op,
            is_entropy_calc: c_drivermsg.is_entropy_calc,
            file_change: c_drivermsg.file_change,
            file_location_info: c_drivermsg.file_location_info,
            filepathstr: c_drivermsg.filepath.to_string(buf, base),
            gid: c_drivermsg.gid,
            runtime_features: RuntimeFeatures::new(),
        };
        proof {
            assert(r@ =~= spec_owned_of(buf@, base, c_drivermsg@));
        }
        r
    }
}

/// The owned records one reply unpacks to.
pub open spec fn spec_unpacked(b: Seq<u8>, base: u64, reply: ReplyIrp) -> Seq<DriverMsgView> {
    walk_msgs(b, base, reply.data, reply.num_ops as nat).map_values(
        |m: CDriverMsgView| spec_owned_of(b, base, m),
    )
}

impl ReplyIrp {
    /// Converts the whole reply into owned records, in link order: walks the
    /// linked list as [`ReplyIrp::unpack_drivermsg`] does and converts every
    /// visited record as [`DriverMsg::from`] does. Every record is fully
    /// copied before this returns; nothing in the result refers to `buf`.
    pub fn unpack(&self, buf: &[u8], base: u64) -> (r: Vec<DriverMsg>)
        ensures
            r@.map_values(|d: DriverMsg| d@) == spec_unpacked(buf@, base, *self),
            r@.len() <= self.num_ops,
            self.num_ops == 0 ==> r@.len() == 0,
    {
        let raw = self.unpack_drivermsg(buf, base);
        let n = raw.len();
        let mut r: Vec<DriverMsg> = Vec::new();
        let mut i: usize = 0;
        while i < n
            invariant
                i <= n,
                n == raw@.len(),
                raw@.map_values(|m: CDriverMsg| m@) == walk_msgs(
                    buf@,
                    base,
                    self.data,
                    self.num_ops as nat,
                ),
                r@.len() == i,
                forall|j: int|
                    0 <= j < i ==> r@[j]@ == spec_owned_of(buf@, base, raw@[j]@),
            decreases n - i,
        {
            let owned = DriverMsg::from(&raw[i], buf, base);
            r.push(owned);
            i = i + 1;
        }
        proof {
            assert(r@.map_values(|d: DriverMsg| d@) =~= spec_unpacked(buf@, base, *self));
        }
        r
    }
}

/// An iteration cursor over the raw records of one reply, unpacked up front.
pub struct CDriverMsgs {
    /// The records, in link order.
    pub drivermsgs: Vec<CDriverMsg>,
    /// Position of the next record to hand out.
    pub index: usize,
}

impl CDriverMsgs {
    /// Unpacks the reply's linked list and positions the cursor at its first
    /// record.
    pub fn new(irp: &ReplyIrp, buf: &[u8], base: u64) -> (r: CDriverMsgs)
        ensures
            r.drivermsgs@.map_values(|m: CDriverMsg| m@) == walk_msgs(
                buf@,
                base,
                irp.data,
                irp.num_ops as nat,
            ),
            r.index == 0,
    {
        CDriverMsgs { drivermsgs: irp.unpack_drivermsg(buf, base), index: 0 }
    }

    /// Hands out the next raw record, or `None` past the end.
    pub fn next(&mut self) -> (r: Option<CDriverMsg>)
        ensures
            old(self).index < old(self).drivermsgs@.len() ==> {
                &&& r matches Some(m) && m@ == old(self).drivermsgs@[old(self).index as int]@
                &&& final(self).index == old(self).index + 1
            },
            old(self).index >= old(self).drivermsgs@.len() ==> {
                &&& r is None
                &&& final(self).index == old(self).index
            },
            final(self).drivermsgs@ == old(self).drivermsgs@,
    {
        if self.index < self.drivermsgs.len() {
            let res = self.drivermsgs[self.index].clone();
            proof {
                assert(res@ =~= self.drivermsgs@[self.index as int]@);
            }
            self.index = self.index + 1;
            Some(res)
        } else {
            None
        }
    }
}

/// Whether `n` records can actually be walked from `link`: each of the `n`
/// links is followable within the buffer.
pub open spec fn links_ok(b: Seq<u8>, base: u64, link: u64, n: nat) -> bool
    decreases n,
{
    n == 0 || (valid_link(b, base, link) && links_ok(
        b,
        base,
        next_of(b, base, link),
        (n - 1) as nat,
    ))
}

/// The link reached after following `k` links from `link`.
pub open spec fn link_after(b: Seq<u8>, base: u64, link: u64, k: nat) -> u64
    decreases k,
{
    if k == 0 {
        link
    } else {
        link_after(b, base, next_of(b, base, link), (k - 1) as nat)
    }
}

/// Law: a bounded walk never visits more records than its hop budget.
pub proof fn lemma_walk_len_le(b: Seq<u8>, base: u64, link: u64, count: nat)
    ensures
        walk_links(b, base, link, count).len() <= count,
    decreases count,
{
    if count > 0 && valid_link(b, base, link) {
        lemma_walk_len_le(b, base, next_of(b, base, link), (count - 1) as nat);
    }
}

/// Law: when a reply holds `n` well-formed linked records, the bounded walk
/// visits exactly those `n` records, in link order.
pub proof fn lemma_walk_complete(b: Seq<u8>, base: u64, link: u64, n: nat)
    requires
        links_ok(b, base, link, n),
    ensures
        walk_links(b, base, link, n).len() == n,
        forall|i: int|
            0 <= i < n ==> #[trigger] walk_links(b, base, link, n)[i] == link_after(
                b,
                base,
                link,
                i as nat,
            ),
    decreases n,
{
    if n > 0 {
        let nxt = next_of(b, base, link);
        lemma_walk_complete(b, base, nxt, (n - 1) as nat);
        let w = walk_links(b, base, link, n);
        let wrest = walk_links(b, base, nxt, (n - 1) as nat);
        assert(w == seq![link] + wrest);
        assert forall|i: int| 0 <= i < n implies #[trigger] w[i] == link_after(
            b,
            base,
            link,
            i as nat,
        ) by {
            if i == 0 {
                assert(w[0] == link);
            } else {
                assert(w[i] == wrest[i - 1]);
                assert(wrest[i - 1] == link_after(b, base, nxt, (i - 1) as nat));
                assert(link_after(b, base, link, i as nat) == link_after(
                    b,
                    base,
                    nxt,
                    (i - 1) as nat,
                ));
            }
        }
    }
}

/// Law: a reply whose `num_ops` records are all well-formed and linked
/// unpacks to exactly `num_ops` owned records, in link order: the `i`-th
/// owned record is the conversion of the record `i` hops from the first.
pub proof fn lemma_unpack_complete(b: Seq<u8>, base: u64, reply: ReplyIrp)
    requires
        links_ok(b, base, reply.data, reply.num_ops as nat),
    ensures
        spec_unpacked(b, base, reply).len() == reply.num_ops,
        forall|i: int|
            0 <= i < reply.num_ops ==> spec_unpacked(b, base, reply)[i] == spec_owned_of(
                b,
                base,
                spec_msg_at(b, link_after(b, base, reply.data, i as nat) - base),
            ),
{
    lemma_walk_complete(b, base, reply.data, reply.num_ops as nat);
}

/// Law: when only `k` records are linked before a null link and the header
/// promises more, a reply unpacks to exactly the `k`-record prefix, without
/// error.
pub proof fn lemma_unpack_null_prefix(b: Seq<u8>, base: u64, reply: ReplyIrp, k: nat)
    requires
        links_ok(b, base, reply.data, k),
        link_after(b, base, reply.data, k) == 0,
        k <= reply.num_ops,
    ensures
        spec_unpacked(b, base, reply).len() == k,
{
    lemma_walk_null_prefix(b, base, reply.data, k, reply.num_ops as nat);
    lemma_walk_complete(b, base, reply.data, k);
}

/// Law: when only `k` records are linked before a null link and the header
/// promises more, the bounded walk returns exactly the `k`-record prefix — a
/// premature null is a short collection, not an error.
pub proof fn lemma_walk_null_prefix(b: Seq<u8>, base: u64, link: u64, k: nat, n: nat)
    requires
        links_ok(b, base, link, k),
        link_after(b, base, link, k) == 0,
        k <= n,
    ensures
        walk_links(b, base, link, n) == walk_links(b, base, link, k),
        walk_links(b, base, link, n).len() == k,
    decreases k,
{
    lemma_walk_complete(b, base, link, k);
    if k == 0 {
        assert(link == 0);
        assert(!valid_link(b, base, link));
        assert(walk_links(b, base, link, n) =~= walk_links(b, base, link, 0));
    } else {
        let nxt = next_of(b, base, link);
        lemma_walk_null_prefix(b, base, nxt, (k - 1) as nat, (n - 1) as nat);
        assert(walk_links(b, base, link, n) == seq![link] + walk_links(b, base, nxt, (n - 1) as nat));
        assert(walk_links(b, base, link, k) == seq![link] + walk_links(b, base, nxt, (k - 1) as nat));
        assert(walk_links(b, base, link, n) =~= walk_links(b, base, link, k));
    }
}

} // verus!
