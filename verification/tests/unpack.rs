use minifilter_com::shared_def::{CDriverMsgs, ReplyIrp, DRIVER_MSG_SIZE, REPLY_HEADER_SIZE};

fn put_u16(buf: &mut [u8], off: usize, v: u16) {
    buf[off..off + 2].copy_from_slice(&v.to_le_bytes());
}

fn put_u32(buf: &mut [u8], off: usize, v: u32) {
    buf[off..off + 4].copy_from_slice(&v.to_le_bytes());
}

fn put_u64(buf: &mut [u8], off: usize, v: u64) {
    buf[off..off + 8].copy_from_slice(&v.to_le_bytes());
}

struct RecordSpec {
    extension: &'static str,
    vsn: u64,
    file_id: [u8; 16],
    mem_used: u64,
    entropy: f64,
    pid: u32,
    irp_op: u8,
    is_entropy_calc: u8,
    file_change: u8,
    file_location: u8,
    path_units: Vec<u16>,
    path_addr: u64,
    gid: u64,
    next: u64,
}

impl Default for RecordSpec {
    fn default() -> Self {
        RecordSpec {
            extension: "",
            vsn: 0,
            file_id: [0; 16],
            mem_used: 0,
            entropy: 0.0,
            pid: 0,
            irp_op: 0,
            is_entropy_calc: 0,
            file_change: 0,
            file_location: 0,
            path_units: Vec::new(),
            path_addr: 0,
            gid: 0,
            next: 0,
        }
    }
}

/// Writes one raw record at `off`, and its path units at `path_off` when the
/// record declares a path address.
fn write_record(buf: &mut [u8], off: usize, spec: &RecordSpec) {
    for (i, u) in spec.extension.encode_utf16().enumerate() {
        put_u16(buf, off + 2 * i, u);
    }
    put_u64(buf, off + 24, spec.vsn);
    buf[off + 32..off + 48].copy_from_slice(&spec.file_id);
    put_u64(buf, off + 48, spec.mem_used);
    put_u64(buf, off + 56, spec.entropy.to_bits());
    put_u32(buf, off + 64, spec.pid);
    buf[off + 68] = spec.irp_op;
    buf[off + 69] = spec.is_entropy_calc;
    buf[off + 70] = spec.file_change;
    buf[off + 71] = spec.file_location;
    put_u16(buf, off + 72, spec.path_units.len() as u16);
    put_u16(buf, off + 74, spec.path_units.len() as u16);
    put_u64(buf, off + 80, spec.path_addr);
    put_u64(buf, off + 88, spec.gid);
    put_u64(buf, off + 96, spec.next);
}

fn utf16_with_nul(s: &str) -> Vec<u16> {
    let mut v: Vec<u16> = s.encode_utf16().collect();
    v.push(0);
    v
}

fn write_units(buf: &mut [u8], off: usize, units: &[u16]) {
    for (i, &u) in units.iter().enumerate() {
        put_u16(buf, off + 2 * i, u);
    }
}

#[test]
fn zero_record_count_unpacks_to_empty() {
    let buf = vec![0u8; 4096];
    let reply = ReplyIrp { data_size: 0, data: 64, num_ops: 0 };
    assert_eq!(reply.unpack(&buf, 0).len(), 0);
    assert_eq!(reply.unpack_drivermsg(&buf, 0).len(), 0);
}

#[test]
fn null_first_link_unpacks_to_empty() {
    let buf = vec![0u8; 4096];
    let reply = ReplyIrp { data_size: 0, data: 0, num_ops: 5 };
    assert_eq!(reply.unpack(&buf, 0).len(), 0);
}

#[test]
fn three_linked_records_unpack_in_link_order() {
    let mut buf = vec![0u8; 4096];
    // Records deliberately laid out against address order to show the walk
    // follows links, not buffer positions.
    let offs = [1000usize, 200, 600];
    let paths = [1800usize, 1900, 2000];
    let names = ["C:\\a.txt", "C:\\b.txt", "C:\\c.txt"];
    for i in 0..3 {
        let units = utf16_with_nul(names[i]);
        write_units(&mut buf, paths[i], &units);
        let spec = RecordSpec {
            extension: "txt",
            vsn: 77,
            file_id: [i as u8 + 1; 16],
            mem_used: 100 + i as u64,
            entropy: 0.5 + i as f64,
            pid: 10 + i as u32,
            irp_op: 2,
            is_entropy_calc: 1,
            file_change: 2,
            file_location: 1,
            path_units: units,
            path_addr: paths[i] as u64,
            gid: 4000 + i as u64,
            next: if i + 1 < 3 { offs[i + 1] as u64 } else { 0 },
        };
        write_record(&mut buf, offs[i], &spec);
    }
    let reply = ReplyIrp { data_size: 4096, data: offs[0] as u64, num_ops: 3 };
    let msgs = reply.unpack(&buf, 0);
    assert_eq!(msgs.len(), 3);
    for i in 0..3 {
        assert_eq!(msgs[i].pid, 10 + i as u32);
        assert_eq!(msgs[i].gid, 4000 + i as u64);
        assert_eq!(msgs[i].mem_sized_used, 100 + i as u64);
        assert_eq!(msgs[i].entropy, (0.5 + i as f64).to_bits());
        assert_eq!(msgs[i].file_id_vsn, 77);
        assert_eq!(msgs[i].file_id_id, vec![i as u8 + 1; 16]);
        assert_eq!(msgs[i].irp_op, 2);
        assert_eq!(msgs[i].is_entropy_calc, 1);
        assert_eq!(msgs[i].file_change, 2);
        assert_eq!(msgs[i].file_location_info, 1);
        assert_eq!(msgs[i].filepathstr, names[i]);
        let ext: Vec<u16> = "txt".encode_utf16().chain(std::iter::repeat(0).take(9)).collect();
        assert_eq!(msgs[i].extension, ext);
        assert_eq!(msgs[i].runtime_features.exepath, String::new());
        assert!(msgs[i].runtime_features.exe_still_exists);
    }
}

#[test]
fn owned_records_survive_buffer_reuse() {
    let mut buf = vec![0u8; 2048];
    let units = utf16_with_nul("D:\\data.bin");
    write_units(&mut buf, 1200, &units);
    let spec = RecordSpec {
        pid: 99,
        gid: 1234,
        path_units: units,
        path_addr: 1200,
        ..RecordSpec::default()
    };
    write_record(&mut buf, 100, &spec);
    let reply = ReplyIrp { data_size: 2048, data: 100, num_ops: 1 };
    let msgs = reply.unpack(&buf, 0);
    // The next poll overwrites the whole scratch buffer.
    for b in buf.iter_mut() {
        *b = 0xFF;
    }
    assert_eq!(msgs.len(), 1);
    assert_eq!(msgs[0].pid, 99);
    assert_eq!(msgs[0].gid, 1234);
    assert_eq!(msgs[0].filepathstr, "D:\\data.bin");
}

#[test]
fn premature_null_link_yields_the_shorter_prefix() {
    let mut buf = vec![0u8; 2048];
    let first = RecordSpec { pid: 1, next: 400, ..RecordSpec::default() };
    let second = RecordSpec { pid: 2, next: 0, ..RecordSpec::default() };
    write_record(&mut buf, 100, &first);
    write_record(&mut buf, 400, &second);
    // The header promises five records; only two are linked.
    let reply = ReplyIrp { data_size: 2048, data: 100, num_ops: 5 };
    let msgs = reply.unpack(&buf, 0);
    assert_eq!(msgs.len(), 2);
    assert_eq!(msgs[0].pid, 1);
    assert_eq!(msgs[1].pid, 2);
}

#[test]
fn hop_budget_caps_a_longer_chain() {
    let mut buf = vec![0u8; 2048];
    let first = RecordSpec { pid: 1, next: 400, ..RecordSpec::default() };
    let second = RecordSpec { pid: 2, next: 700, ..RecordSpec::default() };
    let third = RecordSpec { pid: 3, next: 0, ..RecordSpec::default() };
    write_record(&mut buf, 100, &first);
    write_record(&mut buf, 400, &second);
    write_record(&mut buf, 700, &third);
    let reply = ReplyIrp { data_size: 2048, data: 100, num_ops: 2 };
    let msgs = reply.unpack(&buf, 0);
    assert_eq!(msgs.len(), 2);
    assert_eq!(msgs[1].pid, 2);
}

#[test]
fn link_outside_the_buffer_ends_the_walk() {
    let mut buf = vec![0u8; 1024];
    // The second link points past the end of the buffer.
    let first = RecordSpec { pid: 1, next: 2000, ..RecordSpec::default() };
    write_record(&mut buf, 100, &first);
    let reply = ReplyIrp { data_size: 1024, data: 100, num_ops: 3 };
    let msgs = reply.unpack(&buf, 0);
    assert_eq!(msgs.len(), 1);
    // A link below the buffer's base address ends it too.
    let reply = ReplyIrp { data_size: 1024, data: 50, num_ops: 1 };
    assert_eq!(reply.unpack(&buf, 60).len(), 0);
}

#[test]
fn nonzero_base_address_translates_links() {
    let base: u64 = 0x7FFE_0000;
    let mut buf = vec![0u8; 2048];
    let units = utf16_with_nul("E:\\x");
    write_units(&mut buf, 900, &units);
    let spec = RecordSpec {
        pid: 7,
        path_units: units,
        path_addr: base + 900,
        next: 0,
        ..RecordSpec::default()
    };
    write_record(&mut buf, 128, &spec);
    let reply = ReplyIrp { data_size: 2048, data: base + 128, num_ops: 1 };
    let msgs = reply.unpack(&buf, base);
    assert_eq!(msgs.len(), 1);
    assert_eq!(msgs[0].pid, 7);
    assert_eq!(msgs[0].filepathstr, "E:\\x");
}

#[test]
fn path_span_without_terminator_decodes_in_full() {
    // The span is length-prefixed, so a terminator is optional: all three
    // declared units belong to the path.
    let mut buf = vec![0u8; 1024];
    let units: Vec<u16> = "abc".encode_utf16().collect();
    write_units(&mut buf, 800, &units);
    let spec = RecordSpec {
        path_units: units,
        path_addr: 800,
        ..RecordSpec::default()
    };
    write_record(&mut buf, 64, &spec);
    let reply = ReplyIrp { data_size: 1024, data: 64, num_ops: 1 };
    let msgs = reply.unpack(&buf, 0);
    assert_eq!(msgs[0].filepathstr, "abc");
}

#[test]
fn path_span_with_early_terminator_is_cut_there() {
    let mut buf = vec![0u8; 1024];
    let units: Vec<u16> = vec![0x61, 0x62, 0, 0x63];
    write_units(&mut buf, 800, &units);
    let spec = RecordSpec {
        path_units: units,
        path_addr: 800,
        ..RecordSpec::default()
    };
    write_record(&mut buf, 64, &spec);
    let reply = ReplyIrp { data_size: 1024, data: 64, num_ops: 1 };
    let msgs = reply.unpack(&buf, 0);
    assert_eq!(msgs[0].filepathstr, "ab");
}

#[test]
fn path_span_outside_the_buffer_yields_empty_string() {
    let mut buf = vec![0u8; 1024];
    let spec = RecordSpec {
        path_units: vec![0x41, 0],
        path_addr: 5000,
        ..RecordSpec::default()
    };
    write_record(&mut buf, 64, &spec);
    let reply = ReplyIrp { data_size: 1024, data: 64, num_ops: 1 };
    let msgs = reply.unpack(&buf, 0);
    assert_eq!(msgs.len(), 1);
    assert_eq!(msgs[0].filepathstr, "");
}

#[test]
fn poll_with_zero_bytes_reports_no_events_and_is_repeatable() {
    let buf = vec![0u8; REPLY_HEADER_SIZE];
    assert!(ReplyIrp::from_poll(0, &buf).is_none());
    // A later poll over fresh state behaves identically.
    let buf2 = vec![0xAAu8; 4096];
    assert!(ReplyIrp::from_poll(0, &buf2).is_none());
}

#[test]
fn poll_with_bytes_reads_the_header() {
    let mut buf = vec![0u8; 4096];
    put_u64(&mut buf, 0, 3 * DRIVER_MSG_SIZE as u64);
    put_u64(&mut buf, 8, 24);
    put_u64(&mut buf, 16, 3);
    let reply = ReplyIrp::from_poll(312, &buf).expect("nonzero byte count is a reply");
    assert_eq!(reply.data_size, 3 * DRIVER_MSG_SIZE as u64);
    assert_eq!(reply.data, 24);
    assert_eq!(reply.num_ops, 3);
}

#[test]
fn cursor_hands_out_records_in_order_then_none() {
    let mut buf = vec![0u8; 2048];
    let first = RecordSpec { pid: 21, next: 500, ..RecordSpec::default() };
    let second = RecordSpec { pid: 22, next: 0, ..RecordSpec::default() };
    write_record(&mut buf, 100, &first);
    write_record(&mut buf, 500, &second);
    let reply = ReplyIrp { data_size: 2048, data: 100, num_ops: 2 };
    let mut cursor = CDriverMsgs::new(&reply, &buf, 0);
    assert_eq!(cursor.next().unwrap().pid, 21);
    assert_eq!(cursor.next().unwrap().pid, 22);
    assert!(cursor.next().is_none());
    assert!(cursor.next().is_none());
}
