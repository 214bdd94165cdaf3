use jelly_fpga_client::client::JellyFpgaClient;
use jelly_fpga_client::server::ServerModel;

fn client() -> JellyFpgaClient {
    JellyFpgaClient::new(ServerModel::new())
}

#[test]
fn closed_handle_fails_every_operation() {
    let mut c = client();
    let (ok, h) = c.open_mmap("m", 0, 0x100, 8);
    assert!(ok);
    assert!(c.write_mem_u32(h, 0, 7));
    assert_eq!(c.read_mem_u32(h, 0), (true, 7));
    assert!(c.close(h));
    assert!(!c.write_mem_u32(h, 0, 8));
    assert_eq!(c.read_mem_u32(h, 0), (false, 0));
    assert!(!c.write_reg_u8(h, 0, 1));
    assert_eq!(c.read_reg_i16(h, 0), (false, 0));
    assert!(!c.mem_copy_to(h, 0, vec![1, 2, 3]));
    let (ok2, bytes) = c.mem_copy_from(h, 0, 4);
    assert!(!ok2);
    assert!(bytes.is_empty());
    assert_eq!(c.get_addr(h), (false, 0));
    assert_eq!(c.get_size(h), (false, 0));
    assert_eq!(c.get_phys_addr(h), (false, 0));
    assert_eq!(c.subclone(h, 0, 4, 4), (false, 0));
    assert!(!c.close(h));
}

#[test]
fn unknown_handle_fails() {
    let mut c = client();
    assert!(!c.write_mem_u8(99, 0, 1));
    assert_eq!(c.read_mem_u8(99, 0), (false, 0));
    assert!(!c.close(99));
}

#[test]
fn handles_are_assigned_in_order() {
    let mut c = client();
    let (_, h0) = c.open_mmap("a", 0, 0x10, 8);
    let (_, h1) = c.open_uio("uio0", 4);
    let (_, h2) = c.open_udmabuf("buf0", true, 8);
    assert_eq!((h0, h1, h2), (0, 1, 2));
    assert!(c.close(h1));
    assert!(c.write_mem_u8(h0, 0, 1));
    assert!(c.write_mem_u8(h2, 0, 1));
    assert!(!c.write_mem_u8(h1, 0, 1));
}

#[test]
fn getters_report_open_parameters() {
    let mut c = client();
    let (_, h) = c.open_mmap("m", 0xa000_0000, 0x1000, 8);
    assert_eq!(c.get_addr(h), (true, 0xa000_0000));
    assert_eq!(c.get_phys_addr(h), (true, 0xa000_0000));
    assert_eq!(c.get_size(h), (true, 0x1000));
}

#[test]
fn subclone_snapshots_parent_range() {
    let mut c = client();
    let (_, h) = c.open_mmap("m", 0, 0x100, 8);
    assert!(c.write_mem_u32(h, 0x10, 0xDEADBEEF));
    let (ok, s) = c.subclone(h, 0x10, 0x10, 4);
    assert!(ok);
    assert_eq!(c.read_mem_u32(s, 0), (true, 0xDEADBEEF));
    assert_eq!(c.get_size(s), (true, 0x10));
    assert!(!c.write_mem_u8(s, 0x10, 1));
    assert_eq!(c.subclone(h, 0xF0, 0x11, 4), (false, 0));
}

#[test]
fn mem_copy_round_trip() {
    let mut c = client();
    let (_, h) = c.open_mmap("m", 0, 0x100, 8);
    let payload: Vec<u8> = (0u16..=255).map(|b| b as u8).collect();
    assert!(c.mem_copy_to(h, 0, payload.clone()));
    let (ok, back) = c.mem_copy_from(h, 0, 256);
    assert!(ok);
    assert_eq!(back, payload);
    assert!(!c.mem_copy_to(h, 1, payload));
}

#[test]
fn reset_reports_success() {
    let mut c = client();
    assert!(c.reset());
}

#[test]
fn uio_and_udmabuf_are_device_sized() {
    let mut c = client();
    let (ok, h) = c.open_uio("uio0", 4);
    assert!(ok);
    assert_eq!(c.get_size(h), (true, 4096));
    assert!(c.write_mem_u8(h, 4095, 1));
    assert!(!c.write_mem_u8(h, 4096, 1));
}
