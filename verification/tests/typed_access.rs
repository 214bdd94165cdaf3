use jelly_fpga_client::client::JellyFpgaClient;
use jelly_fpga_client::server::ServerModel;

fn client() -> JellyFpgaClient {
    JellyFpgaClient::new(ServerModel::new())
}

#[test]
fn test_client_creation() {
    let c = client();
    assert!(c.server.resources.is_empty());
}

#[test]
fn mmap_u64_write_read() {
    let mut c = client();
    let (ok, h) = c.open_mmap("/dev/mem", 0xa0000000, 0x1000, 8);
    assert!(ok);
    assert!(c.write_mem_u64(h, 0, 1));
    assert_eq!(c.read_mem_u64(h, 0), (true, 1));
    assert!(c.write_mem_u64(h, 0, 0));
    assert_eq!(c.read_mem_u64(h, 0), (true, 0));
}

#[test]
fn reg_i8_sign_and_bit_pattern() {
    let mut c = client();
    let (ok, h) = c.open_mmap("/dev/mem", 0, 0x1000, 8);
    assert!(ok);
    assert!(c.write_reg_i8(h, 0x18, -1));
    assert_eq!(c.read_reg_i8(h, 0x18), (true, -1));
    assert_eq!(c.read_reg_u8(h, 0x18), (true, 255));
}

#[test]
fn unsigned_round_trip_all_widths() {
    let mut c = client();
    let (_, h) = c.open_mmap("m", 0, 0x100, 8);
    let v: u64 = 0x1122334455667788;
    assert!(c.write_mem_u(h, 0, v, 1));
    assert_eq!(c.read_mem_u(h, 0, 1), (true, 0x88));
    assert!(c.write_mem_u(h, 8, v, 2));
    assert_eq!(c.read_mem_u(h, 8, 2), (true, 0x7788));
    assert!(c.write_mem_u(h, 16, v, 4));
    assert_eq!(c.read_mem_u(h, 16, 4), (true, 0x55667788));
    assert!(c.write_mem_u(h, 24, v, 8));
    assert_eq!(c.read_mem_u(h, 24, 8), (true, v));
}

#[test]
fn signed_round_trip_all_widths() {
    let mut c = client();
    let (_, h) = c.open_mmap("m", 0, 0x100, 8);
    assert!(c.write_mem_i8(h, 0, -128));
    assert_eq!(c.read_mem_i8(h, 0), (true, -128));
    assert!(c.write_mem_i16(h, 2, -2));
    assert_eq!(c.read_mem_i16(h, 2), (true, -2));
    assert!(c.write_mem_i32(h, 4, -123456));
    assert_eq!(c.read_mem_i32(h, 4), (true, -123456));
    assert!(c.write_mem_i64(h, 8, i64::MIN));
    assert_eq!(c.read_mem_i64(h, 8), (true, i64::MIN));
}

#[test]
fn write_truncates_to_width() {
    let mut c = client();
    let (_, h) = c.open_mmap("m", 0, 0x100, 8);
    assert!(c.write_mem_u(h, 0, 0x1FF, 1));
    assert_eq!(c.read_mem_u8(h, 0), (true, 0xFF));
    assert!(c.write_mem_i(h, 8, -1, 2));
    assert_eq!(c.read_mem_u16(h, 8), (true, 0xFFFF));
    assert_eq!(c.read_mem_i16(h, 8), (true, -1));
}

#[test]
fn cross_sign_same_bytes_reg() {
    let mut c = client();
    let (_, h) = c.open_mmap("m", 0, 0x100, 8);
    assert!(c.write_reg_u16(h, 0x10, 0x8001));
    assert_eq!(c.read_reg_i16(h, 0x10), (true, -32767));
    assert!(c.write_reg_i32(h, 0x20, -1));
    assert_eq!(c.read_reg_u32(h, 0x20), (true, 0xFFFF_FFFF));
    assert!(c.write_reg_u64(h, 0x28, u64::MAX));
    assert_eq!(c.read_reg_i64(h, 0x28), (true, -1));
}

#[test]
fn little_endian_byte_layout() {
    let mut c = client();
    let (_, h) = c.open_mmap("m", 0, 0x100, 8);
    assert!(c.write_mem_u32(h, 0, 0x11223344));
    let (ok, bytes) = c.mem_copy_from(h, 0, 4);
    assert!(ok);
    assert_eq!(bytes, vec![0x44, 0x33, 0x22, 0x11]);
}

#[test]
fn invalid_width_rejected() {
    let mut c = client();
    let (_, h) = c.open_mmap("m", 0, 0x100, 8);
    assert!(!c.write_mem_u(h, 0, 1, 3));
    assert!(!c.write_mem_u(h, 0, 1, 0));
    assert_eq!(c.read_mem_u(h, 0, 16), (false, 0));
    assert!(!c.write_reg_i(h, 0, 1, 5));
    assert_eq!(c.read_reg_i(h, 0, 7), (false, 0));
}

#[test]
fn out_of_bounds_access_rejected() {
    let mut c = client();
    let (_, h) = c.open_mmap("m", 0, 0x10, 8);
    assert!(!c.write_mem_u64(h, 0x9, 1));
    assert!(c.write_mem_u64(h, 0x8, 1));
    assert_eq!(c.read_mem_u64(h, 0x9), (false, 0));
    assert!(!c.write_reg_u8(h, 0x10, 1));
    assert!(c.write_reg_u8(h, 0xF, 1));
}

#[test]
fn mem_and_reg_spaces_are_distinct() {
    let mut c = client();
    let (_, h) = c.open_mmap("m", 0, 0x100, 8);
    assert!(c.write_mem_u8(h, 0, 0xAA));
    assert_eq!(c.read_reg_u8(h, 0), (true, 0));
    assert!(c.write_reg_u8(h, 0, 0x55));
    assert_eq!(c.read_mem_u8(h, 0), (true, 0xAA));
    assert_eq!(c.read_reg_u8(h, 0), (true, 0x55));
}

#[test]
fn unsigned_reads_zero_extend() {
    let mut c = client();
    let (_, h) = c.open_mmap("m", 0, 0x100, 8);
    assert!(c.write_mem_u8(h, 0, 0xFF));
    assert_eq!(c.read_mem_u(h, 0, 1), (true, 0xFF));
    assert!(c.write_mem_u16(h, 2, 0xFFFF));
    assert_eq!(c.read_mem_u(h, 2, 2), (true, 0xFFFF));
}
