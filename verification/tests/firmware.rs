use jelly_fpga_client::chunk::{chunk_payload, CHUNK_BYTES};
use jelly_fpga_client::client::JellyFpgaClient;
use jelly_fpga_client::server::ServerModel;

fn client() -> JellyFpgaClient {
    JellyFpgaClient::new(ServerModel::new())
}

fn payload(len: usize) -> Vec<u8> {
    (0..len).map(|i| (i % 251) as u8).collect()
}

#[test]
fn load_missing_firmware_is_semantic_failure() {
    let mut c = client();
    let (ok, _slot) = c.load("missing_name");
    assert!(!ok);
}

#[test]
fn upload_then_load_and_unload() {
    let mut c = client();
    assert!(c.upload_firmware("blink", vec![1, 2, 3, 4]));
    let (ok, slot) = c.load("blink");
    assert!(ok);
    assert_eq!(slot, 0);
    let (ok2, slot2) = c.load("blink");
    assert!(ok2);
    assert_eq!(slot2, 1);
    assert!(c.unload(slot));
    assert!(!c.unload(slot));
    assert!(c.unload(slot2));
    assert!(!c.unload(7));
    assert!(!c.unload(-1));
}

#[test]
fn unload_all_frees_slot_zero_only() {
    let mut c = client();
    assert!(c.upload_firmware("a", vec![1]));
    let (_, s0) = c.load("a");
    let (_, s1) = c.load("a");
    assert_eq!((s0, s1), (0, 1));
    assert!(c.unload_all());
    assert!(!c.unload(0));
    assert!(c.unload(1));
}

#[test]
fn chunk_counts_span_the_boundary() {
    for (len, want) in [
        (0usize, 0usize),
        (1, 1),
        (CHUNK_BYTES - 1, 1),
        (CHUNK_BYTES, 1),
        (CHUNK_BYTES + 1, 2),
    ] {
        let data = payload(len);
        let chunks = chunk_payload("fw", &data);
        assert_eq!(chunks.len(), want);
        let mut rebuilt: Vec<u8> = Vec::new();
        for ch in &chunks {
            assert_eq!(ch.name, "fw");
            assert!(!ch.data.is_empty());
            assert!(ch.data.len() <= CHUNK_BYTES);
            rebuilt.extend_from_slice(&ch.data);
        }
        assert_eq!(rebuilt, data);
    }
}

#[test]
fn upload_reassembles_across_chunks() {
    let mut c = client();
    let data = payload(CHUNK_BYTES + 17);
    assert!(c.upload_firmware("big", data.clone()));
    assert_eq!(c.server.firmware.len(), 1);
    assert_eq!(c.server.firmware[0].0, "big");
    assert_eq!(c.server.firmware[0].1, data);
}

#[test]
fn empty_upload_stores_nothing() {
    let mut c = client();
    assert!(c.upload_firmware("ghost", Vec::new()));
    let (ok, _) = c.load("ghost");
    assert!(!ok);
}

#[test]
fn upload_replaces_existing_image() {
    let mut c = client();
    assert!(c.upload_firmware("fw", vec![1, 2]));
    assert!(c.upload_firmware("fw", vec![9]));
    assert_eq!(c.server.firmware.len(), 1);
    assert_eq!(c.server.firmware[0].1, vec![9]);
}

#[test]
fn remove_firmware_forgets_the_name() {
    let mut c = client();
    assert!(c.upload_firmware("fw", vec![1]));
    assert!(c.remove_firmware("fw"));
    assert!(!c.remove_firmware("fw"));
    let (ok, _) = c.load("fw");
    assert!(!ok);
}

#[test]
fn bitstream_and_overlay_require_stored_images() {
    let mut c = client();
    assert!(!c.load_bitstream("bs"));
    assert!(!c.load_dtbo("ov"));
    assert!(c.upload_firmware("bs", vec![0xAA]));
    assert!(c.upload_firmware("ov", vec![0xBB]));
    assert!(c.load_bitstream("bs"));
    assert!(c.load_dtbo("ov"));
}

#[test]
fn bitstream_to_bin_files_bytes_under_new_name() {
    let mut c = client();
    assert!(!c.bitstream_to_bin("src_bs", "out_bin", "zynqmp"));
    assert!(c.upload_firmware("src_bs", vec![1, 2, 3]));
    assert!(c.bitstream_to_bin("src_bs", "out_bin", "zynqmp"));
    assert!(c.load_bitstream("out_bin"));
    assert_eq!(c.server.firmware.len(), 2);
    assert_eq!(c.server.firmware[1].0, "out_bin");
    assert_eq!(c.server.firmware[1].1, vec![1, 2, 3]);
}

#[test]
fn dts_to_dtb_round_trips_source_bytes() {
    let mut c = client();
    let (ok, dtb) = c.dts_to_dtb("/dts-v1/;");
    assert!(ok);
    assert_eq!(dtb, b"/dts-v1/;".to_vec());
}
