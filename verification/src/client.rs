//! The client facade: the full operation surface of the remote protocol —
//! resource lifecycle, width-polymorphic typed accessors with their
//! fixed-width conveniences, bulk copies, and the chunked firmware
//! upload — bound here to the in-memory server model, so that every
//! operation's observable outcome is pinned by its contract.
use vstd::prelude::*;
use vstd::string::StringSliceAdditionalSpecFns;
use crate::bytes::{le_val, pow256, lemma_le_val_bound, lemma_pow256_values};
use crate::chunk::chunk_payload;
use crate::server::{
    ServerModel, ServerView, read_u_val, read_i_val, fw_set, fw_has, load_ok, load_post,
    unload_ok, unload_post, remove_firmware_post, bitstream_to_bin_post, can_alloc, size_ok,
    next_handle, alloc_post, mmap_resource, device_resource, subclone_ok, subclone_resource,
    resource, handle_open, close_post, access_ok, range_ok, mem_store_post, reg_store_post,
    mem_copy_to_post, wrapped,
};
use crate::width::as_signed;

verus! {

/// Bounds on what a typed read can return: the unsigned reading fits the
/// width, and the signed reading lies in the width's two's-complement
/// range, so both fit their wire types exactly.
pub proof fn lemma_read_val_bounds(bs: Seq<u8>, offset: u64, size: u64)
    requires
        crate::valid_width(size),
        offset + size <= bs.len(),
    ensures
        (read_u_val(bs, offset, size) as nat) == le_val(
            bs.subrange(offset as int, offset + size),
        ),
        (read_u_val(bs, offset, size) as nat) < pow256(size as nat),
        read_i_val(bs, offset, size) as int == as_signed(
            le_val(bs.subrange(offset as int, offset + size)),
            size as nat,
        ),
        -(pow256(size as nat) as int) <= 2 * (read_i_val(bs, offset, size) as int) < pow256(
            size as nat,
        ),
{
    let sub = bs.subrange(offset as int, offset + size);
    lemma_le_val_bound(sub);
    lemma_pow256_values();
    crate::bytes::lemma_pow256_increases(size as nat, 8);
}

/// A client of the remote resource and typed I/O protocol, speaking to
/// the in-memory server model. Each method issues one logical request
/// and returns the server's semantic result flag alongside any value.
pub struct JellyFpgaClient {
    pub server: ServerModel,
}

impl View for JellyFpgaClient {
    type V = ServerView;

    open spec fn view(&self) -> ServerView {
        self.server@
    }
}

impl JellyFpgaClient {
    /// Connects the client to a server.
    pub fn new(server: ServerModel) -> (r: JellyFpgaClient)
        ensures
            r@ == server@,
    {
        JellyFpgaClient { server }
    }

    /// Resets the FPGA.
    pub fn reset(&mut self) -> (r: bool)
        requires
            old(self)@.wf(),
        ensures
            *final(self) == *old(self),
            r == true,
    {
        self.server.reset()
    }

    /// Loads the firmware stored under `name`; returns the slot that now
    /// holds it. Fails, with no state change, exactly when no such
    /// firmware is stored (or no slot index is left).
    pub fn load(&mut self, name: &str) -> (r: (bool, i32))
        requires
            old(self)@.wf(),
        ensures
            final(self)@.wf(),
            r.0 == load_ok(old(self)@, name@),
            final(self)@ == load_post(old(self)@, name@),
            r.0 ==> r.1 == old(self)@.slots.len() as i32,
            !r.0 ==> r.1 == 0,
    {
        self.server.load(name)
    }

    /// Unloads the firmware in `slot`. Fails, with no state change,
    /// exactly when the slot is free or unknown.
    pub fn unload(&mut self, slot: i32) -> (r: bool)
        requires
            old(self)@.wf(),
        ensures
            final(self)@.wf(),
            r == unload_ok(old(self)@, slot),
            final(self)@ == unload_post(old(self)@, slot),
    {
        self.server.unload(slot)
    }

    /// Unloads slot zero only: the protocol offers no enumeration of
    /// active slots, so no broader meaning is available.
    pub fn unload_all(&mut self) -> (r: bool)
        requires
            old(self)@.wf(),
        ensures
            final(self)@.wf(),
            r == unload_ok(old(self)@, 0),
            final(self)@ == unload_post(old(self)@, 0),
    {
        self.unload(0)
    }

    /// Uploads `data` as the firmware named `name`, as an ordered stream
    /// of chunks of at most `CHUNK_BYTES` each; the server reassembles
    /// exactly `data`. A zero-length payload sends an empty stream and
    /// stores nothing.
    pub fn upload_firmware(&mut self, name: &str, data: Vec<u8>) -> (r: bool)
        requires
            old(self)@.wf(),
        ensures
            final(self)@.wf(),
            r == true,
            data@.len() == 0 ==> *final(self) == *old(self),
            data@.len() > 0 ==> final(self)@.firmware == fw_set(
                old(self)@.firmware,
                name@,
                data@,
            ) && final(self)@.resources == old(self)@.resources && final(self)@.slots == old(
                self,
            )@.slots,
    {
        let chunks = chunk_payload(name, &data);
        if chunks.len() == 0 {
            return true;
        }
        let r = self.server.upload_firmware(&chunks);
        proof {
            assert(chunks@[0].name@ == name@);
        }
        r
    }

    /// Discards the firmware stored under `name`. Fails exactly when no
    /// such firmware is stored.
    pub fn remove_firmware(&mut self, name: &str) -> (r: bool)
        requires
            old(self)@.wf(),
        ensures
            final(self)@.wf(),
            r == fw_has(old(self)@.firmware, name@),
            final(self)@ == remove_firmware_post(old(self)@, name@),
    {
        self.server.remove_firmware(name)
    }

    /// Programs the bitstream stored under `name`. Fails exactly when no
    /// such bitstream is stored.
    pub fn load_bitstream(&mut self, name: &str) -> (r: bool)
        requires
            old(self)@.wf(),
        ensures
            *final(self) == *old(self),
            r == fw_has(old(self)@.firmware, name@),
    {
        self.server.load_bitstream(name)
    }

    /// Applies the device-tree overlay stored under `name`. Fails exactly
    /// when no such overlay is stored.
    pub fn load_dtbo(&mut self, name: &str) -> (r: bool)
        requires
            old(self)@.wf(),
        ensures
            *final(self) == *old(self),
            r == fw_has(old(self)@.firmware, name@),
    {
        self.server.load_dtbo(name)
    }

    /// Compiles device-tree source text to its binary form on the server;
    /// the model server answers with the source bytes themselves.
    pub fn dts_to_dtb(&mut self, dts: &str) -> (r: (bool, Vec<u8>))
        requires
            old(self)@.wf(),
        ensures
            *final(self) == *old(self),
            r.0 == true,
            r.1@ == dts.spec_bytes(),
    {
        self.server.dts_to_dtb(dts)
    }

    /// Converts the stored bitstream `bitstream_name` into a stored
    /// binary named `bin_name`. Fails exactly when no such bitstream is
    /// stored.
    pub fn bitstream_to_bin(&mut self, bitstream_name: &str, bin_name: &str, arch: &str) -> (r:
        bool)
        requires
            old(self)@.wf(),
        ensures
            final(self)@.wf(),
            r == fw_has(old(self)@.firmware, bitstream_name@),
            final(self)@ == bitstream_to_bin_post(old(self)@, bitstream_name@, bin_name@),
    {
        self.server.bitstream_to_bin(bitstream_name, bin_name, arch)
    }

    /// Opens a memory map of `size` bytes at byte offset `offset`,
    /// addressed at `unit`-byte granularity.
    pub fn open_mmap(&mut self, path: &str, offset: u64, size: u64, unit: u64) -> (r: (bool, u32))
        requires
            old(self)@.wf(),
        ensures
            final(self)@.wf(),
            r.0 == (can_alloc(old(self)@) && size_ok(size)),
            r.0 ==> r.1 == next_handle(old(self)@) && final(self)@ == alloc_post(
                old(self)@,
                mmap_resource(offset, size, unit),
            ),
            !r.0 ==> *final(self) == *old(self) && r.1 == 0,
    {
        self.server.open_mmap(path, offset, size, unit)
    }

    /// Opens the UIO device called `name`.
    pub fn open_uio(&mut self, name: &str, unit: u64) -> (r: (bool, u32))
        requires
            old(self)@.wf(),
        ensures
            final(self)@.wf(),
            r.0 == can_alloc(old(self)@),
            r.0 ==> r.1 == next_handle(old(self)@) && final(self)@ == alloc_post(
                old(self)@,
                device_resource(unit),
            ),
            !r.0 ==> *final(self) == *old(self) && r.1 == 0,
    {
        self.server.open_uio(name, unit)
    }

    /// Opens the DMA buffer called `name`.
    pub fn open_udmabuf(&mut self, name: &str, cache_enable: bool, unit: u64) -> (r: (bool, u32))
        requires
            old(self)@.wf(),
        ensures
            final(self)@.wf(),
            r.0 == can_alloc(old(self)@),
            r.0 ==> r.1 == next_handle(old(self)@) && final(self)@ == alloc_post(
                old(self)@,
                device_resource(unit),
            ),
            !r.0 ==> *final(self) == *old(self) && r.1 == 0,
    {
        self.server.open_udmabuf(name, cache_enable, unit)
    }

    /// Closes `id`; every later operation on it fails semantically.
    pub fn close(&mut self, id: u32) -> (r: bool)
        requires
            old(self)@.wf(),
        ensures
            final(self)@.wf(),
            r == handle_open(old(self)@, id),
            final(self)@ == close_post(old(self)@, id),
            !handle_open(final(self)@, id),
    {
        let r = self.server.close(id);
        r
    }

    /// Derives a new handle over `[offset, offset + size)` of `id`.
    pub fn subclone(&mut self, id: u32, offset: u64, size: u64, unit: u64) -> (r: (bool, u32))
        requires
            old(self)@.wf(),
        ensures
            final(self)@.wf(),
            r.0 == subclone_ok(old(self)@, id, offset, size),
            r.0 ==> r.1 == next_handle(old(self)@) && final(self)@ == alloc_post(
                old(self)@,
                subclone_resource(resource(old(self)@, id), offset, size, unit),
            ),
            !r.0 ==> *final(self) == *old(self) && r.1 == 0,
    {
        self.server.subclone(id, offset, size, unit)
    }

    /// Reports the logical address of `id`.
    pub fn get_addr(&mut self, id: u32) -> (r: (bool, u64))
        requires
            old(self)@.wf(),
        ensures
            *final(self) == *old(self),
            r.0 == handle_open(old(self)@, id),
            r.0 ==> r.1 == resource(old(self)@, id).addr,
            !r.0 ==> r.1 == 0,
    {
        self.server.get_addr(id)
    }

    /// Reports the byte length of `id`.
    pub fn get_size(&mut self, id: u32) -> (r: (bool, u64))
        requires
            old(self)@.wf(),
        ensures
            *final(self) == *old(self),
            r.0 == handle_open(old(self)@, id),
            r.0 ==> r.1 == resource(old(self)@, id).size,
            !r.0 ==> r.1 == 0,
    {
        self.server.get_size(id)
    }

    /// Reports the physical address of `id`.
    pub fn get_phys_addr(&mut self, id: u32) -> (r: (bool, u64))
        requires
            old(self)@.wf(),
        ensures
            *final(self) == *old(self),
            r.0 == handle_open(old(self)@, id),
            r.0 ==> r.1 == resource(old(self)@, id).phys_addr,
            !r.0 ==> r.1 == 0,
    {
        self.server.get_phys_addr(id)
    }

    /// Writes the low `size` bytes of `data` at `offset` of `id`'s
    /// memory space. Fails, with no state change, exactly when the
    /// handle is not open, the width is unsupported, or the range
    /// overruns the resource.
    pub fn write_mem_u(&mut self, id: u32, offset: u64, data: u64, size: u64) -> (r: bool)
        requires
            old(self)@.wf(),
        ensures
            final(self)@.wf(),
            r == access_ok(old(self)@, id, offset, size),
            final(self)@ == mem_store_post(old(self)@, id, offset, data as nat, size),
    {
        self.server.write_mem_u(id, offset, data, size)
    }

    /// Writes an 8-bit unsigned value at `offset` of `id`'s memory space.
    pub fn write_mem_u8(&mut self, id: u32, offset: u64, data: u8) -> (r: bool)
        requires
            old(self)@.wf(),
        ensures
            final(self)@.wf(),
            r == access_ok(old(self)@, id, offset, 1),
            final(self)@ == mem_store_post(old(self)@, id, offset, data as nat, 1),
    {
        self.write_mem_u(id, offset, data as u64, 1)
    }

    /// Writes a 16-bit unsigned value at `offset` of `id`'s memory space.
    pub fn write_mem_u16(&mut self, id: u32, offset: u64, data: u16) -> (r: bool)
        requires
            old(self)@.wf(),
        ensures
            final(self)@.wf(),
            r == access_ok(old(self)@, id, offset, 2),
            final(self)@ == mem_store_post(old(self)@, id, offset, data as nat, 2),
    {
        self.write_mem_u(id, offset, data as u64, 2)
    }

    /// Writes a 32-bit unsigned value at `offset` of `id`'s memory space.
    pub fn write_mem_u32(&mut self, id: u32, offset: u64, data: u32) -> (r: bool)
        requires
            old(self)@.wf(),
        ensures
            final(self)@.wf(),
            r == access_ok(old(self)@, id, offset, 4),
            final(self)@ == mem_store_post(old(self)@, id, offset, data as nat, 4),
    {
        self.write_mem_u(id, offset, data as u64, 4)
    }

    /// Writes a 64-bit unsigned value at `offset` of `id`'s memory space.
    pub fn write_mem_u64(&mut self, id: u32, offset: u64, data: u64) -> (r: bool)
        requires
            old(self)@.wf(),
        ensures
            final(self)@.wf(),
            r == access_ok(old(self)@, id, offset, 8),
            final(self)@ == mem_store_post(old(self)@, id, offset, data as nat, 8),
    {
        self.write_mem_u(id, offset, data, 8)
    }

    /// Writes the low `size` bytes of the two's-complement encoding of
    /// `data` at `offset` of `id`'s memory space.
    pub fn write_mem_i(&mut self, id: u32, offset: u64, data: i64, size: u64) -> (r: bool)
        requires
            old(self)@.wf(),
        ensures
            final(self)@.wf(),
            r == access_ok(old(self)@, id, offset, size),
            final(self)@ == mem_store_post(old(self)@, id, offset, wrapped(data), size),
    {
        self.server.write_mem_i(id, offset, data, size)
    }

    /// Writes an 8-bit signed value at `offset` of `id`'s memory space.
    pub fn write_mem_i8(&mut self, id: u32, offset: u64, data: i8) -> (r: bool)
        requires
            old(self)@.wf(),
        ensures
            final(self)@.wf(),
            r == access_ok(old(self)@, id, offset, 1),
            final(self)@ == mem_store_post(old(self)@, id, offset, wrapped(data as i64), 1),
    {
        self.write_mem_i(id, offset, data as i64, 1)
    }

    /// Writes a 16-bit signed value at `offset` of `id`'s memory space.
    pub fn write_mem_i16(&mut self, id: u32, offset: u64, data: i16) -> (r: bool)
        requires
            old(self)@.wf(),
        ensures
            final(self)@.wf(),
            r == access_ok(old(self)@, id, offset, 2),
            final(self)@ == mem_store_post(old(self)@, id, offset, wrapped(data as i64), 2),
    {
        self.write_mem_i(id, offset, data as i64, 2)
    }

    /// Writes a 32-bit signed value at `offset` of `id`'s memory space.
    pub fn write_mem_i32(&mut self, id: u32, offset: u64, data: i32) -> (r: bool)
        requires
            old(self)@.wf(),
        ensures
            final(self)@.wf(),
            r == access_ok(old(self)@, id, offset, 4),
            final(self)@ == mem_store_post(old(self)@, id, offset, wrapped(data as i64), 4),
    {
        self.write_mem_i(id, offset, data as i64, 4)
    }

    /// Writes a 64-bit signed value at `offset` of `id`'s memory space.
    pub fn write_mem_i64(&mut self, id: u32, offset: u64, data: i64) -> (r: bool)
        requires
            old(self)@.wf(),
        ensures
            final(self)@.wf(),
            r == access_ok(old(self)@, id, offset, 8),
            final(self)@ == mem_store_post(old(self)@, id, offset, wrapped(data), 8),
    {
        self.write_mem_i(id, offset, data, 8)
    }

    /// Reads `size` bytes at `offset` of `id`'s memory space,
    /// zero-extended into a 64-bit value.
    pub fn read_mem_u(&mut self, id: u32, offset: u64, size: u64) -> (r: (bool, u64))
        requires
            old(self)@.wf(),
        ensures
            *final(self) == *old(self),
            r.0 == access_ok(old(self)@, id, offset, size),
            r.0 ==> r.1 == read_u_val(resource(old(self)@, id).mem, offset, size),
            !r.0 ==> r.1 == 0,
    {
        self.server.read_mem_u(id, offset, size)
    }

    /// Reads an 8-bit unsigned value at `offset` of `id`'s memory space.
    pub fn read_mem_u8(&mut self, id: u32, offset: u64) -> (r: (bool, u8))
        requires
            old(self)@.wf(),
        ensures
            *final(self) == *old(self),
            r.0 == access_ok(old(self)@, id, offset, 1),
            r.0 ==> r.1 as u64 == read_u_val(resource(old(self)@, id).mem, offset, 1),
            !r.0 ==> r.1 == 0,
    {
        let (ok, v) = self.read_mem_u(id, offset, 1);
        if !ok {
            return (false, 0);
        }
        proof {
            lemma_read_val_bounds(resource(old(self)@, id).mem, offset, 1);
            lemma_pow256_values();
        }
        (true, v as u8)
    }

    /// Reads a 16-bit unsigned value at `offset` of `id`'s memory space.
    pub fn read_mem_u16(&mut self, id: u32, offset: u64) -> (r: (bool, u16))
        requires
            old(self)@.wf(),
        ensures
            *final(self) == *old(self),
            r.0 == access_ok(old(self)@, id, offset, 2),
            r.0 ==> r.1 as u64 == read_u_val(resource(old(self)@, id).mem, offset, 2),
            !r.0 ==> r.1 == 0,
    {
        let (ok, v) = self.read_mem_u(id, offset, 2);
        if !ok {
            return (false, 0);
        }
        proof {
            lemma_read_val_bounds(resource(old(self)@, id).mem, offset, 2);
            lemma_pow256_values();
        }
        (true, v as u16)
    }

    /// Reads a 32-bit unsigned value at `offset` of `id`'s memory space.
    pub fn read_mem_u32(&mut self, id: u32, offset: u64) -> (r: (bool, u32))
        requires
            old(self)@.wf(),
        ensures
            *final(self) == *old(self),
            r.0 == access_ok(old(self)@, id, offset, 4),
            r.0 ==> r.1 as u64 == read_u_val(resource(old(self)@, id).mem, offset, 4),
            !r.0 ==> r.1 == 0,
    {
        let (ok, v) = self.read_mem_u(id, offset, 4);
        if !ok {
            return (false, 0);
        }
        proof {
            lemma_read_val_bounds(resource(old(self)@, id).mem, offset, 4);
            lemma_pow256_values();
        }
        (true, v as u32)
    }

    /// Reads a 64-bit unsigned value at `offset` of `id`'s memory space.
    pub fn read_mem_u64(&mut self, id: u32, offset: u64) -> (r: (bool, u64))
        requires
            old(self)@.wf(),
        ensures
            *final(self) == *old(self),
            r.0 == access_ok(old(self)@, id, offset, 8),
            r.0 ==> r.1 == read_u_val(resource(old(self)@, id).mem, offset, 8),
            !r.0 ==> r.1 == 0,
    {
        self.read_mem_u(id, offset, 8)
    }

    /// Reads `size` bytes at `offset` of `id`'s memory space,
    /// sign-extended into a 64-bit value.
    pub fn read_mem_i(&mut self, id: u32, offset: u64, size: u64) -> (r: (bool, i64))
        requires
            old(self)@.wf(),
        ensures
            *final(self) == *old(self),
            r.0 == access_ok(old(self)@, id, offset, size),
            r.0 ==> r.1 == read_i_val(resource(old(self)@, id).mem, offset, size),
            !r.0 ==> r.1 == 0,
    {
        self.server.read_mem_i(id, offset, size)
    }

    /// Reads an 8-bit signed value at `offset` of `id`'s memory space.
    pub fn read_mem_i8(&mut self, id: u32, offset: u64) -> (r: (bool, i8))
        requires
            old(self)@.wf(),
        ensures
            *final(self) == *old(self),
            r.0 == access_ok(old(self)@, id, offset, 1),
            r.0 ==> r.1 as i64 == read_i_val(resource(old(self)@, id).mem, offset, 1),
            !r.0 ==> r.1 == 0,
    {
        let (ok, v) = self.read_mem_i(id, offset, 1);
        if !ok {
            return (false, 0);
        }
        proof {
            lemma_read_val_bounds(resource(old(self)@, id).mem, offset, 1);
            lemma_pow256_values();
        }
        (true, v as i8)
    }

    /// Reads a 16-bit signed value at `offset` of `id`'s memory space.
    pub fn read_mem_i16(&mut self, id: u32, offset: u64) -> (r: (bool, i16))
        requires
            old(self)@.wf(),
        ensures
            *final(self) == *old(self),
            r.0 == access_ok(old(self)@, id, offset, 2),
            r.0 ==> r.1 as i64 == read_i_val(resource(old(self)@, id).mem, offset, 2),
            !r.0 ==> r.1 == 0,
    {
        let (ok, v) = self.read_mem_i(id, offset, 2);
        if !ok {
            return (false, 0);
        }
        proof {
            lemma_read_val_bounds(resource(old(self)@, id).mem, offset, 2);
            lemma_pow256_values();
        }
        (true, v as i16)
    }

    /// Reads a 32-bit signed value at `offset` of `id`'s memory space.
    pub fn read_mem_i32(&mut self, id: u32, offset: u64) -> (r: (bool, i32))
        requires
            old(self)@.wf(),
        ensures
            *final(self) == *old(self),
            r.0 == access_ok(old(self)@, id, offset, 4),
            r.0 ==> r.1 as i64 == read_i_val(resource(old(self)@, id).mem, offset, 4),
            !r.0 ==> r.1 == 0,
    {
        let (ok, v) = self.read_mem_i(id, offset, 4);
        if !ok {
            return (false, 0);
        }
        proof {
            lemma_read_val_bounds(resource(old(self)@, id).mem, offset, 4);
            lemma_pow256_values();
        }
        (true, v as i32)
    }

    /// Reads a 64-bit signed value at `offset` of `id`'s memory space.
    pub fn read_mem_i64(&mut self, id: u32, offset: u64) -> (r: (bool, i64))
        requires
            old(self)@.wf(),
        ensures
            *final(self) == *old(self),
            r.0 == access_ok(old(self)@, id, offset, 8),
            r.0 ==> r.1 == read_i_val(resource(old(self)@, id).mem, offset, 8),
            !r.0 ==> r.1 == 0,
    {
        self.read_mem_i(id, offset, 8)
    }

    /// Writes the low `size` bytes of `data` at register offset `reg` of
    /// `id`'s register space.
    pub fn write_reg_u(&mut self, id: u32, reg: u64, data: u64, size: u64) -> (r: bool)
        requires
            old(self)@.wf(),
        ensures
            final(self)@.wf(),
            r == access_ok(old(self)@, id, reg, size),
            final(self)@ == reg_store_post(old(self)@, id, reg, data as nat, size),
    {
        self.server.write_reg_u(id, reg, data, size)
    }

    /// Writes an 8-bit unsigned value at register offset `reg` of `id`.
    pub fn write_reg_u8(&mut self, id: u32, reg: u64, data: u8) -> (r: bool)
        requires
            old(self)@.wf(),
        ensures
            final(self)@.wf(),
            r == access_ok(old(self)@, id, reg, 1),
            final(self)@ == reg_store_post(old(self)@, id, reg, data as nat, 1),
    {
        self.write_reg_u(id, reg, data as u64, 1)
    }

    /// Writes a 16-bit unsigned value at register offset `reg` of `id`.
    pub fn write_reg_u16(&mut self, id: u32, reg: u64, data: u16) -> (r: bool)
        requires
            old(self)@.wf(),
        ensures
            final(self)@.wf(),
            r == access_ok(old(self)@, id, reg, 2),
            final(self)@ == reg_store_post(old(self)@, id, reg, data as nat, 2),
    {
        self.write_reg_u(id, reg, data as u64, 2)
    }

    /// Writes a 32-bit unsigned value at register offset `reg` of `id`.
    pub fn write_reg_u32(&mut self, id: u32, reg: u64, data: u32) -> (r: bool)
        requires
            old(self)@.wf(),
        ensures
            final(self)@.wf(),
            r == access_ok(old(self)@, id, reg, 4),
            final(self)@ == reg_store_post(old(self)@, id, reg, data as nat, 4),
    {
        self.write_reg_u(id, reg, data as u64, 4)
    }

    /// Writes a 64-bit unsigned value at register offset `reg` of `id`.
    pub fn write_reg_u64(&mut self, id: u32, reg: u64, data: u64) -> (r: bool)
        requires
            old(self)@.wf(),
        ensures
            final(self)@.wf(),
            r == access_ok(old(self)@, id, reg, 8),
            final(self)@ == reg_store_post(old(self)@, id, reg, data as nat, 8),
    {
        self.write_reg_u(id, reg, data, 8)
    }

    /// Writes the low `size` bytes of the two's-complement encoding of
    /// `data` at register offset `reg` of `id`'s register space.
    pub fn write_reg_i(&mut self, id: u32, reg: u64, data: i64, size: u64) -> (r: bool)
        requires
            old(self)@.wf(),
        ensures
            final(self)@.wf(),
            r == access_ok(old(self)@, id, reg, size),
            final(self)@ == reg_store_post(old(self)@, id, reg, wrapped(data), size),
    {
        self.server.write_reg_i(id, reg, data, size)
    }

    /// Writes an 8-bit signed value at register offset `reg` of `id`.
    pub fn write_reg_i8(&mut self, id: u32, reg: u64, data: i8) -> (r: bool)
        requires
            old(self)@.wf(),
        ensures
            final(self)@.wf(),
            r == access_ok(old(self)@, id, reg, 1),
            final(self)@ == reg_store_post(old(self)@, id, reg, wrapped(data as i64), 1),
    {
        self.write_reg_i(id, reg, data as i64, 1)
    }

    /// Writes a 16-bit signed value at register offset `reg` of `id`.
    pub fn write_reg_i16(&mut self, id: u32, reg: u64, data: i16) -> (r: bool)
        requires
            old(self)@.wf(),
        ensures
            final(self)@.wf(),
            r == access_ok(old(self)@, id, reg, 2),
            final(self)@ == reg_store_post(old(self)@, id, reg, wrapped(data as i64), 2),
    {
        self.write_reg_i(id, reg, data as i64, 2)
    }

    /// Writes a 32-bit signed value at register offset `reg` of `id`.
    pub fn write_reg_i32(&mut self, id: u32, reg: u64, data: i32) -> (r: bool)
        requires
            old(self)@.wf(),
        ensures
            final(self)@.wf(),
            r == access_ok(old(self)@, id, reg, 4),
            final(self)@ == reg_store_post(old(self)@, id, reg, wrapped(data as i64), 4),
    {
        self.write_reg_i(id, reg, data as i64, 4)
    }

    /// Writes a 64-bit signed value at register offset `reg` of `id`.
    pub fn write_reg_i64(&mut self, id: u32, reg: u64, data: i64) -> (r: bool)
        requires
            old(self)@.wf(),
        ensures
            final(self)@.wf(),
            r == access_ok(old(self)@, id, reg, 8),
            final(self)@ == reg_store_post(old(self)@, id, reg, wrapped(data), 8),
    {
        self.write_reg_i(id, reg, data, 8)
    }

    /// Reads `size` bytes at register offset `reg` of `id`'s register
    /// space, zero-extended into a 64-bit value.
    pub fn read_reg_u(&mut self, id: u32, reg: u64, size: u64) -> (r: (bool, u64))
        requires
            old(self)@.wf(),
        ensures
            *final(self) == *old(self),
            r.0 == access_ok(old(self)@, id, reg, size),
            r.0 ==> r.1 == read_u_val(resource(old(self)@, id).reg, reg, size),
            !r.0 ==> r.1 == 0,
    {
        self.server.read_reg_u(id, reg, size)
    }

    /// Reads an 8-bit unsigned value at register offset `reg` of `id`.
    pub fn read_reg_u8(&mut self, id: u32, reg: u64) -> (r: (bool, u8))
        requires
            old(self)@.wf(),
        ensures
            *final(self) == *old(self),
            r.0 == access_ok(old(self)@, id, reg, 1),
            r.0 ==> r.1 as u64 == read_u_val(resource(old(self)@, id).reg, reg, 1),
            !r.0 ==> r.1 == 0,
    {
        let (ok, v) = self.read_reg_u(id, reg, 1);
        if !ok {
            return (false, 0);
        }
        proof {
            lemma_read_val_bounds(resource(old(self)@, id).reg, reg, 1);
            lemma_pow256_values();
        }
        (true, v as u8)
    }

    /// Reads a 16-bit unsigned value at register offset `reg` of `id`.
    pub fn read_reg_u16(&mut self, id: u32, reg: u64) -> (r: (bool, u16))
        requires
            old(self)@.wf(),
        ensures
            *final(self) == *old(self),
            r.0 == access_ok(old(self)@, id, reg, 2),
            r.0 ==> r.1 as u64 == read_u_val(resource(old(self)@, id).reg, reg, 2),
            !r.0 ==> r.1 == 0,
    {
        let (ok, v) = self.read_reg_u(id, reg, 2);
        if !ok {
            return (false, 0);
        }
        proof {
            lemma_read_val_bounds(resource(old(self)@, id).reg, reg, 2);
            lemma_pow256_values();
        }
        (true, v as u16)
    }

    /// Reads a 32-bit unsigned value at register offset `reg` of `id`.
    pub fn read_reg_u32(&mut self, id: u32, reg: u64) -> (r: (bool, u32))
        requires
            old(self)@.wf(),
        ensures
            *final(self) == *old(self),
            r.0 == access_ok(old(self)@, id, reg, 4),
            r.0 ==> r.1 as u64 == read_u_val(resource(old(self)@, id).reg, reg, 4),
            !r.0 ==> r.1 == 0,
    {
        let (ok, v) = self.read_reg_u(id, reg, 4);
        if !ok {
            return (false, 0);
        }
        proof {
            lemma_read_val_bounds(resource(old(self)@, id).reg, reg, 4);
            lemma_pow256_values();
        }
        (true, v as u32)
    }

    /// Reads a 64-bit unsigned value at register offset `reg` of `id`.
    pub fn read_reg_u64(&mut self, id: u32, reg: u64) -> (r: (bool, u64))
        requires
            old(self)@.wf(),
        ensures
            *final(self) == *old(self),
            r.0 == access_ok(old(self)@, id, reg, 8),
            r.0 ==> r.1 == read_u_val(resource(old(self)@, id).reg, reg, 8),
            !r.0 ==> r.1 == 0,
    {
        self.read_reg_u(id, reg, 8)
    }

    /// Reads `size` bytes at register offset `reg` of `id`'s register
    /// space, sign-extended into a 64-bit value.
    pub fn read_reg_i(&mut self, id: u32, reg: u64, size: u64) -> (r: (bool, i64))
        requires
            old(self)@.wf(),
        ensures
            *final(self) == *old(self),
            r.0 == access_ok(old(self)@, id, reg, size),
            r.0 ==> r.1 == read_i_val(resource(old(self)@, id).reg, reg, size),
            !r.0 ==> r.1 == 0,
    {
        self.server.read_reg_i(id, reg, size)
    }

    /// Reads an 8-bit signed value at register offset `reg` of `id`.
    pub fn read_reg_i8(&mut self, id: u32, reg: u64) -> (r: (bool, i8))
        requires
            old(self)@.wf(),
        ensures
            *final(self) == *old(self),
            r.0 == access_ok(old(self)@, id, reg, 1),
            r.0 ==> r.1 as i64 == read_i_val(resource(old(self)@, id).reg, reg, 1),
            !r.0 ==> r.1 == 0,
    {
        let (ok, v) = self.read_reg_i(id, reg, 1);
        if !ok {
            return (false, 0);
        }
        proof {
            lemma_read_val_bounds(resource(old(self)@, id).reg, reg, 1);
            lemma_pow256_values();
        }
        (true, v as i8)
    }

    /// Reads a 16-bit signed value at register offset `reg` of `id`.
    pub fn read_reg_i16(&mut self, id: u32, reg: u64) -> (r: (bool, i16))
        requires
            old(self)@.wf(),
        ensures
            *final(self) == *old(self),
            r.0 == access_ok(old(self)@, id, reg, 2),
            r.0 ==> r.1 as i64 == read_i_val(resource(old(self)@, id).reg, reg, 2),
            !r.0 ==> r.1 == 0,
    {
        let (ok, v) = self.read_reg_i(id, reg, 2);
        if !ok {
            return (false, 0);
        }
        proof {
            lemma_read_val_bounds(resource(old(self)@, id).reg, reg, 2);
            lemma_pow256_values();
        }
        (true, v as i16)
    }

    /// Reads a 32-bit signed value at register offset `reg` of `id`.
    pub fn read_reg_i32(&mut self, id: u32, reg: u64) -> (r: (bool, i32))
        requires
            old(self)@.wf(),
        ensures
            *final(self) == *old(self),
            r.0 == access_ok(old(self)@, id, reg, 4),
            r.0 ==> r.1 as i64 == read_i_val(resource(old(self)@, id).reg, reg, 4),
            !r.0 ==> r.1 == 0,
    {
        let (ok, v) = self.read_reg_i(id, reg, 4);
        if !ok {
            return (false, 0);
        }
        proof {
            lemma_read_val_bounds(resource(old(self)@, id).reg, reg, 4);
            lemma_pow256_values();
        }
        (true, v as i32)
    }

    /// Reads a 64-bit signed value at register offset `reg` of `id`.
    pub fn read_reg_i64(&mut self, id: u32, reg: u64) -> (r: (bool, i64))
        requires
            old(self)@.wf(),
        ensures
            *final(self) == *old(self),
            r.0 == access_ok(old(self)@, id, reg, 8),
            r.0 ==> r.1 == read_i_val(resource(old(self)@, id).reg, reg, 8),
            !r.0 ==> r.1 == 0,
    {
        self.read_reg_i(id, reg, 8)
    }

    /// Copies `data` wholesale into `id`'s memory space at `offset`, in
    /// one request. Fails, with no state change, exactly when the handle
    /// is not open or the range overruns the resource.
    pub fn mem_copy_to(&mut self, id: u32, offset: u64, data: Vec<u8>) -> (r: bool)
        requires
            old(self)@.wf(),
        ensures
            final(self)@.wf(),
            r == range_ok(old(self)@, id, offset, data@.len()),
            final(self)@ == mem_copy_to_post(old(self)@, id, offset, data@),
    {
        self.server.mem_copy_to(id, offset, data)
    }

    /// Copies `size` bytes out of `id`'s memory space at `offset`, in
    /// one request.
    pub fn mem_copy_from(&mut self, id: u32, offset: u64, size: u64) -> (r: (bool, Vec<u8>))
        requires
            old(self)@.wf(),
        ensures
            *final(self) == *old(self),
            r.0 == range_ok(old(self)@, id, offset, size as nat),
            r.0 ==> r.1@ == resource(old(self)@, id).mem.subrange(offset as int, offset + size),
            !r.0 ==> r.1@.len() == 0,
    {
        self.server.mem_copy_from(id, offset, size)
    }
}

} // verus!
