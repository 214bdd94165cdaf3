//! In-memory model of the server side of the protocol: a table of opened
//! resources (each with a memory space and a register space of stored
//! bytes), a named firmware store, and the loaded-bitstream slots. Every
//! operation reports semantic success as a flag; an operation on a closed
//! or unknown handle fails without touching any state.
use vstd::prelude::*;
use vstd::string::StringSliceAdditionalSpecFns;
use crate::bytes::{le_bytes, le_val, pow256, copy_range, store_le, load_le, write_range};
use crate::width::{as_signed, wrap_i64, sign_extend};
use crate::chunk::{UploadChunk, chunks_data, concat_bytes};
use crate::valid_width;

verus! {

/// Number of bytes the model gives a device opened by name (UIO or DMA
/// buffer), for which the wire carries no explicit size.
pub const DEVICE_BYTES: u64 = 4096;

/// Abstract state of one opened (or since-closed) resource.
#[verifier::ext_equal]
pub ghost struct ResourceView {
    pub open: bool,
    pub addr: u64,
    pub phys_addr: u64,
    pub size: u64,
    pub unit: u64,
    pub mem: Seq<u8>,
    pub reg: Seq<u8>,
}

/// Abstract state of the whole server: resources by handle, firmware
/// images by name, loaded-bitstream slots by index.
#[verifier::ext_equal]
pub ghost struct ServerView {
    pub resources: Seq<ResourceView>,
    pub firmware: Seq<(Seq<char>, Seq<u8>)>,
    pub slots: Seq<Option<Seq<char>>>,
}

impl ServerView {
    /// Both address spaces of every resource hold exactly `size` bytes,
    /// handles and slots stay within their wire types, and firmware
    /// names are unique.
    pub open spec fn wf(self) -> bool {
        &&& self.resources.len() <= 0xFFFF_FFFF
        &&& forall|i: int|
            0 <= i < self.resources.len() ==> (#[trigger] self.resources[i]).mem.len()
                == self.resources[i].size && self.resources[i].reg.len()
                == self.resources[i].size
        &&& self.slots.len() <= 0x7FFF_FFFF
        &&& forall|i: int, j: int|
            0 <= i < j < self.firmware.len() ==> (#[trigger] self.firmware[i]).0 != (
            #[trigger] self.firmware[j]).0
    }
}

/// `id` names a currently open resource.
pub open spec fn handle_open(s: ServerView, id: u32) -> bool {
    id < s.resources.len() && s.resources[id as int].open
}

pub open spec fn resource(s: ServerView, id: u32) -> ResourceView {
    s.resources[id as int]
}

/// The firmware store holds an image under `name`.
pub open spec fn fw_has(fw: Seq<(Seq<char>, Seq<u8>)>, name: Seq<char>) -> bool {
    exists|j: int| 0 <= j < fw.len() && (#[trigger] fw[j]).0 == name
}

pub open spec fn fw_idx(fw: Seq<(Seq<char>, Seq<u8>)>, name: Seq<char>) -> int {
    choose|j: int| 0 <= j < fw.len() && (#[trigger] fw[j]).0 == name
}

pub open spec fn fw_get(fw: Seq<(Seq<char>, Seq<u8>)>, name: Seq<char>) -> Seq<u8> {
    fw[fw_idx(fw, name)].1
}

/// The store after filing `data` under `name`, replacing any image that
/// `name` already carried.
pub open spec fn fw_set(
    fw: Seq<(Seq<char>, Seq<u8>)>,
    name: Seq<char>,
    data: Seq<u8>,
) -> Seq<(Seq<char>, Seq<u8>)> {
    if fw_has(fw, name) {
        fw.update(fw_idx(fw, name), (name, data))
    } else {
        fw.push((name, data))
    }
}

/// The store after removing the image under `name`, if any.
pub open spec fn fw_removed(
    fw: Seq<(Seq<char>, Seq<u8>)>,
    name: Seq<char>,
) -> Seq<(Seq<char>, Seq<u8>)> {
    if fw_has(fw, name) {
        fw.remove(fw_idx(fw, name))
    } else {
        fw
    }
}

/// All-zero contents of a freshly opened address space.
pub open spec fn zero_seq(n: nat) -> Seq<u8> {
    Seq::new(n, |i: int| 0u8)
}

/// There is room in the handle table for one more resource.
pub open spec fn can_alloc(s: ServerView) -> bool {
    s.resources.len() < 0xFFFF_FFFF
}

/// The model can back a resource of `size` bytes.
pub open spec fn size_ok(size: u64) -> bool {
    size <= usize::MAX
}

/// The handle an open or subclone operation assigns next.
pub open spec fn next_handle(s: ServerView) -> u32 {
    s.resources.len() as u32
}

pub open spec fn alloc_post(s: ServerView, r: ResourceView) -> ServerView {
    ServerView { resources: s.resources.push(r), ..s }
}

/// The fresh resource a memory-map open produces: both spaces zeroed,
/// addresses taken from the requested byte offset.
pub open spec fn mmap_resource(offset: u64, size: u64, unit: u64) -> ResourceView {
    ResourceView {
        open: true,
        addr: offset,
        phys_addr: offset,
        size: size,
        unit: unit,
        mem: zero_seq(size as nat),
        reg: zero_seq(size as nat),
    }
}

/// The fresh resource a by-name device open (UIO or DMA buffer) produces.
pub open spec fn device_resource(unit: u64) -> ResourceView {
    ResourceView {
        open: true,
        addr: 0,
        phys_addr: 0,
        size: DEVICE_BYTES,
        unit: unit,
        mem: zero_seq(DEVICE_BYTES as nat),
        reg: zero_seq(DEVICE_BYTES as nat),
    }
}

/// Whether a subclone of `id` over `[offset, offset + size)` is accepted.
pub open spec fn subclone_ok(s: ServerView, id: u32, offset: u64, size: u64) -> bool {
    handle_open(s, id) && offset + size <= resource(s, id).size && can_alloc(s)
}

/// The derived resource: a snapshot of the parent's byte range in both
/// spaces, behaving like a primary handle from then on.
pub open spec fn subclone_resource(parent: ResourceView, offset: u64, size: u64, unit: u64) -> ResourceView {
    ResourceView {
        open: true,
        addr: parent.addr,
        phys_addr: parent.phys_addr,
        size: size,
        unit: unit,
        mem: parent.mem.subrange(offset as int, offset + size),
        reg: parent.reg.subrange(offset as int, offset + size),
    }
}

/// State after closing `id`: the handle is marked closed; nothing else
/// changes. Closing an unknown or already closed handle changes nothing.
pub open spec fn close_post(s: ServerView, id: u32) -> ServerView {
    if handle_open(s, id) {
        ServerView {
            resources: s.resources.update(
                id as int,
                ResourceView { open: false, ..resource(s, id) },
            ),
            ..s
        }
    } else {
        s
    }
}

/// A width-`size` access to `[offset, offset + size)` of `id` is accepted.
pub open spec fn access_ok(s: ServerView, id: u32, offset: u64, size: u64) -> bool {
    handle_open(s, id) && valid_width(size) && offset + size <= resource(s, id).size
}

/// A bulk access to `n` bytes at `offset` of `id` is accepted.
pub open spec fn range_ok(s: ServerView, id: u32, offset: u64, n: nat) -> bool {
    handle_open(s, id) && offset + n <= resource(s, id).size
}

/// `bs` with `[off, off + w)` replaced by the low `w` bytes of `v`.
pub open spec fn store_bytes(bs: Seq<u8>, off: int, v: nat, w: nat) -> Seq<u8> {
    bs.subrange(0, off) + le_bytes(v, w) + bs.subrange(off + w, bs.len() as int)
}

/// `bs` with `[off, off + data.len())` replaced by `data`.
pub open spec fn splice_bytes(bs: Seq<u8>, off: int, data: Seq<u8>) -> Seq<u8> {
    bs.subrange(0, off) + data + bs.subrange(off + data.len(), bs.len() as int)
}

/// The unsigned value the `size` bytes at `offset` of `bs` decode to.
pub open spec fn read_u_val(bs: Seq<u8>, offset: u64, size: u64) -> u64 {
    le_val(bs.subrange(offset as int, offset + size)) as u64
}

/// The sign-extended value the `size` bytes at `offset` of `bs` decode to.
pub open spec fn read_i_val(bs: Seq<u8>, offset: u64, size: u64) -> i64 {
    as_signed(le_val(bs.subrange(offset as int, offset + size)), size as nat) as i64
}

/// The unsigned encoding a signed write puts on the wire: the
/// two's-complement bit pattern of `data`.
pub open spec fn wrapped(data: i64) -> nat {
    ((data as int) % pow256(8) as int) as nat
}

/// State after a memory-space store of the low `size` bytes of `v`.
pub open spec fn mem_store_post(s: ServerView, id: u32, offset: u64, v: nat, size: u64) -> ServerView {
    if access_ok(s, id, offset, size) {
        ServerView {
            resources: s.resources.update(
                id as int,
                ResourceView {
                    mem: store_bytes(resource(s, id).mem, offset as int, v, size as nat),
                    ..resource(s, id)
                },
            ),
            ..s
        }
    } else {
        s
    }
}

/// State after a register-space store of the low `size` bytes of `v`.
pub open spec fn reg_store_post(s: ServerView, id: u32, reg: u64, v: nat, size: u64) -> ServerView {
    if access_ok(s, id, reg, size) {
        ServerView {
            resources: s.resources.update(
                id as int,
                ResourceView {
                    reg: store_bytes(resource(s, id).reg, reg as int, v, size as nat),
                    ..resource(s, id)
                },
            ),
            ..s
        }
    } else {
        s
    }
}

/// State after a bulk copy of `data` into memory space at `offset`.
pub open spec fn mem_copy_to_post(s: ServerView, id: u32, offset: u64, data: Seq<u8>) -> ServerView {
    if range_ok(s, id, offset, data.len()) {
        ServerView {
            resources: s.resources.update(
                id as int,
                ResourceView {
                    mem: splice_bytes(resource(s, id).mem, offset as int, data),
                    ..resource(s, id)
                },
            ),
            ..s
        }
    } else {
        s
    }
}

/// Whether a load of firmware `name` succeeds: the image must exist and
/// a slot index must be free within the wire type.
pub open spec fn load_ok(s: ServerView, name: Seq<char>) -> bool {
    fw_has(s.firmware, name) && s.slots.len() < 0x7FFF_FFFF
}

pub open spec fn load_post(s: ServerView, name: Seq<char>) -> ServerView {
    if load_ok(s, name) {
        ServerView { slots: s.slots.push(Some(name)), ..s }
    } else {
        s
    }
}

pub open spec fn unload_ok(s: ServerView, slot: i32) -> bool {
    0 <= slot < s.slots.len() && s.slots[slot as int] is Some
}

pub open spec fn unload_post(s: ServerView, slot: i32) -> ServerView {
    if unload_ok(s, slot) {
        ServerView { slots: s.slots.update(slot as int, None), ..s }
    } else {
        s
    }
}

/// The name and reassembled payload an upload stream delivers. The
/// stream's chunks arrive strictly in order; the server concatenates
/// them and files the result under the name carried by the stream.
pub open spec fn upload_post(s: ServerView, chunks: Seq<UploadChunk>) -> ServerView {
    if chunks.len() == 0 {
        s
    } else {
        ServerView {
            firmware: fw_set(s.firmware, chunks[0].name@, concat_bytes(chunks_data(chunks))),
            ..s
        }
    }
}

pub open spec fn remove_firmware_post(s: ServerView, name: Seq<char>) -> ServerView {
    ServerView { firmware: fw_removed(s.firmware, name), ..s }
}

/// State after converting the stored bitstream `src` to a stored binary
/// `dst`: the model files the same bytes under the new name.
pub open spec fn bitstream_to_bin_post(s: ServerView, src: Seq<char>, dst: Seq<char>) -> ServerView {
    if fw_has(s.firmware, src) {
        ServerView { firmware: fw_set(s.firmware, dst, fw_get(s.firmware, src)), ..s }
    } else {
        s
    }
}

/// One opened (or since-closed) resource of the model server.
pub struct ResourceModel {
    pub open: bool,
    pub addr: u64,
    pub phys_addr: u64,
    pub size: u64,
    pub unit: u64,
    pub mem: Vec<u8>,
    pub reg: Vec<u8>,
}

impl View for ResourceModel {
    type V = ResourceView;

    open spec fn view(&self) -> ResourceView {
        ResourceView {
            open: self.open,
            addr: self.addr,
            phys_addr: self.phys_addr,
            size: self.size,
            unit: self.unit,
            mem: self.mem@,
            reg: self.reg@,
        }
    }
}

/// The in-memory model server. Handles index `resources`; firmware
/// images live in `firmware`; loaded bitstreams occupy `slots`.
pub struct ServerModel {
    pub resources: Vec<ResourceModel>,
    pub firmware: Vec<(String, Vec<u8>)>,
    pub slots: Vec<Option<String>>,
}

impl View for ServerModel {
    type V = ServerView;

    open spec fn view(&self) -> ServerView {
        ServerView {
            resources: self.resources@.map_values(|r: ResourceModel| r@),
            firmware: self.firmware@.map_values(|p: (String, Vec<u8>)| (p.0@, p.1@)),
            slots: self.slots@.map_values(
                |s: Option<String>|
                    match s {
                        Some(n) => Some(n@),
                        None => None,
                    },
            ),
        }
    }
}

/// A byte buffer of `n` zeros.
fn zeroed(n: usize) -> (r: Vec<u8>)
    ensures
        r@ == zero_seq(n as nat),
{
    let mut r: Vec<u8> = Vec::new();
    let mut i: usize = 0;
    while i < n
        invariant
            i <= n,
            r@ =~= zero_seq(i as nat),
        decreases n - i,
    {
        r.push(0u8);
        proof {
            assert(r@ =~= zero_seq((i + 1) as nat));
        }
        i = i + 1;
    }
    proof {
        assert(r@ =~= zero_seq(n as nat));
    }
    r
}

impl ServerModel {
    /// A server with no open resources, no firmware, and no loaded slots.
    pub fn new() -> (r: ServerModel)
        ensures
            r@.wf(),
            r@.resources == Seq::<ResourceView>::empty(),
            r@.firmware == Seq::<(Seq<char>, Seq<u8>)>::empty(),
            r@.slots == Seq::<Option<Seq<char>>>::empty(),
    {
        let r = ServerModel { resources: Vec::new(), firmware: Vec::new(), slots: Vec::new() };
        proof {
            assert(r@.resources =~= Seq::<ResourceView>::empty());
            assert(r@.firmware =~= Seq::<(Seq<char>, Seq<u8>)>::empty());
            assert(r@.slots =~= Seq::<Option<Seq<char>>>::empty());
        }
        r
    }

    /// Exec test for `handle_open`.
    pub fn handle_ok(&self, id: u32) -> (r: bool)
        ensures
            r == handle_open(self@, id),
    {
        (id as usize) < self.resources.len() && self.resources[id as usize].open
    }

    /// Opens a memory-mapped resource; the model backs it with zeroed
    /// memory and register spaces of `size` bytes.
    pub fn open_mmap(&mut self, path: &str, offset: u64, size: u64, unit: u64) -> (r: (bool, u32))
        requires
            old(self)@.wf(),
        ensures
            final(self)@.wf(),
            r.0 == (can_alloc(old(self)@) && size_ok(size)),
            r.0 ==> r.1 == next_handle(old(self)@) && final(self)@ == alloc_post(
                old(self)@,
                mmap_resource(offset, size, unit),
            ),
            !r.0 ==> *final(self) == *old(self) && r.1 == 0,
    {
        let _ = path;
        if !(self.resources.len() < 0xFFFF_FFFF_usize && size <= usize::MAX as u64) {
            return (false, 0);
        }
        let id = self.resources.len() as u32;
        let res = ResourceModel {
            open: true,
            addr: offset,
            phys_addr: offset,
            size: size,
            unit: unit,
            mem: zeroed(size as usize),
            reg: zeroed(size as usize),
        };
        proof {
            assert(res@ == mmap_resource(offset, size, unit));
        }
        self.resources.push(res);
        proof {
            assert(self@.resources =~= alloc_post(old(self)@, mmap_resource(offset, size, unit)).resources);
        }
        (true, id)
    }

    /// Opens a UIO device by name; the model backs it with a fixed-size
    /// zeroed device.
    pub fn open_uio(&mut self, name: &str, unit: u64) -> (r: (bool, u32))
        requires
            old(self)@.wf(),
        ensures
            final(self)@.wf(),
            r.0 == can_alloc(old(self)@),
            r.0 ==> r.1 == next_handle(old(self)@) && final(self)@ == alloc_post(
                old(self)@,
                device_resource(unit),
            ),
            !r.0 ==> *final(self) == *old(self) && r.1 == 0,
    {
        let _ = name;
        if !(self.resources.len() < 0xFFFF_FFFF_usize) {
            return (false, 0);
        }
        let id = self.resources.len() as u32;
        let res = ResourceModel {
            open: true,
            addr: 0,
            phys_addr: 0,
            size: DEVICE_BYTES,
            unit: unit,
            mem: zeroed(DEVICE_BYTES as usize),
            reg: zeroed(DEVICE_BYTES as usize),
        };
        proof {
            assert(res@ == device_resource(unit));
        }
        self.resources.push(res);
        proof {
            assert(self@.resources =~= alloc_post(old(self)@, device_resource(unit)).resources);
        }
        (true, id)
    }

    /// Opens a DMA buffer by name; the cache flag does not change the
    /// byte-level behaviour the model captures.
    pub fn open_udmabuf(&mut self, name: &str, cache_enable: bool, unit: u64) -> (r: (bool, u32))
        requires
            old(self)@.wf(),
        ensures
            final(self)@.wf(),
            r.0 == can_alloc(old(self)@),
            r.0 ==> r.1 == next_handle(old(self)@) && final(self)@ == alloc_post(
                old(self)@,
                device_resource(unit),
            ),
            !r.0 ==> *final(self) == *old(self) && r.1 == 0,
    {
        let _ = cache_enable;
        self.open_uio(name, unit)
    }

    /// Closes a handle; every later operation on it fails semantically.
    pub fn close(&mut self, id: u32) -> (r: bool)
        requires
            old(self)@.wf(),
        ensures
            final(self)@.wf(),
            r == handle_open(old(self)@, id),
            final(self)@ == close_post(old(self)@, id),
    {
        if !self.handle_ok(id) {
            return false;
        }
        let idx = id as usize;
        let res = &mut self.resources[idx];
        res.open = false;
        proof {
            assert(self@.resources =~= close_post(old(self)@, id).resources);
        }
        true
    }

    /// Derives a new handle covering `[offset, offset + size)` of an
    /// open parent resource.
    pub fn subclone(&mut self, id: u32, offset: u64, size: u64, unit: u64) -> (r: (bool, u32))
        requires
            old(self)@.wf(),
        ensures
            final(self)@.wf(),
            r.0 == subclone_ok(old(self)@, id, offset, size),
            r.0 ==> r.1 == next_handle(old(self)@) && final(self)@ == alloc_post(
                old(self)@,
                subclone_resource(resource(old(self)@, id), offset, size, unit),
            ),
            !r.0 ==> *final(self) == *old(self) && r.1 == 0,
    {
        if !self.handle_ok(id) {
            return (false, 0);
        }
        let idx = id as usize;
        let psize = self.resources[idx].size;
        if !(offset <= psize && size <= psize - offset && self.resources.len()
            < 0xFFFF_FFFF_usize) {
            return (false, 0);
        }
        let newid = self.resources.len() as u32;
        let n = self.resources[idx].mem.len();
        let n2 = self.resources[idx].reg.len();
        proof {
            assert(n == psize);
            assert(n2 == psize);
        }
        let start = offset as usize;
        let end = (offset + size) as usize;
        let mem = copy_range(&self.resources[idx].mem, start, end);
        let reg = copy_range(&self.resources[idx].reg, start, end);
        let res = ResourceModel {
            open: true,
            addr: self.resources[idx].addr,
            phys_addr: self.resources[idx].phys_addr,
            size: size,
            unit: unit,
            mem: mem,
            reg: reg,
        };
        proof {
            assert(res@ == subclone_resource(resource(self@, id), offset, size, unit));
        }
        self.resources.push(res);
        proof {
            assert(self@.resources =~= alloc_post(
                old(self)@,
                subclone_resource(resource(old(self)@, id), offset, size, unit),
            ).resources);
        }
        (true, newid)
    }

    /// Reports the logical address of an open resource.
    pub fn get_addr(&mut self, id: u32) -> (r: (bool, u64))
        requires
            old(self)@.wf(),
        ensures
            *final(self) == *old(self),
            r.0 == handle_open(old(self)@, id),
            r.0 ==> r.1 == resource(old(self)@, id).addr,
            !r.0 ==> r.1 == 0,
    {
        if !self.handle_ok(id) {
            return (false, 0);
        }
        (true, self.resources[id as usize].addr)
    }

    /// Reports the byte length of an open resource.
    pub fn get_size(&mut self, id: u32) -> (r: (bool, u64))
        requires
            old(self)@.wf(),
        ensures
            *final(self) == *old(self),
            r.0 == handle_open(old(self)@, id),
            r.0 ==> r.1 == resource(old(self)@, id).size,
            !r.0 ==> r.1 == 0,
    {
        if !self.handle_ok(id) {
            return (false, 0);
        }
        (true, self.resources[id as usize].size)
    }

    /// Reports the physical address of an open resource.
    pub fn get_phys_addr(&mut self, id: u32) -> (r: (bool, u64))
        requires
            old(self)@.wf(),
        ensures
            *final(self) == *old(self),
            r.0 == handle_open(old(self)@, id),
            r.0 ==> r.1 == resource(old(self)@, id).phys_addr,
            !r.0 ==> r.1 == 0,
    {
        if !self.handle_ok(id) {
            return (false, 0);
        }
        (true, self.resources[id as usize].phys_addr)
    }

    /// Exec test for `access_ok`; reads the resource's size.
    fn access_check(&self, id: u32, offset: u64, size: u64) -> (r: bool)
        requires
            self@.wf(),
        ensures
            r == access_ok(self@, id, offset, size),
    {
        if !self.handle_ok(id) {
            return false;
        }
        if !crate::is_valid_width(size) {
            return false;
        }
        let psize = self.resources[id as usize].size;
        offset <= psize && size <= psize - offset
    }

    /// Stores the low `size` bytes of `data` into memory space at `offset`.
    pub fn write_mem_u(&mut self, id: u32, offset: u64, data: u64, size: u64) -> (r: bool)
        requires
            old(self)@.wf(),
        ensures
            final(self)@.wf(),
            r == access_ok(old(self)@, id, offset, size),
            final(self)@ == mem_store_post(old(self)@, id, offset, data as nat, size),
    {
        if !self.access_check(id, offset, size) {
            return false;
        }
        let idx = id as usize;
        let n = self.resources[idx].mem.len();
        proof {
            assert(n == resource(self@, id).size);
            crate::bytes::lemma_le_bytes_len(data as nat, size as nat);
        }
        let res = &mut self.resources[idx];
        store_le(&mut res.mem, offset as usize, data, size as usize);
        proof {
            let ghost pre = old(self)@;
            assert(self@.resources[id as int].mem =~= store_bytes(
                resource(pre, id).mem,
                offset as int,
                data as nat,
                size as nat,
            ));
            assert(self@ =~~= mem_store_post(pre, id, offset, data as nat, size));
        }
        true
    }

    /// Stores the low `size` bytes of the two's-complement encoding of
    /// `data` into memory space at `offset`.
    pub fn write_mem_i(&mut self, id: u32, offset: u64, data: i64, size: u64) -> (r: bool)
        requires
            old(self)@.wf(),
        ensures
            final(self)@.wf(),
            r == access_ok(old(self)@, id, offset, size),
            final(self)@ == mem_store_post(old(self)@, id, offset, wrapped(data), size),
    {
        let w = wrap_i64(data);
        self.write_mem_u(id, offset, w, size)
    }

    /// Reads `size` bytes from memory space at `offset`, zero-extended.
    pub fn read_mem_u(&mut self, id: u32, offset: u64, size: u64) -> (r: (bool, u64))
        requires
            old(self)@.wf(),
        ensures
            *final(self) == *old(self),
            r.0 == access_ok(old(self)@, id, offset, size),
            r.0 ==> r.1 == read_u_val(resource(old(self)@, id).mem, offset, size),
            !r.0 ==> r.1 == 0,
    {
        if !self.access_check(id, offset, size) {
            return (false, 0);
        }
        let idx = id as usize;
        let n = self.resources[idx].mem.len();
        proof {
            assert(n == resource(self@, id).size);
        }
        let v = load_le(&self.resources[idx].mem, offset as usize, size as usize);
        proof {
            crate::bytes::lemma_le_val_bound(
                resource(self@, id).mem.subrange(offset as int, offset + size),
            );
        }
        (true, v)
    }

    /// Reads `size` bytes from memory space at `offset`, sign-extended
    /// from bit `8 * size - 1`.
    pub fn read_mem_i(&mut self, id: u32, offset: u64, size: u64) -> (r: (bool, i64))
        requires
            old(self)@.wf(),
        ensures
            *final(self) == *old(self),
            r.0 == access_ok(old(self)@, id, offset, size),
            r.0 ==> r.1 == read_i_val(resource(old(self)@, id).mem, offset, size),
            !r.0 ==> r.1 == 0,
    {
        let (ok, v) = self.read_mem_u(id, offset, size);
        if !ok {
            return (false, 0);
        }
        proof {
            crate::bytes::lemma_le_val_bound(
                resource(old(self)@, id).mem.subrange(offset as int, offset + size),
            );
            crate::bytes::lemma_pow256_values();
        }
        let s = sign_extend(v, size);
        (true, s)
    }

    /// Stores the low `size` bytes of `data` into register space at `reg`.
    pub fn write_reg_u(&mut self, id: u32, reg: u64, data: u64, size: u64) -> (r: bool)
        requires
            old(self)@.wf(),
        ensures
            final(self)@.wf(),
            r == access_ok(old(self)@, id, reg, size),
            final(self)@ == reg_store_post(old(self)@, id, reg, data as nat, size),
    {
        if !self.access_check(id, reg, size) {
            return false;
        }
        let idx = id as usize;
        let n = self.resources[idx].reg.len();
        proof {
            assert(n == resource(self@, id).size);
            crate::bytes::lemma_le_bytes_len(data as nat, size as nat);
        }
        let res = &mut self.resources[idx];
        store_le(&mut res.reg, reg as usize, data, size as usize);
        proof {
            let ghost pre = old(self)@;
            assert(self@.resources[id as int].reg =~= store_bytes(
                resource(pre, id).reg,
                reg as int,
                data as nat,
                size as nat,
            ));
            assert(self@ =~~= reg_store_post(pre, id, reg, data as nat, size));
        }
        true
    }

    /// Stores the low `size` bytes of the two's-complement encoding of
    /// `data` into register space at `reg`.
    pub fn write_reg_i(&mut self, id: u32, reg: u64, data: i64, size: u64) -> (r: bool)
        requires
            old(self)@.wf(),
        ensures
            final(self)@.wf(),
            r == access_ok(old(self)@, id, reg, size),
            final(self)@ == reg_store_post(old(self)@, id, reg, wrapped(data), size),
    {
        let w = wrap_i64(data);
        self.write_reg_u(id, reg, w, size)
    }

    /// Reads `size` bytes from register space at `reg`, zero-extended.
    pub fn read_reg_u(&mut self, id: u32, reg: u64, size: u64) -> (r: (bool, u64))
        requires
            old(self)@.wf(),
        ensures
            *final(self) == *old(self),
            r.0 == access_ok(old(self)@, id, reg, size),
            r.0 ==> r.1 == read_u_val(resource(old(self)@, id).reg, reg, size),
            !r.0 ==> r.1 == 0,
    {
        if !self.access_check(id, reg, size) {
            return (false, 0);
        }
        let idx = id as usize;
        let n = self.resources[idx].reg.len();
        proof {
            assert(n == resource(self@, id).size);
        }
        let v = load_le(&self.resources[idx].reg, reg as usize, size as usize);
        proof {
            crate::bytes::lemma_le_val_bound(
                resource(self@, id).reg.subrange(reg as int, reg + size),
            );
        }
        (true, v)
    }

    /// Reads `size` bytes from register space at `reg`, sign-extended
    /// from bit `8 * size - 1`.
    pub fn read_reg_i(&mut self, id: u32, reg: u64, size: u64) -> (r: (bool, i64))
        requires
            old(self)@.wf(),
        ensures
            *final(self) == *old(self),
            r.0 == access_ok(old(self)@, id, reg, size),
            r.0 ==> r.1 == read_i_val(resource(old(self)@, id).reg, reg, size),
            !r.0 ==> r.1 == 0,
    {
        let (ok, v) = self.read_reg_u(id, reg, size);
        if !ok {
            return (false, 0);
        }
        proof {
            crate::bytes::lemma_le_val_bound(
                resource(old(self)@, id).reg.subrange(reg as int, reg + size),
            );
            crate::bytes::lemma_pow256_values();
        }
        let s = sign_extend(v, size);
        (true, s)
    }

    /// Copies `data` wholesale into memory space at `offset`.
    pub fn mem_copy_to(&mut self, id: u32, offset: u64, data: Vec<u8>) -> (r: bool)
        requires
            old(self)@.wf(),
        ensures
            final(self)@.wf(),
            r == range_ok(old(self)@, id, offset, data@.len()),
            final(self)@ == mem_copy_to_post(old(self)@, id, offset, data@),
    {
        if !self.handle_ok(id) {
            return false;
        }
        let idx = id as usize;
        let psize = self.resources[idx].size;
        if !(offset <= psize && data.len() as u64 <= psize - offset) {
            return false;
        }
        let n = self.resources[idx].mem.len();
        proof {
            assert(n == resource(self@, id).size);
        }
        let res = &mut self.resources[idx];
        write_range(&mut res.mem, offset as usize, &data);
        proof {
            let ghost pre = old(self)@;
            assert(self@.resources[id as int].mem =~= splice_bytes(
                resource(pre, id).mem,
                offset as int,
                data@,
            ));
            assert(self@ =~~= mem_copy_to_post(pre, id, offset, data@));
        }
        true
    }

    /// Copies `size` bytes out of memory space at `offset`.
    pub fn mem_copy_from(&mut self, id: u32, offset: u64, size: u64) -> (r: (bool, Vec<u8>))
        requires
            old(self)@.wf(),
        ensures
            *final(self) == *old(self),
            r.0 == range_ok(old(self)@, id, offset, size as nat),
            r.0 ==> r.1@ == resource(old(self)@, id).mem.subrange(offset as int, offset + size),
            !r.0 ==> r.1@.len() == 0,
    {
        if !self.handle_ok(id) {
            return (false, Vec::new());
        }
        let idx = id as usize;
        let psize = self.resources[idx].size;
        if !(offset <= psize && size <= psize - offset) {
            return (false, Vec::new());
        }
        let n = self.resources[idx].mem.len();
        proof {
            assert(n == resource(self@, id).size);
        }
        let out = copy_range(&self.resources[idx].mem, offset as usize, (offset + size) as usize);
        (true, out)
    }

    /// Index of the image filed under `name`, if any.
    fn fw_find(&self, name: &String) -> (r: Option<usize>)
        requires
            self@.wf(),
        ensures
            r is Some <==> fw_has(self@.firmware, name@),
            r is Some ==> r->Some_0 == fw_idx(self@.firmware, name@) && r->Some_0
                < self@.firmware.len(),
    {
        let n = self.firmware.len();
        let mut i: usize = 0;
        while i < n
            invariant
                i <= n,
                n == self@.firmware.len(),
                self@.wf(),
                forall|j: int| 0 <= j < i ==> (#[trigger] self@.firmware[j]).0 != name@,
            decreases n - i,
        {
            if self.firmware[i].0 == *name {
                proof {
                    assert(self@.firmware[i as int].0 == name@);
                    assert(fw_has(self@.firmware, name@));
                    let k = fw_idx(self@.firmware, name@);
                    assert(0 <= k < self@.firmware.len() && self@.firmware[k].0 == name@);
                    assert(k == i as int) by {
                        if k < i as int {
                            assert(self@.firmware[k].0 != self@.firmware[i as int].0);
                        } else if k > i as int {
                            assert(self@.firmware[i as int].0 != self@.firmware[k].0);
                        }
                    }
                }
                return Some(i);
            }
            i = i + 1;
        }
        None
    }

    /// Files `data` under `name`, replacing any image already there.
    fn fw_store(&mut self, name: String, data: Vec<u8>)
        requires
            old(self)@.wf(),
        ensures
            final(self)@.wf(),
            final(self)@.firmware == fw_set(old(self)@.firmware, name@, data@),
            final(self)@.resources == old(self)@.resources,
            final(self)@.slots == old(self)@.slots,
    {
        let ghost gname = name@;
        let ghost gdata = data@;
        let found = self.fw_find(&name);
        match found {
            Some(i) => {
                self.firmware[i] = (name, data);
                proof {
                    assert(self@.firmware =~~= fw_set(old(self)@.firmware, gname, gdata));
                    assert forall|a: int, b: int|
                        0 <= a < b < self@.firmware.len() implies (#[trigger] self@.firmware[a]).0
                        != (#[trigger] self@.firmware[b]).0 by {
                        assert(self@.firmware[a].0 == old(self)@.firmware[a].0);
                        assert(self@.firmware[b].0 == old(self)@.firmware[b].0);
                    }
                }
            },
            None => {
                self.firmware.push((name, data));
                proof {
                    assert(self@.firmware =~~= fw_set(old(self)@.firmware, gname, gdata));
                    let pre = old(self)@.firmware;
                    assert forall|a: int| 0 <= a < pre.len() implies (#[trigger] pre[a]).0
                        != gname by {
                        if pre[a].0 == gname {
                            assert(fw_has(pre, gname));
                        }
                    }
                }
            },
        }
    }

    /// Resets the device; the model's byte-visible state does not change.
    pub fn reset(&mut self) -> (r: bool)
        requires
            old(self)@.wf(),
        ensures
            *final(self) == *old(self),
            r == true,
    {
        true
    }

    /// Loads the firmware filed under `name` into a fresh slot.
    pub fn load(&mut self, name: &str) -> (r: (bool, i32))
        requires
            old(self)@.wf(),
        ensures
            final(self)@.wf(),
            r.0 == load_ok(old(self)@, name@),
            final(self)@ == load_post(old(self)@, name@),
            r.0 ==> r.1 == old(self)@.slots.len() as i32,
            !r.0 ==> r.1 == 0,
    {
        let key = name.to_owned();
        let found = self.fw_find(&key);
        if found.is_none() {
            return (false, 0);
        }
        if !(self.slots.len() < 0x7FFF_FFFF_usize) {
            return (false, 0);
        }
        let slot = self.slots.len() as i32;
        self.slots.push(Some(key));
        proof {
            assert(self@ =~~= load_post(old(self)@, name@));
        }
        (true, slot)
    }

    /// Frees the slot a load returned; fails on a free or unknown slot.
    pub fn unload(&mut self, slot: i32) -> (r: bool)
        requires
            old(self)@.wf(),
        ensures
            final(self)@.wf(),
            r == unload_ok(old(self)@, slot),
            final(self)@ == unload_post(old(self)@, slot),
    {
        if !(slot >= 0 && (slot as usize) < self.slots.len()) {
            return false;
        }
        let idx = slot as usize;
        if self.slots[idx].is_none() {
            return false;
        }
        self.slots[idx] = None;
        proof {
            assert(self@ =~~= unload_post(old(self)@, slot));
        }
        true
    }

    /// Consumes one upload stream: concatenates the chunks in arrival
    /// order and files the result under the name the stream carries. An
    /// empty stream carries no name and changes nothing.
    pub fn upload_firmware(&mut self, chunks: &Vec<UploadChunk>) -> (r: bool)
        requires
            old(self)@.wf(),
        ensures
            final(self)@.wf(),
            r == true,
            final(self)@ == upload_post(old(self)@, chunks@),
    {
        if chunks.len() == 0 {
            return true;
        }
        let name = chunks[0].name.clone();
        let mut data: Vec<u8> = Vec::new();
        let n = chunks.len();
        let mut i: usize = 0;
        proof {
            assert(chunks_data(chunks@.subrange(0, 0)) =~= Seq::<Seq<u8>>::empty());
        }
        while i < n
            invariant
                i <= n,
                n == chunks@.len(),
                data@ == concat_bytes(chunks_data(chunks@.subrange(0, i as int))),
            decreases n - i,
        {
            let m = chunks[i].data.len();
            let mut piece = copy_range(&chunks[i].data, 0, m);
            proof {
                assert(piece@ =~= chunks@[i as int].data@);
            }
            data.append(&mut piece);
            proof {
                let s1 = chunks@.subrange(0, i as int);
                let s2 = chunks@.subrange(0, i + 1);
                assert(chunks_data(s2).drop_last() =~= chunks_data(s1));
                assert(chunks_data(s2).last() == chunks@[i as int].data@);
            }
            i = i + 1;
        }
        proof {
            assert(chunks@.subrange(0, n as int) =~= chunks@);
        }
        self.fw_store(name, data);
        proof {
            assert(self@ =~~= upload_post(old(self)@, chunks@));
        }
        true
    }

    /// Discards the image filed under `name`.
    pub fn remove_firmware(&mut self, name: &str) -> (r: bool)
        requires
            old(self)@.wf(),
        ensures
            final(self)@.wf(),
            r == fw_has(old(self)@.firmware, name@),
            final(self)@ == remove_firmware_post(old(self)@, name@),
    {
        let key = name.to_owned();
        match self.fw_find(&key) {
            None => false,
            Some(i) => {
                self.firmware.remove(i);
                proof {
                    let pre = old(self)@.firmware;
                    pre.remove_ensures(i as int);
                    assert(self@.firmware =~~= pre.remove(i as int));
                    assert(self@.firmware =~~= fw_removed(pre, name@));
                    assert forall|a: int, b: int|
                        0 <= a < b < self@.firmware.len() implies (#[trigger] self@.firmware[a]).0
                        != (#[trigger] self@.firmware[b]).0 by {
                        let fa = if a < i as int {
                            a
                        } else {
                            a + 1
                        };
                        let fb = if b < i as int {
                            b
                        } else {
                            b + 1
                        };
                        assert(self@.firmware[a] == pre[fa]);
                        assert(self@.firmware[b] == pre[fb]);
                        assert(pre[fa].0 != pre[fb].0);
                    }
                }
                true
            },
        }
    }

    /// Programs the bitstream filed under `name`; the model's
    /// byte-visible state does not change.
    pub fn load_bitstream(&mut self, name: &str) -> (r: bool)
        requires
            old(self)@.wf(),
        ensures
            *final(self) == *old(self),
            r == fw_has(old(self)@.firmware, name@),
    {
        let key = name.to_owned();
        self.fw_find(&key).is_some()
    }

    /// Applies the device-tree overlay filed under `name`; the model's
    /// byte-visible state does not change.
    pub fn load_dtbo(&mut self, name: &str) -> (r: bool)
        requires
            old(self)@.wf(),
        ensures
            *final(self) == *old(self),
            r == fw_has(old(self)@.firmware, name@),
    {
        let key = name.to_owned();
        self.fw_find(&key).is_some()
    }

    /// Compiles device-tree source to binary form. Real compilation is
    /// out of the model's scope: the model answers with the source bytes
    /// themselves, which is enough to exercise marshaling either way.
    pub fn dts_to_dtb(&mut self, dts: &str) -> (r: (bool, Vec<u8>))
        requires
            old(self)@.wf(),
        ensures
            *final(self) == *old(self),
            r.0 == true,
            r.1@ == dts.spec_bytes(),
    {
        let b = dts.as_bytes();
        let n = b.len();
        let mut out: Vec<u8> = Vec::new();
        let mut i: usize = 0;
        while i < n
            invariant
                i <= n,
                n == b@.len(),
                b@ == dts.spec_bytes(),
                out@ == b@.subrange(0, i as int),
            decreases n - i,
        {
            out.push(b[i]);
            proof {
                assert(out@ =~= b@.subrange(0, i + 1));
            }
            i = i + 1;
        }
        proof {
            assert(out@ =~= b@);
        }
        (true, out)
    }

    /// Converts the stored bitstream `bitstream_name` into a stored
    /// binary `bin_name`; the model files the same bytes under the new
    /// name.
    pub fn bitstream_to_bin(&mut self, bitstream_name: &str, bin_name: &str, arch: &str) -> (r:
        bool)
        requires
            old(self)@.wf(),
        ensures
            final(self)@.wf(),
            r == fw_has(old(self)@.firmware, bitstream_name@),
            final(self)@ == bitstream_to_bin_post(old(self)@, bitstream_name@, bin_name@),
    {
        let _ = arch;
        let skey = bitstream_name.to_owned();
        match self.fw_find(&skey) {
            None => false,
            Some(i) => {
                let len = self.firmware[i].1.len();
                let data = copy_range(&self.firmware[i].1, 0, len);
                proof {
                    assert(data@ =~= fw_get(old(self)@.firmware, bitstream_name@));
                }
                let bkey = bin_name.to_owned();
                self.fw_store(bkey, data);
                proof {
                    assert(self@ =~~= bitstream_to_bin_post(
                        old(self)@,
                        bitstream_name@,
                        bin_name@,
                    ));
                }
                true
            },
        }
    }
}

} // verus!
