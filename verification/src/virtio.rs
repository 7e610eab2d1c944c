//! The legacy virtio MMIO block-device protocol: the virtqueue a request
//! travels through, the block-request record, and the decisions of the
//! synchronous read and write paths.
//!
//! The device itself sits behind memory-mapped registers at
//! `VIRTIO_BLK_PADDR`. Every volatile register access, the memory fence
//! before the queue notification, and the busy-wait on the used ring happen
//! at that boundary, outside this crate; here the queue state is built and
//! checked, and every register value and observed index passes through as a
//! plain value.

use vstd::prelude::*;
use vstd::wrapping::u16_specs;

verus! {

/// Bytes in one disk sector.
pub const SECTOR_SIZE: u64 = 512;

/// Descriptors in the virtqueue.
pub const VIRTQ_ENTRY_NUM: usize = 16;

/// Physical address of the device's MMIO window.
pub const VIRTIO_BLK_PADDR: u64 = 0x10001000;

/// The magic value the first device register must hold: `"virt"`.
pub const VIRTIO_MAGIC: u32 = 0x74726976;

/// The transport version of the legacy MMIO interface.
pub const VIRTIO_VERSION_LEGACY: u32 = 1;

/// The device id of a block device.
pub const VIRTIO_DEVICE_BLK: u32 = 2;

/// Descriptor flag: another descriptor follows in `next`.
pub const VIRTQ_DESC_F_NEXT: u16 = 1;

/// Descriptor flag: the device writes this buffer.
pub const VIRTQ_DESC_F_WRITE: u16 = 2;

/// Request type: read a sector from the device.
pub const VIRTIO_BLK_T_IN: u32 = 0;

/// Request type: write a sector to the device.
pub const VIRTIO_BLK_T_OUT: u32 = 1;

/// One entry of the descriptor table: a buffer the device reads or writes.
#[derive(Debug, Clone, Copy, PartialEq, Eq, Structural)]
pub struct Descriptor {
    /// Physical address of the buffer.
    pub addr: u64,
    /// Length of the buffer in bytes.
    pub len: u32,
    /// `VIRTQ_DESC_F_NEXT` and/or `VIRTQ_DESC_F_WRITE`.
    pub flags: u16,
    /// The index of the next descriptor of the chain, when `NEXT` is set.
    pub next: u16,
}

impl Default for Descriptor {
    /// An all-zero descriptor.
    fn default() -> (r: Self)
        ensures
            r == (Descriptor { addr: 0, len: 0, flags: 0, next: 0 }),
    {
        Descriptor { addr: 0, len: 0, flags: 0, next: 0 }
    }
}

/// The available ring: where the driver publishes descriptor chains.
pub struct Available {
    /// Ring flags; the driver leaves them zero.
    pub flags: u16,
    /// Where the driver will publish next; only ever incremented.
    pub index: u16,
    /// The published head descriptor indices.
    pub ring: Vec<u16>,
}

/// One entry of the used ring, written by the device.
#[derive(Debug, Clone, Copy, PartialEq, Eq, Structural)]
pub struct UsedElemEntry {
    /// The head descriptor of the finished chain.
    pub id: u32,
    /// How many bytes the device wrote.
    pub len: u32,
}

/// The used ring: where the device reports finished chains.
pub struct Used {
    /// Ring flags, device-owned.
    pub flags: u16,
    /// How many chains the device has finished; device-written.
    pub index: u16,
    /// The finished chains.
    pub ring: Vec<UsedElemEntry>,
}

/// The driver's view of its virtqueue.
///
/// The live structure is DMA memory the device was pointed at: a packed,
/// page-aligned block holding the descriptor table, the available ring and
/// the used ring, pinned for the device's sake and carrying a pointer to
/// its own used-index field. This value tracks what the driver writes
/// there; the device-written fields come back into the functions here as
/// arguments.
pub struct Virtq {
    /// The descriptor table.
    pub descriptors: Vec<Descriptor>,
    /// The driver-owned available ring.
    pub available: Available,
    /// The device-owned used ring, as last observed.
    pub used: Used,
    /// Which queue this is; programmed into QUEUE_SEL.
    pub queue_index: u32,
    /// The driver's count of requests it has pushed; the device has
    /// caught up when the device's used index equals it.
    pub last_used_index: u16,
}

impl Virtq {
    /// The rings have their fixed sizes.
    pub open spec fn wf(self) -> bool {
        &&& self.descriptors@.len() == 16
        &&& self.available.ring@.len() == 16
        &&& self.used.ring@.len() == 16
    }

    /// A zeroed queue with the given index, ready to be programmed into
    /// the device.
    pub fn init(index: u32) -> (r: Virtq)
        ensures
            r.wf(),
            r.queue_index == index,
            r.available.index == 0,
            r.last_used_index == 0,
            forall|i: int|
                0 <= i < 16 ==> (#[trigger] r.descriptors@[i]) == (Descriptor {
                    addr: 0,
                    len: 0,
                    flags: 0,
                    next: 0,
                }),
    {
        let mut descriptors: Vec<Descriptor> = Vec::new();
        let mut avail_ring: Vec<u16> = Vec::new();
        let mut used_ring: Vec<UsedElemEntry> = Vec::new();
        let mut k: usize = 0;
        while k < 16
            invariant
                k <= 16,
                descriptors@.len() == k,
                avail_ring@.len() == k,
                used_ring@.len() == k,
                forall|i: int|
                    0 <= i < k ==> (#[trigger] descriptors@[i]) == (Descriptor {
                        addr: 0,
                        len: 0,
                        flags: 0,
                        next: 0,
                    }),
            decreases 16 - k,
        {
            descriptors.push(Descriptor { addr: 0, len: 0, flags: 0, next: 0 });
            avail_ring.push(0);
            used_ring.push(UsedElemEntry { id: 0, len: 0 });
            k = k + 1;
        }
        Virtq {
            descriptors,
            available: Available { flags: 0, index: 0, ring: avail_ring },
            used: Used { flags: 0, index: 0, ring: used_ring },
            queue_index: index,
            last_used_index: 0,
        }
    }
}

/// One block operation in flight: the 16-byte header the device reads, the
/// sector buffer, and the status byte the device writes. The live record
/// sits packed on the kernel stack; `req_addr` arguments name its address
/// there.
pub struct BlockRequest {
    /// `VIRTIO_BLK_T_IN` or `VIRTIO_BLK_T_OUT`.
    pub type_: u32,
    /// Always zero.
    pub reserved: u32,
    /// The sector the request touches.
    pub sector: u64,
    /// The sector buffer, 512 bytes.
    pub data: Vec<u8>,
    /// 0 after success, the device's error code otherwise.
    pub status: u8,
}

/// Byte offset of the sector buffer inside the packed request record.
pub const BLK_REQ_DATA_OFFSET: u64 = 16;

/// Byte offset of the status byte inside the packed request record.
pub const BLK_REQ_STATUS_OFFSET: u64 = 528;

impl BlockRequest {
    /// Did the device report success?
    pub fn ok(&self) -> (b: bool)
        ensures
            b == (self.status == 0),
    {
        self.status == 0
    }
}

impl Default for BlockRequest {
    /// An all-zero request.
    fn default() -> (r: Self)
        ensures
            r.type_ == 0,
            r.reserved == 0,
            r.sector == 0,
            r.status == 0,
            r.data@.len() == 512,
            forall|i: int| 0 <= i < 512 ==> r.data@[i] == 0,
    {
        let mut data: Vec<u8> = Vec::new();
        let mut k: usize = 0;
        while k < 512
            invariant
                k <= 512,
                data@.len() == k,
                forall|i: int| 0 <= i < k ==> data@[i] == 0,
            decreases 512 - k,
        {
            data.push(0);
            k = k + 1;
        }
        BlockRequest { type_: 0, reserved: 0, sector: 0, data, status: 0 }
    }
}

/// Why a block operation failed.
#[derive(Debug, Clone, Copy, PartialEq, Eq, Structural)]
pub enum IOError {
    /// The sector lies at or past the device's capacity; carries the
    /// sector and the capacity in bytes.
    InvalidSector(u64, u64),
    /// A read needs a buffer of at least one sector; carries the buffer's
    /// size.
    NotEnoughSpaceForRead(usize),
    /// The device reported an error on a write; carries sector and status.
    WriteFail(u64, u8),
    /// The device reported an error on a read; carries sector and status.
    ReadFail(u64, u8),
}

/// Do the first three device registers identify a legacy virtio block
/// device? The kernel refuses to boot otherwise.
pub fn device_sanity(magic: u32, version: u32, device_id: u32) -> (b: bool)
    ensures
        b == (magic == 0x74726976 && version == 1 && device_id == 2),
{
    magic == VIRTIO_MAGIC && version == VIRTIO_VERSION_LEGACY && device_id == VIRTIO_DEVICE_BLK
}

/// The driver's state for one block device: its queue and its capacity in
/// bytes.
pub struct BlockDeviceDriver {
    /// Queue 0 of the device.
    pub virtq: Virtq,
    /// The device's size in bytes.
    pub capacity: u64,
}

impl BlockDeviceDriver {
    /// The queue is well formed.
    pub open spec fn wf(self) -> bool {
        self.virtq.wf()
    }

    /// Driver state for a device of `capacity_sectors` sectors, as read
    /// from the device's configuration space, with a fresh queue 0.
    pub fn new(capacity_sectors: u64) -> (r: BlockDeviceDriver)
        requires
            capacity_sectors * 512 <= u64::MAX,
        ensures
            r.wf(),
            r.capacity == capacity_sectors * 512,
            r.virtq.queue_index == 0,
            r.virtq.available.index == 0,
            r.virtq.last_used_index == 0,
    {
        BlockDeviceDriver { virtq: Virtq::init(0), capacity: capacity_sectors * 512 }
    }

    /// Publish the chain headed by `desc_index` on the available ring and
    /// count the request. Returns the value for the QUEUE_NOTIFY register;
    /// the caller issues the memory fence and the MMIO write.
    pub fn kick(&mut self, desc_index: u16) -> (notify: u32)
        requires
            old(self).wf(),
        ensures
            final(self).wf(),
            notify == old(self).virtq.queue_index,
            final(self).virtq.available.ring@ == old(self).virtq.available.ring@.update(
                old(self).virtq.available.index as int % 16,
                desc_index,
            ),
            final(self).virtq.available.index == u16_specs::wrapping_add(
                old(self).virtq.available.index,
                1,
            ),
            final(self).virtq.last_used_index == u16_specs::wrapping_add(
                old(self).virtq.last_used_index,
                1,
            ),
            final(self).virtq.descriptors@ == old(self).virtq.descriptors@,
            final(self).virtq.used == old(self).virtq.used,
            final(self).virtq.queue_index == old(self).virtq.queue_index,
            final(self).capacity == old(self).capacity,
    {
        let index = (self.virtq.available.index as usize) % 16;
        self.virtq.available.ring[index] = desc_index;
        self.virtq.available.index = self.virtq.available.index.wrapping_add(1);
        let notify = self.virtq.queue_index;
        self.virtq.last_used_index = self.virtq.last_used_index.wrapping_add(1);
        notify
    }

    /// Has the device not yet caught up with the driver's request count?
    /// `device_used_index` is the used-ring index read back from the DMA
    /// block.
    pub fn is_busy(&self, device_used_index: u16) -> (b: bool)
        ensures
            b == (self.virtq.last_used_index != device_used_index),
    {
        self.virtq.last_used_index != device_used_index
    }

    /// Is `sector` within the device? The error carries the sector and the
    /// capacity in bytes.
    pub fn assert_sector_in_range(&self, sector: u64) -> (r: Result<(), IOError>)
        ensures
            r is Ok <==> sector < self.capacity / 512,
            r matches Err(e) ==> e == IOError::InvalidSector(sector, self.capacity),
            r is Err <==> sector >= self.capacity / 512,
    {
        if sector < self.capacity / SECTOR_SIZE {
            Ok(())
        } else {
            Err(IOError::InvalidSector(sector, self.capacity))
        }
    }

    /// Stage a read of `sector` into a caller buffer of `buf_len` bytes:
    /// check the request, build the zeroed read record, and wire the
    /// three-descriptor chain for a request record living at `req_addr`.
    ///
    /// The chain is the read shape: the 16-byte header first with `NEXT`,
    /// the 512-byte sector buffer second, device-writable and with `NEXT`,
    /// the status byte third, device-writable. The caller then publishes
    /// it with `kick`, waits until `is_busy` clears, and finishes with
    /// `complete_read`.
    pub fn prepare_read(&mut self, buf_len: usize, sector: u64, req_addr: u64) -> (r: Result<
        BlockRequest,
        IOError,
    >)
        requires
            old(self).wf(),
            req_addr + 529 <= u64::MAX,
        ensures
            final(self).wf(),
            final(self).capacity == old(self).capacity,
            (r == Err::<BlockRequest, IOError>(IOError::NotEnoughSpaceForRead(buf_len)))
                <==> buf_len < 512,
            (r == Err::<BlockRequest, IOError>(IOError::InvalidSector(
                sector,
                old(self).capacity,
            ))) <==> (buf_len >= 512 && sector >= old(self).capacity / 512),
            r is Ok <==> (buf_len >= 512 && sector < old(self).capacity / 512),
            r is Err ==> *final(self) == *old(self),
            r matches Ok(req) ==> {
                &&& req.type_ == 0
                &&& req.reserved == 0
                &&& req.sector == sector
                &&& req.status == 0
                &&& req.data@.len() == 512
                &&& forall|i: int| 0 <= i < 512 ==> req.data@[i] == 0
                &&& final(self).virtq.descriptors@[0] == (Descriptor {
                    addr: req_addr,
                    len: 16,
                    flags: 1,
                    next: 1,
                })
                &&& final(self).virtq.descriptors@[1] == (Descriptor {
                    addr: (req_addr + 16) as u64,
                    len: 512,
                    flags: 3,
                    next: 2,
                })
                &&& final(self).virtq.descriptors@[2] == (Descriptor {
                    addr: (req_addr + 528) as u64,
                    len: 1,
                    flags: 2,
                    next: old(self).virtq.descriptors@[2].next,
                })
                &&& forall|i: int|
                    3 <= i < 16 ==> final(self).virtq.descriptors@[i] == old(
                        self,
                    ).virtq.descriptors@[i]
                &&& final(self).virtq.available == old(self).virtq.available
                &&& final(self).virtq.last_used_index == old(self).virtq.last_used_index
            },
    {
        if buf_len < 512 {
            return Err(IOError::NotEnoughSpaceForRead(buf_len));
        }
        match self.assert_sector_in_range(sector) {
            Ok(()) => {},
            Err(e) => {
                return Err(e);
            },
        }
        let mut request = BlockRequest::default();
        request.sector = sector;
        request.type_ = VIRTIO_BLK_T_IN;
        self.virtq.descriptors[0] = Descriptor {
            addr: req_addr,
            len: 16,
            flags: VIRTQ_DESC_F_NEXT,
            next: 1,
        };
        proof {
            assert((1u16 | 2u16) == 3) by (bit_vector);
        }
        self.virtq.descriptors[1] = Descriptor {
            addr: req_addr + BLK_REQ_DATA_OFFSET,
            len: SECTOR_SIZE as u32,
            flags: VIRTQ_DESC_F_NEXT | VIRTQ_DESC_F_WRITE,
            next: 2,
        };
        let keep_next = self.virtq.descriptors[2].next;
        self.virtq.descriptors[2] = Descriptor {
            addr: req_addr + BLK_REQ_STATUS_OFFSET,
            len: 1,
            flags: VIRTQ_DESC_F_WRITE,
            next: keep_next,
        };
        Ok(request)
    }

    /// Stage a write of `buf` to `sector`: check the sector, build the
    /// write record carrying the caller's bytes, and wire the chain; only
    /// the status byte is device-writable on a write.
    pub fn prepare_write(&mut self, buf: &[u8], sector: u64, req_addr: u64) -> (r: Result<
        BlockRequest,
        IOError,
    >)
        requires
            old(self).wf(),
            buf@.len() <= 512,
            req_addr + 529 <= u64::MAX,
        ensures
            final(self).wf(),
            final(self).capacity == old(self).capacity,
            r is Ok <==> sector < old(self).capacity / 512,
            r matches Err(e) ==> e == IOError::InvalidSector(sector, old(self).capacity),
            r is Err ==> *final(self) == *old(self),
            r matches Ok(req) ==> {
                &&& req.type_ == 1
                &&& req.reserved == 0
                &&& req.sector == sector
                &&& req.status == 0
                &&& req.data@.len() == 512
                &&& forall|i: int| 0 <= i < buf@.len() ==> req.data@[i] == buf@[i]
                &&& forall|i: int| buf@.len() <= i < 512 ==> req.data@[i] == 0
                &&& final(self).virtq.descriptors@[0] == (Descriptor {
                    addr: req_addr,
                    len: 16,
                    flags: 1,
                    next: 1,
                })
                &&& final(self).virtq.descriptors@[1] == (Descriptor {
                    addr: (req_addr + 16) as u64,
                    len: 512,
                    flags: 1,
                    next: 2,
                })
                &&& final(self).virtq.descriptors@[2] == (Descriptor {
                    addr: (req_addr + 528) as u64,
                    len: 1,
                    flags: 2,
                    next: old(self).virtq.descriptors@[2].next,
                })
                &&& forall|i: int|
                    3 <= i < 16 ==> final(self).virtq.descriptors@[i] == old(
                        self,
                    ).virtq.descriptors@[i]
                &&& final(self).virtq.available == old(self).virtq.available
                &&& final(self).virtq.last_used_index == old(self).virtq.last_used_index
            },
    {
        match self.assert_sector_in_range(sector) {
            Ok(()) => {},
            Err(e) => {
                return Err(e);
            },
        }
        let mut request = BlockRequest::default();
        request.sector = sector;
        request.type_ = VIRTIO_BLK_T_OUT;
        let mut k: usize = 0;
        while k < buf.len()
            invariant
                buf@.len() <= 512,
                k <= buf@.len(),
                request.type_ == 1,
                request.reserved == 0,
                request.sector == sector,
                request.status == 0,
                request.data@.len() == 512,
                forall|i: int| 0 <= i < k ==> request.data@[i] == buf@[i],
                forall|i: int| k <= i < 512 ==> request.data@[i] == 0,
            decreases buf@.len() - k,
        {
            let b = buf[k];
            request.data[k] = b;
            k = k + 1;
        }
        self.virtq.descriptors[0] = Descriptor {
            addr: req_addr,
            len: 16,
            flags: VIRTQ_DESC_F_NEXT,
            next: 1,
        };
        self.virtq.descriptors[1] = Descriptor {
            addr: req_addr + BLK_REQ_DATA_OFFSET,
            len: SECTOR_SIZE as u32,
            flags: VIRTQ_DESC_F_NEXT,
            next: 2,
        };
        let keep_next = self.virtq.descriptors[2].next;
        self.virtq.descriptors[2] = Descriptor {
            addr: req_addr + BLK_REQ_STATUS_OFFSET,
            len: 1,
            flags: VIRTQ_DESC_F_WRITE,
            next: keep_next,
        };
        Ok(request)
    }
}

/// Finish a read whose request the device has completed: on success the
/// first sector of `buf` becomes the data the device returned, the rest of
/// `buf` stays; on a device error nothing changes and the error carries
/// the sector and the status byte.
pub fn complete_read(request: &BlockRequest, buf: &mut Vec<u8>) -> (r: Result<(), IOError>)
    requires
        old(buf)@.len() >= 512,
        request.data@.len() == 512,
    ensures
        r is Ok <==> request.status == 0,
        r matches Err(e) ==> e == IOError::ReadFail(request.sector, request.status),
        final(buf)@.len() == old(buf)@.len(),
        r is Ok ==> forall|i: int| 0 <= i < 512 ==> final(buf)@[i] == request.data@[i],
        r is Ok ==> forall|i: int| 512 <= i < old(buf)@.len() ==> final(buf)@[i] == old(buf)@[i],
        r is Err ==> final(buf)@ == old(buf)@,
{
    if !request.ok() {
        return Err(IOError::ReadFail(request.sector, request.status));
    }
    let mut k: usize = 0;
    while k < 512
        invariant
            old(buf)@.len() >= 512,
            request.data@.len() == 512,
            k <= 512,
            buf@.len() == old(buf)@.len(),
            forall|i: int| 0 <= i < k ==> buf@[i] == request.data@[i],
            forall|i: int| k <= i < old(buf)@.len() ==> buf@[i] == old(buf)@[i],
        decreases 512 - k,
    {
        let b = request.data[k];
        buf[k] = b;
        k = k + 1;
    }
    Ok(())
}

/// Finish a write: success when the device's status byte is zero, else the
/// error carries the sector and the status byte.
pub fn complete_write(request: &BlockRequest) -> (r: Result<(), IOError>)
    ensures
        r is Ok <==> request.status == 0,
        r matches Err(e) ==> e == IOError::WriteFail(request.sector, request.status),
{
    if request.ok() {
        Ok(())
    } else {
        Err(IOError::WriteFail(request.sector, request.status))
    }
}

} // verus!
