use rvos::virtio::{
    complete_read, complete_write, device_sanity, BlockDeviceDriver, Descriptor, IOError, Virtq,
};

#[test]
fn sanity_check_recognizes_the_device() {
    assert!(device_sanity(0x74726976, 1, 2));
    assert!(!device_sanity(0xdeadbeef, 1, 2));
    assert!(!device_sanity(0x74726976, 2, 2));
    assert!(!device_sanity(0x74726976, 1, 3));
}

#[test]
fn fresh_virtq_is_zeroed() {
    let q = Virtq::init(0);
    assert_eq!(q.queue_index, 0);
    assert_eq!(q.available.index, 0);
    assert_eq!(q.last_used_index, 0);
    assert_eq!(q.descriptors.len(), 16);
    assert_eq!(q.descriptors[5], Descriptor { addr: 0, len: 0, flags: 0, next: 0 });
}

#[test]
fn new_driver_capacity_in_bytes() {
    let d = BlockDeviceDriver::new(20);
    assert_eq!(d.capacity, 20 * 512);
}

#[test]
fn read_descriptor_chain_shape() {
    // the read chain: 16-byte header with NEXT, 512-byte device-writable
    // buffer with NEXT|WRITE, one device-writable status byte
    let mut d = BlockDeviceDriver::new(20);
    let req_addr = 0x8000_4000u64;
    d.prepare_read(512, 3, req_addr).expect("in range");
    assert_eq!(
        d.virtq.descriptors[0],
        Descriptor { addr: req_addr, len: 16, flags: 1, next: 1 }
    );
    assert_eq!(
        d.virtq.descriptors[1],
        Descriptor { addr: req_addr + 16, len: 512, flags: 1 | 2, next: 2 }
    );
    let status = d.virtq.descriptors[2];
    assert_eq!(status.addr, req_addr + 528);
    assert_eq!(status.len, 1);
    assert_eq!(status.flags, 2);
}

#[test]
fn read_request_record() {
    let mut d = BlockDeviceDriver::new(20);
    let req = d.prepare_read(512, 3, 0x8000_4000).unwrap();
    assert_eq!(req.type_, 0);
    assert_eq!(req.reserved, 0);
    assert_eq!(req.sector, 3);
    assert_eq!(req.status, 0);
    assert_eq!(req.data.len(), 512);
}

#[test]
fn read_past_capacity_is_invalid_sector() {
    // a read of sector capacity/512 reports the sector and the capacity
    let mut d = BlockDeviceDriver::new(20);
    let r = d.prepare_read(512, 20, 0x8000_4000);
    assert_eq!(r.err().unwrap(), IOError::InvalidSector(20, 20 * 512));
    assert_eq!(d.assert_sector_in_range(19), Ok(()));
    assert_eq!(
        d.assert_sector_in_range(25),
        Err(IOError::InvalidSector(25, 20 * 512))
    );
}

#[test]
fn short_buffer_is_not_enough_space() {
    let mut d = BlockDeviceDriver::new(20);
    let r = d.prepare_read(256, 0, 0x8000_4000);
    assert_eq!(r.err().unwrap(), IOError::NotEnoughSpaceForRead(256));
}

#[test]
fn kick_publishes_and_counts() {
    let mut d = BlockDeviceDriver::new(20);
    let notify = d.kick(0);
    assert_eq!(notify, 0);
    assert_eq!(d.virtq.available.ring[0], 0);
    assert_eq!(d.virtq.available.index, 1);
    assert_eq!(d.virtq.last_used_index, 1);
    // busy until the device's used index catches up
    assert!(d.is_busy(0));
    assert!(!d.is_busy(1));
}

#[test]
fn kick_wraps_its_counters() {
    let mut d = BlockDeviceDriver::new(20);
    d.virtq.available.index = u16::MAX;
    d.virtq.last_used_index = u16::MAX;
    d.kick(7);
    assert_eq!(d.virtq.available.index, 0);
    assert_eq!(d.virtq.last_used_index, 0);
    assert_eq!(d.virtq.available.ring[(u16::MAX as usize) % 16], 7);
}

#[test]
fn complete_read_copies_the_sector() {
    // a completed read of the first header of a single-file archive fills
    // the front of the buffer with the name and NULs
    let mut d = BlockDeviceDriver::new(20);
    let mut req = d.prepare_read(512, 0, 0x8000_4000).unwrap();
    let mut sector = vec![0u8; 512];
    sector[..11].copy_from_slice(b"./hello.txt");
    sector[257..263].copy_from_slice(b"ustar\0");
    req.data = sector.clone();
    let mut buf = vec![0xAAu8; 600];
    complete_read(&req, &mut buf).expect("status 0");
    assert_eq!(&buf[..11], b"./hello.txt");
    assert!(buf[11..100].iter().all(|b| *b == 0));
    assert_eq!(&buf[..512], sector.as_slice());
    assert!(buf[512..].iter().all(|b| *b == 0xAA));
}

#[test]
fn complete_read_reports_device_error() {
    let mut d = BlockDeviceDriver::new(20);
    let mut req = d.prepare_read(512, 4, 0x8000_4000).unwrap();
    req.status = 9;
    let mut buf = vec![0u8; 512];
    let r = complete_read(&req, &mut buf);
    assert_eq!(r.err().unwrap(), IOError::ReadFail(4, 9));
}

#[test]
fn write_chain_and_data() {
    // on a write only the status byte is device-writable
    let mut d = BlockDeviceDriver::new(20);
    let req = d.prepare_write(b"Meow!\n", 5, 0x8000_4000).expect("in range");
    assert_eq!(req.type_, 1);
    assert_eq!(req.sector, 5);
    assert_eq!(&req.data[..6], b"Meow!\n");
    assert!(req.data[6..].iter().all(|b| *b == 0));
    assert_eq!(d.virtq.descriptors[1].flags, 1);
    assert_eq!(d.virtq.descriptors[2].flags, 2);
    assert_eq!(complete_write(&req), Ok(()));
}

#[test]
fn write_failures() {
    let mut d = BlockDeviceDriver::new(20);
    let r = d.prepare_write(b"x", 21, 0x8000_4000);
    assert_eq!(r.err().unwrap(), IOError::InvalidSector(21, 20 * 512));
    let mut req = d.prepare_write(b"x", 2, 0x8000_4000).unwrap();
    req.status = 1;
    assert_eq!(complete_write(&req), Err(IOError::WriteFail(2, 1)));
}

#[test]
fn block_request_ok_reads_the_status() {
    let mut d = BlockDeviceDriver::new(20);
    let mut req = d.prepare_read(512, 0, 0x8000_4000).unwrap();
    assert!(req.ok());
    req.status = 1;
    assert!(!req.ok());
}
