use nitro_rs::arm7::constants::{
    FIRMWARE_PW, FIRMWARE_RDSR, FIRMWARE_READ, FIRMWARE_WREN, SPI_DISABLE, SPI_WORKING,
    SPI_WRITE_ENABLED,
};
use nitro_rs::arm7::firmware::{
    compare_pages, read_firmware, write_firmware, FirmwareWriteError, FirmwareWriteStep,
    PageWriteStep, PageWriter, SpiOp, PAGE_SIZE,
};

const READ_CONTROL: u16 = 0x8D00;
const WRITE_CONTROL: u16 = 0x8900;

fn expected_read(addr: usize, size: usize) -> Vec<SpiOp> {
    let mut ops = vec![
        SpiOp::EnterCriticalSection,
        SpiOp::SetControl(READ_CONTROL),
        SpiOp::Send(FIRMWARE_READ),
        SpiOp::Send((addr >> 16) as u8),
        SpiOp::Send((addr >> 8) as u8),
        SpiOp::Send(addr as u8),
    ];
    for _ in 0..size {
        ops.push(SpiOp::Receive);
    }
    ops.push(SpiOp::SetControl(SPI_DISABLE));
    ops.push(SpiOp::LeaveCriticalSection);
    ops
}

fn run(step: PageWriteStep) -> Vec<SpiOp> {
    match step {
        PageWriteStep::Run(ops) => ops,
        PageWriteStep::Done(r) => panic!("unexpected end {:?}", r),
    }
}

fn done(step: PageWriteStep) -> Result<(), ()> {
    match step {
        PageWriteStep::Done(r) => r,
        PageWriteStep::Run(ops) => panic!("unexpected ops {:?}", ops),
    }
}

#[test]
fn read_firmware_script() {
    assert_eq!(read_firmware(0x123456, 3), expected_read(0x123456, 3));
    assert_eq!(read_firmware(0x20, 0), expected_read(0x20, 0));
}

#[test]
fn read_firmware_uses_low_three_address_bytes() {
    let ops = read_firmware(0x12345678, 1);
    assert_eq!(&ops[3..6], &[SpiOp::Send(0x34), SpiOp::Send(0x56), SpiOp::Send(0x78)]);
}

#[test]
fn compare_pages_cases() {
    assert!(compare_pages(&[1, 2, 3], &[1, 2, 3]));
    assert!(!compare_pages(&[1, 2, 3], &[1, 9, 3]));
    // Only the bytes both hold are compared.
    assert!(compare_pages(&[1, 2], &[1, 2, 3]));
    assert!(compare_pages(&[], &[7]));
}

#[test]
fn page_already_written_is_left_alone() {
    let page = vec![0xaa; PAGE_SIZE];
    let (mut w, ops) = PageWriter::start(0x1000, page.clone());
    assert_eq!(ops, expected_read(0x1000, PAGE_SIZE));
    assert_eq!(done(w.step(&page)), Ok(()));
}

fn program_script(addr: usize, page: &[u8]) -> Vec<SpiOp> {
    let mut ops = vec![
        SpiOp::SetControl(SPI_DISABLE),
        SpiOp::SetControl(WRITE_CONTROL),
        SpiOp::Send(FIRMWARE_PW),
        SpiOp::Send((addr >> 16) as u8),
        SpiOp::Send((addr >> 8) as u8),
        SpiOp::Send(addr as u8),
    ];
    for &b in page {
        ops.push(SpiOp::Send(b));
    }
    ops.extend_from_slice(&[
        SpiOp::SetControl(SPI_DISABLE),
        SpiOp::SetControl(WRITE_CONTROL),
        SpiOp::Send(FIRMWARE_RDSR),
        SpiOp::Receive,
    ]);
    ops
}

#[test]
fn page_write_full_protocol() {
    let page: Vec<u8> = (0..PAGE_SIZE).map(|i| i as u8).collect();
    let (mut w, _) = PageWriter::start(0x3f00, page.clone());
    let old = vec![0xff; PAGE_SIZE];
    assert_eq!(
        run(w.step(&old)),
        vec![
            SpiOp::EnterCriticalSection,
            SpiOp::SetControl(WRITE_CONTROL),
            SpiOp::Send(FIRMWARE_WREN),
            SpiOp::SetControl(SPI_DISABLE),
            SpiOp::SetControl(WRITE_CONTROL),
            SpiOp::Send(FIRMWARE_RDSR),
            SpiOp::Receive,
        ]
    );
    // The latch is not set yet: poll again.
    assert_eq!(run(w.step(&vec![0])), vec![SpiOp::Receive]);
    assert_eq!(run(w.step(&vec![SPI_WRITE_ENABLED])), program_script(0x3f00, &page));
    // Still programming: poll again.
    assert_eq!(run(w.step(&vec![SPI_WORKING | SPI_WRITE_ENABLED])), vec![SpiOp::Receive]);
    let mut verify = vec![SpiOp::SetControl(SPI_DISABLE), SpiOp::LeaveCriticalSection];
    verify.extend(expected_read(0x3f00, PAGE_SIZE));
    assert_eq!(run(w.step(&vec![0])), verify);
    assert_eq!(done(w.step(&page)), Ok(()));
}

#[test]
fn page_write_fails_when_readback_differs() {
    let page = vec![0x11; PAGE_SIZE];
    let (mut w, _) = PageWriter::start(0, page.clone());
    run(w.step(&vec![0; PAGE_SIZE]));
    run(w.step(&vec![SPI_WRITE_ENABLED]));
    run(w.step(&vec![0]));
    let mut bad = page.clone();
    bad[255] = 0x12;
    assert_eq!(done(w.step(&bad)), Err(()));
}

#[test]
fn write_firmware_rejects_misalignment() {
    assert_eq!(write_firmware(0x10, vec![0; 256]).err(), Some(FirmwareWriteError::Allignment));
    assert_eq!(write_firmware(0x100, vec![0; 255]).err(), Some(FirmwareWriteError::Allignment));
}

#[test]
fn write_firmware_pages_last_first() {
    let source: Vec<u8> = (0..768).map(|i| (i / 256) as u8).collect();
    let mut w = write_firmware(0x200, source).ok().unwrap();
    let mut pages = vec![];
    let mut previous = Ok(());
    loop {
        match w.step(previous) {
            FirmwareWriteStep::WritePage { addr, page } => {
                assert_eq!(page.len(), 256);
                pages.push((addr, page[0]));
                previous = Ok(());
            }
            FirmwareWriteStep::Done(r) => {
                assert_eq!(r, Ok(()));
                break;
            }
        }
    }
    assert_eq!(pages, vec![(0x400, 2), (0x300, 1), (0x200, 0)]);
}

#[test]
fn write_firmware_stops_at_failed_page() {
    let mut w = write_firmware(0, vec![0; 512]).ok().unwrap();
    match w.step(Ok(())) {
        FirmwareWriteStep::WritePage { addr, .. } => assert_eq!(addr, 256),
        FirmwareWriteStep::Done(_) => panic!("expected a page"),
    }
    match w.step(Err(())) {
        FirmwareWriteStep::Done(r) => assert_eq!(r, Err(FirmwareWriteError::PageWrite)),
        FirmwareWriteStep::WritePage { .. } => panic!("expected the end"),
    }
}

#[test]
fn write_firmware_empty_source() {
    let mut w = write_firmware(0x100, vec![]).ok().unwrap();
    match w.step(Ok(())) {
        FirmwareWriteStep::Done(r) => assert_eq!(r, Ok(())),
        FirmwareWriteStep::WritePage { .. } => panic!("nothing to write"),
    }
}

#[test]
fn write_firmware_last_page_of_address_space() {
    let addr = usize::MAX - 255;
    let mut w = write_firmware(addr, vec![7; 256]).ok().unwrap();
    match w.step(Ok(())) {
        FirmwareWriteStep::WritePage { addr: a, page } => {
            assert_eq!(a, addr);
            assert_eq!(page, vec![7; 256]);
        }
        FirmwareWriteStep::Done(_) => panic!("expected a page"),
    }
}
