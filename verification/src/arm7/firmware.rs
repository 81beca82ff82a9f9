use vstd::prelude::*;

use crate::arm7::constants::{
    FIRMWARE_PW, FIRMWARE_RDSR, FIRMWARE_READ, FIRMWARE_WREN, SPI_BYTE_MODE, SPI_CONTINUOUS,
    SPI_DEVICE_FIRMWARE, SPI_DEVICE_NVRAM, SPI_DISABLE, SPI_ENABLE, SPI_WORKING,
    SPI_WRITE_ENABLED,
};
use crate::aux::Flags;

verus! {

/// One step of a transaction with the firmware chip over SPI, for the caller
/// to carry out on the hardware in order.
#[derive(Clone, Copy, Debug, PartialEq, Eq, Structural)]
pub enum SpiOp {
    /// Enter a critical section (mask interrupts, keeping the old state).
    EnterCriticalSection,
    /// Leave the innermost critical section entered.
    LeaveCriticalSection,
    /// Write this value to REG_SPI_CNT.
    SetControl(u16),
    /// Transfer this byte and ignore the byte that comes back.
    Send(u8),
    /// Transfer a zero byte and keep the byte that comes back.
    Receive,
}

/// The number of bytes in a firmware page.
pub const PAGE_SIZE: usize = 256;

/// The control value for reads: enabled, byte mode, chip select held, on the
/// firmware chip.
pub open spec fn read_control() -> u16 {
    SPI_ENABLE | SPI_BYTE_MODE | SPI_CONTINUOUS | SPI_DEVICE_FIRMWARE
}

/// The control value for writes: enabled, chip select held, on the firmware
/// chip.
pub open spec fn write_control() -> u16 {
    SPI_ENABLE | SPI_CONTINUOUS | SPI_DEVICE_NVRAM
}

/// The three address bytes, most significant first.
pub open spec fn address_ops(addr: usize) -> Seq<SpiOp> {
    seq![
        SpiOp::Send(((addr >> 16usize) & 0xff) as u8),
        SpiOp::Send(((addr >> 8usize) & 0xff) as u8),
        SpiOp::Send((addr & 0xff) as u8),
    ]
}

/// `n` receives.
pub open spec fn receive_ops(n: nat) -> Seq<SpiOp> {
    Seq::new(n, |i: int| SpiOp::Receive)
}

/// Sends of each byte of `bytes`, in order.
pub open spec fn send_ops(bytes: Seq<u8>) -> Seq<SpiOp> {
    bytes.map_values(|b: u8| SpiOp::Send(b))
}

/// Reading `size` bytes from `addr`: in a critical section, the READ command
/// and the address, then `size` receives that are the bytes read.
pub open spec fn read_firmware_ops(addr: usize, size: nat) -> Seq<SpiOp> {
    seq![SpiOp::EnterCriticalSection, SpiOp::SetControl(read_control()), SpiOp::Send(FIRMWARE_READ)]
        + address_ops(addr) + receive_ops(size) + seq![
        SpiOp::SetControl(SPI_DISABLE),
        SpiOp::LeaveCriticalSection,
    ]
}

/// How many of the operations are receives.
pub open spec fn receive_count(ops: Seq<SpiOp>) -> nat
    decreases ops.len(),
{
    if ops.len() == 0 {
        0
    } else {
        receive_count(ops.drop_last()) + if ops.last() is Receive {
            1nat
        } else {
            0nat
        }
    }
}

proof fn lemma_receive_count_concat(a: Seq<SpiOp>, b: Seq<SpiOp>)
    ensures
        receive_count(a + b) == receive_count(a) + receive_count(b),
    decreases b.len(),
{
    if b.len() == 0 {
        assert(a + b =~= a);
    } else {
        lemma_receive_count_concat(a, b.drop_last());
        assert((a + b).drop_last() =~= a + b.drop_last());
    }
}

proof fn lemma_no_receives(s: Seq<SpiOp>)
    requires
        forall|i: int| 0 <= i < s.len() ==> !(s[i] is Receive),
    ensures
        receive_count(s) == 0,
    decreases s.len(),
{
    if s.len() > 0 {
        lemma_no_receives(s.drop_last());
    }
}

proof fn lemma_receive_ops_count(n: nat)
    ensures
        receive_count(receive_ops(n)) == n,
    decreases n,
{
    if n > 0 {
        lemma_receive_ops_count((n - 1) as nat);
        assert(receive_ops(n).drop_last() =~= receive_ops((n - 1) as nat));
    }
}

proof fn lemma_read_firmware_receive_count(addr: usize, size: nat)
    ensures
        receive_count(read_firmware_ops(addr, size)) == size,
{
    let head = seq![SpiOp::EnterCriticalSection, SpiOp::SetControl(read_control()), SpiOp::Send(FIRMWARE_READ)];
    let tail = seq![SpiOp::SetControl(SPI_DISABLE), SpiOp::LeaveCriticalSection];
    lemma_no_receives(head);
    lemma_no_receives(address_ops(addr));
    lemma_no_receives(tail);
    lemma_receive_ops_count(size);
    lemma_receive_count_concat(head, address_ops(addr));
    lemma_receive_count_concat(head + address_ops(addr), receive_ops(size));
    lemma_receive_count_concat(head + address_ops(addr) + receive_ops(size), tail);
}

/// Each script of a page write has as many receives as the bytes the next
/// step expects: `PAGE_SIZE` for the reads of the page, one for each poll of
/// the status register.
pub proof fn lemma_page_write_receive_counts(addr: usize, page: Seq<u8>)
    ensures
        receive_count(read_firmware_ops(addr, PAGE_SIZE as nat)) == PAGE_SIZE,
        receive_count(write_enable_ops()) == 1,
        receive_count(poll_status_ops()) == 1,
        receive_count(program_ops(addr, page)) == 1,
        receive_count(verify_ops(addr)) == PAGE_SIZE,
{
    lemma_read_firmware_receive_count(addr, PAGE_SIZE as nat);
    let one = seq![SpiOp::Receive];
    assert(one.drop_last() =~= Seq::<SpiOp>::empty());
    assert(receive_count(Seq::<SpiOp>::empty()) == 0);
    assert(one.last() is Receive);
    assert(receive_count(one) == 1);
    let we = write_enable_ops();
    lemma_no_receives(we.drop_last());
    assert(we =~= we.drop_last() + one);
    lemma_receive_count_concat(we.drop_last(), one);
    let pr = program_ops(addr, page);
    let head = seq![SpiOp::SetControl(SPI_DISABLE), SpiOp::SetControl(write_control()), SpiOp::Send(FIRMWARE_PW)];
    let tail = seq![SpiOp::SetControl(SPI_DISABLE), SpiOp::SetControl(write_control()), SpiOp::Send(FIRMWARE_RDSR)];
    lemma_no_receives(head);
    lemma_no_receives(address_ops(addr));
    lemma_no_receives(send_ops(page));
    lemma_no_receives(tail);
    lemma_receive_count_concat(head, address_ops(addr));
    lemma_receive_count_concat(head + address_ops(addr), send_ops(page));
    lemma_receive_count_concat(head + address_ops(addr) + send_ops(page), tail);
    assert(pr =~= (head + address_ops(addr) + send_ops(page) + tail) + one);
    lemma_receive_count_concat(head + address_ops(addr) + send_ops(page) + tail, one);
    let leave = seq![SpiOp::SetControl(SPI_DISABLE), SpiOp::LeaveCriticalSection];
    lemma_no_receives(leave);
    lemma_receive_count_concat(leave, read_firmware_ops(addr, PAGE_SIZE as nat));
}

/// Appends the three address bytes to `ops`.
fn spi_write_address(ops: &mut Vec<SpiOp>, addr: usize)
    ensures
        final(ops)@ == old(ops)@ + address_ops(addr),
{
    ops.push(SpiOp::Send(((addr >> 16) & 0xFF) as u8));
    ops.push(SpiOp::Send(((addr >> 8) & 0xFF) as u8));
    ops.push(SpiOp::Send((addr & 0xFF) as u8));
    assert(final(ops)@ =~= old(ops)@ + address_ops(addr));
}

/// Appends the operations that read `size` bytes from `addr` to `ops`.
fn append_read_firmware(ops: &mut Vec<SpiOp>, addr: usize, size: usize)
    ensures
        final(ops)@ == old(ops)@ + read_firmware_ops(addr, size as nat),
{
    let ghost start = ops@;
    ops.push(SpiOp::EnterCriticalSection);
    ops.push(SpiOp::SetControl(SPI_ENABLE | SPI_BYTE_MODE | SPI_CONTINUOUS | SPI_DEVICE_FIRMWARE));
    ops.push(SpiOp::Send(FIRMWARE_READ));
    spi_write_address(ops, addr);
    let ghost before_data = ops@;
    let mut i: usize = 0;
    while i < size
        invariant
            i <= size,
            ops@ == before_data + receive_ops(i as nat),
        decreases size - i,
    {
        ops.push(SpiOp::Receive);
        i = i + 1;
        assert(ops@ =~= before_data + receive_ops(i as nat));
    }
    ops.push(SpiOp::SetControl(SPI_DISABLE));
    ops.push(SpiOp::LeaveCriticalSection);
    assert(ops@ =~= start + read_firmware_ops(addr, size as nat));
}

/// The operations that read `size` bytes of the firmware from `addr`; the
/// bytes read are what the receives get, in order.
pub fn read_firmware(addr: usize, size: usize) -> (ops: Vec<SpiOp>)
    ensures
        ops@ == read_firmware_ops(addr, size as nat),
        receive_count(ops@) == size,
{
    proof {
        lemma_read_firmware_receive_count(addr, size as nat);
    }
    let mut ops = Vec::new();
    append_read_firmware(&mut ops, addr, size);
    assert(ops@ =~= read_firmware_ops(addr, size as nat));
    ops
}


/// The two pages agree on every byte that both hold.
pub open spec fn pages_match(a: Seq<u8>, b: Seq<u8>) -> bool {
    forall|i: int| 0 <= i < a.len() && i < b.len() ==> a[i] == b[i]
}

/// Two pages match exactly when their common prefixes, as long as the
/// shorter page, are equal; pages of the same length match exactly when they
/// are equal.
pub proof fn lemma_pages_match_is_prefix_equality(a: Seq<u8>, b: Seq<u8>)
    ensures
        ({
            let n = if a.len() < b.len() {
                a.len() as int
            } else {
                b.len() as int
            };
            pages_match(a, b) <==> a.subrange(0, n) == b.subrange(0, n)
        }),
        a.len() == b.len() ==> (pages_match(a, b) <==> a == b),
{
    let n = if a.len() < b.len() {
        a.len() as int
    } else {
        b.len() as int
    };
    if pages_match(a, b) {
        assert(a.subrange(0, n) =~= b.subrange(0, n));
    }
    if a.subrange(0, n) == b.subrange(0, n) {
        assert forall|i: int| 0 <= i < a.len() && i < b.len() implies a[i] == b[i] by {
            assert(a[i] == a.subrange(0, n)[i]);
            assert(b[i] == b.subrange(0, n)[i]);
        }
    }
    if a.len() == b.len() && pages_match(a, b) {
        assert(a =~= b);
    }
}

/// The operations that read from `addr` send, right after the READ command,
/// the address bytes from the most significant: `addr / 0x10000`, then
/// `addr / 0x100`, then `addr`, each modulo 256.
pub proof fn lemma_read_firmware_address_bytes(addr: usize, size: nat)
    ensures
        read_firmware_ops(addr, size)[2] == SpiOp::Send(FIRMWARE_READ),
        read_firmware_ops(addr, size)[3] == SpiOp::Send((addr / 0x10000 % 256) as u8),
        read_firmware_ops(addr, size)[4] == SpiOp::Send((addr / 0x100 % 256) as u8),
        read_firmware_ops(addr, size)[5] == SpiOp::Send((addr % 256) as u8),
{
    assert((addr >> 16usize) & 0xff == addr / 0x10000 % 256 && (addr >> 8usize) & 0xff == addr
        / 0x100 % 256 && addr & 0xff == addr % 256) by (bit_vector);
}

/// Whether the two pages agree on every byte that both hold.
pub fn compare_pages(a: &[u8], b: &[u8]) -> (r: bool)
    ensures
        r == pages_match(a@, b@),
{
    let n = if a.len() < b.len() {
        a.len()
    } else {
        b.len()
    };
    let mut i: usize = 0;
    while i < n
        invariant
            i <= n,
            n <= a@.len(),
            n <= b@.len(),
            n == a@.len() || n == b@.len(),
            forall|k: int| 0 <= k < i ==> a@[k] == b@[k],
        decreases n - i,
    {
        if a[i] != b[i] {
            return false;
        }
        i = i + 1;
    }
    true
}

/// Where a page write stands.
#[derive(Clone, Copy, Debug, PartialEq, Eq, Structural)]
pub enum PageWritePhase {
    /// The page has been read to see whether it needs writing.
    CheckBefore,
    /// The status register is polled until the write enable latch is set.
    AwaitWriteEnable,
    /// The status register is polled until programming is over.
    AwaitProgrammed,
    /// The page has been read back to check what was written.
    CheckAfter,
    /// The write is over.
    Finished,
}

/// What to do next in a page write.
pub enum PageWriteStep {
    /// Carry out these operations and report the bytes that their receives
    /// got.
    Run(Vec<SpiOp>),
    /// The write is over, with this result.
    Done(Result<(), ()>),
}

/// Setting the write enable latch: in a critical section, WREN, then RDSR
/// and the first read of the status register.
pub open spec fn write_enable_ops() -> Seq<SpiOp> {
    seq![
        SpiOp::EnterCriticalSection,
        SpiOp::SetControl(write_control()),
        SpiOp::Send(FIRMWARE_WREN),
        SpiOp::SetControl(SPI_DISABLE),
        SpiOp::SetControl(write_control()),
        SpiOp::Send(FIRMWARE_RDSR),
        SpiOp::Receive,
    ]
}

/// Reading the status register once more.
pub open spec fn poll_status_ops() -> Seq<SpiOp> {
    seq![SpiOp::Receive]
}

/// Programming `page` at `addr`: PW, the address and the bytes, then RDSR
/// and the first read of the status register.
pub open spec fn program_ops(addr: usize, page: Seq<u8>) -> Seq<SpiOp> {
    seq![SpiOp::SetControl(SPI_DISABLE), SpiOp::SetControl(write_control()), SpiOp::Send(FIRMWARE_PW)]
        + address_ops(addr) + send_ops(page) + seq![
        SpiOp::SetControl(SPI_DISABLE),
        SpiOp::SetControl(write_control()),
        SpiOp::Send(FIRMWARE_RDSR),
        SpiOp::Receive,
    ]
}

/// Ending the programming and its critical section, then reading the page
/// back.
pub open spec fn verify_ops(addr: usize) -> Seq<SpiOp> {
    seq![SpiOp::SetControl(SPI_DISABLE), SpiOp::LeaveCriticalSection] + read_firmware_ops(
        addr,
        PAGE_SIZE as nat,
    )
}

/// The write of one page of the firmware, as a machine that hands out SPI
/// operations and decides on the bytes they bring back.
pub struct PageWriter {
    addr: usize,
    page: Vec<u8>,
    phase: PageWritePhase,
}

impl View for PageWriter {
    /// The address, the bytes to write and the phase.
    type V = (usize, Seq<u8>, PageWritePhase);

    closed spec fn view(&self) -> (usize, Seq<u8>, PageWritePhase) {
        (self.addr, self.page@, self.phase)
    }
}

impl PageWriter {
    /// How many bytes the operations handed out last bring back.
    pub open spec fn expected_replies(&self) -> nat {
        if self@.2 == PageWritePhase::CheckBefore || self@.2 == PageWritePhase::CheckAfter {
            PAGE_SIZE as nat
        } else {
            1
        }
    }

    /// Starts writing `buffer` at `addr`: the page is read first.
    pub fn start(addr: usize, buffer: Vec<u8>) -> (r: (PageWriter, Vec<SpiOp>))
        requires
            buffer@.len() == PAGE_SIZE,
        ensures
            r.0@ == (addr, buffer@, PageWritePhase::CheckBefore),
            r.1@ == read_firmware_ops(addr, PAGE_SIZE as nat),
            receive_count(r.1@) == r.0.expected_replies(),
    {
        proof {
            lemma_page_write_receive_counts(addr, buffer@);
        }
        let ops = read_firmware(addr, PAGE_SIZE);
        (PageWriter { addr, page: buffer, phase: PageWritePhase::CheckBefore }, ops)
    }

    /// Takes the bytes that the last operations brought back and says what
    /// to do next. A page that already holds the bytes is not written; a
    /// written page is read back, and the write succeeds when it holds them.
    pub fn step(&mut self, received: &Vec<u8>) -> (r: PageWriteStep)
        requires
            old(self)@.2 != PageWritePhase::Finished,
            received@.len() == old(self).expected_replies(),
        ensures
            final(self)@.0 == old(self)@.0,
            final(self)@.1 == old(self)@.1,
            r matches PageWriteStep::Run(ops) ==> receive_count(ops@) == final(self).expected_replies(),
            ({
                let (addr, page, phase) = old(self)@;
                match phase {
                    PageWritePhase::CheckBefore => if pages_match(received@, page) {
                        &&& final(self)@.2 == PageWritePhase::Finished
                        &&& r matches PageWriteStep::Done(res) && res is Ok
                    } else {
                        &&& final(self)@.2 == PageWritePhase::AwaitWriteEnable
                        &&& r matches PageWriteStep::Run(ops) && ops@ == write_enable_ops()
                    },
                    PageWritePhase::AwaitWriteEnable => if received@[0].has_any(
                        SPI_WRITE_ENABLED,
                    ) {
                        &&& final(self)@.2 == PageWritePhase::AwaitProgrammed
                        &&& r matches PageWriteStep::Run(ops) && ops@ == program_ops(addr, page)
                    } else {
                        &&& final(self)@.2 == PageWritePhase::AwaitWriteEnable
                        &&& r matches PageWriteStep::Run(ops) && ops@ == poll_status_ops()
                    },
                    PageWritePhase::AwaitProgrammed => if received@[0].has_any(SPI_WORKING) {
                        &&& final(self)@.2 == PageWritePhase::AwaitProgrammed
                        &&& r matches PageWriteStep::Run(ops) && ops@ == poll_status_ops()
                    } else {
                        &&& final(self)@.2 == PageWritePhase::CheckAfter
                        &&& r matches PageWriteStep::Run(ops) && ops@ == verify_ops(addr)
                    },
                    _ => {
                        &&& final(self)@.2 == PageWritePhase::Finished
                        &&& r matches PageWriteStep::Done(res) && (res is Ok <==> pages_match(
                            received@,
                            page,
                        ))
                    },
                }
            }),
    {
        proof {
            lemma_page_write_receive_counts(self.addr, self.page@);
        }
        match self.phase {
            PageWritePhase::CheckBefore => {
                if compare_pages(received.as_slice(), self.page.as_slice()) {
                    self.phase = PageWritePhase::Finished;
                    PageWriteStep::Done(Ok(()))
                } else {
                    let mut ops = Vec::new();
                    ops.push(SpiOp::EnterCriticalSection);
                    ops.push(SpiOp::SetControl(SPI_ENABLE | SPI_CONTINUOUS | SPI_DEVICE_NVRAM));
                    ops.push(SpiOp::Send(FIRMWARE_WREN));
                    ops.push(SpiOp::SetControl(SPI_DISABLE));
                    ops.push(SpiOp::SetControl(SPI_ENABLE | SPI_CONTINUOUS | SPI_DEVICE_NVRAM));
                    ops.push(SpiOp::Send(FIRMWARE_RDSR));
                    ops.push(SpiOp::Receive);
                    assert(ops@ =~= write_enable_ops());
                    self.phase = PageWritePhase::AwaitWriteEnable;
                    PageWriteStep::Run(ops)
                }
            },
            PageWritePhase::AwaitWriteEnable => {
                if !received[0].check(SPI_WRITE_ENABLED) {
                    let mut ops = Vec::new();
                    ops.push(SpiOp::Receive);
                    assert(ops@ =~= poll_status_ops());
                    PageWriteStep::Run(ops)
                } else {
                    let ops = self.program();
                    self.phase = PageWritePhase::AwaitProgrammed;
                    PageWriteStep::Run(ops)
                }
            },
            PageWritePhase::AwaitProgrammed => {
                if received[0].check(SPI_WORKING) {
                    let mut ops = Vec::new();
                    ops.push(SpiOp::Receive);
                    assert(ops@ =~= poll_status_ops());
                    PageWriteStep::Run(ops)
                } else {
                    let mut ops = Vec::new();
                    ops.push(SpiOp::SetControl(SPI_DISABLE));
                    ops.push(SpiOp::LeaveCriticalSection);
                    append_read_firmware(&mut ops, self.addr, PAGE_SIZE);
                    assert(ops@ =~= verify_ops(self.addr));
                    self.phase = PageWritePhase::CheckAfter;
                    PageWriteStep::Run(ops)
                }
            },
            _ => {
                self.phase = PageWritePhase::Finished;
                if compare_pages(received.as_slice(), self.page.as_slice()) {
                    PageWriteStep::Done(Ok(()))
                } else {
                    PageWriteStep::Done(Err(()))
                }
            },
        }
    }

    /// The operations that program the page.
    fn program(&self) -> (ops: Vec<SpiOp>)
        ensures
            ops@ == program_ops(self.addr, self.page@),
    {
        let mut ops = Vec::new();
        ops.push(SpiOp::SetControl(SPI_DISABLE));
        ops.push(SpiOp::SetControl(SPI_ENABLE | SPI_CONTINUOUS | SPI_DEVICE_NVRAM));
        ops.push(SpiOp::Send(FIRMWARE_PW));
        spi_write_address(&mut ops, self.addr);
        let ghost before_data = ops@;
        let mut i: usize = 0;
        while i < self.page.len()
            invariant
                i <= self.page@.len(),
                ops@ == before_data + send_ops(self.page@.take(i as int)),
            decreases self.page@.len() - i,
        {
            ops.push(SpiOp::Send(self.page[i]));
            i = i + 1;
            assert(ops@ =~= before_data + send_ops(self.page@.take(i as int)));
        }
        assert(self.page@.take(i as int) =~= self.page@);
        ops.push(SpiOp::SetControl(SPI_DISABLE));
        ops.push(SpiOp::SetControl(SPI_ENABLE | SPI_CONTINUOUS | SPI_DEVICE_NVRAM));
        ops.push(SpiOp::Send(FIRMWARE_RDSR));
        ops.push(SpiOp::Receive);
        assert(ops@ =~= program_ops(self.addr, self.page@));
        ops
    }
}


/// Why a firmware write failed.
#[derive(Clone, Copy, Debug, PartialEq, Eq, Structural)]
pub enum FirmwareWriteError {
    /// The address or the size is not a multiple of the page size.
    Allignment,
    /// A page did not hold the bytes after it was written.
    PageWrite,
}

/// What to do next in a firmware write.
pub enum FirmwareWriteStep {
    /// Write these bytes as the page at `addr` (with a `PageWriter`) and
    /// report its result.
    WritePage { addr: usize, page: Vec<u8> },
    /// The write is over, with this result.
    Done(Result<(), FirmwareWriteError>),
}

/// The write of a whole multiple of pages to the firmware, last page first.
pub struct FirmwareWriter {
    addr: usize,
    source: Vec<u8>,
    remaining: usize,
    finished: bool,
}

impl View for FirmwareWriter {
    /// The address, the bytes to write, how many of them (from the start)
    /// are still to be written, and whether the write is over.
    type V = (usize, Seq<u8>, usize, bool);

    closed spec fn view(&self) -> (usize, Seq<u8>, usize, bool) {
        (self.addr, self.source@, self.remaining, self.finished)
    }
}

impl FirmwareWriter {
    #[verifier::type_invariant]
    spec fn aligned_within(self) -> bool {
        &&& self.addr % 256 == 0
        &&& self.remaining % 256 == 0
        &&& self.source@.len() % 256 == 0
        &&& self.remaining <= self.source@.len()
        &&& self.addr + self.source@.len() <= usize::MAX + 1
    }
}

/// Starts writing `source` to the firmware at `addr`: both the address and
/// the size must be multiples of the page size.
pub fn write_firmware(addr: usize, source: Vec<u8>) -> (r: Result<FirmwareWriter, FirmwareWriteError>)
    requires
        addr % 256 == 0 && source@.len() % 256 == 0 ==> addr + source@.len() <= usize::MAX + 1,
    ensures
        r is Err <==> (addr % 256 != 0 || source@.len() % 256 != 0),
        r matches Err(e) ==> e == FirmwareWriteError::Allignment,
        r matches Ok(w) ==> w@ == (addr, source@, source@.len() as usize, false),
{
    let size = source.len();
    assert(addr & 0xff == addr % 256 && size & 0xff == size % 256) by (bit_vector);
    if addr & 0xff != 0 || size & 0xff != 0 {
        return Err(FirmwareWriteError::Allignment);
    }
    Ok(FirmwareWriter { addr, source, remaining: size, finished: false })
}

/// The pages that a complete write of `source` at `addr` hands out, in
/// order, as (address, bytes): the last page of the source first, down to
/// the first.
pub open spec fn firmware_write_pages(addr: usize, source: Seq<u8>) -> Seq<(int, Seq<u8>)> {
    Seq::new(
        source.len() / 256,
        |k: int|
            {
                let start = source.len() - 256 * (k + 1);
                (addr + start, source.subrange(start, start + 256))
            },
    )
}

/// A complete write puts every byte of the source at its own address, in
/// exactly one of the pages it hands out.
pub proof fn lemma_firmware_write_covers_source(addr: usize, source: Seq<u8>, i: int)
    requires
        source.len() % 256 == 0,
        0 <= i < source.len(),
    ensures
        ({
            let pages = firmware_write_pages(addr, source);
            let k = (source.len() - 1 - i) / 256;
            &&& 0 <= k < pages.len()
            &&& pages[k].0 + i % 256 == addr + i
            &&& pages[k].1[i % 256] == source[i]
            &&& forall|j: int|
                0 <= j < pages.len() && j != k ==> !(#[trigger] pages[j].0 <= addr + i < pages[j].0 + 256)
        }),
{
    let len = source.len() as int;
    let k = (len - 1 - i) / 256;
    assert(0 <= k < len / 256 && len - 256 * (k + 1) + i % 256 == i && len - 256 * (k + 1) <= i
        < len - 256 * k) by (nonlinear_arith)
        requires
            len % 256 == 0,
            0 <= i < len,
            k == (len - 1 - i) / 256,
    ;
    let pages = firmware_write_pages(addr, source);
    assert forall|j: int| 0 <= j < pages.len() && j != k implies !(#[trigger] pages[j].0 <= addr
        + i < pages[j].0 + 256) by {
        assert(!(len - 256 * (j + 1) <= i < len - 256 * j)) by (nonlinear_arith)
            requires
                j != k,
                k == (len - 1 - i) / 256,
                0 <= i < len,
        ;
    }
}

impl FirmwareWriter {
    /// Takes the result of the page written last (`Ok` at the start) and
    /// says what to do next: the page below the ones written so far, or the
    /// end, which comes at the first page that fails.
    pub fn step(&mut self, previous: Result<(), ()>) -> (r: FirmwareWriteStep)
        requires
            !old(self)@.3,
        ensures
            ({
                let (addr, source, remaining, _) = old(self)@;
                &&& final(self)@.0 == addr
                &&& final(self)@.1 == source
                &&& if previous is Err {
                    &&& final(self)@.3
                    &&& r matches FirmwareWriteStep::Done(res) && res == Err::<(), _>(
                        FirmwareWriteError::PageWrite,
                    )
                } else if remaining == 0 {
                    &&& final(self)@.3
                    &&& r matches FirmwareWriteStep::Done(res) && res is Ok
                } else {
                    &&& !final(self)@.3
                    &&& final(self)@.2 == remaining - PAGE_SIZE
                    &&& r matches FirmwareWriteStep::WritePage { addr: page_addr, page } && (
                    page_addr as int, page@) == firmware_write_pages(addr, source)[(source.len()
                        - remaining) / 256]
                    &&& r matches FirmwareWriteStep::WritePage { addr: page_addr, page }
                        && page_addr == addr + final(self)@.2 && page@ == source.subrange(
                        final(self)@.2 as int,
                        remaining as int,
                    )
                }
            }),
    {
        proof {
            use_type_invariant(&*self);
        }
        if previous.is_err() {
            self.finished = true;
            return FirmwareWriteStep::Done(Err(FirmwareWriteError::PageWrite));
        }
        if self.remaining == 0 {
            self.finished = true;
            return FirmwareWriteStep::Done(Ok(()));
        }
        let size = self.remaining - PAGE_SIZE;
        let page = vstd::slice::slice_to_vec(
            vstd::slice::slice_subrange(self.source.as_slice(), size, size + PAGE_SIZE),
        );
        proof {
            let len = self.source@.len() as int;
            let rem = self.remaining as int;
            let k = (len - rem) / 256;
            assert(len - 256 * (k + 1) == rem - 256 && 0 <= k < len / 256) by (nonlinear_arith)
                requires
                    len % 256 == 0,
                    rem % 256 == 0,
                    0 < rem <= len,
                    k == (len - rem) / 256,
            ;
        }
        self.remaining = size;
        FirmwareWriteStep::WritePage { addr: self.addr + size, page }
    }
}

} // verus!
