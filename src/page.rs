//! The page cache: a window of cells read from the store, together with a
//! record of every call it made on the store.

use crate::cell::Cell;
use crate::matrix::MatrixData;
use vstd::prelude::*;

verus! {

/// One call made on the store.
pub enum StoreCall {
    /// `read_byte(address)`, answered with `value`.
    Read { address: u64, value: Option<u8> },
    /// `write(start, bytes)`.
    Write { start: u64, bytes: Seq<u8> },
}

/// The reads that fill `cells` from `start` on: address `start + i`,
/// answered with `cells[i]`, in order.
pub open spec fn fresh_reads(start: u64, cells: Seq<Option<u8>>) -> Seq<StoreCall> {
    Seq::new(cells.len(), |i: int| StoreCall::Read { address: (start + i) as u64, value: cells[i] })
}

/// Asks `data` for the `n` bytes from `start` on, one read per address.
fn read_cells<T: MatrixData>(
    data: &mut T,
    start: u64,
    n: usize,
    log: &mut Ghost<Seq<StoreCall>>,
) -> (cells: Vec<Option<u8>>)
    requires
        start + n <= u64::MAX + 1,
    ensures
        cells@.len() == n,
        final(log)@ == old(log)@ + fresh_reads(start, cells@),
{
    let mut cells: Vec<Option<u8>> = Vec::new();
    let mut i: usize = 0;
    proof {
        assert(old(log)@ + fresh_reads(start, cells@) =~= old(log)@);
    }
    while i < n
        invariant
            i <= n,
            start + n <= u64::MAX + 1,
            cells@.len() == i,
            log@ == old(log)@ + fresh_reads(start, cells@),
        decreases n - i,
    {
        let address = start + i as u64;
        let v = data.read_byte(address);
        let ghost before = cells@;
        *log = Ghost(log@.push(StoreCall::Read { address, value: v }));
        cells.push(v);
        i = i + 1;
        assert(fresh_reads(start, cells@) =~= fresh_reads(start, before).push(
            StoreCall::Read { address, value: v },
        ));
        assert(log@ =~= old(log)@ + fresh_reads(start, cells@));
    }
    cells
}

/// A page-aligned window of cells, valid for the addresses from `start` on
/// as of its last refresh, and the record of every call it made on the store.
pub struct Page {
    start: u64,
    cells: Vec<Option<u8>>,
    log: Ghost<Seq<StoreCall>>,
}

impl Page {
    /// The first address the page covers.
    pub closed spec fn start(&self) -> u64 {
        self.start
    }

    /// The cells, as the store answered them.
    pub closed spec fn cells(&self) -> Seq<Option<u8>> {
        self.cells@
    }

    /// Every call the page has made on the store, oldest first.
    pub closed spec fn log(&self) -> Seq<StoreCall> {
        self.log@
    }

    /// A page of `size` cells read from `data` from `start` on.
    pub fn new<T: MatrixData>(data: &mut T, start: u64, size: usize) -> (r: Page)
        requires
            start + size <= u64::MAX + 1,
        ensures
            r.start() == start,
            r.cells().len() == size,
            r.log() == fresh_reads(start, r.cells()),
    {
        let mut log: Ghost<Seq<StoreCall>> = Ghost(Seq::empty());
        let cells = read_cells(data, start, size, &mut log);
        assert(log@ =~= fresh_reads(start, cells@));
        Page { start, cells, log }
    }

    /// Re-reads every cell from `data`, now from `start` on.
    pub fn refresh<T: MatrixData>(&mut self, data: &mut T, start: u64)
        requires
            start + old(self).cells().len() <= u64::MAX + 1,
        ensures
            final(self).start() == start,
            final(self).cells().len() == old(self).cells().len(),
            final(self).log() == old(self).log() + fresh_reads(start, final(self).cells()),
    {
        let n = self.cells.len();
        let cells = read_cells(data, start, n, &mut self.log);
        self.cells = cells;
        self.start = start;
    }

    /// Hands `bytes` to `data` from `address` on, recording the call; the
    /// cells stay as they were. Whether the store took the bytes.
    pub fn write_through<T: MatrixData>(&mut self, data: &mut T, address: u64, bytes: Vec<u8>) -> (r:
        bool)
        ensures
            final(self).start() == old(self).start(),
            final(self).cells() == old(self).cells(),
            final(self).log() == old(self).log().push(
                StoreCall::Write { start: address, bytes: bytes@ },
            ),
    {
        let ghost written = bytes@;
        let r = data.write(address, bytes);
        self.log = Ghost(self.log@.push(StoreCall::Write { start: address, bytes: written }));
        r
    }

    /// The cell at `index` within the page, if the page has one there.
    pub fn cell_at(&self, index: usize) -> (r: Option<Cell>)
        ensures
            index < self.cells().len() ==> r == Some(Cell { inner: self.cells()[index as int] }),
            index >= self.cells().len() ==> r is None,
    {
        if index < self.cells.len() {
            Some(Cell { inner: self.cells[index] })
        } else {
            None
        }
    }
}

} // verus!
