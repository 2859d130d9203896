//! The navigation and editing engine: a cursor over a paged window of the
//! store, at a chosen cell granularity, driven by key presses.

use crate::cell::{cell_ascii, cell_hex, cell_hex_lower, Cell};
use crate::literal::{jump_target, parse_jump, parse_write, write_bytes};
use crate::page::{fresh_reads, Page, StoreCall};
use vstd::prelude::*;
use vstd::string::*;

verus! {

/// Cells in one line of the page.
pub const LINE_SIZE: u16 = 16;

/// Lines in one page.
pub const LINE_COUNT: u16 = 16;

/// Cells in one page.
pub const PAGE_SIZE: u64 = 256;

/// A linear space of bytes that a matrix browses and edits.
pub trait MatrixData {
    /// The byte at `address`, or `None` when the store cannot read it.
    fn read_byte(&mut self, address: u64) -> Option<u8>;

    /// Stores `bytes` from `address` on; whether the store took them.
    fn write(&mut self, address: u64, bytes: Vec<u8>) -> bool;
}

/// What key presses do: move the cursor, or type a jump expression or a
/// write literal.
#[derive(Clone, Copy, Debug, PartialEq, Eq)]
pub enum OpMode {
    Normal,
    Jump,
    Write,
}

/// The granularity of the cursor.
#[derive(Clone, Copy, Debug, PartialEq, Eq)]
pub enum DataType {
    Byte,
    Word,
    DoubleWord,
    QuadWord,
    DoubleQuadWord,
}

/// The byte width of a cell of type `t`.
pub open spec fn width(t: DataType) -> u64 {
    match t {
        DataType::Byte => 1,
        DataType::Word => 2,
        DataType::DoubleWord => 4,
        DataType::QuadWord => 8,
        DataType::DoubleQuadWord => 16,
    }
}

/// The byte width of a cell of type `cell_type`.
pub fn data_size(cell_type: &DataType) -> (r: u64)
    ensures
        r == width(*cell_type),
{
    match cell_type {
        DataType::Byte => 1,
        DataType::Word => 2,
        DataType::DoubleWord => 4,
        DataType::QuadWord => 8,
        DataType::DoubleQuadWord => 16,
    }
}

/// A key press, as the engine distinguishes them.
#[derive(Clone, Copy, Debug, PartialEq, Eq)]
pub enum Key {
    Char(char),
    Left,
    Right,
    Up,
    Down,
    PageUp,
    PageDown,
    Backspace,
    Enter,
    Esc,
    Other,
}

/// What a key press does in normal mode.
#[derive(Clone, Copy, Debug, PartialEq, Eq)]
pub enum Action {
    Quit,
    PrevCell,
    NextCell,
    PrevLine,
    NextLine,
    PrevPage,
    NextPage,
    SetCellType(DataType),
    StartJump,
    StartWrite,
    Ignore,
}

/// The key bindings of normal mode.
pub open spec fn normal_action(key: Key) -> Action {
    match key {
        Key::Char(c) => if c == 'q' {
            Action::Quit
        } else if c == 'h' {
            Action::PrevCell
        } else if c == 'l' {
            Action::NextCell
        } else if c == 'k' {
            Action::PrevLine
        } else if c == 'j' {
            Action::NextLine
        } else if c == 'p' {
            Action::PrevPage
        } else if c == 'n' {
            Action::NextPage
        } else if c == 'B' {
            Action::SetCellType(DataType::Byte)
        } else if c == 'W' {
            Action::SetCellType(DataType::Word)
        } else if c == 'D' {
            Action::SetCellType(DataType::DoubleWord)
        } else if c == 'Q' {
            Action::SetCellType(DataType::QuadWord)
        } else if c == 'J' {
            Action::StartJump
        } else if c == 'e' {
            Action::StartWrite
        } else {
            Action::Ignore
        },
        Key::Left => Action::PrevCell,
        Key::Right => Action::NextCell,
        Key::Up => Action::PrevLine,
        Key::Down => Action::NextLine,
        Key::PageUp => Action::PrevPage,
        Key::PageDown => Action::NextPage,
        _ => Action::Ignore,
    }
}

/// What `key` does in normal mode.
pub fn action_of(key: Key) -> (a: Action)
    ensures
        a == normal_action(key),
{
    match key {
        Key::Char(c) => if c == 'q' {
            Action::Quit
        } else if c == 'h' {
            Action::PrevCell
        } else if c == 'l' {
            Action::NextCell
        } else if c == 'k' {
            Action::PrevLine
        } else if c == 'j' {
            Action::NextLine
        } else if c == 'p' {
            Action::PrevPage
        } else if c == 'n' {
            Action::NextPage
        } else if c == 'B' {
            Action::SetCellType(DataType::Byte)
        } else if c == 'W' {
            Action::SetCellType(DataType::Word)
        } else if c == 'D' {
            Action::SetCellType(DataType::DoubleWord)
        } else if c == 'Q' {
            Action::SetCellType(DataType::QuadWord)
        } else if c == 'J' {
            Action::StartJump
        } else if c == 'e' {
            Action::StartWrite
        } else {
            Action::Ignore
        },
        Key::Left => Action::PrevCell,
        Key::Right => Action::NextCell,
        Key::Up => Action::PrevLine,
        Key::Down => Action::NextLine,
        Key::PageUp => Action::PrevPage,
        Key::PageDown => Action::NextPage,
        _ => Action::Ignore,
    }
}

/// The first address of the page that holds `offset`.
pub open spec fn page_start_of(offset: u64) -> u64 {
    (offset - offset % PAGE_SIZE) as u64
}

/// `offset` moved forward by `d`, or left where it is when that would leave
/// the 64-bit address space.
pub open spec fn forward(offset: u64, d: u64) -> u64 {
    if offset + d <= u64::MAX {
        (offset + d) as u64
    } else {
        offset
    }
}

/// `offset` moved back by `d`, or left where it is when that would go below
/// address 0.
pub open spec fn backward(offset: u64, d: u64) -> u64 {
    if offset >= d {
        (offset - d) as u64
    } else {
        offset
    }
}

/// `offset` truncated to a multiple of `w`.
pub open spec fn align_down(offset: u64, w: u64) -> u64 {
    (offset - offset % w) as u64
}

/// The cell at `i` of a page, unknown past its ends.
pub open spec fn cell_or_unknown(cells: Seq<Option<u8>>, i: int) -> Option<u8> {
    if 0 <= i < cells.len() {
        cells[i]
    } else {
        None
    }
}

/// The hexadecimal text of the `w` bytes of a page from `index` on, most
/// significant (highest address) first.
pub open spec fn group_text(cells: Seq<Option<u8>>, index: int, w: nat) -> Seq<char>
    decreases w,
{
    if w == 0 {
        Seq::empty()
    } else {
        cell_hex(cell_or_unknown(cells, index + w - 1)) + group_text(cells, index, (w - 1) as nat)
    }
}

/// The state of a matrix, as contracts see it.
pub struct MatrixView {
    pub name: Seq<char>,
    pub offset: u64,
    pub cell_type: DataType,
    pub op_mode: OpMode,
    pub input: Seq<char>,
    /// The first address of the cached page.
    pub page_start: u64,
    /// The cached page.
    pub cells: Seq<Option<u8>>,
    /// Every call made on the store, reads with their answers and writes,
    /// oldest first.
    pub calls: Seq<StoreCall>,
}

impl MatrixView {
    /// The cached page is the one that holds the cursor, and each cached
    /// cell is the store's latest answer for its address.
    pub open spec fn consistent(self) -> bool {
        &&& self.page_start == page_start_of(self.offset)
        &&& self.cells.len() == PAGE_SIZE
        &&& self.calls.len() >= PAGE_SIZE
        &&& self.calls.subrange(self.calls.len() - PAGE_SIZE, self.calls.len() as int)
            == fresh_reads(self.page_start, self.cells)
    }

    /// `post` holds the cursor at `target` and otherwise the state of
    /// `self`, but for the page: that is re-read, all of it, exactly when
    /// `target` lies outside the cached page.
    pub open spec fn moved_to(self, post: MatrixView, target: u64) -> bool {
        &&& post.offset == target
        &&& post.name == self.name
        &&& post.cell_type == self.cell_type
        &&& post.op_mode == self.op_mode
        &&& post.input == self.input
        &&& post.page_start == page_start_of(target)
        &&& if post.page_start == self.page_start {
            post.cells == self.cells && post.calls == self.calls
        } else {
            post.calls == self.calls + fresh_reads(post.page_start, post.cells)
        }
    }

    /// `post` is `self` with the page re-read at `post.page_start`.
    pub open spec fn reloaded(self, post: MatrixView) -> bool {
        post.calls == self.calls + fresh_reads(post.page_start, post.cells)
    }

    /// `self` with the input line set to `input` and the mode to `mode`.
    pub open spec fn with_input(self, mode: OpMode, input: Seq<char>) -> MatrixView {
        MatrixView { op_mode: mode, input: input, ..self }
    }

    /// `post` has the cursor at `target`, the page that holds it freshly
    /// read, normal mode and an empty input line.
    pub open spec fn jumped_to(self, post: MatrixView, target: u64) -> bool {
        &&& post == MatrixView {
            offset: target,
            page_start: page_start_of(target),
            cells: post.cells,
            calls: post.calls,
            op_mode: OpMode::Normal,
            input: Seq::empty(),
            ..self
        }
        &&& self.reloaded(post)
    }

    /// What submitting the input line as a jump expression leads to: the
    /// jump, or, when the expression names no address, only an empty input
    /// line.
    pub open spec fn submitted_jump(self, post: MatrixView) -> bool {
        match jump_target(self.input, self.offset) {
            Some(target) => self.jumped_to(post, target),
            None => post == self.with_input(self.op_mode, Seq::empty()),
        }
    }

    /// `post` has handed `bytes` to the store at the cursor, then re-read the
    /// page, and returned to normal mode with an empty input line.
    pub open spec fn wrote(self, post: MatrixView, bytes: Seq<u8>) -> bool {
        &&& post == MatrixView {
            cells: post.cells,
            calls: post.calls,
            op_mode: OpMode::Normal,
            input: Seq::empty(),
            ..self
        }
        &&& post.calls == self.calls.push(StoreCall::Write { start: self.offset, bytes: bytes })
            + fresh_reads(self.page_start, post.cells)
    }

    /// What submitting the input line as a write literal leads to: the
    /// write, or, when the literal is malformed, only an empty input line.
    pub open spec fn submitted_write(self, post: MatrixView) -> bool {
        match write_bytes(self.input) {
            Some(bytes) => self.wrote(post, bytes),
            None => post == self.with_input(self.op_mode, Seq::empty()),
        }
    }

    /// What the key press `key` leads to from `self`.
    pub open spec fn key_effect(self, post: MatrixView, key: Key) -> bool {
        match self.op_mode {
            OpMode::Normal => match normal_action(key) {
                Action::Quit => post == self,
                Action::PrevCell => self.moved_to(post, backward(self.offset, width(self.cell_type))),
                Action::NextCell => self.moved_to(post, forward(self.offset, width(self.cell_type))),
                Action::PrevLine => self.moved_to(post, backward(self.offset, LINE_SIZE as u64)),
                Action::NextLine => self.moved_to(post, forward(self.offset, LINE_SIZE as u64)),
                Action::PrevPage => self.moved_to(post, backward(self.offset, PAGE_SIZE)),
                Action::NextPage => self.moved_to(post, forward(self.offset, PAGE_SIZE)),
                Action::SetCellType(t) => post == MatrixView {
                    cell_type: t,
                    offset: align_down(self.offset, width(t)),
                    ..self
                },
                Action::StartJump => post == self.with_input(OpMode::Jump, Seq::empty()),
                Action::StartWrite => post == self.with_input(OpMode::Write, Seq::empty()),
                Action::Ignore => post == self,
            },
            _ => match key {
                Key::Char(c) => post == self.with_input(self.op_mode, self.input.push(c)),
                Key::Backspace => post == self.with_input(
                    self.op_mode,
                    if self.input.len() > 0 {
                        self.input.drop_last()
                    } else {
                        self.input
                    },
                ),
                Key::Esc => post == self.with_input(OpMode::Normal, Seq::empty()),
                Key::Enter => if self.op_mode == OpMode::Jump {
                    self.submitted_jump(post)
                } else {
                    self.submitted_write(post)
                },
                _ => post == self,
            },
        }
    }
}

/// A paged window over the store `T` with a cursor.
pub struct Matrix<T> {
    name: String,
    col_size: u16,
    row_size: u16,
    offset: u64,
    data: T,
    page: Page,
    op_mode: OpMode,
    cell_type: DataType,
    input: Vec<char>,
}

impl<T> View for Matrix<T> {
    type V = MatrixView;

    closed spec fn view(&self) -> MatrixView {
        MatrixView {
            name: self.name@,
            offset: self.offset,
            cell_type: self.cell_type,
            op_mode: self.op_mode,
            input: self.input@,
            page_start: self.page.start(),
            cells: self.page.cells(),
            calls: self.page.log(),
        }
    }
}

proof fn lemma_aligned_shift(o: int, d: int, t: DataType)
    requires
        o % width(t) as int == 0,
        d % 16 == 0 || d == width(t),
    ensures
        (o + d) % width(t) as int == 0,
        (o - d) % width(t) as int == 0,
{
}

proof fn lemma_page_fits(o: u64)
    ensures
        page_start_of(o) + PAGE_SIZE <= u64::MAX + 1,
        page_start_of(o) % PAGE_SIZE == 0,
        o % PAGE_SIZE <= o,
{
    assert(o % 256 <= o) by (bit_vector);
    assert(o - o % 256 <= 0xffff_ffff_ffff_ff00u64) by (bit_vector);
    assert((o - o % 256) % 256 == 0) by (bit_vector);
}

proof fn lemma_align_keeps_page(o: u64, t: DataType)
    ensures
        page_start_of(align_down(o, width(t))) == page_start_of(o),
        align_down(o, width(t)) % width(t) == 0,
        o % width(t) <= o,
{
    match t {
        DataType::Byte => {
            assert((o - o % 1) - (o - o % 1) % 256 == o - o % 256) by (bit_vector);
            assert(o % 1 <= o) by (bit_vector);
        },
        DataType::Word => {
            assert((o - o % 2) - (o - o % 2) % 256 == o - o % 256) by (bit_vector);
            assert(o % 2 <= o) by (bit_vector);
            assert((o - o % 2) % 2 == 0) by (bit_vector);
        },
        DataType::DoubleWord => {
            assert((o - o % 4) - (o - o % 4) % 256 == o - o % 256) by (bit_vector);
            assert(o % 4 <= o) by (bit_vector);
            assert((o - o % 4) % 4 == 0) by (bit_vector);
        },
        DataType::QuadWord => {
            assert((o - o % 8) - (o - o % 8) % 256 == o - o % 256) by (bit_vector);
            assert(o % 8 <= o) by (bit_vector);
            assert((o - o % 8) % 8 == 0) by (bit_vector);
        },
        DataType::DoubleQuadWord => {
            assert((o - o % 16) - (o - o % 16) % 256 == o - o % 256) by (bit_vector);
            assert(o % 16 <= o) by (bit_vector);
            assert((o - o % 16) % 16 == 0) by (bit_vector);
        },
    }
}

proof fn lemma_calls_tail(
    a: Seq<StoreCall>,
    start: u64,
    cells: Seq<Option<u8>>,
)
    requires
        cells.len() == PAGE_SIZE,
    ensures
        (a + fresh_reads(start, cells)).subrange(a.len() as int, a.len() + PAGE_SIZE)
            == fresh_reads(start, cells),
{
    assert((a + fresh_reads(start, cells)).subrange(a.len() as int, a.len() + PAGE_SIZE)
        =~= fresh_reads(start, cells));
}

impl<T: MatrixData> Matrix<T> {
    /// The matrix is laid out as lines of cells, its view is consistent,
    /// and its page has the page's size.
    pub closed spec fn wf(&self) -> bool {
        &&& self.col_size == LINE_SIZE
        &&& self.row_size == LINE_COUNT
        &&& self@.consistent()
    }

    /// A cell whose address the store could not read at the page's latest
    /// refresh shows as unknown in every rendering, never as a byte value.
    pub proof fn lemma_unreadable_shows_unknown(&self, index: int)
        requires
            self.wf(),
            0 <= index < PAGE_SIZE,
            self@.calls[self@.calls.len() - PAGE_SIZE + index] is Read,
            self@.calls[self@.calls.len() - PAGE_SIZE + index]->value is None,
        ensures
            self@.calls[self@.calls.len() - PAGE_SIZE + index]->address == self@.page_start + index,
            self@.cells[index] is None,
            cell_hex(self@.cells[index]) == seq!['X', 'X'],
            cell_hex_lower(self@.cells[index]) == seq!['x', 'x'],
            cell_ascii(self@.cells[index]) == seq!['.'],
    {
        let v = self@;
        assert(v.calls.subrange(v.calls.len() - PAGE_SIZE, v.calls.len() as int)[index]
            == v.calls[v.calls.len() - PAGE_SIZE + index]);
    }

    /// A well-formed matrix has a consistent view.
    pub proof fn lemma_wf_consistent(&self)
        requires
            self.wf(),
        ensures
            self@.consistent(),
    {
    }

    /// A matrix named `name` over `data`, with the cursor at address 0, at
    /// byte granularity, in normal mode, and the first page read.
    pub fn new(name: &str, data: T) -> (r: Self)
        ensures
            r.wf(),
            r@.name == name@,
            r@.offset == 0,
            r@.cell_type == DataType::Byte,
            r@.op_mode == OpMode::Normal,
            r@.input.len() == 0,
            r@.page_start == 0,
            r@.calls == fresh_reads(0, r@.cells),
    {
        let mut data = data;
        let page = Page::new(&mut data, 0, PAGE_SIZE as usize);
        let r = Matrix {
            name: String::from_str(name),
            col_size: LINE_SIZE,
            row_size: LINE_COUNT,
            offset: 0,
            data,
            page,
            op_mode: OpMode::Normal,
            cell_type: DataType::Byte,
            input: Vec::new(),
        };
        proof {
            assert(r@.calls.subrange(0, PAGE_SIZE as int) =~= r@.calls);
        }
        r
    }

    /// The number of cells in a page.
    pub fn page_size(&self) -> (r: u64)
        requires
            self.wf(),
        ensures
            r == PAGE_SIZE,
    {
        let cols = self.col_size as u64;
        let rows = self.row_size as u64;
        assert(cols * rows == 256) by (nonlinear_arith)
            requires
                cols == 16,
                rows == 16,
        ;
        cols * rows
    }

    /// The cursor's position within the page.
    pub fn page_offset(&self) -> (r: u64)
        requires
            self.wf(),
        ensures
            r == self@.offset % PAGE_SIZE,
    {
        self.offset % self.page_size()
    }

    /// The first address of the page that holds the cursor.
    pub fn page_start(&self) -> (r: u64)
        requires
            self.wf(),
        ensures
            r == page_start_of(self@.offset),
            r == self@.page_start,
    {
        self.offset - self.page_offset()
    }

    /// Puts the cursor at `target`, re-reading the page when `target` lies
    /// outside it.
    fn move_to(&mut self, target: u64)
        requires
            old(self).wf(),
        ensures
            final(self).wf(),
            old(self)@.moved_to(final(self)@, target),
    {
        let new_start = target - target % PAGE_SIZE;
        let old_start = self.page_start();
        proof {
            lemma_page_fits(target);
        }
        self.offset = target;
        if new_start != old_start {
            self.page.refresh(&mut self.data, new_start);
            proof {
                lemma_calls_tail(old(self)@.calls, new_start, self@.cells);
            }
        }
    }

    /// Moves the cursor one cell forward.
    pub fn next_cell(&mut self)
        requires
            old(self).wf(),
        ensures
            final(self).wf(),
            old(self)@.moved_to(final(self)@, forward(old(self)@.offset, width(old(self)@.cell_type))),
            old(self)@.offset % width(old(self)@.cell_type) == 0 ==> final(self)@.offset % width(
                final(self)@.cell_type,
            ) == 0,
    {
        let stride = data_size(&self.cell_type);
        if self.offset <= u64::MAX - stride {
            proof {
                if self.offset % width(self.cell_type) == 0 {
                    lemma_aligned_shift(self.offset as int, stride as int, self.cell_type);
                }
            }
            self.move_to(self.offset + stride);
        }
    }

    /// Moves the cursor one cell back; a no-op below address 0.
    pub fn prev_cell(&mut self)
        requires
            old(self).wf(),
        ensures
            final(self).wf(),
            old(self)@.moved_to(final(self)@, backward(old(self)@.offset, width(old(self)@.cell_type))),
            old(self)@.offset < width(old(self)@.cell_type) ==> final(self)@ == old(self)@,
            old(self)@.offset % width(old(self)@.cell_type) == 0 ==> final(self)@.offset % width(
                final(self)@.cell_type,
            ) == 0,
    {
        let stride = data_size(&self.cell_type);
        if self.offset >= stride {
            proof {
                if self.offset % width(self.cell_type) == 0 {
                    lemma_aligned_shift(self.offset as int, stride as int, self.cell_type);
                }
            }
            self.move_to(self.offset - stride);
        }
    }

    /// Moves the cursor one line forward.
    pub fn next_line(&mut self)
        requires
            old(self).wf(),
        ensures
            final(self).wf(),
            old(self)@.moved_to(final(self)@, forward(old(self)@.offset, LINE_SIZE as u64)),
            old(self)@.offset % width(old(self)@.cell_type) == 0 ==> final(self)@.offset % width(
                final(self)@.cell_type,
            ) == 0,
    {
        let line = self.col_size as u64;
        if self.offset <= u64::MAX - line {
            proof {
                if self.offset % width(self.cell_type) == 0 {
                    lemma_aligned_shift(self.offset as int, line as int, self.cell_type);
                }
            }
            self.move_to(self.offset + line);
        }
    }

    /// Moves the cursor one line back; a no-op below address 0.
    pub fn prev_line(&mut self)
        requires
            old(self).wf(),
        ensures
            final(self).wf(),
            old(self)@.moved_to(final(self)@, backward(old(self)@.offset, LINE_SIZE as u64)),
            old(self)@.offset < LINE_SIZE as u64 ==> final(self)@ == old(self)@,
            old(self)@.offset % width(old(self)@.cell_type) == 0 ==> final(self)@.offset % width(
                final(self)@.cell_type,
            ) == 0,
    {
        let line = self.col_size as u64;
        if self.offset >= line {
            proof {
                if self.offset % width(self.cell_type) == 0 {
                    lemma_aligned_shift(self.offset as int, line as int, self.cell_type);
                }
            }
            self.move_to(self.offset - line);
        }
    }

    /// Moves the cursor one page forward.
    pub fn next_page(&mut self)
        requires
            old(self).wf(),
        ensures
            final(self).wf(),
            old(self)@.moved_to(final(self)@, forward(old(self)@.offset, PAGE_SIZE)),
            old(self)@.offset % width(old(self)@.cell_type) == 0 ==> final(self)@.offset % width(
                final(self)@.cell_type,
            ) == 0,
    {
        let size = self.page_size();
        if self.offset <= u64::MAX - size {
            proof {
                if self.offset % width(self.cell_type) == 0 {
                    lemma_aligned_shift(self.offset as int, size as int, self.cell_type);
                }
            }
            self.move_to(self.offset + size);
        }
    }

    /// Moves the cursor one page back; a no-op below address 0.
    pub fn prev_page(&mut self)
        requires
            old(self).wf(),
        ensures
            final(self).wf(),
            old(self)@.moved_to(final(self)@, backward(old(self)@.offset, PAGE_SIZE)),
            old(self)@.offset < PAGE_SIZE ==> final(self)@ == old(self)@,
            old(self)@.offset % width(old(self)@.cell_type) == 0 ==> final(self)@.offset % width(
                final(self)@.cell_type,
            ) == 0,
    {
        let size = self.page_size();
        if self.offset >= size {
            proof {
                if self.offset % width(self.cell_type) == 0 {
                    lemma_aligned_shift(self.offset as int, size as int, self.cell_type);
                }
            }
            self.move_to(self.offset - size);
        }
    }

    /// Sets the granularity, truncating the cursor to a multiple of the new
    /// cell width; the cursor stays within its page.
    pub fn set_cell_type(&mut self, cell_type: DataType)
        requires
            old(self).wf(),
        ensures
            final(self).wf(),
            final(self)@ == (MatrixView {
                cell_type: cell_type,
                offset: align_down(old(self)@.offset, width(cell_type)),
                ..old(self)@
            }),
            final(self)@.offset % width(cell_type) == 0,
    {
        proof {
            lemma_align_keeps_page(self.offset, cell_type);
        }
        self.cell_type = cell_type;
        self.offset = self.offset - self.offset % data_size(&self.cell_type);
    }

    /// Submits the input line as a jump expression. On success the cursor
    /// goes to the address it names, the page that holds it is re-read and the mode returns to normal; on failure the mode stays.
    /// Either way the input line is cleared.
    pub fn jump(&mut self)
        requires
            old(self).wf(),
        ensures
            final(self).wf(),
            old(self)@.submitted_jump(final(self)@),
    {
        match parse_jump(self.input.as_slice(), self.offset) {
            Some(target) => {
                proof {
                    lemma_page_fits(target);
                }
                self.offset = target;
                self.page.refresh(&mut self.data, target - target % PAGE_SIZE);
                proof {
                    lemma_calls_tail(old(self)@.calls, self@.page_start, self@.cells);
                }
                self.op_mode = OpMode::Normal;
            },
            None => {},
        }
        self.input.clear();
        assert(self@.input =~= Seq::<char>::empty());
    }

    /// Submits the input line as a write literal. On success its bytes go to
    /// the store at the cursor, the page is re-read whatever the store
    /// reports, and the mode returns to normal; on failure the mode stays.
    /// Either way the input line is cleared.
    pub fn write(&mut self)
        requires
            old(self).wf(),
        ensures
            final(self).wf(),
            old(self)@.submitted_write(final(self)@),
    {
        match parse_write(self.input.as_slice()) {
            Some(bytes) => {
                let ghost written = bytes@;
                let start = self.page_start();
                let _ = self.page.write_through(&mut self.data, self.offset, bytes);
                proof {
                    lemma_page_fits(self.offset);
                }
                self.page.refresh(&mut self.data, start);
                proof {
                    lemma_calls_tail(
                        old(self)@.calls.push(StoreCall::Write { start: old(self)@.offset, bytes: written }),
                        start,
                        self@.cells,
                    );
                }
                self.op_mode = OpMode::Normal;
            },
            None => {},
        }
        self.input.clear();
        assert(self@.input =~= Seq::<char>::empty());
    }

    /// Enters `mode` with an empty input line.
    fn start_input(&mut self, mode: OpMode)
        requires
            old(self).wf(),
        ensures
            final(self).wf(),
            final(self)@ == old(self)@.with_input(mode, Seq::empty()),
    {
        self.input.clear();
        self.op_mode = mode;
        assert(self@.input =~= Seq::<char>::empty());
        assert(self@ =~= old(self)@.with_input(mode, Seq::empty()));
    }

    /// Handles one key press; `false` when the key asks to quit.
    ///
    /// In normal mode keys move the cursor, change the granularity, or open
    /// the jump or write prompt. At a prompt, characters are typed into the
    /// input line, backspace removes the last one, escape discards the line
    /// and returns to normal mode, and enter submits it.
    pub fn handle_key(&mut self, key: Key) -> (running: bool)
        requires
            old(self).wf(),
        ensures
            final(self).wf(),
            running == !(old(self)@.op_mode == OpMode::Normal && normal_action(key) == Action::Quit),
            old(self)@.key_effect(final(self)@, key),
    {
        match self.op_mode {
            OpMode::Normal => {
                match action_of(key) {
                    Action::Quit => {
                        return false;
                    },
                    Action::PrevCell => self.prev_cell(),
                    Action::NextCell => self.next_cell(),
                    Action::PrevLine => self.prev_line(),
                    Action::NextLine => self.next_line(),
                    Action::PrevPage => self.prev_page(),
                    Action::NextPage => self.next_page(),
                    Action::SetCellType(t) => self.set_cell_type(t),
                    Action::StartJump => self.start_input(OpMode::Jump),
                    Action::StartWrite => self.start_input(OpMode::Write),
                    Action::Ignore => {},
                }
            },
            _ => {
                match key {
                    Key::Char(c) => {
                        self.input.push(c);
                    },
                    Key::Backspace => {
                        let _ = self.input.pop();
                    },
                    Key::Esc => self.start_input(OpMode::Normal),
                    Key::Enter => {
                        match self.op_mode {
                            OpMode::Jump => self.jump(),
                            _ => self.write(),
                        }
                    },
                    _ => {},
                }
            },
        }
        true
    }

    /// The name shown above the matrix.
    pub fn name(&self) -> (r: &str)
        ensures
            r@ == self@.name,
    {
        self.name.as_str()
    }

    /// The cursor's address.
    pub fn offset(&self) -> (r: u64)
        ensures
            r == self@.offset,
    {
        self.offset
    }

    /// The store the matrix browses.
    pub fn data(&self) -> &T {
        &self.data
    }

    /// Cells in one line.
    pub fn col_size(&self) -> (r: u16)
        requires
            self.wf(),
        ensures
            r == LINE_SIZE,
    {
        self.col_size
    }

    /// Lines in one page.
    pub fn row_size(&self) -> (r: u16)
        requires
            self.wf(),
        ensures
            r == LINE_COUNT,
    {
        self.row_size
    }

    /// What key presses currently do.
    pub fn op_mode(&self) -> (r: OpMode)
        ensures
            r == self@.op_mode,
    {
        self.op_mode
    }

    /// The granularity of the cursor.
    pub fn cell_type(&self) -> (r: DataType)
        ensures
            r == self@.cell_type,
    {
        self.cell_type
    }

    /// The input line typed at the prompt.
    pub fn input(&self) -> (r: &[char])
        ensures
            r@ == self@.input,
    {
        self.input.as_slice()
    }

    /// The cached cell at `index` within the page: the store's latest answer
    /// for address `page_start + index`. `None` past the end of the page.
    pub fn get(&self, index: usize) -> (r: Option<Cell>)
        requires
            self.wf(),
        ensures
            index < PAGE_SIZE ==> r == Some(Cell { inner: self@.cells[index as int] }),
            index >= PAGE_SIZE ==> r is None,
    {
        self.page.cell_at(index)
    }

    /// Whether the cell at page index `index`, at the current granularity,
    /// holds the cursor.
    pub fn is_cursor_cell(&self, index: usize) -> (r: bool)
        requires
            self.wf(),
        ensures
            r == (index <= self@.offset % PAGE_SIZE < index + width(self@.cell_type)),
    {
        let po = self.page_offset();
        let w = data_size(&self.cell_type);
        let i = index as u64;
        i <= po && po - i < w
    }

    /// The text of the cell at page index `index` at the current
    /// granularity: the hexadecimal digits of its bytes, the byte at the
    /// highest address first, with `XX` for each byte that is unknown or
    /// lies past the page.
    pub fn group_hex(&self, index: usize) -> (r: String)
        requires
            self.wf(),
        ensures
            r@ == group_text(self@.cells, index as int, width(self@.cell_type) as nat),
    {
        let w = data_size(&self.cell_type) as usize;
        let mut r = String::new();
        let mut j: usize = w;
        proof {
            assert(r@ + group_text(self@.cells, index as int, w as nat) =~= group_text(
                self@.cells,
                index as int,
                w as nat,
            ));
        }
        while j > 0
            invariant
                j <= w,
                w == width(self@.cell_type),
                self.wf(),
                r@ + group_text(self@.cells, index as int, j as nat) == group_text(
                    self@.cells,
                    index as int,
                    w as nat,
                ),
            decreases j,
        {
            let cell = if index < PAGE_SIZE as usize {
                self.page.cell_at(index + j - 1)
            } else {
                None
            };
            let text = match cell {
                Some(c) => c.hex(),
                None => Cell { inner: None }.hex(),
            };
            let ghost before = r@;
            r.append(text.as_str());
            proof {
                let rest = group_text(self@.cells, index as int, (j - 1) as nat);
                assert(text@ == cell_hex(cell_or_unknown(self@.cells, index + j - 1)));
                assert(r@ + rest =~= before + group_text(self@.cells, index as int, j as nat));
            }
            j = j - 1;
        }
        proof {
            assert(r@ + group_text(self@.cells, index as int, 0) =~= r@);
        }
        r
    }
}

} // verus!
