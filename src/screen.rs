use vstd::prelude::*;

verus! {

/// The value of the cell at a flat index: what was stored there, or the empty
/// cell `0` past the end of the store.
pub open spec fn cell_at(cells: Seq<u8>, index: int) -> u8 {
    if 0 <= index < cells.len() {
        cells[index]
    } else {
        0
    }
}

/// A page of empty cells.
pub open spec fn empty_cells(n: nat) -> Seq<u8> {
    Seq::new(n, |_i: int| 0u8)
}

/// How many whole pages must be appended to a store of `len` cells so that it
/// holds `index`.
pub open spec fn pages_to_cover(len: nat, index: nat, page: nat) -> nat
    recommends
        page > 0,
{
    if index < len {
        0
    } else {
        ((index - len) / (page as int) + 1) as nat
    }
}

/// The store after `c` is written at `index`: it first grows by as many whole
/// pages of empty cells as it takes to hold `index`.
pub open spec fn write_cell(cells: Seq<u8>, index: nat, page: nat, c: u8) -> Seq<u8> {
    let grown = cells + empty_cells(pages_to_cover(cells.len(), index, page) * page);
    grown.update(index as int, c)
}

/// Writing a cell changes the value read at that index and no other.
pub proof fn lemma_write_cell(cells: Seq<u8>, index: nat, page: nat, c: u8)
    requires
        page > 0,
    ensures
        write_cell(cells, index, page, c).len() > index,
        write_cell(cells, index, page, c).len() >= cells.len(),
        forall|j: int|
            #[trigger] cell_at(write_cell(cells, index, page, c), j) == if j == index {
                c
            } else {
                cell_at(cells, j)
            },
{
    let k = pages_to_cover(cells.len(), index, page);
    if index >= cells.len() {
        let d = index - cells.len();
        assert(d < (d / (page as int) + 1) * page) by (nonlinear_arith)
            requires
                d >= 0,
                page > 0,
        ;
    }
    let grown = cells + empty_cells(k * page);
    assert(grown.len() > index);
}

/// A growable grid of byte cells addressed by `(row, col)`, stored row after
/// row in one flat vector of `width` cells per row. The store grows in pages
/// of `width * height` cells.
pub struct ScreenBuffer {
    data: Vec<u8>,
    width: usize,
    height: usize,
}

impl View for ScreenBuffer {
    type V = Seq<u8>;

    closed spec fn view(&self) -> Seq<u8> {
        self.data@
    }
}

impl ScreenBuffer {
    /// Cells per row.
    pub closed spec fn spec_width(&self) -> nat {
        self.width as nat
    }

    /// Rows per page.
    pub closed spec fn spec_height(&self) -> nat {
        self.height as nat
    }

    /// Cells per page: the unit in which the store grows.
    pub open spec fn page(&self) -> nat {
        self.spec_width() * self.spec_height()
    }

    /// Flat index of the cell at `(row, col)`.
    pub open spec fn index_of(&self, row: int, col: int) -> int {
        row * self.spec_width() + col
    }

    /// The cell that `get_char_at(row, col)` reads.
    pub open spec fn char_at(&self, row: int, col: int) -> u8 {
        cell_at(self@, self.index_of(row, col))
    }

    /// Rows and pages are non-empty, and a page and the store's length stay
    /// below the largest index.
    pub closed spec fn wf(&self) -> bool {
        &&& self.width > 0
        &&& self.height > 0
        &&& self.width * self.height < usize::MAX
        &&& self.data@.len() < usize::MAX
    }

    /// An empty buffer of one page.
    pub fn new(width: usize, height: usize) -> (r: Self)
        requires
            width > 0,
            height > 0,
            width * height < usize::MAX,
        ensures
            r.wf(),
            r.spec_width() == width,
            r.spec_height() == height,
            r@ == empty_cells((width * height) as nat),
    {
        let r = Self { data: vec![0; width * height], width, height };
        assert(r@ =~= empty_cells((width * height) as nat));
        r
    }

    fn expand_buffer(&mut self)
        requires
            old(self).wf(),
            old(self)@.len() + old(self).page() < usize::MAX,
        ensures
            final(self).wf(),
            final(self).spec_width() == old(self).spec_width(),
            final(self).spec_height() == old(self).spec_height(),
            final(self)@ == old(self)@ + empty_cells(old(self).page()),
    {
        let mut page = vec![0; self.width * self.height];
        assert(page@ =~= empty_cells(self.page()));
        self.data.append(&mut page);
    }

    /// One more than the number of whole rows the store holds.
    pub fn lines_count(&self) -> (r: usize)
        requires
            self.wf(),
        ensures
            r == self@.len() / self.spec_width() + 1,
    {
        let ghost len = self.data@.len() as int;
        assert(len / (self.width as int) <= len) by (nonlinear_arith)
            requires
                self.width > 0,
                len >= 0,
        ;
        self.data.len() / self.width + 1
    }

    /// Drops every cell and starts again from one empty page.
    pub fn clear(&mut self)
        requires
            old(self).wf(),
        ensures
            final(self).wf(),
            final(self).spec_width() == old(self).spec_width(),
            final(self).spec_height() == old(self).spec_height(),
            final(self)@ == empty_cells(old(self).page()),
    {
        self.data = vec![0; self.width * self.height];
        assert(self.data@ =~= empty_cells(self.page()));
    }

    /// Stores `c` at `(row, col)`, first growing the store by whole pages
    /// until it holds that cell.
    pub fn set_char_at(&mut self, c: u8, row: usize, col: usize)
        requires
            old(self).wf(),
            old(self).index_of(row as int, col as int) + old(self).page() < usize::MAX,
        ensures
            final(self).wf(),
            final(self).spec_width() == old(self).spec_width(),
            final(self).spec_height() == old(self).spec_height(),
            final(self)@ == write_cell(
                old(self)@,
                old(self).index_of(row as int, col as int) as nat,
                old(self).page(),
                c,
            ),
    {
        let index = row * self.width + col;
        let ghost start = self.data@;
        let ghost page = self.page();
        let ghost mut k: nat = 0;
        assert(page > 0) by (nonlinear_arith)
            requires
                page == self.width * self.height,
                self.width > 0,
                self.height > 0,
        ;
        while index >= self.data.len()
            invariant
                self.wf(),
                self.spec_width() == old(self).spec_width(),
                self.spec_height() == old(self).spec_height(),
                page == self.page(),
                page > 0,
                index + page < usize::MAX,
                start == old(self)@,
                self@ == start + empty_cells(k * page),
                k == 0 || start.len() + (k - 1) * page <= index,
            decreases index + page - self.data@.len(),
        {
            assert(self@.len() + page < usize::MAX);
            self.expand_buffer();
            proof {
                assert(self@ =~= start + empty_cells((k + 1) * page)) by {
                    assert((k + 1) * page == k * page + page) by (nonlinear_arith);
                }
                k = k + 1;
            }
        }
        proof {
            assert(k == pages_to_cover(start.len(), index as nat, page)) by {
                if index >= start.len() {
                    let d = index - start.len();
                    assert(k > 0);
                    assert((k - 1) * page <= d < k * page) by (nonlinear_arith)
                        requires
                            start.len() + (k - 1) * page <= index,
                            index < start.len() + k * page,
                            d == index - start.len(),
                    ;
                    assert(d / (page as int) == k - 1) by (nonlinear_arith)
                        requires
                            (k - 1) * page <= d < k * page,
                            page > 0,
                            k > 0,
                    ;
                } else {
                    assert(k == 0);
                }
            }
        }
        self.data[index] = c;
    }

    /// The cell at `(row, col)`, or `0` when the store does not reach it.
    pub fn get_char_at(&self, row: usize, col: usize) -> (r: u8)
        ensures
            r == self.char_at(row as int, col as int),
    {
        let len = self.data.len();
        match row.checked_mul(self.width) {
            Some(base) => match base.checked_add(col) {
                Some(index) => {
                    assert(index == self.index_of(row as int, col as int));
                    if index < len {
                        let v = self.data[index];
                        assert(v == cell_at(self@, index as int));
                        v
                    } else {
                        0
                    }
                },
                None => {
                    assert(self.index_of(row as int, col as int) > usize::MAX);
                    0
                },
            },
            None => {
                assert(row * self.width + col > usize::MAX) by (nonlinear_arith)
                    requires
                        row * self.width > usize::MAX,
                ;
                0
            },
        }
    }
}

} // verus!
