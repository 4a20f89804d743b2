use vstd::prelude::*;
use crate::figure::canvas::raster::lemma_cell_in_range;

verus! {

/// The mathematical picture of a piece of rendered text: the size it was
/// measured to, and how much of each cell its glyphs cover, row after row.
pub struct Mask {
    pub width: nat,
    pub height: nat,
    pub coverage: Seq<u8>,
}

impl Mask {
    /// There is one coverage value for each cell.
    pub open spec fn wf(self) -> bool {
        self.coverage.len() == self.width * self.height
    }

    /// Whether `(i, j)` is a cell of the mask.
    pub open spec fn covers(self, i: int, j: int) -> bool {
        0 <= i < self.width && 0 <= j < self.height
    }

    /// The coverage of cell `(i, j)`: 0 for none, 255 for all of it.
    pub open spec fn at(self, i: int, j: int) -> u8 {
        self.coverage[j * self.width + i]
    }
}

/// A piece of text as the font renders it: its measured width and height
/// and the glyph coverage of each cell of that box.
#[derive(Clone, Debug)]
pub struct TextMask {
    width: u32,
    height: u32,
    coverage: Vec<u8>,
}

impl View for TextMask {
    type V = Mask;

    closed spec fn view(&self) -> Mask {
        Mask {
            width: self.width as nat,
            height: self.height as nat,
            coverage: self.coverage@,
        }
    }
}

impl TextMask {
    /// The invariant of a mask: that of its picture.
    pub open spec fn wf(&self) -> bool {
        self@.wf()
    }

    /// A mask of the given size. There is none unless `coverage` holds
    /// exactly one value for each cell.
    pub fn new(width: u32, height: u32, coverage: Vec<u8>) -> (r: Option<TextMask>)
        ensures
            r is Some <==> coverage@.len() == width * height,
            r matches Some(m) ==> m.wf() && m@ == (Mask {
                width: width as nat,
                height: height as nat,
                coverage: coverage@,
            }),
    {
        assert(width as u64 * height as u64 <= 0xffff_ffff * 0xffff_ffff) by (nonlinear_arith)
            requires width as u64 <= 0xffff_ffff, height as u64 <= 0xffff_ffff;
        let cells: u64 = width as u64 * height as u64;
        if coverage.len() as u64 != cells {
            return None;
        }
        Some(TextMask { width, height, coverage })
    }

    /// The measured width of the text.
    pub fn width(&self) -> (r: u32)
        ensures
            r == self@.width,
    {
        self.width
    }

    /// The measured height of the text.
    pub fn height(&self) -> (r: u32)
        ensures
            r == self@.height,
    {
        self.height
    }

    /// The coverage of cell `(i, j)`, or nothing where the mask has no
    /// such cell.
    pub fn coverage_at(&self, i: u32, j: u32) -> (r: Option<u8>)
        requires
            self.wf(),
        ensures
            r == if self@.covers(i as int, j as int) {
                Some(self@.at(i as int, j as int))
            } else {
                None
            },
    {
        if i >= self.width || j >= self.height {
            return None;
        }
        proof {
            lemma_cell_in_range(self.width as int, self.height as int, i as int, j as int);
        }
        let cells: usize = self.coverage.len();
        assert(j * self.width + i < cells);
        let k: usize = j as usize * self.width as usize + i as usize;
        Some(self.coverage[k])
    }
}

} // verus!
