//! A grid of four-channel colors, filled cell by cell and handed out as bytes.

use vstd::prelude::*;

verus! {

/// One pixel: red, green, blue and alpha, eight bits each.
#[derive(Clone, Copy, Debug, PartialEq, Eq, Structural)]
pub struct Color {
    pub red: u8,
    pub green: u8,
    pub blue: u8,
    pub alpha: u8,
}

impl Color {
    /// The color of a cell that nothing has written yet: an opaque hot pink,
    /// chosen to stand out in a finished picture.
    pub open spec fn unset() -> Color {
        Color { red: 255, green: 105, blue: 180, alpha: 255 }
    }

    /// The channels in the order in which they are laid out as bytes:
    /// red, green, blue, alpha.
    pub open spec fn channel(self, c: int) -> u8 {
        if c == 0 {
            self.red
        } else if c == 1 {
            self.green
        } else if c == 2 {
            self.blue
        } else {
            self.alpha
        }
    }

    pub fn new(red: u8, green: u8, blue: u8, alpha: u8) -> (color: Color)
        ensures
            color == (Color { red, green, blue, alpha }),
    {
        Color { red, green, blue, alpha }
    }
}

impl Default for Color {
    /// The color of an unset cell.
    fn default() -> (color: Color)
        ensures
            color == Color::unset(),
    {
        Color::new(255, 105, 180, 255)
    }
}

/// What an [`Image`] holds: its dimensions and its cells, row after row,
/// the top row first.
pub struct Grid {
    pub width: nat,
    pub height: nat,
    pub cells: Seq<Color>,
}

impl Grid {
    /// There is one cell for each column of each row.
    pub open spec fn well_formed(self) -> bool {
        self.cells.len() == self.width * self.height
    }

    /// Whether column `x` of row `y` lies in the grid.
    pub open spec fn contains(self, x: int, y: int) -> bool {
        0 <= x < self.width && 0 <= y < self.height
    }

    /// The place in `cells` of column `x` of row `y`.
    pub open spec fn index_of(self, x: int, y: int) -> int {
        y * self.width + x
    }

    /// The color in column `x` of row `y`.
    pub open spec fn at(self, x: int, y: int) -> Color {
        self.cells[self.index_of(x, y)]
    }

    /// The grid with `color` in column `x` of row `y` and every other cell
    /// as it was.
    pub open spec fn with(self, x: int, y: int, color: Color) -> Grid {
        Grid { cells: self.cells.update(self.index_of(x, y), color), ..self }
    }

    /// Whether `cells` has a place `k`.
    pub open spec fn has_cell(self, k: int) -> bool {
        0 <= k < self.cells.len()
    }

    /// The column of the cell at place `k` of `cells`.
    pub open spec fn column_of(self, k: int) -> int {
        k % self.width as int
    }

    /// The scanline of the cell at place `k` of `cells`, counted upwards:
    /// the bottom row is scanline 1, the top row scanline `height`.
    pub open spec fn scanline_of(self, k: int) -> int {
        self.height - k / self.width as int
    }

    /// The cells as bytes: four to a cell, in the order of
    /// [`Color::channel`], cell after cell.
    pub open spec fn bytes(self) -> Seq<u8> {
        Seq::new(4 * self.cells.len(), |i: int| self.cells[i / 4].channel(i % 4))
    }

    /// A grid of the given dimensions in which no cell is set.
    pub open spec fn blank(width: nat, height: nat) -> Grid {
        Grid { width, height, cells: Seq::new(width * height, |k: int| Color::unset()) }
    }

    /// A place in the grid has a place in `cells`.
    pub proof fn lemma_index_in_range(self, x: int, y: int)
        requires
            self.well_formed(),
            self.contains(x, y),
        ensures
            self.has_cell(self.index_of(x, y)),
    {
        assert(0 <= y * self.width + x < self.width * self.height) by (nonlinear_arith)
            requires
                0 <= x < self.width,
                0 <= y < self.height,
        ;
    }

    /// The column and the scanline that go with place `k` name that very
    /// cell: it stands in column `column_of(k)` of the row that lies
    /// `scanline_of(k)` rows above the lower edge.
    pub proof fn lemma_place_of_scanline(self, k: int)
        requires
            self.well_formed(),
            self.has_cell(k),
        ensures
            0 <= self.column_of(k) < self.width,
            1 <= self.scanline_of(k) <= self.height,
            self.index_of(self.column_of(k), self.height - self.scanline_of(k)) == k,
    {
        lemma_row_in_range(k, self.width as int, self.height as int);
        vstd::arithmetic::div_mod::lemma_fundamental_div_mod(k, self.width as int);
        assert((k / self.width as int) * self.width == self.width * (k / self.width as int))
            by (nonlinear_arith);
    }

    /// Two places in the grid that differ have different places in `cells`.
    pub proof fn lemma_index_distinct(self, x: int, y: int, other_x: int, other_y: int)
        requires
            self.contains(x, y),
            self.contains(other_x, other_y),
            x != other_x || y != other_y,
        ensures
            self.index_of(x, y) != self.index_of(other_x, other_y),
    {
        assert(y * self.width + x != other_y * self.width + other_x) by (nonlinear_arith)
            requires
                0 <= x < self.width,
                0 <= other_x < self.width,
                x != other_x || y != other_y,
        ;
    }

    /// A write is read back from its place, and every other place in the
    /// grid reads as before.
    pub proof fn lemma_with_then_at(self, x: int, y: int, color: Color, other_x: int, other_y: int)
        requires
            self.well_formed(),
            self.contains(x, y),
            self.contains(other_x, other_y),
        ensures
            self.with(x, y, color).well_formed(),
            self.with(x, y, color).at(x, y) == color,
            x != other_x || y != other_y ==> self.with(x, y, color).at(other_x, other_y) == self.at(
                other_x,
                other_y,
            ),
    {
        self.lemma_index_in_range(x, y);
        self.lemma_index_in_range(other_x, other_y);
        if x != other_x || y != other_y {
            self.lemma_index_distinct(x, y, other_x, other_y);
        }
    }

    /// The bytes of a grid are four times as many as its cells, and the four
    /// that start at four times a cell's place are that cell's red, green,
    /// blue and alpha.
    pub proof fn lemma_bytes_of_cell(self, x: int, y: int)
        requires
            self.well_formed(),
            self.contains(x, y),
        ensures
            self.bytes().len() == 4 * (self.width * self.height),
            4 * self.index_of(x, y) + 3 < self.bytes().len(),
            self.bytes()[4 * self.index_of(x, y)] == self.at(x, y).red,
            self.bytes()[4 * self.index_of(x, y) + 1] == self.at(x, y).green,
            self.bytes()[4 * self.index_of(x, y) + 2] == self.at(x, y).blue,
            self.bytes()[4 * self.index_of(x, y) + 3] == self.at(x, y).alpha,
    {
        self.lemma_index_in_range(x, y);
    }

    /// In a blank grid every cell is unset.
    pub proof fn lemma_blank_is_unset(width: nat, height: nat, x: int, y: int)
        requires
            Grid::blank(width, height).contains(x, y),
        ensures
            Grid::blank(width, height).well_formed(),
            Grid::blank(width, height).at(x, y) == Color::unset(),
    {
        Grid::blank(width, height).lemma_index_in_range(x, y);
    }
}

/// The row of place `k` in a grid of `width` by `height` cells is one of
/// its rows.
proof fn lemma_row_in_range(k: int, width: int, height: int)
    requires
        0 <= k < width * height,
        0 <= width,
        0 <= height,
    ensures
        0 < width,
        0 <= k / width < height,
        0 <= k % width < width,
{
    assert(0 < width) by (nonlinear_arith)
        requires
            0 <= k < width * height,
            0 <= width,
    ;
    vstd::arithmetic::div_mod::lemma_fundamental_div_mod(k, width);
    vstd::arithmetic::div_mod::lemma_mod_bound(k, width);
    let q = k / width;
    let r = k % width;
    assert(0 <= q < height) by (nonlinear_arith)
        requires
            k == width * q + r,
            0 <= r < width,
            0 <= k < width * height,
    ;
}

/// A picture of `width` columns and `height` rows.
#[derive(Debug)]
pub struct Image {
    width: usize,
    height: usize,
    data: Vec<Color>,
}

impl View for Image {
    type V = Grid;

    closed spec fn view(&self) -> Grid {
        Grid { width: self.width as nat, height: self.height as nat, cells: self.data@ }
    }
}

impl Image {
    #[verifier::type_invariant]
    spec fn inv(&self) -> bool {
        &&& self.data@.len() == self.width * self.height
        &&& self.data@.len() * 4 <= usize::MAX
    }

    /// A picture in which every cell is unset.
    ///
    /// Four bytes per cell must be addressable.
    pub fn new(width: usize, height: usize) -> (image: Image)
        requires
            width * height * 4 <= usize::MAX,
        ensures
            image@ == Grid::blank(width as nat, height as nat),
    {
        let mut data: Vec<Color> = Vec::new();
        data.resize(width * height, Color::default());
        assert(data@ =~= Grid::blank(width as nat, height as nat).cells);
        Image { width, height, data }
    }

    /// The number of columns.
    pub fn width(&self) -> (width: usize)
        ensures
            width == self@.width,
            self@.well_formed(),
    {
        proof {
            use_type_invariant(self);
        }
        self.width
    }

    /// The number of rows.
    pub fn height(&self) -> (height: usize)
        ensures
            height == self@.height,
            self@.well_formed(),
    {
        proof {
            use_type_invariant(self);
        }
        self.height
    }

    /// The color in column `x` of row `y`, counted from the top, if there is
    /// such a cell.
    pub fn get(&self, x: usize, y: usize) -> (color: Option<Color>)
        ensures
            color == (if self@.contains(x as int, y as int) {
                Some(self@.at(x as int, y as int))
            } else {
                None
            }),
    {
        if x >= self.width || y >= self.height {
            return None;
        }
        proof {
            use_type_invariant(self);
            self@.lemma_index_in_range(x as int, y as int);
        }
        Some(self.data[y * self.width + x])
    }

    /// Writes `color` to column `x` of row `y`, counted from the top.
    ///
    /// The place must lie in the picture: the column and the row are each
    /// held to their own bound, so that no write lands in another row.
    pub fn set(&mut self, x: usize, y: usize, color: Color)
        requires
            old(self)@.contains(x as int, y as int),
        ensures
            final(self)@ == old(self)@.with(x as int, y as int, color),
    {
        proof {
            use_type_invariant(&*self);
            self@.lemma_index_in_range(x as int, y as int);
        }
        self.data[y * self.width + x] = color;
    }

    /// Hands every cell to `visit`, together with the cell's column and the
    /// number of its scanline, and leaves in the cell what `visit` left
    /// there.
    ///
    /// Scanlines are counted upwards and end at the top: the cells of the top
    /// row are given the picture's height, those of the bottom row 1.
    ///
    /// The cells are taken row after row from the top, each row from its
    /// first column, with one call for each. The contract speaks of each
    /// cell by itself: of what it is handed with and of what it holds
    /// afterwards, not of the order or the number of the calls.
    pub fn pixels<F: FnMut(usize, usize, &mut Color)>(&mut self, mut visit: F)
        requires
            forall|k: int, cell: &mut Color|
                old(self)@.has_cell(k) && *cell == old(self)@.cells[k] ==> #[trigger] call_requires(
                    visit,
                    (old(self)@.column_of(k) as usize, old(self)@.scanline_of(k) as usize, cell),
                ),
        ensures
            final(self)@.width == old(self)@.width,
            final(self)@.height == old(self)@.height,
            final(self)@.cells.len() == old(self)@.cells.len(),
            forall|k: int|
                #![trigger old(self)@.has_cell(k)]
                #![trigger final(self)@.cells[k]]
                old(self)@.has_cell(k) ==> exists|cell: &mut Color|
                    #![trigger call_ensures(visit, (old(self)@.column_of(k) as usize, old(self)@.scanline_of(k) as usize, cell), ())]
                    *cell == old(self)@.cells[k] && *final(cell) == final(self)@.cells[k]
                        && call_ensures(
                        visit,
                        (old(self)@.column_of(k) as usize, old(self)@.scanline_of(k) as usize, cell),
                        (),
                    ),
    {
        proof {
            use_type_invariant(&*self);
        }
        let ghost grid = self@;
        let ghost visitor = visit;
        let width = self.width;
        let height = self.height;
        let count = self.data.len();
        let mut ind: usize = 0;
        while ind < count
            invariant
                visit == visitor,
                count == width * height,
                self.width == width,
                self.height == height,
                self.data@.len() == count,
                grid.cells.len() == count,
                grid.width == width,
                grid.height == height,
                count * 4 <= usize::MAX,
                ind <= count,
                forall|k: int| ind <= k < count ==> self.data@[k] == grid.cells[k],
                forall|k: int, cell: &mut Color|
                    grid.has_cell(k) && *cell == grid.cells[k] ==> #[trigger] call_requires(
                        visitor,
                        (grid.column_of(k) as usize, grid.scanline_of(k) as usize, cell),
                    ),
                forall|k: int|
                    #![trigger grid.has_cell(k)]
                    grid.has_cell(k) && k < ind ==> exists|cell: &mut Color|
                        #![trigger call_ensures(visitor, (grid.column_of(k) as usize, grid.scanline_of(k) as usize, cell), ())]
                        *cell == grid.cells[k] && *final(cell) == self.data@[k] && call_ensures(
                            visitor,
                            (grid.column_of(k) as usize, grid.scanline_of(k) as usize, cell),
                            (),
                        ),
            decreases count - ind,
        {
            proof {
                lemma_row_in_range(ind as int, width as int, height as int);
            }
            let x = ind % width;
            let y = height - ind / width;
            let ghost place = ind as int;
            assert(x == grid.column_of(place));
            assert(y == grid.scanline_of(place));
            visit(x, y, &mut self.data[ind]);
            ind = ind + 1;
        }
    }

    /// The picture as bytes: cell after cell in the order of the rows, the
    /// top row first, four bytes to a cell (red, green, blue, alpha) and
    /// nothing between them.
    pub fn export_bytes(&self) -> (bytes: Vec<u8>)
        ensures
            bytes@ == self@.bytes(),
    {
        proof {
            use_type_invariant(self);
        }
        let count = self.data.len();
        let mut bytes: Vec<u8> = Vec::with_capacity(count * 4);
        let mut ind: usize = 0;
        while ind < count
            invariant
                self.data@.len() == count,
                count * 4 <= usize::MAX,
                ind <= count,
                bytes@.len() == 4 * ind,
                forall|i: int|
                    0 <= i < 4 * ind ==> #[trigger] bytes@[i] == self.data@[i / 4].channel(i % 4),
            decreases count - ind,
        {
            let color = self.data[ind];
            bytes.push(color.red);
            bytes.push(color.green);
            bytes.push(color.blue);
            bytes.push(color.alpha);
            ind = ind + 1;
        }
        assert(bytes@ =~= self@.bytes());
        bytes
    }
}

} // verus!
