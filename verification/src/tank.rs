//! Tanks: the named 5 x 4 numeric grids that double as data and instruction
//! storage, and their construction from names through the glyph table.

use vstd::prelude::*;

use crate::parser::ParseError;

verus! {

/// The flattened cell sequence of a `grid::Grid<usize>`, read row by row:
/// entry `r * cols + c` is the cell at row `r`, column `c`.
pub uninterp spec fn grid_data(g: grid::Grid<usize>) -> Seq<usize>;

/// The number of columns of a `grid::Grid<usize>`.
pub uninterp spec fn grid_cols(g: grid::Grid<usize>) -> nat;

#[verifier::external_type_specification]
#[verifier::external_body]
#[verifier::reject_recursive_types(T)]
pub struct ExGrid<T>(grid::Grid<T>);

/// Relies on grid::Grid::new: a rows x cols grid holding usize::default(),
/// that is 0, in every cell.
#[verifier::external_body]
fn grid_new(rows: usize, cols: usize) -> (g: grid::Grid<usize>)
    requires
        1 <= rows,
        1 <= cols,
        rows * cols <= usize::MAX,
    ensures
        grid_data(g) == Seq::new((rows * cols) as nat, |i: int| 0usize),
        grid_cols(g) == cols,
{
    grid::Grid::new(rows, cols)
}

/// Relies on grid::Grid::from_vec: a row-major grid holding exactly the given
/// cells; with an empty vector the grid keeps zero columns.
#[verifier::external_body]
fn grid_from_vec(v: Vec<usize>, cols: usize) -> (g: grid::Grid<usize>)
    requires
        1 <= cols,
        v@.len() as int % (cols as int) == 0,
    ensures
        grid_data(g) == v@,
        grid_cols(g) == if v@.len() == 0 {
            0nat
        } else {
            cols as nat
        },
{
    grid::Grid::from_vec(v, cols)
}

/// Relies on grid::Grid's Index impl for (row, col): the cell at row `row`
/// and column `col`, which in reading order is element `row * cols + col`.
#[verifier::external_body]
fn grid_get(g: &grid::Grid<usize>, row: usize, col: usize) -> (v: usize)
    requires
        (col as int) < grid_cols(*g),
        (row as int) * grid_cols(*g) + (col as int) < grid_data(*g).len(),
    ensures
        v == grid_data(*g)[(row as int) * grid_cols(*g) + (col as int)],
{
    g[(row, col)]
}

/// A hexadecimal digit, as the byte of its ASCII character.
pub open spec fn spec_is_hex_byte(b: u8) -> bool {
    (48 <= b <= 57) || (97 <= b <= 102) || (65 <= b <= 70)
}

/// The numeric value of a hexadecimal digit byte.
pub open spec fn spec_hex_val(b: u8) -> usize {
    if 48 <= b <= 57 {
        (b - 48) as usize
    } else if 97 <= b <= 102 {
        (b - 97 + 10) as usize
    } else {
        (b - 65 + 10) as usize
    }
}

/// The numeric value of a hexadecimal digit byte, in `0 ..= 15`.
pub fn byte_to_hex(byte: u8) -> (r: usize)
    requires
        spec_is_hex_byte(byte),
    ensures
        r == spec_hex_val(byte),
        r < 16,
{
    if 48 <= byte && byte <= 57 {
        (byte - 48) as usize
    } else if 97 <= byte && byte <= 102 {
        (byte - 97 + 10) as usize
    } else {
        (byte - 65 + 10) as usize
    }
}

/// A hexadecimal digit character.
pub open spec fn spec_is_hex_char(c: char) -> bool {
    (48 <= c as u32 <= 57) || (97 <= c as u32 <= 102) || (65 <= c as u32 <= 70)
}

/// The numeric value of a hexadecimal digit character.
pub open spec fn spec_hex_char_val(c: char) -> usize {
    spec_hex_val((c as u32) as u8)
}

/// Bit `k` (0 is the leftmost, most significant) of a nibble value.
pub open spec fn nib_bit(v: usize, k: int) -> usize {
    (v >> ((3 - k) as usize)) & 1
}

/// The 4-bit rows rendered from a run of hexadecimal digits: digit `i`
/// becomes cells `4 * i` through `4 * i + 3`, most significant bit first.
pub open spec fn spec_mask_cells(mask: Seq<char>) -> Seq<usize> {
    Seq::new(4 * mask.len(), |i: int| nib_bit(spec_hex_char_val(mask[i / 4]), i % 4))
}

/// Cell-wise sum of two equally shaped grids.
pub open spec fn spec_add_cells(a: Seq<usize>, b: Seq<usize>) -> Seq<usize> {
    Seq::new(a.len(), |i: int| (a[i] + b[i]) as usize)
}

/// The swizzle transform of an apostrophe: the two halves of the flattened
/// 20-cell grid, split at index 11, exchange places.
pub open spec fn spec_swizzle(c: Seq<usize>) -> Seq<usize>
    recommends
        c.len() == 20,
{
    c.subrange(11, 20) + c.subrange(0, 11)
}

/// The per-letter glyph table: each lowercase letter renders as five
/// hexadecimal digits, one per grid row, whose bits are the row's cells.
pub open spec fn spec_font_mask(c: char) -> Seq<char> {
    if c == 'a' {
        "07997"@
    } else if c == 'b' {
        "8e99e"@
    } else if c == 'c' {
        "06886"@
    } else if c == 'd' {
        "17997"@
    } else if c == 'e' {
        "06bc6"@
    } else if c == 'f' {
        "24e44"@
    } else if c == 'g' {
        "79716"@
    } else if c == 'h' {
        "88e99"@
    } else if c == 'i' {
        "04044"@
    } else if c == 'j' {
        "20224"@
    } else if c == 'k' {
        "89ae9"@
    } else if c == 'l' {
        "44442"@
    } else if c == 'm' {
        "0edd9"@
    } else if c == 'n' {
        "0e999"@
    } else if c == 'o' {
        "06996"@
    } else if c == 'p' {
        "e99e8"@
    } else if c == 'q' {
        "79971"@
    } else if c == 'r' {
        "0ac88"@
    } else if c == 's' {
        "07c3e"@
    } else if c == 't' {
        "4e442"@
    } else if c == 'u' {
        "00997"@
    } else if c == 'v' {
        "009a4"@
    } else if c == 'w' {
        "09bb7"@
    } else if c == 'x' {
        "0a44a"@
    } else if c == 'y' {
        "99716"@
    } else {
        "0f24f"@
    }
}

/// The glyph mask of a lowercase letter: five hexadecimal digit characters.
fn font_mask_of(c: char) -> (m: &'static str)
    requires
        97 <= c as u32 && c as u32 <= 122,
    ensures
        m@ == spec_font_mask(c),
        m@.len() == 5,
        forall|i: int| 0 <= i < m@.len() ==> spec_is_hex_char(#[trigger] m@[i]),
{
    if c == 'a' {
        proof { reveal_strlit("07997"); }
        "07997"
    } else if c == 'b' {
        proof { reveal_strlit("8e99e"); }
        "8e99e"
    } else if c == 'c' {
        proof { reveal_strlit("06886"); }
        "06886"
    } else if c == 'd' {
        proof { reveal_strlit("17997"); }
        "17997"
    } else if c == 'e' {
        proof { reveal_strlit("06bc6"); }
        "06bc6"
    } else if c == 'f' {
        proof { reveal_strlit("24e44"); }
        "24e44"
    } else if c == 'g' {
        proof { reveal_strlit("79716"); }
        "79716"
    } else if c == 'h' {
        proof { reveal_strlit("88e99"); }
        "88e99"
    } else if c == 'i' {
        proof { reveal_strlit("04044"); }
        "04044"
    } else if c == 'j' {
        proof { reveal_strlit("20224"); }
        "20224"
    } else if c == 'k' {
        proof { reveal_strlit("89ae9"); }
        "89ae9"
    } else if c == 'l' {
        proof { reveal_strlit("44442"); }
        "44442"
    } else if c == 'm' {
        proof { reveal_strlit("0edd9"); }
        "0edd9"
    } else if c == 'n' {
        proof { reveal_strlit("0e999"); }
        "0e999"
    } else if c == 'o' {
        proof { reveal_strlit("06996"); }
        "06996"
    } else if c == 'p' {
        proof { reveal_strlit("e99e8"); }
        "e99e8"
    } else if c == 'q' {
        proof { reveal_strlit("79971"); }
        "79971"
    } else if c == 'r' {
        proof { reveal_strlit("0ac88"); }
        "0ac88"
    } else if c == 's' {
        proof { reveal_strlit("07c3e"); }
        "07c3e"
    } else if c == 't' {
        proof { reveal_strlit("4e442"); }
        "4e442"
    } else if c == 'u' {
        proof { reveal_strlit("00997"); }
        "00997"
    } else if c == 'v' {
        proof { reveal_strlit("009a4"); }
        "009a4"
    } else if c == 'w' {
        proof { reveal_strlit("09bb7"); }
        "09bb7"
    } else if c == 'x' {
        proof { reveal_strlit("0a44a"); }
        "0a44a"
    } else if c == 'y' {
        proof { reveal_strlit("99716"); }
        "99716"
    } else {
        proof { reveal_strlit("0f24f"); }
        "0f24f"
    }
}

/// Ghost mirror of a `Tank`: its cells in reading order, its name, and its
/// private execution state.
pub struct TankModel {
    pub cells: Seq<usize>,
    pub name: Seq<char>,
    pub cycle_instr: crate::program::CycleInstruction,
    pub acc: usize,
}

/// A named 5 x 4 grid of non-negative cells with a persistent
/// cycle-instruction selector and an accumulator counter.
#[derive(Debug)]
pub struct Tank {
    grid: grid::Grid<usize>,
    name: String,
    cycle_instr: crate::program::CycleInstruction,
    acc: usize,
}

impl View for Tank {
    type V = TankModel;

    closed spec fn view(&self) -> TankModel {
        TankModel {
            cells: grid_data(self.grid),
            name: self.name@,
            cycle_instr: self.cycle_instr,
            acc: self.acc,
        }
    }
}

impl Tank {
    /// The number of columns of the underlying grid.
    pub closed spec fn gcols(&self) -> nat {
        grid_cols(self.grid)
    }

    /// A tank fit for execution: the grid has exactly the fixed 5 x 4 shape.
    pub open spec fn wf(&self) -> bool {
        self.gcols() == 4 && self@.cells.len() == 20
    }

    /// Wraps a finished grid and a display name with zeroed execution state.
    pub(crate) fn new(name: String, grid: grid::Grid<usize>) -> (t: Tank)
        ensures
            t@.cells == grid_data(grid),
            t@.name == name@,
            t@.cycle_instr == crate::program::CycleInstruction::Subtract,
            t@.acc == 0,
            t.gcols() == grid_cols(grid),
    {
        Tank { grid, name, cycle_instr: crate::program::CycleInstruction::Subtract, acc: 0 }
    }

    /// Builds an execution-ready tank straight from 20 cells in reading
    /// order; `None` exactly when the cell count is not 20.
    pub fn from_cells(name: String, cells: Vec<usize>) -> (r: Option<Tank>)
        ensures
            match r {
                Some(t) => {
                    &&& cells@.len() == 20
                    &&& t@.cells == cells@
                    &&& t@.name == name@
                    &&& t@.cycle_instr == crate::program::CycleInstruction::Subtract
                    &&& t@.acc == 0
                    &&& t.wf()
                },
                None => cells@.len() != 20,
            },
    {
        if cells.len() != 20 {
            return None;
        }
        let g = grid_from_vec(cells, 4);
        Some(Tank::new(name, g))
    }

    /// The display name.
    pub fn name(&self) -> (r: &String)
        ensures
            r@ == self@.name,
    {
        &self.name
    }

    /// The accumulator counter.
    pub fn acc(&self) -> (r: usize)
        ensures
            r == self@.acc,
    {
        self.acc
    }

    /// The current cycle-instruction selector.
    pub fn cycle_state(&self) -> (r: crate::program::CycleInstruction)
        ensures
            r == self@.cycle_instr,
    {
        self.cycle_instr
    }

    /// The cells in reading order, row by row.
    pub fn cells(&self) -> (r: Vec<usize>)
        requires
            self.wf(),
        ensures
            r@ == self@.cells,
    {
        let mut out: Vec<usize> = Vec::new();
        let mut row: usize = 0;
        while row < 5
            invariant
                self.wf(),
                row <= 5,
                out@.len() == 4 * row,
                forall|i: int| 0 <= i < out@.len() ==> out@[i] == self@.cells[i],
            decreases 5 - row,
        {
            let mut col: usize = 0;
            while col < 4
                invariant
                    self.wf(),
                    row < 5,
                    col <= 4,
                    out@.len() == 4 * row + col,
                    forall|i: int| 0 <= i < out@.len() ==> out@[i] == self@.cells[i],
                decreases 4 - col,
            {
                out.push(grid_get(&self.grid, row, col));
                col = col + 1;
            }
            row = row + 1;
        }
        out
    }

    /// Renders a tank from a glyph mask: each hexadecimal digit of the mask
    /// becomes one 4-cell row of bits. A non-hexadecimal character is a
    /// malformed glyph and aborts construction.
    pub fn from_mask_and_name(name: String, mask: &str) -> (r: Result<Tank, ParseError>)
        ensures
            match r {
                Ok(t) => {
                    &&& forall|i: int|
                        0 <= i < mask@.len() ==> spec_is_hex_char(#[trigger] mask@[i])
                    &&& t@.cells == spec_mask_cells(mask@)
                    &&& t@.name == name@
                    &&& t@.cycle_instr == crate::program::CycleInstruction::Subtract
                    &&& t@.acc == 0
                    &&& t.gcols() == if mask@.len() == 0 { 0nat } else { 4nat }
                },
                Err(e) => {
                    &&& exists|i: int| 0 <= i < mask@.len() && !spec_is_hex_char(#[trigger] mask@[i])
                    &&& e@ == crate::parser::ParseErrorModel::InvalidName(mask@)
                },
            },
    {
        let m = mask.unicode_len();
        let mut data: Vec<usize> = Vec::new();
        let mut x: usize = 0;
        while x < m
            invariant
                m == mask@.len(),
                x <= m,
                data@.len() == 4 * x,
                forall|i: int| 0 <= i < x ==> spec_is_hex_char(#[trigger] mask@[i]),
                forall|i: int| 0 <= i < data@.len() ==> data@[i] == spec_mask_cells(mask@)[i],
            decreases m - x,
        {
            let c = mask.get_char(x);
            let u = c as u32;
            if !((48 <= u && u <= 57) || (97 <= u && u <= 102) || (65 <= u && u <= 70)) {
                return Err(ParseError::InvalidName(mask.to_owned()));
            }
            let v = byte_to_hex(u as u8);
            data.push((v >> 3) & 1);
            data.push((v >> 2) & 1);
            data.push((v >> 1) & 1);
            data.push(v & 1);
            proof {
                let i = x as int;
                assert(spec_mask_cells(mask@)[4 * i] == nib_bit(spec_hex_char_val(mask@[i]), 0));
                assert(spec_mask_cells(mask@)[4 * i + 1] == nib_bit(
                    spec_hex_char_val(mask@[i]),
                    1,
                ));
                assert(spec_mask_cells(mask@)[4 * i + 2] == nib_bit(
                    spec_hex_char_val(mask@[i]),
                    2,
                ));
                assert(spec_mask_cells(mask@)[4 * i + 3] == nib_bit(
                    spec_hex_char_val(mask@[i]),
                    3,
                ));
                assert(v & 1 == (v >> 0) & 1) by (bit_vector);
            }
            x = x + 1;
        }
        let g = grid_from_vec(data, 4);
        proof {
            assert(grid_data(g) =~= spec_mask_cells(mask@));
        }
        Ok(Tank::new(name, g))
    }

    /// Applies the apostrophe transform: the two halves of the flattened
    /// grid, split at index 11, exchange places.
    pub(crate) fn swizzle(self) -> (r: Tank)
        requires
            self.wf(),
        ensures
            r@.cells == spec_swizzle(self@.cells),
            r@.name == self@.name,
            r@.cycle_instr == self@.cycle_instr,
            r@.acc == self@.acc,
            r.wf(),
    {
        let cells = self.cells();
        let mut sw: Vec<usize> = Vec::new();
        let mut i: usize = 11;
        while i < 20
            invariant
                cells@ == self@.cells,
                self.wf(),
                11 <= i <= 20,
                sw@.len() == i - 11,
                forall|k: int| 0 <= k < sw@.len() ==> sw@[k] == self@.cells[k + 11],
            decreases 20 - i,
        {
            sw.push(cells[i]);
            i = i + 1;
        }
        let mut j: usize = 0;
        while j < 11
            invariant
                cells@ == self@.cells,
                self.wf(),
                j <= 11,
                sw@.len() == 9 + j,
                forall|k: int| 0 <= k < 9 ==> sw@[k] == self@.cells[k + 11],
                forall|k: int| 9 <= k < sw@.len() ==> sw@[k] == self@.cells[k - 9],
            decreases 11 - j,
        {
            sw.push(cells[j]);
            j = j + 1;
        }
        proof {
            assert(sw@ =~= spec_swizzle(self@.cells));
        }
        let g = grid_from_vec(sw, 4);
        Tank { grid: g, name: self.name, cycle_instr: self.cycle_instr, acc: self.acc }
    }

    /// Adds another tank's grid cell-wise into this one, keeping this tank's
    /// name and execution state.
    pub(crate) fn merge(self, rhs: &Tank) -> (r: Tank)
        requires
            self.wf(),
            rhs.wf(),
            forall|i: int|
                0 <= i < 20 ==> (#[trigger] self@.cells[i]) + rhs@.cells[i] <= usize::MAX,
        ensures
            r@.cells == spec_add_cells(self@.cells, rhs@.cells),
            r@.name == self@.name,
            r@.cycle_instr == self@.cycle_instr,
            r@.acc == self@.acc,
            r.wf(),
    {
        let a = self.cells();
        let b = rhs.cells();
        let mut sum: Vec<usize> = Vec::new();
        let mut i: usize = 0;
        while i < 20
            invariant
                a@ == self@.cells,
                b@ == rhs@.cells,
                self.wf(),
                rhs.wf(),
                forall|k: int|
                    0 <= k < 20 ==> (#[trigger] self@.cells[k]) + rhs@.cells[k] <= usize::MAX,
                i <= 20,
                sum@.len() == i,
                forall|k: int|
                    0 <= k < sum@.len() ==> sum@[k] == spec_add_cells(self@.cells, rhs@.cells)[k],
            decreases 20 - i,
        {
            sum.push(a[i] + b[i]);
            i = i + 1;
        }
        proof {
            assert(sum@ =~= spec_add_cells(self@.cells, rhs@.cells));
        }
        let g = grid_from_vec(sum, 4);
        Tank { grid: g, name: self.name, cycle_instr: self.cycle_instr, acc: self.acc }
    }
}

/// The cells of the tank rendered for a name: glyphs of letters add in from
/// left to right, and each apostrophe swizzles the grid accumulated so far.
pub open spec fn spec_name_cells(name: Seq<char>) -> Seq<usize>
    decreases name.len(),
{
    if name.len() == 0 {
        Seq::new(20, |i: int| 0usize)
    } else {
        let prev = spec_name_cells(name.drop_last());
        if name.last() == '\'' {
            spec_swizzle(prev)
        } else {
            spec_add_cells(prev, spec_mask_cells(spec_font_mask(name.last())))
        }
    }
}

/// Every glyph mask has exactly five digits.
pub proof fn lemma_font_len(c: char)
    ensures
        spec_font_mask(c).len() == 5,
{
    reveal_strlit("07997");
    reveal_strlit("8e99e");
    reveal_strlit("06886");
    reveal_strlit("17997");
    reveal_strlit("06bc6");
    reveal_strlit("24e44");
    reveal_strlit("79716");
    reveal_strlit("88e99");
    reveal_strlit("04044");
    reveal_strlit("20224");
    reveal_strlit("89ae9");
    reveal_strlit("44442");
    reveal_strlit("0edd9");
    reveal_strlit("0e999");
    reveal_strlit("06996");
    reveal_strlit("e99e8");
    reveal_strlit("79971");
    reveal_strlit("0ac88");
    reveal_strlit("07c3e");
    reveal_strlit("4e442");
    reveal_strlit("00997");
    reveal_strlit("009a4");
    reveal_strlit("09bb7");
    reveal_strlit("0a44a");
    reveal_strlit("99716");
    reveal_strlit("0f24f");
}

/// Every rendered cell is at most the number of characters consumed: each
/// glyph contributes at most 1 per cell and a swizzle only permutes cells.
pub proof fn lemma_name_cells_bound(name: Seq<char>)
    ensures
        spec_name_cells(name).len() == 20,
        forall|i: int| 0 <= i < 20 ==> #[trigger] spec_name_cells(name)[i] <= name.len(),
    decreases name.len(),
{
    if name.len() > 0 {
        let prev = spec_name_cells(name.drop_last());
        lemma_name_cells_bound(name.drop_last());
        lemma_font_len(name.last());
        if name.last() == '\'' {
        } else {
            let mask = spec_mask_cells(spec_font_mask(name.last()));
            assert forall|i: int| 0 <= i < 20 implies #[trigger] spec_name_cells(name)[i]
                <= name.len() by {
                let v = spec_hex_char_val(spec_font_mask(name.last())[i / 4]);
                let s = ((3 - (i % 4)) as usize);
                assert((v >> s) & 1 <= 1) by (bit_vector);
            }
        }
    }
}

/// A character that may stand in a name handed to the tank builder:
/// a lowercase letter contributes its glyph, an apostrophe swizzles.
pub open spec fn spec_name_char_ok(c: char) -> bool {
    ('a' <= c && c <= 'z') || c == '\''
}

/// Every character of the name is a letter or an apostrophe.
pub open spec fn spec_name_ok(name: Seq<char>) -> bool {
    forall|i: int| 0 <= i < name.len() ==> spec_name_char_ok(#[trigger] name[i])
}

/// The tanks are exactly the renderings of the names, in order: cells by
/// `spec_name_cells`, the name carried over, selector at Subtract and
/// accumulator at zero, each tank execution-ready.
pub open spec fn spec_tanks_match_names(tanks: Seq<Tank>, names: Seq<String>) -> bool {
    &&& tanks.len() == names.len()
    &&& (forall|q: int| 0 <= q < names.len() ==> spec_name_ok(#[trigger] names[q]@))
    &&& (forall|q: int|
        0 <= q < tanks.len() ==> (#[trigger] tanks[q])@.cells == spec_name_cells(names[q]@))
    &&& (forall|q: int| 0 <= q < tanks.len() ==> (#[trigger] tanks[q])@.name == names[q]@)
    &&& (forall|q: int|
        0 <= q < tanks.len() ==> (#[trigger] tanks[q])@.cycle_instr
            == crate::program::CycleInstruction::Subtract)
    &&& (forall|q: int| 0 <= q < tanks.len() ==> (#[trigger] tanks[q])@.acc == 0)
    &&& (forall|q: int| 0 <= q < tanks.len() ==> (#[trigger] tanks[q]).wf())
}

/// The failure report of the tank builder: the first name holding a
/// character that is neither a lowercase letter nor an apostrophe.
pub open spec fn spec_populate_error(e: crate::parser::ParseErrorModel, names: Seq<String>) -> bool {
    exists|q: int|
        {
            &&& 0 <= q < names.len()
            &&& !spec_name_ok(#[trigger] names[q]@)
            &&& (forall|p: int| 0 <= p < q ==> spec_name_ok(#[trigger] names[p]@))
            &&& e == crate::parser::ParseErrorModel::InvalidName(names[q]@)
        }
}

/// Renders one execution-ready tank per name, in order. Each tank's grid is
/// exactly `spec_name_cells` of its name, its selector starts at Subtract and
/// its accumulator at zero. Construction fails, reporting the first offending
/// name, exactly when some name holds a character that is neither a lowercase
/// letter nor an apostrophe.
pub fn populate_tanks(names: Vec<String>) -> (r: Result<Vec<Tank>, ParseError>)
    ensures
        (match r {
            Ok(tanks) => spec_tanks_match_names(tanks@, names@),
            Err(e) => spec_populate_error(e@, names@),
        }),
{
    let mut tanks: Vec<Tank> = Vec::new();
    let mut q: usize = 0;
    while q < names.len()
        invariant
            q <= names@.len(),
            tanks@.len() == q,
            forall|p: int| 0 <= p < q ==> spec_name_ok(#[trigger] names@[p]@),
            forall|p: int|
                0 <= p < tanks@.len() ==> (#[trigger] tanks@[p])@.cells == spec_name_cells(
                    names@[p]@,
                ),
            forall|p: int| 0 <= p < tanks@.len() ==> (#[trigger] tanks@[p])@.name == names@[p]@,
            forall|p: int|
                0 <= p < tanks@.len() ==> (#[trigger] tanks@[p])@.cycle_instr
                    == crate::program::CycleInstruction::Subtract,
            forall|p: int| 0 <= p < tanks@.len() ==> (#[trigger] tanks@[p])@.acc == 0,
            forall|p: int| 0 <= p < tanks@.len() ==> (#[trigger] tanks@[p]).wf(),
        decreases names@.len() - q,
    {
        let name = &names[q];
        let n = name.as_str().unicode_len();
        let mut t = Tank::new(name.clone(), grid_new(5, 4));
        proof {
            assert(t@.cells =~= spec_name_cells(name@.take(0)));
        }
        let mut k: usize = 0;
        while k < n
            invariant
                q < names@.len(),
                name@ == names@[q as int]@,
                forall|p: int| 0 <= p < q ==> spec_name_ok(#[trigger] names@[p]@),
                n == name@.len(),
                k <= n,
                t@.cells == spec_name_cells(name@.take(k as int)),
                t@.name == name@,
                t@.cycle_instr == crate::program::CycleInstruction::Subtract,
                t@.acc == 0,
                t.wf(),
                forall|i: int| 0 <= i < k ==> spec_name_char_ok(#[trigger] name@[i]),
            decreases n - k,
        {
            let c = name.as_str().get_char(k);
            let u = c as u32;
            proof {
                assert(name@.take(k as int + 1).drop_last() =~= name@.take(k as int));
                assert(name@.take(k as int + 1).last() == name@[k as int]);
                lemma_name_cells_bound(name@.take(k as int));
            }
            if u == 39 {
                // an apostrophe swizzles the grid accumulated so far
                t = t.swizzle();
            } else if 97 <= u && u <= 122 {
                // a lowercase letter adds its glyph in cell-wise
                let mask = font_mask_of(c);
                match Tank::from_mask_and_name(String::new(), mask) {
                    Ok(gt) => {
                        proof {
                            assert forall|i: int|
                                0 <= i < 20 implies ((#[trigger] t@.cells[i]) + gt@.cells[i]
                                <= usize::MAX) by {
                                let v = spec_hex_char_val(spec_font_mask(c)[i / 4]);
                                let s = ((3 - (i % 4)) as usize);
                                assert((v >> s) & 1 <= 1) by (bit_vector);
                            }
                        }
                        t = t.merge(&gt);
                    },
                    Err(e) => {
                        // unreachable: every glyph mask is valid hexadecimal
                        proof {
                            assert(false);
                        }
                        return Err(e);
                    },
                }
            } else {
                proof {
                    assert(!spec_name_char_ok(name@[k as int]));
                    assert(!spec_name_ok(name@));
                    let qi = q as int;
                    assert(0 <= qi < names@.len() && !spec_name_ok(names@[qi]@) && (forall|p: int|
                        0 <= p < qi ==> spec_name_ok(#[trigger] names@[p]@)));
                }
                return Err(ParseError::InvalidName(name.clone()));
            }
            k = k + 1;
        }
        proof {
            assert(name@.take(n as int) =~= name@);
        }
        tanks.push(t);
        q = q + 1;
    }
    Ok(tanks)
}

impl Tank {
    /// The cell at `row`, `col` of the 5 x 4 grid.
    pub fn cell_at(&self, row: usize, col: usize) -> (v: usize)
        requires
            self.wf(),
            row < 5,
            col < 4,
        ensures
            v == self@.cells[row as int * 4 + col as int],
    {
        grid_get(&self.grid, row, col)
    }

    /// Increments the accumulator by one.
    pub(crate) fn bump_acc(&mut self)
        requires
            old(self)@.acc < usize::MAX,
        ensures
            final(self)@.cells == old(self)@.cells,
            final(self)@.name == old(self)@.name,
            final(self)@.cycle_instr == old(self)@.cycle_instr,
            final(self)@.acc == old(self)@.acc + 1,
            final(self).gcols() == old(self).gcols(),
    {
        self.acc = self.acc + 1;
    }

    /// Advances the cycle-instruction selector one position.
    pub(crate) fn advance_cycle(&mut self)
        ensures
            final(self)@.cells == old(self)@.cells,
            final(self)@.name == old(self)@.name,
            final(self)@.cycle_instr == old(self)@.cycle_instr.spec_next(),
            final(self)@.acc == old(self)@.acc,
            final(self).gcols() == old(self).gcols(),
    {
        self.cycle_instr = self.cycle_instr.next();
    }
}

} // verus!
