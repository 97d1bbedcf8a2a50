//! Sprite drawing: the draw requests that a sprite makes, the rectangle that
//! a request covers on a scaled window, the pacing of frames, and a model of
//! the monochrome screen onto which requests are XORed.

use crate::machine::{Fault, Machine, MachineView, MEM_SIZE, NUM_REGS};
use vstd::prelude::*;

verus! {

/// Width of the logical pixel grid.
pub const SCREEN_WIDTH: u8 = 64;

/// Height of the logical pixel grid.
pub const SCREEN_HEIGHT: u8 = 32;

/// Number of pixels in one row of a sprite.
pub const SPRITE_WIDTH: u8 = 8;

/// Length of one frame in microseconds: 16.67 ms, for 60 frames per second.
pub const FRAME_MICROS: u64 = 16_667;

/// A request to the display: flip the pixel at column `x`, row `y` of the
/// logical grid.
#[derive(Clone, Copy, Debug, PartialEq, Eq, Structural)]
pub struct Pixel {
    pub x: u8,
    pub y: u8,
}

/// A rectangle of the window, by its top left corner and its size.
#[derive(Clone, Copy, Debug, PartialEq, Eq, Structural)]
pub struct Rect {
    pub x: i32,
    pub y: i32,
    pub w: u32,
    pub h: u32,
}

impl Pixel {
    /// The pixel lies on the logical grid.
    pub open spec fn on_screen(self) -> bool {
        self.x < SCREEN_WIDTH && self.y < SCREEN_HEIGHT
    }
}

/// Whether column `col` of a sprite row is set; column 0 is the most
/// significant bit.
pub open spec fn bit_set(line: u8, col: u8) -> bool {
    line & (0x80u8 >> col) != 0
}

/// The requests of the first `cols` columns of one sprite row, left to
/// right. The row starts at column `x` and wraps round at the right edge.
pub open spec fn row_pixels(line: u8, x: u8, y: u8, cols: nat) -> Seq<Pixel>
    decreases cols,
{
    if cols == 0 {
        Seq::empty()
    } else {
        let col = (cols - 1) as u8;
        let before = row_pixels(line, x, y, (cols - 1) as nat);
        if bit_set(line, col) {
            before.push(Pixel { x: ((x + col) % (SCREEN_WIDTH as int)) as u8, y })
        } else {
            before
        }
    }
}

/// The requests of the first `rows` rows of the sprite stored at address
/// `i`, top to bottom. The sprite starts at `(x, y)`; rows wrap round at the
/// bottom edge.
pub open spec fn sprite_pixels(memory: Seq<u8>, i: int, x: u8, y: u8, rows: nat) -> Seq<Pixel>
    decreases rows,
{
    if rows == 0 {
        Seq::empty()
    } else {
        let row = rows - 1;
        sprite_pixels(memory, i, x, y, row as nat) + row_pixels(
            memory[i + row],
            x,
            ((y + row) % (SCREEN_HEIGHT as int)) as u8,
            SPRITE_WIDTH as nat,
        )
    }
}

/// Every request of a sprite row lies on the grid, in the given row.
pub proof fn lemma_row_pixels_on_screen(line: u8, x: u8, y: u8, cols: nat)
    requires
        y < SCREEN_HEIGHT,
    ensures
        forall|k: int|
            0 <= k < row_pixels(line, x, y, cols).len() ==> (#[trigger] row_pixels(
                line,
                x,
                y,
                cols,
            )[k]).on_screen(),
        row_pixels(line, x, y, cols).len() <= cols,
    decreases cols,
{
    if cols > 0 {
        lemma_row_pixels_on_screen(line, x, y, (cols - 1) as nat);
    }
}

/// Every request of a sprite lies on the grid, and a sprite of `rows` rows
/// makes at most eight requests per row.
pub proof fn lemma_sprite_pixels_on_screen(memory: Seq<u8>, i: int, x: u8, y: u8, rows: nat)
    ensures
        forall|k: int|
            0 <= k < sprite_pixels(memory, i, x, y, rows).len() ==> (#[trigger] sprite_pixels(
                memory,
                i,
                x,
                y,
                rows,
            )[k]).on_screen(),
        sprite_pixels(memory, i, x, y, rows).len() <= SPRITE_WIDTH * rows,
    decreases rows,
{
    if rows > 0 {
        let row = rows - 1;
        lemma_sprite_pixels_on_screen(memory, i, x, y, row as nat);
        lemma_row_pixels_on_screen(
            memory[i + row],
            x,
            ((y + row) % (SCREEN_HEIGHT as int)) as u8,
            SPRITE_WIDTH as nat,
        );
    }
}

impl MachineView {
    /// Whether a sprite of `n` rows at the address register lies in memory.
    pub open spec fn sprite_in_memory(self, n: u8) -> bool {
        n == 0 || self.reg_i + n <= MEM_SIZE
    }

    /// The draw requests of the `n`-row sprite at the address register,
    /// placed at the position held in registers `reg1` and `reg2`.
    pub open spec fn sprite(self, reg1: int, reg2: int, n: u8) -> Seq<Pixel> {
        sprite_pixels(
            self.memory,
            self.reg_i as int,
            self.registers[reg1],
            self.registers[reg2],
            n as nat,
        )
    }
}

impl Machine {
    /// The draw requests of the `n`-row sprite stored at the address
    /// register, placed at the position held in registers `reg1` and `reg2`:
    /// one request for every set bit, row by row, the most significant bit
    /// first. Fails when a row of the sprite lies outside memory.
    pub fn draw(&self, reg1: u8, reg2: u8, n: u8) -> (res: Result<Vec<Pixel>, Fault>)
        requires
            self.wf(),
            reg1 < NUM_REGS,
            reg2 < NUM_REGS,
        ensures
            match res {
                Ok(requests) => self@.sprite_in_memory(n) && requests@ == self@.sprite(
                    reg1 as int,
                    reg2 as int,
                    n,
                ),
                Err(fault) => !self@.sprite_in_memory(n) && fault == Fault::AddressOutOfRange,
            },
    {
        let x: u8 = self.get_reg(reg1 as usize);
        let y: u8 = self.get_reg(reg2 as usize);
        let i: u16 = self.get_i();
        if n != 0 && i as usize + n as usize > MEM_SIZE {
            return Err(Fault::AddressOutOfRange);
        }
        let mut pixels: Vec<Pixel> = Vec::new();
        let mut row: u8 = 0;
        while row < n
            invariant
                self.wf(),
                row <= n,
                n != 0 ==> i + n <= MEM_SIZE,
                i == self@.reg_i,
                pixels@ == sprite_pixels(self@.memory, i as int, x, y, row as nat),
            decreases n - row,
        {
            let line: u8 = self.read_mem(i + row as u16);
            let py: u8 = ((y as u16 + row as u16) % (SCREEN_HEIGHT as u16)) as u8;
            let ghost before = pixels@;
            let mut mask: u8 = 1 << 7;
            let mut col: u8 = 0;
            proof {
                assert(1u8 << 7 == 0x80u8 >> 0u8) by (bit_vector);
            }
            while col < SPRITE_WIDTH
                invariant
                    col <= SPRITE_WIDTH,
                    mask == 0x80u8 >> col,
                    pixels@ == before + row_pixels(line, x, py, col as nat),
                decreases SPRITE_WIDTH - col,
            {
                let pixel: u8 = line & mask;
                if pixel != 0 {
                    let px: u8 = ((x as u16 + col as u16) % (SCREEN_WIDTH as u16)) as u8;
                    pixels.push(Pixel { x: px, y: py });
                }
                proof {
                    assert(col < 8 ==> (0x80u8 >> col) >> 1 == 0x80u8 >> ((col + 1) as u8))
                        by (bit_vector);
                    assert(pixels@ =~= before + row_pixels(line, x, py, (col + 1) as nat));
                }
                mask = mask >> 1;
                col += 1;
            }
            row += 1;
        }
        Ok(pixels)
    }
}

/// Number of pixels of the logical grid.
pub const SCREEN_PIXELS: usize = 64 * 32;

/// Where the pixel stands in the row-major sequence of the grid.
pub open spec fn pixel_index(p: Pixel) -> int {
    p.y * SCREEN_WIDTH + p.x
}

/// The grid after the pixel `p` has been flipped.
pub open spec fn toggled(screen: Seq<bool>, p: Pixel) -> Seq<bool> {
    screen.update(pixel_index(p), !screen[pixel_index(p)])
}

/// The grid after the requests have been XORed onto it, first to last.
pub open spec fn xored(screen: Seq<bool>, pixels: Seq<Pixel>) -> Seq<bool>
    decreases pixels.len(),
{
    if pixels.len() == 0 {
        screen
    } else {
        toggled(xored(screen, pixels.drop_last()), pixels.last())
    }
}

/// The requests of the list whose pixel on `screen` is lit, where `lit` is
/// true, or unlit, where it is false; in the order of the list.
pub open spec fn requests_in_state(pixels: Seq<Pixel>, screen: Seq<bool>, lit: bool) -> Seq<
    Pixel,
>
    decreases pixels.len(),
{
    if pixels.len() == 0 {
        Seq::empty()
    } else {
        let before = requests_in_state(pixels.drop_last(), screen, lit);
        if screen[pixel_index(pixels.last())] == lit {
            before.push(pixels.last())
        } else {
            before
        }
    }
}

/// Every request of the list lies on the grid.
pub open spec fn all_on_screen(pixels: Seq<Pixel>) -> bool {
    forall|k: int| 0 <= k < pixels.len() ==> (#[trigger] pixels[k]).on_screen()
}

/// The display as the machine's programs see it: a grid of
/// `SCREEN_WIDTH` by `SCREEN_HEIGHT` pixels, each lit or unlit, onto which
/// draw requests are XORed.
pub struct Screen {
    pixels: Vec<bool>,
}

impl View for Screen {
    type V = Seq<bool>;

    closed spec fn view(&self) -> Seq<bool> {
        self.pixels@
    }
}

impl Screen {
    /// The screen holds one state for every pixel of the grid.
    pub open spec fn wf(&self) -> bool {
        self@.len() == SCREEN_PIXELS
    }

    /// A screen with every pixel unlit.
    pub fn new() -> (screen: Screen)
        ensures
            screen.wf(),
            screen@ == Seq::new(SCREEN_PIXELS as nat, |k: int| false),
    {
        let screen = Screen { pixels: vec![false; SCREEN_PIXELS] };
        assert(screen@ =~= Seq::new(SCREEN_PIXELS as nat, |k: int| false));
        screen
    }

    /// Blanks the screen.
    pub fn clear(&mut self)
        ensures
            final(self).wf(),
            final(self)@ == Seq::new(SCREEN_PIXELS as nat, |k: int| false),
    {
        self.pixels = vec![false; SCREEN_PIXELS];
        assert(self@ =~= Seq::new(SCREEN_PIXELS as nat, |k: int| false));
    }

    /// Whether the pixel at column `x`, row `y` is lit.
    pub fn is_lit(&self, x: u8, y: u8) -> (lit: bool)
        requires
            self.wf(),
            x < SCREEN_WIDTH,
            y < SCREEN_HEIGHT,
        ensures
            lit == self@[pixel_index(Pixel { x, y })],
    {
        self.pixels[y as usize * 64 + x as usize]
    }

    /// Flips one pixel. Returns whether it is lit afterwards.
    pub fn toggle(&mut self, p: Pixel) -> (lit: bool)
        requires
            old(self).wf(),
            p.on_screen(),
        ensures
            final(self).wf(),
            final(self)@ == toggled(old(self)@, p),
            lit == !old(self)@[pixel_index(p)],
    {
        let k: usize = p.y as usize * 64 + p.x as usize;
        let lit: bool = !self.pixels[k];
        self.pixels[k] = lit;
        lit
    }

    /// XORs a list of draw requests onto the screen.
    pub fn xor_sprite(&mut self, pixels: &Vec<Pixel>)
        requires
            old(self).wf(),
            all_on_screen(pixels@),
        ensures
            final(self).wf(),
            final(self)@ == xored(old(self)@, pixels@),
    {
        let mut k: usize = 0;
        while k < pixels.len()
            invariant
                k <= pixels@.len(),
                self.wf(),
                all_on_screen(pixels@),
                self@ == xored(old(self)@, pixels@.take(k as int)),
            decreases pixels@.len() - k,
        {
            let p: Pixel = pixels[k];
            self.toggle(p);
            proof {
                assert(pixels@.take(k + 1).drop_last() =~= pixels@.take(k as int));
            }
            k += 1;
        }
        proof {
            assert(pixels@.take(k as int) =~= pixels@);
        }
    }
}

impl Screen {
    /// XORs a list of draw requests onto the screen and says how each
    /// requested pixel is to be painted: the first list holds the requests
    /// whose pixel is lit afterwards, the second those whose pixel is unlit.
    pub fn xor_split(&mut self, pixels: &Vec<Pixel>) -> (split: (Vec<Pixel>, Vec<Pixel>))
        requires
            old(self).wf(),
            all_on_screen(pixels@),
        ensures
            final(self).wf(),
            final(self)@ == xored(old(self)@, pixels@),
            split.0@ == requests_in_state(pixels@, final(self)@, true),
            split.1@ == requests_in_state(pixels@, final(self)@, false),
    {
        self.xor_sprite(pixels);
        let mut lit: Vec<Pixel> = Vec::new();
        let mut unlit: Vec<Pixel> = Vec::new();
        let mut k: usize = 0;
        while k < pixels.len()
            invariant
                k <= pixels@.len(),
                self.wf(),
                all_on_screen(pixels@),
                lit@ == requests_in_state(pixels@.take(k as int), self@, true),
                unlit@ == requests_in_state(pixels@.take(k as int), self@, false),
            decreases pixels@.len() - k,
        {
            let p: Pixel = pixels[k];
            proof {
                assert(pixels@.take(k + 1).drop_last() =~= pixels@.take(k as int));
            }
            if self.is_lit(p.x, p.y) {
                lit.push(p);
            } else {
                unlit.push(p);
            }
            k += 1;
        }
        proof {
            assert(pixels@.take(k as int) =~= pixels@);
        }
        (lit, unlit)
    }
}

/// Flipping a pixel first or after a list of requests comes to the same.
pub proof fn lemma_toggle_commutes(screen: Seq<bool>, pixels: Seq<Pixel>, p: Pixel)
    requires
        screen.len() == SCREEN_PIXELS,
        all_on_screen(pixels),
        p.on_screen(),
    ensures
        xored(toggled(screen, p), pixels) == toggled(xored(screen, pixels), p),
        xored(screen, pixels).len() == SCREEN_PIXELS,
    decreases pixels.len(),
{
    if pixels.len() > 0 {
        let q = pixels.last();
        assert(q.on_screen());
        lemma_toggle_commutes(screen, pixels.drop_last(), p);
        let inner = xored(screen, pixels.drop_last());
        assert(toggled(toggled(inner, p), q) =~= toggled(toggled(inner, q), p));
    }
}

/// XOR is its own inverse: the same requests XORed onto the screen twice
/// leave it as it was.
pub proof fn lemma_xor_twice(screen: Seq<bool>, pixels: Seq<Pixel>)
    requires
        screen.len() == SCREEN_PIXELS,
        all_on_screen(pixels),
    ensures
        xored(xored(screen, pixels), pixels) == screen,
    decreases pixels.len(),
{
    if pixels.len() > 0 {
        let p = pixels.last();
        let rest = pixels.drop_last();
        assert(p.on_screen());
        let once = xored(screen, rest);
        lemma_toggle_commutes(screen, rest, p);
        lemma_toggle_commutes(once, rest, p);
        lemma_xor_twice(screen, rest);
        assert(toggled(toggled(screen, p), p) =~= screen);
    }
}

/// XORing one list of requests and then another is XORing the two lists
/// joined.
pub proof fn lemma_xored_concat(screen: Seq<bool>, first: Seq<Pixel>, second: Seq<Pixel>)
    ensures
        xored(screen, first + second) == xored(xored(screen, first), second),
    decreases second.len(),
{
    if second.len() == 0 {
        assert(first + second =~= first);
    } else {
        lemma_xored_concat(screen, first, second.drop_last());
        assert((first + second).drop_last() =~= first + second.drop_last());
        assert((first + second).last() == second.last());
    }
}

/// Whether the first `cols` columns of a sprite row flip the pixel that
/// stands at place `k` of the grid: the pixel lies in the row `y`, one of
/// the columns lands on it, and the bit of that column is set.
pub open spec fn row_flips(line: u8, x: u8, y: u8, cols: nat, k: int) -> bool {
    let col = ((k % 64) - x) % 64;
    k / 64 == y && col < cols && bit_set(line, col as u8)
}

/// Whether the first `rows` rows of a sprite flip the pixel that stands at
/// place `k` of the grid: one of the rows and one of its eight columns land
/// on it, and the bit of that column in that row is set.
pub open spec fn sprite_flips(memory: Seq<u8>, i: int, x: u8, y: u8, rows: nat, k: int) -> bool {
    let row = ((k / 64) - y) % 32;
    let col = ((k % 64) - x) % 64;
    row < rows && col < SPRITE_WIDTH && bit_set(memory[i + row], col as u8)
}

/// The pixel at place `k` is the one on which column `col` of a row drawn
/// at `(x, y)` lands exactly if it lies in row `y` and `col` columns to the
/// right of `x`, round the edge.
pub proof fn lemma_column_of_place(x: u8, y: u8, col: u8, k: int)
    requires
        y < SCREEN_HEIGHT,
        col < SPRITE_WIDTH,
        0 <= k < SCREEN_PIXELS,
    ensures
        k == pixel_index(Pixel { x: ((x + col) % 64) as u8, y }) <==> (k / 64 == y && ((k % 64)
            - x) % 64 == col),
{
    let px = (x + col) % 64;
    assert(pixel_index(Pixel { x: px as u8, y }) == y * 64 + px);
    if k / 64 == y && ((k % 64) - x) % 64 == col {
        assert(k % 64 == px);
        assert(k == y * 64 + px);
    }
    if k == y * 64 + px {
        assert(k / 64 == y);
        assert(k % 64 == px);
        assert((px - x) % 64 == col);
    }
}

/// The pixel at place `k` lies in the row of the screen on which row `row`
/// of a sprite drawn at height `y` lands exactly if it lies `row` rows
/// below `y`, round the edge.
pub proof fn lemma_row_of_place(y: u8, row: int, k: int)
    requires
        0 <= row < SCREEN_HEIGHT,
        0 <= k < SCREEN_PIXELS,
    ensures
        k / 64 == (y + row) % 32 <==> ((k / 64) - y) % 32 == row,
{
    let line = k / 64;
    assert(0 <= line < 32);
    if line == (y + row) % 32 {
        assert((line - y) % 32 == row);
    }
    if (line - y) % 32 == row {
        assert(line == (y + row) % 32);
    }
}

/// A sprite row XORed onto the screen flips exactly the pixels that its set
/// bits land on, and leaves every other pixel as it was.
#[verifier::rlimit(50)]
pub proof fn lemma_row_xor_cells(screen: Seq<bool>, line: u8, x: u8, y: u8, cols: nat, k: int)
    requires
        screen.len() == SCREEN_PIXELS,
        y < SCREEN_HEIGHT,
        cols <= SPRITE_WIDTH,
        0 <= k < SCREEN_PIXELS,
    ensures
        xored(screen, row_pixels(line, x, y, cols)).len() == SCREEN_PIXELS,
        xored(screen, row_pixels(line, x, y, cols))[k] == (screen[k] != row_flips(
            line,
            x,
            y,
            cols,
            k,
        )),
    decreases cols,
{
    if cols > 0 {
        let col = (cols - 1) as u8;
        let before = row_pixels(line, x, y, (cols - 1) as nat);
        lemma_row_xor_cells(screen, line, x, y, (cols - 1) as nat, k);
        let p = Pixel { x: ((x + col) % 64) as u8, y };
        lemma_column_of_place(x, y, col, k);
        if bit_set(line, col) {
            assert(before.push(p).drop_last() =~= before);
            assert(xored(screen, before.push(p)) == toggled(xored(screen, before), p));
            assert(0 <= pixel_index(p) < SCREEN_PIXELS);
        }
    }
}

/// A sprite XORed onto the screen flips exactly the pixels that its set
/// bits land on, and leaves every other pixel as it was. This holds of a
/// sprite of up to `SCREEN_HEIGHT` rows, of which no two land on the same
/// row of the screen.
#[verifier::rlimit(50)]
pub proof fn lemma_sprite_xor_cells(
    screen: Seq<bool>,
    memory: Seq<u8>,
    i: int,
    x: u8,
    y: u8,
    rows: nat,
    k: int,
)
    requires
        screen.len() == SCREEN_PIXELS,
        rows <= SCREEN_HEIGHT,
        0 <= k < SCREEN_PIXELS,
    ensures
        xored(screen, sprite_pixels(memory, i, x, y, rows)).len() == SCREEN_PIXELS,
        xored(screen, sprite_pixels(memory, i, x, y, rows))[k] == (screen[k] != sprite_flips(
            memory,
            i,
            x,
            y,
            rows,
            k,
        )),
    decreases rows,
{
    if rows > 0 {
        let row = rows - 1;
        let above = sprite_pixels(memory, i, x, y, row as nat);
        let py = ((y + row) % 32) as u8;
        let line = memory[i + row];
        let this_row = row_pixels(line, x, py, SPRITE_WIDTH as nat);
        lemma_sprite_xor_cells(screen, memory, i, x, y, row as nat, k);
        lemma_xored_concat(screen, above, this_row);
        lemma_row_xor_cells(xored(screen, above), line, x, py, SPRITE_WIDTH as nat, k);
        lemma_row_of_place(y, row, k);
        let hit_row = ((k / 64) - y) % 32;
        let hit_col = ((k % 64) - x) % 64;
        assert(row_flips(line, x, py, SPRITE_WIDTH as nat, k) == (hit_row == row && hit_col < 8
            && bit_set(line, hit_col as u8)));
        assert(sprite_flips(memory, i, x, y, rows, k) == (sprite_flips(
            memory,
            i,
            x,
            y,
            row as nat,
            k,
        ) != row_flips(line, x, py, SPRITE_WIDTH as nat, k)));
    }
}

/// The place on the grid of the pixel on which column `c` of row `r` of a
/// sprite lands that is drawn at `(x, y)`: both coordinates wrap round.
pub open spec fn landing(x: u8, y: u8, r: int, c: int) -> int {
    ((y + r) % 32) * 64 + (x + c) % 64
}

/// From the place on which a row and a column of a sprite land, the row and
/// the column are found again.
pub proof fn lemma_landing(x: u8, y: u8, r: int, c: int)
    requires
        0 <= r < SCREEN_HEIGHT,
        0 <= c < SCREEN_WIDTH,
    ensures
        0 <= landing(x, y, r, c) < SCREEN_PIXELS,
        ((landing(x, y, r, c) / 64) - y) % 32 == r,
        ((landing(x, y, r, c) % 64) - x) % 64 == c,
{
    let k = landing(x, y, r, c);
    let row = (y + r) % 32;
    let col = (x + c) % 64;
    assert(k == row * 64 + col);
    assert(k / 64 == row);
    assert(k % 64 == col);
    assert((row - y) % 32 == r);
    assert((col - x) % 64 == c);
}

/// The pixel on which column `c` of row `r` of a sprite lands becomes its
/// old value XOR the bit of that column in that row.
pub proof fn lemma_sprite_xor_bits(
    screen: Seq<bool>,
    memory: Seq<u8>,
    i: int,
    x: u8,
    y: u8,
    rows: nat,
    r: int,
    c: int,
)
    requires
        screen.len() == SCREEN_PIXELS,
        rows <= SCREEN_HEIGHT,
        0 <= r < rows,
        0 <= c < SPRITE_WIDTH,
    ensures
        0 <= landing(x, y, r, c) < SCREEN_PIXELS,
        xored(screen, sprite_pixels(memory, i, x, y, rows))[landing(x, y, r, c)] == (screen[landing(
            x,
            y,
            r,
            c,
        )] != bit_set(memory[i + r], c as u8)),
{
    lemma_landing(x, y, r, c);
    lemma_sprite_xor_cells(screen, memory, i, x, y, rows, landing(x, y, r, c));
}

/// Width and height in window pixels of the display at the given scale.
pub fn window_size(scale: u8) -> (size: (u32, u32))
    ensures
        size.0 == scale * SCREEN_WIDTH,
        size.1 == scale * SCREEN_HEIGHT,
{
    let width: u32 = (scale as u32) * 64;
    let height: u32 = (scale as u32) * 32;
    (width, height)
}

/// The square of window pixels that the logical pixel `(x, y)` covers at the
/// given scale.
pub fn draw_pixel(x: u8, y: u8, scale: u8) -> (rect: Rect)
    ensures
        rect.x == x * scale,
        rect.y == y * scale,
        rect.w == scale,
        rect.h == scale,
{
    assert(x * scale <= 255 * 255 && y * scale <= 255 * 255) by (nonlinear_arith)
        requires
            x <= 255,
            y <= 255,
            scale <= 255,
    ;
    let j: u32 = (y as u32) * (scale as u32);
    let i: u32 = (x as u32) * (scale as u32);
    Rect { x: i as i32, y: j as i32, w: scale as u32, h: scale as u32 }
}

/// The rectangles of a list of draw requests, one for one and in order.
pub fn rectangles(pixels: &Vec<Pixel>, scale: u8) -> (rects: Vec<Rect>)
    ensures
        rects@.len() == pixels@.len(),
        forall|k: int|
            0 <= k < pixels@.len() ==> {
                &&& (#[trigger] rects@[k]).x == pixels@[k].x * scale
                &&& rects@[k].y == pixels@[k].y * scale
                &&& rects@[k].w == scale
                &&& rects@[k].h == scale
            },
{
    let mut rects: Vec<Rect> = Vec::new();
    let mut k: usize = 0;
    while k < pixels.len()
        invariant
            k <= pixels@.len(),
            rects@.len() == k,
            forall|j: int|
                0 <= j < k ==> {
                    &&& (#[trigger] rects@[j]).x == pixels@[j].x * scale
                    &&& rects@[j].y == pixels@[j].y * scale
                    &&& rects@[j].w == scale
                    &&& rects@[j].h == scale
                },
        decreases pixels@.len() - k,
    {
        let p: Pixel = pixels[k];
        rects.push(draw_pixel(p.x, p.y, scale));
        k += 1;
    }
    rects
}

/// How long a draw has to wait before the program goes on, in
/// microseconds, when `elapsed_micros` microseconds have gone by since the
/// draw before it ended: what is left of the frame of `FRAME_MICROS`, or
/// nothing when the frame is already over. After the wait the time that has
/// gone by is counted from anew.
pub fn frame_delay(elapsed_micros: u64) -> (wait: Option<u64>)
    ensures
        wait == frame_wait(elapsed_micros as int),
        wait == if elapsed_micros < FRAME_MICROS {
            Some((FRAME_MICROS - elapsed_micros) as u64)
        } else {
            None::<u64>
        },
{
    if FRAME_MICROS > elapsed_micros {
        Some(FRAME_MICROS - elapsed_micros)
    } else {
        None
    }
}

/// What is left of a frame after `elapsed_micros` microseconds, if
/// anything.
pub open spec fn frame_wait(elapsed_micros: int) -> Option<u64> {
    if elapsed_micros < FRAME_MICROS {
        Some((FRAME_MICROS - elapsed_micros) as u64)
    } else {
        None
    }
}

/// The clock that paces the draws: it holds the reading, in microseconds,
/// of a clock that never runs backwards, taken when the draw before ended
/// (or when the machine was made).
#[derive(Clone, Copy, Debug, PartialEq, Eq, Structural)]
pub struct FrameClock {
    pub last_frame: u64,
}

impl FrameClock {
    /// The time gone by between the end of the draw before and `now`.
    pub open spec fn elapsed_at(self, now: u64) -> int {
        if now >= self.last_frame {
            now - self.last_frame
        } else {
            0
        }
    }

    /// A clock that counts from `now`.
    pub fn new(now: u64) -> (clock: FrameClock)
        ensures
            clock.last_frame == now,
    {
        FrameClock { last_frame: now }
    }

    /// How long the draw that has just been presented, at the reading
    /// `now`, has to wait: what is left of the frame that began when the
    /// draw before ended, and nothing if that frame is over.
    pub fn delay(&self, now: u64) -> (wait: Option<u64>)
        ensures
            wait == frame_wait(self.elapsed_at(now)),
    {
        let elapsed: u64 = if now >= self.last_frame {
            now - self.last_frame
        } else {
            0
        };
        frame_delay(elapsed)
    }

    /// The draw has ended, wait included, at the reading `now`: the next
    /// frame is counted from there.
    pub fn restart(&mut self, now: u64)
        ensures
            final(self).last_frame == now,
    {
        self.last_frame = now;
    }
}

} // verus!
