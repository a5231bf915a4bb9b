use vstd::prelude::*;
use crate::scene::Area;
use crate::text::chars_of;

verus! {

/// Width of every sprite frame, in pixels (one pixel is one terminal cell at scale 1).
pub const WIDTH: u16 = 16;
/// Height of every sprite frame, in pixels.
pub const HEIGHT: u16 = 6;
/// Width of the laptop frames.
pub const CODING_WIDTH: u16 = WIDTH;
/// Height of the laptop frames.
pub const CODING_HEIGHT: u16 = HEIGHT;
/// Width of the suited frames.
pub const SUIT_WIDTH: u16 = WIDTH;
/// Height of the suited frames.
pub const SUIT_HEIGHT: u16 = HEIGHT;

/// Number of frames of the walking animation.
pub const WALK_FRAMES: usize = 4;
/// Number of frames of the coding-on-a-laptop animation.
pub const CODING_FRAMES: usize = 3;
/// Number of frames of the suited animation.
pub const SUIT_FRAMES: usize = 4;

/// Number of frames of the walking animation.
pub fn frame_count() -> (n: usize)
    ensures
        n == WALK_FRAMES,
{
    WALK_FRAMES
}

/// Number of frames of the laptop animation.
pub fn coding_frame_count() -> (n: usize)
    ensures
        n == CODING_FRAMES,
{
    CODING_FRAMES
}

/// Number of frames of the suited animation.
pub fn suit_frame_count() -> (n: usize)
    ensures
        n == SUIT_FRAMES,
{
    SUIT_FRAMES
}

/// The scale actually used for a requested scale: at least one cell per pixel.
pub open spec fn effective_scale(scale: u16) -> u16 {
    if scale < 1 { 1 } else { scale }
}

/// The walking mascot at one frame of its animation and one scale.
pub struct Clawd {
    frame: usize,
    scale: u16,
}

impl Clawd {
    /// The frame shown.
    pub closed spec fn frame_index(self) -> usize {
        self.frame
    }

    /// Cells per pixel.
    pub closed spec fn scale_factor(self) -> u16 {
        self.scale
    }

    /// The walking mascot at animation step `frame` (wrapped onto the frames there are),
    /// drawn with `scale` cells per pixel (at least one).
    pub fn scaled(frame: usize, scale: u16) -> (c: Self)
        ensures
            c.frame_index() == frame % WALK_FRAMES,
            c.scale_factor() == effective_scale(scale),
    {
        Clawd { frame: frame % WALK_FRAMES, scale: if scale < 1 { 1 } else { scale } }
    }

    /// The frame shown.
    pub fn frame(&self) -> (r: usize)
        ensures
            r == self.frame_index(),
    {
        self.frame
    }

    /// Cells per pixel.
    pub fn scale(&self) -> (r: u16)
        ensures
            r == self.scale_factor(),
    {
        self.scale
    }
}

/// The laptop mascot at one frame of its animation and one scale.
pub struct CodingClawd {
    frame: usize,
    scale: u16,
}

impl CodingClawd {
    /// The frame shown.
    pub closed spec fn frame_index(self) -> usize {
        self.frame
    }

    /// Cells per pixel.
    pub closed spec fn scale_factor(self) -> u16 {
        self.scale
    }

    /// The laptop mascot at animation step `frame` (wrapped onto the frames there are),
    /// drawn with `scale` cells per pixel (at least one).
    pub fn scaled(frame: usize, scale: u16) -> (c: Self)
        ensures
            c.frame_index() == frame % CODING_FRAMES,
            c.scale_factor() == effective_scale(scale),
    {
        CodingClawd { frame: frame % CODING_FRAMES, scale: if scale < 1 { 1 } else { scale } }
    }

    /// The frame shown.
    pub fn frame(&self) -> (r: usize)
        ensures
            r == self.frame_index(),
    {
        self.frame
    }

    /// Cells per pixel.
    pub fn scale(&self) -> (r: u16)
        ensures
            r == self.scale_factor(),
    {
        self.scale
    }
}

/// The suited mascot at one frame of its animation and one scale.
pub struct SuitClawd {
    frame: usize,
    scale: u16,
}

impl SuitClawd {
    /// The frame shown.
    pub closed spec fn frame_index(self) -> usize {
        self.frame
    }

    /// Cells per pixel.
    pub closed spec fn scale_factor(self) -> u16 {
        self.scale
    }

    /// The suited mascot at animation step `frame` (wrapped onto the frames there are),
    /// drawn with `scale` cells per pixel (at least one).
    pub fn scaled(frame: usize, scale: u16) -> (c: Self)
        ensures
            c.frame_index() == frame % SUIT_FRAMES,
            c.scale_factor() == effective_scale(scale),
    {
        SuitClawd { frame: frame % SUIT_FRAMES, scale: if scale < 1 { 1 } else { scale } }
    }

    /// The frame shown.
    pub fn frame(&self) -> (r: usize)
        ensures
            r == self.frame_index(),
    {
        self.frame
    }

    /// Cells per pixel.
    pub fn scale(&self) -> (r: u16)
        ensures
            r == self.scale_factor(),
    {
        self.scale
    }
}

// ---------------------------------------------------------------------------
// Sprite pixels
// ---------------------------------------------------------------------------

/// A colour as red, green and blue.
#[derive(Clone, Copy, PartialEq, Eq, Structural, Debug)]
pub struct Rgb {
    pub r: u8,
    pub g: u8,
    pub b: u8,
}

/// The colour of a sprite character: `#` body, `@` laptop, `+` screen, `*` code,
/// `S` suit, `%` shirt, `!` tie (in the body's colour); other characters are
/// transparent.
pub open spec fn pixel_color(c: char) -> Option<Rgb> {
    if c == '#' || c == '!' {
        Some(Rgb { r: 216, g: 122, b: 88 })
    } else if c == '@' {
        Some(Rgb { r: 84, g: 88, b: 96 })
    } else if c == '+' {
        Some(Rgb { r: 54, g: 148, b: 218 })
    } else if c == '*' {
        Some(Rgb { r: 154, g: 230, b: 180 })
    } else if c == 'S' {
        Some(Rgb { r: 28, g: 32, b: 40 })
    } else if c == '%' {
        Some(Rgb { r: 238, g: 238, b: 228 })
    } else {
        None
    }
}

/// The colour of a sprite character (see `pixel_color`).
pub fn color_for(pixel: char) -> (r: Option<Rgb>)
    ensures
        r == pixel_color(pixel),
{
    match pixel {
        '#' => Some(Rgb { r: 216, g: 122, b: 88 }),
        '@' => Some(Rgb { r: 84, g: 88, b: 96 }),
        '+' => Some(Rgb { r: 54, g: 148, b: 218 }),
        '*' => Some(Rgb { r: 154, g: 230, b: 180 }),
        'S' => Some(Rgb { r: 28, g: 32, b: 40 }),
        '%' => Some(Rgb { r: 238, g: 238, b: 228 }),
        '!' => Some(Rgb { r: 216, g: 122, b: 88 }),
        _ => None,
    }
}

/// The line of the character at `i` of a sprite's text: the newlines before it.
pub open spec fn char_row(s: Seq<char>, i: int) -> nat
    decreases i,
{
    if i <= 0 {
        0
    } else if s[i - 1] == '\n' {
        char_row(s, i - 1) + 1
    } else {
        char_row(s, i - 1)
    }
}

/// The column of the character at `i` of a sprite's text: the characters between it
/// and the newline before it.
pub open spec fn char_col(s: Seq<char>, i: int) -> nat
    decreases i,
{
    if i <= 0 {
        0
    } else if s[i - 1] == '\n' {
        0
    } else {
        char_col(s, i - 1) + 1
    }
}

/// A terminal cell to be painted.
#[derive(Clone, Copy, PartialEq, Eq, Structural, Debug)]
pub struct PaintedCell {
    pub x: u16,
    pub y: u16,
    pub color: Rgb,
}

/// The cells of row `y` from column `x0` up to (not including) `xe` that lie inside
/// `area`, from left to right.
pub open spec fn row_cells(area: Area, color: Rgb, y: u16, x0: int, xe: int) -> Seq<PaintedCell>
    decreases xe - x0,
{
    if xe <= x0 {
        Seq::empty()
    } else {
        let prev = row_cells(area, color, y, x0, xe - 1);
        let x = xe - 1;
        if x < area.right_edge() && y < area.bottom_edge() {
            prev.push(PaintedCell { x: x as u16, y, color })
        } else {
            prev
        }
    }
}

/// The cells of rows `y0` up to (not including) `ye`, columns `x0` to `xe`, inside
/// `area`, row by row.
pub open spec fn block_cells(area: Area, color: Rgb, x0: int, xe: int, y0: int, ye: int) -> Seq<PaintedCell>
    decreases ye - y0,
{
    if ye <= y0 {
        Seq::empty()
    } else {
        block_cells(area, color, x0, xe, y0, ye - 1) + row_cells(area, color, (ye - 1) as u16, x0, xe)
    }
}

/// The cells that the character at `i` of a sprite's text paints: for a coloured
/// character at line `row` and column `col` (each taken as a `u16`, that is modulo
/// 2^16), the `scale` x `scale` block whose corner is `scale` cells per line and column
/// from the area's corner (cut at `u16::MAX` and at the area's edges).
pub open spec fn char_cells(s: Seq<char>, i: int, area: Area, scale: u16) -> Seq<PaintedCell> {
    match pixel_color(s[i]) {
        Some(color) => {
            let x0 = area.x + (char_col(s, i) % 0x10000) * scale;
            let y0 = area.y + (char_row(s, i) % 0x10000) * scale;
            let xe = if x0 + scale > u16::MAX { u16::MAX as int } else { x0 + scale };
            let ye = if y0 + scale > u16::MAX { u16::MAX as int } else { y0 + scale };
            block_cells(area, color, x0, xe, y0, ye)
        },
        None => Seq::empty(),
    }
}

/// The cells painted for the first `i` characters of a sprite's text.
pub open spec fn frame_cells(s: Seq<char>, i: int, area: Area, scale: u16) -> Seq<PaintedCell>
    decreases i,
{
    if i <= 0 {
        Seq::empty()
    } else {
        frame_cells(s, i - 1, area, scale) + char_cells(s, i - 1, area, scale)
    }
}

/// Whether every coloured character of a sprite's text has its block's corner within
/// `u16` coordinates (line and column taken as `u16`).
pub open spec fn pixels_fit(s: Seq<char>, area: Area, scale: u16) -> bool {
    forall|i: int|
        0 <= i < s.len() && (#[trigger] pixel_color(s[i])) is Some ==> {
            &&& area.x + (char_col(s, i) % 0x10000) * scale <= u16::MAX
            &&& area.y + (char_row(s, i) % 0x10000) * scale <= u16::MAX
        }
}

/// Neither the line nor the column of a character lies beyond its position in the text.
pub proof fn lemma_row_col_bounds(s: Seq<char>, i: int)
    requires
        0 <= i <= s.len(),
    ensures
        char_row(s, i) <= i,
        char_col(s, i) <= i,
    decreases i,
{
    if i > 0 {
        lemma_row_col_bounds(s, i - 1);
    }
}

/// Whether the coloured characters of `frame` all have their block's corner within
/// `u16` coordinates (see `pixels_fit`).
pub fn frame_fits(frame: &str, area: Area, scale: u16) -> (r: bool)
    ensures
        r == pixels_fit(frame@, area, scale),
{
    let v = chars_of(frame);
    let ghost s = v@;
    let mut row: u64 = 0;
    let mut col: u64 = 0;
    let mut i: usize = 0;
    while i < v.len()
        invariant
            s == v@,
            s == frame@,
            i <= v.len(),
            row == char_row(s, i as int),
            col == char_col(s, i as int),
            forall|k: int|
                0 <= k < i && (#[trigger] pixel_color(s[k])) is Some ==> {
                    &&& area.x + (char_col(s, k) % 0x10000) * scale <= u16::MAX
                    &&& area.y + (char_row(s, k) % 0x10000) * scale <= u16::MAX
                },
        decreases v.len() - i,
    {
        proof {
            lemma_row_col_bounds(s, i as int);
        }
        let c = v[i];
        if color_for(c).is_some() {
            let col16 = col % 0x10000;
            let row16 = row % 0x10000;
            assert(col16 * scale as u64 <= 0xFFFF * 0xFFFF) by (nonlinear_arith)
                requires
                    col16 <= 0xFFFF,
                    scale <= 0xFFFF,
            ;
            assert(row16 * scale as u64 <= 0xFFFF * 0xFFFF) by (nonlinear_arith)
                requires
                    row16 <= 0xFFFF,
                    scale <= 0xFFFF,
            ;
            let x_end = area.x as u64 + col16 * scale as u64;
            let y_end = area.y as u64 + row16 * scale as u64;
            if x_end > 0xFFFF || y_end > 0xFFFF {
                return false;
            }
        }
        if c == '\n' {
            row = row + 1;
            col = 0;
        } else {
            col = col + 1;
        }
        i = i + 1;
    }
    true
}

/// The cells that drawing the sprite `frame` at `scale` into `area` paints, in painting
/// order: each coloured character's block (see `char_cells`), character by character.
pub fn render_pixels(frame: &str, area: Area, scale: u16) -> (cells: Vec<PaintedCell>)
    requires
        pixels_fit(frame@, area, scale),
    ensures
        cells@ == frame_cells(frame@, frame@.len() as int, area, scale),
{
    let v = chars_of(frame);
    let ghost s = v@;
    let right = area.right();
    let bottom = area.bottom();
    let mut out: Vec<PaintedCell> = Vec::new();
    let mut row: usize = 0;
    let mut col: usize = 0;
    let mut i: usize = 0;
    while i < v.len()
        invariant
            s == v@,
            s == frame@,
            pixels_fit(s, area, scale),
            i <= v.len(),
            right == area.right_edge(),
            bottom == area.bottom_edge(),
            row == char_row(s, i as int),
            col == char_col(s, i as int),
            out@ == frame_cells(s, i as int, area, scale),
        decreases v.len() - i,
    {
        proof {
            lemma_row_col_bounds(s, i as int);
        }
        let c = v[i];
        let ghost before = out@;
        match color_for(c) {
            Some(color) => {
                assert(pixel_color(s[i as int]) is Some);
                assert((col % 0x10000) * scale <= u16::MAX && (row % 0x10000) * scale <= u16::MAX);
                assert(#[verifier::truncate] (col as u16) == col % 0x10000) by (bit_vector);
                assert(#[verifier::truncate] (row as u16) == row % 0x10000) by (bit_vector);
                let col16 = #[verifier::truncate] (col as u16);
                let row16 = #[verifier::truncate] (row as u16);
                let x0: u16 = area.x + col16 * scale;
                let y0: u16 = area.y + row16 * scale;
                let xe = x0.saturating_add(scale);
                let ye = y0.saturating_add(scale);
                let mut sy = y0;
                while sy < ye
                    invariant
                        y0 <= sy <= ye,
                        x0 <= xe,
                        right == area.right_edge(),
                        bottom == area.bottom_edge(),
                        out@ == before + block_cells(area, color, x0 as int, xe as int, y0 as int, sy as int),
                    decreases ye - sy,
                {
                    let ghost row_start = out@;
                    let mut sx = x0;
                    while sx < xe
                        invariant
                            x0 <= sx <= xe,
                            y0 <= sy < ye,
                            right == area.right_edge(),
                            bottom == area.bottom_edge(),
                            out@ == row_start + row_cells(area, color, sy, x0 as int, sx as int),
                        decreases xe - sx,
                    {
                        if !(sx >= right || sy >= bottom) {
                            out.push(PaintedCell { x: sx, y: sy, color });
                        }
                        proof {
                            assert(out@ =~= row_start + row_cells(area, color, sy, x0 as int, sx + 1));
                        }
                        sx = sx + 1;
                    }
                    proof {
                        assert(out@ =~= before + block_cells(area, color, x0 as int, xe as int, y0 as int, sy + 1));
                    }
                    sy = sy + 1;
                }
                proof {
                    assert(char_cells(s, i as int, area, scale) == block_cells(area, color, x0 as int, xe as int, y0 as int, ye as int));
                }
            },
            None => {},
        }
        proof {
            assert(out@ =~= frame_cells(s, i + 1, area, scale));
        }
        if c == '\n' {
            row = row + 1;
            col = 0;
        } else {
            col = col + 1;
        }
        i = i + 1;
    }
    out
}

/// Whether every cell of `cells` lies inside `area`.
pub open spec fn cells_inside(cells: Seq<PaintedCell>, area: Area) -> bool {
    forall|k: int|
        0 <= k < cells.len() ==> {
            &&& area.x <= (#[trigger] cells[k]).x < area.right_edge()
            &&& area.y <= cells[k].y < area.bottom_edge()
        }
}

proof fn lemma_row_cells_inside(area: Area, color: Rgb, y: u16, x0: int, xe: int)
    requires
        area.x <= x0,
        area.y <= y,
    ensures
        cells_inside(row_cells(area, color, y, x0, xe), area),
    decreases xe - x0,
{
    if xe > x0 {
        lemma_row_cells_inside(area, color, y, x0, xe - 1);
    }
}

proof fn lemma_block_cells_inside(area: Area, color: Rgb, x0: int, xe: int, y0: int, ye: int)
    requires
        area.x <= x0,
        area.y <= y0,
        ye <= u16::MAX + 1,
    ensures
        cells_inside(block_cells(area, color, x0, xe, y0, ye), area),
    decreases ye - y0,
{
    if ye > y0 {
        lemma_block_cells_inside(area, color, x0, xe, y0, ye - 1);
        lemma_row_cells_inside(area, color, (ye - 1) as u16, x0, xe);
        let a = block_cells(area, color, x0, xe, y0, ye - 1);
        let b = row_cells(area, color, (ye - 1) as u16, x0, xe);
        assert forall|k: int| 0 <= k < (a + b).len() implies {
            &&& area.x <= (#[trigger] (a + b)[k]).x < area.right_edge()
            &&& area.y <= (a + b)[k].y < area.bottom_edge()
        } by {
            if k < a.len() {
                assert((a + b)[k] == a[k]);
            } else {
                assert((a + b)[k] == b[k - a.len()]);
            }
        }
    }
}

/// Drawing a sprite never paints outside the area it is drawn into.
pub proof fn lemma_render_stays_inside(s: Seq<char>, i: int, area: Area, scale: u16)
    requires
        0 <= i <= s.len(),
    ensures
        cells_inside(frame_cells(s, i, area, scale), area),
    decreases i,
{
    if i > 0 {
        lemma_render_stays_inside(s, i - 1, area, scale);
        let a = frame_cells(s, i - 1, area, scale);
        let b = char_cells(s, i - 1, area, scale);
        match pixel_color(s[i - 1]) {
            Some(color) => {
                let x0 = area.x + (char_col(s, i - 1) % 0x10000) * scale;
                let y0 = area.y + (char_row(s, i - 1) % 0x10000) * scale;
                let xe = if x0 + scale > u16::MAX { u16::MAX as int } else { x0 + scale };
                let ye = if y0 + scale > u16::MAX { u16::MAX as int } else { y0 + scale };
                assert((char_row(s, i - 1) % 0x10000) * scale >= 0) by (nonlinear_arith);
                assert((char_col(s, i - 1) % 0x10000) * scale >= 0) by (nonlinear_arith);
                lemma_block_cells_inside(area, color, x0, xe, y0, ye);
            },
            None => {},
        }
        assert forall|k: int| 0 <= k < (a + b).len() implies {
            &&& area.x <= (#[trigger] (a + b)[k]).x < area.right_edge()
            &&& area.y <= (a + b)[k].y < area.bottom_edge()
        } by {
            if k < a.len() {
                assert((a + b)[k] == a[k]);
            } else {
                assert((a + b)[k] == b[k - a.len()]);
            }
        }
    }
}

} // verus!
