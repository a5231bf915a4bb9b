use vstd::prelude::*;
use image::{ImageBuffer, RgbaImage};
use crate::text::chars_of;
use crate::clawd::{char_row, char_col, lemma_row_col_bounds, pixel_color};

verus! {

/// A colour with opacity: red, green, blue, alpha.
pub type Rgba8 = (u8, u8, u8, u8);

/// A contact sheet of sprite frames: an RGBA image of the `image` crate, held where
/// Verus does not look into it.
#[verifier::external_body]
pub struct SpriteSheet {
    image: RgbaImage,
}

/// The pixels of a sheet, by column and row.
pub uninterp spec fn sheet_pixels(sheet: SpriteSheet) -> Map<(u32, u32), (u8, u8, u8, u8)>;

/// The width and height a sheet was made with.
pub uninterp spec fn sheet_size(sheet: SpriteSheet) -> (u32, u32);

/// A `width` x `height` map of pixels, all of `color`.
pub open spec fn filled(width: u32, height: u32, color: Rgba8) -> Map<(u32, u32), Rgba8> {
    Map::new(|p: (u32, u32)| p.0 < width && p.1 < height, |p: (u32, u32)| color)
}

/// `ImageBuffer::from_pixel(width, height, color)`: an image of that size whose every
/// pixel is `color`. It panics when the buffer's length, four bytes per pixel,
/// overflows `usize`, which `requires` leaves out.
#[verifier::external_body]
fn new_sheet(width: u32, height: u32, color: Rgba8) -> (sheet: SpriteSheet)
    requires
        4 * (width as int) * (height as int) <= usize::MAX,
    ensures
        sheet_size(sheet) == (width, height),
        sheet_pixels(sheet) == filled(width, height, color),
{
    SpriteSheet {
        image: ImageBuffer::from_pixel(width, height, image::Rgba([color.0, color.1, color.2, color.3])),
    }
}

/// `ImageBuffer::put_pixel(x, y, color)`: sets that one pixel and leaves the others and
/// the size alone. It panics outside the image, which `requires` leaves out.
#[verifier::external_body]
fn put_pixel(sheet: &mut SpriteSheet, x: u32, y: u32, color: Rgba8)
    requires
        x < sheet_size(*old(sheet)).0,
        y < sheet_size(*old(sheet)).1,
    ensures
        sheet_size(*final(sheet)) == sheet_size(*old(sheet)),
        sheet_pixels(*final(sheet)) == sheet_pixels(*old(sheet)).insert((x, y), color),
{
    sheet.image.put_pixel(x, y, image::Rgba([color.0, color.1, color.2, color.3]));
}

/// The value of channel `c` (0 red, 1 green, 2 blue, 3 alpha) of a colour.
pub open spec fn channel(color: Rgba8, c: int) -> u8 {
    if c == 0 {
        color.0
    } else if c == 1 {
        color.1
    } else if c == 2 {
        color.2
    } else {
        color.3
    }
}

/// `ImageBuffer::dimensions`: the width and height the sheet was made with.
#[verifier::external_body]
fn sheet_dimensions(sheet: &SpriteSheet) -> (r: (u32, u32))
    ensures
        r == sheet_size(*sheet),
{
    sheet.image.dimensions()
}

/// `ImageBuffer::into_raw`: the sheet's bytes, row after row, four per pixel in the
/// order red, green, blue, alpha.
#[verifier::external_body]
fn sheet_into_raw(sheet: SpriteSheet) -> (bytes: Vec<u8>)
    ensures
        bytes@.len() == 4 * sheet_size(sheet).0 * sheet_size(sheet).1,
        forall|x: u32, y: u32, c: int|
            x < sheet_size(sheet).0 && y < sheet_size(sheet).1 && 0 <= c < 4 ==> bytes@[4 * (y
                * sheet_size(sheet).0 + x) + c] == #[trigger] channel(sheet_pixels(sheet)[(x, y)], c),
{
    sheet.image.into_raw()
}

impl SpriteSheet {
    /// The sheet's width, height and bytes: row after row, four per pixel in the order
    /// red, green, blue, alpha.
    pub fn into_rgba(self) -> (r: (u32, u32, Vec<u8>))
        ensures
            (r.0, r.1) == sheet_size(self),
            r.2@.len() == 4 * r.0 * r.1,
            forall|x: u32, y: u32, c: int|
                x < r.0 && y < r.1 && 0 <= c < 4 ==> r.2@[4 * (y * r.0 + x) + c]
                    == #[trigger] channel(sheet_pixels(self)[(x, y)], c),
    {
        let (width, height) = sheet_dimensions(&self);
        let bytes = sheet_into_raw(self);
        (width, height, bytes)
    }
}

// ---------------------------------------------------------------------------
// Drawing the sheet
// ---------------------------------------------------------------------------

/// Width of a sprite pixel on the sheet.
pub const CELL_WIDTH: u32 = 9;
/// Height of a sprite pixel on the sheet.
pub const CELL_HEIGHT: u32 = 18;
/// Space between two frames.
pub const GAP: u32 = 18;
/// Margin around the frames.
pub const PADDING: u32 = 18;

/// The sheet's background colour.
pub open spec fn background() -> Rgba8 {
    (24, 24, 24, 255)
}

/// The colour of a sprite character on the sheet: `#` and `!` body, `@` laptop,
/// `+` screen, `*` code, `S` suit, `%` shirt, all opaque; other characters are
/// transparent.
pub open spec fn preview_color(c: char) -> Option<Rgba8> {
    if c == '#' || c == '!' {
        Some((216, 122, 88, 255))
    } else if c == '@' {
        Some((84, 88, 96, 255))
    } else if c == '+' {
        Some((54, 148, 218, 255))
    } else if c == '*' {
        Some((154, 230, 180, 255))
    } else if c == 'S' {
        Some((28, 32, 40, 255))
    } else if c == '%' {
        Some((238, 238, 228, 255))
    } else {
        None
    }
}

/// The colour of a sprite character on the sheet (see `preview_color`).
pub fn color_for(pixel: char) -> (r: Option<Rgba8>)
    ensures
        r == preview_color(pixel),
{
    match pixel {
        '#' | '!' => Some((216, 122, 88, 255)),
        '@' => Some((84, 88, 96, 255)),
        '+' => Some((54, 148, 218, 255)),
        '*' => Some((154, 230, 180, 255)),
        'S' => Some((28, 32, 40, 255)),
        '%' => Some((238, 238, 228, 255)),
        _ => None,
    }
}

/// The sheet shows every sprite character in the colour the terminal shows it,
/// opaque, and leaves out the same characters.
pub proof fn lemma_sheet_colors_match_terminal(c: char)
    ensures
        preview_color(c) == match pixel_color(c) {
            Some(rgb) => Some((rgb.r, rgb.g, rgb.b, 255u8)),
            None => None,
        },
{
}

/// A rectangle of pixels of one colour.
pub open spec fn rect(x: int, y: int, w: int, h: int, color: Rgba8) -> Map<(u32, u32), Rgba8> {
    Map::new(|p: (u32, u32)| x <= p.0 < x + w && y <= p.1 < y + h, |p: (u32, u32)| color)
}

/// `pixels` with a rectangle painted over.
pub open spec fn painted(pixels: Map<(u32, u32), Rgba8>, x: int, y: int, w: int, h: int, color: Rgba8) -> Map<(u32, u32), Rgba8> {
    pixels.union_prefer_right(rect(x, y, w, h, color))
}

/// Paints the sprite pixel whose top left corner is (`x`, `y`).
pub fn fill_cell(sheet: &mut SpriteSheet, x: u32, y: u32, color: Rgba8)
    requires
        x + CELL_WIDTH <= sheet_size(*old(sheet)).0,
        y + CELL_HEIGHT <= sheet_size(*old(sheet)).1,
    ensures
        sheet_size(*final(sheet)) == sheet_size(*old(sheet)),
        sheet_pixels(*final(sheet)) == painted(sheet_pixels(*old(sheet)), x as int, y as int, CELL_WIDTH as int, CELL_HEIGHT as int, color),
{
    let ghost start = sheet_pixels(*sheet);
    let ghost size = sheet_size(*sheet);
    let mut cell_y = y;
    while cell_y < y + CELL_HEIGHT
        invariant
            y <= cell_y <= y + CELL_HEIGHT,
            x + CELL_WIDTH <= size.0,
            y + CELL_HEIGHT <= size.1,
            sheet_size(*sheet) == size,
            sheet_pixels(*sheet) == painted(start, x as int, y as int, CELL_WIDTH as int, cell_y - y, color),
        decreases y + CELL_HEIGHT - cell_y,
    {
        let ghost rows_done = sheet_pixels(*sheet);
        let mut cell_x = x;
        while cell_x < x + CELL_WIDTH
            invariant
                x <= cell_x <= x + CELL_WIDTH,
                y <= cell_y < y + CELL_HEIGHT,
                x + CELL_WIDTH <= size.0,
                y + CELL_HEIGHT <= size.1,
                sheet_size(*sheet) == size,
                sheet_pixels(*sheet) == painted(rows_done, x as int, cell_y as int, cell_x - x, 1, color),
            decreases x + CELL_WIDTH - cell_x,
        {
            put_pixel(sheet, cell_x, cell_y, color);
            assert(sheet_pixels(*sheet) =~= painted(rows_done, x as int, cell_y as int, cell_x + 1 - x, 1, color));
            cell_x = cell_x + 1;
        }
        assert(sheet_pixels(*sheet) =~= painted(start, x as int, y as int, CELL_WIDTH as int, cell_y + 1 - y, color));
        cell_y = cell_y + 1;
    }
}

/// `n` as a `u32` cast keeps it: its value modulo 2^32.
pub open spec fn wrap32(n: int) -> int {
    n % 0x1_0000_0000
}

/// Whether every coloured character of a frame's text, drawn from (`x`, `y`), lies
/// within a sheet of `size` (its line and column taken as `u32`).
pub open spec fn frame_fits_sheet(s: Seq<char>, x: int, y: int, size: (u32, u32)) -> bool {
    forall|i: int|
        0 <= i < s.len() && (#[trigger] preview_color(s[i])) is Some ==> {
            &&& x + wrap32(char_col(s, i) as int) * CELL_WIDTH + CELL_WIDTH <= size.0
            &&& y + wrap32(char_row(s, i) as int) * CELL_HEIGHT + CELL_HEIGHT <= size.1
        }
}

/// `pixels` once the first `i` characters of a frame's text are drawn from (`x`, `y`):
/// each coloured character's pixel painted in turn.
pub open spec fn frame_painted(pixels: Map<(u32, u32), Rgba8>, s: Seq<char>, i: int, x: int, y: int) -> Map<(u32, u32), Rgba8>
    decreases i,
{
    if i <= 0 {
        pixels
    } else {
        let before = frame_painted(pixels, s, i - 1, x, y);
        match preview_color(s[i - 1]) {
            Some(color) => painted(
                before,
                x + wrap32(char_col(s, i - 1) as int) * CELL_WIDTH,
                y + wrap32(char_row(s, i - 1) as int) * CELL_HEIGHT,
                CELL_WIDTH as int,
                CELL_HEIGHT as int,
                color,
            ),
            None => before,
        }
    }
}

/// Draws the frame `frame` with its top left corner at (`x`, `y`).
pub fn draw_frame(sheet: &mut SpriteSheet, frame: &str, x: u32, y: u32)
    requires
        frame_fits_sheet(frame@, x as int, y as int, sheet_size(*old(sheet))),
    ensures
        sheet_size(*final(sheet)) == sheet_size(*old(sheet)),
        sheet_pixels(*final(sheet)) == frame_painted(sheet_pixels(*old(sheet)), frame@, frame@.len() as int, x as int, y as int),
{
    let v = chars_of(frame);
    let ghost s = v@;
    let ghost start = sheet_pixels(*sheet);
    let ghost size = sheet_size(*sheet);
    let mut row: usize = 0;
    let mut col: usize = 0;
    let mut i: usize = 0;
    while i < v.len()
        invariant
            s == v@,
            s == frame@,
            i <= v.len(),
            frame_fits_sheet(s, x as int, y as int, size),
            sheet_size(*sheet) == size,
            row == char_row(s, i as int),
            col == char_col(s, i as int),
            sheet_pixels(*sheet) == frame_painted(start, s, i as int, x as int, y as int),
        decreases v.len() - i,
    {
        proof {
            lemma_row_col_bounds(s, i as int);
        }
        let c = v[i];
        match color_for(c) {
            Some(color) => {
                assert(preview_color(s[i as int]) is Some);
                assert((#[verifier::truncate] (col as u32)) as u64 == (col as u64) % 0x1_0000_0000) by (bit_vector);
                assert((#[verifier::truncate] (row as u32)) as u64 == (row as u64) % 0x1_0000_0000) by (bit_vector);
                let col32 = #[verifier::truncate] (col as u32);
                let row32 = #[verifier::truncate] (row as u32);
                assert(col32 * CELL_WIDTH + CELL_WIDTH + x <= size.0 && row32 * CELL_HEIGHT + CELL_HEIGHT + y <= size.1);
                let cx = x + col32 * CELL_WIDTH;
                let cy = y + row32 * CELL_HEIGHT;
                fill_cell(sheet, cx, cy, color);
            },
            None => {},
        }
        if c == '\n' {
            row = row + 1;
            col = 0;
        } else {
            col = col + 1;
        }
        i = i + 1;
    }
}

/// Width of a sheet of `count` frames, each `width` sprite pixels wide: the frames side
/// by side with gaps between them, inside the margin.
pub open spec fn sheet_width(count: int, width: u16) -> int {
    PADDING * 2 + (width * CELL_WIDTH) * count + GAP * (count - 1)
}

/// Height of a sheet of frames `height` sprite pixels high, inside the margin.
pub open spec fn sheet_height(height: u16) -> int {
    PADDING * 2 + height * CELL_HEIGHT
}

/// Left edge of the frame at `index` (taken as a `u32`) on the sheet.
pub open spec fn frame_left(index: int, width: u16) -> int {
    PADDING + wrap32(index) * (width * CELL_WIDTH + GAP)
}

/// The pixels of a sheet once its first `k` frames are drawn, each at its place.
pub open spec fn sheet_painted(
    pixels: Map<(u32, u32), Rgba8>,
    frames: Seq<&str>,
    k: int,
    width: u16,
) -> Map<(u32, u32), Rgba8>
    decreases k,
{
    if k <= 0 {
        pixels
    } else {
        frame_painted(
            sheet_painted(pixels, frames, k - 1, width),
            frames[k - 1]@,
            frames[k - 1]@.len() as int,
            frame_left(k - 1, width),
            PADDING as int,
        )
    }
}

/// Whether a sheet of `frames`, each `width` x `height` sprite pixels, can be drawn:
/// there is a frame (counted as a `u32`), the sheet's size fits in `u32` and its bytes
/// in `usize`, and every frame's left edge and coloured characters lie on the sheet.
pub open spec fn sheet_fits(frames: Seq<&str>, width: u16, height: u16) -> bool {
    let w = sheet_width(wrap32(frames.len() as int), width);
    let h = sheet_height(height);
    &&& wrap32(frames.len() as int) >= 1
    &&& w <= u32::MAX
    &&& 4 * w * h <= usize::MAX
    &&& forall|k: int|
        #![trigger frames[k]@]
        #![trigger frame_left(k, width)]
        0 <= k < frames.len() ==> {
            &&& frame_left(k, width) <= u32::MAX
            &&& frame_fits_sheet(
                frames[k]@,
                frame_left(k, width),
                PADDING as int,
                (w as u32, h as u32),
            )
        }
}

/// Whether every coloured character of `frame`, drawn from (`x`, `y`), lies within a
/// sheet of `size` (see `frame_fits_sheet`).
fn frame_fits_at(frame: &str, x: u64, y: u64, size: (u32, u32)) -> (r: bool)
    requires
        x <= u32::MAX,
        y <= u32::MAX,
    ensures
        r == frame_fits_sheet(frame@, x as int, y as int, size),
{
    let v = chars_of(frame);
    let ghost s = v@;
    let mut row: u64 = 0;
    let mut col: u64 = 0;
    let mut i: usize = 0;
    while i < v.len()
        invariant
            s == v@,
            s == frame@,
            x <= u32::MAX,
            y <= u32::MAX,
            i <= v.len(),
            row == char_row(s, i as int),
            col == char_col(s, i as int),
            forall|k: int|
                0 <= k < i && (#[trigger] preview_color(s[k])) is Some ==> {
                    &&& x + wrap32(char_col(s, k) as int) * CELL_WIDTH + CELL_WIDTH <= size.0
                    &&& y + wrap32(char_row(s, k) as int) * CELL_HEIGHT + CELL_HEIGHT <= size.1
                },
        decreases v.len() - i,
    {
        proof {
            lemma_row_col_bounds(s, i as int);
        }
        let c = v[i];
        if color_for(c).is_some() {
            let right = x + (col % 0x1_0000_0000) * 9 + 9;
            let bottom = y + (row % 0x1_0000_0000) * 18 + 18;
            if right > size.0 as u64 || bottom > size.1 as u64 {
                return false;
            }
        }
        if c == '\n' {
            row = row + 1;
            col = 0;
        } else {
            col = col + 1;
        }
        i = i + 1;
    }
    true
}

/// Whether a sheet of `frames` can be drawn (see `sheet_fits`).
pub fn can_render_sheet(frames: &[&str], width: u16, height: u16) -> (r: bool)
    ensures
        r == sheet_fits(frames@, width, height),
{
    let n: u64 = frames.len() as u64 % 0x1_0000_0000;
    if n < 1 {
        return false;
    }
    let frame_width: u64 = width as u64 * 9;
    assert(frame_width * n <= 0xFFFF * 9 * 0x1_0000_0000) by (nonlinear_arith)
        requires
            frame_width <= 0xFFFF * 9,
            n < 0x1_0000_0000,
    ;
    let w: u64 = 36 + frame_width * n + 18 * (n - 1);
    let h: u64 = 36 + height as u64 * 18;
    if w > 0xFFFF_FFFF {
        return false;
    }
    let w4: u128 = 4 * w as u128;
    let bytes = match w4.checked_mul(h as u128) {
        Some(b) => b,
        None => return false,
    };
    if bytes > usize::MAX as u128 {
        return false;
    }
    let size = (w as u32, h as u32);
    let mut k: usize = 0;
    while k < frames.len()
        invariant
            k <= frames.len(),
            n == wrap32(frames.len() as int),
            1 <= n,
            w == sheet_width(n as int, width),
            h == sheet_height(height),
            w <= u32::MAX,
            4 * w * h <= usize::MAX,
            size == (w as u32, h as u32),
            forall|j: int|
                #![trigger frames@[j]@]
                #![trigger frame_left(j, width)]
                0 <= j < k ==> {
                    &&& frame_left(j, width) <= u32::MAX
                    &&& frame_fits_sheet(
                        frames@[j]@,
                        frame_left(j, width),
                        PADDING as int,
                        size,
                    )
                },
        decreases frames.len() - k,
    {
        let k32: u64 = k as u64 % 0x1_0000_0000;
        assert(k32 * (width as u64 * 9 + 18) <= 0x1_0000_0000 * (0xFFFF * 9 + 18)) by (nonlinear_arith)
            requires
                k32 < 0x1_0000_0000,
                width <= 0xFFFF,
        ;
        let left: u64 = 18 + k32 * (width as u64 * 9 + 18);
        assert(left == frame_left(k as int, width));
        if left > 0xFFFF_FFFF {
            return false;
        }
        let fits = frame_fits_at(frames[k], left, 18, size);
        assert(fits == frame_fits_sheet(frames@[k as int]@, frame_left(k as int, width), PADDING as int, size));
        if !fits {
            return false;
        }
        k = k + 1;
    }
    true
}

/// A contact sheet of `frames`, each `width` x `height` sprite pixels: the background,
/// then every frame drawn at its place, left to right.
pub fn render_sheet(frames: &[&str], width: u16, height: u16) -> (sheet: SpriteSheet)
    requires
        sheet_fits(frames@, width, height),
    ensures
        sheet_size(sheet) == (
            sheet_width(wrap32(frames@.len() as int), width) as u32,
            sheet_height(height) as u32,
        ),
        sheet_pixels(sheet) == sheet_painted(
            filled(
                sheet_width(wrap32(frames@.len() as int), width) as u32,
                sheet_height(height) as u32,
                background(),
            ),
            frames@,
            frames@.len() as int,
            width,
        ),
{
    let frame_width = width as u32 * CELL_WIDTH;
    let frame_height = height as u32 * CELL_HEIGHT;
    let len = frames.len();
    assert((#[verifier::truncate] (len as u32)) as u64 == (len as u64) % 0x1_0000_0000) by (bit_vector);
    let count = #[verifier::truncate] (len as u32);
    assert(frame_width * count + GAP * (count - 1) <= u32::MAX);
    let image_width = PADDING * 2 + frame_width * count + GAP * (count - 1);
    let image_height = PADDING * 2 + frame_height;
    let mut sheet = new_sheet(image_width, image_height, (24, 24, 24, 255));
    let ghost start = sheet_pixels(sheet);
    let ghost size = sheet_size(sheet);
    let mut index: usize = 0;
    while index < frames.len()
        invariant
            index <= frames.len(),
            frame_width == width * CELL_WIDTH,
            sheet_fits(frames@, width, height),
            size == (image_width, image_height),
            image_width == sheet_width(wrap32(frames@.len() as int), width),
            image_height == sheet_height(height),
            sheet_size(sheet) == size,
            sheet_pixels(sheet) == sheet_painted(start, frames@, index as int, width),
        decreases frames.len() - index,
    {
        assert((#[verifier::truncate] (index as u32)) as u64 == (index as u64) % 0x1_0000_0000) by (bit_vector);
        let index32 = #[verifier::truncate] (index as u32);
        assert(frame_fits_sheet(frames@[index as int]@, frame_left(index as int, width), PADDING as int, size));
        let x = PADDING + index32 * (frame_width + GAP);
        draw_frame(&mut sheet, frames[index], x, PADDING);
        index = index + 1;
    }
    sheet
}

// ---------------------------------------------------------------------------
// Where the frames land
// ---------------------------------------------------------------------------

/// Whether the pixel `p` lies in the sprite pixel whose top left corner is (`x`, `y`).
pub open spec fn in_cell(x: int, y: int, p: (u32, u32)) -> bool {
    x <= p.0 < x + CELL_WIDTH && y <= p.1 < y + CELL_HEIGHT
}

/// The top left corner of the sprite pixel that character `j` of `s` paints when the
/// frame is drawn from (`x`, `y`).
pub open spec fn cell_left(s: Seq<char>, j: int, x: int) -> int {
    x + wrap32(char_col(s, j) as int) * CELL_WIDTH
}

/// The top of the sprite pixel that character `j` of `s` paints when the frame is
/// drawn from row `y`.
pub open spec fn cell_top(s: Seq<char>, j: int, y: int) -> int {
    y + wrap32(char_row(s, j) as int) * CELL_HEIGHT
}

/// Whether every coloured character of every frame lies within `width` columns and
/// `height` lines: the frames are `width` x `height` sprites.
pub open spec fn frames_within(frames: Seq<&str>, width: u16, height: u16) -> bool {
    forall|f: int, j: int|
        0 <= f < frames.len() && 0 <= j < frames[f]@.len() && (#[trigger] preview_color(
            frames[f]@[j],
        )) is Some ==> char_col(frames[f]@, j) < width && char_row(frames[f]@, j) < height
}

/// A character after a visible (non-newline) one stands on a later line, or on the
/// same line further right.
proof fn lemma_later_char_after(s: Seq<char>, i: int, j: int)
    requires
        0 <= i < j <= s.len(),
        s[i] != '\n',
    ensures
        char_row(s, j) > char_row(s, i) || (char_row(s, j) == char_row(s, i) && char_col(s, j)
            > char_col(s, i)),
    decreases j,
{
    if j > i + 1 {
        lemma_later_char_after(s, i, j - 1);
    }
}

/// Drawing a frame leaves alone a pixel that none of its coloured characters covers.
proof fn lemma_frame_keeps(base: Map<(u32, u32), Rgba8>, s: Seq<char>, n: int, x: int, y: int, p: (u32, u32))
    requires
        0 <= n <= s.len(),
        forall|j: int|
            0 <= j < n && (#[trigger] preview_color(s[j])) is Some ==> !in_cell(
                cell_left(s, j, x),
                cell_top(s, j, y),
                p,
            ),
    ensures
        frame_painted(base, s, n, x, y).dom().contains(p) == base.dom().contains(p),
        base.dom().contains(p) ==> frame_painted(base, s, n, x, y)[p] == base[p],
    decreases n,
{
    if n > 0 {
        lemma_frame_keeps(base, s, n - 1, x, y, p);
        if preview_color(s[n - 1]) is Some {
            assert(!in_cell(cell_left(s, n - 1, x), cell_top(s, n - 1, y), p));
        }
    }
}

/// Character `i` of a frame paints its pixel in its colour, and no later character
/// paints over it when none covers the pixel.
proof fn lemma_frame_paints(base: Map<(u32, u32), Rgba8>, s: Seq<char>, n: int, x: int, y: int, i: int, p: (u32, u32))
    requires
        0 <= i < n <= s.len(),
        preview_color(s[i]) is Some,
        in_cell(cell_left(s, i, x), cell_top(s, i, y), p),
        forall|j: int|
            i < j < n && (#[trigger] preview_color(s[j])) is Some ==> !in_cell(
                cell_left(s, j, x),
                cell_top(s, j, y),
                p,
            ),
    ensures
        frame_painted(base, s, n, x, y).dom().contains(p),
        frame_painted(base, s, n, x, y)[p] == preview_color(s[i])->0,
    decreases n,
{
    if n > i + 1 {
        lemma_frame_paints(base, s, n - 1, x, y, i, p);
        if preview_color(s[n - 1]) is Some {
            assert(!in_cell(cell_left(s, n - 1, x), cell_top(s, n - 1, y), p));
        }
    }
}

/// Drawing frames `k0` up to `k` leaves alone a pixel that none of their coloured
/// characters covers.
proof fn lemma_sheet_keeps(pixels: Map<(u32, u32), Rgba8>, frames: Seq<&str>, k0: int, k: int, width: u16, p: (u32, u32))
    requires
        0 <= k0 <= k <= frames.len(),
        forall|f: int, j: int|
            k0 <= f < k && 0 <= j < frames[f]@.len() && (#[trigger] preview_color(frames[f]@[j]))
                is Some ==> !in_cell(
                cell_left(frames[f]@, j, frame_left(f, width)),
                cell_top(frames[f]@, j, PADDING as int),
                p,
            ),
    ensures
        sheet_painted(pixels, frames, k, width).dom().contains(p) == sheet_painted(pixels, frames, k0, width).dom().contains(p),
        sheet_painted(pixels, frames, k0, width).dom().contains(p) ==> sheet_painted(pixels, frames, k, width)[p]
            == sheet_painted(pixels, frames, k0, width)[p],
    decreases k,
{
    if k > k0 {
        lemma_sheet_keeps(pixels, frames, k0, k - 1, width, p);
        let s = frames[k - 1]@;
        assert forall|j: int|
            0 <= j < s.len() && (#[trigger] preview_color(s[j])) is Some implies !in_cell(
                cell_left(s, j, frame_left(k - 1, width)),
                cell_top(s, j, PADDING as int),
                p,
            ) by {
            assert(preview_color(frames[k - 1]@[j]) is Some);
        }
        lemma_frame_keeps(
            sheet_painted(pixels, frames, k - 1, width),
            s,
            s.len() as int,
            frame_left(k - 1, width),
            PADDING as int,
            p,
        );
    }
}

/// The frames stand side by side on the sheet, left to right, without overlapping:
/// frame `k` has its left edge at `PADDING + k * (width * CELL_WIDTH + GAP)`, and a
/// coloured character at column `c`, line `r` of frame `k` shows in its colour over the
/// whole sprite pixel whose top left corner is
/// (`PADDING + k * (width * CELL_WIDTH + GAP) + c * CELL_WIDTH`, `PADDING + r * CELL_HEIGHT`).
/// This holds of frames that are `width` x `height` sprites, no more than `u32::MAX` of
/// them, each no longer than `u32::MAX` characters.
pub proof fn lemma_frames_side_by_side(
    frames: Seq<&str>,
    width: u16,
    height: u16,
    k: int,
    i: int,
    dx: int,
    dy: int,
)
    requires
        sheet_fits(frames, width, height),
        frames_within(frames, width, height),
        frames.len() <= u32::MAX,
        frames[k]@.len() <= u32::MAX,
        0 <= k < frames.len(),
        0 <= i < frames[k]@.len(),
        preview_color(frames[k]@[i]) is Some,
        0 <= dx < CELL_WIDTH,
        0 <= dy < CELL_HEIGHT,
    ensures
        ({
            let sheet = sheet_painted(
                filled(
                    sheet_width(frames.len() as int, width) as u32,
                    sheet_height(height) as u32,
                    background(),
                ),
                frames,
                frames.len() as int,
                width,
            );
            let px = PADDING + k * (width * CELL_WIDTH + GAP) + char_col(frames[k]@, i) * CELL_WIDTH + dx;
            let py = PADDING + char_row(frames[k]@, i) * CELL_HEIGHT + dy;
            &&& px <= u32::MAX && py <= u32::MAX
            &&& sheet.dom().contains((px as u32, py as u32))
            &&& sheet[(px as u32, py as u32)] == preview_color(frames[k]@[i])->0
        }),
{
    let s = frames[k]@;
    let fw = width * CELL_WIDTH + GAP;
    let n = frames.len() as int;
    let base = filled(sheet_width(n, width) as u32, sheet_height(height) as u32, background());
    let col = char_col(s, i);
    let row = char_row(s, i);
    assert(wrap32(n) == n) by {
        vstd::arithmetic::div_mod::lemma_small_mod(n as nat, 0x1_0000_0000);
    }
    assert(wrap32(k) == k) by {
        vstd::arithmetic::div_mod::lemma_small_mod(k as nat, 0x1_0000_0000);
    }
    assert(preview_color(frames[k]@[i]) is Some);
    assert(col < width && row < height);
    lemma_row_col_bounds(s, i);
    assert(wrap32(col as int) == col) by {
        vstd::arithmetic::div_mod::lemma_small_mod(col, 0x1_0000_0000);
    }
    assert(wrap32(row as int) == row) by {
        vstd::arithmetic::div_mod::lemma_small_mod(row, 0x1_0000_0000);
    }
    let left = frame_left(k, width);
    assert(left == PADDING + k * fw);
    let px = left + col * CELL_WIDTH + dx;
    let py = PADDING + row * CELL_HEIGHT + dy;
    // The pixel lies on the sheet.
    assert(frame_fits_sheet(s, left, PADDING as int, (sheet_width(n, width) as u32, sheet_height(height) as u32)));
    assert(preview_color(s[i]) is Some);
    assert(px <= u32::MAX && py <= u32::MAX);
    let p = (px as u32, py as u32);
    assert(in_cell(cell_left(s, i, left), cell_top(s, i, PADDING as int), p));
    // No later character of frame k covers the pixel.
    assert forall|j: int|
        i < j < s.len() && (#[trigger] preview_color(s[j])) is Some implies !in_cell(
            cell_left(s, j, left),
            cell_top(s, j, PADDING as int),
            p,
        ) by {
        lemma_later_char_after(s, i, j);
        lemma_row_col_bounds(s, j);
        let cj = char_col(s, j);
        let rj = char_row(s, j);
        vstd::arithmetic::div_mod::lemma_small_mod(cj, 0x1_0000_0000);
        vstd::arithmetic::div_mod::lemma_small_mod(rj, 0x1_0000_0000);
    }
    lemma_frame_paints(sheet_painted(base, frames, k, width), s, s.len() as int, left, PADDING as int, i, p);
    // No later frame covers the pixel.
    assert forall|f: int, j: int|
        k + 1 <= f < n && 0 <= j < frames[f]@.len() && (#[trigger] preview_color(frames[f]@[j])) is Some
            implies !in_cell(
            cell_left(frames[f]@, j, frame_left(f, width)),
            cell_top(frames[f]@, j, PADDING as int),
            p,
        ) by {
        let cj = char_col(frames[f]@, j);
        assert(cj < width);
        vstd::arithmetic::div_mod::lemma_small_mod(cj, 0x1_0000_0000);
        vstd::arithmetic::div_mod::lemma_small_mod(f as nat, 0x1_0000_0000);
        assert(k * fw + fw <= f * fw) by (nonlinear_arith)
            requires
                k + 1 <= f,
                fw >= 0,
        ;
        assert(px < PADDING + k * fw + width * CELL_WIDTH);
    }
    lemma_sheet_keeps(base, frames, k + 1, n, width, p);
}

/// Where no frame paints, the sheet shows its background: a pixel of the sheet that no
/// coloured character of any frame covers, each frame `k` drawn from
/// `PADDING + k * (width * CELL_WIDTH + GAP)`, keeps the background colour. This holds
/// of no more than `u32::MAX` frames, each no longer than `u32::MAX` characters.
pub proof fn lemma_sheet_background(frames: Seq<&str>, width: u16, height: u16, p: (u32, u32))
    requires
        sheet_fits(frames, width, height),
        frames.len() <= u32::MAX,
        forall|f: int| 0 <= f < frames.len() ==> (#[trigger] frames[f]@).len() <= u32::MAX,
        p.0 < sheet_width(frames.len() as int, width),
        p.1 < sheet_height(height),
        forall|f: int, j: int|
            0 <= f < frames.len() && 0 <= j < frames[f]@.len() && (#[trigger] preview_color(frames[f]@[j]))
                is Some ==> !in_cell(
                PADDING + f * (width * CELL_WIDTH + GAP) + char_col(frames[f]@, j) * CELL_WIDTH,
                PADDING + char_row(frames[f]@, j) * CELL_HEIGHT,
                p,
            ),
    ensures
        ({
            let sheet = sheet_painted(
                filled(
                    sheet_width(frames.len() as int, width) as u32,
                    sheet_height(height) as u32,
                    background(),
                ),
                frames,
                frames.len() as int,
                width,
            );
            sheet.dom().contains(p) && sheet[p] == background()
        }),
{
    let n = frames.len() as int;
    let base = filled(sheet_width(n, width) as u32, sheet_height(height) as u32, background());
    assert(wrap32(n) == n) by {
        vstd::arithmetic::div_mod::lemma_small_mod(n as nat, 0x1_0000_0000);
    }
    assert forall|f: int, j: int|
        0 <= f < n && 0 <= j < frames[f]@.len() && (#[trigger] preview_color(frames[f]@[j])) is Some
            implies !in_cell(
            cell_left(frames[f]@, j, frame_left(f, width)),
            cell_top(frames[f]@, j, PADDING as int),
            p,
        ) by {
        let sf = frames[f]@;
        assert(sf.len() <= u32::MAX);
        lemma_row_col_bounds(sf, j);
        vstd::arithmetic::div_mod::lemma_small_mod(char_col(sf, j), 0x1_0000_0000);
        vstd::arithmetic::div_mod::lemma_small_mod(char_row(sf, j), 0x1_0000_0000);
        vstd::arithmetic::div_mod::lemma_small_mod(f as nat, 0x1_0000_0000);
    }
    lemma_sheet_keeps(base, frames, 0, n, width, p);
}

} // verus!
