use vstd::prelude::*;
use crate::clawd::{WIDTH, HEIGHT, WALK_FRAMES, CODING_FRAMES, SUIT_FRAMES};
use crate::control::{ControlCommand, ControlScene};

verus! {

/// Rows taken by the stats panel.
pub const STATS_HEIGHT: u16 = 11;
/// Narrowest width given to a scene with the stats panel.
pub const STATS_MIN_WIDTH: u16 = 62;
/// Largest scale of the mascot in the stationary scenes.
pub const STATIONARY_MAX_ART_SCALE: u16 = 2;

/// `a + b`, or `u16::MAX` where that does not fit.
pub open spec fn sat_add(a: u16, b: u16) -> u16 {
    if a + b > u16::MAX {
        u16::MAX
    } else {
        (a + b) as u16
    }
}

/// `a - b`, or zero where that is negative.
pub open spec fn sat_sub(a: u16, b: u16) -> u16 {
    if a > b {
        (a - b) as u16
    } else {
        0
    }
}

/// `a * b`, or `u16::MAX` where that does not fit.
pub open spec fn sat_mul(a: u16, b: u16) -> u16 {
    if a * b > u16::MAX {
        u16::MAX
    } else {
        (a * b) as u16
    }
}

/// The smaller of two values.
pub open spec fn min16(a: u16, b: u16) -> u16 {
    if a <= b {
        a
    } else {
        b
    }
}

/// The larger of two values.
pub open spec fn max16(a: u16, b: u16) -> u16 {
    if a >= b {
        a
    } else {
        b
    }
}

/// A rectangle of terminal cells.
#[derive(Clone, Copy, PartialEq, Eq, Structural, Debug)]
pub struct Area {
    pub x: u16,
    pub y: u16,
    pub width: u16,
    pub height: u16,
}

impl Area {
    /// The first column right of the area (saturating at `u16::MAX`).
    pub open spec fn right_edge(self) -> u16 {
        sat_add(self.x, self.width)
    }

    /// The first row below the area (saturating at `u16::MAX`).
    pub open spec fn bottom_edge(self) -> u16 {
        sat_add(self.y, self.height)
    }

    /// Whether the area's edges do not saturate.
    pub open spec fn fits(self) -> bool {
        self.x + self.width <= u16::MAX && self.y + self.height <= u16::MAX
    }

    /// Whether `inner` lies within this area.
    pub open spec fn contains_area(self, inner: Area) -> bool {
        &&& self.x <= inner.x
        &&& self.y <= inner.y
        &&& inner.x + inner.width <= self.x + self.width
        &&& inner.y + inner.height <= self.y + self.height
    }

    /// The first column right of the area.
    pub fn right(self) -> (r: u16)
        ensures
            r == self.right_edge(),
    {
        self.x.saturating_add(self.width)
    }

    /// The first row below the area.
    pub fn bottom(self) -> (r: u16)
        ensures
            r == self.bottom_edge(),
    {
        self.y.saturating_add(self.height)
    }
}

/// `value * scale` for a scale of at least one, saturating.
pub open spec fn scaled_spec(value: u16, scale: u16) -> u16 {
    sat_mul(value, max16(scale, 1))
}

/// The size of `value` pixels at `scale` cells per pixel (a scale of zero counts as one),
/// saturating at `u16::MAX`.
pub fn scaled(value: u16, scale: u16) -> (r: u16)
    ensures
        r == scaled_spec(value, scale),
{
    let s: u16 = if scale < 1 { 1 } else { scale };
    assert(value as u32 * s as u32 <= 0xFFFF * 0xFFFF) by (nonlinear_arith)
        requires
            value <= 0xFFFF,
            s <= 0xFFFF,
    ;
    let product: u32 = value as u32 * s as u32;
    if product > 0xFFFF {
        u16::MAX
    } else {
        product as u16
    }
}

/// The largest scale at which art of `width` x `height` pixels fits into `area` above
/// `reserved_height` rows, between one and `max_scale` (at least one).
pub open spec fn art_scale_spec(area: Area, width: u16, height: u16, reserved_height: u16, max_scale: u16) -> u16 {
    let available_height = sat_sub(area.height, reserved_height);
    let width_scale = area.width / max16(width, 1);
    let height_scale = available_height / max16(height, 1);
    let fit = min16(width_scale as u16, height_scale as u16);
    let top = max16(max_scale, 1);
    if fit < 1 {
        1
    } else if fit > top {
        top
    } else {
        fit
    }
}

/// The scale of the mascot's art in `area` (see `art_scale_spec`).
pub fn art_scale(area: Area, width: u16, height: u16, reserved_height: u16, max_scale: u16) -> (r: u16)
    ensures
        r == art_scale_spec(area, width, height, reserved_height, max_scale),
        1 <= r <= max16(max_scale, 1),
{
    let available_height = area.height.saturating_sub(reserved_height);
    let width_scale = area.width / (if width < 1 { 1 } else { width });
    let height_scale = available_height / (if height < 1 { 1 } else { height });
    let fit = if width_scale <= height_scale { width_scale } else { height_scale };
    let top = if max_scale < 1 { 1 } else { max_scale };
    if fit < 1 {
        1
    } else if fit > top {
        top
    } else {
        fit
    }
}

/// The scale fits the art into the room left in both directions: at the chosen scale
/// the art is no wider than the area and no taller than the rows above the reserved
/// ones, unless even scale one does not fit (then the scale is one). And it is the
/// largest such scale: one more would overflow the width or the height, unless the
/// scale is already the largest allowed.
pub proof fn lemma_art_scale_fits(area: Area, width: u16, height: u16, reserved_height: u16, max_scale: u16)
    ensures
        ({
            let r = art_scale_spec(area, width, height, reserved_height, max_scale) as int;
            let w = max16(width, 1) as int;
            let h = max16(height, 1) as int;
            let room = sat_sub(area.height, reserved_height) as int;
            &&& 1 <= r <= max16(max_scale, 1)
            &&& r == 1 || (r * w <= area.width && r * h <= room)
            &&& r == max16(max_scale, 1) || (r + 1) * w > area.width || (r + 1) * h > room
        }),
{
    let r = art_scale_spec(area, width, height, reserved_height, max_scale) as int;
    let w = max16(width, 1) as int;
    let h = max16(height, 1) as int;
    let aw = area.width as int;
    let room = sat_sub(area.height, reserved_height) as int;
    let ws = aw / w;
    let hs = room / h;
    assert(ws * w <= aw < (ws + 1) * w) by (nonlinear_arith)
        requires
            ws == aw / w,
            w >= 1,
            aw >= 0,
    {
        vstd::arithmetic::div_mod::lemma_fundamental_div_mod(aw, w);
    }
    assert(hs * h <= room < (hs + 1) * h) by (nonlinear_arith)
        requires
            hs == room / h,
            h >= 1,
            room >= 0,
    {
        vstd::arithmetic::div_mod::lemma_fundamental_div_mod(room, h);
    }
    assert(0 <= ws <= aw && 0 <= hs <= room) by (nonlinear_arith)
        requires
            ws * w <= aw < (ws + 1) * w,
            hs * h <= room < (hs + 1) * h,
            w >= 1,
            h >= 1,
            aw >= 0,
            room >= 0,
    ;
    if r > 1 || r < max16(max_scale, 1) {
        assert(r <= ws && r <= hs ==> r * w <= aw && r * h <= room) by (nonlinear_arith)
            requires
                ws * w <= aw,
                hs * h <= room,
                w >= 1,
                h >= 1,
                r >= 0,
        ;
        assert(r >= ws || r >= hs ==> (r + 1) * w > aw || (r + 1) * h > room) by (nonlinear_arith)
            requires
                aw < (ws + 1) * w,
                room < (hs + 1) * h,
                w >= 1,
                h >= 1,
        ;
    }
}

/// `v` taken as an `i16` with wrap-around, for `v` within twice the range of `i16`:
/// what a wrapping addition of two `i16` gives.
pub open spec fn wrap_i16(v: int) -> int {
    if v > i16::MAX {
        v - 0x1_0000
    } else if v < i16::MIN {
        v + 0x1_0000
    } else {
        v
    }
}

/// The room left on an axis of `available` cells for an object of `size` cells.
pub open spec fn axis_room(available: u16, size: u16) -> int {
    if available > size {
        available - size
    } else {
        0
    }
}

/// Position `value` folded back and forth onto `0..=room`: it climbs from zero to
/// `room`, then falls back to zero, with period `2 * room`.
pub open spec fn bounce(value: int, room: int) -> int {
    let period = 2 * room;
    let v = value % period;
    if v <= room {
        v
    } else {
        period - v
    }
}

/// The offset on an axis for a moving object at position `value`: its position
/// bouncing within the room left (see `bounce`). There is no room to move when the
/// room is zero or, read as an `i16`, negative (more than `i16::MAX` cells).
pub open spec fn bounded_axis_spec(value: i16, available: u16, size: u16) -> u16 {
    let room = axis_room(available, size);
    if room == 0 || room > i16::MAX {
        0
    } else {
        bounce(value as int, room) as u16
    }
}

/// Whether `bounded_axis` can double the room without overflowing an `i16`.
pub open spec fn axis_fits(available: u16, size: u16) -> bool {
    !(16383 < axis_room(available, size) <= 32767)
}

/// The offset on an axis for a moving object (see `bounded_axis_spec`).
pub fn bounded_axis(value: i16, available: u16, size: u16) -> (r: u16)
    requires
        axis_fits(available, size),
    ensures
        r == bounded_axis_spec(value, available, size),
{
    let room = available.saturating_sub(size);
    if room == 0 || room > 32767 {
        return 0;
    }
    let limit = room as i16;
    let period = limit * 2;
    let folded = value.checked_rem_euclid(period).unwrap();
    let r = if folded <= limit {
        folded
    } else {
        period - folded
    };
    r as u16
}

/// The object never leaves its room: the offset lies between zero and the room.
pub proof fn lemma_bounded_axis_in_room(value: i16, available: u16, size: u16)
    ensures
        0 <= bounded_axis_spec(value, available, size) <= axis_room(available, size),
{
    let room = axis_room(available, size);
    if room > 0 && room <= i16::MAX {
        let v = (value as int) % (2 * room);
        assert(0 <= v < 2 * room);
    }
}

/// The object bounces back and forth: moving on by twice the room brings it back to
/// the same offset.
pub proof fn lemma_bounded_axis_periodic(value: i16, available: u16, size: u16)
    requires
        axis_room(available, size) <= i16::MAX,
        value + 2 * axis_room(available, size) <= i16::MAX,
    ensures
        bounded_axis_spec(value, available, size) == bounded_axis_spec(
            (value + 2 * axis_room(available, size)) as i16,
            available,
            size,
        ),
{
    let room = axis_room(available, size);
    if room > 0 {
        vstd::arithmetic::div_mod::lemma_mod_add_multiples_vanish(value as int, 2 * room);
    }
}

/// The object moves by one cell for each step of its position.
pub proof fn lemma_bounded_axis_steps(value: i16, available: u16, size: u16)
    requires
        0 < axis_room(available, size) <= i16::MAX,
        value < i16::MAX,
    ensures
        ({
            let a = bounded_axis_spec(value, available, size) as int;
            let b = bounded_axis_spec((value + 1) as i16, available, size) as int;
            b == a + 1 || b == a - 1
        }),
{
    let room = axis_room(available, size);
    let p = 2 * room;
    let v = (value as int) % p;
    let w = (value as int + 1) % p;
    vstd::arithmetic::div_mod::lemma_add_mod_noop(value as int, 1, p);
    assert(1int % p == 1) by {
        vstd::arithmetic::div_mod::lemma_small_mod(1, p as nat);
    }
    if v + 1 < p {
        vstd::arithmetic::div_mod::lemma_small_mod((v + 1) as nat, p as nat);
        assert(w == v + 1);
    } else {
        assert(v + 1 == p);
        vstd::arithmetic::div_mod::lemma_mod_self_0(p);
        assert(w == 0);
    }
}

/// Width of a scene's content: the stats panel's minimum or the mascot's width,
/// within the area.
pub open spec fn scene_width(area: Area, mascot_width: u16) -> u16 {
    min16(area.width, max16(STATS_MIN_WIDTH, mascot_width))
}

/// Height of a scene's content: the mascot, one blank row and the stats panel, within
/// the area.
pub open spec fn scene_height(area: Area, mascot_height: u16) -> u16 {
    min16(area.height, (mascot_height + 1 + STATS_HEIGHT) as u16)
}

/// Whether centring a scene in `area` stays within `u16` coordinates.
pub open spec fn centered_fits(area: Area, mascot_width: u16, mascot_height: u16) -> bool {
    &&& mascot_height + 1 + STATS_HEIGHT <= u16::MAX
    &&& area.x + (area.width - scene_width(area, mascot_width)) / 2 <= u16::MAX
    &&& area.y + (area.height - scene_height(area, mascot_height)) / 2 <= u16::MAX
}

/// The content of a scene, centred in `area`.
pub open spec fn centered_scene_spec(area: Area, mascot_width: u16, mascot_height: u16) -> Area {
    let width = scene_width(area, mascot_width);
    let height = scene_height(area, mascot_height);
    Area {
        x: (area.x + (area.width - width) / 2) as u16,
        y: (area.y + (area.height - height) / 2) as u16,
        width,
        height,
    }
}

/// The content of a scene centred in `area` (see `centered_scene_spec`).
pub fn centered_scene_area(area: Area, mascot_width: u16, mascot_height: u16) -> (r: Area)
    requires
        centered_fits(area, mascot_width, mascot_height),
    ensures
        r == centered_scene_spec(area, mascot_width, mascot_height),
{
    let wanted = if STATS_MIN_WIDTH >= mascot_width { STATS_MIN_WIDTH } else { mascot_width };
    let width = if area.width <= wanted { area.width } else { wanted };
    let tall = mascot_height + 1 + STATS_HEIGHT;
    let height = if area.height <= tall { area.height } else { tall };
    Area {
        x: area.x + area.width.saturating_sub(width) / 2,
        y: area.y + area.height.saturating_sub(height) / 2,
        width,
        height,
    }
}

/// Whether centring a scene in `area` stays within `u16` coordinates (see `centered_fits`).
pub fn fits_centered(area: Area, mascot_width: u16, mascot_height: u16) -> (r: bool)
    ensures
        r == centered_fits(area, mascot_width, mascot_height),
{
    if mascot_height as u32 + 1 + STATS_HEIGHT as u32 > 0xFFFF {
        return false;
    }
    let wanted = if STATS_MIN_WIDTH >= mascot_width { STATS_MIN_WIDTH } else { mascot_width };
    let width = if area.width <= wanted { area.width } else { wanted };
    let tall = mascot_height + 1 + STATS_HEIGHT;
    let height = if area.height <= tall { area.height } else { tall };
    area.x as u32 + ((area.width - width) / 2) as u32 <= 0xFFFF && area.y as u32 + ((area.height
        - height) / 2) as u32 <= 0xFFFF
}

/// Whether an object of `size` cells can bounce on an axis of `available` cells (see
/// `axis_fits`).
pub fn fits_axis(available: u16, size: u16) -> (r: bool)
    ensures
        r == axis_fits(available, size),
{
    let room = available.saturating_sub(size);
    !(16383 < room && room <= 32767)
}

/// Where a scene draws: the mascot's scale, the mascot's area and the stats panel's area.
#[derive(Clone, Copy, PartialEq, Eq, Structural, Debug)]
pub struct SceneLayout {
    pub scale: u16,
    pub mascot: Area,
    pub stats: Area,
}

/// The stats panel's area below a mascot of `mascot_height` rows at the top of `content`,
/// cut off at the bottom of `area`.
pub open spec fn stats_area_spec(area: Area, content: Area, mascot_height: u16) -> Area {
    let stats_y = (content.y + mascot_height + 1) as u16;
    Area {
        x: content.x,
        y: stats_y,
        width: content.width,
        height: min16(STATS_HEIGHT, sat_sub(area.bottom_edge(), stats_y)),
    }
}

/// The dashboard's scale: two mascot widths of track above the stats panel.
pub open spec fn dashboard_scale(area: Area) -> u16 {
    art_scale_spec(area, sat_mul(WIDTH, 2), HEIGHT, (STATS_HEIGHT + 1) as u16, STATIONARY_MAX_ART_SCALE)
}

/// The dashboard's content area.
pub open spec fn dashboard_content(area: Area) -> Area {
    let scale = dashboard_scale(area);
    centered_scene_spec(area, sat_mul(scaled_spec(WIDTH, scale), 2), scaled_spec(HEIGHT, scale))
}

/// The track the dashboard's mascot walks along: the content's width (at least the
/// mascot's), within the area.
pub open spec fn dashboard_track_width(area: Area) -> u16 {
    let mascot_width = scaled_spec(WIDTH, dashboard_scale(area));
    min16(max16(dashboard_content(area).width, mascot_width), area.width)
}

/// Whether the dashboard's layout stays within `u16` coordinates.
pub open spec fn dashboard_fits(area: Area, walk: i16) -> bool {
    let scale = dashboard_scale(area);
    let mascot_width = scaled_spec(WIDTH, scale);
    let mascot_height = scaled_spec(HEIGHT, scale);
    let content = dashboard_content(area);
    let track_width = dashboard_track_width(area);
    &&& centered_fits(area, sat_mul(mascot_width, 2), mascot_height)
    &&& axis_fits(track_width, mascot_width)
    &&& content.x + bounded_axis_spec(walk, track_width, mascot_width) <= u16::MAX
    &&& content.y + mascot_height + 1 <= u16::MAX
}

/// The dashboard: the mascot walking to and fro at `walk` along its track at the top of
/// the centred content, the stats panel one row below it.
pub open spec fn dashboard_layout_spec(area: Area, walk: i16) -> SceneLayout {
    let scale = dashboard_scale(area);
    let mascot_width = scaled_spec(WIDTH, scale);
    let mascot_height = scaled_spec(HEIGHT, scale);
    let content = dashboard_content(area);
    let track_width = dashboard_track_width(area);
    let track_height = min16(mascot_height, area.height);
    SceneLayout {
        scale,
        mascot: Area {
            x: (content.x + bounded_axis_spec(walk, track_width, mascot_width)) as u16,
            y: content.y,
            width: min16(mascot_width, track_width),
            height: min16(mascot_height, track_height),
        },
        stats: stats_area_spec(area, content, mascot_height),
    }
}

/// The dashboard's layout in `area` for the walk position `walk`.
pub fn dashboard_layout(area: Area, walk: i16) -> (r: SceneLayout)
    requires
        dashboard_fits(area, walk),
    ensures
        r == dashboard_layout_spec(area, walk),
{
    let scale = art_scale(area, scaled(WIDTH, 2), HEIGHT, STATS_HEIGHT + 1, STATIONARY_MAX_ART_SCALE);
    let mascot_width = scaled(WIDTH, scale);
    let mascot_height = scaled(HEIGHT, scale);
    let content = centered_scene_area(area, scaled(mascot_width, 2), mascot_height);
    let wide = if content.width >= mascot_width { content.width } else { mascot_width };
    let track_width = if wide <= area.width { wide } else { area.width };
    let track_height = if mascot_height <= area.height { mascot_height } else { area.height };
    let mascot = Area {
        x: content.x + bounded_axis(walk, track_width, mascot_width),
        y: content.y,
        width: if mascot_width <= track_width { mascot_width } else { track_width },
        height: if mascot_height <= track_height { mascot_height } else { track_height },
    };
    let stats_y = content.y + mascot_height + 1;
    let room = area.bottom().saturating_sub(stats_y);
    let stats = Area {
        x: content.x,
        y: stats_y,
        width: content.width,
        height: if STATS_HEIGHT <= room { STATS_HEIGHT } else { room },
    };
    SceneLayout { scale, mascot, stats }
}

/// On a terminal with room for the mascot at scale one above the whole stats panel, the
/// dashboard shows the whole panel: all its rows, one blank row below the mascot, and
/// the mascot and the panel within the terminal's rows.
pub proof fn lemma_dashboard_shows_whole_panel(area: Area, walk: i16)
    requires
        dashboard_fits(area, walk),
        area.fits(),
        area.height >= HEIGHT + 1 + STATS_HEIGHT,
    ensures
        ({
            let l = dashboard_layout_spec(area, walk);
            &&& l.stats.height == STATS_HEIGHT
            &&& l.stats.y == l.mascot.y + l.mascot.height + 1
            &&& l.mascot.height == HEIGHT * l.scale
            &&& area.y <= l.mascot.y
            &&& l.stats.y + l.stats.height <= area.y + area.height
        }),
{
    let scale = dashboard_scale(area);
    lemma_art_scale_fits(area, sat_mul(WIDTH, 2), HEIGHT, (STATS_HEIGHT + 1) as u16, STATIONARY_MAX_ART_SCALE);
    assert(1 <= scale <= 2);
    assert(scale * 6 <= area.height - 12);
    let mh = scaled_spec(HEIGHT, scale);
    assert(mh == 6 * scale);
    let content = dashboard_content(area);
    assert(content.height == mh + 12);
    assert(content.y == area.y + (area.height - (mh + 12)) / 2);
}

/// Whether the dashboard's layout stays within `u16` coordinates (see `dashboard_fits`).
pub fn fits_dashboard(area: Area, walk: i16) -> (r: bool)
    ensures
        r == dashboard_fits(area, walk),
{
    let scale = art_scale(area, scaled(WIDTH, 2), HEIGHT, STATS_HEIGHT + 1, STATIONARY_MAX_ART_SCALE);
    let mascot_width = scaled(WIDTH, scale);
    let mascot_height = scaled(HEIGHT, scale);
    if !fits_centered(area, scaled(mascot_width, 2), mascot_height) {
        return false;
    }
    let content = centered_scene_area(area, scaled(mascot_width, 2), mascot_height);
    let wide = if content.width >= mascot_width { content.width } else { mascot_width };
    let track_width = if wide <= area.width { wide } else { area.width };
    if !fits_axis(track_width, mascot_width) {
        return false;
    }
    let offset = bounded_axis(walk, track_width, mascot_width);
    content.x as u32 + offset as u32 <= 0xFFFF && content.y as u32 + mascot_height as u32 + 1 <= 0xFFFF
}

/// Whether a stationary scene's layout stays within `u16` coordinates.
pub open spec fn stationary_fits(area: Area, art_width: u16, art_height: u16) -> bool {
    let scale = art_scale_spec(area, art_width, art_height, (STATS_HEIGHT + 1) as u16, STATIONARY_MAX_ART_SCALE);
    let mascot_width = scaled_spec(art_width, scale);
    let mascot_height = scaled_spec(art_height, scale);
    let content = centered_scene_spec(area, mascot_width, mascot_height);
    &&& centered_fits(area, mascot_width, mascot_height)
    &&& content.x + sat_sub(content.width, mascot_width) / 2 <= u16::MAX
    &&& content.y + mascot_height + 1 <= u16::MAX
}

/// Whether a stationary scene's layout stays within `u16` coordinates (see
/// `stationary_fits`).
pub fn fits_stationary(area: Area, art_width: u16, art_height: u16) -> (r: bool)
    ensures
        r == stationary_fits(area, art_width, art_height),
{
    let scale = art_scale(area, art_width, art_height, STATS_HEIGHT + 1, STATIONARY_MAX_ART_SCALE);
    let mascot_width = scaled(art_width, scale);
    let mascot_height = scaled(art_height, scale);
    if !fits_centered(area, mascot_width, mascot_height) {
        return false;
    }
    let content = centered_scene_area(area, mascot_width, mascot_height);
    content.x as u32 + (content.width.saturating_sub(mascot_width) / 2) as u32 <= 0xFFFF
        && content.y as u32 + mascot_height as u32 + 1 <= 0xFFFF
}

/// A stationary scene (the laptop or the suit): the mascot centred at the top of the
/// centred content, the stats panel one row below it.
pub open spec fn stationary_layout_spec(area: Area, art_width: u16, art_height: u16) -> SceneLayout {
    let scale = art_scale_spec(area, art_width, art_height, (STATS_HEIGHT + 1) as u16, STATIONARY_MAX_ART_SCALE);
    let mascot_width = scaled_spec(art_width, scale);
    let mascot_height = scaled_spec(art_height, scale);
    let content = centered_scene_spec(area, mascot_width, mascot_height);
    SceneLayout {
        scale,
        mascot: Area {
            x: (content.x + sat_sub(content.width, mascot_width) / 2) as u16,
            y: content.y,
            width: min16(mascot_width, content.width),
            height: min16(mascot_height, content.height),
        },
        stats: stats_area_spec(area, content, mascot_height),
    }
}

/// The layout of a stationary scene whose art is `art_width` x `art_height` pixels.
pub fn stationary_layout(area: Area, art_width: u16, art_height: u16) -> (r: SceneLayout)
    requires
        stationary_fits(area, art_width, art_height),
    ensures
        r == stationary_layout_spec(area, art_width, art_height),
{
    let scale = art_scale(area, art_width, art_height, STATS_HEIGHT + 1, STATIONARY_MAX_ART_SCALE);
    let mascot_width = scaled(art_width, scale);
    let mascot_height = scaled(art_height, scale);
    let content = centered_scene_area(area, mascot_width, mascot_height);
    let mascot = Area {
        x: content.x + content.width.saturating_sub(mascot_width) / 2,
        y: content.y,
        width: if mascot_width <= content.width { mascot_width } else { content.width },
        height: if mascot_height <= content.height { mascot_height } else { content.height },
    };
    let stats_y = content.y + mascot_height + 1;
    let room = area.bottom().saturating_sub(stats_y);
    let stats = Area {
        x: content.x,
        y: stats_y,
        width: content.width,
        height: if STATS_HEIGHT <= room { STATS_HEIGHT } else { room },
    };
    SceneLayout { scale, mascot, stats }
}

// ---------------------------------------------------------------------------
// The scenes and what moves in them
// ---------------------------------------------------------------------------

/// The scene on screen.
#[derive(Clone, Copy, PartialEq, Eq, Structural, Debug)]
pub enum ViewMode {
    /// The mascot walking above the stats panel.
    Dashboard,
    /// The mascot coding on a laptop above the stats panel.
    Coding,
    /// The suited mascot above the stats panel.
    Suit,
    /// The mascot roaming the whole screen.
    Roam,
}

/// The scene that follows `mode` when cycling: dashboard, laptop, suit, roaming.
pub open spec fn next_mode(mode: ViewMode) -> ViewMode {
    match mode {
        ViewMode::Dashboard => ViewMode::Coding,
        ViewMode::Coding => ViewMode::Suit,
        ViewMode::Suit => ViewMode::Roam,
        ViewMode::Roam => ViewMode::Dashboard,
    }
}

/// The scene that a control command's scene selects.
pub open spec fn mode_for(scene: ControlScene) -> ViewMode {
    match scene {
        ControlScene::Dashboard => ViewMode::Dashboard,
        ControlScene::Coding => ViewMode::Coding,
        ControlScene::Suit => ViewMode::Suit,
        ControlScene::Roam => ViewMode::Roam,
    }
}

/// A key as the dashboard reads it.
#[derive(Clone, Copy, PartialEq, Eq, Structural, Debug)]
pub enum Key {
    Esc,
    Tab,
    Char(char),
    /// Any other key.
    Other,
}

/// An input event as the dashboard reads it.
#[derive(Clone, Copy, PartialEq, Eq, Structural, Debug)]
pub enum InputEvent {
    /// A key pressed (not released or repeated), and whether Control was held.
    KeyPress { key: Key, control: bool },
    /// Any other event.
    Other,
}

/// Whether a key press ends the dashboard: Esc, `q`, or Control-`c`.
pub open spec fn is_quit(key: Key, control: bool) -> bool {
    key == Key::Esc || key == Key::Char('q') || (key == Key::Char('c') && control)
}

/// The scene after pressing `key` in `mode`: Tab or `r` cycle the scenes, `c` toggles
/// the laptop scene and `s` the suit scene (back to the dashboard), other keys change
/// nothing.
pub open spec fn mode_after_key(mode: ViewMode, key: Key) -> ViewMode {
    if key == Key::Tab || key == Key::Char('r') {
        next_mode(mode)
    } else if key == Key::Char('c') {
        if mode == ViewMode::Coding {
            ViewMode::Dashboard
        } else {
            ViewMode::Coding
        }
    } else if key == Key::Char('s') {
        if mode == ViewMode::Suit {
            ViewMode::Dashboard
        } else {
            ViewMode::Suit
        }
    } else {
        mode
    }
}

/// The state of the dashboard's scenes: the roaming mascot's position and step, the
/// walking mascot's position on its track, the animations' frames and the scene shown.
pub struct SceneState {
    x: i16,
    y: i16,
    dx: i16,
    dy: i16,
    dashboard_x: i16,
    frame: usize,
    coding_frame: usize,
    suit_frame: usize,
    mode: ViewMode,
}

impl SceneState {
    /// Every animation frame is one of its animation's frames.
    #[verifier::type_invariant]
    spec fn frames_in_range(self) -> bool {
        &&& self.frame < WALK_FRAMES
        &&& self.coding_frame < CODING_FRAMES
        &&& self.suit_frame < SUIT_FRAMES
    }

    /// The roaming mascot's column position.
    pub closed spec fn roam_x(self) -> i16 {
        self.x
    }

    /// The roaming mascot's row position.
    pub closed spec fn roam_y(self) -> i16 {
        self.y
    }

    /// The roaming mascot's move per tick along columns.
    pub closed spec fn step_x(self) -> i16 {
        self.dx
    }

    /// The roaming mascot's move per tick along rows.
    pub closed spec fn step_y(self) -> i16 {
        self.dy
    }

    /// The walking mascot's position on its track.
    pub closed spec fn walk_x(self) -> i16 {
        self.dashboard_x
    }

    /// The walking animation's frame.
    pub closed spec fn walk_frame(self) -> usize {
        self.frame
    }

    /// The laptop animation's frame.
    pub closed spec fn laptop_frame(self) -> usize {
        self.coding_frame
    }

    /// The suited animation's frame.
    pub closed spec fn suited_frame(self) -> usize {
        self.suit_frame
    }

    /// The scene shown.
    pub closed spec fn view_mode(self) -> ViewMode {
        self.mode
    }

    /// Whether two states agree on everything but the scene shown.
    pub open spec fn same_motion(self, other: Self) -> bool {
        &&& self.roam_x() == other.roam_x()
        &&& self.roam_y() == other.roam_y()
        &&& self.step_x() == other.step_x()
        &&& self.step_y() == other.step_y()
        &&& self.walk_x() == other.walk_x()
        &&& self.walk_frame() == other.walk_frame()
        &&& self.laptop_frame() == other.laptop_frame()
        &&& self.suited_frame() == other.suited_frame()
    }

    /// The start: the dashboard, everything at zero, the roaming mascot heading down
    /// and right by one cell per tick.
    pub fn new() -> (s: Self)
        ensures
            s.roam_x() == 0 && s.roam_y() == 0,
            s.step_x() == 1 && s.step_y() == 1,
            s.walk_x() == 0,
            s.walk_frame() == 0 && s.laptop_frame() == 0 && s.suited_frame() == 0,
            s.view_mode() == ViewMode::Dashboard,
    {
        SceneState {
            x: 0,
            y: 0,
            dx: 1,
            dy: 1,
            dashboard_x: 0,
            frame: 0,
            coding_frame: 0,
            suit_frame: 0,
            mode: ViewMode::Dashboard,
        }
    }

    /// The roaming mascot's column position.
    pub fn x(&self) -> (r: i16)
        ensures
            r == self.roam_x(),
    {
        self.x
    }

    /// The roaming mascot's row position.
    pub fn y(&self) -> (r: i16)
        ensures
            r == self.roam_y(),
    {
        self.y
    }

    /// The walking mascot's position on its track.
    pub fn dashboard_x(&self) -> (r: i16)
        ensures
            r == self.walk_x(),
    {
        self.dashboard_x
    }

    /// The walking animation's frame.
    pub fn frame(&self) -> (r: usize)
        ensures
            r == self.walk_frame(),
            r < WALK_FRAMES,
    {
        proof {
            use_type_invariant(self);
        }
        self.frame
    }

    /// The laptop animation's frame.
    pub fn coding_frame(&self) -> (r: usize)
        ensures
            r == self.laptop_frame(),
            r < CODING_FRAMES,
    {
        proof {
            use_type_invariant(self);
        }
        self.coding_frame
    }

    /// The suited animation's frame.
    pub fn suit_frame(&self) -> (r: usize)
        ensures
            r == self.suited_frame(),
            r < SUIT_FRAMES,
    {
        proof {
            use_type_invariant(self);
        }
        self.suit_frame
    }

    /// The scene shown.
    pub fn mode(&self) -> (r: ViewMode)
        ensures
            r == self.view_mode(),
    {
        self.mode
    }

    /// One animation tick: the roaming mascot moves by its step, the walking mascot by
    /// one cell, and every animation shows its next frame (wrapping around). Positions
    /// wrap around at the ends of `i16`.
    pub fn tick(&mut self)
        ensures
            final(self).roam_x() == wrap_i16(old(self).roam_x() + old(self).step_x()),
            final(self).roam_y() == wrap_i16(old(self).roam_y() + old(self).step_y()),
            final(self).step_x() == old(self).step_x(),
            final(self).step_y() == old(self).step_y(),
            final(self).walk_x() == wrap_i16(old(self).walk_x() + 1),
            final(self).walk_frame() == (old(self).walk_frame() + 1) % (WALK_FRAMES as int),
            final(self).laptop_frame() == (old(self).laptop_frame() + 1) % (CODING_FRAMES as int),
            final(self).suited_frame() == (old(self).suited_frame() + 1) % (SUIT_FRAMES as int),
            final(self).view_mode() == old(self).view_mode(),
    {
        proof {
            use_type_invariant(&*self);
        }
        self.x = self.x.wrapping_add(self.dx);
        self.y = self.y.wrapping_add(self.dy);
        self.dashboard_x = self.dashboard_x.wrapping_add(1);
        self.frame = (self.frame + 1) % crate::clawd::frame_count();
        self.coding_frame = (self.coding_frame + 1) % crate::clawd::coding_frame_count();
        self.suit_frame = (self.suit_frame + 1) % crate::clawd::suit_frame_count();
    }

    /// Back to the dashboard with both mascots at their start; frames and steps stay.
    pub fn reset_scene(&mut self)
        ensures
            final(self).view_mode() == ViewMode::Dashboard,
            final(self).walk_x() == 0,
            final(self).roam_x() == 0,
            final(self).roam_y() == 0,
            final(self).step_x() == old(self).step_x(),
            final(self).step_y() == old(self).step_y(),
            final(self).walk_frame() == old(self).walk_frame(),
            final(self).laptop_frame() == old(self).laptop_frame(),
            final(self).suited_frame() == old(self).suited_frame(),
    {
        proof {
            use_type_invariant(&*self);
        }
        self.mode = ViewMode::Dashboard;
        self.dashboard_x = 0;
        self.x = 0;
        self.y = 0;
    }

    /// Shows the scene that `scene` selects; nothing else changes.
    pub fn set_scene(&mut self, scene: ControlScene)
        ensures
            final(self).view_mode() == mode_for(scene),
            final(self).same_motion(*old(self)),
    {
        proof {
            use_type_invariant(&*self);
        }
        self.mode = match scene {
            ControlScene::Dashboard => ViewMode::Dashboard,
            ControlScene::Coding => ViewMode::Coding,
            ControlScene::Suit => ViewMode::Suit,
            ControlScene::Roam => ViewMode::Roam,
        };
    }

    /// Carries out one command of the control API.
    pub fn handle_control_command(&mut self, command: ControlCommand)
        ensures
            match command {
                ControlCommand::Reset => {
                    &&& final(self).view_mode() == ViewMode::Dashboard
                    &&& final(self).walk_x() == 0
                    &&& final(self).roam_x() == 0
                    &&& final(self).roam_y() == 0
                    &&& final(self).step_x() == old(self).step_x()
                    &&& final(self).step_y() == old(self).step_y()
                    &&& final(self).walk_frame() == old(self).walk_frame()
                    &&& final(self).laptop_frame() == old(self).laptop_frame()
                    &&& final(self).suited_frame() == old(self).suited_frame()
                },
                ControlCommand::SetScene(scene) => {
                    &&& final(self).view_mode() == mode_for(scene)
                    &&& final(self).same_motion(*old(self))
                },
            },
    {
        match command {
            ControlCommand::Reset => self.reset_scene(),
            ControlCommand::SetScene(scene) => self.set_scene(scene),
        }
    }

    /// Reacts to an input event and says whether the dashboard should end: a quit key
    /// ends it, other key presses switch scenes (see `mode_after_key`), other events
    /// change nothing. Only the scene shown ever changes.
    pub fn handle_event(&mut self, event: InputEvent) -> (quit: bool)
        ensures
            final(self).same_motion(*old(self)),
            match event {
                InputEvent::KeyPress { key, control } => {
                    &&& quit == is_quit(key, control)
                    &&& final(self).view_mode() == if quit {
                        old(self).view_mode()
                    } else {
                        mode_after_key(old(self).view_mode(), key)
                    }
                },
                InputEvent::Other => !quit && final(self).view_mode() == old(self).view_mode(),
            },
    {
        proof {
            use_type_invariant(&*self);
        }
        let (key, control) = match event {
            InputEvent::KeyPress { key, control } => (key, control),
            InputEvent::Other => return false,
        };
        let is_char_c = match key {
            Key::Char(c) => c == 'c',
            _ => false,
        };
        let is_quit_key = match key {
            Key::Esc => true,
            Key::Char(c) => c == 'q',
            _ => false,
        };
        if is_quit_key || (is_char_c && control) {
            return true;
        }
        let cycles = match key {
            Key::Tab => true,
            Key::Char(c) => c == 'r',
            _ => false,
        };
        if cycles {
            self.mode = match self.mode {
                ViewMode::Dashboard => ViewMode::Coding,
                ViewMode::Coding => ViewMode::Suit,
                ViewMode::Suit => ViewMode::Roam,
                ViewMode::Roam => ViewMode::Dashboard,
            };
        }
        if is_char_c {
            self.mode = match self.mode {
                ViewMode::Coding => ViewMode::Dashboard,
                _ => ViewMode::Coding,
            };
        }
        let is_char_s = match key {
            Key::Char(c) => c == 's',
            _ => false,
        };
        if is_char_s {
            self.mode = match self.mode {
                ViewMode::Suit => ViewMode::Dashboard,
                _ => ViewMode::Suit,
            };
        }
        false
    }

    /// Whether the roaming mascot's area in `terminal` stays within `u16` coordinates
    /// (see `roam_fits`).
    pub fn fits_roam(&self, terminal: Area) -> (r: bool)
        ensures
            r == roam_fits(self.roam_x(), self.roam_y(), terminal),
    {
        let scale = art_scale(terminal, WIDTH, HEIGHT, 0, STATIONARY_MAX_ART_SCALE);
        let width = scaled(WIDTH, scale);
        let height = scaled(HEIGHT, scale);
        if !fits_axis(terminal.width, width) || !fits_axis(terminal.height, height) {
            return false;
        }
        let x = bounded_axis(self.x, terminal.width, width);
        let y = bounded_axis(self.y, terminal.height, height);
        terminal.x as u32 + x as u32 <= 0xFFFF && terminal.y as u32 + y as u32 <= 0xFFFF
    }

    /// Where the roaming mascot is drawn in `terminal` (see `roam_area_spec`).
    pub fn roam_area(&self, terminal: Area) -> (r: Area)
        requires
            roam_fits(self.roam_x(), self.roam_y(), terminal),
        ensures
            r == roam_area_spec(self.roam_x(), self.roam_y(), terminal),
    {
        let scale = art_scale(terminal, WIDTH, HEIGHT, 0, STATIONARY_MAX_ART_SCALE);
        let width = scaled(WIDTH, scale);
        let height = scaled(HEIGHT, scale);
        let x = bounded_axis(self.x, terminal.width, width);
        let y = bounded_axis(self.y, terminal.height, height);
        Area {
            x: terminal.x + x,
            y: terminal.y + y,
            width: if width <= terminal.width { width } else { terminal.width },
            height: if height <= terminal.height { height } else { terminal.height },
        }
    }
}

/// The roaming mascot's scale in `terminal`.
pub open spec fn roam_scale(terminal: Area) -> u16 {
    art_scale_spec(terminal, WIDTH, HEIGHT, 0, STATIONARY_MAX_ART_SCALE)
}

/// Whether the roaming mascot's area stays within `u16` coordinates.
pub open spec fn roam_fits(x: i16, y: i16, terminal: Area) -> bool {
    let width = scaled_spec(WIDTH, roam_scale(terminal));
    let height = scaled_spec(HEIGHT, roam_scale(terminal));
    &&& axis_fits(terminal.width, width)
    &&& axis_fits(terminal.height, height)
    &&& terminal.x + bounded_axis_spec(x, terminal.width, width) <= u16::MAX
    &&& terminal.y + bounded_axis_spec(y, terminal.height, height) <= u16::MAX
}

/// The roaming mascot at position (`x`, `y`) bounces within `terminal` on both axes.
pub open spec fn roam_area_spec(x: i16, y: i16, terminal: Area) -> Area {
    let width = scaled_spec(WIDTH, roam_scale(terminal));
    let height = scaled_spec(HEIGHT, roam_scale(terminal));
    Area {
        x: (terminal.x + bounded_axis_spec(x, terminal.width, width)) as u16,
        y: (terminal.y + bounded_axis_spec(y, terminal.height, height)) as u16,
        width: min16(width, terminal.width),
        height: min16(height, terminal.height),
    }
}

/// The roaming mascot never leaves the terminal.
pub proof fn lemma_roam_stays_on_screen(x: i16, y: i16, terminal: Area)
    requires
        terminal.fits(),
        roam_fits(x, y, terminal),
    ensures
        terminal.contains_area(roam_area_spec(x, y, terminal)),
{
    let width = scaled_spec(WIDTH, roam_scale(terminal));
    let height = scaled_spec(HEIGHT, roam_scale(terminal));
    lemma_bounded_axis_in_room(x, terminal.width, width);
    lemma_bounded_axis_in_room(y, terminal.height, height);
}

/// Four presses of Tab (or `r`) come back to the scene they started from, through
/// every other scene.
pub proof fn lemma_tab_cycles_through_scenes(mode: ViewMode)
    ensures
        mode_after_key(mode, Key::Tab) != mode,
        mode_after_key(mode_after_key(mode, Key::Tab), Key::Tab) != mode,
        mode_after_key(mode_after_key(mode_after_key(mode, Key::Tab), Key::Tab), Key::Tab) != mode,
        mode_after_key(
            mode_after_key(mode_after_key(mode_after_key(mode, Key::Tab), Key::Tab), Key::Tab),
            Key::Tab,
        ) == mode,
{
}

/// The control API selects the same scenes as the keys: the laptop scene is the one `c`
/// shows from the dashboard, the suit scene the one `s` shows, the roaming scene the one
/// Tab reaches after the suit scene, and the dashboard the one `c` goes back to; no two
/// control scenes show the same scene.
pub proof fn lemma_control_scenes_match_keys(a: ControlScene, b: ControlScene)
    ensures
        mode_for(ControlScene::Coding) == mode_after_key(ViewMode::Dashboard, Key::Char('c')),
        mode_for(ControlScene::Suit) == mode_after_key(ViewMode::Dashboard, Key::Char('s')),
        mode_for(ControlScene::Roam) == mode_after_key(mode_for(ControlScene::Suit), Key::Tab),
        mode_for(ControlScene::Dashboard) == mode_after_key(mode_for(ControlScene::Coding), Key::Char('c')),
        mode_for(a) == mode_for(b) ==> a == b,
{
}

/// `c` shows the laptop scene from every other scene and leaves it for the dashboard;
/// `s` likewise shows the suit scene.
pub proof fn lemma_scene_keys_select(mode: ViewMode)
    ensures
        mode_after_key(mode, Key::Char('c')) == if mode == ViewMode::Coding {
            ViewMode::Dashboard
        } else {
            ViewMode::Coding
        },
        mode_after_key(mode, Key::Char('s')) == if mode == ViewMode::Suit {
            ViewMode::Dashboard
        } else {
            ViewMode::Suit
        },
{
}

/// `c` toggles the laptop scene and `s` the suit scene: pressed twice from the
/// dashboard or from their own scene, they come back to it.
pub proof fn lemma_scene_keys_toggle(mode: ViewMode)
    ensures
        (mode == ViewMode::Dashboard || mode == ViewMode::Coding) ==> mode_after_key(
            mode_after_key(mode, Key::Char('c')),
            Key::Char('c'),
        ) == mode,
        (mode == ViewMode::Dashboard || mode == ViewMode::Suit) ==> mode_after_key(
            mode_after_key(mode, Key::Char('s')),
            Key::Char('s'),
        ) == mode,
{
}

} // verus!
