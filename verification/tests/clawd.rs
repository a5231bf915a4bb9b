use raspberry_pi_display::clawd::{
    coding_frame_count, color_for, frame_count, frame_fits, render_pixels, suit_frame_count,
    Clawd, CodingClawd, PaintedCell, Rgb, SuitClawd,
};
use raspberry_pi_display::scene::Area;

const BODY: Rgb = Rgb { r: 216, g: 122, b: 88 };

#[test]
fn frame_counts() {
    assert_eq!(frame_count(), 4);
    assert_eq!(coding_frame_count(), 3);
    assert_eq!(suit_frame_count(), 4);
}

#[test]
fn mascots_wrap_frames_and_scale_at_least_one() {
    let c = Clawd::scaled(5, 0);
    assert_eq!((c.frame(), c.scale()), (1, 1));
    let c = CodingClawd::scaled(7, 2);
    assert_eq!((c.frame(), c.scale()), (1, 2));
    let c = SuitClawd::scaled(3, 3);
    assert_eq!((c.frame(), c.scale()), (3, 3));
}

#[test]
fn sprite_palette() {
    assert_eq!(color_for('#'), Some(BODY));
    assert_eq!(color_for('!'), Some(BODY));
    assert_eq!(color_for('@'), Some(Rgb { r: 84, g: 88, b: 96 }));
    assert_eq!(color_for('+'), Some(Rgb { r: 54, g: 148, b: 218 }));
    assert_eq!(color_for('*'), Some(Rgb { r: 154, g: 230, b: 180 }));
    assert_eq!(color_for('S'), Some(Rgb { r: 28, g: 32, b: 40 }));
    assert_eq!(color_for('%'), Some(Rgb { r: 238, g: 238, b: 228 }));
    assert_eq!(color_for('.'), None);
    assert_eq!(color_for(' '), None);
}

fn cell(x: u16, y: u16) -> PaintedCell {
    PaintedCell { x, y, color: BODY }
}

#[test]
fn pixels_at_scale_one() {
    let area = Area { x: 10, y: 5, width: 20, height: 10 };
    let cells = render_pixels(".#\n#.", area, 1);
    assert_eq!(cells, vec![cell(11, 5), cell(10, 6)]);
}

#[test]
fn pixels_at_scale_two() {
    let area = Area { x: 0, y: 0, width: 20, height: 10 };
    let cells = render_pixels("#", area, 2);
    assert_eq!(cells, vec![cell(0, 0), cell(1, 0), cell(0, 1), cell(1, 1)]);
}

#[test]
fn pixels_are_clipped_to_the_area() {
    let area = Area { x: 0, y: 0, width: 3, height: 1 };
    let cells = render_pixels("##\n##", area, 2);
    assert_eq!(cells, vec![cell(0, 0), cell(1, 0), cell(2, 0)]);
    for c in render_pixels("#.#.#\n.#.#.\n#####", Area { x: 2, y: 3, width: 4, height: 2 }, 1) {
        assert!(c.x >= 2 && c.x < 6 && c.y >= 3 && c.y < 5);
    }
}

#[test]
fn carriage_returns_and_transparent_pixels() {
    let area = Area { x: 0, y: 0, width: 10, height: 10 };
    let cells = render_pixels("#\r\n .@", area, 1);
    assert_eq!(
        cells,
        vec![cell(0, 0), PaintedCell { x: 2, y: 1, color: Rgb { r: 84, g: 88, b: 96 } }]
    );
}

#[test]
fn pixel_corners_must_fit() {
    let area = Area { x: 65530, y: 0, width: 5, height: 5 };
    assert!(frame_fits("#####", area, 1));
    assert!(!frame_fits("......#", area, 1));
    assert!(frame_fits("......", area, 1));
    assert!(frame_fits("#\n#", Area { x: 0, y: 0, width: 1, height: 1 }, 40000));
    assert!(!frame_fits("#\n\n#", Area { x: 0, y: 0, width: 1, height: 1 }, 40000));
}
