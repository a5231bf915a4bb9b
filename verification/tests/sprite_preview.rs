use raspberry_pi_display::sprite_preview::{can_render_sheet, color_for, render_sheet};

#[test]
fn preview_palette() {
    assert_eq!(color_for('#'), Some((216, 122, 88, 255)));
    assert_eq!(color_for('!'), Some((216, 122, 88, 255)));
    assert_eq!(color_for('S'), Some((28, 32, 40, 255)));
    assert_eq!(color_for(' '), None);
}

#[test]
fn sheet_size_and_pixels() {
    let frames = ["#.\n.@", "..\n.."];
    assert!(can_render_sheet(&frames, 2, 2));
    let sheet = render_sheet(&frames, 2, 2);
    let (w, h, bytes) = sheet.into_rgba();
    assert_eq!((w, h), (36 + 18 * 2 + 18, 36 + 36));
    assert_eq!(bytes.len(), 4 * (w * h) as usize);
    let pixel = |x: u32, y: u32| {
        let i = 4 * (y * w + x) as usize;
        (bytes[i], bytes[i + 1], bytes[i + 2], bytes[i + 3])
    };
    assert_eq!(pixel(0, 0), (24, 24, 24, 255));
    assert_eq!(pixel(18, 18), (216, 122, 88, 255));
    assert_eq!(pixel(26, 35), (216, 122, 88, 255));
    assert_eq!(pixel(27, 18), (24, 24, 24, 255));
    assert_eq!(pixel(27, 36), (84, 88, 96, 255));
    assert_eq!(pixel(35, 53), (84, 88, 96, 255));
    assert_eq!(pixel(36, 54), (24, 24, 24, 255));
    assert_eq!(pixel(54, 18), (24, 24, 24, 255));
}

#[test]
fn sheets_that_cannot_be_drawn() {
    let none: [&str; 0] = [];
    assert!(!can_render_sheet(&none, 16, 6));
    assert!(can_render_sheet(&["####"], 2, 2));
    assert!(!can_render_sheet(&["#####"], 2, 2));
    assert!(can_render_sheet(&["#\n#\n#"], 2, 2));
    assert!(!can_render_sheet(&["#\n#\n#\n#"], 2, 2));
    assert!(can_render_sheet(&["##\n##"], 2, 2));
}
