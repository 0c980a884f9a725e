use canticlec_churn::context_menu::{draw_ball_menu, draw_color_menu, draw_direction_menu};

fn frame() -> Vec<u8> {
    vec![0u8; 640 * 630 * 4]
}

fn pixel(f: &[u8], x: usize, y: usize) -> [u8; 4] {
    let i = (y * 640 + x) * 4;
    [f[i], f[i + 1], f[i + 2], f[i + 3]]
}

#[test]
fn the_direction_menu_opens_right_of_the_ball() {
    let mut f = frame();
    let runs = draw_direction_menu(&mut f, 0, 0, 2);
    assert_eq!(pixel(&f, 40, 0), [255, 255, 255, 255]);
    assert_eq!(pixel(&f, 41, 1), [40, 40, 40, 255]);
    assert_eq!(pixel(&f, 240, 1), [0, 0, 0, 0]);
    assert_eq!(runs.len(), 8);
    assert_eq!((runs[0].text.as_str(), runs[0].x, runs[0].y, runs[0].selected), ("Up", 45, 5, false));
    assert_eq!((runs[2].text.as_str(), runs[2].y, runs[2].selected), ("Left", 41, true));
    assert_eq!(runs[7].text, "Down-Right");
    assert_eq!(runs[7].color, [200, 200, 200]);
}

#[test]
fn a_menu_near_the_corner_opens_left_and_up() {
    let mut f = frame();
    let runs = draw_direction_menu(&mut f, 15, 11, 0);
    // 15 * 40 - 200 = 400; 480 - 320 = 160.
    assert_eq!((runs[0].x, runs[0].y), (405, 165));
    assert_eq!(pixel(&f, 400, 160), [255, 255, 255, 255]);
    assert_eq!(pixel(&f, 599, 479), [255, 255, 255, 255]);
}

#[test]
fn the_colour_menu_shows_a_swatch_per_colour() {
    let mut f = frame();
    let runs = draw_color_menu(&mut f, 2, 1, 7);
    // The menu opens at (120, 40); the swatches 18 pixels apart from (125, 47).
    assert_eq!(pixel(&f, 125, 47), [255, 0, 0, 255]);
    assert_eq!(pixel(&f, 136, 58), [255, 0, 0, 255]);
    assert_eq!(pixel(&f, 125, 65), [0, 255, 0, 255]);
    assert_eq!(pixel(&f, 125, 47 + 7 * 18), [255, 165, 0, 255]);
    assert_eq!((runs[7].text.as_str(), runs[7].x, runs[7].y, runs[7].selected), ("Orange", 145, 171, true));
}

#[test]
fn the_ball_menu_names_the_ball_and_its_sample() {
    let mut f = frame();
    let runs = draw_ball_menu(&mut f, 1, 1, 3, 3, "Red", Some("kick.wav"));
    // The menu opens at (80, 40); a grey rule under the heading.
    assert_eq!(pixel(&f, 85, 65), [150, 150, 150, 255]);
    assert_eq!(pixel(&f, 84, 65), [40, 40, 40, 255]);
    assert_eq!((runs[0].text.as_str(), runs[0].x, runs[0].y), ("Ball 3 (Red)", 85, 45));
    assert_eq!(runs[0].color, [255, 255, 255]);
    let texts: Vec<&str> = runs.iter().map(|r| r.text.as_str()).collect();
    assert_eq!(texts, vec!["Ball 3 (Red)", "Direction", "Speed", "Relative Speed", "Sample (kick.wav)", "Color"]);
    assert!(runs[4].selected);
    assert_eq!(runs[5].y, 40 + 35 + 4 * 20);
    let runs = draw_ball_menu(&mut frame(), 1, 1, 0, 0, "White", None);
    assert_eq!(runs[4].text, "Sample");
}
