use sketchpad::{
    append_input_to_working_text, check_collision_circles, BackgroundColor, Color,
    ForegroundColor, Point, Stroke, Text, TextColor, TextSize,
};

#[test]
fn defaults_match_the_board() {
    assert_eq!(TextSize::default(), TextSize(50));
    assert_eq!(BackgroundColor::default().0, Color::white());
    assert_eq!(ForegroundColor::default().0, Color::black());
    assert_eq!(TextColor::default().0, Color::black());
    assert_eq!(Color::black(), Color { r: 0, g: 0, b: 0, a: 255 });
}

#[test]
fn new_stroke_is_empty() {
    let stroke = Stroke::new(Color::white(), 12);
    assert!(stroke.points.is_empty());
    assert_eq!(stroke.brush_size, 12);
    assert_eq!(stroke.color, Color::white());
}

#[test]
fn typing_opens_a_label() {
    let mut working = None;
    append_input_to_working_text('h' as u32, &mut working, TextSize(30), TextColor(Color::white()));
    append_input_to_working_text('é' as u32, &mut working, TextSize(99), TextColor::default());
    let text = working.expect("a label was opened");
    assert_eq!(text.content, "hé");
    assert_eq!(text.size, TextSize(30));
    assert_eq!(text.color, TextColor(Color::white()));
    assert_eq!(text.position, None);
}

#[test]
fn typing_extends_an_open_label() {
    let mut working = Some(Text {
        content: "ab".to_string(),
        position: Some(Point { x: 3, y: 4 }),
        size: TextSize(10),
        color: TextColor::default(),
    });
    append_input_to_working_text('c' as u32, &mut working, TextSize(40), TextColor::default());
    let text = working.unwrap();
    assert_eq!(text.content, "abc");
    assert_eq!(text.position, Some(Point { x: 3, y: 4 }));
    assert_eq!(text.size, TextSize(10));
}

#[test]
fn invalid_code_points_are_ignored() {
    let mut working = None;
    append_input_to_working_text(0xD800, &mut working, TextSize(20), TextColor::default());
    append_input_to_working_text(0x110000, &mut working, TextSize(20), TextColor::default());
    assert_eq!(working.unwrap().content, "");
}

#[test]
fn circles_touch_exactly_at_sum_of_radii() {
    let origin = Point { x: 0, y: 0 };
    assert!(check_collision_circles(origin, 6, Point { x: 3, y: 4 }, 4));
    assert!(!check_collision_circles(origin, 6, Point { x: 3, y: 5 }, 4));
    assert!(check_collision_circles(origin, 0, origin, 0));
    assert!(!check_collision_circles(origin, 0, Point { x: 1, y: 0 }, 1));
    assert!(check_collision_circles(origin, 1, Point { x: 1, y: 0 }, 1));
}

#[test]
fn circles_far_apart_at_extreme_coordinates() {
    let low = Point { x: i32::MIN, y: i32::MIN };
    let high = Point { x: i32::MAX, y: i32::MAX };
    assert!(!check_collision_circles(low, u32::MAX, high, u32::MAX));
    assert!(check_collision_circles(low, u32::MAX, low, 0));
}

#[test]
fn text_size_steps_saturate() {
    assert_eq!(TextSize(50).changed_by(true, 3), TextSize(53));
    assert_eq!(TextSize(50).changed_by(false, 3), TextSize(47));
    assert_eq!(TextSize(50).changed_by(true, 0), TextSize(51));
    assert_eq!(TextSize(50).changed_by(false, 0), TextSize(49));
    assert_eq!(TextSize(2).changed_by(false, 5), TextSize(0));
    assert_eq!(TextSize(u32::MAX - 1).changed_by(true, 5), TextSize(u32::MAX));
}
