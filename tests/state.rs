use sketchpad::{Action, Color, Point, State, Stroke, Text, TextColor, TextSize};

fn stroke_at(points: &[(i32, i32)], brush_size: u32) -> Stroke {
    let mut stroke = Stroke::new(Color::black(), brush_size);
    for &(x, y) in points {
        stroke.points.push(Point { x, y });
    }
    stroke
}

#[test]
fn it_undoes_and_redoes_strokes() {
    let mut state = State::default();
    let stroke = Stroke {
        points: vec![],
        color: Color::black(),
        brush_size: 10,
    };

    state.add_stroke_with_undo(stroke);
    assert_eq!(state.strokes.slots.len(), 1);
    assert_eq!(state.stroke_graveyard.slots.len(), 0);

    state.undo();
    assert_eq!(state.strokes.slots.len(), 0);
    assert_eq!(state.stroke_graveyard.slots.len(), 1);

    state.redo();
    assert_eq!(state.strokes.slots.len(), 1);
    assert_eq!(state.stroke_graveyard.slots.len(), 0);
}

#[test]
fn it_undoes_and_redoes_text() {
    let mut state = State::default();
    let text = Text {
        content: "Stuff".to_string(),
        position: None,
        size: TextSize(20),
        color: TextColor(Color::black()),
    };

    state.add_text_with_undo(text);
    assert_eq!(state.text.slots.len(), 1);
    assert_eq!(state.text_graveyard.slots.len(), 0);

    state.undo();
    assert_eq!(state.text.slots.len(), 0);
    assert_eq!(state.text_graveyard.slots.len(), 1);

    state.redo();
    assert_eq!(state.text.slots.len(), 1);
    assert_eq!(state.text_graveyard.slots.len(), 0);
}

#[test]
fn round_trip_keeps_stroke_content() {
    let mut state = State::default();
    let stroke = stroke_at(&[(1, 2), (3, 4)], 7);
    state.add_stroke_with_undo(stroke.clone());
    state.undo();
    state.redo();
    let live: Vec<&Stroke> = state.strokes.slots.values().collect();
    assert_eq!(live, vec![&stroke]);
    assert_eq!(state.stroke_graveyard.slots.len(), 0);
    assert_eq!(state.undo_actions.len(), 1);
    assert!(state.redo_actions.is_empty());
    let key = match state.undo_actions[0] {
        Action::AddStroke(k) => k,
        other => panic!("unexpected log entry {:?}", other),
    };
    assert_eq!(state.strokes.slots.get(key), Some(&stroke));
}

#[test]
fn round_trip_keeps_text_content() {
    let mut state = State::default();
    let text = Text {
        content: "label".to_string(),
        position: Some(Point { x: -5, y: 9 }),
        size: TextSize(12),
        color: TextColor(Color::white()),
    };
    state.add_text_with_undo(text.clone());
    state.undo();
    assert_eq!(state.text_graveyard.slots.values().collect::<Vec<_>>(), vec![&text]);
    state.redo();
    assert_eq!(state.text.slots.values().collect::<Vec<_>>(), vec![&text]);
    assert_eq!(state.text_graveyard.slots.len(), 0);
}

#[test]
fn undo_and_redo_on_empty_logs_change_nothing() {
    let mut state = State::default();
    state.undo();
    state.redo();
    assert_eq!(state.strokes.slots.len(), 0);
    assert_eq!(state.stroke_graveyard.slots.len(), 0);
    assert!(state.undo_actions.is_empty());
    assert!(state.redo_actions.is_empty());

    state.add_stroke_with_undo(stroke_at(&[(0, 0)], 3));
    state.redo();
    assert_eq!(state.strokes.slots.len(), 1);
    assert_eq!(state.undo_actions.len(), 1);
    assert!(state.redo_actions.is_empty());
}

#[test]
fn undo_skips_stale_entry_on_top() {
    let mut state = State::default();
    let first = stroke_at(&[(0, 0)], 4);
    let second = stroke_at(&[(50, 50)], 4);
    state.add_stroke_with_undo(first.clone());
    state.add_stroke_with_undo(second);
    let stale = match state.undo_actions[1] {
        Action::AddStroke(k) => k,
        other => panic!("unexpected log entry {:?}", other),
    };
    assert!(state.remove_stroke(stale).is_some());

    state.undo();
    assert!(state.undo_actions.is_empty());
    assert_eq!(state.redo_actions.len(), 1);
    assert_eq!(state.strokes.slots.len(), 0);
    let buried = match state.redo_actions[0] {
        Action::AddStroke(k) => k,
        other => panic!("unexpected log entry {:?}", other),
    };
    assert_eq!(state.stroke_graveyard.slots.get(buried), Some(&first));
}

#[test]
fn undo_stops_after_one_reversal() {
    let mut state = State::default();
    state.add_stroke_with_undo(stroke_at(&[(0, 0)], 4));
    state.add_stroke_with_undo(stroke_at(&[(9, 9)], 4));
    state.undo();
    assert_eq!(state.strokes.slots.len(), 1);
    assert_eq!(state.undo_actions.len(), 1);
    assert_eq!(state.redo_actions.len(), 1);
}

#[test]
fn removed_key_is_retired() {
    let mut state = State::default();
    let stroke = stroke_at(&[(2, 2)], 5);
    let key = state.add_stroke(stroke.clone());
    let buried = state.remove_stroke(key).expect("the stroke is live");
    assert!(state.strokes.slots.get(key).is_none());
    assert_eq!(state.stroke_graveyard.slots.get(buried), Some(&stroke));
    assert_eq!(state.remove_stroke(key), None);
    assert_eq!(state.stroke_graveyard.slots.len(), 1);
    let back = state.restore_stroke(buried).expect("the stroke is buried");
    assert_eq!(state.strokes.slots.get(back), Some(&stroke));
    assert_eq!(state.restore_stroke(buried), None);
}

#[test]
fn text_moves_between_arenas() {
    let mut state = State::default();
    let text = Text {
        content: "t".to_string(),
        position: None,
        size: TextSize::default(),
        color: TextColor::default(),
    };
    let key = state.add_text(text.clone());
    let buried = state.remove_text(key).expect("the label is live");
    assert_eq!(state.remove_text(key), None);
    assert_eq!(state.text_graveyard.slots.get(buried), Some(&text));
    let back = state.restore_text(buried).expect("the label is buried");
    assert_eq!(state.text.slots.get(back), Some(&text));
    assert_eq!(state.restore_text(buried), None);
    assert!(state.undo_actions.is_empty());
}

#[test]
fn graveyard_insertions_do_not_touch_live_arena() {
    let mut state = State::default();
    let key = state.add_stroke_to_graveyard(stroke_at(&[(1, 1)], 2));
    let text_key = state.add_text_to_graveyard(Text {
        content: "g".to_string(),
        position: None,
        size: TextSize(8),
        color: TextColor::default(),
    });
    assert_eq!(state.strokes.slots.len(), 0);
    assert_eq!(state.text.slots.len(), 0);
    assert!(state.stroke_graveyard.slots.contains_key(key));
    assert!(state.text_graveyard.slots.contains_key(text_key));
}

#[test]
fn bulk_erase_logs_one_entry_per_stroke() {
    let mut state = State::default();
    let strokes = [
        stroke_at(&[(0, 0), (1, 0)], 6),
        stroke_at(&[(0, 1), (1, 1)], 6),
        stroke_at(&[(0, 2), (1, 2)], 6),
    ];
    for s in strokes.iter() {
        state.add_stroke(s.clone());
    }
    let hits = state.strokes_within_point(Point { x: 0, y: 1 }, 6);
    assert_eq!(hits.len(), 3);
    state.delete_strokes(hits);
    assert_eq!(state.strokes.slots.len(), 0);
    assert_eq!(state.stroke_graveyard.slots.len(), 3);
    assert_eq!(state.undo_actions.len(), 3);
    assert!(state
        .undo_actions
        .iter()
        .all(|a| matches!(a, Action::RemoveStroke(_))));

    for restored in 1..=3 {
        state.undo();
        assert_eq!(state.strokes.slots.len(), restored);
        assert_eq!(state.stroke_graveyard.slots.len(), 3 - restored);
    }
    let mut live: Vec<Stroke> = state.strokes.slots.values().cloned().collect();
    live.sort_by_key(|s| s.points[0].y);
    assert_eq!(live, strokes.to_vec());
}

#[test]
fn bulk_erase_passes_over_stale_and_repeated_keys() {
    let mut state = State::default();
    let a = state.add_stroke(stroke_at(&[(0, 0)], 2));
    let b = state.add_stroke(stroke_at(&[(5, 5)], 2));
    let gone = state.add_stroke(stroke_at(&[(9, 9)], 2));
    state.remove_stroke(gone);
    state.delete_strokes(vec![a, gone, a, b]);
    assert_eq!(state.undo_actions.len(), 2);
    assert_eq!(state.strokes.slots.len(), 0);
    assert_eq!(state.stroke_graveyard.slots.len(), 3);
}

#[test]
fn hit_test_touching_at_the_boundary() {
    let mut state = State::default();
    let key = state.add_stroke(stroke_at(&[(0, 0), (10, 0), (20, 0)], 10));
    // Brush radius 5 around (20, 0); query radius 5 at distance 10.
    assert_eq!(state.strokes_within_point(Point { x: 30, y: 0 }, 10), vec![key]);
    assert_eq!(state.strokes_within_point(Point { x: 31, y: 0 }, 10), vec![]);
    assert_eq!(state.strokes_within_point(Point { x: 10, y: 5 }, 0), vec![key]);
    assert_eq!(state.strokes_within_point(Point { x: 10, y: 6 }, 0), vec![]);
}

#[test]
fn hit_test_reports_each_stroke_once() {
    let mut state = State::default();
    let near = state.add_stroke(stroke_at(&[(0, 0), (1, 0), (2, 0)], 4));
    state.add_stroke(stroke_at(&[(100, 100)], 4));
    let empty = state.add_stroke(Stroke::new(Color::black(), 1000));
    let hits = state.strokes_within_point(Point { x: 1, y: 1 }, 4);
    assert_eq!(hits, vec![near]);
    assert!(!hits.contains(&empty));
}

#[test]
fn hit_test_ignores_buried_strokes() {
    let mut state = State::default();
    let key = state.add_stroke(stroke_at(&[(0, 0)], 4));
    state.remove_stroke(key);
    assert!(state.strokes_within_point(Point { x: 0, y: 0 }, 4).is_empty());
}

#[test]
fn default_state_settings() {
    let state = State::default();
    assert_eq!(state.background_color.0, Color { r: 255, g: 255, b: 255, a: 255 });
    assert_eq!(state.foreground_color.0, Color { r: 0, g: 0, b: 0, a: 255 });
    assert_eq!(state.text_color.0, Color { r: 0, g: 0, b: 0, a: 255 });
    assert_eq!(state.text_size, TextSize(50));
}
