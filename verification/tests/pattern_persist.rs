use strummy::{ParseError, Stroke, StrummingPattern};

fn pattern_of(strokes: Vec<Stroke>) -> StrummingPattern {
    StrummingPattern { strokes }
}

#[test]
fn generated_pattern_has_requested_length() {
    for n in [0usize, 1, 4, 8, 33] {
        let p = StrummingPattern::new_random(n);
        assert_eq!(p.len(), n);
    }
}

#[test]
fn generated_strokes_are_not_all_alike() {
    // With 64 independently sampled slots, a generator that ignored its
    // random source and filled every slot with one fixed stroke would be
    // caught here; a fair one fails only with vanishing probability.
    let p = StrummingPattern::new_random(64);
    let first = p.strokes[0];
    assert!(p.strokes.iter().any(|s| *s != first));
}

#[test]
fn set_stroke_changes_only_that_slot() {
    let mut p = pattern_of(vec![Stroke::Down, Stroke::Down, Stroke::Down, Stroke::Down]);
    p.set_stroke(2, Stroke::Up);
    assert_eq!(p.strokes, vec![Stroke::Down, Stroke::Down, Stroke::Up, Stroke::Down]);
    p.set_stroke(0, Stroke::Mute);
    assert_eq!(p.strokes, vec![Stroke::Mute, Stroke::Down, Stroke::Up, Stroke::Down]);
}

#[test]
fn shorthand_forms() {
    assert_eq!(Stroke::Down.shorthand(), "D");
    assert_eq!(Stroke::Up.shorthand(), "U");
    assert_eq!(Stroke::Mute.shorthand(), "x");
    assert_eq!(Stroke::Miss.shorthand(), "-");
}

#[test]
fn render_shorthand_joins_with_spaces() {
    let p = pattern_of(vec![Stroke::Down, Stroke::Up, Stroke::Mute, Stroke::Miss]);
    assert_eq!(p.render_shorthand(), "D U x -");
    let empty = pattern_of(vec![]);
    assert_eq!(empty.render_shorthand(), "");
    let one = pattern_of(vec![Stroke::Up]);
    assert_eq!(one.render_shorthand(), "U");
}

#[test]
fn save_produces_expected_document() {
    let p = pattern_of(vec![Stroke::Down, Stroke::Up]);
    let bytes = p.save_bytes();
    assert_eq!(bytes, b"{\"strokes\":[\"Down\",\"Up\"]}".to_vec());
    let empty = pattern_of(vec![]);
    assert_eq!(empty.save_bytes(), b"{\"strokes\":[]}".to_vec());
}

#[test]
fn save_then_load_round_trips() {
    let cases: Vec<Vec<Stroke>> = vec![
        vec![],
        vec![Stroke::Miss],
        vec![Stroke::Down, Stroke::Up, Stroke::Mute, Stroke::Miss],
        vec![Stroke::Up; 9],
    ];
    for strokes in cases {
        let p = pattern_of(strokes.clone());
        let bytes = p.save_bytes();
        let q = StrummingPattern::load_bytes(&bytes).unwrap();
        assert_eq!(q.strokes, strokes);
    }
}

#[test]
fn empty_stroke_list_loads_to_empty_pattern() {
    let p = StrummingPattern::load_bytes(b"{\"strokes\":[]}").unwrap();
    assert_eq!(p.len(), 0);
}

#[test]
fn load_accepts_each_tag() {
    let p = StrummingPattern::load_bytes(b"{\"strokes\":[\"Mute\",\"Miss\",\"Up\",\"Down\"]}")
        .unwrap();
    assert_eq!(
        p.strokes,
        vec![Stroke::Mute, Stroke::Miss, Stroke::Up, Stroke::Down]
    );
}

#[test]
fn beat_labels_count_beats_over_slot_pairs() {
    let labels: Vec<String> = (0..8).map(strummy::beat_label).collect();
    assert_eq!(labels, vec!["1", "+", "2", "+", "3", "+", "4", "+"]);
    assert_eq!(strummy::beat_label(20), "11");
    assert_eq!(strummy::beat_label(198), "100");
    assert_eq!(strummy::beat_label(199), "+");
}

#[test]
fn load_rejects_malformed_documents() {
    let bad: Vec<&[u8]> = vec![
        b"",
        b"{}",
        b"{\"strokes\":[",
        b"{\"strokes\":]}",
        b"{\"strokes\":[\"Down\",]}",
        b"{\"strokes\":[\"down\"]}",
        b"{\"strokes\":[\"Down\"]",
        b"{\"strokes\":[\"Down\" ]}",
        b"[\"Down\"]",
        b"{\"strokes\":[\"Downs\"]}",
    ];
    for doc in bad {
        assert!(matches!(
            StrummingPattern::load_bytes(doc),
            Err(ParseError::Malformed)
        ));
    }
}
