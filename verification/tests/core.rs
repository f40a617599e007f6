use scalar_chart::bounds::data_bounds;
use scalar_chart::bounds::plan_chart;
use scalar_chart::catalog::collect_scalar_tags;
use scalar_chart::cli::select_mode;
use scalar_chart::cli::Mode;
use scalar_chart::events::DecodeError;
use scalar_chart::events::Event;
use scalar_chart::events::Payload;
use scalar_chart::events::SourceItem;
use scalar_chart::events::SummaryValue;
use scalar_chart::series::extract_series;
use scalar_chart::series::ScalarPoint;
use scalar_chart::session::KeyPress;
use scalar_chart::session::Session;
use scalar_chart::session::SessionAction;
use scalar_chart::session::SessionState;
use scalar_chart::session::TermEvent;

/// Order-preserving key of an `f64`: integer comparison of keys agrees
/// with the numeric order of the encoded values.
fn key(x: f64) -> u64 {
    let b = x.to_bits();
    if b >> 63 == 1 {
        !b
    } else {
        b ^ (1u64 << 63)
    }
}

/// Inverse of `key`.
fn unkey(k: u64) -> f64 {
    let b = if k >> 63 == 1 { k ^ (1u64 << 63) } else { !k };
    f64::from_bits(b)
}

fn scalar(tag: &str, value: f64) -> SummaryValue {
    SummaryValue {
        tag: tag.to_owned(),
        payload: Payload::Scalar(key(value)),
    }
}

fn other(tag: &str) -> SummaryValue {
    SummaryValue {
        tag: tag.to_owned(),
        payload: Payload::Other,
    }
}

fn record(step: i64, summaries: Vec<SummaryValue>) -> SourceItem {
    SourceItem::Record(Event { step, summaries })
}

#[test]
fn key_round_trips_and_orders() {
    let vals = [-1.5f64, -0.0, 0.0, 0.5, 1.0, 10.0, -3.25];
    for v in vals {
        assert_eq!(unkey(key(v)), v);
    }
    assert!(key(-3.25) < key(-1.5));
    assert!(key(-1.5) < key(0.5));
    assert!(key(0.5) < key(1.0));
}

#[test]
fn catalog_is_sorted_and_unique() {
    let items = vec![
        record(0, vec![scalar("zeta", 1.0), scalar("alpha", 2.0)]),
        record(1, vec![scalar("mid", 3.0), scalar("alpha", 4.0)]),
        record(2, vec![scalar("zeta", 5.0), other("omitted")]),
    ];
    let tags = collect_scalar_tags(&items).unwrap();
    assert_eq!(tags, vec!["alpha".to_owned(), "mid".to_owned(), "zeta".to_owned()]);
}

#[test]
fn catalog_excludes_tags_seen_only_non_scalar() {
    let items = vec![
        record(0, vec![other("hist"), scalar("loss", 1.0)]),
        record(1, vec![other("hist")]),
    ];
    let tags = collect_scalar_tags(&items).unwrap();
    assert_eq!(tags, vec!["loss".to_owned()]);
}

#[test]
fn catalog_of_empty_stream_is_empty() {
    let items: Vec<SourceItem> = Vec::new();
    let tags = collect_scalar_tags(&items).unwrap();
    assert!(tags.is_empty());
}

#[test]
fn series_preserves_encounter_order() {
    // Steps arrive out of order and repeat; extraction must not sort.
    let items = vec![
        record(5, vec![scalar("loss", 1.0)]),
        record(2, vec![scalar("loss", 2.0)]),
        record(2, vec![scalar("loss", 3.0)]),
        record(9, vec![scalar("loss", 4.0)]),
    ];
    let pts = extract_series(&items, &"loss".to_owned()).unwrap();
    let steps: Vec<i64> = pts.iter().map(|p| p.step).collect();
    let vals: Vec<f64> = pts.iter().map(|p| unkey(p.value)).collect();
    assert_eq!(steps, vec![5, 2, 2, 9]);
    assert_eq!(vals, vec![1.0, 2.0, 3.0, 4.0]);
}

#[test]
fn series_emits_multiple_matches_within_one_event() {
    let items = vec![record(
        7,
        vec![scalar("loss", 1.0), scalar("acc", 0.5), scalar("loss", 2.0)],
    )];
    let pts = extract_series(&items, &"loss".to_owned()).unwrap();
    assert_eq!(pts.len(), 2);
    assert_eq!(pts[0], ScalarPoint { step: 7, value: key(1.0) });
    assert_eq!(pts[1], ScalarPoint { step: 7, value: key(2.0) });
}

#[test]
fn series_skips_non_scalar_payload_with_matching_tag() {
    let items = vec![
        record(0, vec![other("loss")]),
        record(1, vec![scalar("loss", 0.25)]),
        record(2, vec![other("loss")]),
    ];
    let pts = extract_series(&items, &"loss".to_owned()).unwrap();
    assert_eq!(pts, vec![ScalarPoint { step: 1, value: key(0.25) }]);
}

#[test]
fn series_requires_exact_tag_match() {
    let items = vec![record(0, vec![scalar("loss", 1.0), scalar("Loss", 2.0)])];
    let pts = extract_series(&items, &"loss".to_owned()).unwrap();
    assert_eq!(pts, vec![ScalarPoint { step: 0, value: key(1.0) }]);
}

#[test]
fn bounds_of_single_point() {
    let pts = vec![ScalarPoint { step: 5, value: key(2.0) }];
    let b = data_bounds(&pts);
    assert_eq!((b.x_min, b.x_max), (5, 5));
    assert_eq!((unkey(b.y_min), unkey(b.y_max)), (2.0, 2.0));
}

#[test]
fn bounds_of_three_points_any_order() {
    let points = [(1i64, 10.0f64), (3, 4.0), (2, 7.0)];
    let orders: [[usize; 3]; 3] = [[0, 1, 2], [2, 1, 0], [1, 2, 0]];
    for ord in orders {
        let pts: Vec<ScalarPoint> = ord
            .iter()
            .map(|&i| ScalarPoint { step: points[i].0, value: key(points[i].1) })
            .collect();
        let b = data_bounds(&pts);
        assert_eq!((b.x_min, b.x_max), (1, 3));
        assert_eq!((unkey(b.y_min), unkey(b.y_max)), (4.0, 10.0));
    }
}

#[test]
fn bounds_with_negative_values() {
    let pts = vec![
        ScalarPoint { step: -4, value: key(-1.5) },
        ScalarPoint { step: 0, value: key(2.0) },
        ScalarPoint { step: 3, value: key(0.0) },
    ];
    let b = data_bounds(&pts);
    assert_eq!((b.x_min, b.x_max), (-4, 3));
    assert_eq!((unkey(b.y_min), unkey(b.y_max)), (-1.5, 2.0));
}

#[test]
fn chart_mode_reports_no_data_for_non_scalar_tag() {
    // The tag exists, but only on non-scalar summaries: chart mode must
    // take the no-data path, not fail.
    let items = vec![record(0, vec![other("hist")]), record(1, vec![other("hist")])];
    let pts = extract_series(&items, &"hist".to_owned()).unwrap();
    assert!(pts.is_empty());
    assert_eq!(plan_chart(&pts), None);
}

#[test]
fn chart_mode_charts_a_non_empty_series() {
    let pts = vec![
        ScalarPoint { step: 0, value: key(1.0) },
        ScalarPoint { step: 1, value: key(0.5) },
    ];
    let b = plan_chart(&pts).unwrap();
    assert_eq!((b.x_min, b.x_max), (0, 1));
    assert_eq!((unkey(b.y_min), unkey(b.y_max)), (0.5, 1.0));
}

#[test]
fn corrupt_record_fails_tag_listing() {
    let items = vec![
        record(0, vec![scalar("loss", 1.0)]),
        SourceItem::Corrupt,
        record(2, vec![scalar("acc", 0.9)]),
    ];
    assert_eq!(collect_scalar_tags(&items), Err(DecodeError));
}

#[test]
fn corrupt_record_fails_extraction() {
    let items = vec![
        record(0, vec![scalar("loss", 1.0)]),
        SourceItem::Corrupt,
        record(2, vec![scalar("loss", 0.5)]),
    ];
    assert_eq!(extract_series(&items, &"loss".to_owned()), Err(DecodeError));
}

#[test]
fn listing_and_extraction_scenario() {
    let items = vec![
        record(0, vec![scalar("loss", 1.0)]),
        record(1, vec![scalar("loss", 0.5)]),
        record(1, vec![scalar("acc", 0.9)]),
    ];
    let tags = collect_scalar_tags(&items).unwrap();
    assert_eq!(tags, vec!["acc".to_owned(), "loss".to_owned()]);
    let pts = extract_series(&items, &"loss".to_owned()).unwrap();
    let series: Vec<(f64, f64)> = pts.iter().map(|p| (p.step as f64, unkey(p.value))).collect();
    assert_eq!(series, vec![(0.0, 1.0), (1.0, 0.5)]);
}

#[test]
fn quit_keys_terminate_the_session() {
    for ev in [
        TermEvent::Key(KeyPress::Char('q')),
        TermEvent::Key(KeyPress::Char('Q')),
        TermEvent::Key(KeyPress::Escape),
    ] {
        let mut s = Session::new();
        assert_eq!(s.state, SessionState::Rendering);
        let a = s.on_event(&ev);
        assert_eq!(a, SessionAction::Stop);
        assert_eq!(s.state, SessionState::Terminated);
    }
}

#[test]
fn resize_redraws_and_keeps_rendering() {
    let mut s = Session::new();
    let a = s.on_event(&TermEvent::Resize(80, 24));
    assert_eq!(a, SessionAction::Redraw);
    assert_eq!(s.state, SessionState::Rendering);
    let a2 = s.on_event(&TermEvent::Resize(20, 5));
    assert_eq!(a2, SessionAction::Redraw);
    assert_eq!(s.state, SessionState::Rendering);
}

#[test]
fn other_events_are_ignored() {
    let mut s = Session::new();
    for ev in [
        TermEvent::Key(KeyPress::Char('x')),
        TermEvent::Key(KeyPress::Other),
        TermEvent::Other,
    ] {
        let a = s.on_event(&ev);
        assert_eq!(a, SessionAction::Wait);
        assert_eq!(s.state, SessionState::Rendering);
    }
}

#[test]
fn mode_follows_argument_count() {
    assert_eq!(select_mode(0), Mode::Usage);
    assert_eq!(select_mode(1), Mode::Usage);
    assert_eq!(select_mode(2), Mode::ListTags);
    assert_eq!(select_mode(3), Mode::Chart);
    assert_eq!(select_mode(7), Mode::Chart);
}
