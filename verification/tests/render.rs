use ripdrag::render::{aggregate_label, RenderAction, RenderMode, RenderState, RenderUnit};

fn strings(items: &[&str]) -> Vec<String> {
    items.iter().map(|s| s.to_string()).collect()
}

fn unit_export(unit: &RenderUnit) -> Vec<String> {
    unit.export_paths().clone()
}

#[test]
fn aggregate_label_counts_elements() {
    assert_eq!(aggregate_label(0), "0 elements");
    assert_eq!(aggregate_label(1), "1 elements");
    assert_eq!(aggregate_label(2), "2 elements");
    assert_eq!(aggregate_label(12), "12 elements");
    assert_eq!(aggregate_label(105), "105 elements");
}

#[test]
fn expanded_initial_render_makes_one_unit_per_path() {
    let mut state = RenderState::new();
    let snapshot = strings(&["/tmp/a.txt", "/tmp/b.txt"]);
    let acts = state.initial_render(&snapshot, RenderMode::Expanded, false);
    assert_eq!(state.units.len(), 2);
    assert_eq!(acts.len(), 2);
    for (i, unit) in state.units.iter().enumerate() {
        match unit {
            RenderUnit::Individual { path, export } => {
                assert_eq!(path, &snapshot[i]);
                assert_eq!(export, &strings(&[&snapshot[i]]));
            }
            RenderUnit::Aggregate { .. } => panic!("aggregate in expanded mode"),
        }
    }
}

#[test]
fn expanded_growth_appends_without_touching_prior_units() {
    let mut state = RenderState::new();
    let seeded = strings(&["/tmp/a.txt"]);
    state.initial_render(&seeded, RenderMode::Expanded, false);
    let before = unit_export(&state.units[0]);
    let grown = strings(&["/tmp/a.txt", "/tmp/b.txt"]);
    let acts = state.on_growth(&grown, &strings(&["/tmp/b.txt"]), RenderMode::Expanded, false);
    assert_eq!(state.units.len(), 2);
    assert_eq!(acts.len(), 1);
    assert_eq!(unit_export(&state.units[0]), before);
    assert_eq!(unit_export(&state.units[1]), strings(&["/tmp/b.txt"]));
}

#[test]
fn drag_all_exports_whole_snapshot_from_each_unit() {
    let mut state = RenderState::new();
    let snapshot = strings(&["/tmp/a.txt", "/tmp/b.txt"]);
    state.initial_render(&snapshot, RenderMode::Expanded, true);
    assert_eq!(state.units.len(), 2);
    assert_eq!(unit_export(&state.units[0]), snapshot);
    assert_eq!(unit_export(&state.units[1]), snapshot);
}

#[test]
fn compact_initial_render_makes_single_aggregate() {
    let mut state = RenderState::new();
    let snapshot = strings(&["/tmp/a.txt", "/tmp/b.txt"]);
    let acts = state.initial_render(&snapshot, RenderMode::Compact, false);
    assert_eq!(state.units.len(), 1);
    assert_eq!(acts.len(), 1);
    assert!(state.aggregate_present);
    assert_eq!(unit_export(&state.units[0]), snapshot);
    assert_eq!(state.units[0].label(false), Some("2 elements".to_string()));
}

#[test]
fn compact_initial_render_of_empty_snapshot_shows_nothing() {
    let mut state = RenderState::new();
    let acts = state.initial_render(&strings(&[]), RenderMode::Compact, false);
    assert!(state.units.is_empty());
    assert!(acts.is_empty());
    assert!(!state.aggregate_present);
}

#[test]
fn compact_growth_retracts_then_reappends() {
    let mut state = RenderState::new();
    state.initial_render(&strings(&["/tmp/a.txt"]), RenderMode::Compact, false);
    let grown = strings(&["/tmp/a.txt", "/tmp/b.txt", "/tmp/c.txt"]);
    let delta = strings(&["/tmp/b.txt", "/tmp/c.txt"]);
    let acts = state.on_growth(&grown, &delta, RenderMode::Compact, false);
    assert_eq!(state.units.len(), 1);
    assert!(matches!(acts[0], RenderAction::RetractAggregate));
    assert!(matches!(acts[1], RenderAction::Append(_)));
    assert_eq!(acts.len(), 2);
    assert_eq!(unit_export(&state.units[0]), grown);
    assert_eq!(state.units[0].label(true), Some("3 elements".to_string()));
}

#[test]
fn individual_label_respects_icons_only() {
    let unit = RenderUnit::Individual {
        path: "/tmp/a.txt".to_string(),
        export: strings(&["/tmp/a.txt"]),
    };
    assert_eq!(unit.label(false), Some("/tmp/a.txt".to_string()));
    assert_eq!(unit.label(true), None);
}

#[test]
fn unit_payload_encodes_its_export() {
    let unit = RenderUnit::Individual {
        path: "/tmp/a.txt".to_string(),
        export: strings(&["/tmp/a.txt"]),
    };
    assert_eq!(unit.export_payload(), "file:///tmp/a.txt");
    let all = RenderUnit::Aggregate { export: strings(&["/tmp/a.txt", "/tmp/b.txt"]) };
    assert_eq!(all.export_payload(), "file:///tmp/a.txt\nfile:///tmp/b.txt");
}
