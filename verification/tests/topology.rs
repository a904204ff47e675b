use display_scale::topology::{
    build_display_entries, resolve_geometry, trim_trailing_zeros, DisplayIdentity, Geometry,
    PathInput, SourceModeRow, MODE_IDX_INVALID,
};

fn identity(n: u32) -> DisplayIdentity {
    DisplayIdentity {
        adapter_id: 7,
        source_id: n,
        target_id: n + 100,
    }
}

fn source_row(x: i32, y: i32, width: u32, height: u32) -> SourceModeRow {
    SourceModeRow {
        is_source: true,
        x,
        y,
        width,
        height,
    }
}

#[test]
fn empty_path_set_yields_empty_topology() {
    let entries = build_display_entries(&vec![], &vec![]);
    assert!(entries.is_empty());
}

#[test]
fn entries_come_out_sorted_by_x() {
    let modes = vec![
        source_row(500, 0, 1280, 1024),
        source_row(-100, 50, 1920, 1080),
        source_row(20, 0, 2560, 1440),
    ];
    let paths = vec![
        PathInput {
            identity: identity(0),
            name_units: Some(vec![65, 0]),
            mode_idx: 0,
        },
        PathInput {
            identity: identity(1),
            name_units: Some(vec![66, 0]),
            mode_idx: 1,
        },
        PathInput {
            identity: identity(2),
            name_units: Some(vec![67, 0]),
            mode_idx: 2,
        },
    ];
    let entries = build_display_entries(&paths, &modes);
    assert_eq!(entries.len(), 3);
    assert_eq!(entries[0].x, -100);
    assert_eq!(entries[1].x, 20);
    assert_eq!(entries[2].x, 500);
    assert_eq!(entries[0].friendly_name, "B");
    assert_eq!(entries[1].friendly_name, "C");
    assert_eq!(entries[2].friendly_name, "A");
    assert_eq!(entries[0].width, 1920);
    assert_eq!(entries[0].height, 1080);
    assert_eq!(entries[0].y, 50);
    assert_eq!(entries[0].identity.source_id, 1);
}

#[test]
fn invalid_mode_index_yields_zero_geometry() {
    let modes = vec![source_row(500, 0, 1280, 1024)];
    let paths = vec![PathInput {
        identity: identity(0),
        name_units: Some(vec![77, 0]),
        mode_idx: MODE_IDX_INVALID,
    }];
    let entries = build_display_entries(&paths, &modes);
    assert_eq!(entries.len(), 1);
    assert_eq!((entries[0].x, entries[0].y), (0, 0));
    assert_eq!((entries[0].width, entries[0].height), (0, 0));
}

#[test]
fn out_of_range_mode_index_yields_zero_geometry() {
    let modes = vec![source_row(500, 0, 1280, 1024)];
    let zero = Geometry {
        x: 0,
        y: 0,
        width: 0,
        height: 0,
    };
    assert_eq!(resolve_geometry(3, &modes), zero);
    assert_eq!(resolve_geometry(MODE_IDX_INVALID, &modes), zero);
}

#[test]
fn non_source_mode_row_yields_zero_geometry() {
    let modes = vec![SourceModeRow {
        is_source: false,
        x: 500,
        y: 10,
        width: 1280,
        height: 1024,
    }];
    let g = resolve_geometry(0, &modes);
    assert_eq!((g.x, g.y, g.width, g.height), (0, 0, 0, 0));
}

#[test]
fn source_mode_row_yields_its_geometry() {
    let modes = vec![source_row(500, 10, 1280, 1024)];
    let g = resolve_geometry(0, &modes);
    assert_eq!((g.x, g.y, g.width, g.height), (500, 10, 1280, 1024));
}

#[test]
fn failed_name_lookups_are_skipped() {
    let modes = vec![source_row(0, 0, 800, 600), source_row(900, 0, 800, 600)];
    let paths = vec![
        PathInput {
            identity: identity(0),
            name_units: None,
            mode_idx: 0,
        },
        PathInput {
            identity: identity(1),
            name_units: Some(vec![75, 0]),
            mode_idx: 1,
        },
    ];
    let entries = build_display_entries(&paths, &modes);
    assert_eq!(entries.len(), 1);
    assert_eq!(entries[0].identity.source_id, 1);
    assert_eq!(entries[0].friendly_name, "K");
}

#[test]
fn friendly_names_are_determinated_and_decoded() {
    // "Disp" followed by the terminator and zero padding, as the OS hands
    // name buffers over.
    let units: Vec<u16> = vec![68, 105, 115, 112, 0, 0, 0, 0];
    let paths = vec![PathInput {
        identity: identity(0),
        name_units: Some(units),
        mode_idx: MODE_IDX_INVALID,
    }];
    let entries = build_display_entries(&paths, &vec![]);
    assert_eq!(entries.len(), 1);
    assert_eq!(entries[0].friendly_name, "Disp");
}

#[test]
fn trim_removes_only_trailing_zeros() {
    assert_eq!(trim_trailing_zeros(&vec![65, 0, 66, 0, 0]), vec![65, 0, 66]);
    assert_eq!(trim_trailing_zeros(&vec![0, 0, 0]), Vec::<u16>::new());
    assert_eq!(trim_trailing_zeros(&vec![]), Vec::<u16>::new());
    assert_eq!(trim_trailing_zeros(&vec![65, 66]), vec![65, 66]);
}

#[test]
fn equal_x_positions_are_all_kept() {
    let modes = vec![source_row(0, 0, 800, 600), source_row(0, 0, 1024, 768)];
    let paths = vec![
        PathInput {
            identity: identity(0),
            name_units: Some(vec![80, 0]),
            mode_idx: 0,
        },
        PathInput {
            identity: identity(1),
            name_units: Some(vec![81, 0]),
            mode_idx: 1,
        },
    ];
    let entries = build_display_entries(&paths, &modes);
    assert_eq!(entries.len(), 2);
    let mut widths: Vec<u32> = entries.iter().map(|e| e.width).collect();
    widths.sort();
    assert_eq!(widths, vec![800, 1024]);
}
