use molviewer::color::atom_color;
use molviewer::color::ColorEntry;
use molviewer::color::ColorError;
use molviewer::color::ColorTable;
use molviewer::color::Rgb;
use molviewer::geom::dist_sq;
use molviewer::geom::isqrt;
use molviewer::geom::norm_sq;
use molviewer::geom::sub;
use molviewer::geom::Vec3i;
use molviewer::picking::highlight_for_pick;
use molviewer::picking::update_pick;
use molviewer::picking::PickState;
use molviewer::picking::pick_nearest;
use molviewer::picking::Aabb;
use molviewer::scene::build_atom_sphere;
use molviewer::scene::build_bond_cylinder;
use molviewer::scene::build_cylinders;
use molviewer::scene::build_scene;
use molviewer::scene::build_spheres;
use molviewer::scene::Atom;
use molviewer::scene::Bond;
use molviewer::scene::Molecule;
use molviewer::scene::SceneError;
use molviewer::scene::BOND_THICKNESS;

fn v(x: i64, y: i64, z: i64) -> Vec3i {
    Vec3i { x, y, z }
}

fn atom(symbol: &str, pos: Vec3i, cov_radius: Option<i64>) -> Atom {
    Atom { symbol: symbol.to_string(), pos, cov_radius }
}

#[test]
fn color_lookup_carbon() {
    assert_eq!(atom_color("C"), Ok(Rgb { r: 144, g: 144, b: 144 }));
}

#[test]
fn color_lookup_hydrogen() {
    assert_eq!(atom_color("H"), Ok(Rgb { r: 255, g: 255, b: 255 }));
}

#[test]
fn color_lookup_silicon() {
    assert_eq!(atom_color("Si"), Ok(Rgb { r: 94, g: 94, b: 94 }));
}

#[test]
fn color_lookup_unknown_symbol_fails() {
    assert_eq!(atom_color("Xx"), Err(ColorError::UnknownSymbol));
    assert_eq!(atom_color(""), Err(ColorError::UnknownSymbol));
}

#[test]
fn color_lookup_duplicate_oxygen_fails() {
    assert_eq!(atom_color("O"), Err(ColorError::DuplicateSymbol));
}

#[test]
fn color_table_reports_duplicates_and_unknowns() {
    let table = ColorTable {
        entries: vec![
            ColorEntry { symbol: "N".to_string(), color: Rgb { r: 48, g: 80, b: 248 } },
            ColorEntry { symbol: "N".to_string(), color: Rgb { r: 1, g: 2, b: 3 } },
            ColorEntry { symbol: "P".to_string(), color: Rgb { r: 255, g: 128, b: 0 } },
        ],
    };
    assert_eq!(table.lookup("N"), Err(ColorError::DuplicateSymbol));
    assert_eq!(table.lookup("P"), Ok(Rgb { r: 255, g: 128, b: 0 }));
    assert_eq!(table.lookup("C"), Err(ColorError::UnknownSymbol));
    let empty = ColorTable { entries: vec![] };
    assert_eq!(empty.lookup("C"), Err(ColorError::UnknownSymbol));
}

#[test]
fn sphere_center_matches_atom_position() {
    let a = atom("C", v(1000, -2000, 3000), Some(770));
    let s = build_atom_sphere(&a).unwrap();
    assert_eq!(s.center, v(1000, -2000, 3000));
}

#[test]
fn sphere_size_from_covalent_radius() {
    // (0.77 + 0.5) / 3 world units, in subunits rounded down.
    let a = atom("C", v(0, 0, 0), Some(770));
    let s = build_atom_sphere(&a).unwrap();
    assert_eq!(s.size, (770 + 500) / 3);
    assert_eq!(s.size, 423);
    assert_eq!(s.color, Rgb { r: 144, g: 144, b: 144 });
}

#[test]
fn sphere_size_default_radius() {
    // No covalent radius: (0.5 + 0.5) / 3 world units.
    let a = atom("H", v(0, 0, 0), None);
    let s = build_atom_sphere(&a).unwrap();
    assert_eq!(s.size, 333);
    assert_eq!(s.color, Rgb { r: 255, g: 255, b: 255 });
}

#[test]
fn sphere_unknown_symbol_is_error() {
    let a = atom("Qq", v(0, 0, 0), None);
    assert_eq!(build_atom_sphere(&a), Err(SceneError::UnknownSymbol));
    let o = atom("O", v(0, 0, 0), None);
    assert_eq!(build_atom_sphere(&o), Err(SceneError::DuplicateSymbol));
}

#[test]
fn cylinder_spans_bond_exactly() {
    let a = v(0, 0, 0);
    let b = v(3000, 4000, 0);
    let c = build_bond_cylinder(a, b).unwrap();
    assert_eq!(c.start, a);
    assert_eq!(c.direction, v(3000, 4000, 0));
    // Squared Euclidean distance: 3000^2 + 4000^2 = 5000^2.
    assert_eq!(c.length_sq, 25_000_000);
    assert_eq!(isqrt(c.length_sq), 5000);
    assert_eq!(c.length(), 5000);
    assert_eq!(c.thickness, BOND_THICKNESS);
}

#[test]
fn zero_length_bond_is_rejected() {
    let a = v(500, 500, 500);
    assert_eq!(build_bond_cylinder(a, a), Err(SceneError::ZeroLengthBond));
}

#[test]
fn zero_length_bond_rejected_in_molecule() {
    let m = Molecule {
        atoms: vec![
            atom("C", v(0, 0, 0), None),
            atom("H", v(0, 0, 0), None),
        ],
        bonds: vec![Bond { u: 0, v: 1, dummy: false }],
    };
    assert_eq!(build_cylinders(&m), Err(SceneError::ZeroLengthBond));
}

#[test]
fn dummy_bonds_are_not_rendered() {
    let m = Molecule {
        atoms: vec![
            atom("C", v(0, 0, 0), None),
            atom("H", v(1000, 0, 0), None),
            atom("H", v(0, 1000, 0), None),
        ],
        bonds: vec![
            Bond { u: 0, v: 1, dummy: true },
            Bond { u: 0, v: 2, dummy: false },
            Bond { u: 1, v: 2, dummy: true },
        ],
    };
    let cs = build_cylinders(&m).unwrap();
    assert_eq!(cs.len(), 1);
    assert_eq!(cs[0].start, v(0, 0, 0));
    assert_eq!(cs[0].direction, v(0, 1000, 0));
}

#[test]
fn all_dummy_bonds_render_nothing() {
    let m = Molecule {
        atoms: vec![atom("C", v(0, 0, 0), None), atom("H", v(1000, 0, 0), None)],
        bonds: vec![Bond { u: 0, v: 1, dummy: true }],
    };
    assert_eq!(build_cylinders(&m).unwrap().len(), 0);
}

#[test]
fn bond_endpoint_out_of_range_is_error() {
    let m = Molecule {
        atoms: vec![atom("C", v(0, 0, 0), None), atom("H", v(1000, 0, 0), None)],
        bonds: vec![Bond { u: 0, v: 5, dummy: false }],
    };
    assert_eq!(build_cylinders(&m), Err(SceneError::BondEndpointOutOfRange));
    // A dummy bond's endpoints are never looked up, so they are not checked.
    let d = Molecule {
        atoms: vec![atom("C", v(0, 0, 0), None)],
        bonds: vec![Bond { u: 0, v: 5, dummy: true }],
    };
    assert_eq!(build_cylinders(&d).unwrap().len(), 0);
}

#[test]
fn scene_for_small_molecule() {
    let m = Molecule {
        atoms: vec![
            atom("C", v(0, 0, 0), Some(770)),
            atom("H", v(1090, 0, 0), Some(310)),
        ],
        bonds: vec![Bond { u: 0, v: 1, dummy: false }],
    };
    let sc = build_scene(&m).unwrap();
    assert_eq!(sc.spheres.len(), 2);
    assert_eq!(sc.cylinders.len(), 1);
    assert_eq!(sc.spheres[0].center, v(0, 0, 0));
    assert_eq!(sc.spheres[1].center, v(1090, 0, 0));
    assert_eq!(sc.cylinders[0].length_sq, 1090 * 1090);
}

#[test]
fn scene_error_propagates_from_atoms() {
    let m = Molecule {
        atoms: vec![atom("Zz", v(0, 0, 0), None)],
        bonds: vec![],
    };
    assert_eq!(build_scene(&m).err(), Some(SceneError::UnknownSymbol));
}

fn boxes_at(centers: &[Vec3i]) -> Vec<Aabb> {
    centers
        .iter()
        .map(|&c| Aabb { center: c, size: v(1000, 1000, 1000) })
        .collect()
}

#[test]
fn pick_selects_nearest_of_three() {
    let boxes = boxes_at(&[v(0, 0, 0), v(1000, 0, 0), v(5000, 0, 0)]);
    assert_eq!(pick_nearest(&boxes, v(200, 0, 0)), Some(0));
    assert_eq!(pick_nearest(&boxes, v(900, 0, 0)), Some(1));
    assert_eq!(pick_nearest(&boxes, v(4000, 0, 0)), Some(2));
}

#[test]
fn pick_is_idempotent() {
    let boxes = boxes_at(&[v(0, 0, 0), v(1000, 0, 0), v(5000, 0, 0)]);
    let p = v(700, 300, -100);
    let first = pick_nearest(&boxes, p);
    let second = pick_nearest(&boxes, p);
    assert_eq!(first, second);
    assert_eq!(first, Some(1));
}

#[test]
fn pick_tie_goes_to_lowest_index() {
    let boxes = boxes_at(&[v(-1000, 0, 0), v(1000, 0, 0)]);
    assert_eq!(pick_nearest(&boxes, v(0, 0, 0)), Some(0));
}

#[test]
fn pick_on_no_boxes_is_none() {
    let boxes: Vec<Aabb> = vec![];
    assert_eq!(pick_nearest(&boxes, v(0, 0, 0)), None);
    assert_eq!(highlight_for_pick(&boxes, v(0, 0, 0)), None);
}

#[test]
fn highlight_translates_and_scales_to_picked_box() {
    let boxes = boxes_at(&[v(0, 0, 0), v(1000, 0, 0), v(5000, 0, 0)]);
    let h = highlight_for_pick(&boxes, v(200, 0, 0)).unwrap();
    assert_eq!(h.center, v(0, 0, 0));
    // Box diagonal: sqrt(3) world units, 1732 subunits rounded down;
    // uniform scale is a third of that.
    assert_eq!(h.diag, 1732);
    assert_eq!(h.scale, 577);
}

#[test]
fn isqrt_exact_values() {
    assert_eq!(isqrt(0), 0);
    assert_eq!(isqrt(1), 1);
    assert_eq!(isqrt(3), 1);
    assert_eq!(isqrt(4), 2);
    assert_eq!(isqrt(24_999_999), 4999);
    assert_eq!(isqrt(25_000_000), 5000);
    assert_eq!(isqrt(13_000_000_000_000), 3_605_551);
}

#[test]
fn vector_arithmetic_is_exact() {
    let a = v(10, -20, 30);
    let b = v(-5, 15, 100);
    assert_eq!(sub(b, a), v(-15, 35, 70));
    assert_eq!(dist_sq(a, b), 15 * 15 + 35 * 35 + 70 * 70);
    assert_eq!(norm_sq(v(3, 4, 0)), 25);
}

#[test]
fn pick_miss_leaves_highlight_unchanged() {
    let boxes = boxes_at(&[v(0, 0, 0), v(1000, 0, 0)]);
    let mut state = PickState { highlight: None };
    assert!(!update_pick(&mut state, &boxes, None));
    assert!(state.highlight.is_none());
    assert!(update_pick(&mut state, &boxes, Some(v(900, 0, 0))));
    let held = state.highlight;
    assert_eq!(held.unwrap().center, v(1000, 0, 0));
    // A miss is no error: the prior highlight stays.
    assert!(!update_pick(&mut state, &boxes, None));
    assert_eq!(state.highlight, held);
    // No boxes at all: a hit changes nothing either.
    let none: Vec<Aabb> = vec![];
    assert!(!update_pick(&mut state, &none, Some(v(0, 0, 0))));
    assert_eq!(state.highlight, held);
}

#[test]
fn spheres_follow_atom_order_and_stop_at_first_fault() {
    let good = Molecule {
        atoms: vec![
            atom("C", v(0, 0, 0), Some(770)),
            atom("H", v(1090, 0, 0), None),
        ],
        bonds: vec![],
    };
    let ss = build_spheres(&good).unwrap();
    assert_eq!(ss.len(), 2);
    assert_eq!(ss[0].color, Rgb { r: 144, g: 144, b: 144 });
    assert_eq!(ss[1].color, Rgb { r: 255, g: 255, b: 255 });
    let bad = Molecule {
        atoms: vec![
            atom("C", v(0, 0, 0), None),
            atom("Zz", v(1000, 0, 0), None),
            atom("O", v(2000, 0, 0), None),
        ],
        bonds: vec![],
    };
    // The first faulty atom decides the error.
    assert_eq!(build_spheres(&bad), Err(SceneError::UnknownSymbol));
}
