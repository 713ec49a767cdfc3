use dm420::panel_data::{
    fnv1a, grid_to_lonlat, in_mesh, place_station, point_on_land, section_to_lonlat, snap_to_land,
    station_lonlat, GridLoc, Locator, Place, Terrain, TriMesh, UNIT,
};

fn near(a: f64, b: f64, tol: f64) -> bool {
    (a - b).abs() <= tol
}

fn degrees(seconds: i32) -> f64 {
    seconds as f64 / 3600.0
}

fn place_degrees(x: i64) -> f64 {
    x as f64 / (UNIT as f64 * 3600.0)
}

fn at(lon: f64, lat: f64) -> Place {
    Place {
        lon: (lon * 3600.0 * UNIT as f64) as i64,
        lat: (lat * 3600.0 * UNIT as f64) as i64,
    }
}

fn rectangle(west: f64, south: f64, east: f64, north: f64) -> TriMesh {
    TriMesh {
        verts: vec![
            at(west, south),
            at(east, south),
            at(east, north),
            at(west, north),
        ],
        idx: vec![0, 1, 2, 0, 2, 3],
    }
}

fn nothing() -> TriMesh {
    TriMesh {
        verts: vec![],
        idx: vec![],
    }
}

/// All of North America west of 60 degrees and east of 123.5, with a lake around the
/// Great Salt Lake.
fn america() -> Terrain {
    Terrain {
        land: rectangle(-123.5, 25.0, -60.0, 70.0),
        lakes: rectangle(-113.0, 40.7, -112.0, 41.7),
    }
}

#[test]
fn grid_centers() {
    let g = grid_to_lonlat("DN70").unwrap();
    assert!(near(degrees(g.lon), -105.0, 0.01), "lon {}", g.lon);
    assert!(near(degrees(g.lat), 40.5, 0.01), "lat {}", g.lat);
    let g = grid_to_lonlat("FN31").unwrap();
    assert!(near(degrees(g.lon), -73.0, 0.01), "lon {}", g.lon);
    assert!(near(degrees(g.lat), 41.5, 0.01), "lat {}", g.lat);
    let s = grid_to_lonlat("DN70KA").unwrap();
    assert!(degrees(s.lon_size) < 0.1 && degrees(s.lat_size) < 0.05);
    assert!(near(degrees(s.lon), -105.125, 0.001), "lon {}", s.lon);
    assert!(near(degrees(s.lat), 40.0208, 0.001), "lat {}", s.lat);
    let e = grid_to_lonlat("DN70KA12").unwrap();
    assert!(near(degrees(e.lon), degrees(s.lon), 1e-6) && near(degrees(e.lat), degrees(s.lat), 1e-6));
    assert_eq!(
        grid_to_lonlat("fn31").unwrap().lon,
        grid_to_lonlat("FN31").unwrap().lon
    );
}

#[test]
fn grid_rejects_malformed() {
    for bad in ["", "F", "FN3", "FN3X", "FN311", "ZZ99", "F931", "FN31ZZ"] {
        assert!(grid_to_lonlat(bad).is_none(), "expected None for {bad:?}");
    }
}

#[test]
fn station_offset_stable_and_in_cell() {
    let land = america();
    let g = grid_to_lonlat("FN31").unwrap();
    let a = station_lonlat("K1ABC", "FN31", &land).unwrap();
    let b = station_lonlat("K1ABC", "FN31", &land).unwrap();
    assert_eq!(a, b, "must be deterministic across calls");
    assert!((place_degrees(a.lon) - degrees(g.lon)).abs() <= 0.4 * degrees(g.lon_size) + 1e-4);
    assert!((place_degrees(a.lat) - degrees(g.lat)).abs() <= 0.4 * degrees(g.lat_size) + 1e-4);
    assert_ne!(a, station_lonlat("W2NYC", "FN31", &land).unwrap());
    assert!(station_lonlat("NOGRID", "ZZ99", &land).is_none());
}

#[test]
fn section_known_and_case_insensitive() {
    let wi = section_to_lonlat("WI").unwrap();
    assert!(degrees(wi.lon) < -80.0 && degrees(wi.lon) > -100.0);
    assert!(degrees(wi.lat) > 40.0 && degrees(wi.lat) < 50.0);
    assert_eq!(section_to_lonlat(" wi "), Some(wi));
    assert!(section_to_lonlat("DX").is_none());
    assert!(section_to_lonlat("ZZZ").is_none());
}

#[test]
fn place_station_spreads_within_section() {
    let land = america();
    let region = section_to_lonlat("CO").unwrap();
    let a = place_station("N0JDC", &Locator::Section("CO".into()), &land).unwrap();
    let b = place_station("N0JDC", &Locator::Section("CO".into()), &land).unwrap();
    assert_eq!(a, b, "section placement is deterministic");
    assert!(
        (place_degrees(a.lon) - degrees(region.lon)).abs() <= 0.4 * degrees(region.lon_size) + 1e-4
    );
    assert!(
        (place_degrees(a.lat) - degrees(region.lat)).abs() <= 0.4 * degrees(region.lat_size) + 1e-4
    );
    assert_ne!(
        a,
        place_station("W4LL", &Locator::Section("CO".into()), &land).unwrap()
    );
    assert_eq!(
        place_station("K1ABC", &Locator::Grid("FN31".into()), &land),
        station_lonlat("K1ABC", "FN31", &land),
    );
    assert!(place_station("X", &Locator::Section("DX".into()), &land).is_none());
}

#[test]
fn point_on_land_classifies_known_points() {
    let land = america();
    assert!(point_on_land(at(-104.99, 39.74), &land));
    assert!(!point_on_land(at(-140.0, 30.0), &land));
    assert!(!point_on_land(at(-40.0, 35.0), &land));
    assert!(!point_on_land(at(-112.5, 41.0), &land), "a lake is no land");
}

#[test]
fn snap_relocates_water_point_onto_land() {
    let land = america();
    let region = GridLoc {
        lon: -125 * 3600,
        lat: 37 * 3600,
        lon_size: 8 * 3600,
        lat_size: 2 * 3600,
    };
    let centre = at(-125.0, 37.0);
    assert!(!point_on_land(centre, &land), "centre must be water");
    let snapped = snap_to_land(centre, region, &land);
    assert!(point_on_land(snapped, &land), "snapped point is on land");
    assert!((place_degrees(snapped.lon) + 125.0).abs() <= 0.4 * 8.0 + 1e-4);
    assert!((place_degrees(snapped.lat) - 37.0).abs() <= 0.4 * 2.0 + 1e-4);
    assert!(near(place_degrees(snapped.lon), -123.4, 1e-9));
    assert!(near(place_degrees(snapped.lat), 37.0, 1e-9));
}

#[test]
fn snap_keeps_point_when_region_is_all_water() {
    let land = america();
    let region = GridLoc {
        lon: -150 * 3600,
        lat: 30 * 3600,
        lon_size: 2 * 3600,
        lat_size: 2 * 3600,
    };
    let p = at(-150.0, 30.0);
    assert_eq!(snap_to_land(p, region, &land), p);
}

#[test]
fn a_point_on_land_stays() {
    let land = america();
    let region = section_to_lonlat("CO").unwrap();
    let p = at(-105.5, 39.0);
    assert_eq!(snap_to_land(p, region, &land), p);
}

#[test]
fn locators_with_a_foreign_tail_count_by_their_bytes() {
    assert_eq!(grid_to_lonlat("DN70KA\u{e9}"), grid_to_lonlat("DN70KA"));
    assert!(grid_to_lonlat("DN7\u{e9}").is_none());
    assert_eq!(grid_to_lonlat("  dn70ka "), grid_to_lonlat("DN70KA"));
}

#[test]
fn the_hash_is_fnv_1a() {
    assert_eq!(fnv1a("", 0x811c_9dc5), 0x811c_9dc5);
    assert_eq!(fnv1a("a", 0x811c_9dc5), 0xe40c_292c);
    assert_eq!(fnv1a("foobar", 0x811c_9dc5), 0xbf9c_f968);
}

#[test]
fn a_mesh_holds_its_edges_and_nothing_else() {
    let m = rectangle(0.0, 0.0, 2.0, 1.0);
    assert!(m.is_wf());
    assert!(in_mesh(at(0.0, 0.0), &m));
    assert!(in_mesh(at(2.0, 0.5), &m));
    assert!(!in_mesh(at(2.1, 0.5), &m));
    assert!(!in_mesh(at(0.0, 0.0), &nothing()));
    let broken = TriMesh {
        verts: vec![],
        idx: vec![7],
    };
    assert!(!broken.is_wf());
}

#[test]
fn the_hash_goes_on_from_its_beginning() {
    assert_eq!(fnv1a("", 7), 7);
    assert_eq!(fnv1a("A", 7), (7u32 ^ 65).wrapping_mul(0x0100_0193));
    assert_eq!(fnv1a("K1\u{e9}ABC", 7), fnv1a("\u{e9}ABC", fnv1a("K1", 7)));
}

#[test]
fn a_long_locator_lies_in_its_square() {
    let cell = grid_to_lonlat("DN70ab12").unwrap();
    assert_eq!(grid_to_lonlat("DN70ab"), Some(cell));
    assert_eq!(grid_to_lonlat("dn70AB99"), Some(cell));
    let square = grid_to_lonlat("DN70").unwrap();
    assert!((cell.lon - square.lon).abs() < 3_600);
    assert!((cell.lat - square.lat).abs() < 1_800);
}

#[test]
fn the_case_of_a_locator_plays_no_part() {
    let land = america();
    let grid = |g: &str| place_station("N0JDC", &Locator::Grid(g.into()), &land);
    assert_eq!(grid("DN70ab"), grid(" dn70AB "));
    assert_eq!(grid("DN70ab"), station_lonlat("N0JDC", "DN70AB", &land));
    let section = |s: &str| place_station("N0JDC", &Locator::Section(s.into()), &land);
    assert_eq!(section("CO"), section("co"));
    assert!(section("co").is_some());
}
