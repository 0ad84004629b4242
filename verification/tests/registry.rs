use polygon::error::Error;
use polygon::registry::{pos_contained, Registry};

const WIDTH: i64 = 1000;

fn ready() -> Registry {
    let mut reg = Registry::new();
    reg.init(WIDTH);
    reg
}

fn square(scale: i64) -> Vec<(i64, i64)> {
    vec![(0, 0), (scale, 0), (scale, scale), (0, scale)]
}

#[test]
fn operations_fail_before_initialization() {
    let mut reg = Registry::new();
    let id = String::from("a");
    assert!(matches!(reg.register(&id), Err(Error::NotInitialized)));
    assert!(matches!(reg.register_all(&vec![id.clone()]), Err(Error::NotInitialized)));
    assert!(matches!(reg.remove(&id), Err(Error::NotInitialized)));
    assert!(matches!(reg.show(&id), Err(Error::NotInitialized)));
    assert!(matches!(reg.conceal(&id), Err(Error::NotInitialized)));
    assert!(matches!(reg.clear(), Err(Error::NotInitialized)));
    assert!(matches!(reg.cursor_in(), Err(Error::NotInitialized)));
    // The too-few-points check comes before the initialization check.
    assert!(matches!(reg.update(&id, &vec![(0, 0)]), Err(Error::PointsNotEnough(1))));
    assert!(matches!(reg.update(&id, &square(10)), Err(Error::NotInitialized)));
}

#[test]
fn register_then_update_then_points_visible() {
    let mut reg = ready();
    let id = String::from("zone");
    assert!(reg.register(&id).is_ok());
    let pts = square(100);
    assert!(reg.update(&id, &pts).is_ok());
    // The polygon's vertex list immediately reflects the new set.
    let stored = reg.polygons[0].points();
    assert_eq!(stored, pts);
}

#[test]
fn register_twice_fails_and_keeps_geometry() {
    let mut reg = ready();
    let id = String::from("zone");
    assert!(reg.register(&id).is_ok());
    let pts = square(77);
    assert!(reg.update(&id, &pts).is_ok());
    match reg.register(&id) {
        Err(Error::PolygonExists(reported)) => assert_eq!(reported, "zone"),
        other => panic!("expected PolygonExists, got {:?}", other),
    }
    // Still exactly one polygon under that id, geometry untouched.
    assert_eq!(reg.polygons.len(), 1);
    assert_eq!(reg.polygons[0].points(), pts);
}

#[test]
fn register_all_overwrites_with_defaults() {
    let mut reg = ready();
    let a = String::from("a");
    let b = String::from("b");
    let c = String::from("c");
    assert!(reg.register_all(&vec![a.clone(), b.clone()]).is_ok());
    assert!(reg.update(&a, &square(50)).is_ok());
    // Re-registering overlapping ids is no error; geometry is reset to the
    // default placeholder, not preserved.
    assert!(reg.register_all(&vec![a.clone(), c.clone()]).is_ok());
    assert_eq!(reg.polygons.len(), 3);
    for p in &reg.polygons {
        assert_eq!(p.points(), vec![(0, 0), (0, 0), (0, 0)]);
        assert!(!p.display());
    }
}

#[test]
fn update_with_too_few_points_fails_and_keeps_geometry() {
    let mut reg = ready();
    let id = String::from("zone");
    assert!(reg.register(&id).is_ok());
    let pts = square(100);
    assert!(reg.update(&id, &pts).is_ok());
    assert!(matches!(reg.update(&id, &vec![(1, 1), (2, 2)]), Err(Error::PointsNotEnough(2))));
    assert!(matches!(reg.update(&id, &Vec::new()), Err(Error::PointsNotEnough(0))));
    assert_eq!(reg.polygons[0].points(), pts);
}

#[test]
fn update_unknown_id_fails_not_found() {
    let mut reg = ready();
    match reg.update(&String::from("ghost"), &square(10)) {
        Err(Error::PolygonNotFound(reported)) => assert_eq!(reported, "ghost"),
        other => panic!("expected PolygonNotFound, got {:?}", other),
    }
}

#[test]
fn removed_polygon_is_gone_and_id_is_reusable() {
    let mut reg = ready();
    let id = String::from("zone");
    assert!(reg.register(&id).is_ok());
    assert!(reg.update(&id, &square(100)).is_ok());
    assert!(reg.show(&id).is_ok());
    reg.update_containment(50, 50);
    assert_eq!(reg.cursor_in().unwrap(), vec![String::from("zone")]);
    assert!(reg.remove(&id).is_ok());
    // cursor_in never again reports the removed id ...
    assert!(reg.cursor_in().unwrap().is_empty());
    // ... and re-registering the same id succeeds.
    assert!(reg.register(&id).is_ok());
}

#[test]
fn remove_unknown_id_fails_not_found() {
    let mut reg = ready();
    assert!(matches!(reg.remove(&String::from("nope")), Err(Error::PolygonNotFound(_))));
}

#[test]
fn clear_empties_everything_and_former_ids_are_unknown() {
    let mut reg = ready();
    let ids: Vec<String> = (0..5).map(|i| format!("p{}", i)).collect();
    assert!(reg.register_all(&ids).is_ok());
    for id in &ids {
        assert!(reg.update(id, &square(100)).is_ok());
        assert!(reg.show(id).is_ok());
    }
    reg.update_containment(50, 50);
    assert_eq!(reg.cursor_in().unwrap().len(), 5);
    assert!(reg.clear().is_ok());
    assert!(reg.cursor_in().unwrap().is_empty());
    for id in &ids {
        assert!(matches!(reg.update(id, &square(100)), Err(Error::PolygonNotFound(_))));
    }
}

#[test]
fn hidden_polygons_do_not_report_containment() {
    let mut reg = ready();
    let id = String::from("zone");
    assert!(reg.register(&id).is_ok());
    assert!(reg.update(&id, &square(100)).is_ok());
    // Registered but never shown: containment is not reported.
    reg.update_containment(50, 50);
    assert!(reg.cursor_in().unwrap().is_empty());
    assert!(reg.show(&id).is_ok());
    reg.update_containment(50, 50);
    assert_eq!(reg.cursor_in().unwrap(), vec![String::from("zone")]);
    // Concealing takes it out of the snapshot again.
    assert!(reg.conceal(&id).is_ok());
    reg.update_containment(50, 50);
    assert!(reg.cursor_in().unwrap().is_empty());
}

#[test]
fn show_and_conceal_unknown_id_fail_not_found() {
    let mut reg = ready();
    assert!(matches!(reg.show(&String::from("nope")), Err(Error::PolygonNotFound(_))));
    assert!(matches!(reg.conceal(&String::from("nope")), Err(Error::PolygonNotFound(_))));
}

#[test]
fn pos_contained_requires_display() {
    let mut reg = ready();
    let id = String::from("zone");
    assert!(reg.register(&id).is_ok());
    assert!(reg.update(&id, &square(100)).is_ok());
    assert!(!pos_contained(&reg.polygons[0], 50, 50));
    assert!(reg.show(&id).is_ok());
    assert!(pos_contained(&reg.polygons[0], 50, 50));
    assert!(!pos_contained(&reg.polygons[0], 150, 50));
}
