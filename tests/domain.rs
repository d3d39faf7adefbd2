use splotch::{BoundingDomain, DomainError, Extent};

#[test]
fn empty_points_fail() {
    assert_eq!(BoundingDomain::from_points(&vec![]), Err(DomainError::EmptyDomain));
}

#[test]
fn points_give_tight_box() {
    let d = BoundingDomain::from_points(&vec![(13, 74), (111, 37), (125, 52), (190, 66)]).unwrap();
    assert_eq!(d, BoundingDomain { x: Extent { min: 13, max: 190 }, y: Extent { min: 37, max: 74 } });
    assert_eq!(d.x.span(), 177);
    assert_eq!(d.y.span(), 37);
}

#[test]
fn single_point_is_degenerate() {
    let d = BoundingDomain::from_points(&vec![(-3, 9)]).unwrap();
    assert_eq!(d, BoundingDomain { x: Extent { min: -3, max: -3 }, y: Extent { min: 9, max: 9 } });
    assert_eq!(d.x.span(), 0);
}

#[test]
fn extend_grows_and_keeps() {
    let mut d = BoundingDomain::from_points(&vec![(13, 74), (190, 37)]).unwrap();
    d.extend(&vec![(0, 200)]);
    assert_eq!(d, BoundingDomain { x: Extent { min: 0, max: 190 }, y: Extent { min: 37, max: 200 } });
    let before = d;
    d.extend(&vec![(50, 50)]);
    assert_eq!(d, before);
    d.extend(&vec![]);
    assert_eq!(d, before);
}

#[test]
fn order_of_points_does_not_matter() {
    let pts = vec![(5, -1), (-8, 4), (3, 3), (12, 0), (-8, -9)];
    let mut rev = pts.clone();
    rev.reverse();
    assert_eq!(BoundingDomain::from_points(&pts), BoundingDomain::from_points(&rev));
}

#[test]
fn union_takes_outer_bounds() {
    let a = BoundingDomain { x: Extent { min: 0, max: 10 }, y: Extent { min: 5, max: 6 } };
    let b = BoundingDomain { x: Extent { min: -2, max: 4 }, y: Extent { min: 0, max: 20 } };
    let u = a.union(&b);
    assert_eq!(u, BoundingDomain { x: Extent { min: -2, max: 10 }, y: Extent { min: 0, max: 20 } });
    assert_eq!(b.union(&a), u);
    let c = BoundingDomain { x: Extent { min: 3, max: 30 }, y: Extent { min: -1, max: 1 } };
    assert_eq!(a.union(&b).union(&c), a.union(&b.union(&c)));
}

#[test]
fn extent_by_dimension() {
    let d = BoundingDomain { x: Extent { min: 0, max: 10 }, y: Extent { min: 5, max: 6 } };
    assert_eq!(d.extent(splotch::Dim::X), Extent { min: 0, max: 10 });
    assert_eq!(d.extent(splotch::Dim::Y), Extent { min: 5, max: 6 });
}

#[test]
fn any_nonempty_points_succeed() {
    for pts in [vec![(0, 0)], vec![(i32::MIN, i32::MAX), (i32::MAX, i32::MIN)], vec![(1, 1), (1, 1), (1, 1)]] {
        assert!(BoundingDomain::from_points(&pts).is_ok());
    }
    let d = BoundingDomain::from_points(&vec![(i32::MIN, i32::MAX), (i32::MAX, i32::MIN)]).unwrap();
    assert_eq!(d.x, Extent { min: i32::MIN, max: i32::MAX });
    assert_eq!(d.y, Extent { min: i32::MIN, max: i32::MAX });
}
