use polycore::container::{Pair, Point, PointAdd, Pointu};
use polycore::sorting::Person;

#[test]
fn point_shares_one_parameter() {
    let integer = Point { x: 5, y: 5 };
    assert_eq!(*integer.x(), 5);
}

#[test]
fn mixup_combines_across_parameter_pairings() {
    let flex = Pointu { x: 5, y: 1.0 };
    let flex2 = Pointu { x: 5, y: 1.0 };
    let mixed = flex.mixup(flex2);
    assert_eq!(mixed.x, 5);
    assert_eq!(mixed.y, 1.0);
}

#[test]
fn mixup_takes_method_level_parameters() {
    let a = Pointu { x: 1u8, y: "left" };
    let b = Pointu { x: 9.5f64, y: 'c' };
    let mixed = a.mixup(b);
    assert_eq!(mixed.x, 1u8);
    assert_eq!(mixed.y, 'c');
}

#[test]
fn pair_construction_is_unbounded() {
    let pair = Pair::new(1, 2);
    assert_eq!(pair.x, 1);
    assert_eq!(pair.y, 2);
}

#[test]
fn cmp_display_names_the_larger_element() {
    let pair = Pair::new(
        Person::new("young".to_string(), 10),
        Person::new("old".to_string(), 90),
    );
    assert_eq!(pair.cmp_display(), "largest is y = old");
    let tied = Pair::new(
        Person::new("lhs".to_string(), 4),
        Person::new("rhs".to_string(), 4),
    );
    assert_eq!(tied.cmp_display(), "largest is x = lhs");
}

#[test]
fn point_add_sums_componentwise() {
    let p3 = PointAdd { x: 1i64, y: 1i64 };
    let p4 = PointAdd { x: 2i64, y: 2i64 };
    let sum = p3.add(p4);
    assert_eq!(sum.x, 3);
    assert_eq!(sum.y, 3);
}

#[test]
fn free_addition_over_the_capability() {
    assert_eq!(polycore::container::add(40i64, 2i64), 42);
}
