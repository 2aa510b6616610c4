use worker_pool::company::Person;
use worker_pool::shapes::Rectangle;

#[test]
fn person_is_built_from_its_parts() {
    let p = Person::new("Jane", 25, "jane@mail.com");
    assert_eq!(p.name, "Jane");
    assert_eq!(p.age, 25);
    assert_eq!(p.mail, "jane@mail.com");
}

#[test]
fn with_name_replaces_only_the_name() {
    let p = Person::default().with_name("Alice");
    assert_eq!(p.name, "Alice");
    assert_eq!(p.age, 0);
    assert_eq!(p.mail, "Unknown");
}

#[test]
fn default_person_is_unknown() {
    let p = Person::default();
    assert_eq!(p.name, "Unknown");
    assert_eq!(p.age, 0);
    assert_eq!(p.mail, "Unknown");
}

#[test]
fn rectangle_area_is_the_product_of_its_sides() {
    let r = Rectangle::new(30, 40);
    assert_eq!(r.area(), 1200);
    assert_eq!(Rectangle::new(-3, 5).area(), -15);
    assert_eq!(Rectangle::default().area(), 0);
}
