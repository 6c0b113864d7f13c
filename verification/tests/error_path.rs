use apollo_router::json_ext::PathElement;
use apollo_router::query::field_type::FieldType;
use apollo_router::query::fragments::{Fragment, Fragments};
use apollo_router::query::include_skip::{Condition, IncludeSkip};
use apollo_router::query::selection::Selection;

fn always() -> IncludeSkip {
    IncludeSkip { include_if: Condition::Yes, skip_if: Condition::No }
}

fn field(name: &str, alias: Option<&str>, selection_set: Option<Vec<Selection>>) -> Selection {
    Selection::Field {
        name: name.to_string(),
        alias: alias.map(|alias| alias.to_string()),
        selection_set,
        field_type: FieldType::Named("Any".to_string()),
        include_skip: always(),
    }
}

fn inline(type_condition: &str, selection_set: Vec<Selection>) -> Selection {
    Selection::InlineFragment {
        type_condition: type_condition.to_string(),
        include_skip: always(),
        known_type: None,
        selection_set,
    }
}

fn spread(name: &str) -> Selection {
    Selection::FragmentSpread {
        name: name.to_string(),
        known_type: None,
        include_skip: always(),
    }
}

fn with(fragments: Fragments, name: &str, on: &str, selection_set: Vec<Selection>) -> Fragments {
    fragments.with(
        name.to_string(),
        Fragment { type_condition: on.to_string(), selection_set },
    )
}

fn key(name: &str) -> PathElement {
    PathElement::Key(name.to_string())
}

fn on(name: &str) -> PathElement {
    PathElement::Fragment(name.to_string())
}

#[test]
fn fragments_are_found_by_name() {
    let fragments = with(Fragments::new(), "f", "User", vec![]);
    assert_eq!(fragments.len(), 1);
    assert_eq!(fragments.get("f").unwrap().type_condition, "User");
    assert!(fragments.get("g").is_none());
    let fragments = with(fragments, "f", "Node", vec![]);
    assert_eq!(fragments.len(), 1);
    assert_eq!(fragments.get("f").unwrap().type_condition, "Node");
}

#[test]
fn every_selection_contains_the_empty_path() {
    let none = Fragments::new();
    assert!(field("a", None, None).contains_error_path(&[], &none));
    assert!(inline("T", vec![]).contains_error_path(&[], &none));
    assert!(spread("absent").contains_error_path(&[], &none));
}

#[test]
fn leaf_field_contains_its_own_key_only() {
    let none = Fragments::new();
    let leaf = field("a", None, None);
    assert!(leaf.contains_error_path(&[key("a")], &none));
    assert!(!leaf.contains_error_path(&[key("b")], &none));
    assert!(!leaf.contains_error_path(&[key("a"), key("b")], &none));
    assert!(!leaf.contains_error_path(&[key("a"), PathElement::Index(0)], &none));
    assert!(!leaf.contains_error_path(&[on("a")], &none));
}

#[test]
fn alias_replaces_the_name() {
    let none = Fragments::new();
    let aliased = field("a", Some("x"), None);
    assert!(aliased.contains_error_path(&[key("x")], &none));
    assert!(!aliased.contains_error_path(&[key("a")], &none));
}

#[test]
fn path_goes_on_below_a_field() {
    let none = Fragments::new();
    let parent = field("a", None, Some(vec![field("b", None, None), field("c", None, None)]));
    assert!(parent.contains_error_path(&[key("a")], &none));
    assert!(parent.contains_error_path(&[key("a"), key("c")], &none));
    assert!(!parent.contains_error_path(&[key("a"), key("d")], &none));
    assert!(!parent.contains_error_path(&[key("c")], &none));
}

#[test]
fn field_with_an_empty_selection_set_ends_no_path() {
    let none = Fragments::new();
    assert!(!field("a", None, Some(vec![])).contains_error_path(&[key("a")], &none));
}

#[test]
fn array_steps_pass_through_fields() {
    let none = Fragments::new();
    let parent = field("a", None, Some(vec![field("b", None, None)]));
    assert!(parent.contains_error_path(&[key("a"), PathElement::Index(3), key("b")], &none));
    assert!(parent.contains_error_path(&[key("a"), PathElement::Flatten, key("b")], &none));
    assert!(parent.contains_error_path(&[PathElement::Index(0), key("a")], &none));
    assert!(!parent.contains_error_path(&[key("a"), PathElement::Index(3), key("c")], &none));
}

#[test]
fn inline_fragment_is_entered_by_name_or_passed_over() {
    let none = Fragments::new();
    let fragment = inline("User", vec![field("a", None, None)]);
    assert!(fragment.contains_error_path(&[on("User"), key("a")], &none));
    assert!(fragment.contains_error_path(&[key("a")], &none));
    assert!(fragment.contains_error_path(&[PathElement::Flatten, key("a")], &none));
    assert!(!fragment.contains_error_path(&[on("Node"), key("a")], &none));
    assert!(!fragment.contains_error_path(&[key("b")], &none));
    assert!(!inline("User", vec![]).contains_error_path(&[on("User")], &none));
}

#[test]
fn spread_is_entered_by_name_or_passed_over() {
    let fragments = with(Fragments::new(), "parts", "User", vec![field("a", None, None)]);
    let parts = spread("parts");
    assert!(parts.contains_error_path(&[on("User"), key("a")], &fragments));
    assert!(parts.contains_error_path(&[key("a")], &fragments));
    assert!(parts.contains_error_path(&[PathElement::Index(1), key("a")], &fragments));
    assert!(!parts.contains_error_path(&[on("parts"), key("a")], &fragments));
    assert!(!parts.contains_error_path(&[key("b")], &fragments));
    assert!(!spread("absent").contains_error_path(&[key("a")], &fragments));
    assert!(!spread("absent").contains_error_path(&[on("User")], &fragments));
}

#[test]
fn spreads_in_a_row_are_followed() {
    let fragments = with(Fragments::new(), "one", "T", vec![spread("two")]);
    let fragments = with(fragments, "two", "T", vec![inline("T", vec![spread("three")])]);
    let fragments = with(
        fragments,
        "three",
        "T",
        vec![field("a", None, Some(vec![spread("four")]))],
    );
    let fragments = with(fragments, "four", "T", vec![field("b", None, None)]);
    assert!(spread("one").contains_error_path(&[key("a"), key("b")], &fragments));
    assert!(!spread("one").contains_error_path(&[key("b")], &fragments));
}

#[test]
fn spreads_in_a_circle_lead_nowhere_new() {
    let fragments = with(Fragments::new(), "one", "T", vec![spread("two"), field("a", None, None)]);
    let fragments = with(
        fragments,
        "two",
        "T",
        vec![spread("one"), field("b", None, Some(vec![spread("one")]))],
    );
    assert!(spread("one").contains_error_path(&[key("a")], &fragments));
    assert!(spread("two").contains_error_path(&[key("a")], &fragments));
    assert!(spread("one").contains_error_path(&[key("b"), key("b"), key("a")], &fragments));
    assert!(!spread("one").contains_error_path(&[key("c")], &fragments));
}

#[test]
fn array_elements_do_not_count() {
    let fragments = with(Fragments::new(), "parts", "User", vec![field("a", None, None)]);
    let selection = field("list", None, Some(vec![spread("parts")]));
    for step in vec![PathElement::Index(0), PathElement::Index(7), PathElement::Flatten] {
        assert!(selection.contains_error_path(&[key("list"), step, key("a")], &fragments));
    }
}

#[test]
fn shorter_paths_are_contained() {
    let fragments = with(Fragments::new(), "parts", "User", vec![field("a", None, None)]);
    let selection = field("list", None, Some(vec![inline("Node", vec![spread("parts")])]));
    let path = [key("list"), PathElement::Flatten, on("User"), key("a")];
    assert!(!selection.contains_error_path(&path, &fragments));
    let path = [key("list"), on("Node"), on("User"), key("a")];
    for length in 0..=path.len() {
        assert!(selection.contains_error_path(&path[..length], &fragments));
    }
}

#[test]
fn clones_contain_the_same_paths() {
    let fragments = with(Fragments::new(), "parts", "User", vec![field("a", None, None)]);
    let selection = field("list", Some("l"), Some(vec![inline("Node", vec![spread("parts")])]));
    let copy = selection.clone();
    assert_eq!(copy, selection);
    assert!(copy.contains_error_path(&[key("l"), key("a")], &fragments));
    assert_ne!(copy, field("list", None, None));
}
