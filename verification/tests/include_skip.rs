use apollo_router::json_ext::Object;
use apollo_router::query::hir::{Argument, ArgumentValue, Directive};
use apollo_router::query::include_skip::{Condition, IncludeSkip};
use serde_json_bytes::Value;

fn directive(name: &str, arguments: Vec<(&str, ArgumentValue)>) -> Directive {
    Directive {
        name: name.to_string(),
        arguments: arguments
            .into_iter()
            .map(|(name, value)| Argument { name: name.to_string(), value })
            .collect(),
    }
}

fn on(name: &str, value: bool) -> Directive {
    directive(name, vec![("if", ArgumentValue::Boolean(value))])
}

fn on_variable(name: &str, variable: &str) -> Directive {
    directive(name, vec![("if", ArgumentValue::Variable(variable.to_string()))])
}

fn variables(members: Vec<(&str, Value)>) -> Object {
    let mut object = Object::new();
    for (name, value) in members {
        object.insert(name, value);
    }
    object
}

#[test]
fn condition_parses_booleans_and_variables() {
    assert!(matches!(Condition::parse(&on("skip", true)), Some(Condition::Yes)));
    assert!(matches!(Condition::parse(&on("skip", false)), Some(Condition::No)));
    match Condition::parse(&on_variable("skip", "flag")) {
        Some(Condition::Variable(name)) => assert_eq!(name, "flag"),
        other => panic!("unexpected condition: {:?}", other),
    }
}

#[test]
fn condition_needs_a_usable_if_argument() {
    assert!(Condition::parse(&directive("skip", vec![])).is_none());
    assert!(Condition::parse(&directive("skip", vec![("if", ArgumentValue::Other)])).is_none());
    assert!(
        Condition::parse(&directive("skip", vec![("when", ArgumentValue::Boolean(true))])).is_none()
    );
}

#[test]
fn first_if_argument_counts() {
    let both = directive(
        "skip",
        vec![
            ("label", ArgumentValue::Other),
            ("if", ArgumentValue::Boolean(false)),
            ("if", ArgumentValue::Boolean(true)),
        ],
    );
    assert!(matches!(Condition::parse(&both), Some(Condition::No)));
    assert!(matches!(both.argument_by_name("label"), Some(ArgumentValue::Other)));
    assert!(both.argument_by_name("absent").is_none());
}

#[test]
fn condition_evaluates_against_variables() {
    let variables = variables(vec![
        ("yes", Value::Bool(true)),
        ("no", Value::Bool(false)),
        ("text", Value::String("true".into())),
        ("null", Value::Null),
    ]);
    let variable = |name: &str| Condition::Variable(name.to_string());
    assert_eq!(Condition::Yes.eval(&variables), Some(true));
    assert_eq!(Condition::No.eval(&variables), Some(false));
    assert_eq!(variable("yes").eval(&variables), Some(true));
    assert_eq!(variable("no").eval(&variables), Some(false));
    assert_eq!(variable("text").eval(&variables), None);
    assert_eq!(variable("null").eval(&variables), None);
    assert_eq!(variable("absent").eval(&variables), None);
}

#[test]
fn without_directives_a_selection_stays() {
    let include_skip = IncludeSkip::parse(&vec![]);
    assert!(matches!(include_skip.include_if, Condition::Yes));
    assert!(matches!(include_skip.skip_if, Condition::No));
    assert!(!include_skip.statically_skipped());
    assert!(!include_skip.should_skip(&Object::new()));
}

#[test]
fn static_directives_decide() {
    assert!(IncludeSkip::parse(&vec![on("skip", true)]).statically_skipped());
    assert!(IncludeSkip::parse(&vec![on("include", false)]).statically_skipped());
    assert!(!IncludeSkip::parse(&vec![on("skip", false)]).statically_skipped());
    assert!(!IncludeSkip::parse(&vec![on("include", true)]).statically_skipped());
    assert!(!IncludeSkip::parse(&vec![on("deprecated", true)]).statically_skipped());
    assert!(IncludeSkip::parse(&vec![on("include", true), on("skip", true)]).statically_skipped());
}

#[test]
fn static_skip_is_final_under_variables() {
    let skipped = IncludeSkip::parse(&vec![on("include", false)]);
    assert!(skipped.should_skip(&Object::new()));
    assert!(skipped.should_skip(&variables(vec![("flag", Value::Bool(true))])));
}

#[test]
fn first_usable_directive_of_a_name_counts() {
    let include_skip = IncludeSkip::parse(&vec![
        directive("include", vec![("if", ArgumentValue::Other)]),
        on("include", false),
        on("include", true),
        directive("skip", vec![]),
        on("skip", true),
        on("skip", false),
    ]);
    assert!(matches!(include_skip.include_if, Condition::No));
    assert!(matches!(include_skip.skip_if, Condition::Yes));
}

#[test]
fn variables_decide_whether_to_skip() {
    let skip = IncludeSkip::parse(&vec![on_variable("skip", "flag")]);
    assert!(!skip.statically_skipped());
    assert!(skip.should_skip(&variables(vec![("flag", Value::Bool(true))])));
    assert!(!skip.should_skip(&variables(vec![("flag", Value::Bool(false))])));
    assert!(!skip.should_skip(&variables(vec![("flag", Value::String("true".into()))])));
    assert!(!skip.should_skip(&Object::new()));

    let included = IncludeSkip::parse(&vec![on_variable("include", "flag")]);
    assert!(!included.should_skip(&variables(vec![("flag", Value::Bool(true))])));
    assert!(included.should_skip(&variables(vec![("flag", Value::Bool(false))])));
    assert!(!included.should_skip(&Object::new()));
}
