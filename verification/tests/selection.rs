use apollo_router::query::field_type::FieldType;
use apollo_router::query::hir;
use apollo_router::query::include_skip::Condition;
use apollo_router::query::schema::{Fields, Schema};
use apollo_router::query::selection::{Selection, SpecError, RECURSION_LIMIT};

fn named(name: &str) -> FieldType {
    FieldType::Named(name.to_string())
}

fn list_of(inner: FieldType) -> FieldType {
    FieldType::List(Box::new(inner))
}

fn non_null(inner: FieldType) -> FieldType {
    FieldType::NonNull(Box::new(inner))
}

fn schema() -> Schema {
    let mut query = Fields::new();
    query.insert("me".to_string(), named("User"));
    query.insert("users".to_string(), non_null(list_of(non_null(named("User")))));
    query.insert("count".to_string(), FieldType::Int);
    let mut user = Fields::new();
    user.insert("name".to_string(), FieldType::String);
    user.insert("id".to_string(), non_null(FieldType::Id));
    user.insert("friend".to_string(), named("User"));
    let mut node = Fields::new();
    node.insert("id".to_string(), FieldType::Id);
    let mut user_interface = Fields::new();
    user_interface.insert("name".to_string(), FieldType::Int);
    user_interface.insert("extra".to_string(), FieldType::Float);
    let mut schema = Schema::new();
    schema.insert_object_type("Query".to_string(), query);
    schema.insert_object_type("User".to_string(), user);
    schema.insert_interface("Node".to_string(), node);
    schema.insert_interface("User".to_string(), user_interface);
    schema
}

fn field(name: &str, selection_set: Vec<hir::Selection>) -> hir::Selection {
    hir::Selection::Field(hir::Field {
        name: name.to_string(),
        alias: None,
        directives: vec![],
        selection_set,
    })
}

fn aliased(alias: &str, name: &str) -> hir::Selection {
    hir::Selection::Field(hir::Field {
        name: name.to_string(),
        alias: Some(alias.to_string()),
        directives: vec![],
        selection_set: vec![],
    })
}

fn skipped() -> Vec<hir::Directive> {
    vec![hir::Directive {
        name: "skip".to_string(),
        arguments: vec![hir::Argument {
            name: "if".to_string(),
            value: hir::ArgumentValue::Boolean(true),
        }],
    }]
}

fn skipped_field(name: &str) -> hir::Selection {
    hir::Selection::Field(hir::Field {
        name: name.to_string(),
        alias: None,
        directives: skipped(),
        selection_set: vec![],
    })
}

fn inline(type_condition: Option<&str>, selection_set: Vec<hir::Selection>) -> hir::Selection {
    hir::Selection::InlineFragment(hir::InlineFragment {
        type_condition: type_condition.map(|name| name.to_string()),
        directives: vec![],
        selection_set,
    })
}

fn spread(name: &str, directives: Vec<hir::Directive>) -> hir::Selection {
    hir::Selection::FragmentSpread(hir::FragmentSpread { name: name.to_string(), directives })
}

fn checked(selection: &hir::Selection, on: &FieldType) -> Selection {
    Selection::from_hir(selection, on, &schema(), 0).unwrap().unwrap()
}

fn error(selection: &hir::Selection, on: &FieldType, count: usize) -> SpecError {
    Selection::from_hir(selection, on, &schema(), count).unwrap_err()
}

#[test]
fn field_types_write_themselves_out() {
    assert_eq!(non_null(list_of(non_null(named("User")))).notation(), "[User!]!");
    assert_eq!(FieldType::Introspection("__Type".to_string()).notation(), "__Type");
    assert_eq!(FieldType::String.notation(), "String");
    assert_eq!(FieldType::Int.notation(), "Int");
    assert_eq!(FieldType::Float.notation(), "Float");
    assert_eq!(FieldType::Id.notation(), "ID");
    assert_eq!(list_of(FieldType::Boolean).notation(), "[Boolean]");
}

#[test]
fn field_types_tell_where_selections_happen() {
    let users = non_null(list_of(non_null(named("User"))));
    assert_eq!(users.inner_type_name().map(|name| name.as_str()), Some("User"));
    assert_eq!(non_null(FieldType::Id).inner_type_name(), None);
    assert!(FieldType::Boolean.is_builtin_scalar());
    assert!(!non_null(FieldType::Boolean).is_builtin_scalar());
    assert!(!named("Date").is_builtin_scalar());
    assert_eq!(users.clone().notation(), users.notation());
}

#[test]
fn schema_prefers_object_types_to_interfaces() {
    let schema = schema();
    assert_eq!(schema.field_type("User", "name").unwrap().notation(), "String");
    assert_eq!(schema.field_type("User", "extra").unwrap().notation(), "Float");
    assert_eq!(schema.field_type("Node", "id").unwrap().notation(), "ID");
    assert!(schema.field_type("Node", "name").is_none());
    assert!(schema.field_type("Absent", "id").is_none());
}

#[test]
fn field_takes_its_type_from_the_schema() {
    match checked(&aliased("total", "count"), &named("Query")) {
        Selection::Field { name, alias, selection_set, field_type, include_skip } => {
            assert_eq!(name, "count");
            assert_eq!(alias.as_deref(), Some("total"));
            assert!(selection_set.is_none());
            assert_eq!(field_type.notation(), "Int");
            assert!(matches!(include_skip.include_if, Condition::Yes));
            assert!(matches!(include_skip.skip_if, Condition::No));
        }
        other => panic!("unexpected selection: {:?}", other),
    }
}

#[test]
fn nested_fields_are_checked_on_the_inner_type() {
    let users = field("users", vec![field("name", vec![]), field("friend", vec![field("id", vec![])])]);
    match checked(&users, &named("Query")) {
        Selection::Field { selection_set: Some(set), field_type, .. } => {
            assert_eq!(field_type.notation(), "[User!]!");
            assert_eq!(set.len(), 2);
            match &set[1] {
                Selection::Field { name, selection_set: Some(set), .. } => {
                    assert_eq!(name, "friend");
                    assert_eq!(set.len(), 1);
                }
                other => panic!("unexpected selection: {:?}", other),
            }
        }
        other => panic!("unexpected selection: {:?}", other),
    }
}

#[test]
fn built_in_scalars_have_nothing_below() {
    match checked(&field("count", vec![field("nonsense", vec![])]), &named("Query")) {
        Selection::Field { selection_set, .. } => assert!(selection_set.is_none()),
        other => panic!("unexpected selection: {:?}", other),
    }
}

#[test]
fn scalars_that_are_not_null_are_looked_into() {
    let id = field("id", vec![field("nonsense", vec![])]);
    match error(&id, &named("User"), 0) {
        SpecError::InvalidType(ty) => assert_eq!(ty, "ID!"),
        other => panic!("unexpected error: {:?}", other),
    }
}

#[test]
fn introspection_fields_exist_on_every_type() {
    for (name, notation) in
        vec![("__typename", "String"), ("__schema", "__Schema"), ("__type", "__Type")]
    {
        match checked(&field(name, vec![]), &FieldType::Int) {
            Selection::Field { field_type, .. } => assert_eq!(field_type.notation(), notation),
            other => panic!("unexpected selection: {:?}", other),
        }
    }
}

#[test]
fn unknown_fields_are_refused() {
    match error(&field("age", vec![]), &list_of(named("User")), 0) {
        SpecError::InvalidField(name, ty) => {
            assert_eq!(name, "age");
            assert_eq!(ty, "[User]");
        }
        other => panic!("unexpected error: {:?}", other),
    }
}

#[test]
fn scalars_have_no_fields() {
    match error(&field("name", vec![]), &FieldType::Int, 0) {
        SpecError::InvalidType(ty) => assert_eq!(ty, "Int"),
        other => panic!("unexpected error: {:?}", other),
    }
}

#[test]
fn skipped_selections_are_left_out_unchecked() {
    let schema = schema();
    let query = named("Query");
    assert!(Selection::from_hir(&skipped_field("absent"), &query, &schema, 0).unwrap().is_none());
    assert!(Selection::from_hir(&spread("f", skipped()), &query, &schema, 0).unwrap().is_none());
    let fragment = hir::Selection::InlineFragment(hir::InlineFragment {
        type_condition: None,
        directives: skipped(),
        selection_set: vec![],
    });
    assert!(Selection::from_hir(&fragment, &FieldType::Int, &schema, 0).unwrap().is_none());
    match checked(&field("me", vec![skipped_field("absent"), field("name", vec![])]), &query) {
        Selection::Field { selection_set: Some(set), .. } => assert_eq!(set.len(), 1),
        other => panic!("unexpected selection: {:?}", other),
    }
    match checked(&field("me", vec![skipped_field("absent")]), &query) {
        Selection::Field { selection_set: Some(set), .. } => assert!(set.is_empty()),
        other => panic!("unexpected selection: {:?}", other),
    }
}

#[test]
fn first_error_in_a_selection_set_counts() {
    let me = field("me", vec![field("name", vec![]), field("b", vec![]), field("a", vec![])]);
    match error(&me, &named("Query"), 0) {
        SpecError::InvalidField(name, _) => assert_eq!(name, "b"),
        other => panic!("unexpected error: {:?}", other),
    }
}

#[test]
fn inline_fragment_applies_on_its_type_condition() {
    match checked(&inline(Some("User"), vec![field("name", vec![])]), &list_of(named("Node"))) {
        Selection::InlineFragment { type_condition, known_type, selection_set, .. } => {
            assert_eq!(type_condition, "User");
            assert_eq!(known_type.as_deref(), Some("Node"));
            assert_eq!(selection_set.len(), 1);
        }
        other => panic!("unexpected selection: {:?}", other),
    }
    match checked(&inline(Some("User"), vec![]), &FieldType::Int) {
        Selection::InlineFragment { known_type, .. } => assert!(known_type.is_none()),
        other => panic!("unexpected selection: {:?}", other),
    }
}

#[test]
fn inline_fragment_without_condition_takes_the_type_around_it() {
    match checked(&inline(None, vec![field("name", vec![])]), &non_null(named("User"))) {
        Selection::InlineFragment { type_condition, known_type, .. } => {
            assert_eq!(type_condition, "User");
            assert_eq!(known_type.as_deref(), Some("User"));
        }
        other => panic!("unexpected selection: {:?}", other),
    }
    match error(&inline(None, vec![]), &non_null(FieldType::Float), 0) {
        SpecError::InvalidType(ty) => assert_eq!(ty, "Float!"),
        other => panic!("unexpected error: {:?}", other),
    }
}

#[test]
fn fragment_spread_knows_the_type_around_it() {
    match checked(&spread("parts", vec![]), &named("User")) {
        Selection::FragmentSpread { name, known_type, .. } => {
            assert_eq!(name, "parts");
            assert_eq!(known_type.as_deref(), Some("User"));
        }
        other => panic!("unexpected selection: {:?}", other),
    }
}

#[test]
fn nesting_is_limited() {
    assert_eq!(RECURSION_LIMIT, 512);
    let user = named("User");
    let schema = schema();
    assert!(Selection::from_hir(&field("name", vec![]), &user, &schema, 512).is_ok());
    assert!(matches!(
        error(&field("name", vec![]), &user, 513),
        SpecError::RecursionLimitExceeded
    ));
    assert!(matches!(
        error(&field("friend", vec![field("name", vec![])]), &user, 512),
        SpecError::RecursionLimitExceeded
    ));
    assert!(matches!(
        error(&inline(Some("User"), vec![field("name", vec![])]), &user, 512),
        SpecError::RecursionLimitExceeded
    ));
}

#[test]
fn depth_does_not_change_what_comes_out() {
    let friend = field("friend", vec![field("name", vec![])]);
    let near = Selection::from_hir(&friend, &named("User"), &schema(), 0).unwrap();
    let deep = Selection::from_hir(&friend, &named("User"), &schema(), 511).unwrap();
    assert_eq!(format!("{:?}", near), format!("{:?}", deep));
}

#[test]
fn typename_field_has_an_output_key() {
    let user = named("User");
    let plain = checked(&field("__typename", vec![]), &user);
    assert!(plain.is_typename_field());
    assert_eq!(plain.output_key_if_typename_field().as_deref(), Some("__typename"));
    let renamed = checked(&aliased("kind", "__typename"), &user);
    assert!(renamed.is_typename_field());
    assert_eq!(renamed.output_key_if_typename_field().as_deref(), Some("kind"));
}

#[test]
fn other_selections_have_no_typename_key() {
    let user = named("User");
    for selection in
        vec![aliased("__typename", "name"), spread("__typename", vec![]), inline(None, vec![])]
    {
        let selection = checked(&selection, &user);
        assert!(!selection.is_typename_field());
        assert!(selection.output_key_if_typename_field().is_none());
    }
}
