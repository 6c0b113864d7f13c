//! What holds of the calls that read a query, in terms of what goes in and what comes out.

use crate::json_ext::{object_members, JsonValue, Object, PathElement};
use crate::query::error_path::{
    any_contains_error_path, first_step_decides, runs_through, runs_through_any,
};
use crate::query::field_type::{FieldType, FieldTypeModel};
use crate::query::fragments::{Fragment, FragmentModel, Fragments};
use crate::query::hir;
use crate::query::include_skip::{
    first_condition, stated_condition, Condition, ConditionModel, IncludeSkip, IncludeSkipModel,
};
use crate::query::schema::{Fields, Schema, SchemaModel};
use crate::query::selection::{
    checked, checked_set, models, Selection, SelectionModel, SpecError, SpecErrorModel,
};
use crate::text::{copy_optional, is_text};
use vstd::prelude::*;

verus! {

/// Whether an argument is the first one of a name.
pub open spec fn is_first_of_name(
    arguments: Seq<hir::Argument>,
    name: Seq<char>,
    i: int,
) -> bool {
    &&& 0 <= i < arguments.len()
    &&& arguments[i].name@ == name
    &&& forall|j: int| 0 <= j < i ==> (#[trigger] arguments[j]).name@ != name
}

proof fn lemma_first_argument(arguments: Seq<hir::Argument>, name: Seq<char>)
    ensures
        (hir::first_argument(arguments, name) is None) == (forall|i: int|
            0 <= i < arguments.len() ==> (#[trigger] arguments[i]).name@ != name),
        forall|i: int| #[trigger]
            is_first_of_name(arguments, name, i) ==> hir::first_argument(arguments, name) == Some(
                arguments[i].value,
            ),
    decreases arguments.len(),
{
    if arguments.len() > 0 && arguments[0].name@ != name {
        let rest = arguments.drop_first();
        lemma_first_argument(rest, name);
        assert forall|i: int| 0 < i < arguments.len() implies #[trigger] arguments[i] == rest[i
            - 1] by {}
        assert forall|i: int| 0 <= i < rest.len() implies #[trigger] rest[i] == arguments[i
            + 1] by {}
        assert forall|i: int| #[trigger] is_first_of_name(arguments, name, i) implies
            hir::first_argument(arguments, name) == Some(arguments[i].value) by {
            assert(is_first_of_name(rest, name, i - 1));
        }
    }
}

/// The argument of a name is the first one of that name. There is none exactly where no argument
/// has the name.
pub proof fn first_argument_of_a_name_is_found(
    directive: hir::Directive,
    name: &str,
    value: Option<&hir::ArgumentValue>,
)
    requires
        call_ensures(hir::Directive::argument_by_name, (&directive, name), value),
    ensures
        (value is None) == (forall|i: int|
            0 <= i < directive.arguments@.len() ==> (#[trigger] directive.arguments@[i]).name@
                != name@),
        forall|i: int| #[trigger]
            is_first_of_name(directive.arguments@, name@, i) ==> value == Some(
                &directive.arguments@[i].value,
            ),
{
    lemma_first_argument(directive.arguments@, name@);
}

/// The first `if` argument of a directive is its condition: yes for true, no for false, a variable
/// for that variable, and no condition for anything else or without that argument.
pub proof fn first_if_is_the_condition(directive: hir::Directive, condition: Option<Condition>)
    requires
        call_ensures(Condition::parse, (&directive,), condition),
    ensures
        (forall|i: int|
            0 <= i < directive.arguments@.len() ==> (#[trigger] directive.arguments@[i]).name@
                != "if"@) ==> condition is None,
        forall|i: int| #[trigger]
            is_first_of_name(directive.arguments@, "if"@, i) ==> match directive.arguments@[i].value {
                hir::ArgumentValue::Boolean(b) => if b {
                    condition matches Some(Condition::Yes)
                } else {
                    condition matches Some(Condition::No)
                },
                hir::ArgumentValue::Variable(name) => {
                    &&& condition matches Some(Condition::Variable(variable))
                    &&& variable@ == name@
                },
                hir::ArgumentValue::Other => condition is None,
            },
{
    lemma_first_argument(directive.arguments@, "if"@);
}

/// Whether a directive is the first one of a name that states a condition.
pub open spec fn is_first_usable(
    directives: Seq<hir::Directive>,
    name: Seq<char>,
    i: int,
) -> bool {
    &&& 0 <= i < directives.len()
    &&& directives[i].name@ == name
    &&& stated_condition(directives[i]) is Some
    &&& forall|j: int|
        0 <= j < i ==> (#[trigger] directives[j]).name@ != name || stated_condition(
            directives[j],
        ) is None
}

/// Whether no directive of a name states a condition.
pub open spec fn none_usable(directives: Seq<hir::Directive>, name: Seq<char>) -> bool {
    forall|i: int|
        0 <= i < directives.len() ==> (#[trigger] directives[i]).name@ != name || stated_condition(
            directives[i],
        ) is None
}

proof fn lemma_first_condition(directives: Seq<hir::Directive>, name: Seq<char>)
    ensures
        none_usable(directives, name) ==> first_condition(directives, name) is None,
        forall|i: int| #[trigger]
            is_first_usable(directives, name, i) ==> first_condition(directives, name)
                == stated_condition(directives[i]),
    decreases directives.len(),
{
    if directives.len() > 0 {
        let rest = directives.drop_first();
        lemma_first_condition(rest, name);
        assert forall|i: int| 0 <= i < rest.len() implies #[trigger] rest[i] == directives[i
            + 1] by {}
        assert forall|i: int| #[trigger] is_first_usable(directives, name, i) implies
            first_condition(directives, name) == stated_condition(directives[i]) by {
            if i > 0 {
                assert(directives[0].name@ != name || stated_condition(directives[0]) is None);
                assert(is_first_usable(rest, name, i - 1));
            }
        }
    }
}

/// A selection is included, and not skipped, as the first usable directive of each name says. It is
/// included where no `@include` is usable, and not skipped where no `@skip` is.
pub proof fn first_usable_directives_decide(
    directives: Vec<hir::Directive>,
    include_skip: IncludeSkip,
)
    requires
        call_ensures(IncludeSkip::parse, (&directives,), include_skip),
    ensures
        none_usable(directives@, "include"@) ==> include_skip.include_if is Yes,
        none_usable(directives@, "skip"@) ==> include_skip.skip_if is No,
        forall|i: int| #[trigger]
            is_first_usable(directives@, "include"@, i) ==> Some(include_skip.include_if@)
                == stated_condition(directives@[i]),
        forall|i: int| #[trigger]
            is_first_usable(directives@, "skip"@, i) ==> Some(include_skip.skip_if@)
                == stated_condition(directives@[i]),
{
    lemma_first_condition(directives@, "include"@);
    lemma_first_condition(directives@, "skip"@);
}

/// The model of a condition tells all there is of it.
pub proof fn condition_models_are_faithful(condition: Condition)
    ensures
        condition is Yes <==> condition@ is Yes,
        condition is No <==> condition@ is No,
        condition matches Condition::Variable(name) ==> condition@ == ConditionModel::Variable(
            name@,
        ),
{
}

/// Whether a condition comes to the given boolean under some variables.
pub open spec fn comes_to(condition: Condition, variables: Object, b: bool) -> bool {
    match condition {
        Condition::Yes => b,
        Condition::No => !b,
        Condition::Variable(name) => {
            &&& object_members(variables).contains_key(name@)
            &&& object_members(variables)[name@] == JsonValue::Boolean(b)
        },
    }
}

/// A condition comes to a boolean exactly where it is that boolean or names a variable that is.
pub proof fn conditions_come_to_what_they_name(
    condition: Condition,
    variables: Object,
    result: Option<bool>,
)
    requires
        call_ensures(Condition::eval, (&condition, &variables), result),
    ensures
        forall|b: bool| #[trigger] comes_to(condition, variables, b) <==> result == Some(b),
{
    assert(comes_to(condition, variables, true) <==> result == Some(true));
    assert(comes_to(condition, variables, false) <==> result == Some(false));
}

/// A selection is left out under some variables exactly where its skipping comes to true or its
/// inclusion to false, and by its directives alone exactly where they say so outright.
pub proof fn selections_are_left_out_by_either_condition(
    include_skip: IncludeSkip,
    variables: Object,
)
    ensures
        forall|skip: bool| #[trigger]
            call_ensures(IncludeSkip::should_skip, (&include_skip, &variables), skip) ==> (skip
                <==> comes_to(include_skip.skip_if, variables, true) || comes_to(
                include_skip.include_if,
                variables,
                false,
            )),
        forall|skipped: bool| #[trigger]
            call_ensures(IncludeSkip::statically_skipped, (&include_skip,), skipped) ==> (skipped
                <==> include_skip.skip_if is Yes || include_skip.include_if is No),
{
}

/// A copy of a condition or of both is the same.
pub proof fn copies_of_conditions_are_the_same(
    condition: Condition,
    copy: Condition,
    include_skip: IncludeSkip,
    both: IncludeSkip,
)
    requires
        call_ensures(Condition::clone, (&condition,), copy),
        call_ensures(IncludeSkip::clone, (&include_skip,), both),
    ensures
        copy@ == condition@,
        both.include_if@ == include_skip.include_if@,
        both.skip_if@ == include_skip.skip_if@,
{
}

/// Lists and non-null types are looked through: selections happen on what they are made of. A named
/// type has its own name, and a built-in scalar none.
pub proof fn wrapped_types_have_the_inner_name(ty: FieldTypeModel, name: Seq<char>)
    ensures
        FieldTypeModel::List(Box::new(ty)).inner_type_name() == ty.inner_type_name(),
        FieldTypeModel::NonNull(Box::new(ty)).inner_type_name() == ty.inner_type_name(),
        FieldTypeModel::Named(name).inner_type_name() == Some(name),
        FieldTypeModel::Introspection(name).inner_type_name() == Some(name),
        FieldTypeModel::String.inner_type_name() is None,
        FieldTypeModel::Int.inner_type_name() is None,
        FieldTypeModel::Float.inner_type_name() is None,
        FieldTypeModel::Id.inner_type_name() is None,
        FieldTypeModel::Boolean.inner_type_name() is None,
{
    reveal_with_fuel(FieldTypeModel::inner_type_name, 2);
}

/// A list is written in brackets around its element, and a non-null type with a mark behind it.
pub proof fn wrapped_types_are_written_around_the_inner(ty: FieldTypeModel)
    ensures
        FieldTypeModel::List(Box::new(ty)).notation() == seq!['['] + ty.notation() + seq![']'],
        FieldTypeModel::NonNull(Box::new(ty)).notation() == ty.notation() + seq!['!'],
        ty matches FieldTypeModel::Named(name) ==> ty.notation() == name,
        ty matches FieldTypeModel::Introspection(name) ==> ty.notation() == name,
        ty is String ==> ty.notation() == "String"@,
        ty is Int ==> ty.notation() == "Int"@,
        ty is Float ==> ty.notation() == "Float"@,
        ty is Id ==> ty.notation() == "ID"@,
        ty is Boolean ==> ty.notation() == "Boolean"@,
{
    reveal_with_fuel(FieldTypeModel::notation, 2);
    reveal_strlit("[");
    reveal_strlit("]");
    reveal_strlit("!");
    assert("["@ =~= seq!['[']);
    assert("]"@ =~= seq![']']);
    assert("!"@ =~= seq!['!']);
}

/// The model of a type tells all there is of it.
pub proof fn type_models_are_faithful(ty: FieldType)
    ensures
        match ty {
            FieldType::Introspection(name) => ty@ == FieldTypeModel::Introspection(name@),
            FieldType::Named(name) => ty@ == FieldTypeModel::Named(name@),
            FieldType::List(inner) => ty@ == FieldTypeModel::List(Box::new((*inner)@)),
            FieldType::NonNull(inner) => ty@ == FieldTypeModel::NonNull(Box::new((*inner)@)),
            FieldType::String => ty@ is String,
            FieldType::Int => ty@ is Int,
            FieldType::Float => ty@ is Float,
            FieldType::Id => ty@ is Id,
            FieldType::Boolean => ty@ is Boolean,
        },
{
}

/// What the functions on a type give: the name and the notation of its model, and whether it is one
/// of the five scalars itself. A copy is the same type.
pub proof fn types_tell_what_they_are(ty: FieldType)
    ensures
        forall|name: Option<&String>| #[trigger]
            call_ensures(FieldType::inner_type_name, (&ty,), name) ==> match name {
                Some(name) => ty@.inner_type_name() == Some(name@),
                None => ty@.inner_type_name() is None,
            },
        forall|text: String| #[trigger]
            call_ensures(FieldType::notation, (&ty,), text) ==> text@ == ty@.notation(),
        forall|scalar: bool| #[trigger]
            call_ensures(FieldType::is_builtin_scalar, (&ty,), scalar) ==> (scalar <==> ty is String
                || ty is Int || ty is Float || ty is Id || ty is Boolean),
        forall|copy: FieldType| #[trigger]
            call_ensures(FieldType::clone, (&ty,), copy) ==> copy@ == ty@,
{
}

/// The type that a schema gives a field of a type: that of the object type of that name where it has
/// the field, and else that of the interface of that name where that has it.
pub open spec fn declared(schema: SchemaModel, owner: Seq<char>, field: Seq<char>) -> Option<
    FieldTypeModel,
> {
    if schema.object_types.dom().contains(owner) && schema.object_types[owner].dom().contains(
        field,
    ) {
        Some(schema.object_types[owner][field])
    } else if schema.interfaces.dom().contains(owner) && schema.interfaces[owner].dom().contains(
        field,
    ) {
        Some(schema.interfaces[owner][field])
    } else {
        None
    }
}

/// A schema gives a field the type of the object type, or else that of the interface.
pub proof fn object_types_come_before_interfaces(
    schema: Schema,
    owner: &str,
    field: &str,
    ty: Option<&FieldType>,
)
    requires
        call_ensures(Schema::field_type, (&schema, owner, field), ty),
    ensures
        match ty {
            Some(ty) => declared(schema@, owner@, field@) == Some(ty@),
            None => declared(schema@, owner@, field@) is None,
        },
{
}

/// A field that is given a type has that type, and all others have theirs as before.
pub proof fn fields_have_the_types_they_were_given(name: String, ty: FieldType, asked: &str)
    ensures
        forall|fields: &mut Fields, found: Option<&FieldType>|
            #![trigger
                call_ensures(Fields::insert, (fields, name, ty), ()),
                call_ensures(Fields::get, (&*final(fields), asked), found)]
            call_ensures(Fields::insert, (fields, name, ty), ()) && call_ensures(
                Fields::get,
                (&*final(fields), asked),
                found,
            ) ==> if asked@ == name@ {
                &&& found matches Some(found)
                &&& found@ == ty@
            } else {
                match found {
                    Some(found) => fields@.contains_key(asked@) && fields@[asked@] == found@,
                    None => !fields@.contains_key(asked@),
                }
            },
        forall|fields: Fields, found: Option<&FieldType>|
            #![trigger
                call_ensures(Fields::new, (), fields),
                call_ensures(Fields::get, (&fields, asked), found)]
            call_ensures(Fields::new, (), fields) && call_ensures(
                Fields::get,
                (&fields, asked),
                found,
            ) ==> found is None,
{
}

/// A type that is defined has the fields it was given, and every other type those it had, whether
/// object type or interface.
pub proof fn types_have_the_fields_they_were_given(name: String, fields: Fields, other: Seq<char>)
    ensures
        forall|schema: &mut Schema| #[trigger]
            call_ensures(Schema::insert_object_type, (schema, name, fields), ()) ==> {
                let (before, after) = (schema@, final(schema)@);
                &&& after.object_types.contains_key(name@)
                &&& after.object_types[name@] == fields@
                &&& other != name@ ==> after.object_types.contains_key(other)
                    == before.object_types.contains_key(other)
                &&& other != name@ && before.object_types.contains_key(other)
                    ==> after.object_types[other] == before.object_types[other]
                &&& after.interfaces == before.interfaces
            },
        forall|schema: &mut Schema| #[trigger]
            call_ensures(Schema::insert_interface, (schema, name, fields), ()) ==> {
                let (before, after) = (schema@, final(schema)@);
                &&& after.interfaces.contains_key(name@)
                &&& after.interfaces[name@] == fields@
                &&& other != name@ ==> after.interfaces.contains_key(other)
                    == before.interfaces.contains_key(other)
                &&& other != name@ && before.interfaces.contains_key(other)
                    ==> after.interfaces[other] == before.interfaces[other]
                &&& after.object_types == before.object_types
            },
        forall|schema: Schema| #[trigger]
            call_ensures(Schema::new, (), schema) ==> !schema@.object_types.contains_key(other)
                && !schema@.interfaces.contains_key(other),
{
}

/// A fragment that is added is found under its name, and all others as before.
pub proof fn fragments_are_found_as_they_were_given(
    before: Fragments,
    name: String,
    fragment: Fragment,
    after: Fragments,
    asked: &str,
    found: Option<&Fragment>,
)
    requires
        call_ensures(Fragments::with, (before, name, fragment), after),
        call_ensures(Fragments::get, (&after, asked), found),
    ensures
        asked@ == name@ ==> {
            &&& found matches Some(found)
            &&& found@.type_condition == fragment.type_condition@
            &&& found@.selection_set == models(fragment.selection_set@)
        },
        asked@ != name@ ==> match found {
            Some(found) => before@.contains_key(asked@) && before@[asked@] == found@,
            None => !before@.contains_key(asked@),
        },
{
}

/// Without fragments none is found; their number is that of the names under which one is found.
pub proof fn fragments_are_counted_by_name(fragments: Fragments, asked: &str)
    ensures
        forall|found: Option<&Fragment>|
            #![trigger call_ensures(Fragments::get, (&fragments, asked), found)]
            call_ensures(Fragments::new, (), fragments) && call_ensures(
                Fragments::get,
                (&fragments, asked),
                found,
            ) ==> found is None,
        forall|len: usize| #[trigger]
            call_ensures(Fragments::len, (&fragments,), len) ==> len == fragments@.dom().len(),
{
}

/// The model of a selection tells all there is of it.
pub proof fn selection_models_are_faithful(selection: Selection)
    ensures
        match selection {
            Selection::Field { name, alias, selection_set, field_type, include_skip } => {
                &&& selection@ matches SelectionModel::Field {
                    name: model_name,
                    alias: model_alias,
                    selection_set: model_set,
                    field_type: model_type,
                    include_skip: model_skip,
                }
                &&& model_name == name@
                &&& model_alias is Some <==> alias is Some
                &&& alias is Some ==> model_alias->Some_0 == alias->Some_0@
                &&& model_set is Some <==> selection_set is Some
                &&& selection_set is Some ==> same_entries(selection_set->Some_0@, model_set->Some_0)
                &&& model_type == field_type@
                &&& model_skip == include_skip@
            },
            Selection::InlineFragment { type_condition, include_skip, known_type, selection_set }
                => {
                &&& selection@ matches SelectionModel::InlineFragment {
                    type_condition: model_condition,
                    include_skip: model_skip,
                    known_type: model_known,
                    selection_set: model_set,
                }
                &&& model_condition == type_condition@
                &&& model_known is Some <==> known_type is Some
                &&& known_type is Some ==> model_known->Some_0 == known_type->Some_0@
                &&& same_entries(selection_set@, model_set)
                &&& model_skip == include_skip@
            },
            Selection::FragmentSpread { name, known_type, include_skip } => {
                &&& selection@ matches SelectionModel::FragmentSpread {
                    name: model_name,
                    known_type: model_known,
                    include_skip: model_skip,
                }
                &&& model_name == name@
                &&& model_known is Some <==> known_type is Some
                &&& known_type is Some ==> model_known->Some_0 == known_type->Some_0@
                &&& model_skip == include_skip@
            },
        },
{
}

/// Whether some models are those of some selections, in order.
pub open spec fn same_entries(selections: Seq<Selection>, models: Seq<SelectionModel>) -> bool {
    &&& models.len() == selections.len()
    &&& forall|i: int| 0 <= i < models.len() ==> #[trigger] models[i] == selections[i]@
}

/// A copy of a selection is the same.
pub proof fn copies_of_selections_are_the_same(selection: Selection, copy: Selection)
    requires
        call_ensures(Selection::clone, (&selection,), copy),
    ensures
        copy@ == selection@,
{
}

/// Whether directives alone leave a selection out: the first usable `@skip` says true, or the first
/// usable `@include` says false.
pub open spec fn left_out(directives: Seq<hir::Directive>) -> bool {
    (exists|i: int|
        is_first_usable(directives, "skip"@, i) && stated_condition(directives[i]) == Some(
            ConditionModel::Yes,
        )) || (exists|i: int|
        is_first_usable(directives, "include"@, i) && stated_condition(directives[i]) == Some(
            ConditionModel::No,
        ))
}

proof fn lemma_usable(directives: Seq<hir::Directive>, name: Seq<char>)
    ensures
        none_usable(directives, name) || exists|i: int| is_first_usable(directives, name, i),
    decreases directives.len(),
{
    if directives.len() > 0 {
        let front = directives.drop_last();
        let last = directives.len() - 1;
        lemma_usable(front, name);
        assert forall|i: int| 0 <= i < front.len() implies #[trigger] directives[i]
            == front[i] by {}
        if none_usable(front, name) {
            if directives[last].name@ == name && stated_condition(directives[last]) is Some {
                assert forall|j: int| 0 <= j < last implies (#[trigger] directives[j]).name@ != name
                    || stated_condition(directives[j]) is None by {
                    assert(front[j].name@ != name || stated_condition(front[j]) is None);
                }
                assert(is_first_usable(directives, name, last));
            } else {
                assert forall|j: int| 0 <= j < directives.len() implies (
                #[trigger] directives[j]).name@ != name || stated_condition(
                    directives[j],
                ) is None by {
                    if j < last {
                        assert(front[j].name@ != name || stated_condition(front[j]) is None);
                    }
                }
            }
        } else {
            let i = choose|i: int| is_first_usable(front, name, i);
            assert forall|j: int| 0 <= j < i implies (#[trigger] directives[j]).name@ != name
                || stated_condition(directives[j]) is None by {
                assert(front[j].name@ != name || stated_condition(front[j]) is None);
            }
            assert(is_first_usable(directives, name, i));
        }
    }
}

proof fn lemma_left_out(directives: Seq<hir::Directive>)
    ensures
        left_out(directives) == IncludeSkipModel::of(directives).statically_skipped(),
{
    lemma_first_condition(directives, "include"@);
    lemma_first_condition(directives, "skip"@);
    lemma_usable(directives, "include"@);
    lemma_usable(directives, "skip"@);
}

/// The type of a field that is selected on a type: the three fields of introspection have their own
/// on every type, and every other field the one that the schema declares.
pub open spec fn type_of_field(
    field: Seq<char>,
    current: FieldTypeModel,
    schema: SchemaModel,
) -> Option<FieldTypeModel> {
    if field == "__typename"@ {
        Some(FieldTypeModel::String)
    } else if field == "__schema"@ {
        Some(FieldTypeModel::Introspection("__Schema"@))
    } else if field == "__type"@ {
        Some(FieldTypeModel::Introspection("__Type"@))
    } else if current.inner_type_name() is Some {
        declared(schema, current.inner_type_name()->Some_0, field)
    } else {
        None
    }
}

/// Whether a type is one of the five built-in scalars, outright.
pub open spec fn is_scalar(ty: FieldTypeModel) -> bool {
    ty is String || ty is Int || ty is Float || ty is Id || ty is Boolean
}

/// A field comes out with the name, the alias and the directives that it was written with, with the
/// type that the schema gives it, and with what its selections come to on that type, whether or not
/// there are any. There are none below exactly where the type is a built-in scalar or none are
/// written.
pub proof fn fields_come_out_as_written(
    field: hir::Field,
    current: FieldType,
    schema: Schema,
    count: usize,
    selection: Selection,
)
    requires
        call_ensures(
            Selection::from_hir,
            (&hir::Selection::Field(field), &current, &schema, count),
            Ok(Some(selection)),
        ),
    ensures
        selection matches Selection::Field { name, alias, selection_set, field_type, include_skip }
            && {
            &&& name@ == field.name@
            &&& alias is Some <==> field.alias is Some
            &&& alias is Some ==> alias->Some_0@ == field.alias->Some_0@
            &&& include_skip@ == IncludeSkipModel::of(field.directives@)
            &&& type_of_field(field.name@, current@, schema@) == Some(field_type@)
            &&& selection_set is None <==> is_scalar(field_type@) || field.selection_set@.len() == 0
            &&& selection_set matches Some(set) ==> checked_set(
                field.selection_set@,
                field_type@,
                schema@,
                (count + 1) as nat,
            ) == Ok::<Seq<SelectionModel>, SpecErrorModel>(models(set@))
        },
        count <= 512,
        !left_out(field.directives@),
{
    lemma_left_out(field.directives@);
}

/// A field is refused, or left out, for these reasons alone and in this order: it stands too deep;
/// its directives leave it out; the type around it has no fields; that type does not have this
/// field; or a selection below it is refused, the first one that is.
pub proof fn fields_are_refused_for_cause(
    field: hir::Field,
    current: FieldType,
    schema: Schema,
    count: usize,
    result: Result<Option<Selection>, SpecError>,
)
    requires
        call_ensures(
            Selection::from_hir,
            (&hir::Selection::Field(field), &current, &schema, count),
            result,
        ),
    ensures
        if count > 512 {
            result matches Err(SpecError::RecursionLimitExceeded)
        } else if left_out(field.directives@) {
            result matches Ok(None)
        } else {
            match type_of_field(field.name@, current@, schema@) {
                None => if current@.inner_type_name() is None {
                    &&& result matches Err(SpecError::InvalidType(ty))
                    &&& ty@ == current@.notation()
                } else {
                    &&& result matches Err(SpecError::InvalidField(name, ty))
                    &&& name@ == field.name@
                    &&& ty@ == current@.notation()
                },
                Some(ty) => if is_scalar(ty) || field.selection_set@.len() == 0 {
                    result matches Ok(Some(_))
                } else {
                    fails_alike(
                        checked_set(field.selection_set@, ty, schema@, (count + 1) as nat),
                        result,
                    )
                },
            }
        },
{
    lemma_left_out(field.directives@);
}

/// Whether a selection is refused exactly where the selections below it are, and alike.
pub open spec fn fails_alike(
    below: Result<Seq<SelectionModel>, SpecErrorModel>,
    result: Result<Option<Selection>, SpecError>,
) -> bool {
    match below {
        Ok(_) => result matches Ok(Some(_)),
        Err(reason) => match result {
            Err(SpecError::RecursionLimitExceeded) => reason is RecursionLimitExceeded,
            Err(SpecError::InvalidType(ty)) => reason == SpecErrorModel::InvalidType(ty@),
            Err(SpecError::InvalidField(name, ty)) => reason == SpecErrorModel::InvalidField(
                name@,
                ty@,
            ),
            Ok(_) => false,
        },
    }
}

/// A fragment in place comes out with the type that it names, or else the one around it, with its
/// directives, and with what its selections come to on that type. It knows the type around it. It
/// is refused, or left out, for these reasons alone and in this order: it stands too deep; its
/// directives leave it out; neither it nor the type around it has a name; or a selection in it is
/// refused.
pub proof fn inline_fragments_come_out_as_written(
    fragment: hir::InlineFragment,
    current: FieldType,
    schema: Schema,
    count: usize,
    result: Result<Option<Selection>, SpecError>,
)
    requires
        call_ensures(
            Selection::from_hir,
            (&hir::Selection::InlineFragment(fragment), &current, &schema, count),
            result,
        ),
    ensures
        if count > 512 {
            result matches Err(SpecError::RecursionLimitExceeded)
        } else if left_out(fragment.directives@) {
            result matches Ok(None)
        } else if fragment.type_condition is None && current@.inner_type_name() is None {
            &&& result matches Err(SpecError::InvalidType(ty))
            &&& ty@ == current@.notation()
        } else {
            let on = if fragment.type_condition is Some {
                fragment.type_condition->Some_0@
            } else {
                current@.inner_type_name()->Some_0
            };
            let below = checked_set(
                fragment.selection_set@,
                FieldTypeModel::Named(on),
                schema@,
                (count + 1) as nat,
            );
            &&& fails_alike(below, result)
            &&& result matches Ok(Some(selection)) ==> {
                &&& selection matches Selection::InlineFragment {
                    type_condition,
                    include_skip,
                    known_type,
                    selection_set,
                }
                &&& type_condition@ == on
                &&& include_skip@ == IncludeSkipModel::of(fragment.directives@)
                &&& known_type is Some <==> current@.inner_type_name() is Some
                &&& known_type is Some ==> Some(known_type->Some_0@) == current@.inner_type_name()
                &&& below == Ok::<Seq<SelectionModel>, SpecErrorModel>(models(selection_set@))
            }
        },
{
    lemma_left_out(fragment.directives@);
}

/// A spread comes out with its name and its directives, and knows the type around it. Nothing but
/// its depth or its directives keeps it from that.
pub proof fn spreads_come_out_as_written(
    spread: hir::FragmentSpread,
    current: FieldType,
    schema: Schema,
    count: usize,
    result: Result<Option<Selection>, SpecError>,
)
    requires
        call_ensures(
            Selection::from_hir,
            (&hir::Selection::FragmentSpread(spread), &current, &schema, count),
            result,
        ),
    ensures
        if count > 512 {
            result matches Err(SpecError::RecursionLimitExceeded)
        } else if left_out(spread.directives@) {
            result matches Ok(None)
        } else {
            &&& result matches Ok(Some(Selection::FragmentSpread { name, known_type, include_skip }))
            &&& name@ == spread.name@
            &&& include_skip@ == IncludeSkipModel::of(spread.directives@)
            &&& known_type is Some <==> current@.inner_type_name() is Some
            &&& known_type is Some ==> Some(known_type->Some_0@) == current@.inner_type_name()
        },
{
    lemma_left_out(spread.directives@);
}

/// What a call gives for a selection is what that selection adds where it stands in a selection set:
/// itself, nothing, or its error.
pub proof fn entries_count_for_themselves(
    selection: hir::Selection,
    current: FieldType,
    schema: Schema,
    count: usize,
    result: Result<Option<Selection>, SpecError>,
)
    requires
        call_ensures(Selection::from_hir, (&selection, &current, &schema, count), result),
    ensures
        match checked_set(seq![selection], current@, schema@, count as nat) {
            Ok(set) => match result {
                Ok(Some(entry)) => set == seq![entry@],
                Ok(None) => set.len() == 0,
                Err(_) => false,
            },
            Err(_) => fails_alike(
                checked_set(seq![selection], current@, schema@, count as nat),
                result,
            ),
        },
{
    let set = seq![selection];
    assert(set.drop_last() =~= Seq::<hir::Selection>::empty());
    assert(set.last() == selection);
    assert(checked_set(set.drop_last(), current@, schema@, count as nat) == Ok::<
        Seq<SelectionModel>,
        SpecErrorModel,
    >(Seq::empty()));
    if let Ok(Some(entry)) = result {
        assert(Seq::<SelectionModel>::empty().push(entry@) =~= seq![entry@]);
    }
}

/// A selection set that is made of two comes to what the first comes to, followed by what the second
/// comes to; the error of the first comes before that of the second. An empty one comes to nothing.
pub proof fn sets_are_checked_part_by_part(
    front: Seq<hir::Selection>,
    back: Seq<hir::Selection>,
    current: FieldTypeModel,
    schema: SchemaModel,
    depth: nat,
)
    ensures
        checked_set(Seq::empty(), current, schema, depth) == Ok::<
            Seq<SelectionModel>,
            SpecErrorModel,
        >(Seq::empty()),
        match (
            checked_set(front, current, schema, depth),
            checked_set(back, current, schema, depth),
        ) {
            (Ok(first), Ok(second)) => checked_set(front + back, current, schema, depth) == Ok::<
                Seq<SelectionModel>,
                SpecErrorModel,
            >(first + second),
            (Err(error), _) => checked_set(front + back, current, schema, depth) == Err::<
                Seq<SelectionModel>,
                SpecErrorModel,
            >(error),
            (Ok(_), Err(error)) => checked_set(front + back, current, schema, depth) == Err::<
                Seq<SelectionModel>,
                SpecErrorModel,
            >(error),
        },
    decreases back.len(),
{
    if back.len() == 0 {
        assert(front + back =~= front);
        match checked_set(front, current, schema, depth) {
            Ok(first) => {
                assert(first + Seq::<SelectionModel>::empty() =~= first);
            },
            Err(_) => {},
        }
    } else {
        sets_are_checked_part_by_part(front, back.drop_last(), current, schema, depth);
        assert((front + back).drop_last() =~= front + back.drop_last());
        assert((front + back).last() == back.last());
        match (
            checked_set(front, current, schema, depth),
            checked_set(back.drop_last(), current, schema, depth),
            checked(back.last(), current, schema, depth),
        ) {
            (Ok(first), Ok(second), Ok(Some(last))) => {
                assert((first + second).push(last) =~= first + second.push(last));
            },
            _ => {},
        }
    }
}

/// The directives that a selection was written with.
pub open spec fn written_directives(selection: hir::Selection) -> Seq<hir::Directive> {
    match selection {
        hir::Selection::Field(field) => field.directives@,
        hir::Selection::InlineFragment(fragment) => fragment.directives@,
        hir::Selection::FragmentSpread(spread) => spread.directives@,
    }
}

/// A selection set comes to exactly those of its entries that are not left out, each for itself and
/// in order.
pub proof fn sets_keep_what_is_not_left_out(
    selections: Seq<hir::Selection>,
    current: FieldTypeModel,
    schema: SchemaModel,
    depth: nat,
)
    ensures
        checked_set(selections, current, schema, depth) matches Ok(set) ==> {
            let kept = selections.filter(
                |selection: hir::Selection| !left_out(written_directives(selection)),
            );
            &&& set.len() == kept.len()
            &&& forall|i: int|
                0 <= i < set.len() ==> checked(kept[i], current, schema, depth) == Ok::<
                    Option<SelectionModel>,
                    SpecErrorModel,
                >(Some(#[trigger] set[i]))
        },
    decreases selections.len(),
{
    reveal(Seq::filter);
    if selections.len() > 0 {
        let last = selections.last();
        let front = selections.drop_last();
        let keep = |selection: hir::Selection| !left_out(written_directives(selection));
        sets_keep_what_is_not_left_out(front, current, schema, depth);
        lemma_left_out(written_directives(last));
        assert(selections.filter(keep) == if keep(last) {
            front.filter(keep).push(last)
        } else {
            front.filter(keep)
        });
        match checked(last, current, schema, depth) {
            Ok(entry) => {
                assert(entry is Some <==> keep(last));
            },
            Err(_) => {},
        }
    }
}

/// The field that names the type is the one of that name, and its key in a response is the alias, or
/// else the name. No other selection has such a key.
pub proof fn typename_fields_have_their_key(selection: Selection)
    ensures
        forall|is_typename: bool| #[trigger]
            call_ensures(Selection::is_typename_field, (&selection,), is_typename) ==> (is_typename
                <==> {
                &&& selection matches Selection::Field { name, .. }
                &&& name@ == "__typename"@
            }),
        forall|key: Option<String>| #[trigger]
            call_ensures(Selection::output_key_if_typename_field, (&selection,), key) ==> {
                &&& key is Some <==> {
                    &&& selection matches Selection::Field { name, .. }
                    &&& name@ == "__typename"@
                }
                &&& key matches Some(key) ==> {
                    &&& selection matches Selection::Field { name, alias, .. }
                    &&& alias is Some ==> key@ == alias->Some_0@
                    &&& alias is None ==> key@ == name@
                }
            },
{
}

/// Whether some entry of a selection set contains a path.
pub open spec fn some_contains(
    selections: Seq<SelectionModel>,
    path: Seq<PathElement>,
    fragments: Map<Seq<char>, FragmentModel>,
) -> bool {
    exists|i: int|
        0 <= i < selections.len() && (#[trigger] selections[i]).contains_error_path(path, fragments)
}

proof fn lemma_rest(step: PathElement, path: Seq<PathElement>)
    ensures
        (seq![step] + path)[0] == step,
        (seq![step] + path).skip(1) == path,
        (seq![step] + path).len() == path.len() + 1,
{
    assert((seq![step] + path).skip(1) =~= path);
}

/// What a call says of a path is what the model says.
pub proof fn calls_answer_by_the_model(
    selection: Selection,
    path: &[PathElement],
    fragments: Fragments,
    contained: bool,
)
    requires
        call_ensures(Selection::contains_error_path, (&selection, path, &fragments), contained),
    ensures
        contained == selection@.contains_error_path(path@, fragments@),
        path@.len() == 0 ==> contained,
{
}

/// Every selection contains the empty path.
pub proof fn empty_paths_are_contained(
    selection: SelectionModel,
    fragments: Map<Seq<char>, FragmentModel>,
)
    ensures
        selection.contains_error_path(Seq::empty(), fragments),
{
}

/// Array steps are passed over, however long the path: a field or a fragment in place contains a
/// path behind such a step exactly where it contains the path.
pub proof fn array_steps_are_passed_over(
    selection: SelectionModel,
    n: usize,
    path: Seq<PathElement>,
    fragments: Map<Seq<char>, FragmentModel>,
)
    requires
        !(selection is FragmentSpread),
    ensures
        selection.contains_error_path(seq![PathElement::Index(n)] + path, fragments)
            == selection.contains_error_path(path, fragments),
        selection.contains_error_path(seq![PathElement::Flatten] + path, fragments)
            == selection.contains_error_path(path, fragments),
{
    lemma_rest(PathElement::Index(n), path);
    lemma_rest(PathElement::Flatten, path);
}

/// A field contains exactly the paths that start with its key, which is its alias or else its name,
/// and go on through one of its selections. Where it has none, the path ends there.
pub proof fn fields_contain_paths_through_their_key(
    selection: SelectionModel,
    key: String,
    path: Seq<PathElement>,
    fragments: Map<Seq<char>, FragmentModel>,
)
    requires
        selection is Field,
    ensures
        selection.contains_error_path(seq![PathElement::Key(key)] + path, fragments) == {
            &&& selection->Field_alias is Some ==> selection->Field_alias->Some_0 == key@
            &&& selection->Field_alias is None ==> selection->Field_name == key@
            &&& match selection->Field_selection_set {
                Some(set) => some_contains(set, path, fragments),
                None => path.len() == 0,
            }
        },
{
    lemma_rest(PathElement::Key(key), path);
    lemma_first_step(selection, seq![PathElement::Key(key)] + path, fragments);
}

/// A path that names a fragment does not run through a field.
pub proof fn fields_are_no_fragments(
    selection: SelectionModel,
    on: String,
    path: Seq<PathElement>,
    fragments: Map<Seq<char>, FragmentModel>,
)
    requires
        selection is Field,
    ensures
        !selection.contains_error_path(seq![PathElement::Fragment(on)] + path, fragments),
{
    lemma_rest(PathElement::Fragment(on), path);
}

/// A fragment in place contains a path that names its type exactly where one of its selections
/// contains the rest, and a path that starts with a key exactly where one of them contains all of it.
pub proof fn inline_fragments_are_entered_or_passed_over(
    selection: SelectionModel,
    on: String,
    key: String,
    path: Seq<PathElement>,
    fragments: Map<Seq<char>, FragmentModel>,
)
    requires
        selection is InlineFragment,
    ensures
        selection.contains_error_path(seq![PathElement::Fragment(on)] + path, fragments) == (
        selection->InlineFragment_type_condition == on@ && some_contains(
            selection->InlineFragment_selection_set,
            path,
            fragments,
        )),
        selection.contains_error_path(seq![PathElement::Key(key)] + path, fragments)
            == some_contains(
            selection->InlineFragment_selection_set,
            seq![PathElement::Key(key)] + path,
            fragments,
        ),
{
    lemma_rest(PathElement::Fragment(on), path);
    lemma_rest(PathElement::Key(key), path);
    lemma_first_step(selection, seq![PathElement::Fragment(on)] + path, fragments);
    lemma_first_step(selection, seq![PathElement::Key(key)] + path, fragments);
}

/// A spread contains a path that names the type of its fragment exactly where one of the fragment's
/// selections contains the rest. Any other path but the empty one it contains exactly where one of
/// them contains all of it. The spread of an unknown fragment contains only the empty path.
pub proof fn spreads_stand_for_their_fragments(
    selection: SelectionModel,
    step: PathElement,
    path: Seq<PathElement>,
    fragments: Map<Seq<char>, FragmentModel>,
)
    requires
        selection is FragmentSpread,
        fragments.dom().finite(),
    ensures
        selection.contains_error_path(seq![step] + path, fragments) == {
            let name = selection->FragmentSpread_name;
            &&& fragments.dom().contains(name)
            &&& match step {
                PathElement::Fragment(on) => fragments[name].type_condition == on@ && some_contains(
                    fragments[name].selection_set,
                    path,
                    fragments,
                ),
                _ => some_contains(fragments[name].selection_set, seq![step] + path, fragments),
            }
        },
{
    let whole = seq![step] + path;
    lemma_rest(step, path);
    first_step_decides(selection, whole, fragments);
    let set = fragments[selection->FragmentSpread_name].selection_set;
    assert(some_contains(set, whole, fragments) == any_contains_error_path(set, whole, fragments));
    assert(some_contains(set, path, fragments) == any_contains_error_path(set, path, fragments));
}

/// The first step decides, where it is not a spread that it meets.
proof fn lemma_first_step(
    selection: SelectionModel,
    path: Seq<PathElement>,
    fragments: Map<Seq<char>, FragmentModel>,
)
    requires
        !(selection is FragmentSpread),
    ensures
        selection.contains_error_path(path, fragments) == selection.contains_first_step(
            path,
            fragments,
        ),
{
    if path.len() > 0 {
        let rest = path.skip(1);
        match selection {
            SelectionModel::Field { selection_set: Some(set), .. } => {
                lemma_some_runs(set, rest, fragments);
            },
            SelectionModel::InlineFragment { selection_set, .. } => {
                lemma_some_runs(selection_set, rest, fragments);
                lemma_some_runs(selection_set, path, fragments);
            },
            _ => {},
        }
    }
}

proof fn lemma_some_runs(
    selections: Seq<SelectionModel>,
    path: Seq<PathElement>,
    fragments: Map<Seq<char>, FragmentModel>,
)
    ensures
        runs_through_any(path, selections, fragments, fragments.len()) == any_contains_error_path(
            selections,
            path,
            fragments,
        ),
{
    assert forall|i: int| 0 <= i < selections.len() implies runs_through(
        path,
        #[trigger] selections[i],
        fragments,
        fragments.len(),
    ) == selections[i].contains_error_path(path, fragments) by {}
}

/// An error below an element of a list is found, however deep: behind the key of a field and an
/// array step, the field contains every path that a field or a fragment in place below it contains.
pub proof fn errors_below_list_elements_are_found(
    selection: SelectionModel,
    key: String,
    n: usize,
    below: int,
    path: Seq<PathElement>,
    fragments: Map<Seq<char>, FragmentModel>,
)
    requires
        selection is Field,
        match selection->Field_alias {
            Some(alias) => alias == key@,
            None => selection->Field_name == key@,
        },
        selection->Field_selection_set is Some,
        0 <= below < selection->Field_selection_set->Some_0.len(),
        !(selection->Field_selection_set->Some_0[below] is FragmentSpread),
        selection->Field_selection_set->Some_0[below].contains_error_path(path, fragments),
    ensures
        selection.contains_error_path(
            seq![PathElement::Key(key)] + (seq![PathElement::Index(n)] + path),
            fragments,
        ),
        selection.contains_error_path(
            seq![PathElement::Key(key)] + (seq![PathElement::Flatten] + path),
            fragments,
        ),
        selection.contains_error_path(seq![PathElement::Key(key)] + path, fragments),
{
    let set = selection->Field_selection_set->Some_0;
    let child = set[below];
    let indexed = seq![PathElement::Index(n)] + path;
    let flattened = seq![PathElement::Flatten] + path;
    array_steps_are_passed_over(child, n, path, fragments);
    fields_contain_paths_through_their_key(selection, key, indexed, fragments);
    fields_contain_paths_through_their_key(selection, key, flattened, fragments);
    fields_contain_paths_through_their_key(selection, key, path, fragments);
    assert(set[below].contains_error_path(indexed, fragments));
    assert(set[below].contains_error_path(flattened, fragments));
}

/// Whether a selection set holds spreads alone.
pub open spec fn spreads_alone(selections: Seq<SelectionModel>) -> bool {
    forall|i: int| 0 <= i < selections.len() ==> (#[trigger] selections[i]) is FragmentSpread
}

/// Fragments that do nothing but spread each other, in a circle or not, contain no path that starts
/// with a key or an array step.
pub proof fn spreads_alone_lead_nowhere(
    selection: SelectionModel,
    path: Seq<PathElement>,
    fragments: Map<Seq<char>, FragmentModel>,
)
    requires
        selection is FragmentSpread,
        path.len() > 0,
        !(path[0] is Fragment),
        forall|name: Seq<char>| #[trigger]
            fragments.contains_key(name) ==> spreads_alone(fragments[name].selection_set),
    ensures
        !selection.contains_error_path(path, fragments),
{
    lemma_spreads_alone(selection, path, fragments, fragments.len());
}

proof fn lemma_spreads_alone(
    selection: SelectionModel,
    path: Seq<PathElement>,
    fragments: Map<Seq<char>, FragmentModel>,
    budget: nat,
)
    requires
        selection is FragmentSpread,
        path.len() > 0,
        !(path[0] is Fragment),
        forall|name: Seq<char>| #[trigger]
            fragments.contains_key(name) ==> spreads_alone(fragments[name].selection_set),
    ensures
        !runs_through(path, selection, fragments, budget),
    decreases budget,
{
    let name = selection->FragmentSpread_name;
    if fragments.contains_key(name) && budget > 0 {
        let set = fragments[name].selection_set;
        let less = (budget - 1) as nat;
        assert forall|i: int| 0 <= i < set.len() implies !runs_through(
            path,
            #[trigger] set[i],
            fragments,
            less,
        ) by {
            lemma_spreads_alone(set[i], path, fragments, less);
        }
        assert(!runs_through_any(path, set, fragments, less));
    }
}

/// Texts are the same where their characters are, copies keep them, and a value is a boolean
/// exactly where it is one.
pub proof fn texts_and_booleans_are_themselves(
    string: String,
    text: &str,
    optional: Option<String>,
    value: JsonValue,
)
    ensures
        forall|same: bool| #[trigger]
            call_ensures(is_text, (&string, text), same) ==> (same <==> string@ == text@),
        forall|copy: Option<String>| #[trigger]
            call_ensures(copy_optional, (&optional,), copy) ==> {
                &&& copy is Some <==> optional is Some
                &&& copy is Some ==> copy->Some_0@ == optional->Some_0@
            },
        forall|b: Option<bool>| #[trigger]
            call_ensures(JsonValue::as_bool, (&value,), b) ==> match b {
                Some(b) => value == JsonValue::Boolean(b),
                None => value is Other,
            },
{
}

} // verus!
