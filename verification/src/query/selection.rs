//! The selections of a query, checked against a schema.

use crate::query::field_type::{FieldType, FieldTypeModel};
use crate::query::hir;
use crate::query::include_skip::{IncludeSkip, IncludeSkipModel};
use crate::query::schema::{Schema, SchemaModel};
use crate::text::{copy_optional, is_text, optional_text};
use vstd::prelude::*;

verus! {

/// The field that every type has: the name of the type itself.
pub const TYPENAME: &'static str = "__typename";

/// How deep selections may nest. It is
///   < what is expected to exhaust the stack, and
///   > what is expected in a legitimate query.
pub const RECURSION_LIMIT: usize = 512;

/// Why a query does not fit a schema.
#[derive(Debug)]
pub enum SpecError {
    /// The selections nest deeper than [`RECURSION_LIMIT`].
    RecursionLimitExceeded,
    /// A selection is made on a type without fields, written out here.
    InvalidType(String),
    /// A field is not one of the type on which it is selected: its name, and the type written out.
    InvalidField(String, String),
}

/// A [`SpecError`] with its texts as character sequences.
pub enum SpecErrorModel {
    RecursionLimitExceeded,
    InvalidType(Seq<char>),
    InvalidField(Seq<char>, Seq<char>),
}

impl View for SpecError {
    type V = SpecErrorModel;

    open spec fn view(&self) -> SpecErrorModel {
        match self {
            SpecError::RecursionLimitExceeded => SpecErrorModel::RecursionLimitExceeded,
            SpecError::InvalidType(ty) => SpecErrorModel::InvalidType(ty@),
            SpecError::InvalidField(name, ty) => SpecErrorModel::InvalidField(name@, ty@),
        }
    }
}

/// One entry of a selection set.
#[allow(inconsistent_fields)]
#[derive(Debug, PartialEq, Eq, Hash)]
pub enum Selection {
    Field {
        name: String,
        alias: Option<String>,
        selection_set: Option<Vec<Selection>>,
        field_type: FieldType,
        include_skip: IncludeSkip,
    },
    InlineFragment {
        /// The type on which the fragment applies; the surrounding type where none is written.
        type_condition: String,
        include_skip: IncludeSkip,
        known_type: Option<String>,
        selection_set: Vec<Selection>,
    },
    FragmentSpread { name: String, known_type: Option<String>, include_skip: IncludeSkip },
}

/// A [`Selection`] with its texts as character sequences and its selection sets as sequences.
#[allow(inconsistent_fields)]
pub enum SelectionModel {
    Field {
        name: Seq<char>,
        alias: Option<Seq<char>>,
        selection_set: Option<Seq<SelectionModel>>,
        field_type: FieldTypeModel,
        include_skip: IncludeSkipModel,
    },
    InlineFragment {
        type_condition: Seq<char>,
        include_skip: IncludeSkipModel,
        known_type: Option<Seq<char>>,
        selection_set: Seq<SelectionModel>,
    },
    FragmentSpread {
        name: Seq<char>,
        known_type: Option<Seq<char>>,
        include_skip: IncludeSkipModel,
    },
}

impl View for Selection {
    type V = SelectionModel;

    open spec fn view(&self) -> SelectionModel {
        self.model()
    }
}

/// The models of the entries of a selection set.
pub open spec fn models(selections: Seq<Selection>) -> Seq<SelectionModel>
    decreases selections,
{
    Seq::new(
        selections.len(),
        |i: int|
            if 0 <= i < selections.len() {
                selections[i].model()
            } else {
                arbitrary()
            },
    )
}

impl Selection {
    /// The selection with its texts as character sequences and its selection sets as sequences.
    pub open spec fn model(self) -> SelectionModel
        decreases self,
    {
        match self {
            Selection::Field { name, alias, selection_set, field_type, include_skip } => {
                SelectionModel::Field {
                    name: name@,
                    alias: optional_text(alias),
                    selection_set: match selection_set {
                        Some(set) => Some(models(set@)),
                        None => None,
                    },
                    field_type: field_type@,
                    include_skip: include_skip@,
                }
            },
            Selection::InlineFragment { type_condition, include_skip, known_type, selection_set }
                => {
                SelectionModel::InlineFragment {
                    type_condition: type_condition@,
                    include_skip: include_skip@,
                    known_type: optional_text(known_type),
                    selection_set: models(selection_set@),
                }
            },
            Selection::FragmentSpread { name, known_type, include_skip } => {
                SelectionModel::FragmentSpread {
                    name: name@,
                    known_type: optional_text(known_type),
                    include_skip: include_skip@,
                }
            },
        }
    }
}

/// The key under which a field stands in a response.
pub open spec fn response_key(name: Seq<char>, alias: Option<Seq<char>>) -> Seq<char> {
    match alias {
        Some(alias) => alias,
        None => name,
    }
}

impl SelectionModel {
    /// Whether the selection is the field that names the type.
    pub open spec fn is_typename_field(self) -> bool {
        self is Field && self->Field_name == TYPENAME@
    }

    /// The key under which the name of the type stands in a response, where the selection is
    /// the field that names it.
    pub open spec fn typename_key(self) -> Option<Seq<char>> {
        if self.is_typename_field() {
            Some(response_key(self->Field_name, self->Field_alias))
        } else {
            None
        }
    }
}

/// The type of a field that is selected on the type `current`.
pub open spec fn selected_type(
    field: Seq<char>,
    current: FieldTypeModel,
    schema: SchemaModel,
) -> Result<FieldTypeModel, SpecErrorModel> {
    if field == TYPENAME@ {
        Ok(FieldTypeModel::String)
    } else if field == "__schema"@ {
        Ok(FieldTypeModel::Introspection("__Schema"@))
    } else if field == "__type"@ {
        Ok(FieldTypeModel::Introspection("__Type"@))
    } else {
        match current.inner_type_name() {
            None => Err(SpecErrorModel::InvalidType(current.notation())),
            Some(owner) => match schema.field_type(owner, field) {
                Some(ty) => Ok(ty),
                None => Err(SpecErrorModel::InvalidField(field, current.notation())),
            },
        }
    }
}

/// The type on which an inline fragment applies: the one that it names, or else the one around it.
pub open spec fn applied_type(fragment: hir::InlineFragment, current: FieldTypeModel) -> Option<
    Seq<char>,
> {
    match fragment.type_condition {
        Some(name) => Some(name@),
        None => current.inner_type_name(),
    }
}

/// What a selection of a document comes to on the type `current`, at nesting depth `depth`:
/// nothing where its directives alone leave it out.
pub open spec fn checked(
    selection: hir::Selection,
    current: FieldTypeModel,
    schema: SchemaModel,
    depth: nat,
) -> Result<Option<SelectionModel>, SpecErrorModel>
    decreases selection,
{
    if depth > RECURSION_LIMIT {
        Err(SpecErrorModel::RecursionLimitExceeded)
    } else {
        match selection {
            hir::Selection::Field(field) => {
                let include_skip = IncludeSkipModel::of(field.directives@);
                if include_skip.statically_skipped() {
                    Ok(None)
                } else {
                    match selected_type(field.name@, current, schema) {
                        Err(error) => Err(error),
                        Ok(field_type) => {
                            let childless = field_type.is_builtin_scalar()
                                || field.selection_set@.len() == 0;
                            let children = checked_set(
                                field.selection_set@,
                                field_type,
                                schema,
                                depth + 1,
                            );
                            if !childless && children is Err {
                                Err(children->Err_0)
                            } else {
                                Ok(
                                    Some(
                                        SelectionModel::Field {
                                            name: field.name@,
                                            alias: optional_text(field.alias),
                                            selection_set: if childless {
                                                None
                                            } else {
                                                Some(children->Ok_0)
                                            },
                                            field_type,
                                            include_skip,
                                        },
                                    ),
                                )
                            }
                        },
                    }
                }
            },
            hir::Selection::InlineFragment(fragment) => {
                let include_skip = IncludeSkipModel::of(fragment.directives@);
                let known_type = current.inner_type_name();
                if include_skip.statically_skipped() {
                    Ok(None)
                } else {
                    match applied_type(fragment, current) {
                        None => Err(SpecErrorModel::InvalidType(current.notation())),
                        Some(type_condition) => match checked_set(
                            fragment.selection_set@,
                            FieldTypeModel::Named(type_condition),
                            schema,
                            depth + 1,
                        ) {
                            Err(error) => Err(error),
                            Ok(selection_set) => Ok(
                                Some(
                                    SelectionModel::InlineFragment {
                                        type_condition,
                                        include_skip,
                                        known_type,
                                        selection_set,
                                    },
                                ),
                            ),
                        },
                    }
                }
            },
            hir::Selection::FragmentSpread(spread) => {
                let include_skip = IncludeSkipModel::of(spread.directives@);
                if include_skip.statically_skipped() {
                    Ok(None)
                } else {
                    Ok(
                        Some(
                            SelectionModel::FragmentSpread {
                                name: spread.name@,
                                known_type: current.inner_type_name(),
                                include_skip,
                            },
                        ),
                    )
                }
            },
        }
    }
}

/// What a selection set comes to: the entries that are not left out, in order, or the first error.
pub open spec fn checked_set(
    selections: Seq<hir::Selection>,
    current: FieldTypeModel,
    schema: SchemaModel,
    depth: nat,
) -> Result<Seq<SelectionModel>, SpecErrorModel>
    decreases selections,
{
    if selections.len() == 0 {
        Ok(Seq::empty())
    } else {
        match checked_set(selections.drop_last(), current, schema, depth) {
            Err(error) => Err(error),
            Ok(front) => match checked(selections.last(), current, schema, depth) {
                Err(error) => Err(error),
                Ok(None) => Ok(front),
                Ok(Some(last)) => Ok(front.push(last)),
            },
        }
    }
}

/// A selection set fails with the error of its first entry that fails, and only if one fails.
pub proof fn first_error_counts(
    selections: Seq<hir::Selection>,
    current: FieldTypeModel,
    schema: SchemaModel,
    depth: nat,
)
    ensures
        match checked_set(selections, current, schema, depth) {
            Err(error) => exists|i: int|
                0 <= i < selections.len() && checked(
                    #[trigger] selections[i],
                    current,
                    schema,
                    depth,
                ) == Err::<Option<SelectionModel>, SpecErrorModel>(error) && forall|j: int|
                    0 <= j < i ==> checked(#[trigger] selections[j], current, schema, depth) is Ok,
            Ok(_) => forall|i: int|
                0 <= i < selections.len() ==> checked(
                    #[trigger] selections[i],
                    current,
                    schema,
                    depth,
                ) is Ok,
        },
    decreases selections.len(),
{
    if selections.len() > 0 {
        let front = selections.drop_last();
        first_error_counts(front, current, schema, depth);
        assert forall|i: int| 0 <= i < front.len() implies #[trigger] selections[i]
            == front[i] by {}
        match checked_set(front, current, schema, depth) {
            Err(error) => {
                let i = choose|i: int|
                    0 <= i < front.len() && checked(#[trigger] front[i], current, schema, depth)
                        == Err::<Option<SelectionModel>, SpecErrorModel>(error) && forall|j: int|
                        0 <= j < i ==> checked(#[trigger] front[j], current, schema, depth) is Ok;
                assert(selections[i] == front[i]);
            },
            Ok(_) => {
                assert(selections.last() == selections[selections.len() - 1]);
            },
        }
    }
}

/// An error in the front part of a selection set is the error of the whole.
proof fn lemma_error_persists(
    selections: Seq<hir::Selection>,
    front: int,
    current: FieldTypeModel,
    schema: SchemaModel,
    depth: nat,
)
    requires
        0 <= front <= selections.len(),
        checked_set(selections.take(front), current, schema, depth) is Err,
    ensures
        checked_set(selections, current, schema, depth) == checked_set(
            selections.take(front),
            current,
            schema,
            depth,
        ),
    decreases selections.len(),
{
    if front == selections.len() {
        assert(selections.take(front) =~= selections);
    } else {
        assert(selections.drop_last().take(front) =~= selections.take(front));
        lemma_error_persists(selections.drop_last(), front, current, schema, depth);
    }
}

/// The models of one more entry.
proof fn lemma_models_push(selections: Seq<Selection>, selection: Selection)
    ensures
        models(selections.push(selection)) == models(selections).push(selection@),
{
    assert(models(selections.push(selection)) =~= models(selections).push(selection@));
}

impl Selection {
    /// Checks a selection of a document that is made on the type `current_type`, at nesting depth
    /// `count`, with everything below it.
    ///
    /// The result is nothing where the directives of the selection alone leave it out. Below it,
    /// such selections are dropped, and the first error in document order is the result.
    pub fn from_hir(
        selection: &hir::Selection,
        current_type: &FieldType,
        schema: &Schema,
        count: usize,
    ) -> (result: Result<Option<Self>, SpecError>)
        ensures
            match checked(*selection, current_type@, schema@, count as nat) {
                Err(error) => result is Err && result->Err_0@ == error,
                Ok(None) => result is Ok && result->Ok_0 is None,
                Ok(Some(model)) => result is Ok && result->Ok_0 is Some && result->Ok_0->Some_0@
                    == model,
            },
        decreases selection,
    {
        if count > RECURSION_LIMIT {
            return Err(SpecError::RecursionLimitExceeded);
        }
        match selection {
            hir::Selection::Field(field) => {
                let include_skip = IncludeSkip::parse(&field.directives);
                if include_skip.statically_skipped() {
                    return Ok(None);
                }
                let field_type = match Self::selected_type(&field.name, current_type, schema) {
                    Ok(field_type) => field_type,
                    Err(error) => return Err(error),
                };
                let selection_set = if field_type.is_builtin_scalar()
                    || field.selection_set.len() == 0 {
                    None
                } else {
                    match Self::from_hir_set(&field.selection_set, &field_type, schema, count + 1) {
                        Ok(set) => Some(set),
                        Err(error) => return Err(error),
                    }
                };
                Ok(
                    Some(
                        Selection::Field {
                            name: field.name.clone(),
                            alias: copy_optional(&field.alias),
                            selection_set,
                            field_type,
                            include_skip,
                        },
                    ),
                )
            },
            hir::Selection::InlineFragment(fragment) => {
                let include_skip = IncludeSkip::parse(&fragment.directives);
                if include_skip.statically_skipped() {
                    return Ok(None);
                }
                let known_type = Self::known_type(current_type);
                let type_condition = match &fragment.type_condition {
                    Some(name) => name.clone(),
                    None => match &known_type {
                        Some(name) => name.clone(),
                        // without a name the fragment is applied to a scalar
                        None => return Err(SpecError::InvalidType(current_type.notation())),
                    },
                };
                let fragment_type = FieldType::Named(type_condition.clone());
                match Self::from_hir_set(
                    &fragment.selection_set,
                    &fragment_type,
                    schema,
                    count + 1,
                ) {
                    Ok(selection_set) => Ok(
                        Some(
                            Selection::InlineFragment {
                                type_condition,
                                include_skip,
                                known_type,
                                selection_set,
                            },
                        ),
                    ),
                    Err(error) => Err(error),
                }
            },
            hir::Selection::FragmentSpread(spread) => {
                let include_skip = IncludeSkip::parse(&spread.directives);
                if include_skip.statically_skipped() {
                    return Ok(None);
                }
                Ok(
                    Some(
                        Selection::FragmentSpread {
                            name: spread.name.clone(),
                            known_type: Self::known_type(current_type),
                            include_skip,
                        },
                    ),
                )
            },
        }
    }

    /// Checks the entries of a selection set in order.
    fn from_hir_set(
        selections: &Vec<hir::Selection>,
        current_type: &FieldType,
        schema: &Schema,
        count: usize,
    ) -> (result: Result<Vec<Self>, SpecError>)
        ensures
            match checked_set(selections@, current_type@, schema@, count as nat) {
                Err(error) => result is Err && result->Err_0@ == error,
                Ok(set) => result is Ok && models(result->Ok_0@) == set,
            },
        decreases selections,
    {
        let mut set: Vec<Selection> = Vec::new();
        let mut i: usize = 0;
        proof {
            assert(models(set@) =~= Seq::empty());
        }
        while i < selections.len()
            invariant
                i <= selections@.len(),
                checked_set(selections@.take(i as int), current_type@, schema@, count as nat)
                    == Ok::<Seq<SelectionModel>, SpecErrorModel>(models(set@)),
            decreases selections@.len() - i,
        {
            let ghost before = set@;
            proof {
                assert(selections@.take(i + 1).drop_last() =~= selections@.take(i as int));
                assert(selections@.take(i + 1).last() == selections@[i as int]);
            }
            match Self::from_hir(&selections[i], current_type, schema, count) {
                Ok(Some(selection)) => {
                    set.push(selection);
                    proof {
                        lemma_models_push(before, selection);
                    }
                },
                Ok(None) => {},
                Err(error) => {
                    proof {
                        lemma_error_persists(
                            selections@,
                            i + 1,
                            current_type@,
                            schema@,
                            count as nat,
                        );
                    }
                    return Err(error);
                },
            }
            i += 1;
        }
        proof {
            assert(selections@.take(i as int) =~= selections@);
        }
        Ok(set)
    }

    /// The type of a field that is selected on the type `current_type`.
    fn selected_type(field: &String, current_type: &FieldType, schema: &Schema) -> (result: Result<
        FieldType,
        SpecError,
    >)
        ensures
            match selected_type(field@, current_type@, schema@) {
                Err(error) => result is Err && result->Err_0@ == error,
                Ok(ty) => result is Ok && result->Ok_0@ == ty,
            },
    {
        if is_text(field, TYPENAME) {
            Ok(FieldType::String)
        } else if is_text(field, "__schema") {
            Ok(FieldType::Introspection("__Schema".to_owned()))
        } else if is_text(field, "__type") {
            Ok(FieldType::Introspection("__Type".to_owned()))
        } else {
            match current_type.inner_type_name() {
                None => Err(SpecError::InvalidType(current_type.notation())),
                Some(owner) => match schema.field_type(owner.as_str(), field.as_str()) {
                    Some(ty) => Ok(ty.clone()),
                    None => Err(SpecError::InvalidField(field.clone(), current_type.notation())),
                },
            }
        }
    }

    /// The name of the type on which selections happen, as a string of its own.
    fn known_type(current_type: &FieldType) -> (name: Option<String>)
        ensures
            optional_text(name) == current_type@.inner_type_name(),
    {
        match current_type.inner_type_name() {
            Some(name) => Some(name.clone()),
            None => None,
        }
    }
}

impl Selection {
    /// Whether the selection is the field that names the type.
    pub fn is_typename_field(&self) -> (is_typename: bool)
        ensures
            is_typename == self@.is_typename_field(),
    {
        match self {
            Selection::Field { name, .. } => is_text(name, TYPENAME),
            _ => false,
        }
    }

    /// The key under which the name of the type stands in a response, where the selection is
    /// the field that names it: its alias, or else its name.
    pub fn output_key_if_typename_field(&self) -> (key: Option<String>)
        ensures
            optional_text(key) == self@.typename_key(),
            key is Some <==> self@.is_typename_field(),
    {
        match self {
            Selection::Field { name, alias, .. } => {
                if is_text(name, TYPENAME) {
                    match alias {
                        Some(alias) => Some(alias.clone()),
                        None => Some(name.clone()),
                    }
                } else {
                    None
                }
            },
            _ => None,
        }
    }
}

impl SelectionModel {
    /// The directives of the selection.
    pub open spec fn include_skip(self) -> IncludeSkipModel {
        match self {
            SelectionModel::Field { include_skip, .. } => include_skip,
            SelectionModel::InlineFragment { include_skip, .. } => include_skip,
            SelectionModel::FragmentSpread { include_skip, .. } => include_skip,
        }
    }

    /// Whether neither the selection nor any below it is left out by its directives alone.
    pub open spec fn is_live(self) -> bool
        decreases self,
    {
        !self.include_skip().statically_skipped() && match self {
            SelectionModel::Field { selection_set: Some(set), .. } => forall|i: int|
                0 <= i < set.len() ==> (#[trigger] set[i]).is_live(),
            SelectionModel::InlineFragment { selection_set, .. } => forall|i: int|
                0 <= i < selection_set.len() ==> (#[trigger] selection_set[i]).is_live(),
            _ => true,
        }
    }

    /// Whether the selection, standing at nesting depth `depth`, and all below it stay within
    /// the limit.
    pub open spec fn nests_within_limit(self, depth: nat) -> bool
        decreases self,
    {
        depth <= RECURSION_LIMIT && match self {
            SelectionModel::Field { selection_set: Some(set), .. } => forall|i: int|
                0 <= i < set.len() ==> (#[trigger] set[i]).nests_within_limit(depth + 1),
            SelectionModel::InlineFragment { selection_set, .. } => forall|i: int|
                0 <= i < selection_set.len() ==> (#[trigger] selection_set[i]).nests_within_limit(
                    depth + 1,
                ),
            _ => true,
        }
    }

    /// Whether the selection fits the schema where it is made on the type `current`: each field
    /// has the type that the schema gives it, only fields of other than built-in scalar types have
    /// selections below, and each fragment knows the type around it.
    pub open spec fn fits(self, current: FieldTypeModel, schema: SchemaModel) -> bool
        decreases self,
    {
        match self {
            SelectionModel::Field { name, selection_set, field_type, .. } => {
                &&& selected_type(name, current, schema)
                    == Ok::<FieldTypeModel, SpecErrorModel>(field_type)
                &&& match selection_set {
                    Some(set) => !field_type.is_builtin_scalar() && forall|i: int|
                        0 <= i < set.len() ==> (#[trigger] set[i]).fits(field_type, schema),
                    None => true,
                }
            },
            SelectionModel::InlineFragment { type_condition, known_type, selection_set, .. } => {
                &&& known_type == current.inner_type_name()
                &&& forall|i: int|
                    0 <= i < selection_set.len() ==> (#[trigger] selection_set[i]).fits(
                        FieldTypeModel::Named(type_condition),
                        schema,
                    )
            },
            SelectionModel::FragmentSpread { known_type, .. } => {
                known_type == current.inner_type_name()
            },
        }
    }
}

impl Clone for Selection {
    fn clone(&self) -> (copy: Self)
        ensures
            copy@ == self@,
    {
        self.copy()
    }
}

impl Selection {
    fn copy(&self) -> (copy: Self)
        ensures
            copy@ == self@,
        decreases self,
    {
        match self {
            Selection::Field { name, alias, selection_set, field_type, include_skip } => {
                Selection::Field {
                    name: name.clone(),
                    alias: copy_optional(alias),
                    selection_set: match selection_set {
                        Some(set) => Some(Self::copy_all(set)),
                        None => None,
                    },
                    field_type: field_type.clone(),
                    include_skip: include_skip.clone(),
                }
            },
            Selection::InlineFragment { type_condition, include_skip, known_type, selection_set }
                => {
                Selection::InlineFragment {
                    type_condition: type_condition.clone(),
                    include_skip: include_skip.clone(),
                    known_type: copy_optional(known_type),
                    selection_set: Self::copy_all(selection_set),
                }
            },
            Selection::FragmentSpread { name, known_type, include_skip } => {
                Selection::FragmentSpread {
                    name: name.clone(),
                    known_type: copy_optional(known_type),
                    include_skip: include_skip.clone(),
                }
            },
        }
    }

    fn copy_all(selections: &Vec<Selection>) -> (copies: Vec<Selection>)
        ensures
            models(copies@) == models(selections@),
        decreases selections,
    {
        let mut copies: Vec<Selection> = Vec::new();
        let mut i: usize = 0;
        while i < selections.len()
            invariant
                i <= selections@.len(),
                copies@.len() == i,
                forall|j: int| 0 <= j < i ==> (#[trigger] copies@[j])@ == selections@[j]@,
            decreases selections@.len() - i,
        {
            copies.push(selections[i].copy());
            i += 1;
        }
        assert(models(copies@) =~= models(selections@));
        copies
    }
}

/// The directives of a selection of a document.
pub open spec fn directives(selection: hir::Selection) -> Seq<hir::Directive> {
    match selection {
        hir::Selection::Field(field) => field.directives@,
        hir::Selection::InlineFragment(fragment) => fragment.directives@,
        hir::Selection::FragmentSpread(spread) => spread.directives@,
    }
}

/// What its directives alone leave out is left out whatever it selects: it is not held against the
/// schema.
pub proof fn left_out_selections_are_not_checked(
    selection: hir::Selection,
    current: FieldTypeModel,
    schema: SchemaModel,
    depth: nat,
)
    requires
        depth <= RECURSION_LIMIT,
    ensures
        IncludeSkipModel::of(directives(selection)).statically_skipped() <==> checked(
            selection,
            current,
            schema,
            depth,
        ) == Ok::<Option<SelectionModel>, SpecErrorModel>(None),
{
}

/// A checked selection holds nothing that directives alone leave out, at any depth.
pub proof fn checked_selections_are_live(
    selection: hir::Selection,
    current: FieldTypeModel,
    schema: SchemaModel,
    depth: nat,
)
    ensures
        match checked(selection, current, schema, depth) {
            Ok(Some(model)) => model.is_live(),
            _ => true,
        },
    decreases selection,
{
    match selection {
        hir::Selection::Field(field) => {
            match selected_type(field.name@, current, schema) {
                Ok(ty) => lemma_live_set(field.selection_set@, ty, schema, depth + 1),
                Err(_) => {},
            }
        },
        hir::Selection::InlineFragment(fragment) => {
            match applied_type(fragment, current) {
                Some(name) => lemma_live_set(
                    fragment.selection_set@,
                    FieldTypeModel::Named(name),
                    schema,
                    depth + 1,
                ),
                None => {},
            }
        },
        hir::Selection::FragmentSpread(_) => {},
    }
}

proof fn lemma_live_set(
    selections: Seq<hir::Selection>,
    current: FieldTypeModel,
    schema: SchemaModel,
    depth: nat,
)
    ensures
        match checked_set(selections, current, schema, depth) {
            Ok(set) => forall|i: int| 0 <= i < set.len() ==> (#[trigger] set[i]).is_live(),
            Err(_) => true,
        },
    decreases selections,
{
    if selections.len() > 0 {
        lemma_live_set(selections.drop_last(), current, schema, depth);
        checked_selections_are_live(selections.last(), current, schema, depth);
    }
}

/// A selection that is checked at some depth stays within the limit, with all below it.
pub proof fn checked_selections_nest_within_limit(
    selection: hir::Selection,
    current: FieldTypeModel,
    schema: SchemaModel,
    depth: nat,
)
    ensures
        match checked(selection, current, schema, depth) {
            Ok(Some(model)) => model.nests_within_limit(depth),
            _ => true,
        },
    decreases selection,
{
    match selection {
        hir::Selection::Field(field) => {
            match selected_type(field.name@, current, schema) {
                Ok(ty) => lemma_nesting_set(field.selection_set@, ty, schema, depth + 1),
                Err(_) => {},
            }
        },
        hir::Selection::InlineFragment(fragment) => {
            match applied_type(fragment, current) {
                Some(name) => lemma_nesting_set(
                    fragment.selection_set@,
                    FieldTypeModel::Named(name),
                    schema,
                    depth + 1,
                ),
                None => {},
            }
        },
        hir::Selection::FragmentSpread(_) => {},
    }
}

proof fn lemma_nesting_set(
    selections: Seq<hir::Selection>,
    current: FieldTypeModel,
    schema: SchemaModel,
    depth: nat,
)
    ensures
        match checked_set(selections, current, schema, depth) {
            Ok(set) => forall|i: int|
                0 <= i < set.len() ==> (#[trigger] set[i]).nests_within_limit(depth),
            Err(_) => true,
        },
    decreases selections,
{
    if selections.len() > 0 {
        lemma_nesting_set(selections.drop_last(), current, schema, depth);
        checked_selections_nest_within_limit(selections.last(), current, schema, depth);
    }
}

/// A checked selection fits the schema, with all below it.
pub proof fn checked_selections_fit(
    selection: hir::Selection,
    current: FieldTypeModel,
    schema: SchemaModel,
    depth: nat,
)
    ensures
        match checked(selection, current, schema, depth) {
            Ok(Some(model)) => model.fits(current, schema),
            _ => true,
        },
    decreases selection,
{
    match selection {
        hir::Selection::Field(field) => {
            match selected_type(field.name@, current, schema) {
                Ok(ty) => lemma_fit_set(field.selection_set@, ty, schema, depth + 1),
                Err(_) => {},
            }
        },
        hir::Selection::InlineFragment(fragment) => {
            match applied_type(fragment, current) {
                Some(name) => lemma_fit_set(
                    fragment.selection_set@,
                    FieldTypeModel::Named(name),
                    schema,
                    depth + 1,
                ),
                None => {},
            }
        },
        hir::Selection::FragmentSpread(_) => {},
    }
}

proof fn lemma_fit_set(
    selections: Seq<hir::Selection>,
    current: FieldTypeModel,
    schema: SchemaModel,
    depth: nat,
)
    ensures
        match checked_set(selections, current, schema, depth) {
            Ok(set) => forall|i: int|
                0 <= i < set.len() ==> (#[trigger] set[i]).fits(current, schema),
            Err(_) => true,
        },
    decreases selections,
{
    if selections.len() > 0 {
        lemma_fit_set(selections.drop_last(), current, schema, depth);
        checked_selections_fit(selections.last(), current, schema, depth);
    }
}

/// The limit on nesting refuses selections but never changes one: what is checked at some depth
/// comes out the same at every smaller depth.
pub proof fn depth_only_refuses(
    selection: hir::Selection,
    current: FieldTypeModel,
    schema: SchemaModel,
    depth: nat,
    smaller: nat,
)
    requires
        smaller <= depth,
        checked(selection, current, schema, depth) is Ok,
    ensures
        checked(selection, current, schema, smaller) == checked(selection, current, schema, depth),
    decreases selection,
{
    match selection {
        hir::Selection::Field(field) => {
            match selected_type(field.name@, current, schema) {
                Ok(ty) => {
                    if checked_set(field.selection_set@, ty, schema, depth + 1) is Ok {
                        lemma_depth_set(
                            field.selection_set@,
                            ty,
                            schema,
                            depth + 1,
                            smaller + 1,
                        );
                    }
                },
                Err(_) => {},
            }
        },
        hir::Selection::InlineFragment(fragment) => {
            match applied_type(fragment, current) {
                Some(name) => {
                    if !IncludeSkipModel::of(fragment.directives@).statically_skipped() {
                        lemma_depth_set(
                            fragment.selection_set@,
                            FieldTypeModel::Named(name),
                            schema,
                            depth + 1,
                            smaller + 1,
                        );
                    }
                },
                None => {},
            }
        },
        hir::Selection::FragmentSpread(_) => {},
    }
}

proof fn lemma_depth_set(
    selections: Seq<hir::Selection>,
    current: FieldTypeModel,
    schema: SchemaModel,
    depth: nat,
    smaller: nat,
)
    requires
        smaller <= depth,
        checked_set(selections, current, schema, depth) is Ok,
    ensures
        checked_set(selections, current, schema, smaller) == checked_set(
            selections,
            current,
            schema,
            depth,
        ),
    decreases selections,
{
    if selections.len() > 0 {
        lemma_depth_set(selections.drop_last(), current, schema, depth, smaller);
        depth_only_refuses(selections.last(), current, schema, depth, smaller);
    }
}

} // verus!
