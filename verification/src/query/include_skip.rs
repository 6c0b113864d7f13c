//! The conditions under which a selection takes part in a query: `@include` and `@skip`.

use crate::query::hir;
use crate::json_ext::{member_of, object_member, object_members, JsonValue, Object};
use crate::text::is_text;
use vstd::prelude::*;

verus! {

/// The condition of one directive.
#[derive(Debug, PartialEq, Eq, Hash)]
pub enum Condition {
    Yes,
    No,
    /// Decided by the variable of that name.
    Variable(String),
}

/// A [`Condition`] with its variable's name as a character sequence.
pub enum ConditionModel {
    Yes,
    No,
    Variable(Seq<char>),
}

impl View for Condition {
    type V = ConditionModel;

    open spec fn view(&self) -> ConditionModel {
        match self {
            Condition::Yes => ConditionModel::Yes,
            Condition::No => ConditionModel::No,
            Condition::Variable(name) => ConditionModel::Variable(name@),
        }
    }
}

impl Clone for Condition {
    fn clone(&self) -> (copy: Self)
        ensures
            copy@ == self@,
    {
        match self {
            Condition::Yes => Condition::Yes,
            Condition::No => Condition::No,
            Condition::Variable(name) => Condition::Variable(name.clone()),
        }
    }
}

impl ConditionModel {
    /// What the condition comes to under the given variables: nothing where it names a variable
    /// that is absent or not a boolean.
    pub open spec fn eval(self, variables: Map<Seq<char>, JsonValue>) -> Option<bool> {
        match self {
            ConditionModel::Yes => Some(true),
            ConditionModel::No => Some(false),
            ConditionModel::Variable(name) => {
                match member_of(variables, name) {
                    Some(value) => value.boolean(),
                    None => None,
                }
            },
        }
    }
}

/// The condition that the `if` argument of a directive states: a boolean or a variable.
pub open spec fn stated_condition(directive: hir::Directive) -> Option<ConditionModel> {
    match hir::first_argument(directive.arguments@, "if"@) {
        Some(hir::ArgumentValue::Boolean(true)) => Some(ConditionModel::Yes),
        Some(hir::ArgumentValue::Boolean(false)) => Some(ConditionModel::No),
        Some(hir::ArgumentValue::Variable(name)) => Some(ConditionModel::Variable(name@)),
        _ => None,
    }
}

/// The condition of the first directive of that name that states one.
pub open spec fn first_condition(directives: Seq<hir::Directive>, name: Seq<char>) -> Option<
    ConditionModel,
>
    decreases directives.len(),
{
    if directives.len() == 0 {
        None
    } else if directives.first().name@ == name && stated_condition(directives.first()) is Some {
        stated_condition(directives.first())
    } else {
        first_condition(directives.drop_first(), name)
    }
}

impl Condition {
    /// The condition that the `if` argument of a directive states: nothing where the argument is
    /// missing or neither a boolean nor a variable.
    pub fn parse(directive: &hir::Directive) -> (condition: Option<Self>)
        ensures
            match condition {
                Some(condition) => stated_condition(*directive) == Some(condition@),
                None => stated_condition(*directive) is None,
            },
    {
        match directive.argument_by_name("if")? {
            hir::ArgumentValue::Boolean(true) => Some(Condition::Yes),
            hir::ArgumentValue::Boolean(false) => Some(Condition::No),
            hir::ArgumentValue::Variable(name) => Some(Condition::Variable(name.clone())),
            _ => None,
        }
    }

    /// What the condition comes to under the given variables: nothing where it names a variable
    /// that is absent or not a boolean.
    pub fn eval(&self, variables: &Object) -> (result: Option<bool>)
        ensures
            result == self@.eval(object_members(*variables)),
    {
        match self {
            Condition::Yes => Some(true),
            Condition::No => Some(false),
            Condition::Variable(name) => object_member(variables, name.as_str())?.as_bool(),
        }
    }
}

/// Whether a selection is included and whether it is skipped.
#[derive(Debug, PartialEq, Eq, Hash)]
pub struct IncludeSkip {
    pub include_if: Condition,
    pub skip_if: Condition,
}

/// An [`IncludeSkip`] over the models of its conditions.
pub struct IncludeSkipModel {
    pub include_if: ConditionModel,
    pub skip_if: ConditionModel,
}

impl View for IncludeSkip {
    type V = IncludeSkipModel;

    open spec fn view(&self) -> IncludeSkipModel {
        IncludeSkipModel { include_if: self.include_if@, skip_if: self.skip_if@ }
    }
}

impl Clone for IncludeSkip {
    fn clone(&self) -> (copy: Self)
        ensures
            copy@ == self@,
    {
        IncludeSkip { include_if: self.include_if.clone(), skip_if: self.skip_if.clone() }
    }
}

impl IncludeSkipModel {
    /// What a list of directives says: without a usable `@include` the selection is included, and
    /// without a usable `@skip` it is not skipped.
    pub open spec fn of(directives: Seq<hir::Directive>) -> Self {
        IncludeSkipModel {
            include_if: match first_condition(directives, "include"@) {
                Some(condition) => condition,
                None => ConditionModel::Yes,
            },
            skip_if: match first_condition(directives, "skip"@) {
                Some(condition) => condition,
                None => ConditionModel::No,
            },
        }
    }

    /// Whether the directives alone already leave the selection out.
    pub open spec fn statically_skipped(self) -> bool {
        self.skip_if is Yes || self.include_if is No
    }

    /// Whether the selection is left out under the given variables. A condition that the variables
    /// do not decide leaves it in.
    pub open spec fn should_skip(self, variables: Map<Seq<char>, JsonValue>) -> bool {
        self.skip_if.eval(variables) == Some(true) || self.include_if.eval(variables) == Some(false)
    }
}

impl IncludeSkip {
    /// What a list of directives says: without a usable `@include` the selection is included, and
    /// without a usable `@skip` it is not skipped. Of several usable directives of one name, the
    /// first counts.
    pub fn parse(directives: &Vec<hir::Directive>) -> (include_skip: Self)
        ensures
            include_skip@ == IncludeSkipModel::of(directives@),
    {
        let mut include_if: Option<Condition> = None;
        let mut skip_if: Option<Condition> = None;
        let mut i: usize = 0;
        proof {
            assert(directives@.skip(0) =~= directives@);
        }
        while i < directives.len()
            invariant
                i <= directives@.len(),
                match include_if {
                    Some(condition) => first_condition(directives@, "include"@) == Some(condition@),
                    None => first_condition(directives@, "include"@) == first_condition(
                        directives@.skip(i as int),
                        "include"@,
                    ),
                },
                match skip_if {
                    Some(condition) => first_condition(directives@, "skip"@) == Some(condition@),
                    None => first_condition(directives@, "skip"@) == first_condition(
                        directives@.skip(i as int),
                        "skip"@,
                    ),
                },
            decreases directives@.len() - i,
        {
            proof {
                assert(directives@.skip(i as int).drop_first() =~= directives@.skip(i + 1));
            }
            let directive = &directives[i];
            if include_if.is_none() && is_text(&directive.name, "include") {
                include_if = Condition::parse(directive);
            }
            if skip_if.is_none() && is_text(&directive.name, "skip") {
                skip_if = Condition::parse(directive);
            }
            i += 1;
        }
        IncludeSkip {
            include_if: include_if.unwrap_or(Condition::Yes),
            skip_if: skip_if.unwrap_or(Condition::No),
        }
    }

    /// Whether the directives alone already leave the selection out.
    pub fn statically_skipped(&self) -> (skipped: bool)
        ensures
            skipped == self@.statically_skipped(),
    {
        matches!(self.skip_if, Condition::Yes) || matches!(self.include_if, Condition::No)
    }

    /// Whether the selection is left out under the given variables. A condition that the variables
    /// do not decide leaves it in.
    pub fn should_skip(&self, variables: &Object) -> (skip: bool)
        ensures
            skip == self@.should_skip(object_members(*variables)),
    {
        self.skip_if.eval(variables).unwrap_or(false) || !self.include_if.eval(
            variables,
        ).unwrap_or(true)
    }
}

/// What the directives alone leave out is left out under all variables.
pub proof fn static_skip_is_final(
    include_skip: IncludeSkipModel,
    variables: Map<Seq<char>, JsonValue>,
)
    requires
        include_skip.statically_skipped(),
    ensures
        include_skip.should_skip(variables),
{
}

/// Without a variable that they name and that is a boolean, the directives alone decide.
pub proof fn undecided_variables_leave_in(
    include_skip: IncludeSkipModel,
    variables: Map<Seq<char>, JsonValue>,
)
    requires
        include_skip.include_if is Variable ==> include_skip.include_if.eval(variables) is None,
        include_skip.skip_if is Variable ==> include_skip.skip_if.eval(variables) is None,
    ensures
        include_skip.should_skip(variables) == include_skip.statically_skipped(),
{
}

/// Of the directives of one name that state a condition, the first counts: what follows it does
/// not, and what precedes it without a condition does not either.
pub proof fn first_usable_directive_counts(
    front: Seq<hir::Directive>,
    back: Seq<hir::Directive>,
    name: Seq<char>,
)
    ensures
        first_condition(front + back, name) == if first_condition(front, name) is Some {
            first_condition(front, name)
        } else {
            first_condition(back, name)
        },
    decreases front.len(),
{
    if front.len() == 0 {
        assert(front + back =~= back);
    } else {
        assert((front + back).first() == front.first());
        assert((front + back).drop_first() =~= front.drop_first() + back);
        first_usable_directive_counts(front.drop_first(), back, name);
    }
}

} // verus!
