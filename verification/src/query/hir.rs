//! The selections of a query document, as the query compiler hands them over.

use crate::text::is_text;
use vstd::prelude::*;

verus! {

/// What a directive argument holds.
#[derive(Debug)]
pub enum ArgumentValue {
    /// A reference to the variable of that name.
    Variable(String),
    Boolean(bool),
    /// A number, a string, an enum value, a list, an object or null.
    Other,
}

/// A named argument of a directive.
#[derive(Debug)]
pub struct Argument {
    pub name: String,
    pub value: ArgumentValue,
}

/// A directive with its arguments in document order.
#[derive(Debug)]
pub struct Directive {
    pub name: String,
    pub arguments: Vec<Argument>,
}

/// The value of the first argument of that name.
pub open spec fn first_argument(arguments: Seq<Argument>, name: Seq<char>) -> Option<
    ArgumentValue,
>
    decreases arguments.len(),
{
    if arguments.len() == 0 {
        None
    } else if arguments.first().name@ == name {
        Some(arguments.first().value)
    } else {
        first_argument(arguments.drop_first(), name)
    }
}

impl Directive {
    /// The value of the first argument of that name.
    pub fn argument_by_name(&self, name: &str) -> (value: Option<&ArgumentValue>)
        ensures
            match value {
                Some(value) => first_argument(self.arguments@, name@) == Some(*value),
                None => first_argument(self.arguments@, name@) is None,
            },
    {
        let mut i: usize = 0;
        proof {
            assert(self.arguments@.skip(0) =~= self.arguments@);
        }
        while i < self.arguments.len()
            invariant
                i <= self.arguments@.len(),
                first_argument(self.arguments@, name@) == first_argument(
                    self.arguments@.skip(i as int),
                    name@,
                ),
            decreases self.arguments@.len() - i,
        {
            proof {
                assert(self.arguments@.skip(i as int).drop_first() =~= self.arguments@.skip(i + 1));
            }
            if is_text(&self.arguments[i].name, name) {
                return Some(&self.arguments[i].value);
            }
            i += 1;
        }
        None
    }
}

/// A selected field.
#[derive(Debug)]
pub struct Field {
    pub name: String,
    pub alias: Option<String>,
    pub directives: Vec<Directive>,
    pub selection_set: Vec<Selection>,
}

/// A fragment written in place.
#[derive(Debug)]
pub struct InlineFragment {
    pub type_condition: Option<String>,
    pub directives: Vec<Directive>,
    pub selection_set: Vec<Selection>,
}

/// A reference to a named fragment.
#[derive(Debug)]
pub struct FragmentSpread {
    pub name: String,
    pub directives: Vec<Directive>,
}

/// One entry of a selection set.
#[derive(Debug)]
pub enum Selection {
    Field(Field),
    InlineFragment(InlineFragment),
    FragmentSpread(FragmentSpread),
}

} // verus!
