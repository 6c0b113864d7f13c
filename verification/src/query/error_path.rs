//! Which selections a path into a response runs through.

use crate::query::fragments::{FragmentModel, Fragments};
use crate::json_ext::PathElement;
use crate::query::selection::{models, response_key, Selection, SelectionModel};
use vstd::prelude::*;
use vstd::slice::slice_subrange;

verus! {

/// Whether a path runs through a selection. Between two steps of the path, at most `budget`
/// fragment spreads are followed.
pub open spec fn runs_through(
    path: Seq<PathElement>,
    selection: SelectionModel,
    fragments: Map<Seq<char>, FragmentModel>,
    budget: nat,
) -> bool
    decreases path.len(), budget, selection,
{
    if path.len() == 0 {
        true
    } else {
        let rest = path.skip(1);
        match (path[0], selection) {
            (PathElement::Key(key), SelectionModel::Field { name, alias, selection_set, .. }) => {
                response_key(name, alias) == key@ && match selection_set {
                    None => rest.len() == 0,
                    Some(set) => runs_through_any(rest, set, fragments, fragments.len()),
                }
            },
            (
                PathElement::Fragment(on),
                SelectionModel::InlineFragment { type_condition, selection_set, .. },
            ) => {
                on@ == type_condition && runs_through_any(
                    rest,
                    selection_set,
                    fragments,
                    fragments.len(),
                )
            },
            (PathElement::Fragment(on), SelectionModel::FragmentSpread { name, .. }) => {
                fragments.contains_key(name) && on@ == fragments[name].type_condition
                    && runs_through_any(
                    rest,
                    fragments[name].selection_set,
                    fragments,
                    fragments.len(),
                )
            },
            (_, SelectionModel::FragmentSpread { name, .. }) => {
                fragments.contains_key(name) && budget > 0 && runs_through_any(
                    path,
                    fragments[name].selection_set,
                    fragments,
                    (budget - 1) as nat,
                )
            },
            (PathElement::Index(_), _) | (PathElement::Flatten, _) => runs_through(
                rest,
                selection,
                fragments,
                fragments.len(),
            ),
            (PathElement::Key(_), SelectionModel::InlineFragment { selection_set, .. }) => {
                runs_through_any(path, selection_set, fragments, budget)
            },
            (PathElement::Fragment(_), SelectionModel::Field { .. }) => false,
        }
    }
}

/// Whether a path runs through one of several selections.
pub open spec fn runs_through_any(
    path: Seq<PathElement>,
    selections: Seq<SelectionModel>,
    fragments: Map<Seq<char>, FragmentModel>,
    budget: nat,
) -> bool
    decreases path.len(), budget, selections,
{
    exists|i: int|
        0 <= i < selections.len() && runs_through(path, #[trigger] selections[i], fragments, budget)
}

impl SelectionModel {
    /// Whether a path runs through the selection. Following more spreads in a row than there are
    /// fragments leads nowhere new.
    pub open spec fn contains_error_path(
        self,
        path: Seq<PathElement>,
        fragments: Map<Seq<char>, FragmentModel>,
    ) -> bool {
        runs_through(path, self, fragments, fragments.len())
    }

    /// Whether a path runs through the selection, told by its first step: what the selections one
    /// step further contain decides the rest.
    pub open spec fn contains_first_step(
        self,
        path: Seq<PathElement>,
        fragments: Map<Seq<char>, FragmentModel>,
    ) -> bool {
        if path.len() == 0 {
            true
        } else {
            let rest = path.skip(1);
            match (path[0], self) {
                (PathElement::Key(key), SelectionModel::Field { name, alias, selection_set, .. })
                    => {
                    response_key(name, alias) == key@ && match selection_set {
                        None => path.len() == 1,
                        Some(set) => any_contains_error_path(set, rest, fragments),
                    }
                },
                (
                    PathElement::Fragment(on),
                    SelectionModel::InlineFragment { type_condition, selection_set, .. },
                ) => {
                    on@ == type_condition && any_contains_error_path(selection_set, rest, fragments)
                },
                (PathElement::Fragment(on), SelectionModel::FragmentSpread { name, .. }) => {
                    fragments.contains_key(name) && on@ == fragments[name].type_condition
                        && any_contains_error_path(fragments[name].selection_set, rest, fragments)
                },
                (_, SelectionModel::FragmentSpread { name, .. }) => {
                    fragments.contains_key(name) && any_contains_error_path(
                        fragments[name].selection_set,
                        path,
                        fragments,
                    )
                },
                (PathElement::Index(_), _) | (PathElement::Flatten, _) => {
                    self.contains_error_path(rest, fragments)
                },
                (PathElement::Key(_), SelectionModel::InlineFragment { selection_set, .. }) => {
                    any_contains_error_path(selection_set, path, fragments)
                },
                (PathElement::Fragment(_), SelectionModel::Field { .. }) => false,
            }
        }
    }
}

/// Whether a path runs through one of several selections.
pub open spec fn any_contains_error_path(
    selections: Seq<SelectionModel>,
    path: Seq<PathElement>,
    fragments: Map<Seq<char>, FragmentModel>,
) -> bool {
    exists|i: int|
        0 <= i < selections.len() && (#[trigger] selections[i]).contains_error_path(path, fragments)
}

/// The fragments whose spread a path runs through, with at most `budget` spreads in a row.
spec fn reached(
    path: Seq<PathElement>,
    fragments: Map<Seq<char>, FragmentModel>,
    budget: nat,
) -> Set<Seq<char>> {
    fragments.dom().filter(
        |name: Seq<char>|
            budget > 0 && runs_through_any(
                path,
                fragments[name].selection_set,
                fragments,
                (budget - 1) as nat,
            ),
    )
}

/// A path runs through the spread of a fragment that it reaches.
proof fn lemma_spread_reached(
    path: Seq<PathElement>,
    selection: SelectionModel,
    fragments: Map<Seq<char>, FragmentModel>,
    budget: nat,
)
    requires
        path.len() > 0,
        !(path[0] is Fragment),
        selection is FragmentSpread,
    ensures
        runs_through(path, selection, fragments, budget) == reached(
            path,
            fragments,
            budget,
        ).contains(selection->FragmentSpread_name),
{
    let name = selection->FragmentSpread_name;
    assert(runs_through(path, selection, fragments, budget) == (fragments.contains_key(name)
        && budget > 0 && runs_through_any(
        path,
        fragments[name].selection_set,
        fragments,
        (budget - 1) as nat,
    )));
}

/// A budget counts only through the fragments that it lets a path reach.
proof fn lemma_reached_decides(
    path: Seq<PathElement>,
    selection: SelectionModel,
    fragments: Map<Seq<char>, FragmentModel>,
    budget: nat,
    other: nat,
)
    requires
        reached(path, fragments, budget) == reached(path, fragments, other),
    ensures
        runs_through(path, selection, fragments, budget) == runs_through(
            path,
            selection,
            fragments,
            other,
        ),
    decreases selection,
{
    if path.len() > 0 {
        match (path[0], selection) {
            (PathElement::Fragment(_), SelectionModel::FragmentSpread { .. }) => {},
            (_, SelectionModel::FragmentSpread { name, .. }) => {
                lemma_spread_reached(path, selection, fragments, budget);
                lemma_spread_reached(path, selection, fragments, other);
            },
            (PathElement::Key(_), SelectionModel::InlineFragment { selection_set, .. }) => {
                lemma_reached_decides_any(path, selection_set, fragments, budget, other);
            },
            _ => {},
        }
    }
}

/// The same for one of several selections.
proof fn lemma_reached_decides_any(
    path: Seq<PathElement>,
    selections: Seq<SelectionModel>,
    fragments: Map<Seq<char>, FragmentModel>,
    budget: nat,
    other: nat,
)
    requires
        reached(path, fragments, budget) == reached(path, fragments, other),
    ensures
        runs_through_any(path, selections, fragments, budget) == runs_through_any(
            path,
            selections,
            fragments,
            other,
        ),
    decreases selections,
{
    assert forall|i: int| 0 <= i < selections.len() implies runs_through(
        path,
        #[trigger] selections[i],
        fragments,
        budget,
    ) == runs_through(path, selections[i], fragments, other) by {
        lemma_reached_decides(path, selections[i], fragments, budget, other);
    }
}

/// What two budgets reach alike, they reach alike with one spread more.
proof fn lemma_reached_alike(
    path: Seq<PathElement>,
    fragments: Map<Seq<char>, FragmentModel>,
    budget: nat,
    other: nat,
)
    requires
        reached(path, fragments, budget) == reached(path, fragments, other),
    ensures
        reached(path, fragments, budget + 1) == reached(path, fragments, other + 1),
{
    assert forall|name: Seq<char>| fragments.contains_key(name) implies runs_through_any(
        path,
        #[trigger] fragments[name].selection_set,
        fragments,
        budget,
    ) == runs_through_any(path, fragments[name].selection_set, fragments, other) by {
        lemma_reached_decides_any(path, fragments[name].selection_set, fragments, budget, other);
    }
    assert(reached(path, fragments, budget + 1) =~= reached(path, fragments, other + 1));
}

/// A larger budget reaches no less.
proof fn lemma_reached_grows(
    path: Seq<PathElement>,
    fragments: Map<Seq<char>, FragmentModel>,
    budget: nat,
)
    ensures
        reached(path, fragments, budget).subset_of(reached(path, fragments, budget + 1)),
    decreases budget,
{
    if budget > 0 {
        lemma_reached_grows(path, fragments, (budget - 1) as nat);
        assert forall|name: Seq<char>| reached(path, fragments, budget).contains(name) implies
            reached(path, fragments, budget + 1).contains(name) by {
            lemma_runs_grows_any(
                path,
                fragments[name].selection_set,
                fragments,
                (budget - 1) as nat,
            );
        }
    }
}

/// What a path runs through, it runs through with one spread more.
proof fn lemma_runs_grows(
    path: Seq<PathElement>,
    selection: SelectionModel,
    fragments: Map<Seq<char>, FragmentModel>,
    budget: nat,
)
    ensures
        runs_through(path, selection, fragments, budget) ==> runs_through(
            path,
            selection,
            fragments,
            budget + 1,
        ),
    decreases budget, selection,
{
    if path.len() > 0 {
        match (path[0], selection) {
            (PathElement::Fragment(_), SelectionModel::FragmentSpread { .. }) => {},
            (_, SelectionModel::FragmentSpread { name, .. }) => {
                if budget > 0 {
                    lemma_runs_grows_any(
                        path,
                        fragments[name].selection_set,
                        fragments,
                        (budget - 1) as nat,
                    );
                }
            },
            (PathElement::Key(_), SelectionModel::InlineFragment { selection_set, .. }) => {
                lemma_runs_grows_any(path, selection_set, fragments, budget);
            },
            _ => {},
        }
    }
}

/// The same for one of several selections.
proof fn lemma_runs_grows_any(
    path: Seq<PathElement>,
    selections: Seq<SelectionModel>,
    fragments: Map<Seq<char>, FragmentModel>,
    budget: nat,
)
    ensures
        runs_through_any(path, selections, fragments, budget) ==> runs_through_any(
            path,
            selections,
            fragments,
            budget + 1,
        ),
    decreases budget, selections,
{
    assert forall|i: int|
        0 <= i < selections.len() && runs_through(
            path,
            #[trigger] selections[i],
            fragments,
            budget,
        ) implies runs_through(path, selections[i], fragments, budget + 1) by {
        lemma_runs_grows(path, selections[i], fragments, budget);
    }
}

/// While a larger budget reaches more, each spread more reaches at least one fragment more.
proof fn lemma_reached_counts(
    path: Seq<PathElement>,
    fragments: Map<Seq<char>, FragmentModel>,
    budget: nat,
)
    requires
        fragments.dom().finite(),
    ensures
        reached(path, fragments, budget).len() >= budget || reached(path, fragments, budget)
            == reached(path, fragments, budget + 1),
    decreases budget,
{
    if budget > 0 {
        let before = (budget - 1) as nat;
        lemma_reached_counts(path, fragments, before);
        lemma_reached_grows(path, fragments, before);
        if reached(path, fragments, before) == reached(path, fragments, budget) {
            lemma_reached_alike(path, fragments, before, budget);
        } else {
            vstd::set_lib::lemma_len_subset(
                reached(path, fragments, before),
                reached(path, fragments, budget),
            );
            if reached(path, fragments, before).len() == reached(path, fragments, budget).len() {
                vstd::set_lib::lemma_subset_equality(
                    reached(path, fragments, before),
                    reached(path, fragments, budget),
                );
            }
        }
    }
}

/// With as many spreads in a row as there are fragments, a path reaches all that it can reach.
proof fn lemma_reached_all(
    path: Seq<PathElement>,
    fragments: Map<Seq<char>, FragmentModel>,
    budget: nat,
)
    requires
        fragments.dom().finite(),
        budget >= fragments.len(),
    ensures
        reached(path, fragments, budget) == reached(path, fragments, fragments.len()),
    decreases budget,
{
    let all = fragments.len();
    if budget > all {
        lemma_reached_all(path, fragments, (budget - 1) as nat);
        lemma_reached_counts(path, fragments, all);
        if reached(path, fragments, all) != reached(path, fragments, all + 1) {
            lemma_reached_grows(path, fragments, all);
            vstd::set_lib::lemma_len_subset(reached(path, fragments, all), fragments.dom());
            vstd::set_lib::lemma_subset_equality(reached(path, fragments, all), fragments.dom());
            assert(reached(path, fragments, all + 1) =~= fragments.dom());
        }
        lemma_reached_alike(path, fragments, (budget - 1) as nat, all);
    }
}

/// Following more spreads in a row than there are fragments leads nowhere new.
pub proof fn spreads_beyond_all_fragments_lead_nowhere_new(
    selection: SelectionModel,
    path: Seq<PathElement>,
    fragments: Map<Seq<char>, FragmentModel>,
    budget: nat,
)
    requires
        fragments.dom().finite(),
        budget >= fragments.len(),
    ensures
        runs_through(path, selection, fragments, budget) == selection.contains_error_path(
            path,
            fragments,
        ),
{
    lemma_reached_all(path, fragments, budget);
    lemma_reached_decides(path, selection, fragments, budget, fragments.len());
}

/// Two ways to say that a path runs through one of several selections.
proof fn lemma_any_contains(
    path: Seq<PathElement>,
    selections: Seq<SelectionModel>,
    fragments: Map<Seq<char>, FragmentModel>,
)
    ensures
        runs_through_any(path, selections, fragments, fragments.len()) == any_contains_error_path(
            selections,
            path,
            fragments,
        ),
{
    assert forall|i: int| 0 <= i < selections.len() implies runs_through(
        path,
        #[trigger] selections[i],
        fragments,
        fragments.len(),
    ) == selections[i].contains_error_path(path, fragments) by {}
}

/// What a selection contains is decided by the first step of the path and by what the selections
/// one step further contain, whether or not fragments spread each other in a circle.
pub proof fn first_step_decides(
    selection: SelectionModel,
    path: Seq<PathElement>,
    fragments: Map<Seq<char>, FragmentModel>,
)
    requires
        fragments.dom().finite(),
    ensures
        selection.contains_error_path(path, fragments) == selection.contains_first_step(
            path,
            fragments,
        ),
{
    if path.len() > 0 {
        let rest = path.skip(1);
        match (path[0], selection) {
            (
                PathElement::Key(_),
                SelectionModel::Field { selection_set: Some(selection_set), .. },
            ) => {
                lemma_any_contains(rest, selection_set, fragments);
            },
            (PathElement::Fragment(_), SelectionModel::InlineFragment { selection_set, .. }) => {
                lemma_any_contains(rest, selection_set, fragments);
            },
            (PathElement::Fragment(_), SelectionModel::FragmentSpread { name, .. }) => {
                lemma_any_contains(rest, fragments[name].selection_set, fragments);
            },
            (_, SelectionModel::FragmentSpread { name, .. }) => {
                lemma_reached_all(path, fragments, fragments.len() + 1);
                lemma_spread_reached(path, selection, fragments, fragments.len());
                lemma_any_contains(path, fragments[name].selection_set, fragments);
            },
            (PathElement::Key(_), SelectionModel::InlineFragment { selection_set, .. }) => {
                lemma_any_contains(path, selection_set, fragments);
            },
            _ => {},
        }
    }
}

/// With a path, a selection contains each path that it starts with.
pub proof fn shorter_paths_are_contained(
    selection: SelectionModel,
    path: Seq<PathElement>,
    shorter: nat,
    fragments: Map<Seq<char>, FragmentModel>,
)
    requires
        shorter <= path.len(),
        selection.contains_error_path(path, fragments),
    ensures
        selection.contains_error_path(path.take(shorter as int), fragments),
{
    lemma_shorter(path, shorter, selection, fragments, fragments.len());
}

proof fn lemma_shorter(
    path: Seq<PathElement>,
    shorter: nat,
    selection: SelectionModel,
    fragments: Map<Seq<char>, FragmentModel>,
    budget: nat,
)
    requires
        shorter <= path.len(),
        runs_through(path, selection, fragments, budget),
    ensures
        runs_through(path.take(shorter as int), selection, fragments, budget),
    decreases path.len(), budget, selection,
{
    if shorter > 0 {
        let rest = path.skip(1);
        let less = (shorter - 1) as nat;
        let all = fragments.len();
        assert(path.take(shorter as int).skip(1) =~= rest.take(less as int));
        match (path[0], selection) {
            (
                PathElement::Key(_),
                SelectionModel::Field { selection_set: Some(selection_set), .. },
            ) => {
                lemma_shorter_any(rest, less, selection_set, fragments, all);
            },
            (PathElement::Fragment(_), SelectionModel::InlineFragment { selection_set, .. }) => {
                lemma_shorter_any(rest, less, selection_set, fragments, all);
            },
            (PathElement::Fragment(_), SelectionModel::FragmentSpread { name, .. }) => {
                lemma_shorter_any(rest, less, fragments[name].selection_set, fragments, all);
            },
            (_, SelectionModel::FragmentSpread { name, .. }) => {
                lemma_shorter_any(
                    path,
                    shorter,
                    fragments[name].selection_set,
                    fragments,
                    (budget - 1) as nat,
                );
            },
            (PathElement::Index(_), _) | (PathElement::Flatten, _) => {
                lemma_shorter(rest, less, selection, fragments, all);
            },
            (PathElement::Key(_), SelectionModel::InlineFragment { selection_set, .. }) => {
                lemma_shorter_any(path, shorter, selection_set, fragments, budget);
            },
            _ => {},
        }
    }
}

proof fn lemma_shorter_any(
    path: Seq<PathElement>,
    shorter: nat,
    selections: Seq<SelectionModel>,
    fragments: Map<Seq<char>, FragmentModel>,
    budget: nat,
)
    requires
        shorter <= path.len(),
        runs_through_any(path, selections, fragments, budget),
    ensures
        runs_through_any(path.take(shorter as int), selections, fragments, budget),
    decreases path.len(), budget, selections,
{
    let i = choose|i: int|
        0 <= i < selections.len() && runs_through(
            path,
            #[trigger] selections[i],
            fragments,
            budget,
        );
    lemma_shorter(path, shorter, selections[i], fragments, budget);
}

/// Whether two steps differ at most in how they pick elements of an array.
pub open spec fn alike(step: PathElement, other: PathElement) -> bool {
    match (step, other) {
        (PathElement::Key(key), PathElement::Key(other)) => key@ == other@,
        (PathElement::Fragment(on), PathElement::Fragment(other)) => on@ == other@,
        (PathElement::Index(_) | PathElement::Flatten, PathElement::Index(_) | PathElement::Flatten)
            => true,
        _ => false,
    }
}

/// Whether two paths differ at most in how they pick elements of arrays.
pub open spec fn alike_paths(path: Seq<PathElement>, other: Seq<PathElement>) -> bool {
    path.len() == other.len() && forall|i: int|
        0 <= i < path.len() ==> alike(#[trigger] path[i], other[i])
}

/// Which elements of arrays a path picks, one or all of them, does not count.
pub proof fn array_elements_do_not_count(
    selection: SelectionModel,
    path: Seq<PathElement>,
    other: Seq<PathElement>,
    fragments: Map<Seq<char>, FragmentModel>,
)
    requires
        alike_paths(path, other),
    ensures
        selection.contains_error_path(path, fragments) == selection.contains_error_path(
            other,
            fragments,
        ),
{
    lemma_alike(path, other, selection, fragments, fragments.len());
}

proof fn lemma_alike(
    path: Seq<PathElement>,
    other: Seq<PathElement>,
    selection: SelectionModel,
    fragments: Map<Seq<char>, FragmentModel>,
    budget: nat,
)
    requires
        alike_paths(path, other),
    ensures
        runs_through(path, selection, fragments, budget) == runs_through(
            other,
            selection,
            fragments,
            budget,
        ),
    decreases path.len(), budget, selection,
{
    if path.len() > 0 {
        let rest = path.skip(1);
        let other_rest = other.skip(1);
        let all = fragments.len();
        assert(alike(path[0], other[0]));
        assert forall|i: int| 0 <= i < rest.len() implies alike(
            #[trigger] rest[i],
            other_rest[i],
        ) by {
            assert(alike(path[i + 1], other[i + 1]));
        }
        match (path[0], selection) {
            (
                PathElement::Key(_),
                SelectionModel::Field { selection_set: Some(selection_set), .. },
            ) => {
                lemma_alike_any(rest, other_rest, selection_set, fragments, all);
            },
            (PathElement::Fragment(_), SelectionModel::InlineFragment { selection_set, .. }) => {
                lemma_alike_any(rest, other_rest, selection_set, fragments, all);
            },
            (PathElement::Fragment(_), SelectionModel::FragmentSpread { name, .. }) => {
                lemma_alike_any(rest, other_rest, fragments[name].selection_set, fragments, all);
            },
            (_, SelectionModel::FragmentSpread { name, .. }) => {
                if budget > 0 {
                    lemma_alike_any(
                        path,
                        other,
                        fragments[name].selection_set,
                        fragments,
                        (budget - 1) as nat,
                    );
                }
            },
            (PathElement::Index(_), _) | (PathElement::Flatten, _) => {
                lemma_alike(rest, other_rest, selection, fragments, all);
            },
            (PathElement::Key(_), SelectionModel::InlineFragment { selection_set, .. }) => {
                lemma_alike_any(path, other, selection_set, fragments, budget);
            },
            _ => {},
        }
    }
}

proof fn lemma_alike_any(
    path: Seq<PathElement>,
    other: Seq<PathElement>,
    selections: Seq<SelectionModel>,
    fragments: Map<Seq<char>, FragmentModel>,
    budget: nat,
)
    requires
        alike_paths(path, other),
    ensures
        runs_through_any(path, selections, fragments, budget) == runs_through_any(
            other,
            selections,
            fragments,
            budget,
        ),
    decreases path.len(), budget, selections,
{
    assert forall|i: int| 0 <= i < selections.len() implies runs_through(
        path,
        #[trigger] selections[i],
        fragments,
        budget,
    ) == runs_through(other, selections[i], fragments, budget) by {
        lemma_alike(path, other, selections[i], fragments, budget);
    }
}

impl Selection {
    /// Whether a path into a response runs through the selection: through a field of its key,
    /// through fragments as far as the path names them or passes them over, and on below. Fragments
    /// that spread each other in a circle do no harm.
    pub fn contains_error_path(&self, path: &[PathElement], fragments: &Fragments) -> (contained:
        bool)
        ensures
            contained == self@.contains_error_path(path@, fragments@),
            contained == self@.contains_first_step(path@, fragments@),
    {
        let budget = fragments.len();
        proof {
            first_step_decides(self@, path@, fragments@);
        }
        self.contains_within(path, fragments, budget)
    }

    /// Whether a path runs through the selection, with at most `budget` spreads in a row before
    /// its first step.
    fn contains_within(
        &self,
        path: &[PathElement],
        fragments: &Fragments,
        budget: usize,
    ) -> (contained: bool)
        ensures
            contained == runs_through(path@, self@, fragments@, budget as nat),
        decreases path@.len(), budget, self,
    {
        if path.len() == 0 {
            return true;
        }
        let rest = slice_subrange(path, 1, path.len());
        assert(rest@ =~= path@.skip(1));
        match (&path[0], self) {
            (PathElement::Key(key), Selection::Field { name, alias, selection_set, .. }) => {
                let response_key = match alias {
                    Some(alias) => alias,
                    None => name,
                };
                if *response_key == *key {
                    match selection_set {
                        // without selections below the field, the path ends there
                        None => path.len() == 1,
                        Some(set) => Self::any_contains_within(
                            set,
                            rest,
                            fragments,
                            fragments.len(),
                        ),
                    }
                } else {
                    false
                }
            },
            (
                PathElement::Fragment(on),
                Selection::InlineFragment { type_condition, selection_set, .. },
            ) => {
                *on == *type_condition && Self::any_contains_within(
                    selection_set,
                    rest,
                    fragments,
                    fragments.len(),
                )
            },
            (PathElement::Fragment(on), Selection::FragmentSpread { name, .. }) => {
                match fragments.get(name.as_str()) {
                    Some(fragment) => {
                        *on == fragment.type_condition && Self::any_contains_within(
                            &fragment.selection_set,
                            rest,
                            fragments,
                            fragments.len(),
                        )
                    },
                    None => false,
                }
            },
            (_, Selection::FragmentSpread { name, .. }) => {
                match fragments.get(name.as_str()) {
                    Some(fragment) => {
                        budget > 0 && Self::any_contains_within(
                            &fragment.selection_set,
                            path,
                            fragments,
                            budget - 1,
                        )
                    },
                    None => false,
                }
            },
            (PathElement::Index(_), _) | (PathElement::Flatten, _) => {
                self.contains_within(rest, fragments, fragments.len())
            },
            (PathElement::Key(_), Selection::InlineFragment { selection_set, .. }) => {
                Self::any_contains_within(selection_set, path, fragments, budget)
            },
            (PathElement::Fragment(_), Selection::Field { .. }) => false,
        }
    }

    /// Whether a path runs through one of several selections.
    fn any_contains_within(
        selections: &Vec<Selection>,
        path: &[PathElement],
        fragments: &Fragments,
        budget: usize,
    ) -> (contained: bool)
        ensures
            contained == runs_through_any(
                path@,
                models(selections@),
                fragments@,
                budget as nat,
            ),
        decreases path@.len(), budget, selections,
    {
        let mut i: usize = 0;
        while i < selections.len()
            invariant
                i <= selections@.len(),
                forall|j: int|
                    0 <= j < i ==> !runs_through(
                        path@,
                        #[trigger] models(selections@)[j],
                        fragments@,
                        budget as nat,
                    ),
            decreases selections@.len() - i,
        {
            if selections[i].contains_within(path, fragments, budget) {
                assert(runs_through(
                    path@,
                    models(selections@)[i as int],
                    fragments@,
                    budget as nat,
                ));
                return true;
            }
            i += 1;
        }
        false
    }
}

} // verus!
