//! The named fragments of a query.

use crate::query::selection::{models, Selection, SelectionModel};
use vstd::hash_map::StringHashMap;
use vstd::prelude::*;

verus! {

/// A fragment: the type on which it applies and what it selects there.
pub struct Fragment {
    pub type_condition: String,
    pub selection_set: Vec<Selection>,
}

/// A [`Fragment`] over the models of its parts.
pub struct FragmentModel {
    pub type_condition: Seq<char>,
    pub selection_set: Seq<SelectionModel>,
}

impl View for Fragment {
    type V = FragmentModel;

    open spec fn view(&self) -> FragmentModel {
        FragmentModel {
            type_condition: self.type_condition@,
            selection_set: models(self.selection_set@),
        }
    }
}

/// The fragments of a query by name.
pub struct Fragments {
    map: StringHashMap<Fragment>,
}

impl View for Fragments {
    type V = Map<Seq<char>, FragmentModel>;

    closed spec fn view(&self) -> Map<Seq<char>, FragmentModel> {
        self.map@.map_values(|fragment: Fragment| fragment@)
    }
}

impl Fragments {
    #[verifier::type_invariant]
    spec fn finite(self) -> bool {
        self.map@.dom().finite()
    }

    /// No fragments.
    pub fn new() -> (fragments: Self)
        ensures
            fragments@ == Map::<Seq<char>, FragmentModel>::empty(),
    {
        let fragments = Fragments { map: StringHashMap::new() };
        assert(fragments@ =~= Map::<Seq<char>, FragmentModel>::empty());
        fragments
    }

    /// The same fragments with one more, or with another one of that name.
    pub fn with(self, name: String, fragment: Fragment) -> (fragments: Self)
        ensures
            fragments@ == self@.insert(name@, fragment@),
    {
        proof {
            use_type_invariant(&self);
        }
        let ghost before = self@;
        let mut map = self.map;
        map.insert(name, fragment);
        let fragments = Fragments { map };
        assert(fragments@ =~= before.insert(name@, fragment@));
        fragments
    }

    /// The fragment of that name.
    pub fn get(&self, name: &str) -> (fragment: Option<&Fragment>)
        ensures
            match fragment {
                Some(fragment) => self@.contains_key(name@) && self@[name@] == fragment@,
                None => !self@.contains_key(name@),
            },
    {
        self.map.get(name)
    }

    /// How many fragments there are.
    pub fn len(&self) -> (len: usize)
        ensures
            self@.dom().finite(),
            len == self@.len(),
    {
        proof {
            use_type_invariant(self);
            assert(self@.dom() =~= self.map@.dom());
        }
        self.map.len()
    }
}

} // verus!
