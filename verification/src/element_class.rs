//! The classes applied to an HTML element, each either active or inactive.

use vstd::prelude::*;

use vstd::hash_map::StringHashMap;

verus! {

/// A map of classes applied to an HTML element: class name to an is-active
/// flag.  The flag exists so that scripts can toggle a class on and off.
pub struct ElementClass {
    /// Class name to is-active flag.
    class_map: StringHashMap<bool>,
}

impl ElementClass {
    /// The classes as a map from name to is-active flag.
    pub closed spec fn model(&self) -> Map<Seq<char>, bool> {
        self.class_map@
    }

    /// Initialise a new, empty set of classes.
    pub fn new() -> (r: Self)
        ensures
            r.model() == Map::<Seq<char>, bool>::empty(),
    {
        Self { class_map: StringHashMap::new() }
    }

    /// Whether the class name exists.
    pub fn contains(&self, name: &str) -> (r: bool)
        ensures
            r == self.model().contains_key(name@),
    {
        self.class_map.contains_key(name)
    }

    /// Add a new class, active.  If the class already exists, its flag is kept
    /// as it is.
    pub fn add(&mut self, name: &str)
        ensures
            final(self).model() == if old(self).model().contains_key(name@) {
                old(self).model()
            } else {
                old(self).model().insert(name@, true)
            },
    {
        if !self.contains(name) {
            self.class_map.insert(name.to_owned(), true);
        }
    }

    /// Remove a class; does nothing if it does not exist.
    pub fn remove(&mut self, name: &str)
        ensures
            final(self).model() == old(self).model().remove(name@),
    {
        self.class_map.remove(name);
    }

    /// Toggle a class between active and inactive; does nothing if the class
    /// does not exist.
    pub fn toggle(&mut self, name: &str)
        ensures
            final(self).model() == if old(self).model().contains_key(name@) {
                old(self).model().insert(name@, !old(self).model()[name@])
            } else {
                old(self).model()
            },
    {
        let cur = self.class_map.get(name);
        match cur {
            Some(is_active) => {
                let flipped = !*is_active;
                self.class_map.insert(name.to_owned(), flipped);
            },
            None => {},
        }
    }

    /// Set explicitly whether a class is active; does nothing if the class
    /// does not exist.
    pub fn set_active(&mut self, name: &str, is_active: bool)
        ensures
            final(self).model() == if old(self).model().contains_key(name@) {
                old(self).model().insert(name@, is_active)
            } else {
                old(self).model()
            },
    {
        if self.class_map.contains_key(name) {
            self.class_map.insert(name.to_owned(), is_active);
        }
    }

    /// Whether a class is active; false if the class does not exist.
    pub fn is_active(&self, name: &str) -> (r: bool)
        ensures
            r == (self.model().contains_key(name@) && self.model()[name@]),
    {
        match self.class_map.get(name) {
            Some(is_active) => *is_active,
            None => false,
        }
    }
}

impl Default for ElementClass {
    /// An empty set of classes.
    fn default() -> (r: Self)
        ensures
            r.model() == Map::<Seq<char>, bool>::empty(),
    {
        Self::new()
    }
}

} // verus!
