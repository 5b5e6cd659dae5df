//! A value for some of the categories.
use crate::ui::category;
use crate::ui::category::Category;
use std::collections::BTreeMap;
use vstd::prelude::*;

verus! {

/// A value for some of the categories.
#[derive(Debug, Clone, PartialEq, Eq)]
pub struct CategoryMap<V> {
    /// The values by the numbers of their categories.
    values: BTreeMap<i32, V>,
}

impl<V> CategoryMap<V> {
    /// The value of a category, if it has one.
    pub closed spec fn at(self, category: Category) -> Option<V> {
        let number = category::id_of(category) as i32;
        if self.values@.contains_key(number) {
            Some(self.values@[number])
        } else {
            None
        }
    }

    /// No category has a value.
    pub fn new() -> (r: CategoryMap<V>)
        ensures
            forall|category: Category| (#[trigger] r.at(category)) is None,
    {
        CategoryMap { values: BTreeMap::new() }
    }

    /// The value of a category.
    pub fn get(&self, category: Category) -> (r: Option<&V>)
        ensures
            r == (match self.at(category) {
                Some(value) => Some(&value),
                None => None,
            }),
    {
        self.values.get(&category.category_id())
    }

    /// Gives a category a value.
    pub fn insert(&mut self, category: Category, value: V)
        ensures
            forall|other: Category| #[trigger]
                final(self).at(other) == (if other == category {
                    Some(value)
                } else {
                    old(self).at(other)
                }),
    {
        let _ = self.values.insert(category.category_id(), value);
    }

    /// Takes the value of a category away.
    pub fn remove(&mut self, category: Category)
        ensures
            forall|other: Category| #[trigger]
                final(self).at(other) == (if other == category {
                    None
                } else {
                    old(self).at(other)
                }),
    {
        let _ = self.values.remove(&category.category_id());
    }
}

} // verus!
