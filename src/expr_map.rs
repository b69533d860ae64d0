//! A map keyed by expressions whose variables either nest further maps or hold values:
//! its variable table is a union of the two kinds.
use vstd::prelude::*;
use std::collections::HashMap;
use std::sync::Arc;

verus! {

/// The variable table of an [`ExprMap`]: nested maps, or values.
pub enum NestedOrNotMap<V> {
    Nested(HashMap<usize, ExprMap<V>>),
    Not(HashMap<usize, V>),
}

/// Stores expressions that can be used as keys to retrieve values.
pub struct ExprMap<V> {
    apps: Option<Arc<ExprMap<V>>>,
    vars: NestedOrNotMap<V>,
}

impl<V> ExprMap<V> {
    /// Whether the variables nest further maps.
    pub closed spec fn nests(&self) -> bool {
        self.vars is Nested
    }

    /// Whether the map holds applications.
    pub closed spec fn applies(&self) -> bool {
        self.apps is Some
    }

    /// An empty map whose variables hold values, or nest further maps.
    pub fn new(nested: bool) -> (r: ExprMap<V>)
        ensures
            !r.applies(),
            r.nests() == nested,
    {
        let vars = if nested {
            NestedOrNotMap::Nested(HashMap::new())
        } else {
            NestedOrNotMap::Not(HashMap::new())
        };
        ExprMap { apps: None, vars }
    }

    /// Whether the variables nest further maps.
    pub fn is_nested(&self) -> (r: bool)
        ensures
            r == self.nests(),
    {
        match &self.vars {
            NestedOrNotMap::Nested(_) => true,
            NestedOrNotMap::Not(_) => false,
        }
    }

    /// Whether the map holds applications.
    pub fn has_apps(&self) -> (r: bool)
        ensures
            r == self.applies(),
    {
        self.apps.is_some()
    }
}

} // verus!
