//! An alternative schema of the HTTP query of a read, with a textual cursor
//! and a page size.

use vstd::prelude::*;
use crate::kvs_api::{clone_opt_string, opt_str_view, KeyValueSelectionTermination};

verus! {

/// The abstract content of a textual query.
pub struct TextQueryModel {
    pub namespace: Option<Seq<char>>,
    pub name: Option<Seq<char>>,
    pub key: Option<Seq<char>>,
    pub value: Option<Seq<char>>,
    pub cursor: Option<Seq<char>>,
    pub size: Option<usize>,
}

/// The schema of HTTP query parameters.
pub struct Query {
    namespace: Option<String>,
    name: Option<String>,
    key: Option<String>,
    value: Option<String>,
    cursor: Option<String>,
    size: Option<usize>,
}

impl View for Query {
    type V = TextQueryModel;

    closed spec fn view(&self) -> TextQueryModel {
        TextQueryModel {
            namespace: opt_str_view(self.namespace),
            name: opt_str_view(self.name),
            key: opt_str_view(self.key),
            value: opt_str_view(self.value),
            cursor: opt_str_view(self.cursor),
            size: self.size,
        }
    }
}

impl Default for Query {
    /// The empty query.
    fn default() -> (r: Self)
        ensures
            r@ == (TextQueryModel {
                namespace: None,
                name: None,
                key: None,
                value: None,
                cursor: None,
                size: None,
            }),
    {
        Query { namespace: None, name: None, key: None, value: None, cursor: None, size: None }
    }
}

impl Query {
    /// The empty query.
    pub fn new() -> (r: Self)
        ensures
            r@ == (TextQueryModel {
                namespace: None,
                name: None,
                key: None,
                value: None,
                cursor: None,
                size: None,
            }),
    {
        Self::default()
    }

    /// Take the four match expressions of `selector`; cursor and size stay.
    pub fn selector(self, selector: &KeyValueSelectionTermination) -> (r: Self)
        ensures
            r@ == (TextQueryModel {
                namespace: selector@.namespace,
                name: selector@.name,
                key: selector@.key,
                value: selector@.value,
                ..self@
            }),
    {
        let mut s = self;
        s.namespace = clone_opt_string(&selector.namespace);
        s.name = clone_opt_string(&selector.name);
        s.key = clone_opt_string(&selector.key);
        s.value = clone_opt_string(&selector.value);
        s
    }

    /// Set the cursor.
    pub fn cursor(self, cursor: &str) -> (r: Self)
        ensures
            r@ == (TextQueryModel { cursor: Some(cursor@), ..self@ }),
    {
        let mut s = self;
        s.cursor = Some(cursor.to_owned());
        s
    }

    /// Set the page size.
    pub fn size(self, size: usize) -> (r: Self)
        ensures
            r@ == (TextQueryModel { size: Some(size), ..self@ }),
    {
        let mut s = self;
        s.size = Some(size);
        s
    }
}

} // verus!
