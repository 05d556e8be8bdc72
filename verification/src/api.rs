//! The general key-value abstractions shared among the whole project.

use vstd::prelude::*;
use crate::kvs_api::{opt_str_view, RowModel};

verus! {

/// The main key-value abstraction.
#[derive(Debug, PartialEq, Clone)]
pub struct KeyValueRow {
    /// Can be used for specifying object class, file path, namespace and so on.
    pub namespace: String,
    /// Unique name in the namespace. It can be used as object id or file name.
    pub name: String,
    /// Specifies object property.
    pub key: String,
    /// Value of that property.
    pub value: String,
}

impl View for KeyValueRow {
    type V = RowModel;

    open spec fn view(&self) -> RowModel {
        RowModel {
            namespace: self.namespace@,
            name: self.name@,
            key: self.key@,
            value: self.value@,
        }
    }
}

impl KeyValueRow {
    /// Create key-value.
    pub fn new(namespace: &str, name: &str, key: &str, value: &str) -> (r: Self)
        ensures
            r@ == (RowModel { namespace: namespace@, name: name@, key: key@, value: value@ }),
    {
        KeyValueRow {
            namespace: namespace.to_owned(),
            name: name.to_owned(),
            key: key.to_owned(),
            value: value.to_owned(),
        }
    }
}

impl KeyValueRow {
    /// A copy of the row.
    pub fn copy(&self) -> (r: Self)
        ensures
            r@ == self@,
    {
        KeyValueRow {
            namespace: self.namespace.clone(),
            name: self.name.clone(),
            key: self.key.clone(),
            value: self.value.clone(),
        }
    }
}

/// The identity of a row: everything but its value.
#[derive(Debug, PartialEq, Clone)]
pub struct KeyValueRowIdentity {
    pub namespace: String,
    pub name: String,
    pub key: String,
}

/// Capabilities offered while creating rows.
pub struct KeyValueCreateDirectives {}

/// Termination of a row creation.
pub struct KeyValueCreateCommand {}

/// Capabilities offered while updating rows.
pub struct KeyValueUpdateDirectives {}

/// Termination of a row update.
pub struct KeyValueUpdateCommand {}

/// The abstract content of a selector: what each field is matched against.
pub struct SelectorModel {
    pub namespace: Option<Seq<char>>,
    pub name: Option<Seq<char>>,
    pub key: Option<Seq<char>>,
    pub value: Option<Seq<char>>,
}

/// Directives those define which rows should be selected.
pub struct KeyValueSelectionDirectives {
    namespace: Option<String>,
    name: Option<String>,
    key: Option<String>,
    value: Option<String>,
}

impl View for KeyValueSelectionDirectives {
    type V = SelectorModel;

    closed spec fn view(&self) -> SelectorModel {
        SelectorModel {
            namespace: opt_str_view(self.namespace),
            name: opt_str_view(self.name),
            key: opt_str_view(self.key),
            value: opt_str_view(self.value),
        }
    }
}

impl Default for KeyValueSelectionDirectives {
    /// Directives that select everything.
    fn default() -> (r: Self)
        ensures
            r@ == (SelectorModel { namespace: None, name: None, key: None, value: None }),
    {
        KeyValueSelectionDirectives { namespace: None, name: None, key: None, value: None }
    }
}

impl KeyValueSelectionDirectives {
    /// Set an expression for matching namespace.
    pub fn namespace(self, expression: &str) -> (r: Self)
        ensures
            r@ == (SelectorModel { namespace: Some(expression@), ..self@ }),
    {
        let mut s = self;
        s.namespace = Some(expression.to_owned());
        s
    }

    /// Set an expression for matching names.
    pub fn name(self, expression: &str) -> (r: Self)
        ensures
            r@ == (SelectorModel { name: Some(expression@), ..self@ }),
    {
        let mut s = self;
        s.name = Some(expression.to_owned());
        s
    }

    /// Set an expression for matching keys.
    pub fn key(self, expression: &str) -> (r: Self)
        ensures
            r@ == (SelectorModel { key: Some(expression@), ..self@ }),
    {
        let mut s = self;
        s.key = Some(expression.to_owned());
        s
    }

    /// Finish composing selection.
    pub fn build(self) -> (r: KeyValueSelector)
        ensures
            r@ == self@,
    {
        KeyValueSelector {
            namespace: self.namespace,
            name: self.name,
            key: self.key,
            value: self.value,
        }
    }
}

/// A set of expressions for matching rows.
#[derive(Debug, Clone)]
pub struct KeyValueSelector {
    pub namespace: Option<String>,
    pub name: Option<String>,
    pub key: Option<String>,
    pub value: Option<String>,
}

impl View for KeyValueSelector {
    type V = SelectorModel;

    open spec fn view(&self) -> SelectorModel {
        SelectorModel {
            namespace: opt_str_view(self.namespace),
            name: opt_str_view(self.name),
            key: opt_str_view(self.key),
            value: opt_str_view(self.value),
        }
    }
}

} // verus!
