//! Building the HTTP query of a batch read.

use vstd::prelude::*;
use vstd::string::StringExecFns;
use crate::api::{KeyValueRow, KeyValueSelector};
use crate::kvs_api::{clone_opt_string, opt_str_view};

verus! {

/// The decimal digits of a natural number, most significant first.
pub open spec fn decimal(n: nat) -> Seq<char>
    decreases n,
{
    let digit = (('0' as int) + (n % 10) as int) as char;
    if n < 10 {
        seq![digit]
    } else {
        decimal(n / 10).push(digit)
    }
}

/// The text of a decimal digit.
fn digit_text(d: usize) -> (r: &'static str)
    requires
        d < 10,
    ensures
        r@ == seq![((('0' as int) + d as int) as char)],
{
    match d {
        0 => {
            proof {
                reveal_strlit("0");
            }
            "0"
        },
        1 => {
            proof {
                reveal_strlit("1");
            }
            "1"
        },
        2 => {
            proof {
                reveal_strlit("2");
            }
            "2"
        },
        3 => {
            proof {
                reveal_strlit("3");
            }
            "3"
        },
        4 => {
            proof {
                reveal_strlit("4");
            }
            "4"
        },
        5 => {
            proof {
                reveal_strlit("5");
            }
            "5"
        },
        6 => {
            proof {
                reveal_strlit("6");
            }
            "6"
        },
        7 => {
            proof {
                reveal_strlit("7");
            }
            "7"
        },
        8 => {
            proof {
                reveal_strlit("8");
            }
            "8"
        },
        _ => {
            proof {
                reveal_strlit("9");
            }
            "9"
        },
    }
}

/// The decimal text of `n`, as `usize::to_string` gives it: its digits, most
/// significant first, without sign or leading zeros.
pub(crate) fn usize_to_string(n: usize) -> (r: String)
    ensures
        r@ == decimal(n as nat),
    decreases n,
{
    if n < 10 {
        digit_text(n).to_owned()
    } else {
        let mut s = usize_to_string(n / 10);
        s.append(digit_text(n % 10));
        s
    }
}

/// The abstract content of a batch query: the selection, the identity of the
/// last row already read, and the batch size.
pub struct QueryModel {
    pub namespace: Option<Seq<char>>,
    pub name: Option<Seq<char>>,
    pub key: Option<Seq<char>>,
    pub value: Option<Seq<char>>,
    pub last_namespace: Option<Seq<char>>,
    pub last_name: Option<Seq<char>>,
    pub last_key: Option<Seq<char>>,
    pub size: Option<usize>,
}

impl QueryModel {
    /// The empty query.
    pub open spec fn empty() -> QueryModel {
        QueryModel {
            namespace: None,
            name: None,
            key: None,
            value: None,
            last_namespace: None,
            last_name: None,
            last_key: None,
            size: None,
        }
    }

    /// The query with the selection of `s`.
    pub open spec fn with_selector(self, s: KeyValueSelector) -> QueryModel {
        QueryModel {
            namespace: s@.namespace,
            name: s@.name,
            key: s@.key,
            value: s@.value,
            ..self
        }
    }

    /// The query that resumes after `row`.
    pub open spec fn with_last(self, row: KeyValueRow) -> QueryModel {
        QueryModel {
            last_namespace: Some(row.namespace@),
            last_name: Some(row.name@),
            last_key: Some(row.key@),
            ..self
        }
    }
}

/// One query parameter, present only when its value is.
pub open spec fn optional_param(name: Seq<char>, v: Option<Seq<char>>) -> Seq<(Seq<char>, Seq<char>)> {
    match v {
        Some(x) => seq![(name, x)],
        None => seq![],
    }
}

/// The query parameters of a batch query, in their fixed order.
pub open spec fn query_params(m: QueryModel) -> Seq<(Seq<char>, Seq<char>)> {
    optional_param("namespace"@, m.namespace)
        + optional_param("name"@, m.name)
        + optional_param("key"@, m.key)
        + optional_param("value"@, m.value)
        + optional_param("last_namespace"@, m.last_namespace)
        + optional_param("last_name"@, m.last_name)
        + optional_param("last_key"@, m.last_key)
        + optional_param("size"@, match m.size {
            Some(n) => Some(decimal(n as nat)),
            None => None,
        })
}

/// The place of a query parameter: the parameters of a batch query come in
/// this order; a name that is none of them comes last.
pub open spec fn param_rank(name: Seq<char>) -> int {
    if name == "namespace"@ {
        0
    } else if name == "name"@ {
        1
    } else if name == "key"@ {
        2
    } else if name == "value"@ {
        3
    } else if name == "last_namespace"@ {
        4
    } else if name == "last_name"@ {
        5
    } else if name == "last_key"@ {
        6
    } else if name == "size"@ {
        7
    } else {
        8
    }
}

/// The parameters carry `name` with the value `v`: the pair `(name, x)` is
/// among them exactly when `v` is `Some(x)`.
pub open spec fn carries(params: Seq<(Seq<char>, Seq<char>)>, name: Seq<char>, v: Option<Seq<char>>) -> bool {
    forall|x: Seq<char>| #[trigger] params.contains((name, x)) <==> v == Some(x)
}

/// The parameters come in strictly increasing place, so that none comes
/// twice.
pub open spec fn ranked(params: Seq<(Seq<char>, Seq<char>)>) -> bool {
    forall|i: int, j: int|
        0 <= i < j < params.len() ==> param_rank(#[trigger] params[i].0) < param_rank(#[trigger] params[j].0)
}

/// Appending a parameter of a later place than all of `s` keeps the order,
/// carries that parameter, and leaves every other name as `s` carries it.
proof fn lemma_append_param(s: Seq<(Seq<char>, Seq<char>)>, name: Seq<char>, v: Option<Seq<char>>)
    requires
        ranked(s),
        forall|i: int| 0 <= i < s.len() ==> param_rank(#[trigger] s[i].0) < param_rank(name),
    ensures
        ranked(s + optional_param(name, v)),
        forall|i: int|
            0 <= i < (s + optional_param(name, v)).len() ==> param_rank(
                #[trigger] (s + optional_param(name, v))[i].0,
            ) <= param_rank(name),
        carries(s + optional_param(name, v), name, v),
        forall|other: Seq<char>, x: Seq<char>|
            other != name ==> ((#[trigger] (s + optional_param(name, v)).contains((other, x))) <==> s.contains(
                (other, x),
            )),
{
    let t = s + optional_param(name, v);
    match v {
        Some(y) => {
            assert(t =~= s.push((name, y)));
            assert forall|x: Seq<char>| #[trigger] t.contains((name, x)) <==> v == Some(x) by {
                if t.contains((name, x)) {
                    let i = choose|i: int| 0 <= i < t.len() && t[i] == (name, x);
                    if i < s.len() {
                        assert(param_rank(s[i].0) < param_rank(name));
                    }
                }
                if v == Some(x) {
                    assert(t[s.len() as int] == (name, x));
                }
            }
            assert forall|other: Seq<char>, x: Seq<char>|
                other != name implies (#[trigger] t.contains((other, x))) <==> s.contains((other, x)) by {
                if t.contains((other, x)) {
                    let i = choose|i: int| 0 <= i < t.len() && t[i] == (other, x);
                    assert(s[i] == (other, x));
                }
                if s.contains((other, x)) {
                    let i = choose|i: int| 0 <= i < s.len() && s[i] == (other, x);
                    assert(t[i] == (other, x));
                }
            }
        },
        None => {
            assert(t =~= s);
            assert forall|x: Seq<char>| #[trigger] t.contains((name, x)) <==> v == Some(x) by {
                if t.contains((name, x)) {
                    let i = choose|i: int| 0 <= i < t.len() && t[i] == (name, x);
                    assert(param_rank(s[i].0) < param_rank(name));
                }
            }
        },
    }
}

/// Every field of a batch query reaches the query parameters, under its own
/// name and with its own value: `namespace`, `name`, `key`, `value`,
/// `last_namespace`, `last_name` and `last_key` are carried exactly when the
/// field is set, with its text, and `size` with the decimal text of the size.
/// The parameters come in that order, each at most once, and there are no
/// others.
pub proof fn lemma_query_params_carry_fields(m: QueryModel)
    ensures
        carries(query_params(m), "namespace"@, m.namespace),
        carries(query_params(m), "name"@, m.name),
        carries(query_params(m), "key"@, m.key),
        carries(query_params(m), "value"@, m.value),
        carries(query_params(m), "last_namespace"@, m.last_namespace),
        carries(query_params(m), "last_name"@, m.last_name),
        carries(query_params(m), "last_key"@, m.last_key),
        carries(
            query_params(m),
            "size"@,
            match m.size {
                Some(n) => Some(decimal(n as nat)),
                None => None,
            },
        ),
        ranked(query_params(m)),
        forall|i: int| 0 <= i < query_params(m).len() ==> param_rank(#[trigger] query_params(m)[i].0) < 8,
{
    reveal_strlit("namespace");
    reveal_strlit("name");
    reveal_strlit("key");
    reveal_strlit("value");
    reveal_strlit("last_namespace");
    reveal_strlit("last_name");
    reveal_strlit("last_key");
    reveal_strlit("size");
    assert("namespace"@.len() == 9 && "name"@.len() == 4 && "key"@.len() == 3 && "value"@.len() == 5);
    assert("last_namespace"@.len() == 14 && "last_name"@.len() == 9 && "last_key"@.len() == 8);
    assert("size"@.len() == 4);
    assert("namespace"@[0] != "last_name"@[0]);
    assert("name"@[0] != "size"@[0]);
    assert(param_rank("namespace"@) == 0);
    assert(param_rank("name"@) == 1);
    assert(param_rank("key"@) == 2);
    assert(param_rank("value"@) == 3);
    assert(param_rank("last_namespace"@) == 4);
    assert(param_rank("last_name"@) == 5);
    assert(param_rank("last_key"@) == 6);
    assert(param_rank("size"@) == 7);
    let size_text = match m.size {
        Some(n) => Some(decimal(n as nat)),
        None => None,
    };
    let s0 = Seq::<(Seq<char>, Seq<char>)>::empty();
    assert(s0 + optional_param("namespace"@, m.namespace) =~= optional_param("namespace"@, m.namespace));
    lemma_append_param(s0, "namespace"@, m.namespace);
    let s1 = optional_param("namespace"@, m.namespace);
    lemma_append_param(s1, "name"@, m.name);
    let s2 = s1 + optional_param("name"@, m.name);
    lemma_append_param(s2, "key"@, m.key);
    let s3 = s2 + optional_param("key"@, m.key);
    lemma_append_param(s3, "value"@, m.value);
    let s4 = s3 + optional_param("value"@, m.value);
    lemma_append_param(s4, "last_namespace"@, m.last_namespace);
    let s5 = s4 + optional_param("last_namespace"@, m.last_namespace);
    lemma_append_param(s5, "last_name"@, m.last_name);
    let s6 = s5 + optional_param("last_name"@, m.last_name);
    lemma_append_param(s6, "last_key"@, m.last_key);
    let s7 = s6 + optional_param("last_key"@, m.last_key);
    lemma_append_param(s7, "size"@, size_text);
    let s8 = s7 + optional_param("size"@, size_text);
    assert(s8 == query_params(m));
}

/// The view of a list of string pairs.
pub open spec fn pairs_view(v: Seq<(String, String)>) -> Seq<(Seq<char>, Seq<char>)> {
    v.map_values(|p: (String, String)| (p.0@, p.1@))
}

/// Builder of the HTTP query of a batch read.
pub struct QueryBuilder {
    namespace: Option<String>,
    name: Option<String>,
    key: Option<String>,
    value: Option<String>,
    last_namespace: Option<String>,
    last_name: Option<String>,
    last_key: Option<String>,
    size: Option<usize>,
}

impl View for QueryBuilder {
    type V = QueryModel;

    closed spec fn view(&self) -> QueryModel {
        QueryModel {
            namespace: opt_str_view(self.namespace),
            name: opt_str_view(self.name),
            key: opt_str_view(self.key),
            value: opt_str_view(self.value),
            last_namespace: opt_str_view(self.last_namespace),
            last_name: opt_str_view(self.last_name),
            last_key: opt_str_view(self.last_key),
            size: self.size,
        }
    }
}

impl Default for QueryBuilder {
    /// The empty query.
    fn default() -> (r: Self)
        ensures
            r@ == QueryModel::empty(),
    {
        QueryBuilder {
            namespace: None,
            name: None,
            key: None,
            value: None,
            last_namespace: None,
            last_name: None,
            last_key: None,
            size: None,
        }
    }
}

/// Appends a parameter when its value is present.
fn push_param(query: &mut Vec<(String, String)>, name: &str, v: &Option<String>)
    ensures
        pairs_view(final(query)@) == pairs_view(old(query)@) + optional_param(name@, opt_str_view(*v)),
{
    let ghost before = query@;
    if let Some(x) = v {
        query.push((name.to_owned(), x.clone()));
        assert(pairs_view(query@) =~= pairs_view(before) + seq![(name@, x@)]);
    } else {
        assert(pairs_view(query@) =~= pairs_view(before) + Seq::<(Seq<char>, Seq<char>)>::empty());
    }
}

impl QueryBuilder {
    /// The empty query.
    pub fn new() -> (r: QueryBuilder)
        ensures
            r@ == QueryModel::empty(),
    {
        Self::default()
    }

    /// Take the selection of `selector`.
    pub fn selector(self, selector: &KeyValueSelector) -> (r: Self)
        ensures
            r@ == self@.with_selector(*selector),
            r@.namespace == selector@.namespace,
            r@.name == selector@.name,
            r@.key == selector@.key,
            r@.value == selector@.value,
            r@.last_namespace == self@.last_namespace,
            r@.last_name == self@.last_name,
            r@.last_key == self@.last_key,
            r@.size == self@.size,
    {
        let mut s = self;
        s.namespace = clone_opt_string(&selector.namespace);
        s.name = clone_opt_string(&selector.name);
        s.key = clone_opt_string(&selector.key);
        s.value = clone_opt_string(&selector.value);
        s
    }

    /// Resume after the row `kvr`.
    pub fn last(self, kvr: &KeyValueRow) -> (r: Self)
        ensures
            r@ == self@.with_last(*kvr),
            r@.last_namespace == Some(kvr.namespace@),
            r@.last_name == Some(kvr.name@),
            r@.last_key == Some(kvr.key@),
            r@.namespace == self@.namespace,
            r@.name == self@.name,
            r@.key == self@.key,
            r@.value == self@.value,
            r@.size == self@.size,
    {
        let mut s = self;
        s.last_namespace = Some(kvr.namespace.clone());
        s.last_name = Some(kvr.name.clone());
        s.last_key = Some(kvr.key.clone());
        s
    }

    /// Set the batch size.
    pub fn size(self, size: usize) -> (r: Self)
        ensures
            r@ == (QueryModel { size: Some(size), ..self@ }),
    {
        let mut s = self;
        s.size = Some(size);
        s
    }

    /// The query parameters, in their fixed order, each present only when set.
    pub fn build(self) -> (r: Vec<(String, String)>)
        ensures
            pairs_view(r@) == query_params(self@),
            carries(pairs_view(r@), "namespace"@, self@.namespace),
            carries(pairs_view(r@), "name"@, self@.name),
            carries(pairs_view(r@), "key"@, self@.key),
            carries(pairs_view(r@), "value"@, self@.value),
            carries(pairs_view(r@), "last_namespace"@, self@.last_namespace),
            carries(pairs_view(r@), "last_name"@, self@.last_name),
            carries(pairs_view(r@), "last_key"@, self@.last_key),
            carries(
                pairs_view(r@),
                "size"@,
                match self@.size {
                    Some(n) => Some(decimal(n as nat)),
                    None => None,
                },
            ),
            ranked(pairs_view(r@)),
    {
        proof {
            lemma_query_params_carry_fields(self@);
        }
        let mut query = Vec::<(String, String)>::new();
        assert(pairs_view(query@) =~= Seq::empty());
        push_param(&mut query, "namespace", &self.namespace);
        push_param(&mut query, "name", &self.name);
        push_param(&mut query, "key", &self.key);
        push_param(&mut query, "value", &self.value);
        push_param(&mut query, "last_namespace", &self.last_namespace);
        push_param(&mut query, "last_name", &self.last_name);
        push_param(&mut query, "last_key", &self.last_key);
        let size_text = match self.size {
            Some(n) => Some(usize_to_string(n)),
            None => None,
        };
        push_param(&mut query, "size", &size_text);
        query
    }
}

} // verus!
