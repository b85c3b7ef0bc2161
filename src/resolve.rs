//! Turning the store's answers into `(variable, value)` pairs.

use vstd::prelude::*;
use crate::environment::to_map;
use crate::rename::{pairs_view, rename_in, renamed};
use crate::text::{ends_with_char, strip_prefix};

verus! {

/// A parameter as returned by the store: either field may be missing.
#[derive(Debug)]
pub struct StoreParameter {
    pub name: Option<String>,
    pub value: Option<String>,
}

/// The value of a [`StoreParameter`] over character sequences.
pub struct ParameterModel {
    pub name: Option<Seq<char>>,
    pub value: Option<Seq<char>>,
}

/// An optional string, seen as an optional character sequence.
pub open spec fn opt_view(o: Option<String>) -> Option<Seq<char>> {
    match o {
        Some(s) => Some(s@),
        None => None,
    }
}

/// An optional pair of strings, seen as an optional pair of sequences.
pub open spec fn opt_pair_view(o: Option<(String, String)>) -> Option<(Seq<char>, Seq<char>)> {
    match o {
        Some(p) => Some(p@),
        None => None,
    }
}

impl View for StoreParameter {
    type V = ParameterModel;

    open spec fn view(&self) -> ParameterModel {
        ParameterModel { name: opt_view(self.name), value: opt_view(self.value) }
    }
}

/// A list of parameters, seen through their views.
pub open spec fn parameters_view(v: Seq<StoreParameter>) -> Seq<ParameterModel> {
    v.map_values(|p: StoreParameter| p@)
}

/// The pair a parameter fetched by name contributes: its key renamed through
/// the table, and its value. Nothing when the name or the value is missing.
pub open spec fn named_entry(p: ParameterModel, table: Seq<(Seq<char>, Seq<char>)>) -> Option<
    (Seq<char>, Seq<char>),
> {
    match (p.name, p.value) {
        (Some(n), Some(v)) => Some((rename_in(table, n), v)),
        _ => None,
    }
}

/// The prefix that is stripped from keys found under `path`: the path,
/// ending with one separator.
pub open spec fn normalized_prefix(path: Seq<char>) -> Seq<char> {
    if path.len() > 0 && path.last() == '/' {
        path
    } else {
        path.push('/')
    }
}

/// The variable name of a key found under `path`: the key without the
/// normalized prefix, or the whole key where it does not start with it.
pub open spec fn path_export_name(path: Seq<char>, key: Seq<char>) -> Seq<char> {
    let prefix = normalized_prefix(path);
    if prefix.is_prefix_of(key) {
        key.skip(prefix.len() as int)
    } else {
        key
    }
}

/// The pair a parameter found under `path` contributes.
pub open spec fn path_entry(p: ParameterModel, path: Seq<char>) -> Option<(Seq<char>, Seq<char>)> {
    match (p.name, p.value) {
        (Some(n), Some(v)) => Some((path_export_name(path, n), v)),
        _ => None,
    }
}

/// The pairs contributed by parameters fetched by name, in order.
pub open spec fn named_pairs(params: Seq<ParameterModel>, table: Seq<(Seq<char>, Seq<char>)>) -> Seq<
    (Seq<char>, Seq<char>),
> {
    params.filter_map(|p: ParameterModel| named_entry(p, table))
}

/// The pairs contributed by parameters found under `path`, in order.
pub open spec fn path_pairs(params: Seq<ParameterModel>, path: Seq<char>) -> Seq<
    (Seq<char>, Seq<char>),
> {
    params.filter_map(|p: ParameterModel| path_entry(p, path))
}

/// A requested key that the store does not return leaves its variable out
/// of the result, unless another returned key is exported under the same name.
pub proof fn lemma_missing_key_absent(
    params: Seq<ParameterModel>,
    table: Seq<(Seq<char>, Seq<char>)>,
    key: Seq<char>,
)
    requires
        forall|j: int|
            0 <= j < params.len() && #[trigger] params[j].name is Some ==> rename_in(
                table,
                params[j].name->0,
            ) != rename_in(table, key),
    ensures
        !to_map(named_pairs(params, table)).dom().contains(rename_in(table, key)),
    decreases params.len(),
{
    if params.len() > 0 {
        let rest = params.drop_last();
        assert forall|j: int|
            0 <= j < rest.len() && #[trigger] rest[j].name is Some implies rename_in(
                table,
                rest[j].name->0,
            ) != rename_in(table, key) by {
            assert(rest[j] == params[j]);
        }
        lemma_missing_key_absent(rest, table, key);
        let last = params.last();
        assert(last == params[params.len() - 1]);
        match named_entry(last, table) {
            Some(e) => {
                assert(named_pairs(params, table) == named_pairs(rest, table) + seq![e]);
                let s = named_pairs(params, table);
                assert(s.drop_last() =~= named_pairs(rest, table));
            },
            None => {},
        }
    }
}

/// The pair for one parameter fetched by name.
pub fn filter_export(param: &StoreParameter, exports: &Vec<(String, String)>) -> (r: Option<
    (String, String),
>)
    ensures
        opt_pair_view(r) == named_entry(param@, pairs_view(exports@)),
{
    match (&param.name, &param.value) {
        (Some(name), Some(value)) => Some((renamed(exports, name), value.clone())),
        _ => None,
    }
}

/// The prefix stripped from keys found under `path`.
pub fn path_prefix(path: &str) -> (r: String)
    ensures
        r@ == normalized_prefix(path@),
{
    let mut prefix = path.to_owned();
    if !ends_with_char(path, '/') {
        proof {
            reveal_strlit("/");
        }
        prefix.append("/");
    }
    prefix
}

/// The pair for one parameter found under `path`.
pub fn filter_export_path(param: &StoreParameter, path: &str) -> (r: Option<(String, String)>)
    ensures
        opt_pair_view(r) == path_entry(param@, path@),
{
    match (&param.name, &param.value) {
        (Some(name), Some(value)) => {
            let prefix = path_prefix(path);
            let env = match strip_prefix(name.as_str(), prefix.as_str()) {
                Some(rest) => rest,
                None => name.clone(),
            };
            Some((env, value.clone()))
        },
        _ => None,
    }
}

/// The pairs for parameters fetched by name: each complete parameter,
/// renamed through the table; incomplete ones are left out.
pub fn resolve_named(params: &Vec<StoreParameter>, exports: &Vec<(String, String)>) -> (r: Vec<
    (String, String),
>)
    ensures
        pairs_view(r@) == named_pairs(parameters_view(params@), pairs_view(exports@)),
{
    let ghost all = parameters_view(params@);
    let ghost table = pairs_view(exports@);
    let mut out: Vec<(String, String)> = Vec::new();
    let mut i: usize = 0;
    assert(pairs_view(out@) =~= named_pairs(all.take(0), table));
    while i < params.len()
        invariant
            i <= params@.len(),
            all == parameters_view(params@),
            table == pairs_view(exports@),
            pairs_view(out@) == named_pairs(all.take(i as int), table),
        decreases params@.len() - i,
    {
        let ghost upto = all.take(i + 1);
        assert(upto.drop_last() =~= all.take(i as int));
        assert(upto.last() == params@[i as int]@);
        match filter_export(&params[i], exports) {
            Some(pair) => {
                out.push(pair);
                assert(pairs_view(out@) =~= named_pairs(upto, table));
            },
            None => {
                assert(pairs_view(out@) =~= named_pairs(upto, table));
            },
        }
        i = i + 1;
    }
    assert(all.take(i as int) =~= all);
    out
}

/// The pairs for parameters found under `path`: each complete parameter,
/// named by its key without the path; incomplete ones are left out.
pub fn resolve_path(params: &Vec<StoreParameter>, path: &str) -> (r: Vec<(String, String)>)
    ensures
        pairs_view(r@) == path_pairs(parameters_view(params@), path@),
{
    let ghost all = parameters_view(params@);
    let mut out: Vec<(String, String)> = Vec::new();
    let mut i: usize = 0;
    assert(pairs_view(out@) =~= path_pairs(all.take(0), path@));
    while i < params.len()
        invariant
            i <= params@.len(),
            all == parameters_view(params@),
            pairs_view(out@) == path_pairs(all.take(i as int), path@),
        decreases params@.len() - i,
    {
        let ghost upto = all.take(i + 1);
        assert(upto.drop_last() =~= all.take(i as int));
        assert(upto.last() == params@[i as int]@);
        match filter_export_path(&params[i], path) {
            Some(pair) => {
                out.push(pair);
                assert(pairs_view(out@) =~= path_pairs(upto, path@));
            },
            None => {
                assert(pairs_view(out@) =~= path_pairs(upto, path@));
            },
        }
        i = i + 1;
    }
    assert(all.take(i as int) =~= all);
    out
}

} // verus!
