//! The rename table: which store keys are exported under another name.

use vstd::prelude::*;
use crate::export::ExportModel;

verus! {

/// A list of string pairs, seen as pairs of character sequences.
pub open spec fn pairs_view(v: Seq<(String, String)>) -> Seq<(Seq<char>, Seq<char>)> {
    v.map_values(|p: (String, String)| p@)
}

/// The rename entry of one export, `(store key, variable)`, present only
/// where the export names its store key explicitly.
pub open spec fn alias_entry(m: ExportModel) -> Option<(Seq<char>, Seq<char>)> {
    match m.param {
        Some(p) => Some((p, m.env)),
        None => None,
    }
}

/// The rename table of a list of exports, in their order.
pub open spec fn alias_pairs(specs: Seq<ExportModel>) -> Seq<(Seq<char>, Seq<char>)> {
    specs.filter_map(|m: ExportModel| alias_entry(m))
}

/// The name under which `key` is exported: the variable of the last entry
/// for `key` in the table, or `key` itself when the table has none.
pub open spec fn rename_in(table: Seq<(Seq<char>, Seq<char>)>, key: Seq<char>) -> Seq<char>
    decreases table.len(),
{
    if table.len() == 0 {
        key
    } else if table.last().0 == key {
        table.last().1
    } else {
        rename_in(table.drop_last(), key)
    }
}

/// Looks `key` up in the rename table.
pub fn renamed(table: &Vec<(String, String)>, key: &String) -> (r: String)
    ensures
        r@ == rename_in(pairs_view(table@), key@),
{
    let ghost t = pairs_view(table@);
    let mut i: usize = table.len();
    assert(t.take(i as int) =~= t);
    while i > 0
        invariant
            i <= table@.len(),
            t == pairs_view(table@),
            rename_in(t, key@) == rename_in(t.take(i as int), key@),
        decreases i,
    {
        let j = i - 1;
        assert(t.take(i as int).drop_last() =~= t.take(j as int));
        if table[j].0 == *key {
            return table[j].1.clone();
        }
        i = j;
    }
    key.clone()
}

/// A key that no export names explicitly is exported under its own name:
/// an export without an alias leaves the store key unchanged.
pub proof fn lemma_unaliased_key_kept(specs: Seq<ExportModel>, i: int)
    requires
        0 <= i < specs.len(),
        specs[i].param is None,
        forall|j: int| 0 <= j < specs.len() ==> specs[j].param != Some(specs[i].env),
    ensures
        rename_in(alias_pairs(specs), specs[i].store_key()) == specs[i].store_key(),
{
    lemma_no_alias_kept(specs, specs[i].env);
}

proof fn lemma_no_alias_kept(specs: Seq<ExportModel>, key: Seq<char>)
    requires
        forall|j: int| 0 <= j < specs.len() ==> specs[j].param != Some(key),
    ensures
        rename_in(alias_pairs(specs), key) == key,
    decreases specs.len(),
{
    if specs.len() > 0 {
        let rest = specs.drop_last();
        lemma_no_alias_kept(rest, key);
        assert(specs.last() == specs[specs.len() - 1]);
        let ap = alias_pairs(rest);
        match alias_entry(specs.last()) {
            Some(e) => {
                assert(alias_pairs(specs) == ap + seq![e]);
                assert((ap + seq![e]).drop_last() =~= ap);
            },
            None => {},
        }
    }
}

/// An export with an alias is exported under that alias, whatever the text
/// of its store key, unless a later export names the same key.
pub proof fn lemma_alias_overrides(specs: Seq<ExportModel>, i: int)
    requires
        0 <= i < specs.len(),
        specs[i].param is Some,
        forall|j: int| i < j < specs.len() ==> specs[j].param != specs[i].param,
    ensures
        rename_in(alias_pairs(specs), specs[i].store_key()) == specs[i].env,
    decreases specs.len(),
{
    let rest = specs.drop_last();
    let ap = alias_pairs(rest);
    let last = specs.last();
    assert(last == specs[specs.len() - 1]);
    if i < specs.len() - 1 {
        assert forall|j: int| i < j < rest.len() implies rest[j].param != rest[i].param by {
            assert(rest[j] == specs[j]);
        }
        assert(rest[i] == specs[i]);
        lemma_alias_overrides(rest, i);
    }
    match alias_entry(last) {
        Some(e) => {
            assert(alias_pairs(specs) == ap + seq![e]);
            assert((ap + seq![e]).drop_last() =~= ap);
        },
        None => {},
    }
}

} // verus!
