//! The parsed invocation and what it asks of the store.

use vstd::prelude::*;
use crate::export::{Export, ExportModel};
use crate::rename::{alias_entry, alias_pairs, pairs_view};

verus! {

/// What the tool was asked to do.
pub struct Args {
    /// Request values without decrypting secure strings.
    pub no_decrypt: bool,
    /// Start the child with an empty environment.
    pub ignore: bool,
    /// Exports given as `NAME[:ENV]`.
    pub param: Vec<Export>,
    /// Exports given as `ENV[=PARAM]`.
    pub export: Vec<Export>,
    /// Path prefixes whose parameters are all exported.
    pub export_path: Vec<String>,
    /// The command to run.
    pub utility: String,
    /// The arguments passed to the command.
    pub arguments: Vec<String>,
}

/// A list of strings, seen as character sequences.
pub open spec fn strings_view(v: Seq<String>) -> Seq<Seq<char>> {
    v.map_values(|s: String| s@)
}

/// A list of exports, seen through their views.
pub open spec fn exports_view(v: Seq<Export>) -> Seq<ExportModel> {
    v.map_values(|e: Export| e@)
}

/// The store keys of a list of exports, in order.
pub open spec fn store_keys(specs: Seq<ExportModel>) -> Seq<Seq<char>> {
    specs.map_values(|m: ExportModel| m.store_key())
}

/// The keys worth requesting: the non-empty elements of `s` without
/// repeats, each at its first occurrence. The store holds no empty key.
pub open spec fn distinct_keys(s: Seq<Seq<char>>) -> Seq<Seq<char>>
    decreases s.len(),
{
    if s.len() == 0 {
        Seq::empty()
    } else {
        let d = distinct_keys(s.drop_last());
        if s.last().len() == 0 || d.contains(s.last()) {
            d
        } else {
            d.push(s.last())
        }
    }
}

impl Args {
    /// All exports: those given as `NAME[:ENV]`, then those given as `ENV[=PARAM]`.
    pub open spec fn specs(&self) -> Seq<ExportModel> {
        exports_view(self.param@) + exports_view(self.export@)
    }

    /// Nothing names a key or a path, so every visible parameter is fetched.
    pub open spec fn enumerates(&self) -> bool {
        self.param@.len() == 0 && self.export@.len() == 0 && self.export_path@.len() == 0
    }

    /// The store keys to request by name, each once, in order of first
    /// mention; an empty key is not requested.
    pub fn parameter_names(&self) -> (r: Vec<String>)
        ensures
            strings_view(r@) == distinct_keys(store_keys(self.specs())),
    {
        let mut keys: Vec<String> = Vec::new();
        push_keys(&mut keys, &self.param);
        push_keys(&mut keys, &self.export);
        assert(store_keys(self.specs()) =~= store_keys(exports_view(self.param@)) + store_keys(
            exports_view(self.export@),
        ));
        dedup(&keys)
    }

    /// The rename table: `(store key, variable)` for each export that names
    /// its store key explicitly, in order.
    pub fn export_names(&self) -> (r: Vec<(String, String)>)
        ensures
            pairs_view(r@) == alias_pairs(self.specs()),
    {
        let mut out: Vec<(String, String)> = Vec::new();
        assert(exports_view(self.param@).take(0) =~= Seq::<ExportModel>::empty());
        assert(pairs_view(out@) =~= alias_pairs(Seq::<ExportModel>::empty()));
        push_aliases(&mut out, &self.param, Ghost(Seq::empty()));
        assert(Seq::<ExportModel>::empty() + exports_view(self.param@) =~= exports_view(
            self.param@,
        ));
        push_aliases(&mut out, &self.export, Ghost(exports_view(self.param@)));
        out
    }

    /// Whether the names to fetch must come from listing the whole store.
    pub fn needs_enumeration(&self) -> (r: bool)
        ensures
            r == self.enumerates(),
    {
        self.param.len() == 0 && self.export.len() == 0 && self.export_path.len() == 0
    }

    /// Whether secure values are requested in plain text.
    pub fn with_decryption(&self) -> (r: bool)
        ensures
            r == !self.no_decrypt,
    {
        !self.no_decrypt
    }
}

fn push_keys(out: &mut Vec<String>, list: &Vec<Export>)
    ensures
        strings_view(final(out)@) == strings_view(old(out)@) + store_keys(exports_view(list@)),
{
    let ghost start = strings_view(out@);
    let mut i: usize = 0;
    while i < list.len()
        invariant
            i <= list@.len(),
            strings_view(out@) == start + store_keys(exports_view(list@)).take(i as int),
        decreases list@.len() - i,
    {
        let k = list[i].store_key();
        let ghost prev = out@;
        out.push(k);
        assert(exports_view(list@)[i as int] == list@[i as int]@);
        assert(strings_view(out@) =~= strings_view(prev).push(k@));
        assert(store_keys(exports_view(list@)).take(i + 1) =~= store_keys(exports_view(list@)).take(
            i as int,
        ).push(k@));
        assert(strings_view(out@) =~= start + store_keys(exports_view(list@)).take(i + 1));
        i = i + 1;
    }
    assert(store_keys(exports_view(list@)).take(i as int) =~= store_keys(exports_view(list@)));
}

fn push_aliases(out: &mut Vec<(String, String)>, list: &Vec<Export>, Ghost(before): Ghost<Seq<ExportModel>>)
    requires
        pairs_view(old(out)@) == alias_pairs(before),
    ensures
        pairs_view(final(out)@) == alias_pairs(before + exports_view(list@)),
{
    let ghost all = before + exports_view(list@);
    let mut i: usize = 0;
    assert(all.take(before.len() as int) =~= before);
    while i < list.len()
        invariant
            i <= list@.len(),
            all == before + exports_view(list@),
            pairs_view(out@) == alias_pairs(all.take(before.len() + i)),
        decreases list@.len() - i,
    {
        let ghost upto = all.take(before.len() + i + 1);
        assert(upto.drop_last() =~= all.take(before.len() + i));
        assert(upto.last() == list[i as int]@);
        match &list[i].param {
            Some(p) => {
                out.push((p.clone(), list[i].env.clone()));
                assert(alias_entry(upto.last()) == Some((p@, list[i as int].env@)));
                assert(pairs_view(out@) =~= alias_pairs(upto));
            },
            None => {
                assert(pairs_view(out@) =~= alias_pairs(upto));
            },
        }
        i = i + 1;
    }
    assert(all.take(before.len() + i) =~= all);
}

fn contains_string(v: &Vec<String>, s: &String) -> (r: bool)
    ensures
        r == strings_view(v@).contains(s@),
{
    let mut i: usize = 0;
    while i < v.len()
        invariant
            i <= v@.len(),
            forall|j: int| 0 <= j < i ==> v@[j]@ != s@,
        decreases v@.len() - i,
    {
        if v[i] == *s {
            assert(strings_view(v@)[i as int] == s@);
            return true;
        }
        i = i + 1;
    }
    assert(!strings_view(v@).contains(s@)) by {
        if strings_view(v@).contains(s@) {
            let j = choose|j: int| 0 <= j < v@.len() && strings_view(v@)[j] == s@;
            assert(v@[j]@ == s@);
        }
    }
    false
}

fn dedup(keys: &Vec<String>) -> (r: Vec<String>)
    ensures
        strings_view(r@) == distinct_keys(strings_view(keys@)),
{
    let ghost all = strings_view(keys@);
    let mut out: Vec<String> = Vec::new();
    let mut i: usize = 0;
    assert(strings_view(out@) =~= distinct_keys(all.take(0)));
    while i < keys.len()
        invariant
            i <= keys@.len(),
            all == strings_view(keys@),
            strings_view(out@) == distinct_keys(all.take(i as int)),
        decreases keys@.len() - i,
    {
        let ghost upto = all.take(i + 1);
        assert(upto.drop_last() =~= all.take(i as int));
        assert(upto.last() == keys@[i as int]@);
        if keys[i].unicode_len() > 0 && !contains_string(&out, &keys[i]) {
            out.push(keys[i].clone());
            assert(strings_view(out@) =~= distinct_keys(upto));
        }
        i = i + 1;
    }
    assert(all.take(i as int) =~= all);
    out
}

} // verus!
