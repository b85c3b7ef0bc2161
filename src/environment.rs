//! The child's environment and the tool's exit code.

use vstd::prelude::*;
use crate::rename::pairs_view;

verus! {

/// The variables a list of pairs defines; a later pair overrides an earlier
/// one with the same name.
pub open spec fn to_map(s: Seq<(Seq<char>, Seq<char>)>) -> Map<Seq<char>, Seq<char>>
    decreases s.len(),
{
    if s.len() == 0 {
        Map::empty()
    } else {
        to_map(s.drop_last()).insert(s.last().0, s.last().1)
    }
}

/// No name occurs twice.
pub open spec fn unique_names(s: Seq<(Seq<char>, Seq<char>)>) -> bool {
    forall|i: int, j: int| 0 <= i < j < s.len() ==> s[i].0 != s[j].0
}

/// The environment the child sees: the inherited variables, or none when
/// `ignore` is set, overridden by the resolved ones.
pub open spec fn child_env_map(
    inherited: Seq<(Seq<char>, Seq<char>)>,
    ignore: bool,
    resolved: Seq<(Seq<char>, Seq<char>)>,
) -> Map<Seq<char>, Seq<char>> {
    if ignore {
        to_map(resolved)
    } else {
        to_map(inherited).union_prefer_right(to_map(resolved))
    }
}

proof fn lemma_update_unique(s: Seq<(Seq<char>, Seq<char>)>, i: int, v: Seq<char>)
    requires
        unique_names(s),
        0 <= i < s.len(),
    ensures
        to_map(s.update(i, (s[i].0, v))) == to_map(s).insert(s[i].0, v),
    decreases s.len(),
{
    let t = s.update(i, (s[i].0, v));
    if i == s.len() - 1 {
        assert(t.drop_last() =~= s.drop_last());
        assert(to_map(t) =~= to_map(s).insert(s[i].0, v));
    } else {
        let r = s.drop_last();
        lemma_update_unique(r, i, v);
        assert(t.drop_last() =~= r.update(i, (s[i].0, v)));
        assert(s.last().0 != s[i].0);
        assert(to_map(t) =~= to_map(s).insert(s[i].0, v));
    }
}

/// Sets `name` to `value` in a list of pairs with unique names.
fn set_var(env: &mut Vec<(String, String)>, name: &String, value: &String)
    requires
        unique_names(pairs_view(old(env)@)),
    ensures
        unique_names(pairs_view(final(env)@)),
        to_map(pairs_view(final(env)@)) == to_map(pairs_view(old(env)@)).insert(name@, value@),
{
    let ghost before = pairs_view(env@);
    let mut i: usize = 0;
    while i < env.len()
        invariant
            i <= env@.len(),
            before == pairs_view(env@),
            before == pairs_view(old(env)@),
            unique_names(before),
            forall|j: int| 0 <= j < i ==> before[j].0 != name@,
        decreases env@.len() - i,
    {
        if env[i].0 == *name {
            let ghost k = before[i as int].0;
            assert(before[i as int] == env@[i as int]@);
            assert(k == name@);
            env.set(i, (name.clone(), value.clone()));
            proof {
                lemma_update_unique(before, i as int, value@);
                assert(pairs_view(env@) =~= before.update(i as int, (k, value@)));
            }
            return;
        }
        i = i + 1;
    }
    env.push((name.clone(), value.clone()));
    assert(pairs_view(env@) =~= before.push((name@, value@)));
    assert(pairs_view(env@).drop_last() =~= before);
}

/// Applies every pair of `vars`, in order.
fn set_all(env: &mut Vec<(String, String)>, vars: &Vec<(String, String)>)
    requires
        unique_names(pairs_view(old(env)@)),
    ensures
        unique_names(pairs_view(final(env)@)),
        to_map(pairs_view(final(env)@)) == to_map(pairs_view(old(env)@)).union_prefer_right(
            to_map(pairs_view(vars@)),
        ),
{
    let ghost start = to_map(pairs_view(env@));
    let ghost all = pairs_view(vars@);
    let mut i: usize = 0;
    assert(start.union_prefer_right(to_map(all.take(0))) =~= start);
    while i < vars.len()
        invariant
            i <= vars@.len(),
            all == pairs_view(vars@),
            unique_names(pairs_view(env@)),
            to_map(pairs_view(env@)) == start.union_prefer_right(to_map(all.take(i as int))),
        decreases vars@.len() - i,
    {
        let ghost upto = all.take(i + 1);
        assert(upto.drop_last() =~= all.take(i as int));
        assert(upto.last() == vars@[i as int]@);
        set_var(env, &vars[i].0, &vars[i].1);
        assert(to_map(pairs_view(env@)) =~= start.union_prefer_right(to_map(upto)));
        i = i + 1;
    }
    assert(all.take(i as int) =~= all);
}

/// The complete environment of the child, each name once: the inherited
/// variables unless `ignore` is set, with the resolved ones applied over them.
pub fn child_environment(
    inherited: &Vec<(String, String)>,
    ignore: bool,
    resolved: &Vec<(String, String)>,
) -> (r: Vec<(String, String)>)
    ensures
        unique_names(pairs_view(r@)),
        to_map(pairs_view(r@)) == child_env_map(pairs_view(inherited@), ignore, pairs_view(resolved@)),
{
    let mut env: Vec<(String, String)> = Vec::new();
    assert(to_map(pairs_view(env@)) =~= Map::empty());
    if !ignore {
        set_all(&mut env, inherited);
        assert(Map::<Seq<char>, Seq<char>>::empty().union_prefer_right(to_map(pairs_view(inherited@)))
            =~= to_map(pairs_view(inherited@)));
    } else {
        assert(Map::<Seq<char>, Seq<char>>::empty().union_prefer_right(to_map(pairs_view(resolved@)))
            =~= to_map(pairs_view(resolved@)));
    }
    set_all(&mut env, resolved);
    env
}

/// With `ignore` set the child sees only resolved variables; without it,
/// every inherited variable stays visible, with its inherited value unless a
/// resolved variable has the same name.
pub proof fn lemma_inherited_visibility(
    inherited: Seq<(Seq<char>, Seq<char>)>,
    resolved: Seq<(Seq<char>, Seq<char>)>,
    name: Seq<char>,
)
    ensures
        child_env_map(inherited, true, resolved).dom().contains(name) ==> to_map(
            resolved,
        ).dom().contains(name),
        to_map(inherited).dom().contains(name) ==> child_env_map(
            inherited,
            false,
            resolved,
        ).dom().contains(name),
        to_map(inherited).dom().contains(name) && !to_map(resolved).dom().contains(name)
            ==> child_env_map(inherited, false, resolved)[name] == to_map(inherited)[name],
        to_map(resolved).dom().contains(name) ==> child_env_map(inherited, false, resolved)[name]
            == to_map(resolved)[name],
{
}

/// The tool's exit code for the child's exit status: the child's own code
/// where it is a byte, 1 where the child gave none (killed by a signal) or
/// one outside that range.
pub fn exit_code(code: Option<i32>) -> (r: u8)
    ensures
        r == match code {
            Some(c) => if 0 <= c <= 255 { c as u8 } else { 1u8 },
            None => 1u8,
        },
{
    match code {
        Some(c) => if 0 <= c && c <= 255 { c as u8 } else { 1 },
        None => 1,
    }
}

} // verus!
