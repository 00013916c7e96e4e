//! Queries over the list of session names: which are device names, and
//! where a name stands.

use vstd::prelude::*;
use crate::naming::{
    is_device_name, is_device_name_of, is_input_device_name, is_input_device_name_of,
    is_output_device_name, is_output_device_name_of,
};
use crate::text::string_eq;

verus! {

/// The views of a sequence of strings.
pub open spec fn string_views(v: Seq<String>) -> Seq<Seq<char>> {
    v.map_values(|s: String| s@)
}

/// The name filter selected by `which`: device names (0), output device
/// names (1), or input device names (otherwise).
pub open spec fn name_class(which: u8, n: Seq<char>) -> bool {
    if which == 0 {
        is_device_name(n)
    } else if which == 1 {
        is_output_device_name(n)
    } else {
        is_input_device_name(n)
    }
}

/// One more element of a sequence, filtered.
pub proof fn lemma_filter_step<A>(s: Seq<A>, p: spec_fn(A) -> bool, i: int)
    requires
        0 <= i < s.len(),
    ensures
        s.take(i + 1).filter(p) == (if p(s[i]) {
            s.take(i).filter(p).push(s[i])
        } else {
            s.take(i).filter(p)
        }),
{
    reveal(Seq::filter);
    assert(s.take(i + 1).drop_last() =~= s.take(i));
    assert(s.take(i + 1).last() == s[i]);
}

fn names_of_class(names: &Vec<String>, which: u8) -> (r: Vec<String>)
    ensures
        string_views(r@) == string_views(names@).filter(|n: Seq<char>| name_class(which, n)),
{
    let mut r: Vec<String> = Vec::new();
    let n = names.len();
    let ghost all = string_views(names@);
    assert(all.take(0).filter(|n: Seq<char>| name_class(which, n)) =~= Seq::<Seq<char>>::empty())
        by {
        reveal(Seq::filter);
    }
    for i in 0..n
        invariant
            n == names@.len(),
            all == string_views(names@),
            string_views(r@) == all.take(i as int).filter(|n: Seq<char>| name_class(which, n)),
    {
        proof {
            lemma_filter_step(all, |n: Seq<char>| name_class(which, n), i as int);
        }
        let name = &names[i];
        assert(all[i as int] == name@);
        let keep = if which == 0 {
            is_device_name_of(name.as_str())
        } else if which == 1 {
            is_output_device_name_of(name.as_str())
        } else {
            is_input_device_name_of(name.as_str())
        };
        if keep {
            let ghost old_r = r@;
            r.push(name.clone());
            assert(string_views(r@) =~= string_views(old_r).push(name@));
        }
    }
    assert(all.take(n as int) =~= all);
    r
}

/// The device names among `names`, in order: those that begin with
/// `"input: "` or `"output: "`.
pub fn device_names_in(names: &Vec<String>) -> (r: Vec<String>)
    ensures
        string_views(r@) == string_views(names@).filter(|n: Seq<char>| is_device_name(n)),
{
    let r = names_of_class(names, 0);
    assert((|n: Seq<char>| name_class(0, n)) =~= (|n: Seq<char>| is_device_name(n)));
    r
}

/// The output device names among `names`, in order: those that begin with
/// `"output: "`.
pub fn output_device_names_in(names: &Vec<String>) -> (r: Vec<String>)
    ensures
        string_views(r@) == string_views(names@).filter(|n: Seq<char>| is_output_device_name(n)),
{
    let r = names_of_class(names, 1);
    assert((|n: Seq<char>| name_class(1, n)) =~= (|n: Seq<char>| is_output_device_name(n)));
    r
}

/// The input device names among `names`, in order: those that begin with
/// `"input: "`.
pub fn input_device_names_in(names: &Vec<String>) -> (r: Vec<String>)
    ensures
        string_views(r@) == string_views(names@).filter(|n: Seq<char>| is_input_device_name(n)),
{
    let r = names_of_class(names, 2);
    assert((|n: Seq<char>| name_class(2, n)) =~= (|n: Seq<char>| is_input_device_name(n)));
    r
}

/// `i` is the first position of `name` in `names`.
pub open spec fn is_first_position(names: Seq<Seq<char>>, name: Seq<char>, i: int) -> bool {
    &&& 0 <= i < names.len()
    &&& names[i] == name
    &&& forall|j: int| 0 <= j < i ==> names[j] != name
}

/// `name` does not occur in `names`.
pub open spec fn absent(names: Seq<Seq<char>>, name: Seq<char>) -> bool {
    forall|j: int| 0 <= j < names.len() ==> names[j] != name
}

/// The first position of `name` in `names`, if any.
pub fn first_position_of(names: &Vec<String>, name: &str) -> (r: Option<usize>)
    ensures
        match r {
            Some(i) => is_first_position(string_views(names@), name@, i as int),
            None => absent(string_views(names@), name@),
        },
{
    let n = names.len();
    for i in 0..n
        invariant
            n == names@.len(),
            forall|j: int| 0 <= j < i ==> string_views(names@)[j] != name@,
    {
        assert(string_views(names@)[i as int] == names@[i as int]@);
        if string_eq(names[i].as_str(), name) {
            return Some(i);
        }
    }
    None
}

/// The positions below `k` at which `name` occurs in `names`, in order.
pub open spec fn name_positions_below(names: Seq<Seq<char>>, name: Seq<char>, k: int) -> Seq<int> {
    Seq::new(k as nat, |i: int| i).filter(|i: int| names[i] == name)
}

/// One more position considered.
pub proof fn lemma_name_positions_step(names: Seq<Seq<char>>, name: Seq<char>, k: int)
    requires
        0 < k,
    ensures
        name_positions_below(names, name, k) == (if names[k - 1] == name {
            name_positions_below(names, name, k - 1).push(k - 1)
        } else {
            name_positions_below(names, name, k - 1)
        }),
{
    reveal(Seq::filter);
    let idx = Seq::new(k as nat, |i: int| i);
    assert(idx.drop_last() =~= Seq::new((k - 1) as nat, |i: int| i));
}

/// The positions at which `name` occurs in `names`, in order.
pub open spec fn name_positions(names: Seq<Seq<char>>, name: Seq<char>) -> Seq<int> {
    name_positions_below(names, name, names.len() as int)
}

/// The positions at which `name` occurs in `names`, in order.
pub fn positions_of(names: &Vec<String>, name: &str) -> (r: Vec<usize>)
    ensures
        r@.map_values(|i: usize| i as int) == name_positions(string_views(names@), name@),
{
    let mut r: Vec<usize> = Vec::new();
    let n = names.len();
    let ghost all = string_views(names@);
    let ghost idx = Seq::new(all.len(), |i: int| i);
    assert(idx.take(0).filter(|i: int| all[i] == name@) =~= Seq::<int>::empty()) by {
        reveal(Seq::filter);
    }
    for i in 0..n
        invariant
            n == names@.len(),
            all == string_views(names@),
            idx == Seq::new(all.len(), |i: int| i),
            r@.map_values(|i: usize| i as int) == idx.take(i as int).filter(
                |i: int| all[i] == name@,
            ),
    {
        proof {
            lemma_filter_step(idx, |i: int| all[i] == name@, i as int);
        }
        assert(all[i as int] == names@[i as int]@);
        if string_eq(names[i].as_str(), name) {
            let ghost old_r = r@;
            r.push(i);
            assert(r@.map_values(|i: usize| i as int) =~= old_r.map_values(|i: usize| i as int).push(
                i as int,
            ));
        }
    }
    assert(idx.take(n as int) =~= idx);
    r
}

} // verus!
