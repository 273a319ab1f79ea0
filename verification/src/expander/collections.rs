//! Small list and map helpers shared by the expansion steps.

use vstd::prelude::*;

verus! {

/// Joins two optional lists: either list alone survives, and two lists are
/// concatenated in order.
pub open spec fn spec_merge_lists(
    first: Option<Seq<Seq<char>>>,
    second: Option<Seq<Seq<char>>>,
) -> Option<Seq<Seq<char>>> {
    match (first, second) {
        (None, None) => None,
        (Some(l), None) => Some(l),
        (None, Some(l)) => Some(l),
        (Some(l1), Some(l2)) => Some(l1 + l2),
    }
}

pub fn merge_lists(first: Option<Vec<String>>, second: Option<Vec<String>>) -> (r: Option<
    Vec<String>,
>)
    ensures
        r.deep_view() == spec_merge_lists(first.deep_view(), second.deep_view()),
{
    match (first, second) {
        (None, None) => None,
        (Some(l), None) => Some(l),
        (None, Some(l)) => Some(l),
        (Some(l1), Some(l2)) => {
            let ghost v1 = l1.deep_view();
            let ghost v2 = l2.deep_view();
            let mut l1 = l1;
            let mut l2 = l2;
            l1.append(&mut l2);
            proof {
                assert(l1.deep_view() =~~= v1 + v2);
            }
            Some(l1)
        },
    }
}

/// The result of flattening a list of fallible lists: the concatenation of
/// all inner lists in order, or the first error encountered.
pub open spec fn spec_flatten<T, E>(s: Seq<Result<Vec<T>, E>>) -> Result<Seq<T>, E>
    decreases s.len(),
{
    if s.len() == 0 {
        Ok(Seq::empty())
    } else {
        match s[0] {
            Err(e) => Err(e),
            Ok(v) => match spec_flatten(s.drop_first()) {
                Err(e) => Err(e),
                Ok(rest) => Ok(v@ + rest),
            },
        }
    }
}

#[verifier::loop_isolation(false)]
pub fn flatten_or_fail<T, E>(source: Vec<Result<Vec<T>, E>>) -> (r: Result<Vec<T>, E>)
    ensures
        (match (r, spec_flatten(source@)) {
            (Ok(v), Ok(m)) => v@ == m,
            (Err(e), Err(m)) => e == m,
            _ => false,
        }),
{
    let ghost orig = source@;
    let mut source = source;
    let mut result: Vec<T> = Vec::new();
    while source.len() > 0
        invariant
            spec_flatten(orig) == (match spec_flatten(source@) {
                Ok(rest) => Ok::<Seq<T>, E>(result@ + rest),
                Err(e) => Err::<Seq<T>, E>(e),
            }),
        decreases source.len(),
    {
        let ghost pre = source@;
        let ghost acc = result@;
        let v = source.remove(0);
        match v {
            Err(e) => {
                proof {
                    assert(spec_flatten(pre) == Err::<Seq<T>, E>(e));
                }
                return Err(e);
            },
            Ok(mut vals) => {
                let ghost vv = vals@;
                result.append(&mut vals);
                proof {
                    assert(pre.drop_first() =~= source@);
                    if spec_flatten(source@) is Ok {
                        assert(result@ + spec_flatten(source@)->Ok_0 =~= acc + (vv + spec_flatten(
                            source@,
                        )->Ok_0));
                    }
                }
            },
        }
    }
    proof {
        assert(result@ + spec_flatten(source@)->Ok_0 =~= result@);
    }
    Ok(result)
}

/// A single optional value as an optional one-element list.
pub open spec fn spec_vector_of(option: Option<Seq<char>>) -> Option<Seq<Seq<char>>> {
    match option {
        None => None,
        Some(s) => Some(seq![s]),
    }
}

pub fn vector_of(option: Option<&str>) -> (r: Option<Vec<String>>)
    ensures
        r.deep_view() == spec_vector_of(option.deep_view()),
{
    match option {
        None => None,
        Some(val) => {
            let mut v: Vec<String> = Vec::new();
            v.push(val.to_owned());
            proof {
                assert(v.deep_view() =~~= seq![val.deep_view()]);
            }
            Some(v)
        },
    }
}

/// Turns borrowed key/value pairs into owned ones, preserving order.
#[verifier::loop_isolation(false)]
pub fn map_of(values: Vec<(&str, &str)>) -> (r: Vec<(String, String)>)
    ensures
        r.deep_view() == values.deep_view(),
{
    let mut r: Vec<(String, String)> = Vec::new();
    let mut i: usize = 0;
    while i < values.len()
        invariant
            i <= values.len(),
            r.deep_view() =~~= values.deep_view().take(i as int),
        decreases values.len() - i,
    {
        let (k, v) = values[i];
        r.push((k.to_owned(), v.to_owned()));
        proof {
            assert(r.deep_view() =~~= values.deep_view().take(i as int + 1));
        }
        i += 1;
    }
    proof {
        assert(values.deep_view().take(values@.len() as int) =~~= values.deep_view());
    }
    r
}

/// A copy of an optional text value.
pub fn clone_opt_string(v: &Option<String>) -> (r: Option<String>)
    ensures
        r.deep_view() == v.deep_view(),
{
    match v {
        None => None,
        Some(s) => Some(s.clone()),
    }
}

/// A copy of a list of text values.
#[verifier::loop_isolation(false)]
pub fn clone_string_vec(v: &Vec<String>) -> (r: Vec<String>)
    ensures
        r.deep_view() == v.deep_view(),
{
    let mut r: Vec<String> = Vec::new();
    let mut i: usize = 0;
    while i < v.len()
        invariant
            i <= v@.len(),
            r.deep_view() =~~= v.deep_view().take(i as int),
        decreases v@.len() - i,
    {
        r.push(v[i].clone());
        proof {
            assert(r.deep_view() =~~= v.deep_view().take(i as int + 1));
        }
        i += 1;
    }
    proof {
        assert(v.deep_view().take(v@.len() as int) =~~= v.deep_view());
    }
    r
}

/// A copy of an optional list of text values.
pub fn clone_opt_string_vec(v: &Option<Vec<String>>) -> (r: Option<Vec<String>>)
    ensures
        r.deep_view() == v.deep_view(),
{
    match v {
        None => None,
        Some(l) => Some(clone_string_vec(l)),
    }
}

/// A copy of a list of key/value pairs.
#[verifier::loop_isolation(false)]
pub fn clone_pairs(v: &Vec<(String, String)>) -> (r: Vec<(String, String)>)
    ensures
        r.deep_view() == v.deep_view(),
{
    let mut r: Vec<(String, String)> = Vec::new();
    let mut i: usize = 0;
    while i < v.len()
        invariant
            i <= v@.len(),
            r.deep_view() =~~= v.deep_view().take(i as int),
        decreases v@.len() - i,
    {
        r.push((v[i].0.clone(), v[i].1.clone()));
        proof {
            assert(r.deep_view() =~~= v.deep_view().take(i as int + 1));
        }
        i += 1;
    }
    proof {
        assert(v.deep_view().take(v@.len() as int) =~~= v.deep_view());
    }
    r
}

/// A copy of an optional list of key/value pairs.
pub fn clone_opt_pairs(v: &Option<Vec<(String, String)>>) -> (r: Option<Vec<(String, String)>>)
    ensures
        r.deep_view() == v.deep_view(),
{
    match v {
        None => None,
        Some(l) => Some(clone_pairs(l)),
    }
}

/// The value of the first pair whose key reads as `key`.
pub open spec fn spec_lookup_by_key<T>(s: Seq<(String, T)>, key: Seq<char>) -> Option<T>
    decreases s.len(),
{
    if s.len() == 0 {
        None
    } else if s[0].0@ == key {
        Some(s[0].1)
    } else {
        spec_lookup_by_key(s.drop_first(), key)
    }
}

proof fn lemma_lookup_at<T>(s: Seq<(String, T)>, key: Seq<char>, i: int)
    requires
        0 <= i < s.len(),
        s[i].0@ == key,
        forall|j: int| 0 <= j < i ==> s[j].0@ != key,
    ensures
        spec_lookup_by_key(s, key) == Some(s[i].1),
    decreases i,
{
    if i > 0 {
        lemma_lookup_at(s.drop_first(), key, i - 1);
    }
}

proof fn lemma_lookup_none<T>(s: Seq<(String, T)>, key: Seq<char>)
    requires
        forall|j: int| 0 <= j < s.len() ==> s[j].0@ != key,
    ensures
        spec_lookup_by_key(s, key) is None,
    decreases s.len(),
{
    if s.len() > 0 {
        lemma_lookup_none(s.drop_first(), key);
    }
}

/// Finds the first pair keyed by `key` and hands back its value.
#[verifier::loop_isolation(false)]
pub fn lookup_by_key<'a, T>(pairs: &'a Vec<(String, T)>, key: &str) -> (r: Option<&'a T>)
    ensures
        (match r {
            Some(t) => spec_lookup_by_key(pairs@, key@) == Some(*t),
            None => spec_lookup_by_key(pairs@, key@) is None,
        }),
{
    let k = key.to_owned();
    let mut i: usize = 0;
    while i < pairs.len()
        invariant
            i <= pairs.len(),
            k@ == key@,
            forall|j: int| 0 <= j < i ==> pairs@[j].0@ != key@,
        decreases pairs.len() - i,
    {
        if pairs[i].0.eq(&k) {
            proof {
                lemma_lookup_at(pairs@, key@, i as int);
            }
            return Some(&pairs[i].1);
        }
        i += 1;
    }
    proof {
        lemma_lookup_none(pairs@, key@);
    }
    None
}

} // verus!
