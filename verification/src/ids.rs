//! Lists of identifiers: membership, duplicates, differences.

use vstd::prelude::*;

verus! {

/// The identifiers of `ids` in order of first occurrence, each once.
pub open spec fn distinct_ids(ids: Seq<Seq<char>>) -> Seq<Seq<char>>
    decreases ids.len(),
{
    if ids.len() == 0 {
        Seq::empty()
    } else {
        let front = distinct_ids(ids.drop_last());
        if front.contains(ids.last()) {
            front
        } else {
            front.push(ids.last())
        }
    }
}

/// The test "is one of `ids`".
pub open spec fn is_in(ids: Seq<Seq<char>>) -> spec_fn(Seq<char>) -> bool {
    |x: Seq<char>| ids.contains(x)
}

/// The test "is none of `ids`".
pub open spec fn not_in(ids: Seq<Seq<char>>) -> spec_fn(Seq<char>) -> bool {
    |x: Seq<char>| !ids.contains(x)
}

/// `distinct_ids` keeps exactly the identifiers that occur, without repeats.
pub proof fn lemma_distinct_ids(ids: Seq<Seq<char>>)
    ensures
        distinct_ids(ids).no_duplicates(),
        forall|x: Seq<char>| distinct_ids(ids).contains(x) <==> ids.contains(x),
        distinct_ids(ids).to_set() == ids.to_set(),
        distinct_ids(ids).len() <= ids.len(),
    decreases ids.len(),
{
    let out = distinct_ids(ids);
    if ids.len() > 0 {
        let front_in = ids.drop_last();
        let front = distinct_ids(front_in);
        let last = ids.last();
        lemma_distinct_ids(front_in);
        assert forall|x: Seq<char>| out.contains(x) <==> ids.contains(x) by {
            if out.contains(x) {
                let i = choose|i: int| 0 <= i < out.len() && out[i] == x;
                if i < front.len() {
                    assert(front_in.contains(x));
                }
            }
            if ids.contains(x) {
                let j = choose|j: int| 0 <= j < ids.len() && ids[j] == x;
                if j < front_in.len() {
                    assert(front_in[j] == x);
                    assert(front_in.contains(x));
                    let i = choose|i: int| 0 <= i < front.len() && front[i] == x;
                    assert(out[i] == x);
                } else {
                    if !front.contains(last) {
                        assert(out[out.len() - 1] == x);
                    }
                }
            }
        }
    }
}

/// Filtering by a test that every element passes changes nothing.
pub proof fn lemma_filter_all(ids: Seq<Seq<char>>, pred: spec_fn(Seq<char>) -> bool)
    requires
        forall|i: int| 0 <= i < ids.len() ==> pred(#[trigger] ids[i]),
    ensures
        ids.filter(pred) == ids,
    decreases ids.len(),
{
    reveal(Seq::filter);
    if ids.len() > 0 {
        lemma_filter_all(ids.drop_last(), pred);
    }
}

/// Filtering by a test that no element passes leaves nothing.
pub proof fn lemma_filter_none(ids: Seq<Seq<char>>, pred: spec_fn(Seq<char>) -> bool)
    requires
        forall|i: int| 0 <= i < ids.len() ==> !pred(#[trigger] ids[i]),
    ensures
        ids.filter(pred) == Seq::<Seq<char>>::empty(),
    decreases ids.len(),
{
    reveal(Seq::filter);
    if ids.len() > 0 {
        lemma_filter_none(ids.drop_last(), pred);
    }
}

/// Whether `id` is one of `list`.
pub fn contains_id(list: &Vec<String>, id: &String) -> (r: bool)
    ensures
        r == list.deep_view().contains(id@),
{
    let mut i: usize = 0;
    while i < list.len()
        invariant
            i <= list.len(),
            forall|j: int| 0 <= j < i ==> list.deep_view()[j] != id@,
        decreases list.len() - i,
    {
        if list[i] == *id {
            assert(list.deep_view()[i as int] == id@);
            return true;
        }
        i += 1;
    }
    false
}

/// Whether no identifier occurs twice in `list`.
pub fn has_no_duplicates(list: &Vec<String>) -> (r: bool)
    ensures
        r == list.deep_view().no_duplicates(),
{
    let ghost s = list.deep_view();
    let mut i: usize = 0;
    while i < list.len()
        invariant
            i <= list.len(),
            s == list.deep_view(),
            forall|a: int, b: int| 0 <= a < b < i ==> s[a] != s[b],
        decreases list.len() - i,
    {
        let mut j: usize = 0;
        while j < i
            invariant
                j <= i < list.len(),
                s == list.deep_view(),
                forall|a: int| 0 <= a < j ==> s[a] != s[i as int],
            decreases i - j,
        {
            if list[j] == list[i] {
                assert(s[j as int] == s[i as int]);
                return false;
            }
            j += 1;
        }
        i += 1;
    }
    true
}

/// The identifiers of `list` in order of first occurrence, each once.
pub fn distinct(list: &Vec<String>) -> (out: Vec<String>)
    ensures
        out.deep_view() == distinct_ids(list.deep_view()),
{
    let ghost s = list.deep_view();
    let mut out: Vec<String> = Vec::new();
    let mut i: usize = 0;
    while i < list.len()
        invariant
            i <= list.len(),
            s == list.deep_view(),
            out.deep_view() == distinct_ids(s.take(i as int)),
        decreases list.len() - i,
    {
        proof {
            assert(s.take(i + 1).drop_last() =~= s.take(i as int));
        }
        if !contains_id(&out, &list[i]) {
            out.push(list[i].clone());
        }
        i += 1;
    }
    assert(s.take(i as int) =~= s);
    out
}

/// The identifiers of `list` that are none of `excluded`, in order.
pub fn without(list: &Vec<String>, excluded: &Vec<String>) -> (out: Vec<String>)
    ensures
        out.deep_view() == list.deep_view().filter(not_in(excluded.deep_view())),
{
    let ghost s = list.deep_view();
    let ghost pred = not_in(excluded.deep_view());
    let mut out: Vec<String> = Vec::new();
    let mut i: usize = 0;
    while i < list.len()
        invariant
            i <= list.len(),
            s == list.deep_view(),
            pred == not_in(excluded.deep_view()),
            out.deep_view() == s.take(i as int).filter(pred),
        decreases list.len() - i,
    {
        proof {
            assert(s.take(i + 1) =~= s.take(i as int).push(s[i as int]));
            s.take(i as int).lemma_filter_push(s[i as int], pred);
        }
        if !contains_id(excluded, &list[i]) {
            out.push(list[i].clone());
        }
        i += 1;
    }
    assert(s.take(i as int) =~= s);
    out
}

/// The identifiers of `list` that are among `kept`, in order.
pub fn only(list: &Vec<String>, kept: &Vec<String>) -> (out: Vec<String>)
    ensures
        out.deep_view() == list.deep_view().filter(is_in(kept.deep_view())),
{
    let ghost s = list.deep_view();
    let ghost pred = is_in(kept.deep_view());
    let mut out: Vec<String> = Vec::new();
    let mut i: usize = 0;
    while i < list.len()
        invariant
            i <= list.len(),
            s == list.deep_view(),
            pred == is_in(kept.deep_view()),
            out.deep_view() == s.take(i as int).filter(pred),
        decreases list.len() - i,
    {
        proof {
            assert(s.take(i + 1) =~= s.take(i as int).push(s[i as int]));
            s.take(i as int).lemma_filter_push(s[i as int], pred);
        }
        if contains_id(kept, &list[i]) {
            out.push(list[i].clone());
        }
        i += 1;
    }
    assert(s.take(i as int) =~= s);
    out
}

} // verus!
