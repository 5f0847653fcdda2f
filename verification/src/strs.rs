//! Lists of identifiers (emails, device ids, wallet ids) used as small
//! sets: membership, insertion without duplicates, removal.
use vstd::prelude::*;

verus! {

/// The character sequences of a list of strings.
pub open spec fn views(v: Seq<String>) -> Seq<Seq<char>> {
    v.map_values(|s: String| s@)
}

/// The set of character sequences held by a list of strings.
pub open spec fn view_set(v: Seq<String>) -> Set<Seq<char>> {
    views(v).to_set()
}

pub proof fn lemma_views_push(v: Seq<String>, s: String)
    ensures
        views(v.push(s)) == views(v).push(s@),
        view_set(v.push(s)) == view_set(v).insert(s@),
{
    assert(views(v.push(s)) =~= views(v).push(s@));
    let a = views(v).push(s@);
    assert forall|x: Seq<char>| a.contains(x) <==> views(v).contains(x) || x == s@ by {
        if a.contains(x) && x != s@ {
            let k = choose|k: int| 0 <= k < a.len() && a[k] == x;
            assert(views(v)[k] == x);
        }
        if views(v).contains(x) {
            let k = choose|k: int| 0 <= k < views(v).len() && views(v)[k] == x;
            assert(a[k] == x);
        }
        if x == s@ {
            assert(a[a.len() - 1] == x);
        }
    }
    assert(a.to_set() =~= views(v).to_set().insert(s@));
}

pub fn contains_str(v: &Vec<String>, s: &String) -> (r: bool)
    ensures
        r == views(v@).contains(s@),
        r == view_set(v@).contains(s@),
{
    let mut i: usize = 0;
    while i < v.len()
        invariant
            i <= v@.len(),
            forall|j: int| 0 <= j < i ==> views(v@)[j] != s@,
        decreases v@.len() - i,
    {
        if v[i].eq(s) {
            proof {
                assert(views(v@)[i as int] == s@);
            }
            return true;
        }
        i = i + 1;
    }
    proof {
        assert(!views(v@).contains(s@));
    }
    false
}

/// Appends `s` unless an equal string is already listed.
pub fn push_unique(v: &mut Vec<String>, s: String)
    ensures
        views(old(v)@).contains(s@) ==> final(v)@ == old(v)@,
        !views(old(v)@).contains(s@) ==> final(v)@ == old(v)@.push(s),
        view_set(final(v)@) == view_set(old(v)@).insert(s@),
        views(old(v)@).no_duplicates() ==> views(final(v)@).no_duplicates(),
{
    if !contains_str(v, &s) {
        let ghost s_view = s@;
        v.push(s);
        proof {
            lemma_views_push(old(v)@, v@.last());
            assert(v@ == old(v)@.push(v@.last()));
        }
    } else {
        proof {
            assert(view_set(old(v)@).contains(s@));
            assert(view_set(old(v)@).insert(s@) =~= view_set(old(v)@));
        }
    }
}

/// Removes `s` from a duplicate-free list; the others keep their order.
pub fn remove_str(v: &mut Vec<String>, s: &String) -> (found: bool)
    requires
        views(old(v)@).no_duplicates(),
    ensures
        found == views(old(v)@).contains(s@),
        found ==> views(final(v)@) == views(old(v)@).remove(views(old(v)@).index_of(s@)),
        !found ==> final(v)@ == old(v)@,
        view_set(final(v)@) == view_set(old(v)@).remove(s@),
        views(final(v)@).no_duplicates(),
{
    let ghost vs = views(v@);
    let mut i: usize = 0;
    while i < v.len()
        invariant
            i <= v@.len(),
            v@ == old(v)@,
            vs == views(v@),
            vs.no_duplicates(),
            forall|j: int| 0 <= j < i ==> vs[j] != s@,
        decreases v@.len() - i,
    {
        if v[i].eq(s) {
            proof {
                assert(vs[i as int] == s@);
                assert(vs.contains(s@));
                let f = vs.index_of(s@);
                assert(0 <= f < vs.len() && vs[f] == s@);
                assert(f == i);
            }
            v.remove(i);
            proof {
                assert(views(v@) =~= vs.remove(i as int));
                let r = vs.remove(i as int);
                assert forall|x: Seq<char>| r.contains(x) <==> vs.contains(x) && x != s@ by {
                    if r.contains(x) {
                        let k = choose|k: int| 0 <= k < r.len() && r[k] == x;
                        if k < i {
                            assert(vs[k] == x);
                        } else {
                            assert(vs[k + 1] == x);
                        }
                    }
                    if vs.contains(x) && x != s@ {
                        let k = choose|k: int| 0 <= k < vs.len() && vs[k] == x;
                        assert(k != i);
                        if k < i {
                            assert(r[k] == x);
                        } else {
                            assert(r[k - 1] == x);
                        }
                    }
                }
                assert(view_set(v@) =~= view_set(old(v)@).remove(s@));
                assert forall|a: int, b: int| 0 <= a < r.len() && 0 <= b < r.len() && a != b
                    implies r[a] != r[b] by {
                    let oa = if a < i { a } else { a + 1 };
                    let ob = if b < i { b } else { b + 1 };
                    assert(r[a] == vs[oa] && r[b] == vs[ob]);
                }
            }
            return true;
        }
        i = i + 1;
    }
    proof {
        assert(!vs.contains(s@));
        assert(view_set(v@) =~= view_set(old(v)@).remove(s@));
    }
    false
}

/// The strings of `v`, each once, in order of first appearance.
pub fn dedup_strs(v: &Vec<String>) -> (r: Vec<String>)
    ensures
        view_set(r@) == view_set(v@),
        views(r@).no_duplicates(),
        views(v@).no_duplicates() ==> r@ == v@,
{
    let mut out: Vec<String> = Vec::new();
    let mut i: usize = 0;
    while i < v.len()
        invariant
            i <= v@.len(),
            view_set(out@) == view_set(v@.take(i as int)),
            views(out@).no_duplicates(),
            views(v@).no_duplicates() ==> out@ == v@.take(i as int),
        decreases v@.len() - i,
    {
        let ghost before = out@;
        let c = v[i].clone();
        proof {
            assert(v@.take(i as int + 1) =~= v@.take(i as int).push(v@[i as int]));
            lemma_views_push(v@.take(i as int), v@[i as int]);
            if views(v@).no_duplicates() {
                assert(!views(out@).contains(c@)) by {
                    if views(out@).contains(c@) {
                        let k = choose|k: int| 0 <= k < views(out@).len() && views(out@)[k] == c@;
                        assert(views(v@)[k] == views(v@)[i as int]);
                    }
                }
            }
        }
        push_unique(&mut out, c);
        i = i + 1;
    }
    proof {
        assert(v@.take(v@.len() as int) =~= v@);
    }
    out
}

/// The strings of `a` followed by those of `b` not in `a`; duplicate-free
/// when `a` and `b` are.
pub fn union_strs(a: &Vec<String>, b: &Vec<String>) -> (r: Vec<String>)
    requires
        views(a@).no_duplicates(),
    ensures
        view_set(r@) == view_set(a@).union(view_set(b@)),
        views(r@).no_duplicates(),
{
    let mut out = dedup_strs(a);
    let mut i: usize = 0;
    while i < b.len()
        invariant
            i <= b@.len(),
            view_set(out@) == view_set(a@).union(view_set(b@.take(i as int))),
            views(out@).no_duplicates(),
        decreases b@.len() - i,
    {
        proof {
            assert(b@.take(i as int + 1) =~= b@.take(i as int).push(b@[i as int]));
            lemma_views_push(b@.take(i as int), b@[i as int]);
        }
        push_unique(&mut out, b[i].clone());
        proof {
            assert(view_set(out@) =~= view_set(a@).union(view_set(b@.take(i as int + 1))));
        }
        i = i + 1;
    }
    proof {
        assert(b@.take(b@.len() as int) =~= b@);
    }
    out
}

} // verus!
