use vstd::prelude::*;
use crate::model::Repo;
use vstd::multiset::Multiset;
use vstd::seq_lib::{to_multiset_build, to_multiset_insert};

verus! {

/// A repository that passed every filter, with the author date (seconds since
/// the epoch) of the most recent commit on its default branch.
#[derive(Debug)]
pub struct ActiveRepo {
    pub repo: Repo,
    pub last_commit: i64,
}

/// Lexicographic order on names, character by character.
pub open spec fn name_lt(a: Seq<char>, b: Seq<char>) -> bool
    decreases a.len(),
{
    if a.len() == 0 {
        b.len() > 0
    } else if b.len() == 0 {
        false
    } else if a[0] != b[0] {
        (a[0] as int) < (b[0] as int)
    } else {
        name_lt(a.drop_first(), b.drop_first())
    }
}

/// `a` goes strictly before `b`: a later commit first, then the smaller name.
pub open spec fn before(a: ActiveRepo, b: ActiveRepo) -> bool {
    a.last_commit > b.last_commit || (a.last_commit == b.last_commit && name_lt(
        a.repo.name@,
        b.repo.name@,
    ))
}

/// No element goes strictly before one that precedes it.
pub open spec fn is_ordered(s: Seq<ActiveRepo>) -> bool {
    forall|i: int, j: int| 0 <= i < j < s.len() ==> !before(#[trigger] s[j], #[trigger] s[i])
}

/// No name goes before itself.
pub proof fn lemma_name_lt_irreflexive(a: Seq<char>)
    ensures
        !name_lt(a, a),
    decreases a.len(),
{
    if a.len() > 0 {
        lemma_name_lt_irreflexive(a.drop_first());
    }
}

/// The order on names is transitive.
pub proof fn lemma_name_lt_transitive(a: Seq<char>, b: Seq<char>, c: Seq<char>)
    requires
        name_lt(a, b),
        name_lt(b, c),
    ensures
        name_lt(a, c),
    decreases a.len(),
{
    if a.len() > 0 && b.len() > 0 && c.len() > 0 && a[0] == b[0] && b[0] == c[0] {
        lemma_name_lt_transitive(a.drop_first(), b.drop_first(), c.drop_first());
    }
}

/// Of two different names, one goes before the other.
pub proof fn lemma_name_lt_total(a: Seq<char>, b: Seq<char>)
    requires
        a != b,
    ensures
        name_lt(a, b) || name_lt(b, a),
    decreases a.len(),
{
    if a.len() > 0 && b.len() > 0 && a[0] == b[0] {
        if a.drop_first() == b.drop_first() {
            assert(a =~= seq![a[0]] + a.drop_first());
            assert(b =~= seq![b[0]] + b.drop_first());
        }
        lemma_name_lt_total(a.drop_first(), b.drop_first());
    } else if a.len() > 0 && b.len() > 0 {
        assert((a[0] as int) != (b[0] as int));
    } else if a.len() == 0 && b.len() == 0 {
        assert(a =~= b);
    }
}

/// Compares two names lexicographically.
pub fn name_less(a: &String, b: &String) -> (r: bool)
    ensures
        r == name_lt(a@, b@),
{
    let sa = a.as_str();
    let sb = b.as_str();
    let la = sa.unicode_len();
    let lb = sb.unicode_len();
    let mut i: usize = 0;
    assert(a@.skip(0) =~= a@ && b@.skip(0) =~= b@);
    while i < la && i < lb
        invariant
            sa@ == a@,
            sb@ == b@,
            la == a@.len(),
            lb == b@.len(),
            i <= la,
            i <= lb,
            name_lt(a@, b@) == name_lt(a@.skip(i as int), b@.skip(i as int)),
        decreases la - i,
    {
        let ca = sa.get_char(i);
        let cb = sb.get_char(i);
        let ghost x = a@.skip(i as int);
        let ghost y = b@.skip(i as int);
        assert(x[0] == ca && y[0] == cb);
        if ca != cb {
            return (ca as u32) < (cb as u32);
        }
        assert(x.drop_first() =~= a@.skip(i + 1));
        assert(y.drop_first() =~= b@.skip(i + 1));
        i = i + 1;
    }
    proof {
        let x = a@.skip(i as int);
        let y = b@.skip(i as int);
        assert(x.len() == 0 || y.len() == 0);
    }
    i == la && i < lb
}

/// Whether `a` goes strictly before `b`.
pub fn goes_before(a: &ActiveRepo, b: &ActiveRepo) -> (r: bool)
    ensures
        r == before(*a, *b),
{
    if a.last_commit != b.last_commit {
        a.last_commit > b.last_commit
    } else {
        name_less(&a.repo.name, &b.repo.name)
    }
}

/// Inserts `x` into an ordered vector, after every element that does not go
/// strictly after it.
pub fn insert_ordered(v: &mut Vec<ActiveRepo>, x: ActiveRepo)
    requires
        is_ordered(old(v)@),
    ensures
        is_ordered(final(v)@),
        final(v)@.to_multiset() == old(v)@.to_multiset().insert(x),
{
    let mut i: usize = 0;
    let mut found = false;
    while i < v.len() && !found
        invariant
            i <= v.len(),
            found ==> i < v.len() && before(x, v@[i as int]),
            forall|k: int| 0 <= k < i ==> !before(x, #[trigger] v@[k]),
        decreases 2 * (v.len() - i) + if found { 0int } else { 1int },
    {
        if goes_before(&x, &v[i]) {
            found = true;
        } else {
            i = i + 1;
        }
    }
    let ghost s = v@;
    proof {
        to_multiset_insert(s, i as int, x);
    }
    v.insert(i, x);
    proof {
        let t = v@;
        assert(t =~= s.insert(i as int, x));
        assert forall|p: int, q: int| 0 <= p < q < t.len() implies !before(
            #[trigger] t[q],
            #[trigger] t[p],
        ) by {
            if q < i {
            } else if q == i {
            } else if p < i {
                assert(t[q] == s[q - 1]);
            } else if p == i {
                let y = s[q - 1];
                let z = s[i as int];
                assert(t[q] == y);
                if before(y, x) {
                    if q - 1 > i {
                        assert(!before(y, z));
                    }
                    if y.last_commit == x.last_commit && x.last_commit == z.last_commit {
                        lemma_name_lt_transitive(y.repo.name@, x.repo.name@, z.repo.name@);
                        lemma_name_lt_irreflexive(z.repo.name@);
                    }
                    assert(false);
                }
            } else {
                assert(t[q] == s[q - 1] && t[p] == s[p - 1]);
            }
        }
    }
}

/// Orders repositories by most recent commit first, then by name.
pub fn order_by_activity(v: Vec<ActiveRepo>) -> (r: Vec<ActiveRepo>)
    ensures
        is_ordered(r@),
        r@.to_multiset() == v@.to_multiset(),
{
    let mut v = v;
    let ghost orig = v@;
    let mut r: Vec<ActiveRepo> = Vec::new();
    proof {
        broadcast use vstd::seq_lib::group_to_multiset_ensures;
        broadcast use vstd::multiset::lemma_multiset_empty_len;

        assert(r@.to_multiset() =~= Multiset::empty());
    }
    while v.len() > 0
        invariant
            is_ordered(r@),
            r@.to_multiset().add(v@.to_multiset()) == orig.to_multiset(),
        decreases v.len(),
    {
        let ghost before_pop = v@;
        let x = v.pop().unwrap();
        proof {
            assert(before_pop =~= v@.push(x));
            to_multiset_build(v@, x);
        }
        insert_ordered(&mut r, x);
        assert(r@.to_multiset().add(v@.to_multiset()) =~= orig.to_multiset());
    }
    proof {
        broadcast use vstd::seq_lib::group_to_multiset_ensures;
        broadcast use vstd::multiset::lemma_multiset_empty_len;

        assert(v@.to_multiset() =~= Multiset::empty());
        assert(r@.to_multiset() =~= orig.to_multiset());
    }
    r
}

} // verus!
