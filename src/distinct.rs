use vstd::prelude::*;
use crate::installs::names_contain;
use crate::model::Repo;

verus! {

/// Whether some record before position `i` has the name `name`.
pub open spec fn named_before(s: Seq<Repo>, i: int, name: Seq<char>) -> bool {
    exists|k: int| 0 <= k < i && (#[trigger] s[k]).name@ == name
}

/// The records whose name does not occur earlier, in their order.
pub open spec fn first_of_each(s: Seq<Repo>) -> Seq<Repo>
    decreases s.len(),
{
    if s.len() == 0 {
        Seq::empty()
    } else {
        let r = first_of_each(s.drop_last());
        if named_before(s, s.len() - 1, s.last().name@) {
            r
        } else {
            r.push(s.last())
        }
    }
}

/// Keeps one record per repository name, the first one given.
pub fn first_of_each_name(repos: Vec<Repo>) -> (r: Vec<Repo>)
    ensures
        r@ == first_of_each(repos@),
{
    let mut rest = repos;
    let ghost s = rest@;
    let len = rest.len();
    let ghost n = len as nat;
    let mut out: Vec<Repo> = Vec::new();
    let mut seen: Vec<String> = Vec::new();
    let mut i: usize = 0;
    assert(s.subrange(0, 0) =~= Seq::<Repo>::empty());
    while rest.len() > 0
        invariant
            s == repos@,
            n == s.len(),
            n <= usize::MAX,
            i <= n,
            rest@ == s.subrange(i as int, n as int),
            seen@.len() == i,
            forall|k: int| 0 <= k < i ==> (#[trigger] seen@[k])@ == s[k].name@,
            out@ == first_of_each(s.subrange(0, i as int)),
        decreases rest.len(),
    {
        let repo = rest.remove(0);
        assert(repo == s[i as int]);
        let ghost pre = s.subrange(0, i + 1);
        assert(pre.drop_last() =~= s.subrange(0, i as int));
        let dup = names_contain(&seen, &repo.name);
        proof {
            if dup {
                let k = choose|k: int| 0 <= k < seen@.len() && (#[trigger] seen@[k])@ == repo.name@;
                assert(pre[k] == s[k]);
                assert(named_before(pre, pre.len() - 1, pre.last().name@));
            } else {
                assert forall|k: int| 0 <= k < i implies (#[trigger] pre[k]).name@ != repo.name@ by {
                    assert(seen@[k]@ == s[k].name@);
                }
            }
        }
        seen.push(repo.name.clone());
        if !dup {
            out.push(repo);
        }
        assert(rest@ =~= s.subrange(i + 1, n as int));
        i = i + 1;
    }
    assert(s.subrange(0, i as int) =~= s);
    out
}

} // verus!
