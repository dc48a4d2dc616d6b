use vstd::prelude::*;

verus! {

/// Collects a paged list endpoint: it asks for page 0, then for each next page
/// while the service says one exists, and keeps every item in order.
pub struct Paginator<T> {
    pub items: Vec<T>,
    pub page: usize,
    pub done: bool,
}

/// The items of all pages, one page after the other.
pub open spec fn joined<T>(pages: Seq<Vec<T>>) -> Seq<T> {
    pages.map_values(|p: Vec<T>| p@).flatten()
}

/// A list cut into pages of `n` items; the last one may be shorter.
pub open spec fn paged<T>(s: Seq<T>, n: nat) -> Seq<Seq<T>>
    decreases s.len(),
{
    if s.len() == 0 || n == 0 {
        Seq::empty()
    } else if s.len() <= n {
        seq![s]
    } else {
        seq![s.take(n as int)] + paged(s.skip(n as int), n)
    }
}

impl<T> Paginator<T> {
    pub fn new() -> (p: Self)
        ensures
            p.items@.len() == 0,
            p.page == 0,
            !p.done,
    {
        Paginator { items: Vec::new(), page: 0, done: false }
    }

    /// The page to ask for next, or `None` once the last page has come.
    pub fn next_page(&self) -> (r: Option<usize>)
        ensures
            r == if self.done {
                None
            } else {
                Some(self.page)
            },
    {
        if self.done {
            None
        } else {
            Some(self.page)
        }
    }

    /// Takes in the items of the page asked for, and whether another follows.
    pub fn receive(&mut self, page_items: Vec<T>, has_next: bool)
        requires
            !old(self).done,
            has_next ==> old(self).page < usize::MAX,
        ensures
            final(self).items@ == old(self).items@ + page_items@,
            final(self).done == !has_next,
            final(self).page == if has_next {
                old(self).page + 1
            } else {
                old(self).page as int
            },
    {
        let mut page_items = page_items;
        self.items.append(&mut page_items);
        if has_next {
            self.page = self.page + 1;
        } else {
            self.done = true;
        }
    }

    /// All items collected.
    pub fn finish(self) -> (r: Vec<T>)
        ensures
            r@ == self.items@,
    {
        self.items
    }
}

/// Runs a paginator over pages served in order, each but the last announcing a
/// next one, and returns what it collected.
pub fn collect_pages<T>(served: Vec<Vec<T>>) -> (r: Vec<T>)
    ensures
        r@ == joined(served@),
{
    let mut pages = served;
    let ghost orig = pages@;
    let n = pages.len();
    let mut p: Paginator<T> = Paginator::new();
    assert(orig.subrange(0, 0).map_values(|v: Vec<T>| v@) =~= Seq::<Seq<T>>::empty());
    while !p.done
        invariant
            n == orig.len(),
            orig == served@,
            p.page <= n,
            !p.done ==> pages@ == orig.subrange(p.page as int, n as int),
            !p.done ==> p.items@ == joined(orig.subrange(0, p.page as int)),
            p.done ==> p.items@ == joined(orig),
        decreases 2 * (n - p.page) + if p.done { 0int } else { 1int },
    {
        if pages.len() == 0 {
            let ghost before = p.items@;
            p.receive(Vec::new(), false);
            assert(orig.subrange(0, n as int) =~= orig);
            assert(p.items@ =~= before);
        } else {
            let ghost k = p.page as int;
            let page = pages.remove(0);
            let has_next = pages.len() > 0;
            p.receive(page, has_next);
            proof {
                let pre = orig.subrange(0, k).map_values(|v: Vec<T>| v@);
                assert(orig.subrange(0, k + 1).map_values(|v: Vec<T>| v@) =~= pre.push(orig[k]@));
                pre.lemma_flatten_push(orig[k]@);
                assert(pages@ =~= orig.subrange(k + 1, n as int));
                if !has_next {
                    assert(orig.subrange(0, k + 1) =~= orig);
                }
            }
        }
    }
    p.finish()
}

/// Cutting a list into pages of any positive size and joining them gives the
/// list back.
pub proof fn lemma_pages_rejoin<T>(s: Seq<T>, n: nat)
    requires
        n > 0,
    ensures
        paged(s, n).flatten() == s,
    decreases s.len(),
{
    if s.len() == 0 {
        assert(s =~= Seq::<T>::empty());
    } else if s.len() <= n {
        seq![s].lemma_flatten_one_element();
    } else {
        lemma_pages_rejoin(s.skip(n as int), n);
        vstd::seq_lib::lemma_flatten_concat(seq![s.take(n as int)], paged(s.skip(n as int), n));
        seq![s.take(n as int)].lemma_flatten_one_element();
        assert(s.take(n as int) + s.skip(n as int) =~= s);
    }
}

/// Whatever the page size, collecting a list served in pages of that size
/// yields exactly its items, in their order.
pub proof fn lemma_collect_is_complete<T>(items: Seq<T>, n: nat, served: Seq<Vec<T>>)
    requires
        n > 0,
        served.map_values(|p: Vec<T>| p@) == paged(items, n),
    ensures
        joined(served) == items,
        joined(served).len() == items.len(),
{
    lemma_pages_rejoin(items, n);
}

} // verus!
