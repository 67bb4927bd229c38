//! Collection of a paginated listing: pages are requested one after another
//! until the server reports that no further page exists.
use vstd::prelude::*;

verus! {

/// All items of a sequence of pages, page after page.
pub open spec fn joined<T>(pages: Seq<Seq<T>>) -> Seq<T>
    decreases pages.len(),
{
    if pages.len() == 0 {
        Seq::empty()
    } else {
        joined(pages.drop_last()) + pages.last()
    }
}

/// What to do after a page has been received.
#[derive(Debug, Clone, Copy, PartialEq, Eq, Structural)]
pub enum PageStep {
    /// Request the page with this number.
    Fetch(u32),
    /// The server reported no further page: the listing is complete.
    Done,
    /// The server reported a further page whose number does not fit a `u32`.
    TooManyPages,
}

/// The items received so far from a paginated listing, and the page to ask for
/// next.
pub struct Pager<T> {
    page: u32,
    items: Vec<T>,
    pages: Ghost<Seq<Seq<T>>>,
}

impl<T> Pager<T> {
    /// The pages received so far, in the order received.
    pub closed spec fn received(&self) -> Seq<Seq<T>> {
        self.pages@
    }

    pub closed spec fn next_page(&self) -> u32 {
        self.page
    }

    pub closed spec fn wf(&self) -> bool {
        &&& self.items@ == joined(self.pages@)
        &&& self.page as int == self.pages@.len() + 1
    }

    /// A pager that has received nothing and asks for the first page.
    pub fn new() -> (r: Self)
        ensures
            r.wf(),
            r.received() == Seq::<Seq<T>>::empty(),
            r.next_page() == 1,
    {
        Pager { page: 1, items: Vec::new(), pages: Ghost(Seq::empty()) }
    }

    /// The number of the page to request next; pages are numbered from 1.
    pub fn page(&self) -> (r: u32)
        ensures
            r == self.next_page(),
    {
        self.page
    }

    /// Records a received page, and says whether to request another one:
    /// exactly when the server reported a next page.
    pub fn receive(&mut self, batch: Vec<T>, has_next: bool) -> (step: PageStep)
        requires
            old(self).wf(),
            old(self).next_page() < u32::MAX,
        ensures
            final(self).wf(),
            final(self).received() == old(self).received().push(batch@),
            final(self).next_page() == old(self).next_page() + 1,
            has_next && final(self).next_page() < u32::MAX ==> step == PageStep::Fetch(
                final(self).next_page(),
            ),
            has_next && final(self).next_page() == u32::MAX ==> step == PageStep::TooManyPages,
            !has_next ==> step == PageStep::Done,
    {
        let mut batch = batch;
        let ghost b = batch@;
        self.items.append(&mut batch);
        self.pages = Ghost(self.pages@.push(b));
        assert(self.pages@.drop_last() =~= old(self).pages@);
        self.page = self.page + 1;
        if !has_next {
            PageStep::Done
        } else if self.page < u32::MAX {
            PageStep::Fetch(self.page)
        } else {
            PageStep::TooManyPages
        }
    }

    /// Every item received, page after page.
    pub fn into_items(self) -> (r: Vec<T>)
        requires
            self.wf(),
        ensures
            r@ == joined(self.received()),
    {
        self.items
    }
}

/// Completeness of a paginated listing: when each of the pages received holds
/// `per_page` items, the items collected are all of them, each once, the item
/// at position `j` of page `i` standing at `i * per_page + j`.
pub proof fn lemma_pages_complete<T>(pages: Seq<Seq<T>>, per_page: nat)
    requires
        forall|i: int| 0 <= i < pages.len() ==> #[trigger] pages[i].len() == per_page,
    ensures
        joined(pages).len() == pages.len() * per_page,
        forall|i: int, j: int|
            0 <= i < pages.len() && 0 <= j < per_page ==> joined(pages)[i * per_page + j]
                == #[trigger] pages[i][j],
    decreases pages.len(),
{
    if pages.len() > 0 {
        let prefix = pages.drop_last();
        lemma_pages_complete(prefix, per_page);
        let n = prefix.len();
        assert(joined(pages) == joined(prefix) + pages.last());
        assert(n * per_page + per_page == (n + 1) * per_page) by (nonlinear_arith);
        assert forall|i: int, j: int|
            0 <= i < pages.len() && 0 <= j < per_page implies joined(pages)[i * per_page + j]
                == #[trigger] pages[i][j] by {
            if i < n {
                assert(prefix[i] == pages[i]);
                assert(i * per_page + j < n * per_page) by (nonlinear_arith)
                    requires
                        i < n,
                        0 <= j < per_page,
                        0 <= i,
                ;
            } else {
                assert(i * per_page == n * per_page);
            }
        }
    }
}

} // verus!
