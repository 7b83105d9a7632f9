//! Links that other programs open: kept until the front end asks for them.

use crate::text::begins_with;
use crate::text::copy_texts;
use crate::text::push_text;
use crate::text::starts_with;
use crate::text::texts;
use vstd::prelude::*;

verus! {

/// The link is meant for this program.
pub open spec fn is_own_link(url: Seq<char>) -> bool {
    begins_with(url, "xuntian-uploader:"@)
}

/// The links that are meant for this program, out of the arguments of a start or the links of a
/// later call, in their order.
pub fn own_links(urls: &Vec<String>) -> (r: Vec<String>)
    ensures
        texts(r@) == texts(urls@).filter(|url: Seq<char>| is_own_link(url)),
{
    let mut out: Vec<String> = Vec::new();
    let ghost all = texts(urls@);
    let ghost own = |url: Seq<char>| is_own_link(url);
    let mut i: usize = 0;
    proof {
        reveal(Seq::filter);
        assert(texts(out@) =~= all.take(0).filter(own));
    }
    while i < urls.len()
        invariant
            i <= urls@.len(),
            all == texts(urls@),
            own == (|url: Seq<char>| is_own_link(url)),
            texts(out@) == all.take(i as int).filter(own),
        decreases urls@.len() - i,
    {
        proof {
            reveal(Seq::filter);
            assert(all.take(i + 1).drop_last() =~= all.take(i as int));
            assert(all.take(i + 1).last() == urls@[i as int]@);
        }
        if starts_with(urls[i].as_str(), "xuntian-uploader:") {
            push_text(&mut out, urls[i].as_str());
        }
        i += 1;
    }
    assert(all.take(i as int) =~= all);
    out
}

/// The links that the front end has not asked for yet.
#[derive(Debug, Clone)]
pub struct PendingLinks {
    pub urls: Vec<String>,
}

impl View for PendingLinks {
    type V = Seq<Seq<char>>;

    open spec fn view(&self) -> Seq<Seq<char>> {
        texts(self.urls@)
    }
}

impl PendingLinks {
    /// No link waits.
    pub fn new() -> (r: Self)
        ensures
            r@ == Seq::<Seq<char>>::empty(),
    {
        let r = PendingLinks { urls: Vec::new() };
        assert(r@ =~= Seq::<Seq<char>>::empty());
        r
    }

    /// Keeps links behind those that wait already. The result are the links that the front end is
    /// to be told of at once: all of them, and none where there are none.
    pub fn push(&mut self, urls: &Vec<String>) -> (r: Option<Vec<String>>)
        ensures
            final(self)@ == old(self)@ + texts(urls@),
            r is Some <==> urls@.len() > 0,
            r matches Some(told) ==> texts(told@) == texts(urls@),
    {
        if urls.len() == 0 {
            assert(self@ + texts(urls@) =~= self@);
            return None;
        }
        let ghost before = self@;
        let ghost all = texts(urls@);
        let mut i: usize = 0;
        assert(before + all.take(0) =~= before);
        while i < urls.len()
            invariant
                i <= urls@.len(),
                all == texts(urls@),
                self@ == before + all.take(i as int),
            decreases urls@.len() - i,
        {
            push_text(&mut self.urls, urls[i].as_str());
            assert(before + all.take(i + 1) =~= (before + all.take(i as int)).push(all[i as int]));
            i += 1;
        }
        assert(all.take(i as int) =~= all);
        Some(copy_texts(urls))
    }

    /// Hands out the links that wait, once.
    pub fn take(&mut self) -> (r: Vec<String>)
        ensures
            texts(r@) == old(self)@,
            final(self)@ == Seq::<Seq<char>>::empty(),
    {
        let mut out: Vec<String> = Vec::new();
        std::mem::swap(&mut out, &mut self.urls);
        assert(self@ =~= Seq::<Seq<char>>::empty());
        out
    }
}

/// What waits after links have come in batches, one after another, since the front end last asked.
pub open spec fn waiting(batches: Seq<Seq<Seq<char>>>) -> Seq<Seq<char>>
    decreases batches.len(),
{
    if batches.len() == 0 {
        Seq::empty()
    } else {
        waiting(batches.drop_last()) + batches.last()
    }
}

/// No link is lost before the front end asks for it, and none gets ahead of one that came before.
pub proof fn no_link_is_lost(batches: Seq<Seq<Seq<char>>>, b: int, i: int) -> (at: int)
    requires
        0 <= b < batches.len(),
        0 <= i < batches[b].len(),
    ensures
        0 <= at < waiting(batches).len(),
        waiting(batches)[at] == batches[b][i],
        at == waiting(batches.take(b)).len() + i,
    decreases batches.len(),
{
    let head = batches.drop_last();
    if b < batches.len() - 1 {
        assert(head.take(b) =~= batches.take(b));
        no_link_is_lost(head, b, i)
    } else {
        assert(head =~= batches.take(b));
        waiting(head).len() + i
    }
}

/// A link is meant for this program exactly where it begins with its scheme.
pub proof fn own_links_are_known_by_their_scheme(url: Seq<char>)
    ensures
        is_own_link("xuntian-uploader:"@ + url),
        is_own_link(url) <==> exists|rest: Seq<char>| url == #[trigger] ("xuntian-uploader:"@ + rest),
{
    let scheme = "xuntian-uploader:"@;
    assert((scheme + url).subrange(0, scheme.len() as int) =~= scheme);
    if is_own_link(url) {
        let rest = url.skip(scheme.len() as int);
        assert(url =~= scheme + rest);
    }
    if exists|rest: Seq<char>| url == #[trigger] (scheme + rest) {
        let rest = choose|rest: Seq<char>| url == #[trigger] (scheme + rest);
        assert(url.subrange(0, scheme.len() as int) =~= scheme);
    }
}

/// Links are kept behind those that wait, told to the front end at once, and handed out once.
pub proof fn links_wait_until_they_are_taken(
    links: &mut PendingLinks,
    urls: Vec<String>,
    told: Option<Vec<String>>,
    taken: Vec<String>,
)
    ensures
        call_ensures(PendingLinks::push, (links, &urls), told) ==> final(links)@ == old(links)@ + texts(
            urls@,
        ) && (told is None <==> urls@.len() == 0) && (told matches Some(t) ==> texts(t@) == texts(
            urls@,
        )),
        call_ensures(PendingLinks::take, (links,), taken) ==> texts(taken@) == old(links)@
            && final(links)@.len() == 0,
{
}

/// Of the links that come in, those of this program are kept, all of them and no other.
pub proof fn only_own_links_are_kept(urls: Vec<String>, r: Vec<String>, url: Seq<char>)
    requires
        call_ensures(own_links, (&urls,), r),
    ensures
        texts(r@).contains(url) <==> texts(urls@).contains(url) && exists|rest: Seq<char>|
            url == #[trigger] ("xuntian-uploader:"@ + rest),
{
    let all = texts(urls@);
    let own = |url: Seq<char>| is_own_link(url);
    own_links_are_known_by_their_scheme(url);
    assert(texts(r@) == all.filter(own));
    if all.filter(own).contains(url) {
        all.lemma_filter_contains_rev(own, url);
        let i = choose|i: int| 0 <= i < all.filter(own).len() && all.filter(own)[i] == url;
        all.lemma_filter_pred(own, i);
    }
    if all.contains(url) && is_own_link(url) {
        let i = choose|i: int| 0 <= i < all.len() && all[i] == url;
        all.lemma_filter_contains(own, i);
    }
}

} // verus!
