//! Assembling the catalog from upstream listing pages: each upstream id is
//! admitted once per aggregation run, and admitted items are normalized into
//! catalog entries.

use vstd::prelude::*;
use std::collections::HashSet;
use crate::content::{texts, opt_text, shuffle_contents, views, Content, ContentView};

verus! {

broadcast use vstd::std_specs::hash::group_hash_axioms;

/// The longest description, in characters, that a catalog entry keeps.
pub const DESCRIPTION_LIMIT: usize = 200;

/// The upstream ids met so far in one aggregation run.
#[derive(Debug)]
pub struct ContentTracker {
    seen_ids: HashSet<i64>,
}

impl View for ContentTracker {
    type V = Set<i64>;

    closed spec fn view(&self) -> Set<i64> {
        self.seen_ids@
    }
}

impl ContentTracker {
    /// A tracker that has seen nothing.
    pub fn new() -> (r: ContentTracker)
        ensures
            r@ == Set::<i64>::empty(),
    {
        ContentTracker { seen_ids: HashSet::new() }
    }

    /// Records `id`, and tells whether it had not been seen before.
    pub fn is_new(&mut self, id: i64) -> (r: bool)
        ensures
            r == !old(self)@.contains(id),
            final(self)@ == old(self)@.insert(id),
    {
        self.seen_ids.insert(id)
    }
}

/// One item of an upstream listing page.
#[derive(Debug, Clone)]
pub struct ListingItem {
    pub id: i64,
    pub title: String,
    /// The upstream date, `YYYY-MM-DD`.
    pub release_date: Option<String>,
    /// The upstream average vote, as a binary32 bit pattern.
    pub rating: Option<u32>,
    pub overview: String,
}

/// The mathematical value of a [`ListingItem`].
pub struct ListingView {
    pub id: i64,
    pub title: Seq<char>,
    pub release_date: Option<Seq<char>>,
    pub rating: Option<u32>,
    pub overview: Seq<char>,
}

impl View for ListingItem {
    type V = ListingView;

    open spec fn view(&self) -> ListingView {
        ListingView {
            id: self.id,
            title: self.title@,
            release_date: opt_text(self.release_date),
            rating: self.rating,
            overview: self.overview@,
        }
    }
}

impl ListingItem {
    /// A field-for-field copy.
    pub fn duplicate(&self) -> (r: ListingItem)
        ensures
            r@ == self@,
    {
        let release_date = match &self.release_date {
            Some(d) => Some(d.clone()),
            None => None,
        };
        ListingItem {
            id: self.id,
            title: self.title.clone(),
            release_date,
            rating: self.rating,
            overview: self.overview.clone(),
        }
    }
}

/// The characters of a date before its first `-` (all of them if it has none).
pub open spec fn leading_field(d: Seq<char>) -> Seq<char>
    decreases d.len(),
{
    if d.len() == 0 || d[0] == '-' {
        Seq::empty()
    } else {
        seq![d[0]] + leading_field(d.drop_first())
    }
}

/// A description cut to at most [`DESCRIPTION_LIMIT`] characters.
pub open spec fn truncated(d: Seq<char>) -> Seq<char> {
    if d.len() <= DESCRIPTION_LIMIT {
        d
    } else {
        d.take(DESCRIPTION_LIMIT as int)
    }
}

/// The catalog entry that an item and its details make.
pub open spec fn normalized(
    item: ListingView,
    genres: Seq<Seq<char>>,
    providers: Seq<Seq<char>>,
) -> ContentView {
    ContentView {
        title: item.title,
        year: match item.release_date {
            Some(d) => Some(leading_field(d)),
            None => None,
        },
        rating: item.rating,
        genre: genres,
        description: truncated(item.overview),
        where_to_watch: providers,
    }
}

proof fn lemma_leading_field(d: Seq<char>, n: int)
    requires
        0 <= n <= d.len(),
        forall|k: int| 0 <= k < n ==> d[k] != '-',
        n == d.len() || d[n] == '-',
    ensures
        leading_field(d) == d.take(n),
    decreases n,
{
    if n > 0 {
        lemma_leading_field(d.drop_first(), n - 1);
        assert(d.take(n) =~= seq![d[0]] + d.drop_first().take(n - 1));
    } else {
        assert(d.take(n) =~= Seq::<char>::empty());
    }
}

/// The characters of `date` before its first `-`.
pub fn leading_date_field(date: &String) -> (r: String)
    ensures
        r@ == leading_field(date@),
{
    let s = date.as_str();
    let len = s.unicode_len();
    let mut n: usize = 0;
    while n < len && s.get_char(n) != '-'
        invariant
            n <= len,
            len == date@.len(),
            s@ == date@,
            forall|k: int| 0 <= k < n ==> date@[k] != '-',
        decreases len - n,
    {
        n += 1;
    }
    proof {
        lemma_leading_field(date@, n as int);
    }
    s.substring_char(0, n).to_owned()
}

/// `text` cut to at most [`DESCRIPTION_LIMIT`] characters.
pub fn truncate_description(text: &String) -> (r: String)
    ensures
        r@ == truncated(text@),
{
    let s = text.as_str();
    let len = s.unicode_len();
    if len <= DESCRIPTION_LIMIT {
        text.clone()
    } else {
        s.substring_char(0, DESCRIPTION_LIMIT).to_owned()
    }
}

/// Builds the catalog entry for an admitted item from its details; a detail
/// that could not be had comes as an empty list.
pub fn normalize(item: &ListingItem, genres: Vec<String>, providers: Vec<String>) -> (r: Content)
    ensures
        r@ == normalized(item@, texts(genres@), texts(providers@)),
{
    let year = match &item.release_date {
        Some(d) => Some(leading_date_field(d)),
        None => None,
    };
    Content {
        title: item.title.clone(),
        year,
        rating: item.rating,
        genre: genres,
        description: truncate_description(&item.overview),
        where_to_watch: providers,
    }
}

/// The views of a listing page.
pub open spec fn listing_views(s: Seq<ListingItem>) -> Seq<ListingView> {
    s.map_values(|x: ListingItem| x@)
}

/// Some item of `s` carries `id`.
pub open spec fn has_id(s: Seq<ListingView>, id: i64) -> bool {
    exists|k: int| 0 <= k < s.len() && #[trigger] s[k].id == id
}

/// The ids that the items of `s` carry.
pub open spec fn page_ids(s: Seq<ListingView>) -> Set<i64> {
    Set::new(|id: i64| has_id(s, id))
}

/// The items of `page` admitted after the ids in `seen`: in page order, each
/// item whose id is neither in `seen` nor carried by an earlier item.
pub open spec fn admitted(seen: Set<i64>, page: Seq<ListingView>) -> Seq<ListingView>
    decreases page.len(),
{
    if page.len() == 0 {
        Seq::empty()
    } else {
        let prev = page.drop_last();
        let rest = admitted(seen, prev);
        if seen.contains(page.last().id) || has_id(prev, page.last().id) {
            rest
        } else {
            rest.push(page.last())
        }
    }
}

/// Admits the items of one page whose ids the tracker has not seen, and
/// records every id of the page.
pub fn admit_page(tracker: &mut ContentTracker, page: &Vec<ListingItem>) -> (r: Vec<ListingItem>)
    ensures
        listing_views(r@) == admitted(old(tracker)@, listing_views(page@)),
        final(tracker)@ == old(tracker)@.union(page_ids(listing_views(page@))),
{
    let ghost seen = tracker@;
    let mut r: Vec<ListingItem> = Vec::new();
    let mut i: usize = 0;
    while i < page.len()
        invariant
            i <= page@.len(),
            tracker@ == seen.union(page_ids(listing_views(page@.take(i as int)))),
            listing_views(r@) == admitted(seen, listing_views(page@.take(i as int))),
        decreases page@.len() - i,
    {
        let ghost prev = listing_views(page@.take(i as int));
        let ghost next = listing_views(page@.take(i + 1));
        assert(next.drop_last() =~= prev);
        assert(next.last() == page@[i as int]@);
        let ghost before = r@;
        if tracker.is_new(page[i].id) {
            r.push(page[i].duplicate());
            assert(listing_views(r@) =~= listing_views(before).push(page@[i as int]@));
        }
        assert(page_ids(next) =~= page_ids(prev).insert(page@[i as int].id)) by {
            assert forall|id: i64| has_id(next, id) <==> has_id(prev, id) || id == page@[
                i as int
            ].id by {
                if has_id(next, id) && id != page@[i as int].id {
                    let k = choose|k: int| 0 <= k < next.len() && #[trigger] next[k].id == id;
                    assert(prev[k].id == id);
                }
                if has_id(prev, id) {
                    let k = choose|k: int| 0 <= k < prev.len() && #[trigger] prev[k].id == id;
                    assert(next[k].id == id);
                }
                if id == page@[i as int].id {
                    assert(next[i as int].id == id);
                }
            }
        }
        i += 1;
    }
    assert(page@.take(page@.len() as int) =~= page@);
    r
}

/// What [`admitted`] keeps: items of the page with unseen ids, no id twice,
/// and every unseen id of the page.
proof fn lemma_admitted(seen: Set<i64>, page: Seq<ListingView>)
    ensures
        forall|k: int|
            0 <= k < admitted(seen, page).len() ==> !seen.contains(
                #[trigger] admitted(seen, page)[k].id,
            ) && has_id(page, admitted(seen, page)[k].id),
        forall|k1: int, k2: int|
            0 <= k1 < admitted(seen, page).len() && 0 <= k2 < admitted(seen, page).len() && k1
                != k2 ==> #[trigger] admitted(seen, page)[k1].id != #[trigger] admitted(
                seen,
                page,
            )[k2].id,
        forall|id: i64| has_id(page, id) && !seen.contains(id) ==> has_id(admitted(seen, page), id),
    decreases page.len(),
{
    if page.len() > 0 {
        let prev = page.drop_last();
        lemma_admitted(seen, prev);
        let rest = admitted(seen, prev);
        let r = admitted(seen, page);
        assert forall|k: int| 0 <= k < rest.len() implies has_id(page, #[trigger] rest[k].id) by {
            let j = choose|j: int| 0 <= j < prev.len() && #[trigger] prev[j].id == rest[k].id;
            assert(page[j].id == rest[k].id);
        }
        assert(page[page.len() - 1].id == page.last().id);
        assert forall|id: i64| has_id(page, id) && !seen.contains(id) implies has_id(r, id) by {
            let j = choose|j: int| 0 <= j < page.len() && #[trigger] page[j].id == id;
            if j < page.len() - 1 {
                assert(prev[j].id == id);
                let m = choose|m: int| 0 <= m < rest.len() && #[trigger] rest[m].id == id;
                assert(r[m].id == id);
            } else if !has_id(prev, id) {
                assert(r[r.len() - 1].id == id);
            } else {
                let m = choose|m: int| 0 <= m < rest.len() && #[trigger] rest[m].id == id;
                assert(r[m].id == id);
            }
        }
        if !(seen.contains(page.last().id) || has_id(prev, page.last().id)) {
            assert forall|k: int| 0 <= k < rest.len() implies #[trigger] rest[k].id != page.last().id by {
                let j = choose|j: int| 0 <= j < prev.len() && #[trigger] prev[j].id == rest[k].id;
            }
        }
    }
}

/// Some page of `pages` carries `id`.
pub open spec fn pages_have_id(pages: Seq<Seq<ListingView>>, id: i64) -> bool {
    exists|i: int| 0 <= i < pages.len() && has_id(#[trigger] pages[i], id)
}

/// The items an aggregation run admits from `pages`, taken in turn after the
/// ids in `seen`: each page is admitted after the ids of the pages before it.
pub open spec fn run_admitted(seen: Set<i64>, pages: Seq<Seq<ListingView>>) -> Seq<ListingView>
    decreases pages.len(),
{
    if pages.len() == 0 {
        Seq::empty()
    } else {
        admitted(seen, pages[0]) + run_admitted(seen.union(page_ids(pages[0])), pages.drop_first())
    }
}

/// What [`run_admitted`] keeps: unseen ids only, no id twice, and every
/// unseen id of every page.
proof fn lemma_run_admitted(seen: Set<i64>, pages: Seq<Seq<ListingView>>)
    ensures
        forall|k: int|
            0 <= k < run_admitted(seen, pages).len() ==> !seen.contains(
                #[trigger] run_admitted(seen, pages)[k].id,
            ),
        forall|k1: int, k2: int|
            0 <= k1 < run_admitted(seen, pages).len() && 0 <= k2 < run_admitted(seen, pages).len()
                && k1 != k2 ==> #[trigger] run_admitted(seen, pages)[k1].id
                != #[trigger] run_admitted(seen, pages)[k2].id,
        forall|id: i64|
            pages_have_id(pages, id) && !seen.contains(id) ==> has_id(run_admitted(seen, pages), id),
    decreases pages.len(),
{
    if pages.len() > 0 {
        let first = pages[0];
        let next = seen.union(page_ids(first));
        let rest = pages.drop_first();
        let a = admitted(seen, first);
        let b = run_admitted(next, rest);
        let all = run_admitted(seen, pages);
        assert(all == a + b);
        lemma_admitted(seen, first);
        lemma_run_admitted(next, rest);
        assert forall|k: int| 0 <= k < all.len() implies !seen.contains(#[trigger] all[k].id) by {
            if k >= a.len() {
                assert(all[k] == b[k - a.len()]);
            }
        }
        assert forall|k1: int, k2: int|
            0 <= k1 < all.len() && 0 <= k2 < all.len() && k1 != k2 implies #[trigger] all[k1].id
            != #[trigger] all[k2].id by {
            if k1 < a.len() && k2 >= a.len() {
                assert(page_ids(first).contains(a[k1].id));
                assert(!next.contains(b[k2 - a.len()].id));
            } else if k2 < a.len() && k1 >= a.len() {
                assert(page_ids(first).contains(a[k2].id));
                assert(!next.contains(b[k1 - a.len()].id));
            } else if k1 >= a.len() {
                assert(b[k1 - a.len()].id != b[k2 - a.len()].id);
            } else {
                assert(a[k1].id != a[k2].id);
            }
        }
        assert forall|id: i64| pages_have_id(pages, id) && !seen.contains(id) implies has_id(
            all,
            id,
        ) by {
            if has_id(first, id) {
                let m = choose|m: int| 0 <= m < a.len() && #[trigger] a[m].id == id;
                assert(all[m].id == id);
            } else {
                let i = choose|i: int| 0 <= i < pages.len() && has_id(#[trigger] pages[i], id);
                assert(i > 0);
                assert(has_id(rest[i - 1], id));
                assert(pages_have_id(rest, id));
                assert(!next.contains(id));
                let m = choose|m: int| 0 <= m < b.len() && #[trigger] b[m].id == id;
                assert(all[a.len() + m].id == id);
            }
        }
    }
}

/// An aggregation run over any number of upstream pages, from a tracker
/// that has seen nothing, admits each id that any page carries exactly once.
pub proof fn lemma_pages_admit_each_id_once(pages: Seq<Seq<ListingView>>, id: i64)
    requires
        pages_have_id(pages, id),
    ensures
        ({
            let all = run_admitted(Set::empty(), pages);
            &&& has_id(all, id)
            &&& forall|k1: int, k2: int|
                0 <= k1 < all.len() && 0 <= k2 < all.len() && #[trigger] all[k1].id == id
                    && #[trigger] all[k2].id == id ==> k1 == k2
        }),
{
    lemma_run_admitted(Set::empty(), pages);
}

/// Each listing is read over this many pages.
pub const LISTING_PAGES: u32 = 5;

/// The kinds of listed media.
#[derive(Debug, Clone, Copy, PartialEq, Eq)]
pub enum MediaKind {
    Movie,
    Tv,
}

/// The upstream listings read for each kind of media.
#[derive(Debug, Clone, Copy, PartialEq, Eq)]
pub enum ListKind {
    TrendingWeek,
    TrendingDay,
    Popular,
    TopRated,
    /// Now in cinemas, or currently airing.
    Current,
}

/// One page of one upstream listing.
#[derive(Debug, Clone, Copy, PartialEq, Eq)]
pub struct ListingQuery {
    pub media: MediaKind,
    pub list: ListKind,
    pub page: u32,
}

/// The listing kind at position `i` of one page's round.
pub open spec fn list_at(i: int) -> ListKind {
    if i == 0 {
        ListKind::TrendingWeek
    } else if i == 1 {
        ListKind::TrendingDay
    } else if i == 2 {
        ListKind::Popular
    } else if i == 3 {
        ListKind::TopRated
    } else {
        ListKind::Current
    }
}

/// The query at position `i` of an aggregation run: pages in turn from 1,
/// and for each page the five movie listings, then the five TV listings.
pub open spec fn query_at(i: int) -> ListingQuery {
    ListingQuery {
        media: if i % 10 < 5 { MediaKind::Movie } else { MediaKind::Tv },
        list: list_at(i % 5),
        page: (i / 10 + 1) as u32,
    }
}

/// The listing kind at position `i` of one page's round.
fn list_kind(i: u32) -> (r: ListKind)
    requires
        i < 5,
    ensures
        r == list_at(i as int),
{
    if i == 0 {
        ListKind::TrendingWeek
    } else if i == 1 {
        ListKind::TrendingDay
    } else if i == 2 {
        ListKind::Popular
    } else if i == 3 {
        ListKind::TopRated
    } else {
        ListKind::Current
    }
}

/// The listing pages an aggregation run reads, in order.
pub fn listing_plan() -> (r: Vec<ListingQuery>)
    ensures
        r@.len() == 10 * LISTING_PAGES,
        forall|i: int| 0 <= i < r@.len() ==> #[trigger] r@[i] == query_at(i),
{
    let mut r: Vec<ListingQuery> = Vec::new();
    let mut page: u32 = 1;
    while page <= LISTING_PAGES
        invariant
            1 <= page <= LISTING_PAGES + 1,
            r@.len() == 10 * (page - 1),
            forall|i: int| 0 <= i < r@.len() ==> #[trigger] r@[i] == query_at(i),
        decreases LISTING_PAGES + 1 - page,
    {
        let mut k: u32 = 0;
        while k < 10
            invariant
                1 <= page <= LISTING_PAGES,
                k <= 10,
                r@.len() == 10 * (page - 1) + k,
                forall|i: int| 0 <= i < r@.len() ==> #[trigger] r@[i] == query_at(i),
            decreases 10 - k,
        {
            let media = if k < 5 { MediaKind::Movie } else { MediaKind::Tv };
            let q = ListingQuery { media, list: list_kind(k % 5), page };
            proof {
                let i = 10 * (page - 1) + k;
                assert(i % 10 == k as int && i / 10 == page - 1) by (nonlinear_arith)
                    requires i == 10 * (page - 1) + k, k < 10, page >= 1;
                assert(i % 5 == k % 5) by (nonlinear_arith)
                    requires i == 10 * (page - 1) + k, k < 10, page >= 1;
            }
            r.push(q);
            k += 1;
        }
        page += 1;
    }
    r
}

/// The mathematical value of an [`Aggregation`].
pub struct AggregationView {
    pub seen: Set<i64>,
    pub collected: Seq<ContentView>,
}

/// One aggregation run: the ids met so far, and the entries built so far.
pub struct Aggregation {
    tracker: ContentTracker,
    collected: Vec<Content>,
}

impl View for Aggregation {
    type V = AggregationView;

    closed spec fn view(&self) -> AggregationView {
        AggregationView { seen: self.tracker@, collected: views(self.collected@) }
    }
}

impl Aggregation {
    /// A run that has met nothing yet.
    pub fn new() -> (r: Aggregation)
        ensures
            r@.seen == Set::<i64>::empty(),
            r@.collected == Seq::<ContentView>::empty(),
    {
        let r = Aggregation { tracker: ContentTracker::new(), collected: Vec::new() };
        assert(r@.collected =~= Seq::<ContentView>::empty());
        r
    }

    /// Takes one listing page and gives the items whose details should be
    /// fetched: those whose ids this run has not met.
    pub fn accept_page(&mut self, page: &Vec<ListingItem>) -> (r: Vec<ListingItem>)
        ensures
            listing_views(r@) == admitted(old(self)@.seen, listing_views(page@)),
            final(self)@.seen == old(self)@.seen.union(page_ids(listing_views(page@))),
            final(self)@.collected == old(self)@.collected,
    {
        admit_page(&mut self.tracker, page)
    }

    /// Adds the entry for an admitted item and its details.
    pub fn add(&mut self, item: &ListingItem, genres: Vec<String>, providers: Vec<String>)
        ensures
            final(self)@.seen == old(self)@.seen,
            final(self)@.collected == old(self)@.collected.push(
                normalized(item@, texts(genres@), texts(providers@)),
            ),
    {
        let c = normalize(item, genres, providers);
        self.collected.push(c);
        assert(views(self.collected@) =~= old(self)@.collected.push(
            normalized(item@, texts(genres@), texts(providers@)),
        ));
    }

    /// The entries built in this run, in random order.
    pub fn finish(self) -> (r: Vec<Content>)
        ensures
            views(r@).to_multiset() == self@.collected.to_multiset(),
    {
        let mut r = self.collected;
        shuffle_contents(&mut r);
        r
    }
}

} // verus!
