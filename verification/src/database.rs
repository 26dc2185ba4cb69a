//! The persistent store, modelled: page and comment rows plus the integer
//! schema version, with the versioned migration engine (`init`) and the
//! comment-store operations over the migrated schema.

use vstd::prelude::*;
use vstd::pervasive::unreached;
use vstd::string::StrSliceExecFns;
use crate::comment::Comment;
use crate::error::Error;
use crate::text::str_eq;

verus! {

/// A stored page row: a commentable resource under its canonical URL.
pub struct PageRow {
    pub id: i64,
    pub url: String,
}

/// A stored comment row, across every schema shape the engine knows:
/// `content_type` holds a value only before the content-kind column is
/// dropped, and `id` only from the version that adds stable identifiers.
pub struct CommentRow {
    pub date: i64,
    pub author: String,
    pub content: String,
    pub content_type: Option<i64>,
    pub page_id: i64,
    pub id: Option<String>,
}

/// Mathematical model of a page row.
#[verifier::ext_equal]
pub struct PageModel {
    pub id: int,
    pub url: Seq<char>,
}

/// Mathematical model of a comment row.
#[verifier::ext_equal]
pub struct CommentModel {
    pub date: int,
    pub author: Seq<char>,
    pub content: Seq<char>,
    pub content_type: Option<int>,
    pub page_id: int,
    pub id: Option<Seq<char>>,
}

/// Mathematical model of the whole store.
#[verifier::ext_equal]
pub struct StoreModel {
    pub version: int,
    pub pages: Seq<PageModel>,
    pub comments: Seq<CommentModel>,
}

impl View for PageRow {
    type V = PageModel;

    open spec fn view(&self) -> PageModel {
        PageModel { id: self.id as int, url: self.url@ }
    }
}

impl View for CommentRow {
    type V = CommentModel;

    open spec fn view(&self) -> CommentModel {
        CommentModel {
            date: self.date as int,
            author: self.author@,
            content: self.content@,
            content_type: match self.content_type {
                Some(c) => Some(c as int),
                None => None,
            },
            page_id: self.page_id as int,
            id: match self.id {
                Some(ref s) => Some(s@),
                None => None,
            },
        }
    }
}

/// The persistent store. Exactly one component owns its rows; the schema
/// version says which migration steps have been applied to it.
pub struct Store {
    pub version: i64,
    pub pages: Vec<PageRow>,
    pub comments: Vec<CommentRow>,
}

impl View for Store {
    type V = StoreModel;

    open spec fn view(&self) -> StoreModel {
        StoreModel {
            version: self.version as int,
            pages: self.pages@.map_values(|p: PageRow| p@),
            comments: self.comments@.map_values(|c: CommentRow| c@),
        }
    }
}

/// A canonical page URL: the URL with every trailing slash stripped.
pub open spec fn canon(url: Seq<char>) -> Seq<char>
    decreases url.len(),
{
    if url.len() > 0 && url.last() == '/' {
        canon(url.drop_last())
    } else {
        url
    }
}

/// Law: canonicalizing twice strips no more than canonicalizing once.
pub proof fn lemma_canon_idempotent(url: Seq<char>)
    ensures
        canon(canon(url)) == canon(url),
    decreases url.len(),
{
    if url.len() > 0 && url.last() == '/' {
        lemma_canon_idempotent(url.drop_last());
    }
}

/// Strips every trailing slash from a page URL.
pub fn canonicalize(url: &str) -> (r: String)
    ensures
        r@ == canon(url@),
{
    let n = url.unicode_len();
    proof {
        assert(url@.subrange(0, n as int) =~= url@);
    }
    let mut k = n;
    while k > 0 && url.get_char(k - 1) == '/'
        invariant
            k <= n,
            n == url@.len(),
            canon(url@) == canon(url@.subrange(0, k as int)),
        decreases k,
    {
        proof {
            let pre = url@.subrange(0, k as int);
            assert(pre.drop_last() =~= url@.subrange(0, k - 1));
        }
        k = k - 1;
    }
    let s = url.substring_char(0, k);
    proof {
        let pre = url@.subrange(0, k as int);
        if k == 0 {
            assert(pre =~= Seq::<char>::empty());
        }
        assert(canon(pre) == pre);
    }
    s.to_owned()
}

/// The id of the page holding `url`, if one exists.
pub open spec fn find_page_id(pages: Seq<PageModel>, url: Seq<char>) -> Option<int>
    decreases pages.len(),
{
    if pages.len() == 0 {
        None
    } else if pages[0].url == url {
        Some(pages[0].id)
    } else {
        find_page_id(pages.drop_first(), url)
    }
}

/// What a page lookup means: `None` exactly when no page holds the URL, and a
/// found id belongs to a page holding it.
pub proof fn lemma_find_page_id_props(pages: Seq<PageModel>, url: Seq<char>)
    ensures
        find_page_id(pages, url) is None <==> (forall|i: int|
            0 <= i < pages.len() ==> (#[trigger] pages[i]).url != url),
        find_page_id(pages, url) matches Some(pid) ==> exists|i: int|
            0 <= i < pages.len() && (#[trigger] pages[i]).url == url && pages[i].id == pid,
    decreases pages.len(),
{
    if pages.len() == 0 {
    } else if pages[0].url == url {
    } else {
        lemma_find_page_id_props(pages.drop_first(), url);
        let tail = pages.drop_first();
        assert(forall|i: int| 0 <= i < tail.len() ==> #[trigger] tail[i] == pages[i + 1]);
        if find_page_id(pages, url) is None {
            assert forall|i: int| 0 <= i < pages.len() implies (#[trigger] pages[i]).url != url by {
                if i > 0 {
                    assert(tail[i - 1] == pages[i]);
                }
            }
        }
        if forall|i: int| 0 <= i < pages.len() ==> (#[trigger] pages[i]).url != url {
            assert forall|i: int| 0 <= i < tail.len() implies (#[trigger] tail[i]).url != url by {
                assert(tail[i] == pages[i + 1]);
                assert(pages[i + 1].url != url);
            }
            assert(find_page_id(tail, url) is None);
        }
        if let Some(pid) = find_page_id(pages, url) {
            assert(exists|i: int|
                0 <= i < tail.len() && (#[trigger] tail[i]).url == url && tail[i].id == pid);
            let i0 = choose|i: int|
                0 <= i < tail.len() && (#[trigger] tail[i]).url == url && tail[i].id == pid;
            assert(pages[i0 + 1].url == url && pages[i0 + 1].id == pid);
        }
    }
}

/// A page lookup after appending a page: an existing page still wins; else the
/// appended page is found exactly when it holds the URL.
pub proof fn lemma_find_page_id_push(pages: Seq<PageModel>, p: PageModel, url: Seq<char>)
    ensures
        find_page_id(pages.push(p), url) == (if find_page_id(pages, url) is Some {
            find_page_id(pages, url)
        } else if p.url == url {
            Some(p.id)
        } else {
            None
        }),
    decreases pages.len(),
{
    if pages.len() == 0 {
        assert(pages.push(p).len() == 1);
        assert(pages.push(p)[0] == p);
        if p.url == url {
            assert(find_page_id(pages.push(p), url) == Some(p.id));
        } else {
            assert(pages.push(p).drop_first() =~= Seq::<PageModel>::empty());
            assert(find_page_id(Seq::<PageModel>::empty(), url) is None);
            assert(find_page_id(pages.push(p), url) is None);
        }
    } else {
        assert(pages.push(p)[0] == pages[0]);
        if pages[0].url == url {
            assert(find_page_id(pages.push(p), url) == Some(pages[0].id));
        } else {
            lemma_find_page_id_push(pages.drop_first(), p, url);
            assert(pages.push(p).drop_first() =~= pages.drop_first().push(p));
            assert(find_page_id(pages.push(p), url) == find_page_id(
                pages.drop_first().push(p),
                url,
            ));
        }
    }
}

/// The largest page id in use, or 0 of an empty table.
pub open spec fn max_page_id(pages: Seq<PageModel>) -> int
    decreases pages.len(),
{
    if pages.len() == 0 {
        0
    } else if pages.last().id > max_page_id(pages.drop_last()) {
        pages.last().id
    } else {
        max_page_id(pages.drop_last())
    }
}

/// The largest page id bounds every page id, and is never negative.
pub proof fn lemma_max_page_id_ge(pages: Seq<PageModel>)
    ensures
        max_page_id(pages) >= 0,
        forall|i: int| 0 <= i < pages.len() ==> (#[trigger] pages[i]).id <= max_page_id(pages),
    decreases pages.len(),
{
    if pages.len() > 0 {
        lemma_max_page_id_ge(pages.drop_last());
        assert(forall|i: int|
            0 <= i < pages.len() - 1 ==> #[trigger] pages[i] == pages.drop_last()[i]);
    }
}

/// Some page of `pages` has the id `pid`.
pub open spec fn references_page(pages: Seq<PageModel>, pid: int) -> bool {
    exists|j: int| 0 <= j < pages.len() && (#[trigger] pages[j]).id == pid
}

impl StoreModel {
    /// Page-table constraints: unique ids, unique URLs, URLs stored canonical.
    pub open spec fn pages_wf(self) -> bool {
        &&& (forall|i: int, j: int|
            0 <= i < j < self.pages.len() ==> (#[trigger] self.pages[i]).id != (
            #[trigger] self.pages[j]).id)
        &&& (forall|i: int, j: int|
            0 <= i < j < self.pages.len() ==> (#[trigger] self.pages[i]).url != (
            #[trigger] self.pages[j]).url)
        &&& (forall|i: int|
            0 <= i < self.pages.len() ==> canon((#[trigger] self.pages[i]).url)
                == self.pages[i].url)
    }

    /// Foreign-key constraint: every comment references an existing page.
    pub open spec fn fk_wf(self) -> bool {
        forall|i: int|
            0 <= i < self.comments.len() ==> references_page(
                self.pages,
                (#[trigger] self.comments[i]).page_id,
            )
    }

    /// What each schema version guarantees of the stored data: a brand-new
    /// store is empty; the content-kind column holds a value exactly while it
    /// exists; stable identifiers exist, uniquely, exactly from the version
    /// that adds them; page and foreign-key constraints always hold.
    pub open spec fn wf(self) -> bool {
        &&& 0 <= self.version <= 3
        &&& (self.version == 0 ==> self.pages.len() == 0 && self.comments.len() == 0)
        &&& self.pages_wf()
        &&& self.fk_wf()
        &&& (self.version <= 1 ==> forall|i: int|
            0 <= i < self.comments.len() ==> (#[trigger] self.comments[i]).content_type is Some)
        &&& (self.version >= 2 ==> forall|i: int|
            0 <= i < self.comments.len() ==> (#[trigger] self.comments[i]).content_type is None)
        &&& (self.version <= 2 ==> forall|i: int|
            0 <= i < self.comments.len() ==> (#[trigger] self.comments[i]).id is None)
        &&& (self.version >= 3 ==> forall|i: int|
            0 <= i < self.comments.len() ==> (#[trigger] self.comments[i]).id is Some)
        &&& (self.version >= 3 ==> forall|i: int, j: int|
            0 <= i < j < self.comments.len() ==> (#[trigger] self.comments[i]).id != (
            #[trigger] self.comments[j]).id)
    }
}

/// What ensuring a page does to a store: an existing page for the canonical
/// URL is reused unchanged; otherwise one page row with a fresh id is added.
pub open spec fn spec_ensure_page(s: StoreModel, cu: Seq<char>) -> (StoreModel, int) {
    match find_page_id(s.pages, cu) {
        Some(pid) => (s, pid),
        None => {
            let pid = max_page_id(s.pages) + 1;
            (StoreModel { pages: s.pages.push(PageModel { id: pid, url: cu }), ..s }, pid)
        },
    }
}

impl Store {
    /// A brand-new, never-migrated store: empty, at schema version 0.
    pub fn new() -> (r: Store)
        ensures
            r@.wf(),
            r@.version == 0,
            r@.pages.len() == 0,
            r@.comments.len() == 0,
    {
        Store { version: 0, pages: Vec::new(), comments: Vec::new() }
    }

    /// The id of the page holding exactly `cu`, if one exists.
    fn find_page(&self, cu: &String) -> (r: Option<i64>)
        ensures
            match r {
                Some(pid) => find_page_id(self@.pages, cu@) == Some(pid as int),
                None => find_page_id(self@.pages, cu@) is None,
            },
    {
        let n = self.pages.len();
        proof {
            assert(self@.pages.subrange(0, n as int) =~= self@.pages);
        }
        let mut i: usize = 0;
        while i < n
            invariant
                i <= n,
                n == self.pages.len(),
                find_page_id(self@.pages, cu@) == find_page_id(
                    self@.pages.subrange(i as int, n as int),
                    cu@,
                ),
            decreases n - i,
        {
            let hit = str_eq(self.pages[i].url.as_str(), cu.as_str());
            proof {
                let tail = self@.pages.subrange(i as int, n as int);
                assert(tail[0] == self@.pages[i as int]);
                assert(tail.drop_first() =~= self@.pages.subrange(i + 1, n as int));
            }
            if hit {
                return Some(self.pages[i].id);
            }
            i = i + 1;
        }
        proof {
            assert(self@.pages.subrange(n as int, n as int) =~= Seq::<PageModel>::empty());
        }
        None
    }

    /// The largest page id in use.
    fn max_page(&self) -> (r: i64)
        ensures
            r as int == max_page_id(self@.pages),
    {
        let n = self.pages.len();
        let mut m: i64 = 0;
        let mut i: usize = 0;
        while i < n
            invariant
                i <= n,
                n == self.pages.len(),
                m as int == max_page_id(self@.pages.subrange(0, i as int)),
            decreases n - i,
        {
            proof {
                let pre = self@.pages.subrange(0, i + 1);
                assert(pre.drop_last() =~= self@.pages.subrange(0, i as int));
                assert(pre.last() == self@.pages[i as int]);
            }
            if self.pages[i].id > m {
                m = self.pages[i].id;
            }
            i = i + 1;
        }
        proof {
            assert(self@.pages.subrange(0, n as int) =~= self@.pages);
        }
        m
    }

    /// Canonicalizes the URL and either finds the existing page or creates
    /// one, so that exactly one page row per canonical URL ever exists. Fails
    /// only when the page-id space is exhausted.
    pub fn ensure_page(&mut self, url: &str) -> (r: Result<i64, Error>)
        requires
            old(self)@.wf(),
            old(self)@.version == 3,
        ensures
            final(self)@.wf(),
            final(self)@.version == 3,
            r matches Ok(pid) ==> final(self)@ == spec_ensure_page(old(self)@, canon(url@)).0
                && pid as int == spec_ensure_page(old(self)@, canon(url@)).1,
            r is Err ==> *final(self) == *old(self) && find_page_id(old(self)@.pages, canon(url@))
                is None && max_page_id(old(self)@.pages) == i64::MAX,
            (find_page_id(old(self)@.pages, canon(url@)) is Some || max_page_id(old(self)@.pages)
                < i64::MAX) ==> r is Ok,
    {
        let cu = canonicalize(url);
        match self.find_page(&cu) {
            Some(pid) => Ok(pid),
            None => {
                let m = self.max_page();
                proof {
                    lemma_max_page_id_ge(self@.pages);
                }
                if m == i64::MAX {
                    return Err(Error::new("page id space exhausted"));
                }
                let pid = m + 1;
                let ghost s0 = self@;
                self.pages.push(PageRow { id: pid, url: cu });
                proof {
                    let pm = PageModel { id: pid as int, url: canon(url@) };
                    assert(self@.pages =~= s0.pages.push(pm));
                    assert(self@.comments =~= s0.comments);
                    lemma_find_page_id_props(s0.pages, canon(url@));
                    lemma_canon_idempotent(url@);
                    let ps = self@.pages;
                    let len = ps.len() as int;
                    assert(forall|i: int| 0 <= i < len - 1 ==> #[trigger] ps[i] == s0.pages[i]);
                    assert(ps[len - 1] == pm);
                    assert forall|i: int, j: int| 0 <= i < j < len implies (#[trigger] ps[i]).id
                        != (#[trigger] ps[j]).id by {
                        if j == len - 1 {
                            assert(s0.pages[i].id <= max_page_id(s0.pages));
                        }
                    }
                    assert forall|i: int, j: int| 0 <= i < j < len implies (#[trigger] ps[i]).url
                        != (#[trigger] ps[j]).url by {
                        if j == len - 1 {
                            assert(s0.pages[i].url != canon(url@));
                        }
                    }
                    assert forall|i: int| 0 <= i < len implies canon((#[trigger] ps[i]).url)
                        == ps[i].url by {
                        if i < len - 1 {
                            assert(ps[i] == s0.pages[i]);
                        }
                    }
                    assert forall|i: int| 0 <= i < self@.comments.len() implies references_page(
                        self@.pages,
                        (#[trigger] self@.comments[i]).page_id,
                    ) by {
                        assert(self@.comments[i] == s0.comments[i]);
                        assert(references_page(s0.pages, s0.comments[i].page_id));
                        let j0 = choose|j: int|
                            0 <= j < s0.pages.len() && (#[trigger] s0.pages[j]).id
                                == s0.comments[i].page_id;
                        assert(self@.pages[j0].id == self@.comments[i].page_id);
                    }
                    assert(self@.wf());
                    assert(self@ =~= spec_ensure_page(s0, canon(url@)).0);
                }
                Ok(pid)
            },
        }
    }
}

/// No stored comment carries the identifier `id`.
pub open spec fn id_fresh(s: StoreModel, id: Seq<char>) -> bool {
    forall|i: int| 0 <= i < s.comments.len() ==> (#[trigger] s.comments[i]).id != Some(id)
}

/// The URL of the page with id `pid` (meaningful when such a page exists;
/// unique by `pages_wf`).
pub open spec fn page_url_of(s: StoreModel, pid: int) -> Seq<char> {
    s.pages[choose|j: int| 0 <= j < s.pages.len() && (#[trigger] s.pages[j]).id == pid].url
}

/// The stored shape of a freshly inserted comment row.
pub open spec fn comment_row_model(
    date: int,
    author: Seq<char>,
    content: Seq<char>,
    page_id: int,
    id: Seq<char>,
) -> CommentModel {
    CommentModel { date, author, content, content_type: None, page_id, id: Some(id) }
}

/// The stored comments attached to page `pid`, in insertion order.
pub open spec fn rows_for(cs: Seq<CommentModel>, pid: int) -> Seq<CommentModel>
    decreases cs.len(),
{
    if cs.len() == 0 {
        Seq::<CommentModel>::empty()
    } else if cs.last().page_id == pid {
        rows_for(cs.drop_last(), pid).push(cs.last())
    } else {
        rows_for(cs.drop_last(), pid)
    }
}

/// What listing a page's comments returns: nothing for an unknown page, else
/// the page's comments in insertion order.
pub open spec fn spec_list(s: StoreModel, cu: Seq<char>) -> Seq<CommentModel> {
    match find_page_id(s.pages, cu) {
        Some(pid) => rows_for(s.comments, pid),
        None => Seq::<CommentModel>::empty(),
    }
}

/// Appending a comment row extends the listing of its page and no other.
pub proof fn lemma_rows_for_push(cs: Seq<CommentModel>, c: CommentModel, pid: int)
    ensures
        rows_for(cs.push(c), pid) == (if c.page_id == pid {
            rows_for(cs, pid).push(c)
        } else {
            rows_for(cs, pid)
        }),
{
    assert(cs.push(c).drop_last() =~= cs);
    assert(cs.push(c).last() == c);
}

/// A page no comment references has an empty listing.
pub proof fn lemma_rows_for_absent(cs: Seq<CommentModel>, pid: int)
    requires
        forall|i: int| 0 <= i < cs.len() ==> (#[trigger] cs[i]).page_id != pid,
    ensures
        rows_for(cs, pid) == Seq::<CommentModel>::empty(),
    decreases cs.len(),
{
    if cs.len() > 0 {
        assert(cs.last() == cs[cs.len() - 1]);
        assert(forall|i: int| 0 <= i < cs.len() - 1 ==> #[trigger] cs.drop_last()[i] == cs[i]);
        lemma_rows_for_absent(cs.drop_last(), pid);
    }
}

/// Relies on uuid's `Uuid::new_v4` and its display form: a freshly generated
/// random identifier, rendered hyphenated, which is always 36 characters long.
#[verifier::external_body]
fn fresh_comment_id() -> (r: String)
    ensures
        r@.len() == 36,
{
    uuid::Uuid::new_v4().to_string()
}

/// Relies on std's `SystemTime::now` and chrono's conversion from it, which
/// handles a clock on either side of the epoch without panicking: the current
/// UTC time, in milliseconds since the epoch. Nothing is assumed of the value
/// — it depends on the clock.
#[verifier::external_body]
fn now_millis() -> (r: i64) {
    chrono::DateTime::<chrono::Utc>::from(std::time::SystemTime::now()).timestamp_millis()
}

/// Each served comment carries its row's data and the canonical URL the
/// listing was requested under.
pub open spec fn comments_match(out: Seq<Comment>, rows: Seq<CommentModel>, cu: Seq<char>) -> bool {
    &&& out.len() == rows.len()
    &&& forall|i: int|
        0 <= i < rows.len() ==> {
            &&& (#[trigger] out[i]).author@ == rows[i].author
            &&& out[i].content@ == rows[i].content
            &&& out[i].date as int == rows[i].date
            &&& rows[i].id == Some(out[i].id@)
            &&& out[i].page_url@ == cu
        }
}

impl Store {
    /// The stored URL of page `pid`, when that page exists.
    fn url_of_page(&self, pid: i64) -> (r: Option<String>)
        requires
            self@.pages_wf(),
        ensures
            match r {
                Some(u) => references_page(self@.pages, pid as int) && u@ == page_url_of(
                    self@,
                    pid as int,
                ),
                None => forall|j: int|
                    0 <= j < self@.pages.len() ==> (#[trigger] self@.pages[j]).id != pid as int,
            },
    {
        let n = self.pages.len();
        let mut i: usize = 0;
        while i < n
            invariant
                i <= n,
                n == self.pages.len(),
                self@.pages_wf(),
                forall|j: int| 0 <= j < i ==> (#[trigger] self@.pages[j]).id != pid as int,
            decreases n - i,
        {
            if self.pages[i].id == pid {
                proof {
                    assert(self@.pages[i as int].id == pid as int);
                    let j0 = choose|j: int|
                        0 <= j < self@.pages.len() && (#[trigger] self@.pages[j]).id == pid as int;
                    if j0 != i as int {
                        if j0 < i as int {
                            assert(self@.pages[j0].id != self@.pages[i as int].id);
                        } else {
                            assert(self@.pages[i as int].id != self@.pages[j0].id);
                        }
                    }
                    assert(page_url_of(self@, pid as int) == self@.pages[i as int].url);
                }
                return Some(self.pages[i].url.clone());
            }
            i = i + 1;
        }
        None
    }

    /// Whether some stored comment already carries the identifier `id`.
    fn has_comment_id(&self, id: &String) -> (r: bool)
        ensures
            r == !id_fresh(self@, id@),
    {
        let n = self.comments.len();
        let mut i: usize = 0;
        while i < n
            invariant
                i <= n,
                n == self.comments.len(),
                forall|k: int| 0 <= k < i ==> (#[trigger] self@.comments[k]).id != Some(id@),
            decreases n - i,
        {
            match &self.comments[i].id {
                Some(s) => {
                    if str_eq(s.as_str(), id.as_str()) {
                        proof {
                            assert(self@.comments[i as int].id == Some(id@));
                        }
                        return true;
                    }
                },
                None => {},
            }
            i = i + 1;
        }
        false
    }

    /// The deterministic core of `insert_comment`: persists one comment row
    /// under the given identifier and timestamp, if and only if no stored
    /// comment already carries that identifier (the uniqueness constraint).
    /// The service path never takes these from a client: `insert_comment`
    /// derives both inside the store.
    pub fn insert_comment_with(
        &mut self,
        author: &str,
        content: &str,
        page_id: i64,
        id: String,
        date: i64,
    ) -> (r: Result<Comment, Error>)
        requires
            old(self)@.wf(),
            old(self)@.version == 3,
            references_page(old(self)@.pages, page_id as int),
        ensures
            final(self)@.wf(),
            final(self)@.version == 3,
            r is Ok <==> id_fresh(old(self)@, id@),
            r matches Ok(c) ==> {
                &&& c.id@ == id@
                &&& c.date == date
                &&& c.author@ == author@
                &&& c.content@ == content@
                &&& c.page_url@ == page_url_of(old(self)@, page_id as int)
                &&& final(self)@ == (StoreModel {
                    comments: old(self)@.comments.push(
                        comment_row_model(date as int, author@, content@, page_id as int, id@),
                    ),
                    ..old(self)@
                })
            },
            r is Err ==> *final(self) == *old(self),
    {
        if self.has_comment_id(&id) {
            return Err(Error::new("comment identifier already stored"));
        }
        let url = match self.url_of_page(page_id) {
            Some(u) => u,
            None => unreached(),
        };
        let ghost s0 = self@;
        let row = CommentRow {
            date,
            author: author.to_owned(),
            content: content.to_owned(),
            content_type: None,
            page_id,
            id: Some(id.clone()),
        };
        self.comments.push(row);
        let c = Comment::from_row(id, author.to_owned(), date, content.to_owned(), url);
        proof {
            let rm = comment_row_model(date as int, author@, content@, page_id as int, c.id@);
            assert(self@.comments =~= s0.comments.push(rm));
            assert(self@.pages == s0.pages);
            let cs = self@.comments;
            let len = cs.len() as int;
            assert(forall|k: int| 0 <= k < len - 1 ==> #[trigger] cs[k] == s0.comments[k]);
            assert(cs[len - 1] == rm);
            assert forall|i: int| 0 <= i < len implies (#[trigger] cs[i]).id is Some
                && cs[i].content_type is None by {}
            assert forall|i: int, j: int| 0 <= i < j < len implies (#[trigger] cs[i]).id != (
            #[trigger] cs[j]).id by {
                if j == len - 1 {
                    assert(s0.comments[i].id != Some(id@));
                }
            }
            assert forall|i: int| 0 <= i < len implies references_page(
                self@.pages,
                (#[trigger] cs[i]).page_id,
            ) by {
                if i < len - 1 {
                    assert(cs[i].page_id == s0.comments[i].page_id);
                    assert(references_page(s0.pages, s0.comments[i].page_id));
                } else {
                    assert(cs[i].page_id == page_id as int);
                    assert(references_page(s0.pages, page_id as int));
                }
            }
            assert(self@.wf());
            assert(self@ =~= (StoreModel { comments: s0.comments.push(rm), ..s0 }));
        }
        Ok(c)
    }

    /// Assigns a new unique identifier and a UTC creation timestamp, persists
    /// the row, and returns the fully populated comment. Identifier and
    /// timestamp are never client-supplied. Fails only if the freshly
    /// generated identifier collides with a stored one.
    pub fn insert_comment(&mut self, author: &str, content: &str, page_id: i64) -> (r: Result<
        Comment,
        Error,
    >)
        requires
            old(self)@.wf(),
            old(self)@.version == 3,
            references_page(old(self)@.pages, page_id as int),
        ensures
            final(self)@.wf(),
            final(self)@.version == 3,
            old(self)@.comments.len() == 0 ==> r is Ok,
            r matches Ok(c) ==> {
                &&& id_fresh(old(self)@, c.id@)
                &&& c.id@.len() == 36
                &&& c.author@ == author@
                &&& c.content@ == content@
                &&& c.page_url@ == page_url_of(old(self)@, page_id as int)
                &&& final(self)@ == (StoreModel {
                    comments: old(self)@.comments.push(
                        comment_row_model(
                            c.date as int,
                            author@,
                            content@,
                            page_id as int,
                            c.id@,
                        ),
                    ),
                    ..old(self)@
                })
            },
            r is Err ==> *final(self) == *old(self),
    {
        let id = fresh_comment_id();
        let date = now_millis();
        self.insert_comment_with(author, content, page_id, id, date)
    }

    /// Returns every comment of the canonicalized URL, in insertion order; a
    /// URL without a page yields the empty sequence, not an error.
    pub fn list_comments(&self, page_url: &str) -> (r: Vec<Comment>)
        requires
            self@.wf(),
            self@.version == 3,
        ensures
            comments_match(r@, spec_list(self@, canon(page_url@)), canon(page_url@)),
    {
        let cu = canonicalize(page_url);
        let pid = match self.find_page(&cu) {
            Some(pid) => pid,
            None => {
                return Vec::new();
            },
        };
        let n = self.comments.len();
        let mut out: Vec<Comment> = Vec::new();
        let mut i: usize = 0;
        proof {
            assert(self@.comments.subrange(0, 0) =~= Seq::<CommentModel>::empty());
        }
        while i < n
            invariant
                i <= n,
                n == self.comments.len(),
                self@.wf(),
                self@.version == 3,
                cu@ == canon(page_url@),
                find_page_id(self@.pages, cu@) == Some(pid as int),
                comments_match(
                    out@,
                    rows_for(self@.comments.subrange(0, i as int), pid as int),
                    cu@,
                ),
            decreases n - i,
        {
            let row = &self.comments[i];
            if row.page_id == pid {
                let cid = match &row.id {
                    Some(s) => s.clone(),
                    None => {
                        proof {
                            assert(self@.comments[i as int] == self.comments@[i as int]@);
                            assert(self@.comments[i as int].id is Some);
                        }
                        unreached()
                    },
                };
                out.push(
                    Comment::from_row(cid, row.author.clone(), row.date, row.content.clone(), cu.clone()),
                );
            }
            i = i + 1;
            proof {
                let pre = self@.comments.subrange(0, i as int);
                assert(pre.drop_last() =~= self@.comments.subrange(0, i - 1));
                assert(pre.last() == self@.comments[i - 1]);
                assert(comments_match(out@, rows_for(pre, pid as int), cu@));
            }
        }
        proof {
            assert(self@.comments.subrange(0, n as int) =~= self@.comments);
        }
        out
    }
}

/// The id `spec_ensure_page` returns names a page of the resulting store.
pub proof fn lemma_ensure_page_has_id(s: StoreModel, cu: Seq<char>)
    ensures
        references_page(spec_ensure_page(s, cu).0.pages, spec_ensure_page(s, cu).1),
{
    if let Some(pid) = find_page_id(s.pages, cu) {
        lemma_find_page_id_props(s.pages, cu);
        let i0 = choose|i: int|
            0 <= i < s.pages.len() && (#[trigger] s.pages[i]).url == cu && s.pages[i].id == pid;
        assert(s.pages[i0].id == pid);
    } else {
        let s1 = spec_ensure_page(s, cu).0;
        let pid = spec_ensure_page(s, cu).1;
        assert(s1.pages[s1.pages.len() - 1].id == pid);
    }
}

/// The page `spec_ensure_page` yields holds exactly the requested URL.
pub proof fn lemma_ensure_page_url(s: StoreModel, cu: Seq<char>)
    requires
        s.wf(),
    ensures
        page_url_of(spec_ensure_page(s, cu).0, spec_ensure_page(s, cu).1) == cu,
{
    lemma_find_page_id_props(s.pages, cu);
    if let Some(pid) = find_page_id(s.pages, cu) {
        let i0 = choose|i: int|
            0 <= i < s.pages.len() && (#[trigger] s.pages[i]).url == cu && s.pages[i].id == pid;
        assert(s.pages[i0].id == pid);
        let j0 = choose|j: int| 0 <= j < s.pages.len() && (#[trigger] s.pages[j]).id == pid;
        if j0 != i0 {
            if j0 < i0 {
                assert(s.pages[j0].id != s.pages[i0].id);
            } else {
                assert(s.pages[i0].id != s.pages[j0].id);
            }
        }
        assert(page_url_of(s, pid) == s.pages[j0].url);
    } else {
        let s1 = spec_ensure_page(s, cu).0;
        let pid = max_page_id(s.pages) + 1;
        lemma_max_page_id_ge(s.pages);
        let last = s1.pages.len() - 1;
        assert(s1.pages[last].id == pid);
        let j0 = choose|j: int| 0 <= j < s1.pages.len() && (#[trigger] s1.pages[j]).id == pid;
        if j0 != last {
            assert(s1.pages[j0] == s.pages[j0]);
            assert(s.pages[j0].id <= max_page_id(s.pages));
        }
        assert(page_url_of(s1, pid) == s1.pages[j0].url);
    }
}

/// How many page rows hold exactly `url`.
pub open spec fn count_pages_with(pages: Seq<PageModel>, url: Seq<char>) -> int
    decreases pages.len(),
{
    if pages.len() == 0 {
        0
    } else {
        count_pages_with(pages.drop_last(), url) + (if pages.last().url == url {
            1int
        } else {
            0int
        })
    }
}

/// With no page holding the URL, the count is zero.
proof fn lemma_count_zero(pages: Seq<PageModel>, url: Seq<char>)
    requires
        forall|i: int| 0 <= i < pages.len() ==> (#[trigger] pages[i]).url != url,
    ensures
        count_pages_with(pages, url) == 0,
    decreases pages.len(),
{
    if pages.len() > 0 {
        assert(forall|i: int|
            0 <= i < pages.len() - 1 ==> #[trigger] pages.drop_last()[i] == pages[i]);
        assert(pages.last() == pages[pages.len() - 1]);
        lemma_count_zero(pages.drop_last(), url);
    }
}

/// With pairwise-distinct URLs, a URL that occurs on some row occurs on
/// exactly one.
proof fn lemma_count_unique(pages: Seq<PageModel>, url: Seq<char>, k: int)
    requires
        forall|i: int, j: int|
            0 <= i < j < pages.len() ==> (#[trigger] pages[i]).url != (#[trigger] pages[j]).url,
        0 <= k < pages.len(),
        pages[k].url == url,
    ensures
        count_pages_with(pages, url) == 1,
    decreases pages.len(),
{
    let pre = pages.drop_last();
    assert(forall|i: int| 0 <= i < pages.len() - 1 ==> #[trigger] pre[i] == pages[i]);
    assert(pages.last() == pages[pages.len() - 1]);
    if k == pages.len() - 1 {
        assert forall|i: int| 0 <= i < pre.len() implies (#[trigger] pre[i]).url != url by {
            assert(pages[i].url != pages[k].url);
        }
        lemma_count_zero(pre, url);
    } else {
        assert(pages[k].url != pages[pages.len() - 1].url);
        lemma_count_unique(pre, url, k);
    }
}

/// Law: ensuring a page is idempotent, and afterwards exactly one page row
/// holds the canonical URL — so any number of repeated calls for one URL
/// yields exactly one page row, a later call finding what an earlier one made.
pub proof fn lemma_ensure_page_once(s: StoreModel, cu: Seq<char>)
    requires
        s.wf(),
    ensures
        ({
            let (s1, pid) = spec_ensure_page(s, cu);
            &&& spec_ensure_page(s1, cu) == (s1, pid)
            &&& count_pages_with(s1.pages, cu) == 1
        }),
{
    lemma_find_page_id_props(s.pages, cu);
    if let Some(pid) = find_page_id(s.pages, cu) {
        let i0 = choose|i: int|
            0 <= i < s.pages.len() && (#[trigger] s.pages[i]).url == cu && s.pages[i].id == pid;
        lemma_count_unique(s.pages, cu, i0);
        assert(spec_ensure_page(s, cu).0 == s);
    } else {
        let pid = max_page_id(s.pages) + 1;
        let p = PageModel { id: pid, url: cu };
        let s1 = spec_ensure_page(s, cu).0;
        lemma_find_page_id_push(s.pages, p, cu);
        assert(find_page_id(s1.pages, cu) == Some(pid));
        assert(spec_ensure_page(s1, cu) == (s1, pid));
        lemma_count_zero(s.pages, cu);
        assert(s1.pages.drop_last() =~= s.pages);
        assert(s1.pages.last() == p);
        assert(count_pages_with(s1.pages, cu) == 1);
    }
}

/// Law (round trip): after ensuring the page of a URL and appending a comment
/// row attached to it, the listing for that URL is the old listing with the
/// new row at its end — an inserted comment comes back, in insertion order,
/// with exactly the fields it was stored with, and disturbs no other listing
/// entry.
pub proof fn lemma_round_trip(s: StoreModel, cu: Seq<char>, row: CommentModel)
    requires
        s.wf(),
        row.page_id == spec_ensure_page(s, cu).1,
    ensures
        ({
            let s1 = spec_ensure_page(s, cu).0;
            let s2 = StoreModel { comments: s1.comments.push(row), ..s1 };
            spec_list(s2, cu) == spec_list(s, cu).push(row)
        }),
{
    let s1 = spec_ensure_page(s, cu).0;
    let pid = spec_ensure_page(s, cu).1;
    let s2 = StoreModel { comments: s1.comments.push(row), ..s1 };
    lemma_rows_for_push(s1.comments, row, pid);
    if let Some(p0) = find_page_id(s.pages, cu) {
        assert(s1 == s);
        assert(find_page_id(s2.pages, cu) == Some(pid));
        assert(spec_list(s2, cu) == rows_for(s.comments, pid).push(row));
    } else {
        let p = PageModel { id: pid, url: cu };
        lemma_find_page_id_push(s.pages, p, cu);
        assert(find_page_id(s2.pages, cu) == Some(pid));
        lemma_max_page_id_ge(s.pages);
        assert forall|i: int| 0 <= i < s.comments.len() implies (#[trigger] s.comments[i]).page_id
            != pid by {
            assert(references_page(s.pages, s.comments[i].page_id));
            let j0 = choose|j: int|
                0 <= j < s.pages.len() && (#[trigger] s.pages[j]).id == s.comments[i].page_id;
            assert(s.pages[j0].id <= max_page_id(s.pages));
        }
        lemma_rows_for_absent(s.comments, pid);
        assert(spec_list(s, cu) =~= Seq::<CommentModel>::empty());
        assert(s1.comments == s.comments);
        assert(spec_list(s2, cu) == rows_for(s.comments, pid).push(row));
        assert(spec_list(s2, cu) =~= spec_list(s, cu).push(row));
    }
}

/// Every comment row of `a` still exists in `b`, in place, with its user data
/// (timestamp, author, content, page) intact.
pub open spec fn core_preserved(a: Seq<CommentModel>, b: Seq<CommentModel>) -> bool {
    &&& b.len() == a.len()
    &&& forall|i: int|
        0 <= i < a.len() ==> {
            &&& (#[trigger] b[i]).date == a[i].date
            &&& b[i].author == a[i].author
            &&& b[i].content == a[i].content
            &&& b[i].page_id == a[i].page_id
        }
}

/// Comments that keep their page references satisfy the foreign-key constraint
/// over the same page table.
proof fn lemma_fk_transfer(s0: StoreModel, s1: StoreModel)
    requires
        s0.fk_wf(),
        s1.pages == s0.pages,
        s1.comments.len() == s0.comments.len(),
        forall|i: int|
            0 <= i < s1.comments.len() ==> (#[trigger] s1.comments[i]).page_id
                == s0.comments[i].page_id,
    ensures
        s1.fk_wf(),
{
    assert forall|i: int| 0 <= i < s1.comments.len() implies references_page(
        s1.pages,
        (#[trigger] s1.comments[i]).page_id,
    ) by {
        assert(s1.comments[i].page_id == s0.comments[i].page_id);
        assert(references_page(s0.pages, s0.comments[i].page_id));
    }
}

/// Whether the strings differ pairwise.
fn all_distinct(v: &Vec<String>) -> (r: bool)
    ensures
        r == (forall|i: int, j: int|
            0 <= i < j < v@.len() ==> (#[trigger] v@[i])@ != (#[trigger] v@[j])@),
{
    let n = v.len();
    let mut i: usize = 0;
    while i < n
        invariant
            i <= n,
            n == v@.len(),
            forall|a: int, b: int|
                0 <= a < b < n && a < i ==> (#[trigger] v@[a])@ != (#[trigger] v@[b])@,
        decreases n - i,
    {
        let mut j = i + 1;
        while j < n
            invariant
                i < j <= n,
                i < n,
                n == v@.len(),
                forall|b: int| i < b < j ==> (#[trigger] v@[b])@ != v@[i as int]@,
            decreases n - j,
        {
            if str_eq(v[i].as_str(), v[j].as_str()) {
                proof {
                    assert(v@[i as int]@ == v@[j as int]@);
                }
                return false;
            }
            j = j + 1;
        }
        i = i + 1;
    }
    true
}

/// The deterministic core of `init`: runs the migration with the stable
/// identifiers to backfill handed in. It succeeds if and only if the store is
/// already up to date or the identifiers are one per stored comment and
/// pairwise distinct; the identifier step is applied entirely or not at all.
/// The service path never takes identifiers from outside: `init` generates
/// them itself.
pub fn init_with_ids(store: &mut Store, ids: &Vec<String>) -> (r: Result<(), Error>)
    requires
        old(store)@.wf(),
    ensures
        final(store)@.wf(),
        final(store)@.pages == old(store)@.pages,
        core_preserved(old(store)@.comments, final(store)@.comments),
        old(store)@.version == 3 ==> r is Ok && *final(store) == *old(store),
        r is Ok <==> old(store)@.version == 3 || (ids@.len() == old(store)@.comments.len() && (
        forall|i: int, j: int| 0 <= i < j < ids@.len() ==> (#[trigger] ids@[i])@ != (
        #[trigger] ids@[j])@)),
        r is Ok ==> final(store)@.version == 3,
        (r is Ok && old(store)@.version < 3) ==> forall|k: int|
            0 <= k < final(store)@.comments.len() ==> (#[trigger] final(store)@.comments[k]).id
                == Some(ids@[k]@),
        r is Err ==> final(store)@.version == 2 && old(store)@.version < 3,
{
    if store.version < 1 {
        // establishing the base schema stores no rows: a version-0 store is empty
        store.version = 1;
        proof {
            assert(store@.comments == old(store)@.comments);
            assert(store@.pages == old(store)@.pages);
            assert(store@.wf());
        }
    }
    if store.version < 2 {
        let ghost s1 = store@;
        let n = store.comments.len();
        let mut out: Vec<CommentRow> = Vec::new();
        let mut i: usize = 0;
        while i < n
            invariant
                i <= n,
                n == store.comments.len(),
                store@ == s1,
                out@.len() == i,
                forall|k: int|
                    0 <= k < i ==> {
                        let a = (#[trigger] out@[k])@;
                        let b = s1.comments[k];
                        a.date == b.date && a.author == b.author && a.content == b.content
                            && a.page_id == b.page_id && a.content_type is None && a.id is None
                    },
            decreases n - i,
        {
            let row = &store.comments[i];
            out.push(
                CommentRow {
                    date: row.date,
                    author: row.author.clone(),
                    content: row.content.clone(),
                    content_type: None,
                    page_id: row.page_id,
                    id: None,
                },
            );
            i = i + 1;
        }
        let ghost newcs = out@;
        store.comments = out;
        store.version = 2;
        proof {
            let sm = store@;
            assert(sm.comments.len() == n);
            assert(sm.pages == s1.pages);
            assert forall|k: int| 0 <= k < n implies (#[trigger] sm.comments[k]) == newcs[k]@ by {}
            assert forall|k: int| 0 <= k < n implies ((#[trigger] sm.comments[k]).content_type
                is None) && sm.comments[k].id is None && sm.comments[k].date
                == s1.comments[k].date && sm.comments[k].author == s1.comments[k].author
                && sm.comments[k].content == s1.comments[k].content && sm.comments[k].page_id
                == s1.comments[k].page_id by {
                assert(sm.comments[k] == newcs[k]@);
            }
            lemma_fk_transfer(s1, sm);
            assert(sm.pages_wf());
            assert(sm.wf());
            assert(core_preserved(s1.comments, sm.comments));
        }
    }
    if store.version < 3 {
        let ghost s2 = store@;
        let n = store.comments.len();
        if ids.len() != n {
            return Err(Error::new("one identifier per stored comment is needed"));
        }
        if !all_distinct(ids) {
            return Err(Error::new("the supplied comment identifiers collide"));
        }
        let mut out: Vec<CommentRow> = Vec::new();
        let mut j: usize = 0;
        while j < n
            invariant
                j <= n,
                n == store.comments.len(),
                n == ids@.len(),
                store@ == s2,
                forall|a: int, b: int|
                    0 <= a < b < n ==> (#[trigger] ids@[a])@ != (#[trigger] ids@[b])@,
                out@.len() == j,
                forall|k: int|
                    0 <= k < j ==> {
                        let a = (#[trigger] out@[k])@;
                        let b = s2.comments[k];
                        a.date == b.date && a.author == b.author && a.content == b.content
                            && a.page_id == b.page_id && a.content_type is None && a.id == Some(
                            ids@[k]@,
                        )
                    },
            decreases n - j,
        {
            let row = &store.comments[j];
            out.push(
                CommentRow {
                    date: row.date,
                    author: row.author.clone(),
                    content: row.content.clone(),
                    content_type: None,
                    page_id: row.page_id,
                    id: Some(ids[j].clone()),
                },
            );
            j = j + 1;
        }
        let ghost newcs = out@;
        store.comments = out;
        store.version = 3;
        proof {
            let sm = store@;
            assert(sm.comments.len() == n);
            assert(sm.pages == s2.pages);
            assert forall|k: int| 0 <= k < n implies (#[trigger] sm.comments[k]) == newcs[k]@ by {}
            assert forall|k: int| 0 <= k < n implies ((#[trigger] sm.comments[k]).content_type
                is None) && sm.comments[k].id == Some(ids@[k]@) && sm.comments[k].date
                == s2.comments[k].date && sm.comments[k].author == s2.comments[k].author
                && sm.comments[k].content == s2.comments[k].content && sm.comments[k].page_id
                == s2.comments[k].page_id by {
                assert(sm.comments[k] == newcs[k]@);
            }
            lemma_fk_transfer(s2, sm);
            assert forall|a: int, b: int| 0 <= a < b < n implies (#[trigger] sm.comments[a]).id
                != (#[trigger] sm.comments[b]).id by {
                assert(sm.comments[a].id == Some(ids@[a]@));
                assert(sm.comments[b].id == Some(ids@[b]@));
                assert(ids@[a]@ != ids@[b]@);
            }
            assert(sm.pages_wf());
            assert(sm.wf());
            assert(core_preserved(s2.comments, sm.comments));
        }
    }
    Ok(())
}

/// Brings a store from whatever schema version it is at up to the version the
/// running code expects, step by step, preserving every stored row: step 1
/// establishes the base schema (a brand-new store is empty), step 2 drops the
/// content-kind column, step 3 gives every pre-existing comment a freshly
/// generated stable identifier, all in one unit of work. Running the engine on
/// an up-to-date store changes nothing. It fails only if two freshly generated
/// identifiers collide, and then leaves the identifier step entirely
/// unapplied, ready for a retry.
pub fn init(store: &mut Store) -> (r: Result<(), Error>)
    requires
        old(store)@.wf(),
    ensures
        final(store)@.wf(),
        final(store)@.pages == old(store)@.pages,
        core_preserved(old(store)@.comments, final(store)@.comments),
        r is Ok ==> final(store)@.version == 3,
        old(store)@.version == 3 ==> r is Ok && *final(store) == *old(store),
        old(store)@.comments.len() <= 1 ==> r is Ok,
        (r is Ok && old(store)@.version < 3) ==> forall|k: int|
            0 <= k < final(store)@.comments.len() ==> ((#[trigger] final(store)@.comments[k]).id
                matches Some(cid) && cid.len() == 36),
        r is Err ==> final(store)@.version == 2 && old(store)@.version < 3,
{
    let n = store.comments.len();
    let mut ids: Vec<String> = Vec::new();
    let mut i: usize = 0;
    while i < n
        invariant
            i <= n,
            ids@.len() == i,
            forall|k: int| 0 <= k < i ==> (#[trigger] ids@[k])@.len() == 36,
        decreases n - i,
    {
        ids.push(fresh_comment_id());
        i = i + 1;
    }
    init_with_ids(store, &ids)
}

/// The SQL text of one migration step, for the connection layer that executes
/// the engine's plan against a live store: step 1 establishes the base schema,
/// step 2 drops the content-kind column, and step 3 adds the stable-identifier
/// column with its uniqueness index (the per-row identifier backfill is data
/// the executing side supplies row by row, inside the same transaction). Only
/// steps 1 to 3 exist.
pub fn migration_sql(step: i64) -> (r: Option<&'static str>)
    ensures
        r is Some <==> 1 <= step <= 3,
        step == 1 ==> (r matches Some(s) && s@
            == "CREATE TABLE pages (\n    id INTEGER PRIMARY KEY,\n    url TEXT UNIQUE NOT NULL\n);\nCREATE TABLE comments (\n    date TEXT NOT NULL,\n    author TEXT NOT NULL,\n    content TEXT NOT NULL,\n    content_type INTEGER NOT NULL,\n    page_id INTEGER NOT NULL REFERENCES pages(id)\n);\nCREATE INDEX comments_by_page ON comments(page_id);"@),
        step == 2 ==> (r matches Some(s) && s@
            == "ALTER TABLE comments DROP COLUMN content_type;"@),
        step == 3 ==> (r matches Some(s) && s@
            == "ALTER TABLE comments ADD COLUMN id TEXT;\nCREATE UNIQUE INDEX comments_id ON comments(id);"@),
{
    if step == 1 {
        Some(
            "CREATE TABLE pages (\n    id INTEGER PRIMARY KEY,\n    url TEXT UNIQUE NOT NULL\n);\nCREATE TABLE comments (\n    date TEXT NOT NULL,\n    author TEXT NOT NULL,\n    content TEXT NOT NULL,\n    content_type INTEGER NOT NULL,\n    page_id INTEGER NOT NULL REFERENCES pages(id)\n);\nCREATE INDEX comments_by_page ON comments(page_id);",
        )
    } else if step == 2 {
        Some("ALTER TABLE comments DROP COLUMN content_type;")
    } else if step == 3 {
        Some(
            "ALTER TABLE comments ADD COLUMN id TEXT;\nCREATE UNIQUE INDEX comments_id ON comments(id);",
        )
    } else {
        None
    }
}

} // verus!
