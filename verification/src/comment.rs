//! Comment data types: the stored/served comment, the ingestion request, and
//! the content-kind tag with its persisted integer code.

use vstd::prelude::*;
use crate::database::{
    canon, comment_row_model, find_page_id, id_fresh, lemma_ensure_page_has_id,
    lemma_ensure_page_url, max_page_id, spec_ensure_page, Store, StoreModel,
};
use crate::error::Error;
use crate::sanitize::{sanitize, spec_sanitize};

verus! {

/// One authored, timestamped, sanitized remark attached to a page, as served
/// back to callers. `date` is a UTC timestamp in milliseconds; `id` is the
/// stable identifier assigned at creation.
#[derive(Debug)]
pub struct Comment {
    pub id: String,
    pub author: String,
    pub date: i64,
    pub content: String,
    pub page_url: String,
}

impl Comment {
    /// Explicit column mapping for a served comment: declares exactly which
    /// columns a comment is built from and in which order.
    pub fn from_row(id: String, author: String, date: i64, content: String, page_url: String) -> (r:
        Comment)
        ensures
            r.id == id,
            r.author == author,
            r.date == date,
            r.content == content,
            r.page_url == page_url,
    {
        Comment { id, author, date, content, page_url }
    }
}

/// A request to store a new comment, as handed in by the service boundary.
#[derive(Debug)]
pub struct NewComment {
    pub author: String,
    pub content: String,
    pub content_type: ContentType,
    pub page_url: String,
}

/// A request to list the comments of one page.
#[derive(Debug)]
pub struct CommentRequest {
    pub page_url: String,
}

/// The kind a client declares for the content of a new comment.
#[derive(Copy, Clone, PartialEq, Eq, Debug)]
pub enum ContentType {
    Plain,
    Html,
}

impl ContentType {
    /// The integer code under which a content kind was historically persisted.
    pub open spec fn spec_code(self) -> i64 {
        match self {
            ContentType::Plain => 0,
            ContentType::Html => 1,
        }
    }

    /// The code this kind is persisted as.
    pub fn code(self) -> (r: i64)
        ensures
            r == self.spec_code(),
    {
        match self {
            ContentType::Plain => 0,
            ContentType::Html => 1,
        }
    }

    /// The kind a stored code stands for, if any.
    pub open spec fn spec_from_code(code: i64) -> Option<ContentType> {
        if code == 0 {
            Some(ContentType::Plain)
        } else if code == 1 {
            Some(ContentType::Html)
        } else {
            None
        }
    }

    /// Reads a content kind back from its stored integer code; any other code
    /// is rejected.
    pub fn from_code(code: i64) -> (r: Result<ContentType, Error>)
        ensures
            r is Ok <==> ContentType::spec_from_code(code) is Some,
            r matches Ok(t) ==> ContentType::spec_from_code(code) == Some(t),
    {
        if code == 0 {
            Ok(ContentType::Plain)
        } else if code == 1 {
            Ok(ContentType::Html)
        } else {
            Err(Error::new("not a stored content kind"))
        }
    }

    /// Law: the mapping between content kinds and their stored codes is
    /// bidirectional — reading back the code a kind is persisted as yields
    /// that same kind.
    pub proof fn lemma_code_round_trip(t: ContentType)
        ensures
            ContentType::spec_from_code(t.spec_code()) == Some(t),
    {
    }
}

/// The ingestion pipeline for one new comment: sanitizes the content according
/// to its declared kind, ensures the page for the canonicalized URL, and
/// persists the sanitized content with a store-assigned identifier and
/// timestamp — raw untrusted input is never persisted. Fails only on a
/// page-id or identifier collision, and then stores no comment.
pub fn new_comment(store: &mut Store, req: &NewComment) -> (r: Result<Comment, Error>)
    requires
        old(store)@.wf(),
        old(store)@.version == 3,
    ensures
        final(store)@.wf(),
        final(store)@.version == 3,
        (old(store)@.comments.len() == 0 && (find_page_id(old(store)@.pages, canon(req.page_url@))
            is Some || max_page_id(old(store)@.pages) < i64::MAX)) ==> r is Ok,
        (find_page_id(old(store)@.pages, canon(req.page_url@)) is None && max_page_id(
            old(store)@.pages,
        ) == i64::MAX) ==> r is Err,
        r matches Ok(c) ==> {
            &&& c.id@.len() == 36
            &&& c.author@ == req.author@
            &&& c.content@ == spec_sanitize(req.content_type, req.content@)
            &&& c.page_url@ == canon(req.page_url@)
            &&& id_fresh(old(store)@, c.id@)
            &&& final(store)@ == (StoreModel {
                comments: spec_ensure_page(old(store)@, canon(req.page_url@)).0.comments.push(
                    comment_row_model(
                        c.date as int,
                        req.author@,
                        spec_sanitize(req.content_type, req.content@),
                        spec_ensure_page(old(store)@, canon(req.page_url@)).1,
                        c.id@,
                    ),
                ),
                ..spec_ensure_page(old(store)@, canon(req.page_url@)).0
            })
        },
        r is Err ==> final(store)@.comments == old(store)@.comments,
        r is Err ==> (final(store)@.pages == old(store)@.pages || final(store)@.pages
            == spec_ensure_page(old(store)@, canon(req.page_url@)).0.pages),
{
    let content = sanitize(req.content_type, req.content.as_str());
    let pid = match store.ensure_page(req.page_url.as_str()) {
        Ok(p) => p,
        Err(e) => {
            return Err(e);
        },
    };
    proof {
        lemma_ensure_page_has_id(old(store)@, canon(req.page_url@));
        lemma_ensure_page_url(old(store)@, canon(req.page_url@));
    }
    store.insert_comment(req.author.as_str(), content.as_str(), pid)
}

} // verus!
