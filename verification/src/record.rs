//! The `Content` record: one persisted piece of ingested content, its
//! mathematical view, and the request shapes for creation and partial update.

use vstd::prelude::*;
use crate::content_type::ContentType;

verus! {

/// A persisted content record. `id` is the internal sequential key, `pid`
/// the stable external UUID string; `url` and `pid` are unique across the
/// store. `metadata` is an opaque key/value document.
pub struct Content {
    pub id: u64,
    pub pid: String,
    pub title: Option<String>,
    pub url: String,
    pub content_type: ContentType,
    pub image_url: Option<String>,
    pub description: Option<String>,
    pub raw_content: Option<String>,
    pub summary: Option<String>,
    pub metadata: Option<Vec<(String, String)>>,
    pub created_at: u64,
    pub updated_at: u64,
}

/// The mathematical value of a record: every text field as a sequence of
/// characters, timestamps as plain integers.
pub ghost struct ContentView {
    pub id: u64,
    pub pid: Seq<char>,
    pub title: Option<Seq<char>>,
    pub url: Seq<char>,
    pub content_type: ContentType,
    pub image_url: Option<Seq<char>>,
    pub description: Option<Seq<char>>,
    pub raw_content: Option<Seq<char>>,
    pub summary: Option<Seq<char>>,
    pub metadata: Option<Seq<(Seq<char>, Seq<char>)>>,
    pub created_at: u64,
    pub updated_at: u64,
}

/// The view of an optional string.
pub open spec fn opt_view(o: Option<String>) -> Option<Seq<char>> {
    match o {
        Option::None => Option::None,
        Option::Some(s) => Option::Some(s@),
    }
}

/// The view of a key/value metadata document.
pub open spec fn pairs_view(v: Seq<(String, String)>) -> Seq<(Seq<char>, Seq<char>)> {
    v.map_values(|p: (String, String)| (p.0@, p.1@))
}

/// The view of an optional metadata document.
pub open spec fn meta_view(m: Option<Vec<(String, String)>>) -> Option<Seq<(Seq<char>, Seq<char>)>> {
    match m {
        Option::None => Option::None,
        Option::Some(v) => Option::Some(pairs_view(v@)),
    }
}

impl View for Content {
    type V = ContentView;

    open spec fn view(&self) -> ContentView {
        ContentView {
            id: self.id,
            pid: self.pid@,
            title: opt_view(self.title),
            url: self.url@,
            content_type: self.content_type,
            image_url: opt_view(self.image_url),
            description: opt_view(self.description),
            raw_content: opt_view(self.raw_content),
            summary: opt_view(self.summary),
            metadata: meta_view(self.metadata),
            created_at: self.created_at,
            updated_at: self.updated_at,
        }
    }
}

/// An owned copy of an optional string, equal to the original.
pub fn clone_opt_string(o: &Option<String>) -> (r: Option<String>)
    ensures
        r == *o,
{
    match o {
        Option::None => Option::None,
        Option::Some(s) => Option::Some(s.clone()),
    }
}

/// An owned copy of a metadata document, with the same view.
pub fn clone_metadata(m: &Option<Vec<(String, String)>>) -> (r: Option<Vec<(String, String)>>)
    ensures
        meta_view(r) == meta_view(*m),
{
    match m {
        Option::None => Option::None,
        Option::Some(v) => {
            let mut out: Vec<(String, String)> = Vec::new();
            let mut i: usize = 0;
            while i < v.len()
                invariant
                    i <= v.len(),
                    out@.len() == i,
                    forall|j: int| 0 <= j < i ==> out@[j] == v@[j],
                decreases v.len() - i,
            {
                let pair = (v[i].0.clone(), v[i].1.clone());
                out.push(pair);
                i = i + 1;
            }
            proof {
                assert(out@ =~= v@);
            }
            Option::Some(out)
        },
    }
}

impl Content {
    /// An owned copy of the record, with the same view.
    pub fn duplicate(&self) -> (r: Content)
        ensures
            r@ == self@,
    {
        Content {
            id: self.id,
            pid: self.pid.clone(),
            title: clone_opt_string(&self.title),
            url: self.url.clone(),
            content_type: self.content_type,
            image_url: clone_opt_string(&self.image_url),
            description: clone_opt_string(&self.description),
            raw_content: clone_opt_string(&self.raw_content),
            summary: clone_opt_string(&self.summary),
            metadata: clone_metadata(&self.metadata),
            created_at: self.created_at,
            updated_at: self.updated_at,
        }
    }
}

/// The fields of a create request, as the transport layer hands them over:
/// every field optional at the type level, with `pid`, `url` and
/// `content_type` required by validation.
pub struct ContentCreate {
    pub pid: Option<String>,
    pub url: Option<String>,
    pub content_type: Option<String>,
    pub title: Option<String>,
    pub image_url: Option<String>,
    pub description: Option<String>,
    pub raw_content: Option<String>,
    pub summary: Option<String>,
    pub metadata: Option<Vec<(String, String)>>,
}

/// A partial update: `None` leaves the field unchanged; identity fields
/// (`id`, `pid`) and timestamps are not client-settable.
pub struct ContentUpdate {
    pub title: Option<String>,
    pub url: Option<String>,
    pub content_type: Option<String>,
    pub image_url: Option<String>,
    pub description: Option<String>,
    pub raw_content: Option<String>,
    pub summary: Option<String>,
    pub metadata: Option<Vec<(String, String)>>,
}

} // verus!
