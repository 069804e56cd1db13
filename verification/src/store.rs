//! The content store: durable storage and retrieval of `Content` records
//! with verified create / get / list / update / delete / URL-existence
//! operations.
//!
//! The store's mathematical value (its view) is the sequence of record
//! views in insertion order, which is also ascending `id` order.

use vstd::prelude::*;
use vstd::pervasive::VecAdditionalExecFns;
use crate::content_type::ContentType;
use crate::record::{
    clone_metadata, clone_opt_string, meta_view, opt_view, Content, ContentCreate, ContentUpdate,
    ContentView,
};
use crate::text::str_eq;

verus! {

/// The store's error taxonomy: a malformed or missing required field, a
/// uniqueness violation on `pid` or `url`, or a lookup of an absent `id`.
#[derive(Clone, Copy, PartialEq, Eq, Structural, Debug)]
pub enum StoreError {
    ValidationError,
    Conflict,
    NotFound,
}

/// Some record in `s` has this `id`.
pub open spec fn has_id(s: Seq<ContentView>, id: u64) -> bool {
    exists|i: int| 0 <= i < s.len() && (#[trigger] s[i]).id == id
}

/// The index of the record with this `id` (meaningful when ids are distinct
/// and `has_id` holds).
pub open spec fn idx_of(s: Seq<ContentView>, id: u64) -> int {
    choose|i: int| 0 <= i < s.len() && (#[trigger] s[i]).id == id
}

/// The record with this `id`.
pub open spec fn view_of_id(s: Seq<ContentView>, id: u64) -> ContentView {
    s[idx_of(s, id)]
}

/// Some record in `s` has this `url`.
pub open spec fn has_url(s: Seq<ContentView>, url: Seq<char>) -> bool {
    exists|i: int| 0 <= i < s.len() && (#[trigger] s[i]).url == url
}

/// Some record in `s` has this `pid`.
pub open spec fn has_pid(s: Seq<ContentView>, pid: Seq<char>) -> bool {
    exists|i: int| 0 <= i < s.len() && (#[trigger] s[i]).pid == pid
}

/// Some record other than the one with this `id` has this `url`.
pub open spec fn url_taken_by_other(s: Seq<ContentView>, url: Seq<char>, id: u64) -> bool {
    exists|i: int| 0 <= i < s.len() && (#[trigger] s[i]).url == url && s[i].id != id
}

/// Record ids are strictly ascending: the stable list order, and uniqueness.
pub open spec fn ids_strictly_increasing(s: Seq<ContentView>) -> bool {
    forall|i: int, j: int|
        0 <= i < j < s.len() ==> (#[trigger] s[i]).id < (#[trigger] s[j]).id
}

/// No two records share a `pid`.
pub open spec fn pids_distinct(s: Seq<ContentView>) -> bool {
    forall|i: int, j: int|
        0 <= i < j < s.len() ==> (#[trigger] s[i]).pid != (#[trigger] s[j]).pid
}

/// No two records share a `url`.
pub open spec fn urls_distinct(s: Seq<ContentView>) -> bool {
    forall|i: int, j: int|
        0 <= i < j < s.len() ==> (#[trigger] s[i]).url != (#[trigger] s[j]).url
}

/// A create request is valid: `pid`, `url` and `content_type` are present
/// and the `content_type` string is one of the five enumerated values.
pub open spec fn create_valid(req: ContentCreate) -> bool {
    &&& req.pid is Some
    &&& req.url is Some
    &&& req.content_type is Some
    &&& ContentType::spec_parse(req.content_type.unwrap()@) is Some
}

/// The record a valid create request gives rise to, under a server-assigned
/// `id` and creation time.
pub open spec fn created_view(req: ContentCreate, id: u64, now: u64) -> ContentView {
    ContentView {
        id,
        pid: req.pid.unwrap()@,
        title: opt_view(req.title),
        url: req.url.unwrap()@,
        content_type: ContentType::spec_parse(req.content_type.unwrap()@).unwrap(),
        image_url: opt_view(req.image_url),
        description: opt_view(req.description),
        raw_content: opt_view(req.raw_content),
        summary: opt_view(req.summary),
        metadata: meta_view(req.metadata),
        created_at: now,
        updated_at: now,
    }
}

/// With distinct ids, `idx_of` is exactly the index a search finds.
pub proof fn lemma_idx_of_unique(s: Seq<ContentView>, id: u64, i: int)
    requires
        ids_strictly_increasing(s),
        0 <= i < s.len(),
        s[i].id == id,
    ensures
        has_id(s, id),
        idx_of(s, id) == i,
{
    assert(has_id(s, id));
    let j = idx_of(s, id);
    if j < i {
        assert(s[j].id < s[i].id);
    } else if i < j {
        assert(s[i].id < s[j].id);
    }
}

/// Removing one record keeps ids ascending, pids and urls distinct, and
/// every id under the given bound.
pub proof fn lemma_remove_preserves(s: Seq<ContentView>, i: int, n: u64)
    requires
        0 <= i < s.len(),
        ids_strictly_increasing(s),
        pids_distinct(s),
        urls_distinct(s),
        forall|k: int| 0 <= k < s.len() ==> (#[trigger] s[k]).id < n,
    ensures
        ids_strictly_increasing(s.remove(i)),
        pids_distinct(s.remove(i)),
        urls_distinct(s.remove(i)),
        forall|k: int| 0 <= k < s.remove(i).len() ==> (#[trigger] s.remove(i)[k]).id < n,
{
    assert forall|k: int| 0 <= k < s.remove(i).len() implies (#[trigger] s.remove(i)[k]).id
        < n by {
        if k < i {
            assert(s.remove(i)[k] == s[k]);
        } else {
            assert(s.remove(i)[k] == s[k + 1]);
        }
    }
    assert forall|k: int, l: int| 0 <= k < l < s.remove(i).len() implies (#[trigger] s.remove(
        i,
    )[k]).id < (#[trigger] s.remove(i)[l]).id && s.remove(i)[k].pid != s.remove(i)[l].pid
        && s.remove(i)[k].url != s.remove(i)[l].url by {
        let k0 = if k < i { k } else { k + 1 };
        let l0 = if l < i { l } else { l + 1 };
        assert(s.remove(i)[k] == s[k0]);
        assert(s.remove(i)[l] == s[l0]);
        assert(s[k0].id < s[l0].id);
    }
}

/// An update request is valid: if a `content_type` string is present it is
/// one of the five enumerated values.
pub open spec fn update_valid(req: ContentUpdate) -> bool {
    req.content_type is Some ==> ContentType::spec_parse(req.content_type.unwrap()@) is Some
}

/// The record after applying a partial update at time `now`: present fields
/// replace the old values, absent fields are kept; identity fields and
/// `created_at` never change, `updated_at` is refreshed.
pub open spec fn updated_view(c: ContentView, req: ContentUpdate, now: u64) -> ContentView {
    ContentView {
        id: c.id,
        pid: c.pid,
        title: if req.title is Some {
            Some(req.title.unwrap()@)
        } else {
            c.title
        },
        url: if req.url is Some {
            req.url.unwrap()@
        } else {
            c.url
        },
        content_type: if req.content_type is Some {
            ContentType::spec_parse(req.content_type.unwrap()@).unwrap()
        } else {
            c.content_type
        },
        image_url: if req.image_url is Some {
            Some(req.image_url.unwrap()@)
        } else {
            c.image_url
        },
        description: if req.description is Some {
            Some(req.description.unwrap()@)
        } else {
            c.description
        },
        raw_content: if req.raw_content is Some {
            Some(req.raw_content.unwrap()@)
        } else {
            c.raw_content
        },
        summary: if req.summary is Some {
            Some(req.summary.unwrap()@)
        } else {
            c.summary
        },
        metadata: if req.metadata is Some {
            meta_view(req.metadata)
        } else {
            c.metadata
        },
        created_at: c.created_at,
        updated_at: now,
    }
}

/// Replacing one record with one of the same `id` and `pid`, and a `url` no
/// other record holds, keeps ids ascending, pids and urls distinct, and
/// every id under the given bound.
pub proof fn lemma_update_preserves(s: Seq<ContentView>, i: int, v: ContentView, n: u64)
    requires
        0 <= i < s.len(),
        ids_strictly_increasing(s),
        pids_distinct(s),
        urls_distinct(s),
        forall|k: int| 0 <= k < s.len() ==> (#[trigger] s[k]).id < n,
        v.id == s[i].id,
        v.pid == s[i].pid,
        forall|k: int| 0 <= k < s.len() && k != i ==> (#[trigger] s[k]).url != v.url,
    ensures
        ids_strictly_increasing(s.update(i, v)),
        pids_distinct(s.update(i, v)),
        urls_distinct(s.update(i, v)),
        forall|k: int| 0 <= k < s.update(i, v).len() ==> (#[trigger] s.update(i, v)[k]).id < n,
{
    let t = s.update(i, v);
    assert forall|k: int, l: int| 0 <= k < l < t.len() implies (#[trigger] t[k]).id < (#[trigger] t[l]).id
        && t[k].pid != t[l].pid && t[k].url != t[l].url by {
        assert(s[k].id < s[l].id);
        if k == i {
            assert(t[k] == v);
            assert(t[l] == s[l]);
        } else if l == i {
            assert(t[k] == s[k]);
            assert(t[l] == v);
        } else {
            assert(t[k] == s[k]);
            assert(t[l] == s[l]);
        }
    }
    assert forall|k: int| 0 <= k < t.len() implies (#[trigger] t[k]).id < n by {
        if k != i {
            assert(t[k] == s[k]);
        }
    }
}

/// The page size `list` falls back to when the caller passes 0.
pub const DEFAULT_PAGE_SIZE: usize = 10;

/// The view of an optional borrowed filter string.
pub open spec fn filter_view(f: Option<&str>) -> Option<Seq<char>> {
    match f {
        Option::None => Option::None,
        Option::Some(p) => Option::Some(p@),
    }
}

/// The list filter: with no pattern every record matches; with a pattern a
/// record matches exactly when its title contains the pattern as a
/// substring, case-sensitively. A record without a title matches no
/// pattern.
pub open spec fn title_matches(c: ContentView, f: Option<Seq<char>>) -> bool {
    match f {
        Option::None => true,
        Option::Some(p) => c.title is Some && crate::text::contains_seq(c.title.unwrap(), p),
    }
}

/// The records that pass the filter, in their stored order.
pub open spec fn filtered(s: Seq<ContentView>, f: Option<Seq<char>>) -> Seq<ContentView>
    decreases s.len(),
{
    if s.len() == 0 {
        Seq::empty()
    } else {
        let rest = filtered(s.drop_last(), f);
        if title_matches(s.last(), f) {
            rest.push(s.last())
        } else {
            rest
        }
    }
}

/// Every record the filter lets through matches it.
pub proof fn lemma_filtered_elements(s: Seq<ContentView>, f: Option<Seq<char>>)
    ensures
        forall|k: int|
            0 <= k < filtered(s, f).len() ==> title_matches(#[trigger] filtered(s, f)[k], f),
    decreases s.len(),
{
    if s.len() > 0 {
        lemma_filtered_elements(s.drop_last(), f);
        let rest = filtered(s.drop_last(), f);
        assert forall|k: int| 0 <= k < filtered(s, f).len() implies title_matches(
            #[trigger] filtered(s, f)[k],
            f,
        ) by {
            if title_matches(s.last(), f) {
                assert(filtered(s, f) == rest.push(s.last()));
                if k < rest.len() {
                    assert(filtered(s, f)[k] == rest[k]);
                } else {
                    assert(filtered(s, f)[k] == s.last());
                }
            } else {
                assert(filtered(s, f) == rest);
                assert(filtered(s, f)[k] == rest[k]);
            }
        }
    }
}

pub open spec fn spec_min(a: int, b: int) -> int {
    if a < b {
        a
    } else {
        b
    }
}

/// The window of the filtered records one page shows: 1-based page,
/// offset/limit slicing, a page past the end empty.
pub open spec fn page_slice(f: Seq<ContentView>, page: int, page_size: int) -> Seq<ContentView> {
    let skip = (page - 1) * page_size;
    f.subrange(spec_min(skip, f.len() as int), spec_min(skip + page_size, f.len() as int))
}

/// Number of pages: the ceiling of `total / page_size`; 0 when the
/// filtered set is empty.
pub open spec fn spec_total_pages(total: int, page_size: int) -> int {
    if total == 0 {
        0
    } else {
        (total - 1) / page_size + 1
    }
}

/// One page of records with its pagination metadata. `page` and
/// `page_size` are the effective values the slice was taken with.
pub struct Page {
    pub records: Vec<Content>,
    pub total: usize,
    pub page: usize,
    pub page_size: usize,
    pub total_pages: usize,
}

/// The content store. All state lives in this value; nothing is global.
/// Records are held in ascending `id` order; `next_id` is the counter the
/// next created record draws from.
pub struct ContentStore {
    records: Vec<Content>,
    next_id: u64,
}

impl View for ContentStore {
    type V = Seq<ContentView>;

    closed spec fn view(&self) -> Seq<ContentView> {
        self.records@.map_values(|c: Content| c@)
    }
}

impl ContentStore {
    /// The id the next created record will receive.
    pub closed spec fn id_counter(self) -> u64 {
        self.next_id
    }

    /// Well-formedness: ids ascending and below the counter, `pid` and
    /// `url` unique across records.
    pub open spec fn wf(self) -> bool {
        &&& 1 <= self.id_counter()
        &&& forall|i: int| 0 <= i < self@.len() ==> (#[trigger] self@[i]).id < self.id_counter()
        &&& ids_strictly_increasing(self@)
        &&& pids_distinct(self@)
        &&& urls_distinct(self@)
    }

    /// An empty store; ids start at 1.
    pub fn new() -> (s: ContentStore)
        ensures
            s.wf(),
            s@ == Seq::<ContentView>::empty(),
            s.id_counter() == 1,
    {
        let s = ContentStore { records: Vec::new(), next_id: 1 };
        proof {
            assert(s@ =~= Seq::<ContentView>::empty());
        }
        s
    }

    /// Total number of records.
    pub fn count(&self) -> (n: usize)
        ensures
            n == self@.len(),
    {
        self.records.len()
    }

    /// The lightweight existence probe: whether any record has this `url`.
    pub fn check_url_exists(&self, url: &str) -> (r: bool)
        ensures
            r == has_url(self@, url@),
    {
        let mut i: usize = 0;
        while i < self.records.len()
            invariant
                i <= self.records.len(),
                self@.len() == self.records.len(),
                self@ == self.records@.map_values(|c: Content| c@),
                forall|j: int| 0 <= j < i ==> (#[trigger] self@[j]).url != url@,
            decreases self.records.len() - i,
        {
            if str_eq(self.records[i].url.as_str(), url) {
                proof {
                    assert(self@[i as int].url == url@);
                    assert(has_url(self@, url@));
                }
                return true;
            }
            i = i + 1;
        }
        false
    }

    /// Whether any record has this `pid`.
    fn pid_exists(&self, pid: &str) -> (r: bool)
        ensures
            r == has_pid(self@, pid@),
    {
        let mut i: usize = 0;
        while i < self.records.len()
            invariant
                i <= self.records.len(),
                self@.len() == self.records.len(),
                self@ == self.records@.map_values(|c: Content| c@),
                forall|j: int| 0 <= j < i ==> (#[trigger] self@[j]).pid != pid@,
            decreases self.records.len() - i,
        {
            if str_eq(self.records[i].pid.as_str(), pid) {
                proof {
                    assert(self@[i as int].pid == pid@);
                    assert(has_pid(self@, pid@));
                }
                return true;
            }
            i = i + 1;
        }
        false
    }

    /// Retrieves the record with this `id`, or `NotFound`.
    pub fn get_by_id(&self, id: u64) -> (r: Result<Content, StoreError>)
        requires
            self.wf(),
        ensures
            r is Ok <==> has_id(self@, id),
            r is Ok ==> r.unwrap()@ == view_of_id(self@, id) && view_of_id(self@, id).id == id,
            !has_id(self@, id) ==> r == Err::<Content, StoreError>(StoreError::NotFound),
    {
        let mut i: usize = 0;
        while i < self.records.len()
            invariant
                self.wf(),
                i <= self.records.len(),
                self@.len() == self.records.len(),
                self@ == self.records@.map_values(|c: Content| c@),
                forall|j: int| 0 <= j < i ==> (#[trigger] self@[j]).id != id,
            decreases self.records.len() - i,
        {
            if self.records[i].id == id {
                let c = self.records[i].duplicate();
                proof {
                    lemma_idx_of_unique(self@, id, i as int);
                }
                return Ok(c);
            }
            i = i + 1;
        }
        Err(StoreError::NotFound)
    }

    /// Creates a record from the request's fields, assigning the next `id`
    /// and setting both timestamps to `now`.
    ///
    /// Fails with `ValidationError` exactly when `pid`, `url` or
    /// `content_type` is absent or the `content_type` string is not one of
    /// the five enumerated values; otherwise fails with `Conflict` exactly
    /// when the `url` or the `pid` is already taken. On failure the store
    /// is unchanged.
    pub fn create(&mut self, req: ContentCreate, now: u64) -> (r: Result<Content, StoreError>)
        requires
            old(self).wf(),
            old(self).id_counter() < u64::MAX,
        ensures
            final(self).wf(),
            r is Err ==> *final(self) == *old(self),
            r == Err::<Content, StoreError>(StoreError::ValidationError) <==> !create_valid(req),
            create_valid(req) ==> (r == Err::<Content, StoreError>(StoreError::Conflict) <==> (
            has_url(old(self)@, req.url.unwrap()@) || has_pid(old(self)@, req.pid.unwrap()@))),
            r is Ok <==> (create_valid(req) && !has_url(old(self)@, req.url.unwrap()@) && !has_pid(
            old(self)@, req.pid.unwrap()@)),
            r is Ok ==> r.unwrap()@ == created_view(req, old(self).id_counter(), now) && final(
            self)@ == old(self)@.push(created_view(req, old(self).id_counter(), now)) && final(
            self).id_counter() == old(self).id_counter() + 1 && !has_id(old(self)@, old(
            self).id_counter()),
    {
        let ContentCreate {
            pid,
            url,
            content_type,
            title,
            image_url,
            description,
            raw_content,
            summary,
            metadata,
        } = req;
        let pid_s = match pid {
            Some(p) => p,
            None => {
                return Err(StoreError::ValidationError);
            },
        };
        let url_s = match url {
            Some(u) => u,
            None => {
                return Err(StoreError::ValidationError);
            },
        };
        let ct_s = match content_type {
            Some(c) => c,
            None => {
                return Err(StoreError::ValidationError);
            },
        };
        let ct = match ContentType::parse(ct_s.as_str()) {
            Some(c) => c,
            None => {
                return Err(StoreError::ValidationError);
            },
        };
        if self.check_url_exists(url_s.as_str()) {
            return Err(StoreError::Conflict);
        }
        if self.pid_exists(pid_s.as_str()) {
            return Err(StoreError::Conflict);
        }
        let id = self.next_id;
        proof {
            assert(!has_id(self@, id));
        }
        let c = Content {
            id,
            pid: pid_s,
            title,
            url: url_s,
            content_type: ct,
            image_url,
            description,
            raw_content,
            summary,
            metadata,
            created_at: now,
            updated_at: now,
        };
        let out = c.duplicate();
        proof {
            assert(c@ == created_view(req, old(self).id_counter(), now));
        }
        self.records.push(c);
        self.next_id = id + 1;
        proof {
            assert(self@ =~= old(self)@.push(created_view(req, old(self).id_counter(), now)));
        }
        Ok(out)
    }

    /// Deletes the record with this `id`, or returns `NotFound` and leaves
    /// the store unchanged. On success the count drops by exactly one.
    pub fn delete(&mut self, id: u64) -> (r: Result<(), StoreError>)
        requires
            old(self).wf(),
        ensures
            final(self).wf(),
            r is Ok <==> has_id(old(self)@, id),
            !has_id(old(self)@, id) ==> r == Err::<(), StoreError>(StoreError::NotFound) && *final(
            self) == *old(self),
            r is Ok ==> final(self)@ == old(self)@.remove(idx_of(old(self)@, id)) && final(
            self)@.len() == old(self)@.len() - 1,
            final(self).id_counter() == old(self).id_counter(),
    {
        let mut i: usize = 0;
        while i < self.records.len()
            invariant
                *self == *old(self),
                self.wf(),
                i <= self.records.len(),
                self@.len() == self.records.len(),
                self@ == self.records@.map_values(|c: Content| c@),
                forall|j: int| 0 <= j < i ==> (#[trigger] self@[j]).id != id,
            decreases self.records.len() - i,
        {
            if self.records[i].id == id {
                proof {
                    lemma_idx_of_unique(self@, id, i as int);
                    lemma_remove_preserves(self@, i as int, self.id_counter());
                }
                self.records.remove(i);
                proof {
                    assert(self@ =~= old(self)@.remove(i as int));
                }
                return Ok(());
            }
            i = i + 1;
        }
        Err(StoreError::NotFound)
    }

    /// Whether a record other than the one with this `id` has this `url`.
    fn url_other_exists(&self, url: &str, id: u64) -> (r: bool)
        ensures
            r == url_taken_by_other(self@, url@, id),
    {
        let mut i: usize = 0;
        while i < self.records.len()
            invariant
                i <= self.records.len(),
                self@.len() == self.records.len(),
                self@ == self.records@.map_values(|c: Content| c@),
                forall|j: int|
                    0 <= j < i ==> !((#[trigger] self@[j]).url == url@ && self@[j].id != id),
            decreases self.records.len() - i,
        {
            if self.records[i].id != id && str_eq(self.records[i].url.as_str(), url) {
                proof {
                    assert(self@[i as int].url == url@ && self@[i as int].id != id);
                    assert(url_taken_by_other(self@, url@, id));
                }
                return true;
            }
            i = i + 1;
        }
        false
    }

    /// Applies a partial update to the record with this `id`, refreshing
    /// `updated_at` to `now`.
    ///
    /// Fails with `NotFound` exactly when no record has the `id`; then with
    /// `ValidationError` exactly when a `content_type` string is present
    /// but not one of the five enumerated values; then with `Conflict`
    /// exactly when the new `url` is already held by a different record
    /// (keeping one's own `url` is no conflict). On failure the store is
    /// unchanged.
    pub fn update(&mut self, id: u64, req: ContentUpdate, now: u64) -> (r: Result<
        Content,
        StoreError,
    >)
        requires
            old(self).wf(),
        ensures
            final(self).wf(),
            r is Err ==> *final(self) == *old(self),
            r == Err::<Content, StoreError>(StoreError::NotFound) <==> !has_id(old(self)@, id),
            has_id(old(self)@, id) ==> (r == Err::<Content, StoreError>(
                StoreError::ValidationError,
            ) <==> !update_valid(req)),
            has_id(old(self)@, id) && update_valid(req) ==> (r == Err::<Content, StoreError>(
                StoreError::Conflict,
            ) <==> (req.url is Some && url_taken_by_other(old(self)@, req.url.unwrap()@, id))),
            r is Ok <==> (has_id(old(self)@, id) && update_valid(req) && !(req.url is Some
                && url_taken_by_other(old(self)@, req.url.unwrap()@, id))),
            r is Ok ==> r.unwrap()@ == updated_view(view_of_id(old(self)@, id), req, now) && final(
            self)@ == old(self)@.update(
                idx_of(old(self)@, id),
                updated_view(view_of_id(old(self)@, id), req, now),
            ),
            final(self).id_counter() == old(self).id_counter(),
    {
        let n = self.records.len();
        let mut i: usize = 0;
        while i < n && self.records[i].id != id
            invariant
                n == self.records.len(),
                i <= n,
                self@.len() == self.records.len(),
                self@ == self.records@.map_values(|c: Content| c@),
                forall|j: int| 0 <= j < i ==> (#[trigger] self@[j]).id != id,
            decreases n - i,
        {
            i = i + 1;
        }
        if i == n {
            return Err(StoreError::NotFound);
        }
        proof {
            lemma_idx_of_unique(self@, id, i as int);
        }
        let ContentUpdate {
            title,
            url,
            content_type,
            image_url,
            description,
            raw_content,
            summary,
            metadata,
        } = req;
        let new_ct: Option<ContentType> = match content_type {
            None => None,
            Some(cs) => match ContentType::parse(cs.as_str()) {
                Some(c) => Some(c),
                None => {
                    return Err(StoreError::ValidationError);
                },
            },
        };
        let new_url: Option<String> = match url {
            None => None,
            Some(u) => {
                if self.url_other_exists(u.as_str(), id) {
                    return Err(StoreError::Conflict);
                }
                Some(u)
            },
        };
        let old_rec = &self.records[i];
        let upd_title = match title {
            Some(t) => Some(t),
            None => clone_opt_string(&old_rec.title),
        };
        let upd_url = match new_url {
            Some(u) => u,
            None => old_rec.url.clone(),
        };
        let upd_ct = match new_ct {
            Some(c) => c,
            None => old_rec.content_type,
        };
        let upd_image = match image_url {
            Some(v) => Some(v),
            None => clone_opt_string(&old_rec.image_url),
        };
        let upd_desc = match description {
            Some(v) => Some(v),
            None => clone_opt_string(&old_rec.description),
        };
        let upd_raw = match raw_content {
            Some(v) => Some(v),
            None => clone_opt_string(&old_rec.raw_content),
        };
        let upd_sum = match summary {
            Some(v) => Some(v),
            None => clone_opt_string(&old_rec.summary),
        };
        let upd_meta = match metadata {
            Some(m) => Some(m),
            None => clone_metadata(&old_rec.metadata),
        };
        let new_c = Content {
            id,
            pid: old_rec.pid.clone(),
            title: upd_title,
            url: upd_url,
            content_type: upd_ct,
            image_url: upd_image,
            description: upd_desc,
            raw_content: upd_raw,
            summary: upd_sum,
            metadata: upd_meta,
            created_at: old_rec.created_at,
            updated_at: now,
        };
        let out = new_c.duplicate();
        let ghost nv = new_c@;
        proof {
            assert(nv == updated_view(view_of_id(old(self)@, id), req, now));
            assert forall|k: int| 0 <= k < self@.len() && k != i implies (#[trigger] self@[k]).url
                != nv.url by {
                if k < i {
                    assert(self@[k].id < self@[i as int].id);
                } else {
                    assert(self@[i as int].id < self@[k].id);
                }
            }
            lemma_update_preserves(self@, i as int, nv, self.id_counter());
        }
        self.records.set(i, new_c);
        proof {
            assert(self@ =~= old(self)@.update(i as int, nv));
        }
        Ok(out)
    }

    /// An ordered page of the records that pass the title filter, by
    /// ascending `id`, with pagination metadata.
    ///
    /// `page` is 1-based; 0 is treated as 1. A `page_size` of 0 is clamped
    /// to `DEFAULT_PAGE_SIZE`. A page past the last is empty, not an
    /// error; with no filter every record is listed.
    pub fn list(&self, title_filter: Option<&str>, page: usize, page_size: usize) -> (r: Page)
        requires
            self.wf(),
        ensures
            r.page_size == (if page_size == 0 {
                DEFAULT_PAGE_SIZE
            } else {
                page_size
            }),
            r.page == (if page == 0 {
                1usize
            } else {
                page
            }),
            r.total == filtered(self@, filter_view(title_filter)).len(),
            r.total_pages == spec_total_pages(r.total as int, r.page_size as int),
            r.records@.map_values(|c: Content| c@) == page_slice(
                filtered(self@, filter_view(title_filter)),
                r.page as int,
                r.page_size as int,
            ),
            forall|k: int|
                0 <= k < r.records@.len() ==> title_matches(
                    #[trigger] (r.records@[k]@),
                    filter_view(title_filter),
                ),
    {
        let ps = if page_size == 0 {
            DEFAULT_PAGE_SIZE
        } else {
            page_size
        };
        let pg = if page == 0 {
            1
        } else {
            page
        };
        let ghost fv = filter_view(title_filter);
        let mut matched: Vec<Content> = Vec::new();
        let mut i: usize = 0;
        while i < self.records.len()
            invariant
                i <= self.records.len(),
                self@.len() == self.records.len(),
                self@ == self.records@.map_values(|c: Content| c@),
                fv == filter_view(title_filter),
                matched@.map_values(|c: Content| c@) == filtered(self@.subrange(0, i as int), fv),
            decreases self.records.len() - i,
        {
            let m: bool = match title_filter {
                None => true,
                Some(p) => match &self.records[i].title {
                    Some(t) => crate::text::str_contains(t.as_str(), p),
                    None => false,
                },
            };
            proof {
                assert(m == title_matches(self@[i as int], fv));
            }
            if m {
                let c = self.records[i].duplicate();
                matched.push(c);
            }
            proof {
                assert(self@.subrange(0, i + 1).drop_last() =~= self@.subrange(0, i as int));
                assert(self@.subrange(0, i + 1).last() == self@[i as int]);
                assert(matched@.map_values(|c: Content| c@) =~= filtered(
                    self@.subrange(0, i + 1),
                    fv,
                ));
            }
            i = i + 1;
        }
        proof {
            assert(self@.subrange(0, self@.len() as int) =~= self@);
        }
        let ghost fseq = filtered(self@, fv);
        let total = matched.len();
        let tp = if total == 0 {
            0
        } else {
            proof {
                vstd::arithmetic::div_mod::lemma_div_nonincreasing((total - 1) as int, ps as int);
            }
            ((total - 1) / ps) + 1
        };
        let pgm1 = pg - 1;
        let q = total / ps;
        let start: usize;
        let end: usize;
        if pgm1 > q {
            start = total;
            end = total;
            proof {
                let t = total as int;
                let p = ps as int;
                let g = pgm1 as int;
                let qq = q as int;
                vstd::arithmetic::div_mod::lemma_fundamental_div_mod(t, p);
                vstd::arithmetic::div_mod::lemma_mod_division_less_than_divisor(t, p);
                assert(g * p > t) by (nonlinear_arith)
                    requires
                        t == p * qq + t % p,
                        0 <= t % p < p,
                        g >= qq + 1,
                        p >= 1,
                ;
            }
        } else {
            proof {
                let t = total as int;
                let p = ps as int;
                let g = pgm1 as int;
                let qq = q as int;
                vstd::arithmetic::div_mod::lemma_fundamental_div_mod(t, p);
                vstd::arithmetic::div_mod::lemma_mod_division_less_than_divisor(t, p);
                assert(g * p <= t) by (nonlinear_arith)
                    requires
                        t == p * qq + t % p,
                        0 <= t % p,
                        g <= qq,
                        p >= 1,
                ;
            }
            start = pgm1 * ps;
            end = if ps > total - start {
                total
            } else {
                start + ps
            };
        }
        let mut out_recs: Vec<Content> = Vec::new();
        let mut k = start;
        while k < end
            invariant
                start <= k <= end,
                end <= matched.len(),
                matched@.map_values(|c: Content| c@) == fseq,
                out_recs@.len() == k - start,
                forall|j: int| 0 <= j < out_recs@.len() ==> (#[trigger] out_recs@[j])@ == fseq[
                    start + j],
            decreases end - k,
        {
            proof {
                assert(matched@.map_values(|c2: Content| c2@)[k as int] == fseq[k as int]);
            }
            let c = matched[k].duplicate();
            out_recs.push(c);
            k = k + 1;
        }
        proof {
            assert(out_recs@.map_values(|c2: Content| c2@) =~= fseq.subrange(
                start as int,
                end as int,
            ));
            assert(page_slice(fseq, pg as int, ps as int) == fseq.subrange(
                start as int,
                end as int,
            ));
            assert forall|k2: int| 0 <= k2 < out_recs@.len() implies title_matches(
                #[trigger] (out_recs@[k2]@),
                fv,
            ) by {
                lemma_filtered_elements(self@, fv);
                assert(out_recs@[k2]@ == fseq[start + k2]);
                assert(title_matches(filtered(self@, fv)[start + k2], fv));
            }
        }
        Page { records: out_recs, total, page: pg, page_size: ps, total_pages: tp }
    }
}

} // verus!
