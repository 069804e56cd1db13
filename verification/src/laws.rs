//! Laws relating the store's operations, stated over the store's view and
//! proved once for every store value.

use vstd::prelude::*;
use crate::record::ContentView;
use crate::store::{has_id, ids_strictly_increasing, idx_of, page_slice, view_of_id};

verus! {

/// Law: a successful create appends a record under an id no existing
/// record holds, and a subsequent lookup of that id finds exactly the
/// appended record — the input fields plus the server-assigned id and
/// timestamps.
pub proof fn lemma_get_after_create(s: Seq<ContentView>, c: ContentView)
    requires
        !has_id(s, c.id),
    ensures
        has_id(s.push(c), c.id),
        idx_of(s.push(c), c.id) == s.len(),
        view_of_id(s.push(c), c.id) == c,
{
    let t = s.push(c);
    assert(t[s.len() as int] == c);
    assert(has_id(t, c.id));
    let j = idx_of(t, c.id);
    assert(0 <= j < t.len() && t[j].id == c.id);
    if j < s.len() {
        assert(t[j] == s[j]);
        assert(has_id(s, c.id));
    }
}

/// Law: deleting an existing id removes exactly one record, and a
/// subsequent lookup of that id finds nothing.
pub proof fn lemma_get_after_delete(s: Seq<ContentView>, id: u64)
    requires
        ids_strictly_increasing(s),
        has_id(s, id),
    ensures
        s.remove(idx_of(s, id)).len() == s.len() - 1,
        !has_id(s.remove(idx_of(s, id)), id),
{
    let i = idx_of(s, id);
    assert(0 <= i < s.len() && s[i].id == id);
    let t = s.remove(i);
    assert forall|k: int| 0 <= k < t.len() implies (#[trigger] t[k]).id != id by {
        if k < i {
            assert(t[k] == s[k]);
            assert(s[k].id < s[i].id);
        } else {
            assert(t[k] == s[k + 1]);
            assert(s[i].id < s[k + 1].id);
        }
    }
}

/// Law: how many records a page holds — never more than `page_size`;
/// exactly `page_size` while a full window remains; the last page holds
/// the remainder; a page past the end is empty.
pub proof fn lemma_page_len(f: Seq<ContentView>, page: int, page_size: int)
    requires
        1 <= page,
        1 <= page_size,
    ensures
        page_slice(f, page, page_size).len() == (if (page - 1) * page_size >= f.len() {
            0int
        } else if (page - 1) * page_size + page_size <= f.len() {
            page_size
        } else {
            f.len() - (page - 1) * page_size
        }),
{
    vstd::arithmetic::mul::lemma_mul_nonnegative(page - 1, page_size);
}

} // verus!
