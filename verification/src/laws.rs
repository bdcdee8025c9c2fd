use vstd::prelude::*;
use crate::owner::Owner;
use crate::record::RecordView;
use crate::record::trim_of;
use crate::store::RecordStore;
use crate::store::StoredEntry;
use crate::store::has_record_id;
use crate::store::is_first_match;
use crate::store::spec_count;
use crate::store::spec_list;
use crate::store::stored_lookup;

verus! {

/// After a successful add for an owner, that owner's listed sequence is the
/// old one with exactly the new record appended: one longer, unchanged in its
/// prefix, and ending in a record whose title and category are the trimmed
/// request fields.
pub proof fn lemma_add_then_list(
    pre: RecordStore,
    post: RecordStore,
    owner: Seq<u8>,
    rec: RecordView,
    title: Seq<char>,
    record_type: Seq<char>,
)
    requires
        post.records_of(owner) == pre.records_of(owner).push(rec),
        rec.title == trim_of(title),
        rec.record_type == trim_of(record_type),
    ensures
        post.records_of(owner).len() == pre.records_of(owner).len() + 1,
        post.records_of(owner).last().title == trim_of(title),
        post.records_of(owner).last().record_type == trim_of(record_type),
        forall|i: int|
            0 <= i < pre.records_of(owner).len() ==> post.records_of(owner)[i]
                == pre.records_of(owner)[i],
{
}

/// When a record id occurs at most once in an owner's sequence, removing its
/// first occurrence leaves no record with that id, so a later lookup of the
/// id reports nothing.
pub proof fn lemma_delete_then_get(
    before: Seq<RecordView>,
    after: Seq<RecordView>,
    id: Seq<char>,
    i: int,
)
    requires
        is_first_match(before, id, i),
        forall|j: int, k: int| 0 <= j < k < before.len() && before[j].id == id ==> before[k].id != id,
        after == before.remove(i),
    ensures
        !has_record_id(after, id),
{
    assert forall|j: int| 0 <= j < after.len() implies after[j].id != id by {
        if j < i {
            assert(after[j] == before[j]);
            assert(before[i].id == id);
        } else {
            assert(after[j] == before[j + 1]);
            assert(before[i].id == id);
        }
    }
}

/// A mutation that touches only owner `a` is invisible to every other owner:
/// the records of any distinct owner `b`, and with them what list, get and
/// count answer for `b`, stay exactly as they were.
pub proof fn lemma_cross_owner_isolation(
    pre: RecordStore,
    post: RecordStore,
    a: Seq<u8>,
    b: Seq<u8>,
)
    requires
        a != b,
        forall|o: Seq<u8>| o != a ==> post.records_of(o) == pre.records_of(o),
    ensures
        post.records_of(b) == pre.records_of(b),
{
}

/// The reported count of an owner's records always equals the length of the
/// listed sequence, and is zero for the anonymous caller, for whom nothing is
/// listed.
pub proof fn lemma_count_matches_list(s: RecordStore, owner: Owner)
    ensures
        owner.is_anonymous() ==> spec_count(s, owner) == 0 && spec_list(s, owner) is None,
        !owner.is_anonymous() ==> (spec_list(s, owner) matches Some(rs) && spec_count(s, owner)
            == rs.len()),
{
}

/// Persisting a store and reloading the snapshot yields every owner's
/// sequence unchanged, in the same order.
pub proof fn lemma_restart_preserves_records(
    before: RecordStore,
    snapshot: Seq<StoredEntry>,
    after: RecordStore,
    owner: Seq<u8>,
)
    requires
        forall|o: Seq<u8>| stored_lookup(snapshot, o) == before.records_of(o),
        forall|o: Seq<u8>| after.records_of(o) == stored_lookup(snapshot, o),
    ensures
        after.records_of(owner) == before.records_of(owner),
{
}

} // verus!
