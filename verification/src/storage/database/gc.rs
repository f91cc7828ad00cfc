//! Garbage collection of a sled database of object metadata.
use vstd::prelude::*;
use sled::Batch;
use crate::types::metadata::ObjectMetaData;

verus! {

/// The `sled` crate's batch of writes.
#[verifier::external_type_specification]
#[verifier::external_body]
pub struct ExBatch(sled::Batch);

/// What a batch writes: under each key a value, or nothing where the key is to be removed.
pub type BatchView = Map<Seq<u8>, Option<Seq<u8>>>;

/// What a `sled::Batch` writes.
pub uninterp spec fn batch_contents(batch: Batch) -> BatchView;

/// `sled::Batch::default`: a batch that writes nothing.
#[verifier::external_body]
fn batch_new() -> (batch: Batch)
    ensures
        batch_contents(batch) == BatchView::empty(),
{
    Batch::default()
}

/// `sled::Batch::remove`: has the batch remove a key, whatever it was to write there.
#[verifier::external_body]
fn batch_remove(batch: &mut Batch, key: &[u8])
    ensures
        batch_contents(*final(batch)) == batch_contents(*old(batch)).insert(key@, None),
{
    batch.remove(key)
}

/// An entry of the database, as it was read.
pub enum Scanned {
    /// An entry that could not be read.
    Failed,
    /// An entry that is no object's metadata.
    Dirty {
        key: Vec<u8>,
    },
    /// An object's metadata.
    Object {
        key: Vec<u8>,
        meta: ObjectMetaData,
    },
}

impl Scanned {
    /// The key of an entry that is to go: it is no metadata, or its object is no longer fresh.
    pub open spec fn due(self, timestamp: i64) -> Option<Seq<u8>> {
        match self {
            Scanned::Failed => None,
            Scanned::Dirty { key } => Some(key@),
            Scanned::Object { key, meta } => if meta@.expired_at(timestamp) {
                Some(key@)
            } else {
                None
            },
        }
    }

    /// Whether the end of the object's fresh time fits 64 bits.
    pub open spec fn datable(self) -> bool {
        match self {
            Scanned::Object { key, meta } => meta@.datable(),
            _ => true,
        }
    }

    /// Whether the end of the object's fresh time fits 64 bits.
    pub fn is_datable(&self) -> (yes: bool)
        ensures
            yes == self.datable(),
    {
        match self {
            Scanned::Object { key: _, meta } => meta.is_datable(),
            _ => true,
        }
    }
}

/// The keys of the entries that are to go, in their order.
pub open spec fn due_keys(entries: Seq<Scanned>, timestamp: i64) -> Seq<Seq<u8>>
    decreases entries.len(),
{
    if entries.len() == 0 {
        Seq::empty()
    } else {
        match entries.last().due(timestamp) {
            Some(key) => due_keys(entries.drop_last(), timestamp).push(key),
            None => due_keys(entries.drop_last(), timestamp),
        }
    }
}

/// Whether the ends of all fresh times fit 64 bits.
pub open spec fn all_datable(entries: Seq<Scanned>) -> bool {
    forall|i: int| 0 <= i < entries.len() ==> (#[trigger] entries[i]).datable()
}

/// Whether the ends of all fresh times fit 64 bits.
pub fn can_collect(entries: &Vec<Scanned>) -> (yes: bool)
    ensures
        yes == all_datable(entries@),
{
    let mut i: usize = 0;
    while i < entries.len()
        invariant
            i <= entries.len(),
            forall|j: int| 0 <= j < i ==> (#[trigger] entries@[j]).datable(),
        decreases entries.len() - i,
    {
        if !entries[i].is_datable() {
            return false;
        }
        i += 1;
    }
    true
}

/// The keys of the entries that are to go.
pub fn gc_keys(entries: &Vec<Scanned>, timestamp: i64) -> (keys: Vec<Vec<u8>>)
    requires
        all_datable(entries@),
    ensures
        crate::headers::byte_lists(keys@) == due_keys(entries@, timestamp),
{
    let mut keys: Vec<Vec<u8>> = Vec::new();
    let mut i: usize = 0;
    proof {
        assert(entries@.take(0) =~= Seq::<Scanned>::empty());
        assert(crate::headers::byte_lists(keys@) =~= due_keys(entries@.take(0), timestamp));
    }
    while i < entries.len()
        invariant
            i <= entries.len(),
            all_datable(entries@),
            crate::headers::byte_lists(keys@) == due_keys(entries@.take(i as int), timestamp),
        decreases entries.len() - i,
    {
        let ghost before = crate::headers::byte_lists(keys@);
        proof {
            assert(entries@.take(i + 1).drop_last() =~= entries@.take(i as int));
            assert(entries@.take(i + 1).last() == entries@[i as int]);
            assert(entries@[i as int].datable());
        }
        let due: Option<Vec<u8>> = match &entries[i] {
            Scanned::Failed => None,
            Scanned::Dirty { key } => Some(copy_bytes(key)),
            Scanned::Object { key, meta } => {
                if meta.first_time_ref + meta.expire > timestamp {
                    None
                } else {
                    Some(copy_bytes(key))
                }
            },
        };
        match due {
            Some(key) => {
                let ghost added = key@;
                keys.push(key);
                assert(crate::headers::byte_lists(keys@) =~= before.push(added));
            },
            None => {},
        }
        i += 1;
    }
    assert(entries@.take(entries@.len() as int) =~= entries@);
    keys
}

/// A copy of a byte string.
fn copy_bytes(bytes: &Vec<u8>) -> (copy: Vec<u8>)
    ensures
        copy@ == bytes@,
{
    let mut copy: Vec<u8> = Vec::new();
    copy.extend_from_slice(bytes.as_slice());
    assert(copy@ =~= bytes@);
    copy
}

/// The writes that remove the given keys.
pub open spec fn removals(keys: Seq<Seq<u8>>) -> BatchView {
    Map::new(|k: Seq<u8>| keys.contains(k), |k: Seq<u8>| None)
}

/// The batch that removes the entries that are to go; nothing where there are none.
pub fn gc_batch(entries: &Vec<Scanned>, timestamp: i64) -> (batch: Option<Batch>)
    requires
        all_datable(entries@),
    ensures
        match batch {
            Some(batch) => due_keys(entries@, timestamp).len() > 0 && batch_contents(batch)
                == removals(due_keys(entries@, timestamp)),
            None => due_keys(entries@, timestamp).len() == 0,
        },
{
    let keys: Vec<Vec<u8>> = gc_keys(entries, timestamp);
    let ghost all = crate::headers::byte_lists(keys@);
    assert(all.len() == keys@.len());
    if keys.len() == 0 {
        return None;
    }
    let mut batch: Batch = batch_new();
    let mut i: usize = 0;
    assert(batch_contents(batch) =~= removals(all.take(0)));
    while i < keys.len()
        invariant
            i <= keys.len(),
            all == crate::headers::byte_lists(keys@),
            batch_contents(batch) == removals(all.take(i as int)),
        decreases keys.len() - i,
    {
        let ghost before = all.take(i as int);
        let ghost after = all.take(i + 1);
        batch_remove(&mut batch, keys[i].as_slice());
        proof {
            let key = keys@[i as int]@;
            assert(all[i as int] == key);
            assert(after =~= before.push(key));
            assert forall|k: Seq<u8>| after.contains(k) <==> before.contains(k) || k == key by {
                if before.contains(k) {
                    let p = choose|p: int| 0 <= p < before.len() && before[p] == k;
                    assert(after[p] == k);
                }
                if k == key {
                    assert(after[i as int] == k);
                }
            }
            assert(batch_contents(batch) =~= removals(after));
        }
        i += 1;
    }
    assert(all.take(all.len() as int) =~= all);
    Some(batch)
}

/// What garbage collection removes is what a request would find unreadable or expired: each key
/// that is to go is that of such an entry, and each such entry's key is to go.
pub proof fn law_collects_what_is_stale(entries: Seq<Scanned>, timestamp: i64)
    ensures
        forall|i: int|
            0 <= i < entries.len() && (#[trigger] entries[i]).due(timestamp) is Some
                ==> due_keys(entries, timestamp).contains(entries[i].due(timestamp)->0),
        forall|k: Seq<u8>| #[trigger]
            due_keys(entries, timestamp).contains(k) ==> exists|i: int|
                0 <= i < entries.len() && (#[trigger] entries[i]).due(timestamp) == Some(k),
    decreases entries.len(),
{
    if entries.len() > 0 {
        let front = entries.drop_last();
        let keys = due_keys(entries, timestamp);
        let front_keys = due_keys(front, timestamp);
        law_collects_what_is_stale(front, timestamp);
        assert forall|i: int|
            0 <= i < entries.len() && (#[trigger] entries[i]).due(timestamp) is Some implies keys.contains(
            entries[i].due(timestamp)->0) by {
            let key = entries[i].due(timestamp)->0;
            if i < front.len() {
                assert(front[i] == entries[i]);
                assert(front_keys.contains(key));
                let p = choose|p: int| 0 <= p < front_keys.len() && front_keys[p] == key;
                assert(keys[p] == key);
            } else {
                assert(keys[front_keys.len() as int] == key);
            }
        }
        assert forall|k: Seq<u8>| #[trigger] keys.contains(k) implies exists|i: int|
            0 <= i < entries.len() && (#[trigger] entries[i]).due(timestamp) == Some(k) by {
            let p = choose|p: int| 0 <= p < keys.len() && keys[p] == k;
            if p < front_keys.len() {
                assert(front_keys[p] == k);
                assert(front_keys.contains(k));
                let i = choose|i: int|
                    0 <= i < front.len() && (#[trigger] front[i]).due(timestamp) == Some(k);
                assert(entries[i] == front[i]);
            } else {
                assert(entries[entries.len() - 1].due(timestamp) == Some(k));
            }
        }
    }
}

/// Where no entry is to go, as after a collection, nothing is collected.
pub proof fn law_collection_is_complete(entries: Seq<Scanned>, timestamp: i64)
    requires
        forall|i: int| 0 <= i < entries.len() ==> (#[trigger] entries[i]).due(timestamp) is None,
    ensures
        due_keys(entries, timestamp).len() == 0,
    decreases entries.len(),
{
    if entries.len() > 0 {
        let front = entries.drop_last();
        assert forall|i: int| 0 <= i < front.len() implies (#[trigger] front[i]).due(timestamp) is None by {
            assert(front[i] == entries[i]);
        }
        assert(entries[entries.len() - 1].due(timestamp) is None);
        law_collection_is_complete(front, timestamp);
    }
}

/// What is collected of a database is what is collected of its parts, in their order.
pub proof fn law_parts_are_collected_alike(front: Seq<Scanned>, back: Seq<Scanned>, timestamp: i64)
    ensures
        due_keys(front + back, timestamp) == due_keys(front, timestamp) + due_keys(back, timestamp),
    decreases back.len(),
{
    if back.len() == 0 {
        assert(front + back =~= front);
        assert(due_keys(front, timestamp) + due_keys(back, timestamp) =~= due_keys(
            front,
            timestamp,
        ));
    } else {
        let all = front + back;
        law_parts_are_collected_alike(front, back.drop_last(), timestamp);
        assert(all.drop_last() =~= front + back.drop_last());
        assert(all.last() == back.last());
        assert(due_keys(all, timestamp) =~= due_keys(front, timestamp) + due_keys(back, timestamp));
    }
}

/// An object is collected exactly where its fresh time, counted from when it was first asked for, is
/// over, whenever and however often it was asked for since. What is no metadata is always collected,
/// and what could not be read never is.
pub proof fn law_collected_when_fresh_time_is_over(
    key: Vec<u8>,
    meta: ObjectMetaData,
    timestamp: i64,
)
    ensures
        due_keys(seq![(Scanned::Object { key, meta })], timestamp) == (if meta.first_time_ref
            + meta.expire <= timestamp {
            seq![key@]
        } else {
            Seq::<Seq<u8>>::empty()
        }),
        due_keys(seq![(Scanned::Dirty { key })], timestamp) == seq![key@],
        due_keys(seq![Scanned::Failed], timestamp) == Seq::<Seq<u8>>::empty(),
{
    reveal_with_fuel(due_keys, 2);
    let object = seq![Scanned::Object { key, meta }];
    let dirty = seq![Scanned::Dirty { key }];
    let failed = seq![Scanned::Failed];
    assert(object.drop_last() =~= Seq::<Scanned>::empty());
    assert(dirty.drop_last() =~= Seq::<Scanned>::empty());
    assert(failed.drop_last() =~= Seq::<Scanned>::empty());
    assert(due_keys(object, timestamp) =~= if meta.first_time_ref + meta.expire <= timestamp {
        seq![key@]
    } else {
        Seq::<Seq<u8>>::empty()
    });
    assert(due_keys(dirty, timestamp) =~= seq![key@]);
}

/// Whether an entry is stale at a time: no metadata, or that of an object whose fresh time is over.
pub open spec fn stale_under(entry: Scanned, key: Seq<u8>, timestamp: i64) -> bool {
    match entry {
        Scanned::Failed => false,
        Scanned::Dirty { key: own } => own@ == key,
        Scanned::Object { key: own, meta } => own@ == key && meta.first_time_ref + meta.expire
            <= timestamp,
    }
}

/// A collection writes nothing: it removes the keys of all stale entries, and leaves all others alone.
pub proof fn law_collection_removes_the_stale(entries: Seq<Scanned>, timestamp: i64, key: Seq<u8>)
    ensures
        ({
            let batch = removals(due_keys(entries, timestamp));
            &&& batch.contains_key(key) <==> exists|i: int|
                0 <= i < entries.len() && stale_under(#[trigger] entries[i], key, timestamp)
            &&& batch.contains_key(key) ==> batch[key] is None
        }),
{
    law_collects_what_is_stale(entries, timestamp);
    let keys = due_keys(entries, timestamp);
    if keys.contains(key) {
        let i = choose|i: int|
            0 <= i < entries.len() && (#[trigger] entries[i]).due(timestamp) == Some(key);
        assert(stale_under(entries[i], key, timestamp));
    }
    if exists|i: int| 0 <= i < entries.len() && stale_under(#[trigger] entries[i], key, timestamp) {
        let i = choose|i: int|
            0 <= i < entries.len() && stale_under(#[trigger] entries[i], key, timestamp);
        assert(entries[i].due(timestamp) == Some(key));
    }
}

/// A database can be collected exactly where the end of the fresh time of every object in it can be told,
/// however many entries it has.
pub proof fn law_what_can_be_collected(entries: Seq<Scanned>)
    ensures
        all_datable(entries) <==> forall|i: int|
            0 <= i < entries.len() ==> (match #[trigger] entries[i] {
                Scanned::Object { key: _, meta } => i64::MIN <= meta.first_time_ref + meta.expire
                    <= i64::MAX,
                _ => true,
            }),
{
    if all_datable(entries) {
        assert forall|i: int| 0 <= i < entries.len() implies (match #[trigger] entries[i] {
            Scanned::Object { key: _, meta } => i64::MIN <= meta.first_time_ref + meta.expire
                <= i64::MAX,
            _ => true,
        }) by {
            assert(entries[i].datable());
        }
    }
}

} // verus!
