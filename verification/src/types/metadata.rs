//! What is kept about a cached object.
use vstd::prelude::*;
use vstd::string::*;
use crate::headers::TextLists;
use crate::table::Table;
use crate::time::{UtcTime, parse_date};

verus! {

/// What is kept about a cached object.
pub struct ObjectMetaData {
    /// The status of the origin's answer.
    pub status_code: u16,
    /// The headers of the origin's answer.
    pub headers: Table<Vec<String>>,
    /// The length of the body.
    pub size: usize,
    /// The method of the request.
    pub method: String,
    /// The path of the request.
    pub url_path: String,
    /// The host of the request.
    pub host: String,
    /// The entity tag that the origin gave.
    pub etag: String,
    /// For how many seconds the object is fresh.
    pub expire: i64,
    /// When the object was last asked for.
    pub last_ref_time: i64,
    /// How often the object was served.
    pub ref_count: i64,
    /// When the object was first asked for.
    pub first_time_ref: i64,
    /// The storage level.
    pub storage_level: i8,
    /// Where the body is stored.
    pub storage_path: String,
    /// The cache zone that the body is stored in.
    pub cache_zone: u8,
}

/// What is kept about a cached object, by its characters.
pub struct MetaView {
    pub status_code: u16,
    pub headers: TextLists,
    pub size: usize,
    pub method: Seq<char>,
    pub url_path: Seq<char>,
    pub host: Seq<char>,
    pub etag: Seq<char>,
    pub expire: i64,
    pub last_ref_time: i64,
    pub ref_count: i64,
    pub first_time_ref: i64,
    pub storage_level: i8,
    pub storage_path: Seq<char>,
    pub cache_zone: u8,
}

impl View for ObjectMetaData {
    type V = MetaView;

    open spec fn view(&self) -> MetaView {
        MetaView {
            status_code: self.status_code,
            headers: crate::headers::text_lists(self.headers@),
            size: self.size,
            method: self.method@,
            url_path: self.url_path@,
            host: self.host@,
            etag: self.etag@,
            expire: self.expire,
            last_ref_time: self.last_ref_time,
            ref_count: self.ref_count,
            first_time_ref: self.first_time_ref,
            storage_level: self.storage_level,
            storage_path: self.storage_path@,
            cache_zone: self.cache_zone,
        }
    }
}

impl MetaView {
    /// Whether the end of the fresh time fits 64 bits.
    pub open spec fn datable(self) -> bool {
        i64::MIN <= self.expire + self.first_time_ref <= i64::MAX
    }

    /// Whether there is a date of the last change wherever there is the header for one.
    pub open spec fn dated(self) -> bool {
        self.headers.contains_key("last-modified"@) ==> self.headers["last-modified"@].len() > 0
    }

    /// Whether there is a length wherever there is the header for one.
    pub open spec fn measured(self) -> bool {
        self.headers.contains_key("content-length"@) ==> self.headers["content-length"@].len() > 0
    }

    /// Whether the object is no longer fresh at a time.
    pub open spec fn expired_at(self, timestamp: i64) -> bool {
        self.expire + self.first_time_ref <= timestamp
    }

    /// When the origin last changed the object, where it said so.
    pub open spec fn last_modified(self) -> Option<UtcTime> {
        if self.headers.contains_key("last-modified"@) {
            crate::time::date_of(self.headers["last-modified"@][0])
        } else {
            None
        }
    }

    /// The object after one more request for it.
    pub open spec fn referenced(self, timestamp: i64) -> MetaView {
        MetaView { last_ref_time: timestamp, ref_count: (self.ref_count + 1) as i64, ..self }
    }
}

/// A copy of stored headers.
pub fn copy_headers(headers: &Table<Vec<String>>) -> (copy: Table<Vec<String>>)
    ensures
        crate::headers::text_lists(copy@) == crate::headers::text_lists(headers@),
{
    let n: usize = headers.len();
    let ghost list = headers.list();
    let mut copy: Table<Vec<String>> = Table::new();
    let mut i: usize = 0;
    proof {
        assert(crate::headers::text_lists(copy@) =~= crate::headers::text_lists(
            crate::table::as_map(list.take(0)),
        ));
    }
    while i < n
        invariant
            i <= n == list.len(),
            list == headers.list(),
            crate::table::distinct(list),
            crate::headers::text_lists(copy@) == crate::headers::text_lists(
                crate::table::as_map(list.take(i as int)),
            ),
        decreases n - i,
    {
        let ghost before = copy@;
        let ghost front = list.take(i as int);
        let values: Vec<String> = headers.value_at(i).clone();
        let ghost kept = values;
        let name: String = headers.name_at(i).clone();
        copy.put(name, values);
        proof {
            let pair = list[i as int];
            assert(kept@ =~= pair.1@);
            assert(list.take(i + 1) =~= front.push(pair));
            assert(crate::table::distinct(front));
            assert(forall|j: int| 0 <= j < front.len() ==> (#[trigger] front[j]).0@ != pair.0@);
            crate::table::lemma_put(front, i as int, pair, front.push(pair));
            let want = crate::headers::text_lists(crate::table::as_map(list.take(i + 1)));
            let have = crate::headers::text_lists(copy@);
            let seen = crate::headers::text_lists(before);
            assert(copy@ == before.insert(pair.0@, kept));
            assert forall|k: Seq<char>| #[trigger]
                have.contains_key(k) <==> want.contains_key(k) by {
                assert(seen.contains_key(k) <==> crate::headers::text_lists(
                    crate::table::as_map(front),
                ).contains_key(k));
            }
            assert forall|k: Seq<char>| #[trigger] have.contains_key(k) implies have[k] == want[k] by {
                if k != pair.0@ {
                    assert(seen.contains_key(k));
                    assert(seen[k] == crate::headers::text_lists(crate::table::as_map(front))[k]);
                }
            }
            assert(have =~= want);
        }
        i += 1;
    }
    assert(list.take(n as int) =~= list);
    copy
}

/// Whether there is a value wherever there is the header.
fn has_value(headers: &Table<Vec<String>>, name: &str) -> (yes: bool)
    ensures
        yes == (crate::headers::text_lists(headers@).contains_key(name@)
            ==> crate::headers::text_lists(headers@)[name@].len() > 0),
{
    match headers.get(name) {
        Some(values) => {
            assert(crate::headers::text_lists(headers@)[name@] == crate::headers::texts(values@));
            values.len() > 0
        },
        None => true,
    }
}

impl ObjectMetaData {
    /// Whether the end of the fresh time fits 64 bits.
    pub fn is_datable(&self) -> (yes: bool)
        ensures
            yes == self@.datable(),
    {
        match self.expire.checked_add(self.first_time_ref) {
            Some(_) => true,
            None => false,
        }
    }

    /// Whether there is a date of the last change wherever there is the header for one.
    pub fn is_dated(&self) -> (yes: bool)
        ensures
            yes == self@.dated(),
    {
        has_value(&self.headers, "last-modified")
    }

    /// Whether there is a length wherever there is the header for one.
    pub fn is_measured(&self) -> (yes: bool)
        ensures
            yes == self@.measured(),
    {
        has_value(&self.headers, "content-length")
    }

    /// Whether the object is no longer fresh at a time.
    pub fn is_expired(&self, timestamp: i64) -> (yes: bool)
        requires
            self@.datable(),
        ensures
            yes == self@.expired_at(timestamp),
    {
        self.expire + self.first_time_ref <= timestamp
    }

    /// When the origin last changed the object, where it said so in a date.
    pub fn last_modified(&self) -> (time: Option<UtcTime>)
        requires
            self@.dated(),
        ensures
            time == self@.last_modified(),
    {
        match self.headers.get("last-modified") {
            Some(values) => {
                assert(self@.headers["last-modified"@] == crate::headers::texts(values@));
                assert(crate::headers::texts(values@)[0] == values@[0]@);
                parse_date(values[0].as_str())
            },
            None => None,
        }
    }

    /// A copy.
    pub fn copy(&self) -> (copy: ObjectMetaData)
        ensures
            copy@ == self@,
    {
        ObjectMetaData {
            status_code: self.status_code,
            headers: copy_headers(&self.headers),
            size: self.size,
            method: self.method.clone(),
            url_path: self.url_path.clone(),
            host: self.host.clone(),
            etag: self.etag.clone(),
            expire: self.expire,
            last_ref_time: self.last_ref_time,
            ref_count: self.ref_count,
            first_time_ref: self.first_time_ref,
            storage_level: self.storage_level,
            storage_path: self.storage_path.clone(),
            cache_zone: self.cache_zone,
        }
    }
}

/// An object that has expired stays expired.
pub proof fn law_expiry_is_monotone(meta: MetaView, sooner: i64, later: i64)
    requires
        sooner <= later,
        meta.expired_at(sooner),
    ensures
        meta.expired_at(later),
{
}

/// An object is fresh for exactly as many seconds as it was given, counted from when it was first
/// asked for, whenever and however often it was asked for since.
pub proof fn law_fresh_time(meta: MetaView, seconds: int, asked: i64, times: i64)
    requires
        i64::MIN <= meta.first_time_ref + seconds <= i64::MAX,
    ensures
        meta.expired_at((meta.first_time_ref + seconds) as i64) <==> seconds >= meta.expire,
        (MetaView { last_ref_time: asked, ref_count: times, ..meta }).expired_at(
            (meta.first_time_ref + seconds) as i64,
        ) <==> seconds >= meta.expire,
{
}

/// When an object was last changed is what its first date of that says, where it has one.
pub proof fn law_last_change(meta: MetaView, dates: Seq<Seq<char>>)
    ensures
        !meta.headers.contains_key("last-modified"@) ==> meta.last_modified() is None,
        meta.headers.contains_key("last-modified"@) && meta.headers["last-modified"@] == dates
            && dates.len() > 0 ==> match crate::time::rfc2822_time(dates[0]) {
            Some((secs, nanos)) => meta.last_modified() == Some(UtcTime { secs, nanos }),
            None => meta.last_modified() is None,
        },
{
}

/// What laws say of an object's metadata they say of its fields: numbers are what they are, and texts
/// are their characters.
pub proof fn law_metadata_is_seen_as_it_is(meta: ObjectMetaData, name: Seq<char>, i: int)
    ensures
        meta@.status_code == meta.status_code,
        meta@.size == meta.size,
        meta@.expire == meta.expire,
        meta@.first_time_ref == meta.first_time_ref,
        meta@.last_ref_time == meta.last_ref_time,
        meta@.ref_count == meta.ref_count,
        meta@.storage_level == meta.storage_level,
        meta@.cache_zone == meta.cache_zone,
        meta@.host == meta.host@,
        meta@.method == meta.method@,
        meta@.url_path == meta.url_path@,
        meta@.etag == meta.etag@,
        meta@.storage_path == meta.storage_path@,
        meta@.headers.contains_key(name) == meta.headers@.contains_key(name),
        meta.headers@.contains_key(name) && 0 <= i < meta.headers@[name]@.len()
            ==> meta@.headers[name].len() == meta.headers@[name]@.len() && meta@.headers[name][i]
            == meta.headers@[name]@[i]@,
{
}

} // verus!
