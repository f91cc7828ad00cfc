//! What requests, answers and rules are made of.
pub mod acl;
pub mod metadata;

use vstd::prelude::*;
use vstd::string::*;
use http::HeaderMap;
use http::HeaderValue;
use crate::forward::can_forward;
use crate::headers::{HeaderView, header_get, header_get_all, header_text};
use crate::range::parse_range;
use crate::time::{UtcTime, parse_date};

verus! {

/// The key of a cached object.
pub type Hash = String;

/// An object's identity.
pub struct ObjectId {}

/// What a request asks of an object.
pub struct ReqOption {
    /// The bytes asked for.
    pub range: Option<(i64, i64)>,
    /// The method.
    pub method: String,
    /// When the request came in.
    pub request_time: i64,
}

/// A request as it came in.
pub struct Request {
    /// The host that is asked.
    pub host: String,
    /// The method.
    pub method: String,
    /// The path.
    pub url_path: String,
    /// The headers.
    pub headers: HeaderMap<HeaderValue>,
    /// When the request came in, in seconds since 1970.
    pub timestamp: i64,
}

/// A request, by its characters.
pub struct RequestView {
    pub host: Seq<char>,
    pub method: Seq<char>,
    pub url_path: Seq<char>,
    pub headers: HeaderView,
    pub timestamp: i64,
}

impl View for Request {
    type V = RequestView;

    open spec fn view(&self) -> RequestView {
        RequestView {
            host: self.host@,
            method: self.method@,
            url_path: self.url_path@,
            headers: crate::headers::header_contents(self.headers),
            timestamp: self.timestamp,
        }
    }
}

/// Where the bytes of an answer come from.
pub enum Source {
    /// There are none.
    Empty,
    /// The stored object that was opened.
    Opened,
    /// The origin's answer.
    Upstream,
    /// Memory.
    Bytes(Vec<u8>),
}

/// The body of an answer.
pub enum Content {
    /// A stream of bytes.
    Stream(Source),
    /// A file.
    Path(String),
}

/// The body of an answer, by its bytes and characters.
pub enum ContentView {
    Empty,
    Opened,
    Upstream,
    Bytes(Seq<u8>),
    Path(Seq<char>),
}

impl View for Content {
    type V = ContentView;

    open spec fn view(&self) -> ContentView {
        match self {
            Content::Stream(source) => match source {
                Source::Empty => ContentView::Empty,
                Source::Opened => ContentView::Opened,
                Source::Upstream => ContentView::Upstream,
                Source::Bytes(data) => ContentView::Bytes(data@),
            },
            Content::Path(path) => ContentView::Path(path@),
        }
    }
}

/// An answer.
pub struct Response {
    /// The status.
    pub status_code: u16,
    /// The headers.
    pub headers: HeaderMap<HeaderValue>,
    /// The body.
    pub content: Content,
}

/// The first value under a header name, where it is text.
pub open spec fn header_as_text(headers: HeaderView, name: Seq<char>) -> Option<Seq<char>> {
    if headers.contains_key(name) && crate::headers::visible(headers[name][0]) {
        Some(crate::headers::as_chars(headers[name][0]))
    } else {
        None
    }
}

/// Those of the values that are text, in their order.
pub open spec fn visible_texts(values: Seq<Seq<u8>>) -> Seq<Seq<char>>
    decreases values.len(),
{
    if values.len() == 0 {
        Seq::empty()
    } else if crate::headers::visible(values.last()) {
        visible_texts(values.drop_last()).push(crate::headers::as_chars(values.last()))
    } else {
        visible_texts(values.drop_last())
    }
}

/// The header names that the proxy asks for are valid, and in lower case.
pub(crate) proof fn lemma_known_names()
    ensures
        crate::headers::valid_name("range"@),
        crate::headers::valid_name("etag"@),
        crate::headers::valid_name("host"@),
        crate::headers::valid_name("cache-control"@),
        crate::headers::valid_name("if-none-match"@),
        crate::headers::valid_name("if-modified-since"@),
        crate::headers::valid_name("accept-encoding"@),
        crate::headers::lowercase("range"@) == "range"@,
        crate::headers::lowercase("etag"@) == "etag"@,
        crate::headers::lowercase("host"@) == "host"@,
        crate::headers::lowercase("cache-control"@) == "cache-control"@,
        crate::headers::lowercase("if-none-match"@) == "if-none-match"@,
        crate::headers::lowercase("if-modified-since"@) == "if-modified-since"@,
        crate::headers::lowercase("accept-encoding"@) == "accept-encoding"@,
{
    reveal_strlit("range");
    reveal_strlit("etag");
    reveal_strlit("host");
    reveal_strlit("cache-control");
    reveal_strlit("if-none-match");
    reveal_strlit("if-modified-since");
    reveal_strlit("accept-encoding");
    assert(crate::headers::lowercase("range"@) =~= "range"@);
    assert(crate::headers::lowercase("etag"@) =~= "etag"@);
    assert(crate::headers::lowercase("host"@) =~= "host"@);
    assert(crate::headers::lowercase("cache-control"@) =~= "cache-control"@);
    assert(crate::headers::lowercase("if-none-match"@) =~= "if-none-match"@);
    assert(crate::headers::lowercase("if-modified-since"@) =~= "if-modified-since"@);
    assert(crate::headers::lowercase("accept-encoding"@) =~= "accept-encoding"@);
}

/// The first value under a header name, where it is text.
pub fn text_header(headers: &HeaderMap<HeaderValue>, name: &str) -> (text: Option<String>)
    requires
        crate::headers::valid_name(name@),
        crate::headers::lowercase(name@) == name@,
    ensures
        match text {
            Some(t) => header_as_text(crate::headers::header_contents(*headers), name@) == Some(t@),
            None => header_as_text(crate::headers::header_contents(*headers), name@) is None,
        },
{
    match header_get(headers, name) {
        Some(value) => header_text(value.as_slice()),
        None => None,
    }
}

impl RequestView {
    /// Whether the headers can be handed on.
    pub open spec fn well_formed(self) -> bool {
        crate::forward::forwardable(self.headers)
    }

    /// The entity tag that the sender knows, where there is a non-empty one.
    pub open spec fn if_none_match(self) -> Option<Seq<char>> {
        match header_as_text(self.headers, "if-none-match"@) {
            Some(t) => if t.len() > 0 {
                Some(t)
            } else {
                None
            },
            None => None,
        }
    }

    /// The time of the version that the sender knows.
    pub open spec fn if_modified_since(self) -> Option<UtcTime> {
        match header_as_text(self.headers, "if-modified-since"@) {
            Some(t) => if t.len() > 0 {
                crate::time::date_of(t)
            } else {
                None
            },
            None => None,
        }
    }

    /// The encodings that the sender takes, one for each header line that is text.
    pub open spec fn accept_encoding(self) -> Seq<Seq<char>> {
        visible_texts(crate::headers::values_of(self.headers, "accept-encoding"@))
    }

    /// Whether the sender takes answers that are compressed with gzip: one of its header lines says
    /// this and nothing else.
    pub open spec fn takes_gzip(self) -> bool {
        self.accept_encoding().contains("gzip"@)
    }

    /// The bytes that the sender asks for, each end -1 where it is not given.
    pub open spec fn range(self) -> (i64, i64) {
        match header_as_text(self.headers, "range"@) {
            Some(t) => crate::range::range_bounds(t),
            None => (-1i64, -1i64),
        }
    }
}

impl Request {
    /// Whether the headers can be handed on.
    pub fn is_well_formed(&self) -> (yes: bool)
        ensures
            yes == self@.well_formed(),
    {
        can_forward(&self.headers)
    }

    /// The entity tag that the sender knows.
    pub fn get_if_none_match(&self) -> (tag: Option<String>)
        ensures
            match tag {
                Some(t) => self@.if_none_match() == Some(t@),
                None => self@.if_none_match() is None,
            },
    {
        proof {
            lemma_known_names();
        }
        match text_header(&self.headers, "if-none-match") {
            Some(t) => {
                if t.as_str().is_empty() {
                    None
                } else {
                    Some(t)
                }
            },
            None => None,
        }
    }

    /// The time of the version that the sender knows.
    pub fn get_if_modified_since(&self) -> (time: Option<UtcTime>)
        ensures
            time == self@.if_modified_since(),
    {
        proof {
            lemma_known_names();
        }
        match text_header(&self.headers, "if-modified-since") {
            Some(t) => {
                if t.as_str().is_empty() {
                    None
                } else {
                    parse_date(t.as_str())
                }
            },
            None => None,
        }
    }

    /// The encodings that the sender takes, where it names any.
    pub fn get_accept_encoding(&self) -> (encodings: Option<Vec<String>>)
        ensures
            match encodings {
                Some(list) => list@.len() > 0 && crate::headers::texts(list@)
                    == self@.accept_encoding(),
                None => self@.accept_encoding().len() == 0,
            },
    {
        proof {
            lemma_known_names();
        }
        let values: Vec<Vec<u8>> = header_get_all(&self.headers, "accept-encoding");
        let ghost all = crate::headers::byte_lists(values@);
        let mut list: Vec<String> = Vec::new();
        let mut i: usize = 0;
        proof {
            assert(all.take(0) =~= Seq::<Seq<u8>>::empty());
            assert(crate::headers::texts(list@) =~= visible_texts(all.take(0)));
        }
        while i < values.len()
            invariant
                i <= values.len(),
                all == crate::headers::byte_lists(values@),
                crate::headers::texts(list@) == visible_texts(all.take(i as int)),
            decreases values.len() - i,
        {
            let ghost before = crate::headers::texts(list@);
            proof {
                assert(all[i as int] == values@[i as int]@);
                assert(all.take(i + 1).drop_last() =~= all.take(i as int));
            }
            match header_text(values[i].as_slice()) {
                Some(t) => {
                    let ghost text = t@;
                    list.push(t);
                    assert(crate::headers::texts(list@) =~= before.push(text));
                },
                None => {},
            }
            i += 1;
        }
        assert(all.take(all.len() as int) =~= all);
        assert(crate::headers::texts(list@).len() == list@.len());
        if list.len() == 0 {
            None
        } else {
            Some(list)
        }
    }

    /// Whether the sender takes answers that are compressed with gzip.
    pub fn takes_gzip(&self) -> (yes: bool)
        ensures
            yes == self@.takes_gzip(),
    {
        match self.get_accept_encoding() {
            Some(list) => {
                let mut i: usize = 0;
                while i < list.len()
                    invariant
                        i <= list.len(),
                        crate::headers::texts(list@) == self@.accept_encoding(),
                        forall|j: int|
                            0 <= j < i ==> #[trigger] crate::headers::texts(list@)[j] != "gzip"@,
                    decreases list.len() - i,
                {
                    assert(crate::headers::texts(list@)[i as int] == list@[i as int]@);
                    if crate::text::same_text(list[i].as_str(), "gzip") {
                        return true;
                    }
                    i += 1;
                }
                false
            },
            None => false,
        }
    }

    /// The bytes that the sender asks for.
    pub fn range(&self) -> (rng: (i64, i64))
        ensures
            rng == self@.range(),
    {
        proof {
            lemma_known_names();
        }
        match text_header(&self.headers, "range") {
            Some(t) => parse_range(t.as_str()),
            None => (-1, -1),
        }
    }
}

/// Whether the first value under a header name is this text, byte by byte, all of it visible ASCII
/// characters, blanks and tabs.
pub open spec fn says(headers: HeaderView, name: Seq<char>, text: Seq<char>) -> bool {
    &&& headers.contains_key(name)
    &&& headers[name].len() > 0
    &&& headers[name][0].len() == text.len()
    &&& forall|i: int|
        0 <= i < text.len() ==> (#[trigger] text[i]) as int == headers[name][0][i] as int && (32
            <= headers[name][0][i] < 127 || headers[name][0][i] == 9)
}

/// Whether there is no first value under a header name, or it is no text.
pub open spec fn says_nothing(headers: HeaderView, name: Seq<char>) -> bool {
    forall|text: Seq<char>| !says(headers, name, text)
}

/// Whether every name has a value, as those of a header map have.
pub open spec fn has_values(headers: HeaderView) -> bool {
    forall|k: Seq<char>| #[trigger] headers.contains_key(k) ==> headers[k].len() > 0
}

/// A header is read as its first value, character by character, and not at all where that is no text.
pub proof fn law_header_is_read(headers: HeaderView, name: Seq<char>, text: Seq<char>)
    requires
        has_values(headers),
    ensures
        header_as_text(headers, name) == Some(text) <==> says(headers, name, text),
        header_as_text(headers, name) is None <==> says_nothing(headers, name),
        !headers.contains_key(name) ==> says_nothing(headers, name),
{
    if headers.contains_key(name) && crate::headers::visible(headers[name][0]) {
        let value = headers[name][0];
        let read = crate::headers::as_chars(value);
        assert forall|i: int| 0 <= i < read.len() implies (#[trigger] read[i]) as int
            == value[i] as int && (32 <= value[i] < 127 || value[i] == 9) by {
            assert(crate::headers::is_visible(value[i]));
        }
        assert(says(headers, name, read));
        if says(headers, name, text) {
            assert forall|i: int| 0 <= i < text.len() implies text[i] == read[i] by {
                assert(text[i] as int == value[i] as int);
                assert(read[i] as int == value[i] as int);
            }
            assert(text =~= read);
        }
    } else {
        assert forall|t: Seq<char>| !says(headers, name, t) by {
            if says(headers, name, t) {
                let value = headers[name][0];
                assert forall|i: int| 0 <= i < value.len() implies crate::headers::is_visible(
                    #[trigger] value[i],
                ) by {
                    assert(t[i] as int == value[i] as int);
                }
                assert(false);
            }
        }
    }
}

/// What a request asks is what its headers say: the entity tag is the text of `If-None-Match`, unless it
/// is empty, the time is the date of `If-Modified-Since`, and the bytes are those of `Range`.
pub proof fn law_conditions_are_read(req: RequestView, text: Seq<char>)
    requires
        has_values(req.headers),
    ensures
        req.if_none_match() == Some(text) <==> says(req.headers, "if-none-match"@, text)
            && text.len() > 0,
        says(req.headers, "if-modified-since"@, text) && text.len() > 0 ==> (
        match crate::time::rfc2822_time(text) {
            Some((secs, nanos)) => req.if_modified_since() == Some(UtcTime { secs, nanos }),
            None => req.if_modified_since() is None,
        }),
        says_nothing(req.headers, "if-none-match"@) ==> req.if_none_match() is None,
        says_nothing(req.headers, "if-modified-since"@) ==> req.if_modified_since() is None,
        says(req.headers, "if-modified-since"@, text) && text.len() == 0
            ==> req.if_modified_since() is None,
        says(req.headers, "range"@, text) ==> req.range() == crate::range::range_bounds(text),
        says_nothing(req.headers, "range"@) ==> req.range() == (-1i64, -1i64),
{
    law_header_is_read(req.headers, "if-none-match"@, text);
    law_header_is_read(req.headers, "if-modified-since"@, text);
    law_header_is_read(req.headers, "range"@, text);
}

/// The texts among values are those of the front and then those of the back.
proof fn lemma_texts_joined(front: Seq<Seq<u8>>, back: Seq<Seq<u8>>)
    ensures
        visible_texts(front + back) == visible_texts(front) + visible_texts(back),
    decreases back.len(),
{
    if back.len() == 0 {
        assert(front + back =~= front);
        assert(visible_texts(front) + visible_texts(back) =~= visible_texts(front));
    } else {
        let all = front + back;
        lemma_texts_joined(front, back.drop_last());
        assert(all.drop_last() =~= front + back.drop_last());
        assert(all.last() == back.last());
        assert(visible_texts(all) =~= visible_texts(front) + visible_texts(back));
    }
}

/// The encodings that a sender takes are those of its header lines that are text, each as it is, in their
/// order.
pub proof fn law_encodings_are_read(front: Seq<Seq<u8>>, value: Seq<u8>, back: Seq<Seq<u8>>)
    ensures
        visible_texts(front + back) == visible_texts(front) + visible_texts(back),
        visible_texts(seq![value]) == (if crate::headers::visible(value) {
            seq![crate::headers::as_chars(value)]
        } else {
            Seq::<Seq<char>>::empty()
        }),
{
    lemma_texts_joined(front, back);
    reveal_with_fuel(visible_texts, 2);
    let one = seq![value];
    assert(one.drop_last() =~= Seq::<Seq<u8>>::empty());
    if crate::headers::visible(value) {
        assert(visible_texts(one) =~= seq![crate::headers::as_chars(value)]);
    }
}

proof fn lemma_texts_hold_gzip(values: Seq<Seq<u8>>)
    ensures
        visible_texts(values).contains("gzip"@) <==> values.contains(seq![103u8, 122, 105, 112]),
    decreases values.len(),
{
    reveal_strlit("gzip");
    let word = seq![103u8, 122, 105, 112];
    if values.len() > 0 {
        let front = values.drop_last();
        let last = values.last();
        let texts = visible_texts(values);
        let before = visible_texts(front);
        lemma_texts_hold_gzip(front);
        assert(crate::headers::visible(word));
        assert(crate::headers::as_chars(word) =~= "gzip"@);
        if crate::headers::visible(last) && crate::headers::as_chars(last) == "gzip"@ {
            assert forall|i: int| 0 <= i < last.len() implies last[i] == word[i] by {
                assert(crate::headers::is_visible(last[i]));
                assert(crate::headers::as_chars(last)[i] == last[i] as char);
                assert("gzip"@[i] == word[i] as char);
            }
            assert(last =~= word);
        }
        if before.contains("gzip"@) {
            let p = choose|p: int| 0 <= p < before.len() && before[p] == "gzip"@;
            assert(texts[p] == "gzip"@);
        }
        if front.contains(word) {
            let p = choose|p: int| 0 <= p < front.len() && front[p] == word;
            assert(values[p] == word);
        }
        if last == word {
            assert(values[values.len() - 1] == word);
            assert(texts[before.len() as int] == "gzip"@);
        }
        if texts.contains("gzip"@) && last != word {
            let p = choose|p: int| 0 <= p < texts.len() && texts[p] == "gzip"@;
            assert(p < before.len());
            assert(before[p] == "gzip"@);
        }
        if values.contains(word) && last != word {
            let p = choose|p: int| 0 <= p < values.len() && values[p] == word;
            assert(front[p] == word);
        }
    }
}

/// A sender takes compressed answers exactly where one of the lines of its `Accept-Encoding` is `gzip`,
/// byte by byte.
pub proof fn law_gzip_is_taken_where_said(req: RequestView)
    ensures
        req.takes_gzip() <==> req.headers.contains_key("accept-encoding"@)
            && req.headers["accept-encoding"@].contains(seq![103u8, 122, 105, 112]),
{
    lemma_texts_hold_gzip(crate::headers::values_of(req.headers, "accept-encoding"@));
}

} // verus!
