//! Header collections: the `http` crate's multimap, and the stored form of a header set.
use vstd::prelude::*;
use vstd::string::*;
use vstd::utf8::*;
use http::HeaderMap;
use http::HeaderValue;
use std::str::FromStr;
use crate::error::ErrorKind;
use crate::table::Table;
use crate::text::chars_of;

verus! {

/// The `http` crate's header value, an opaque byte string.
#[verifier::external_type_specification]
#[verifier::external_body]
pub struct ExHeaderValue(http::HeaderValue);

/// The `http` crate's header multimap.
#[verifier::external_type_specification]
#[verifier::external_body]
#[verifier::reject_recursive_types(T)]
pub struct ExHeaderMap<T>(http::HeaderMap<T>);

/// A header set: the values of each (lower-case) name, in the order in which they were added.
pub type HeaderView = Map<Seq<char>, Seq<Seq<u8>>>;

/// A stored header set: the values of each name as text.
pub type TextLists = Map<Seq<char>, Seq<Seq<char>>>;

/// What an `http::HeaderMap` holds.
pub uninterp spec fn header_contents(headers: HeaderMap<HeaderValue>) -> HeaderView;

/// The most names a header set may have so that one more can always be added.
///
/// `HeaderMap` gives up when a table of 32768 slots has to grow: once 24576 names are in it, or,
/// where many names collide, once a fifth of the slots (6554) is taken.
pub const MAX_NAMES: usize = 6553;

/// Whether a header set has exactly `n` names.
pub open spec fn has_names(headers: HeaderView, n: nat) -> bool {
    headers.dom().finite() && headers.dom().len() == n
}

/// Whether one more header can be added.
pub open spec fn roomy(headers: HeaderView) -> bool {
    headers.dom().finite() && headers.dom().len() <= MAX_NAMES
}

/// The characters of an HTTP token, of which header names and methods are made.
pub open spec fn is_token_char(c: char) -> bool {
    ||| 'a' <= c <= 'z'
    ||| 'A' <= c <= 'Z'
    ||| '0' <= c <= '9'
    ||| c == '!'
    ||| c == '#'
    ||| c == '$'
    ||| c == '%'
    ||| c == '&'
    ||| c == '\''
    ||| c == '*'
    ||| c == '+'
    ||| c == '-'
    ||| c == '.'
    ||| c == '^'
    ||| c == '_'
    ||| c == '`'
    ||| c == '|'
    ||| c == '~'
}

/// Whether `s` is one or more token characters.
pub open spec fn is_token(s: Seq<char>) -> bool {
    s.len() > 0 && forall|i: int| 0 <= i < s.len() ==> is_token_char(#[trigger] s[i])
}

/// Whether `s` can name a header.
pub open spec fn valid_name(s: Seq<char>) -> bool {
    is_token(s) && s.len() <= 65535
}

/// Whether `s` is such a name as a header map may hold: one to 65535 characters, each a token
/// character that is no upper-case letter, a double quote, or a nul. The last two cannot be given to
/// a header by name, but a map can come with them: double quotes are taken by those functions of the
/// `http` crate that take names in lower case only, and nuls stand for the invalid characters of
/// literal names of more than 64 bytes, which are not looked at.
pub open spec fn held_name(s: Seq<char>) -> bool {
    1 <= s.len() <= 65535 && forall|i: int| 0 <= i < s.len() ==> is_held_char(#[trigger] s[i])
}

/// Whether a character may stand in a name that a header map holds.
pub open spec fn is_held_char(c: char) -> bool {
    (is_token_char(c) && !('A' <= c <= 'Z')) || c == '"' || c == '\0'
}

/// Whether a byte may stand in a header value.
pub open spec fn is_value_byte(b: u8) -> bool {
    (b >= 32 && b != 127) || b == 9
}

/// Whether `v` can be a header value.
pub open spec fn valid_value(v: Seq<u8>) -> bool {
    forall|i: int| 0 <= i < v.len() ==> is_value_byte(#[trigger] v[i])
}

/// Whether a byte is a visible ASCII character, a space or a tab.
pub open spec fn is_visible(b: u8) -> bool {
    (32 <= b && b < 127) || b == 9
}

/// Whether a header value can be read as text.
pub open spec fn visible(v: Seq<u8>) -> bool {
    forall|i: int| 0 <= i < v.len() ==> is_visible(#[trigger] v[i])
}

/// ASCII bytes as characters.
pub open spec fn as_chars(v: Seq<u8>) -> Seq<char> {
    v.map_values(|b: u8| b as char)
}

/// The lower-case form of an ASCII letter.
pub open spec fn lower(c: char) -> char {
    if 'A' <= c <= 'Z' {
        ((c as u8) + 32) as char
    } else {
        c
    }
}

/// `s` with its ASCII letters in lower case.
pub open spec fn lowercase(s: Seq<char>) -> Seq<char> {
    s.map_values(|c: char| lower(c))
}

/// The values under `name`; none where the name is absent.
pub open spec fn values_of(headers: HeaderView, name: Seq<char>) -> Seq<Seq<u8>> {
    if headers.contains_key(name) {
        headers[name]
    } else {
        Seq::empty()
    }
}

/// `headers` with one more value under `name`.
pub open spec fn with_value(headers: HeaderView, name: Seq<char>, value: Seq<u8>) -> HeaderView {
    headers.insert(name, values_of(headers, name).push(value))
}

/// The header set that a list of names and values adds up to.
pub open spec fn grouped(list: Seq<(Seq<char>, Seq<u8>)>) -> HeaderView
    decreases list.len(),
{
    if list.len() == 0 {
        Map::empty()
    } else {
        with_value(grouped(list.drop_last()), list.last().0, list.last().1)
    }
}

/// The bytes of each of a list of byte strings.
pub open spec fn byte_lists(v: Seq<Vec<u8>>) -> Seq<Seq<u8>> {
    v.map_values(|x: Vec<u8>| x@)
}

/// A list of names and values, by their characters and bytes.
pub open spec fn named_bytes(list: Seq<(String, Vec<u8>)>) -> Seq<(Seq<char>, Seq<u8>)> {
    list.map_values(|x: (String, Vec<u8>)| (x.0@, x.1@))
}

/// A list in which a value without a name belongs to the name before it.
pub open spec fn resolved(list: Seq<(Option<String>, Vec<u8>)>) -> Seq<(Seq<char>, Seq<u8>)>
    decreases list.len(),
{
    if list.len() == 0 {
        Seq::empty()
    } else {
        let front = resolved(list.drop_last());
        match list.last().0 {
            Some(name) => front.push((name@, list.last().1@)),
            None => front.push((front.last().0, list.last().1@)),
        }
    }
}

/// Every name is given once, and the first value has one.
pub open spec fn names_once(list: Seq<(Option<String>, Vec<u8>)>) -> bool {
    &&& list.len() > 0 ==> list[0].0 is Some
    &&& forall|i: int, j: int|
        0 <= i < j < list.len() && (#[trigger] list[i]).0 is Some && (#[trigger] list[j]).0 is Some
            ==> list[i].0->0@ != list[j].0->0@
}

/// `http::HeaderMap::new`: a header map that holds nothing.
#[verifier::external_body]
pub(crate) fn header_new() -> (headers: HeaderMap<HeaderValue>)
    ensures
        header_contents(headers) == HeaderView::empty(),
{
    HeaderMap::new()
}

/// `http::HeaderMap::keys_len`: how many different names a header map holds.
#[verifier::external_body]
pub(crate) fn header_names(headers: &HeaderMap<HeaderValue>) -> (n: usize)
    ensures
        has_names(header_contents(*headers), n as nat),
{
    headers.keys_len()
}

/// `http::HeaderMap::get`: the first value under a valid name, whatever the case of its letters.
#[verifier::external_body]
pub(crate) fn header_get(headers: &HeaderMap<HeaderValue>, name: &str) -> (value: Option<Vec<u8>>)
    requires
        valid_name(name@),
    ensures
        match value {
            Some(v) => header_contents(*headers).contains_key(lowercase(name@)) && header_contents(
                *headers,
            )[lowercase(name@)].len() > 0 && v@ == header_contents(*headers)[lowercase(name@)][0],
            None => !header_contents(*headers).contains_key(lowercase(name@)),
        },
{
    headers.get(name).map(|value| value.as_bytes().to_vec())
}

/// `http::HeaderMap::get_all`: all values under a valid name, in the order in which they were added.
#[verifier::external_body]
pub(crate) fn header_get_all(headers: &HeaderMap<HeaderValue>, name: &str) -> (values: Vec<Vec<u8>>)
    requires
        valid_name(name@),
    ensures
        byte_lists(values@) == values_of(header_contents(*headers), lowercase(name@)),
{
    headers.get_all(name).iter().map(|value| value.as_bytes().to_vec()).collect()
}

/// `http::HeaderMap::iter`: each name once per value, the values of one name in their order. Which
/// name comes before which is not said.
#[verifier::external_body]
pub(crate) fn header_iter(headers: &HeaderMap<HeaderValue>) -> (list: Vec<(String, Vec<u8>)>)
    ensures
        grouped(named_bytes(list@)) == header_contents(*headers),
        forall|i: int| 0 <= i < list@.len() ==> held_name((#[trigger] list@[i]).0@),
{
    headers.iter().map(|(name, value)| (name.as_str().to_string(), value.as_bytes().to_vec())).collect()
}

/// `http::HeaderMap::into_iter`: every value in turn, where only the first value of a name comes
/// with it and the others follow without one.
#[verifier::external_body]
pub(crate) fn header_into_iter(headers: HeaderMap<HeaderValue>) -> (list: Vec<
    (Option<String>, Vec<u8>),
>)
    ensures
        grouped(resolved(list@)) == header_contents(headers),
        names_once(list@),
{
    headers.into_iter().map(
        |(name, value)| (name.map(|name| name.to_string()), value.as_bytes().to_vec()),
    ).collect()
}

/// `http::HeaderMap::insert`: puts one value under a name, in place of all that were there.
#[verifier::external_body]
pub(crate) fn header_insert(headers: &mut HeaderMap<HeaderValue>, name: &str, value: &[u8])
    requires
        valid_name(name@),
        valid_value(value@),
        roomy(header_contents(*old(headers))),
    ensures
        header_contents(*final(headers)) == header_contents(*old(headers)).insert(
            lowercase(name@),
            seq![value@],
        ),
{
    headers.insert(
        http::HeaderName::from_str(name).unwrap(),
        HeaderValue::from_bytes(value).unwrap(),
    );
}

/// `http::HeaderMap::append`: adds a value after those under a name.
#[verifier::external_body]
pub(crate) fn header_append(headers: &mut HeaderMap<HeaderValue>, name: &str, value: &str)
    requires
        valid_name(name@),
        valid_value(encode_utf8(value@)),
        roomy(header_contents(*old(headers))),
    ensures
        header_contents(*final(headers)) == with_value(
            header_contents(*old(headers)),
            lowercase(name@),
            encode_utf8(value@),
        ),
{
    headers.append(
        http::HeaderName::from_str(name).unwrap(),
        HeaderValue::from_str(value).unwrap(),
    );
}

/// `http::HeaderValue::to_str`: a value as text, which it is where every byte is visible.
#[verifier::external_body]
pub(crate) fn header_text(value: &[u8]) -> (text: Option<String>)
    ensures
        match text {
            Some(t) => visible(value@) && t@ == as_chars(value@),
            None => !visible(value@),
        },
{
    let value = HeaderValue::from_bytes(value).ok()?;
    value.to_str().ok().map(|text| text.to_string())
}

/// The characters of each of a list of texts.
pub open spec fn texts(v: Seq<String>) -> Seq<Seq<char>> {
    v.map_values(|x: String| x@)
}

/// A stored header set, by its characters.
pub open spec fn text_lists(t: Map<Seq<char>, Vec<String>>) -> TextLists {
    t.map_values(|v: Vec<String>| texts(v@))
}

/// Of each name whose first value is text, that text.
pub open spec fn first_texts(headers: HeaderView) -> TextLists {
    Map::new(
        |k: Seq<char>| headers.contains_key(k) && visible(headers[k][0]),
        |k: Seq<char>| seq![as_chars(headers[k][0])],
    )
}

proof fn lemma_resolved_len(list: Seq<(Option<String>, Vec<u8>)>)
    ensures
        resolved(list).len() == list.len(),
    decreases list.len(),
{
    if list.len() > 0 {
        lemma_resolved_len(list.drop_last());
    }
}

/// A name is in the grouped set where one of the values resolves to it, and every name that is
/// there has a value.
pub(crate) proof fn lemma_grouped_names(list: Seq<(Seq<char>, Seq<u8>)>)
    ensures
        forall|k: Seq<char>| #[trigger]
            grouped(list).contains_key(k) <==> exists|i: int|
                0 <= i < list.len() && (#[trigger] list[i]).0 == k,
        forall|k: Seq<char>| #[trigger] grouped(list).contains_key(k) ==> grouped(list)[k].len() > 0,
    decreases list.len(),
{
    if list.len() > 0 {
        let front = list.drop_last();
        lemma_grouped_names(front);
        assert forall|k: Seq<char>| #[trigger]
            grouped(list).contains_key(k) <==> exists|i: int|
                0 <= i < list.len() && (#[trigger] list[i]).0 == k by {
            if k == list.last().0 {
                assert(list[list.len() - 1].0 == k);
            } else {
                if grouped(front).contains_key(k) {
                    let i = choose|i: int| 0 <= i < front.len() && (#[trigger] front[i]).0 == k;
                    assert(list[i].0 == k);
                }
                if exists|i: int| 0 <= i < list.len() && (#[trigger] list[i]).0 == k {
                    let i = choose|i: int| 0 <= i < list.len() && (#[trigger] list[i]).0 == k;
                    assert(front[i].0 == k);
                }
            }
        }
        assert forall|k: Seq<char>| #[trigger] grouped(list).contains_key(k) implies grouped(
            list,
        )[k].len() > 0 by {
            let before = grouped(front);
            assert(grouped(list) == with_value(before, list.last().0, list.last().1));
            if k != list.last().0 {
                assert(before.contains_key(k));
            }
        }
    }
}

/// The names that a header map holds are in lower case.
pub(crate) proof fn lemma_held_lower(name: Seq<char>)
    requires
        held_name(name),
    ensures
        lowercase(name) == name,
{
    assert forall|i: int| 0 <= i < name.len() implies lower(#[trigger] name[i]) == name[i] by {
        assert(is_held_char(name[i]));
    }
    assert(lowercase(name) =~= name);
}

/// The values in the grouped set are those of the list, each under its name.
pub(crate) proof fn lemma_grouped_values(list: Seq<(Seq<char>, Seq<u8>)>)
    ensures
        forall|i: int|
            0 <= i < list.len() ==> grouped(list).contains_key((#[trigger] list[i]).0) && grouped(
                list,
            )[list[i].0].contains(list[i].1),
        forall|k: Seq<char>, j: int|
            grouped(list).contains_key(k) && 0 <= j < grouped(list)[k].len() ==> list.contains(
                (k, #[trigger] grouped(list)[k][j]),
            ),
    decreases list.len(),
{
    if list.len() > 0 {
        let front = list.drop_last();
        let name = list.last().0;
        let value = list.last().1;
        let before = grouped(front);
        let after = grouped(list);
        lemma_grouped_values(front);
        assert(after == with_value(before, name, value));
        assert forall|i: int| 0 <= i < list.len() implies after.contains_key((#[trigger] list[i]).0)
            && after[list[i].0].contains(list[i].1) by {
            if i < front.len() {
                assert(front[i] == list[i]);
                let k = list[i].0;
                let p = choose|p: int| 0 <= p < before[k].len() && before[k][p] == list[i].1;
                assert(after[k][p] == list[i].1);
            } else {
                assert(after[name][values_of(before, name).len() as int] == value);
            }
        }
        assert forall|k: Seq<char>, j: int|
            after.contains_key(k) && 0 <= j < after[k].len() implies list.contains(
            (k, #[trigger] after[k][j]),
        ) by {
            if k == name && j == values_of(before, name).len() {
                assert(list[list.len() - 1] == (k, after[k][j]));
            } else {
                assert(before.contains_key(k) && after[k][j] == before[k][j]);
                assert(front.contains((k, before[k][j])));
                let p = choose|p: int| 0 <= p < front.len() && front[p] == (k, before[k][j]);
                assert(list[p] == front[p]);
            }
        }
    }
}

/// Every name that the values of a list resolve to is given by one of them.
proof fn lemma_resolved_named(list: Seq<(Option<String>, Vec<u8>)>)
    requires
        list.len() > 0 ==> list[0].0 is Some,
    ensures
        forall|i: int|
            0 <= i < list.len() ==> exists|j: int|
                0 <= j <= i && (#[trigger] list[j]).0 is Some && list[j].0->0@ == (
                #[trigger] resolved(list)[i]).0,
    decreases list.len(),
{
    lemma_resolved_len(list);
    if list.len() > 0 {
        let front = list.drop_last();
        lemma_resolved_len(front);
        lemma_resolved_named(front);
        assert forall|i: int| 0 <= i < list.len() implies exists|j: int|
            0 <= j <= i && (#[trigger] list[j]).0 is Some && list[j].0->0@ == (
            #[trigger] resolved(list)[i]).0 by {
            if i < front.len() {
                assert(resolved(list)[i] == resolved(front)[i]);
                let j = choose|j: int|
                    0 <= j <= i && (#[trigger] front[j]).0 is Some && front[j].0->0@ == resolved(
                        front,
                    )[i].0;
                assert(list[j] == front[j]);
            } else if list.last().0 is Some {
                assert(list[i].0->0@ == resolved(list)[i].0);
            } else {
                assert(front.len() > 0);
                let p = front.len() - 1;
                assert(resolved(list)[i].0 == resolved(front)[p].0);
                let j = choose|j: int|
                    0 <= j <= p && (#[trigger] front[j]).0 is Some && front[j].0->0@ == resolved(
                        front,
                    )[p].0;
                assert(list[j] == front[j]);
            }
        }
    }
}

proof fn lemma_resolved_take(list: Seq<(Option<String>, Vec<u8>)>, n: int)
    requires
        0 <= n < list.len(),
    ensures
        list.take(n + 1).drop_last() == list.take(n),
        list.take(n + 1).last() == list[n],
{
    assert(list.take(n + 1).drop_last() =~= list.take(n));
}

/// Turns a header map into its stored form: of each name the first value, where it is text.
pub fn conver_header_map_to_hashmap(src: HeaderMap<HeaderValue>) -> (ret: Result<
    Table<Vec<String>>,
    ErrorKind,
>)
    ensures
        ret is Ok,
        text_lists(ret->Ok_0@) == first_texts(header_contents(src)),
{
    let mut ret: Table<Vec<String>> = Table::new();
    let list: Vec<(Option<String>, Vec<u8>)> = header_into_iter(src);
    let ghost all = list@;
    let mut i: usize = 0;
    proof {
        assert(all.take(0) =~= Seq::<(Option<String>, Vec<u8>)>::empty());
        assert(text_lists(ret@) =~= first_texts(grouped(resolved(all.take(0)))));
    }
    while i < list.len()
        invariant
            list@ == all,
            i <= all.len(),
            names_once(all),
            text_lists(ret@) == first_texts(grouped(resolved(all.take(i as int)))),
        decreases all.len() - i,
    {
        let ghost front = resolved(all.take(i as int));
        let ghost before = ret@;
        proof {
            lemma_resolved_take(all, i as int);
            lemma_resolved_len(all.take(i as int));
            lemma_grouped_names(front);
            lemma_resolved_named(all.take(i as int));
        }
        match &list[i].0 {
            Some(name) => {
                proof {
                    if grouped(front).contains_key(name@) {
                        let p = choose|p: int| 0 <= p < front.len() && (#[trigger] front[p]).0 == name@;
                        let q = choose|q: int|
                            0 <= q <= p && (#[trigger] all.take(i as int)[q]).0 is Some && all.take(
                                i as int,
                            )[q].0->0@ == front[p].0;
                        assert(all.take(i as int)[q] == all[q]);
                        assert(false);
                    }
                    assert(resolved(all.take(i + 1)) == front.push((name@, all[i as int].1@)));
                    assert(front.push((name@, all[i as int].1@)).drop_last() =~= front);
                }
                match header_text(list[i].1.as_slice()) {
                    Some(value) => {
                        let ghost text = value@;
                        let mut values: Vec<String> = Vec::new();
                        values.push(value);
                        let ghost kept = values;
                        ret.put(name.clone(), values);
                        proof {
                            let after = grouped(resolved(all.take(i + 1)));
                            assert(texts(kept@) =~= seq![text]);
                            assert(after == with_value(grouped(front), name@, all[i as int].1@));
                            assert(after[name@][0] == all[i as int].1@);
                            assert(ret@ == before.insert(name@, kept));
                            assert(first_texts(after)[name@] == seq![text]);
                            assert(text_lists(ret@)[name@] == seq![text]);
                            assert forall|k: Seq<char>| #[trigger]
                                text_lists(ret@).contains_key(k) <==> first_texts(
                                    after,
                                ).contains_key(k) by {
                                assert(text_lists(before).contains_key(k) == first_texts(
                                    grouped(front),
                                ).contains_key(k));
                            }
                            assert forall|k: Seq<char>| #[trigger]
                                text_lists(ret@).contains_key(k) implies text_lists(ret@)[k]
                                == first_texts(after)[k] by {
                                if k != name@ {
                                    assert(text_lists(before).contains_key(k));
                                    assert(text_lists(before)[k] == first_texts(
                                        grouped(front),
                                    )[k]);
                                }
                            }
                            assert(text_lists(ret@) =~= first_texts(after));
                        }
                    },
                    None => {
                        proof {
                            assert(text_lists(ret@) =~= first_texts(
                                grouped(resolved(all.take(i + 1))),
                            ));
                        }
                    },
                }
            },
            None => {
                proof {
                    assert(i > 0);
                    let owner = front.last().0;
                    assert(front[front.len() - 1].0 == owner);
                    assert(grouped(front).contains_key(owner));
                    assert(resolved(all.take(i + 1)) == front.push((owner, all[i as int].1@)));
                    assert(front.push((owner, all[i as int].1@)).drop_last() =~= front);
                    assert(text_lists(ret@) =~= first_texts(grouped(resolved(all.take(i + 1)))));
                }
            },
        }
        i += 1;
    }
    assert(all.take(all.len() as int) =~= all);
    Ok(ret)
}

/// `headers` with the given texts after the values under `name`.
pub open spec fn with_texts(headers: HeaderView, name: Seq<char>, values: Seq<Seq<char>>) -> HeaderView
    decreases values.len(),
{
    if values.len() == 0 {
        headers
    } else {
        with_value(
            with_texts(headers, name, values.drop_last()),
            name,
            encode_utf8(values.last()),
        )
    }
}

/// The header set that comes of sending the given names, one after the other, with their values.
pub open spec fn sent(list: Seq<(Seq<char>, Seq<Seq<char>>)>) -> HeaderView
    decreases list.len(),
{
    if list.len() == 0 {
        Map::empty()
    } else {
        with_texts(sent(list.drop_last()), lowercase(list.last().0), list.last().1)
    }
}

/// Whether `list` gives each name of `stored` once, with its values.
pub open spec fn listing(list: Seq<(Seq<char>, Seq<Seq<char>>)>, stored: TextLists) -> bool {
    &&& forall|i: int, j: int|
        0 <= i < j < list.len() ==> (#[trigger] list[i]).0 != (#[trigger] list[j]).0
    &&& forall|i: int|
        0 <= i < list.len() ==> stored.contains_key((#[trigger] list[i]).0) && stored[list[i].0]
            == list[i].1
    &&& forall|k: Seq<char>| #[trigger]
        stored.contains_key(k) ==> exists|i: int| 0 <= i < list.len() && (#[trigger] list[i]).0 == k
}

/// Whether `headers` is what comes of sending `stored`, its names in one order or another. The
/// order matters only where two names differ in the case of their letters alone.
pub open spec fn headers_sent(stored: TextLists, headers: HeaderView) -> bool {
    exists|list: Seq<(Seq<char>, Seq<Seq<char>>)>|
        #[trigger] listing(list, stored) && headers == sent(list)
}

/// Whether the values under a name can be sent: they are valid values, and the name is valid
/// where there are any.
pub open spec fn sendable_entry(name: Seq<char>, values: Seq<Seq<char>>) -> bool {
    &&& values.len() > 0 ==> valid_name(name)
    &&& forall|i: int| 0 <= i < values.len() ==> valid_value(encode_utf8(#[trigger] values[i]))
}

/// Whether a stored header set can be sent.
pub open spec fn sendable(stored: TextLists) -> bool {
    &&& stored.dom().finite()
    &&& stored.dom().len() <= MAX_NAMES
    &&& forall|k: Seq<char>| #[trigger]
        stored.contains_key(k) ==> sendable_entry(k, stored[k])
}

/// A listed header set, by its characters.
pub open spec fn named_texts(list: Seq<(String, Vec<String>)>) -> Seq<(Seq<char>, Seq<Seq<char>>)> {
    list.map_values(|x: (String, Vec<String>)| (x.0@, texts(x.1@)))
}

proof fn lemma_named_texts_listing(list: Seq<(String, Vec<String>)>)
    requires
        crate::table::distinct(list),
    ensures
        listing(named_texts(list), text_lists(crate::table::as_map(list))),
{
    let names = named_texts(list);
    let stored = text_lists(crate::table::as_map(list));
    assert forall|i: int| 0 <= i < names.len() implies stored.contains_key((#[trigger] names[i]).0)
        && stored[names[i].0] == names[i].1 by {
        crate::table::lemma_entry(list, i);
    }
    assert forall|i: int, j: int| 0 <= i < j < names.len() implies (#[trigger] names[i]).0 != (
    #[trigger] names[j]).0 by {
        assert(list[i].0@ != list[j].0@);
    }
    assert forall|k: Seq<char>| #[trigger] stored.contains_key(k) implies exists|i: int|
        0 <= i < names.len() && (#[trigger] names[i]).0 == k by {
        assert(crate::table::listed(list, k));
        let p = crate::table::place(list, k);
        assert(list[p].0@ == k);
        assert(names[p].0 == k);
    }
}

/// Adding values under one name adds at most that name.
proof fn lemma_with_texts_dom(headers: HeaderView, name: Seq<char>, values: Seq<Seq<char>>)
    requires
        headers.dom().finite(),
    ensures
        with_texts(headers, name, values).dom().finite(),
        with_texts(headers, name, values).dom().len() <= headers.dom().len() + 1,
        with_texts(headers, name, values).dom() == (if values.len() == 0 {
            headers.dom()
        } else {
            headers.dom().insert(name)
        }),
    decreases values.len(),
{
    if values.len() > 0 {
        lemma_with_texts_dom(headers, name, values.drop_last());
        assert(with_texts(headers, name, values).dom() =~= headers.dom().insert(name));
    }
}

/// Sending a list gives at most as many names as the list is long.
proof fn lemma_sent_dom(list: Seq<(Seq<char>, Seq<Seq<char>>)>)
    ensures
        sent(list).dom().finite(),
        sent(list).dom().len() <= list.len(),
    decreases list.len(),
{
    if list.len() > 0 {
        lemma_sent_dom(list.drop_last());
        lemma_with_texts_dom(
            sent(list.drop_last()),
            lowercase(list.last().0),
            list.last().1,
        );
    }
}

/// Turns a stored header set into a header map.
pub fn conver_hashmap_to_header_map(src: Table<Vec<String>>) -> (ret: HeaderMap<HeaderValue>)
    requires
        sendable(text_lists(src@)),
    ensures
        headers_sent(text_lists(src@), header_contents(ret)),
{
    let mut ret: HeaderMap<HeaderValue> = header_new();
    let n: usize = src.len();
    let ghost list = named_texts(src.list());
    let ghost stored = text_lists(src@);
    proof {
        lemma_named_texts_listing(src.list());
        assert(stored.dom() =~= src@.dom());
        assert(list.take(0) =~= Seq::<(Seq<char>, Seq<Seq<char>>)>::empty());
    }
    let mut i: usize = 0;
    while i < n
        invariant
            n == src.list().len(),
            n == list.len(),
            n <= MAX_NAMES,
            i <= n,
            list == named_texts(src.list()),
            stored == text_lists(src@),
            listing(list, stored),
            sendable(stored),
            header_contents(ret) == sent(list.take(i as int)),
        decreases n - i,
    {
        let name: &String = src.name_at(i);
        let values: &Vec<String> = src.value_at(i);
        let ghost front = sent(list.take(i as int));
        let ghost wanted = list[i as int].1;
        proof {
            assert(list[i as int] == (name@, texts(values@)));
            assert(sendable_entry(name@, wanted));
            lemma_sent_dom(list.take(i as int));
            assert(list.take(i + 1).drop_last() =~= list.take(i as int));
            assert(wanted.take(0) =~= Seq::<Seq<char>>::empty());
        }
        let mut j: usize = 0;
        while j < values.len()
            invariant
                i < n <= MAX_NAMES,
                j <= values.len(),
                wanted == texts(values@),
                sendable_entry(name@, wanted),
                front.dom().finite(),
                front.dom().len() <= i,
                header_contents(ret) == with_texts(front, lowercase(name@), wanted.take(j as int)),
            decreases values.len() - j,
        {
            proof {
                lemma_with_texts_dom(front, lowercase(name@), wanted.take(j as int));
                assert(wanted[j as int] == values@[j as int]@);
                assert(wanted.take(j + 1).drop_last() =~= wanted.take(j as int));
            }
            header_append(&mut ret, name.as_str(), values[j].as_str());
            j += 1;
        }
        assert(wanted.take(values.len() as int) =~= wanted);
        i += 1;
    }
    assert(list.take(n as int) =~= list);
    ret
}

/// Whether `c` may stand in a token.
pub fn token_char(c: char) -> (yes: bool)
    ensures
        yes == is_token_char(c),
{
    ('a' <= c && c <= 'z') || ('A' <= c && c <= 'Z') || ('0' <= c && c <= '9') || c == '!' || c
        == '#' || c == '$' || c == '%' || c == '&' || c == '\'' || c == '*' || c == '+' || c == '-'
        || c == '.' || c == '^' || c == '_' || c == '`' || c == '|' || c == '~'
}

/// Whether `name` can name a header.
pub fn name_ok(name: &str) -> (yes: bool)
    ensures
        yes == valid_name(name@),
{
    let chars: Vec<char> = chars_of(name);
    if chars.len() == 0 || chars.len() > 65535 {
        return false;
    }
    let mut i: usize = 0;
    while i < chars.len()
        invariant
            chars@ == name@,
            i <= chars.len(),
            forall|j: int| 0 <= j < i ==> is_token_char(#[trigger] chars@[j]),
        decreases chars.len() - i,
    {
        if !token_char(chars[i]) {
            assert(!is_token_char(name@[i as int]));
            return false;
        }
        i += 1;
    }
    true
}

/// Whether `bytes` can be a header value.
pub fn value_ok(bytes: &[u8]) -> (yes: bool)
    ensures
        yes == valid_value(bytes@),
{
    let mut i: usize = 0;
    while i < bytes.len()
        invariant
            i <= bytes.len(),
            forall|j: int| 0 <= j < i ==> is_value_byte(#[trigger] bytes@[j]),
        decreases bytes.len() - i,
    {
        let b: u8 = bytes[i];
        if !((b >= 32 && b != 127) || b == 9) {
            assert(!is_value_byte(bytes@[i as int]));
            return false;
        }
        i += 1;
    }
    true
}

/// Whether the values under a name can be sent.
pub fn entry_ok(name: &str, values: &Vec<String>) -> (yes: bool)
    ensures
        yes == sendable_entry(name@, texts(values@)),
{
    if values.len() > 0 && !name_ok(name) {
        return false;
    }
    let mut i: usize = 0;
    while i < values.len()
        invariant
            i <= values.len(),
            forall|j: int|
                0 <= j < i ==> valid_value(encode_utf8(#[trigger] texts(values@)[j])),
        decreases values.len() - i,
    {
        assert(texts(values@)[i as int] == values@[i as int]@);
        if !value_ok(values[i].as_str().as_bytes()) {
            return false;
        }
        i += 1;
    }
    true
}

/// Whether a stored header set can be sent.
pub fn can_send(stored: &Table<Vec<String>>) -> (yes: bool)
    ensures
        yes == sendable(text_lists(stored@)),
{
    let n: usize = stored.len();
    let ghost list = stored.list();
    assert(text_lists(stored@).dom() =~= stored@.dom());
    if n > MAX_NAMES {
        return false;
    }
    let mut i: usize = 0;
    while i < n
        invariant
            i <= n == list.len(),
            list == stored.list(),
            crate::table::distinct(list),
            stored@ == crate::table::as_map(list),
            forall|j: int|
                0 <= j < i ==> sendable_entry((#[trigger] list[j]).0@, texts(list[j].1@)),
        decreases n - i,
    {
        if !entry_ok(stored.name_at(i).as_str(), stored.value_at(i)) {
            proof {
                crate::table::lemma_entry(list, i as int);
                assert(text_lists(stored@).contains_key(list[i as int].0@));
            }
            return false;
        }
        i += 1;
    }
    proof {
        assert forall|k: Seq<char>| #[trigger]
            text_lists(stored@).contains_key(k) implies sendable_entry(
            k,
            text_lists(stored@)[k],
        ) by {
            assert(crate::table::listed(list, k));
            let p = crate::table::place(list, k);
            assert(list[p].0@ == k);
            crate::table::lemma_entry(list, p);
        }
    }
    true
}

/// Texts as they are sent.
pub open spec fn encoded_texts(values: Seq<Seq<char>>) -> Seq<Seq<u8>> {
    values.map_values(|v: Seq<char>| encode_utf8(v))
}

/// Whether no two names differ in the case of their letters alone.
pub open spec fn case_distinct(stored: TextLists) -> bool {
    forall|a: Seq<char>, b: Seq<char>|
        #![trigger stored.contains_key(a), stored.contains_key(b)]
        stored.contains_key(a) && stored.contains_key(b) && lowercase(a) == lowercase(b) ==> a == b
}

/// Values under a name that was not there yet.
proof fn lemma_with_texts_new(headers: HeaderView, name: Seq<char>, values: Seq<Seq<char>>)
    requires
        !headers.contains_key(name),
    ensures
        with_texts(headers, name, values) == (if values.len() == 0 {
            headers
        } else {
            headers.insert(name, encoded_texts(values))
        }),
    decreases values.len(),
{
    if values.len() > 0 {
        let front = values.drop_last();
        lemma_with_texts_new(headers, name, front);
        assert(encoded_texts(values) =~= encoded_texts(front).push(encode_utf8(values.last())));
        if front.len() == 0 {
            assert(encoded_texts(values) =~= seq![encode_utf8(values.last())]);
            assert(Seq::<Seq<u8>>::empty().push(encode_utf8(values.last())) =~= seq![
                encode_utf8(values.last()),
            ]);
        }
        assert(with_texts(headers, name, values) =~= headers.insert(name, encoded_texts(values)));
    }
}

/// What comes of sending names of which no two differ in the case of their letters alone.
proof fn lemma_sent(list: Seq<(Seq<char>, Seq<Seq<char>>)>)
    requires
        forall|i: int, j: int|
            0 <= i < j < list.len() ==> lowercase((#[trigger] list[i]).0) != lowercase(
                (#[trigger] list[j]).0,
            ),
    ensures
        forall|k: Seq<char>| #[trigger]
            sent(list).contains_key(k) ==> exists|i: int|
                0 <= i < list.len() && lowercase((#[trigger] list[i]).0) == k && list[i].1.len() > 0,
        forall|i: int|
            0 <= i < list.len() && (#[trigger] list[i]).1.len() > 0 ==> sent(list).contains_key(
                lowercase(list[i].0),
            ) && sent(list)[lowercase(list[i].0)] == encoded_texts(list[i].1),
    decreases list.len(),
{
    if list.len() > 0 {
        let front = list.drop_last();
        let last = list.last();
        let name = lowercase(last.0);
        assert forall|i: int, j: int| 0 <= i < j < front.len() implies lowercase(
            (#[trigger] front[i]).0,
        ) != lowercase((#[trigger] front[j]).0) by {
            assert(front[i] == list[i] && front[j] == list[j]);
        }
        lemma_sent(front);
        if sent(front).contains_key(name) {
            let i = choose|i: int|
                0 <= i < front.len() && lowercase((#[trigger] front[i]).0) == name
                    && front[i].1.len() > 0;
            assert(list[i] == front[i]);
            assert(list[list.len() - 1] == last);
            assert(false);
        }
        lemma_with_texts_new(sent(front), name, last.1);
        assert forall|k: Seq<char>| #[trigger] sent(list).contains_key(k) implies exists|i: int|
            0 <= i < list.len() && lowercase((#[trigger] list[i]).0) == k && list[i].1.len() > 0 by {
            if sent(front).contains_key(k) {
                let i = choose|i: int|
                    0 <= i < front.len() && lowercase((#[trigger] front[i]).0) == k
                        && front[i].1.len() > 0;
                assert(list[i] == front[i]);
            } else {
                assert(lowercase(list[list.len() - 1].0) == k);
            }
        }
        assert forall|i: int|
            0 <= i < list.len() && (#[trigger] list[i]).1.len() > 0 implies sent(list).contains_key(
            lowercase(list[i].0),
        ) && sent(list)[lowercase(list[i].0)] == encoded_texts(list[i].1) by {
            if i < front.len() {
                assert(front[i] == list[i]);
                assert(lowercase(list[i].0) != lowercase(list[list.len() - 1].0));
            }
        }
    }
}

/// Where no two names differ in the case of their letters alone, what is sent is determined by what
/// is stored: every name that has values comes once, in lower case, with those values.
pub proof fn law_sent_is_determined(stored: TextLists, headers: HeaderView)
    requires
        case_distinct(stored),
        headers_sent(stored, headers),
    ensures
        forall|k: Seq<char>| #[trigger]
            stored.contains_key(k) && stored[k].len() > 0 ==> headers.contains_key(lowercase(k))
                && headers[lowercase(k)] == encoded_texts(stored[k]),
        forall|n: Seq<char>| #[trigger]
            headers.contains_key(n) ==> exists|k: Seq<char>| #[trigger]
                stored.contains_key(k) && stored[k].len() > 0 && lowercase(k) == n,
{
    let list = choose|list: Seq<(Seq<char>, Seq<Seq<char>>)>|
        #[trigger] listing(list, stored) && headers == sent(list);
    assert forall|i: int, j: int| 0 <= i < j < list.len() implies lowercase(
        (#[trigger] list[i]).0,
    ) != lowercase((#[trigger] list[j]).0) by {
        assert(stored.contains_key(list[i].0) && stored.contains_key(list[j].0));
        assert(list[i].0 != list[j].0);
    }
    lemma_sent(list);
    assert forall|k: Seq<char>| #[trigger]
        stored.contains_key(k) && stored[k].len() > 0 implies headers.contains_key(lowercase(k))
        && headers[lowercase(k)] == encoded_texts(stored[k]) by {
        let i = choose|i: int| 0 <= i < list.len() && (#[trigger] list[i]).0 == k;
        assert(stored[list[i].0] == list[i].1);
    }
    assert forall|n: Seq<char>| #[trigger] headers.contains_key(n) implies exists|k: Seq<char>| #[trigger]
        stored.contains_key(k) && stored[k].len() > 0 && lowercase(k) == n by {
        let i = choose|i: int|
            0 <= i < list.len() && lowercase((#[trigger] list[i]).0) == n && list[i].1.len() > 0;
        assert(stored.contains_key(list[i].0) && stored[list[i].0] == list[i].1);
    }
}

/// What becomes of values when more are added under one name: none is lost, and none comes of
/// nothing.
proof fn lemma_with_texts_values(headers: HeaderView, name: Seq<char>, values: Seq<Seq<char>>)
    ensures
        ({
            let after = with_texts(headers, name, values);
            &&& forall|v: Seq<u8>| #[trigger]
                encoded_texts(values).contains(v) ==> after.contains_key(name)
                    && after[name].contains(v)
            &&& forall|k: Seq<char>, v: Seq<u8>|
                headers.contains_key(k) && #[trigger] headers[k].contains(v)
                    ==> after.contains_key(k) && after[k].contains(v)
            &&& forall|k: Seq<char>, v: Seq<u8>|
                after.contains_key(k) && #[trigger] after[k].contains(v) ==> (headers.contains_key(k)
                    && headers[k].contains(v)) || (k == name && encoded_texts(values).contains(v))
            &&& forall|k: Seq<char>|
                k != name ==> #[trigger] after.contains_key(k) == headers.contains_key(k) && after[k]
                    == headers[k]
        }),
    decreases values.len(),
{
    if values.len() > 0 {
        let front = values.drop_last();
        let value = encode_utf8(values.last());
        let before = with_texts(headers, name, front);
        let after = with_texts(headers, name, values);
        let was = values_of(before, name);
        lemma_with_texts_values(headers, name, front);
        assert(after == with_value(before, name, value));
        assert(after[name] == was.push(value));
        assert(after[name][was.len() as int] == value);
        assert forall|k: Seq<char>, v: Seq<u8>|
            before.contains_key(k) && #[trigger] before[k].contains(v) implies after.contains_key(k)
            && after[k].contains(v) by {
            let p = choose|p: int| 0 <= p < before[k].len() && before[k][p] == v;
            assert(after[k][p] == v);
        }
        assert forall|v: Seq<u8>| #[trigger] encoded_texts(values).contains(v) implies after.contains_key(
            name,
        ) && after[name].contains(v) by {
            let i = choose|i: int| 0 <= i < encoded_texts(values).len() && encoded_texts(values)[i] == v;
            if i < front.len() {
                assert(encoded_texts(front)[i] == v);
                assert(encoded_texts(front).contains(v));
                assert(before[name].contains(v));
            }
        }
        assert forall|k: Seq<char>, v: Seq<u8>|
            headers.contains_key(k) && #[trigger] headers[k].contains(v) implies after.contains_key(
            k,
        ) && after[k].contains(v) by {
            assert(before[k].contains(v));
        }
        assert forall|k: Seq<char>, v: Seq<u8>|
            after.contains_key(k) && #[trigger] after[k].contains(v) implies (headers.contains_key(k)
            && headers[k].contains(v)) || (k == name && encoded_texts(values).contains(v)) by {
            let p = choose|p: int| 0 <= p < after[k].len() && after[k][p] == v;
            if k == name && p == was.len() {
                assert(encoded_texts(values)[values.len() - 1] == v);
            } else {
                assert(before.contains_key(k) && before[k][p] == v);
                assert(before[k].contains(v));
                if k == name && encoded_texts(front).contains(v) {
                    let q = choose|q: int|
                        0 <= q < encoded_texts(front).len() && encoded_texts(front)[q] == v;
                    assert(encoded_texts(values)[q] == v);
                }
            }
        }
    }
}

/// What comes of sending a list: every value arrives under its name in lower case, and every value
/// that arrives is one of the list.
proof fn lemma_sent_values(list: Seq<(Seq<char>, Seq<Seq<char>>)>)
    ensures
        forall|i: int, v: Seq<u8>|
            0 <= i < list.len() && #[trigger] encoded_texts(list[i].1).contains(v) ==> sent(
                list,
            ).contains_key(lowercase(list[i].0)) && sent(list)[lowercase(list[i].0)].contains(v),
        forall|n: Seq<char>, v: Seq<u8>|
            sent(list).contains_key(n) && #[trigger] sent(list)[n].contains(v) ==> exists|i: int|
                0 <= i < list.len() && lowercase((#[trigger] list[i]).0) == n && encoded_texts(
                    list[i].1,
                ).contains(v),
        forall|n: Seq<char>| #[trigger]
            sent(list).contains_key(n) ==> exists|i: int|
                0 <= i < list.len() && lowercase((#[trigger] list[i]).0) == n,
    decreases list.len(),
{
    if list.len() > 0 {
        let front = list.drop_last();
        let last = list.last();
        let name = lowercase(last.0);
        lemma_sent_values(front);
        lemma_with_texts_values(sent(front), name, last.1);
        assert(list[list.len() - 1] == last);
        assert forall|i: int, v: Seq<u8>|
            0 <= i < list.len() && #[trigger] encoded_texts(list[i].1).contains(v) implies sent(
            list,
        ).contains_key(lowercase(list[i].0)) && sent(list)[lowercase(list[i].0)].contains(v) by {
            if i < front.len() {
                assert(front[i] == list[i]);
                assert(encoded_texts(front[i].1).contains(v));
                assert(sent(front)[lowercase(front[i].0)].contains(v));
            } else {
                assert(encoded_texts(last.1).contains(v));
            }
        }
        assert forall|n: Seq<char>, v: Seq<u8>|
            sent(list).contains_key(n) && #[trigger] sent(list)[n].contains(v) implies exists|i: int|
            0 <= i < list.len() && lowercase((#[trigger] list[i]).0) == n && encoded_texts(
                list[i].1,
            ).contains(v) by {
            if sent(front).contains_key(n) && sent(front)[n].contains(v) {
                let i = choose|i: int|
                    0 <= i < front.len() && lowercase((#[trigger] front[i]).0) == n
                        && encoded_texts(front[i].1).contains(v);
                assert(list[i] == front[i]);
            }
        }
        assert forall|n: Seq<char>| #[trigger] sent(list).contains_key(n) implies exists|i: int|
            0 <= i < list.len() && lowercase((#[trigger] list[i]).0) == n by {
            if n != name {
                assert(sent(front).contains_key(n));
                let i = choose|i: int| 0 <= i < front.len() && lowercase((#[trigger] front[i]).0) == n;
                assert(list[i] == front[i]);
            }
        }
    }
}

/// What arrives under a name that no other name of the list comes together with.
proof fn lemma_sent_alone(list: Seq<(Seq<char>, Seq<Seq<char>>)>, i: int)
    requires
        0 <= i < list.len(),
        list[i].1.len() > 0,
        forall|j: int|
            0 <= j < list.len() && j != i ==> lowercase((#[trigger] list[j]).0) != lowercase(
                list[i].0,
            ),
    ensures
        sent(list).contains_key(lowercase(list[i].0)),
        sent(list)[lowercase(list[i].0)] == encoded_texts(list[i].1),
    decreases list.len(),
{
    let front = list.drop_last();
    let last = list.last();
    let name = lowercase(list[i].0);
    if i == list.len() - 1 {
        lemma_sent_values(front);
        if sent(front).contains_key(name) {
            let j = choose|j: int| 0 <= j < front.len() && lowercase((#[trigger] front[j]).0) == name;
            assert(list[j] == front[j]);
            assert(false);
        }
        lemma_with_texts_new(sent(front), name, last.1);
    } else {
        assert(front[i] == list[i]);
        assert forall|j: int| 0 <= j < front.len() && j != i implies lowercase(
            (#[trigger] front[j]).0,
        ) != lowercase(front[i].0) by {
            assert(front[j] == list[j]);
        }
        lemma_sent_alone(front, i);
        assert(list[list.len() - 1] == last);
        lemma_with_texts_values(sent(front), lowercase(last.0), last.1);
        assert(sent(list).contains_key(name) == sent(front).contains_key(name));
    }
}

/// No stored value is lost when it is sent, also where names differ in the case of their letters
/// alone, and no value is sent that was not stored.
pub proof fn law_no_value_is_lost(stored: TextLists, headers: HeaderView)
    requires
        headers_sent(stored, headers),
    ensures
        forall|k: Seq<char>, v: Seq<u8>|
            stored.contains_key(k) && #[trigger] encoded_texts(stored[k]).contains(v)
                ==> headers.contains_key(lowercase(k)) && headers[lowercase(k)].contains(v),
        forall|n: Seq<char>, v: Seq<u8>|
            headers.contains_key(n) && #[trigger] headers[n].contains(v) ==> exists|k: Seq<char>|
                #[trigger] stored.contains_key(k) && lowercase(k) == n && encoded_texts(
                    stored[k],
                ).contains(v),
{
    let list = choose|list: Seq<(Seq<char>, Seq<Seq<char>>)>|
        #[trigger] listing(list, stored) && headers == sent(list);
    lemma_sent_values(list);
    assert forall|k: Seq<char>, v: Seq<u8>|
        stored.contains_key(k) && #[trigger] encoded_texts(stored[k]).contains(v) implies headers.contains_key(
        lowercase(k),
    ) && headers[lowercase(k)].contains(v) by {
        let p = choose|p: int| 0 <= p < list.len() && (#[trigger] list[p]).0 == k;
        assert(list[p].1 == stored[k]);
        assert(encoded_texts(list[p].1).contains(v));
    }
    assert forall|n: Seq<char>, v: Seq<u8>|
        headers.contains_key(n) && #[trigger] headers[n].contains(v) implies exists|k: Seq<char>|
        #[trigger] stored.contains_key(k) && lowercase(k) == n && encoded_texts(stored[k]).contains(
            v,
        ) by {
        let p = choose|p: int|
            0 <= p < list.len() && lowercase((#[trigger] list[p]).0) == n && encoded_texts(
                list[p].1,
            ).contains(v);
        assert(stored.contains_key(list[p].0) && stored[list[p].0] == list[p].1);
    }
}

/// A stored name that no other differs from in the case of its letters alone is sent with its values
/// and no others.
pub proof fn law_sent_alone(stored: TextLists, headers: HeaderView, name: Seq<char>)
    requires
        headers_sent(stored, headers),
        stored.contains_key(name),
        stored[name].len() > 0,
        forall|k: Seq<char>| #[trigger]
            stored.contains_key(k) && lowercase(k) == lowercase(name) ==> k == name,
    ensures
        headers.contains_key(lowercase(name)),
        headers[lowercase(name)] == encoded_texts(stored[name]),
{
    let list = choose|list: Seq<(Seq<char>, Seq<Seq<char>>)>|
        #[trigger] listing(list, stored) && headers == sent(list);
    let i = choose|i: int| 0 <= i < list.len() && (#[trigger] list[i]).0 == name;
    assert(list[i].1 == stored[name]);
    assert forall|j: int| 0 <= j < list.len() && j != i implies lowercase((#[trigger] list[j]).0)
        != lowercase(list[i].0) by {
        assert(stored.contains_key(list[j].0));
        assert(list[j].0 != list[i].0);
    }
    lemma_sent_alone(list, i);
}

/// Whether a header set is one that can be received: names and values are valid, names are in lower
/// case, and each has a value.
pub open spec fn received(headers: HeaderView) -> bool {
    &&& roomy(headers)
    &&& forall|k: Seq<char>| #[trigger]
        headers.contains_key(k) ==> valid_name(k) && lowercase(k) == k && headers[k].len() > 0
            && forall|i: int| 0 <= i < headers[k].len() ==> valid_value(#[trigger] headers[k][i])
}

/// Text of a header value is the value again when it is encoded.
proof fn lemma_visible_encoding(value: Seq<u8>)
    requires
        visible(value),
    ensures
        encode_utf8(as_chars(value)) == value,
        valid_value(value),
{
    let text = as_chars(value);
    assert forall|i: int| 0 <= i < text.len() implies '\0' <= #[trigger] text[i] <= '\u{7f}' by {
        assert(is_visible(value[i]));
    }
    assert(is_ascii_chars(text));
    is_ascii_chars_encode_utf8(text);
    assert forall|i: int| 0 <= i < value.len() implies is_value_byte(#[trigger] value[i]) by {
        assert(is_visible(value[i]));
    }
    assert(encode_utf8(text) =~= value);
}

/// Text of printable ASCII characters can be a header value.
pub proof fn lemma_printable(text: Seq<char>)
    requires
        forall|i: int| 0 <= i < text.len() ==> ' ' <= #[trigger] text[i] <= '~',
    ensures
        valid_value(encode_utf8(text)),
{
    assert forall|i: int| 0 <= i < text.len() implies '\0' <= #[trigger] text[i] <= '\u{7f}' by {
        assert(' ' <= text[i] <= '~');
    }
    assert(is_ascii_chars(text));
    is_ascii_chars_encode_utf8(text);
    let bytes = encode_utf8(text);
    assert forall|i: int| 0 <= i < bytes.len() implies is_value_byte(#[trigger] bytes[i]) by {
        assert(' ' <= text[i] <= '~');
        assert(bytes[i] == text[i] as u8);
    }
}

/// The headers of an answer can be sent again once they are stored.
pub proof fn law_stored_can_be_sent(headers: HeaderView)
    requires
        received(headers),
    ensures
        sendable(first_texts(headers)),
        case_distinct(first_texts(headers)),
{
    let stored = first_texts(headers);
    assert(stored.dom().subset_of(headers.dom()));
    vstd::set_lib::lemma_len_subset(stored.dom(), headers.dom());
    assert forall|k: Seq<char>| #[trigger] stored.contains_key(k) implies sendable_entry(
        k,
        stored[k],
    ) by {
        assert(headers.contains_key(k));
        lemma_visible_encoding(headers[k][0]);
        assert(stored[k] =~= seq![as_chars(headers[k][0])]);
    }
    assert forall|a: Seq<char>, b: Seq<char>|
        #![trigger stored.contains_key(a), stored.contains_key(b)]
        stored.contains_key(a) && stored.contains_key(b) && lowercase(a) == lowercase(
            b,
        ) implies a == b by {
        assert(headers.contains_key(a) && headers.contains_key(b));
    }
}

/// Of an answer's headers that are stored and sent again, exactly those arrive whose first value is
/// text, each with that value, byte for byte.
pub proof fn law_store_and_send(headers: HeaderView, out: HeaderView)
    requires
        received(headers),
        headers_sent(first_texts(headers), out),
    ensures
        forall|k: Seq<char>| #[trigger]
            out.contains_key(k) <==> headers.contains_key(k) && visible(headers[k][0]),
        forall|k: Seq<char>| #[trigger] out.contains_key(k) ==> out[k] == seq![headers[k][0]],
{
    let stored = first_texts(headers);
    law_stored_can_be_sent(headers);
    law_sent_is_determined(stored, out);
    assert forall|k: Seq<char>| headers.contains_key(k) && visible(headers[k][0]) implies #[trigger] out.contains_key(
        k,
    ) && out[k] == seq![headers[k][0]] by {
        assert(stored.contains_key(k) && stored[k].len() > 0);
        lemma_visible_encoding(headers[k][0]);
        assert(encoded_texts(stored[k]) =~= seq![headers[k][0]]);
    }
    assert forall|k: Seq<char>| #[trigger] out.contains_key(k) implies headers.contains_key(k)
        && visible(headers[k][0]) by {
        let n = choose|n: Seq<char>| #[trigger]
            stored.contains_key(n) && stored[n].len() > 0 && lowercase(n) == k;
        assert(headers.contains_key(n));
    }
}

/// Header values may hold every byte but control characters, of which they may hold tabs; text is what
/// holds ASCII alone of these.
pub proof fn law_bytes_of_values(b: u8)
    ensures
        is_value_byte(b) <==> b == 9 || 32 <= b < 127 || b >= 128,
        is_visible(b) <==> is_value_byte(b) && b < 128,
{
}

/// Header names and methods are made of letters, digits and fifteen signs, and header names are at most
/// 65535 characters long.
pub proof fn law_characters_of_names(s: Seq<char>)
    ensures
        is_token(s) <==> s.len() > 0 && forall|i: int|
            0 <= i < s.len() ==> ('a' <= #[trigger] s[i] <= 'z' || 'A' <= s[i] <= 'Z' || '0' <= s[i]
                <= '9' || "!#$%&'*+-.^_`|~"@.contains(s[i])),
        valid_name(s) <==> is_token(s) && s.len() <= 65535,
{
    reveal_strlit("!#$%&'*+-.^_`|~");
    let signs = "!#$%&'*+-.^_`|~"@;
    assert forall|c: char| #[trigger] is_token_char(c) <==> 'a' <= c <= 'z' || 'A' <= c <= 'Z' || '0'
        <= c <= '9' || signs.contains(c) by {
        assert(signs[0] == '!' && signs[1] == '#' && signs[2] == '$' && signs[3] == '%' && signs[4]
            == '&' && signs[5] == '\'' && signs[6] == '*' && signs[7] == '+' && signs[8] == '-'
            && signs[9] == '.' && signs[10] == '^' && signs[11] == '_' && signs[12] == '`'
            && signs[13] == '|' && signs[14] == '~');
        assert(signs.len() == 15);
        if signs.contains(c) {
            let i = choose|i: int| 0 <= i < signs.len() && signs[i] == c;
            assert(0 <= i < 15);
        }
    }
    if is_token(s) {
        assert forall|i: int| 0 <= i < s.len() implies ('a' <= #[trigger] s[i] <= 'z' || 'A' <= s[i]
            <= 'Z' || '0' <= s[i] <= '9' || signs.contains(s[i])) by {
            assert(is_token_char(s[i]));
        }
    }
}

/// There is room for up to 6553 names.
pub proof fn law_room_for_names(headers: HeaderView)
    ensures
        roomy(headers) <==> headers.dom().finite() && headers.dom().len() <= 6553,
{
}

/// Names are compared without regard to the case of their letters, and to nothing else: capital letters
/// become small ones, and all other characters stay.
pub proof fn law_letters_in_lower_case(c: char)
    ensures
        'A' <= c <= 'Z' ==> lower(c) as int == c as int + 32,
        !('A' <= c <= 'Z') ==> lower(c) == c,
{
}

/// A stored header set can be sent where it has up to 6553 names, each a valid name with values of valid
/// bytes.
pub proof fn law_what_headers_can_be_sent(stored: TextLists)
    requires
        stored.dom().finite(),
        stored.dom().len() <= 6553,
        forall|k: Seq<char>| #[trigger]
            stored.contains_key(k) ==> is_token(k) && k.len() <= 65535 && forall|i: int, j: int|
                0 <= i < stored[k].len() && 0 <= j < encode_utf8(stored[k][i]).len()
                    ==> is_value_byte(#[trigger] encode_utf8(stored[k][i])[j]),
    ensures
        sendable(stored),
{
    assert forall|k: Seq<char>| #[trigger] stored.contains_key(k) implies sendable_entry(
        k,
        stored[k],
    ) by {
        assert forall|i: int| 0 <= i < stored[k].len() implies valid_value(
            encode_utf8(#[trigger] stored[k][i]),
        ) by {
            assert forall|j: int| 0 <= j < encode_utf8(stored[k][i]).len() implies is_value_byte(
                #[trigger] encode_utf8(stored[k][i])[j],
            ) by {}
        }
    }
}

} // verus!
