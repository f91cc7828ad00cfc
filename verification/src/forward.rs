//! Requests to the origin.
use vstd::prelude::*;
use vstd::string::*;
use http::HeaderMap;
use http::HeaderValue;
use std::str::FromStr;
use crate::error::{ErrorKind, ErrorView};
use crate::headers::{
    HeaderView, MAX_NAMES, header_insert, header_iter, header_names, header_new, name_ok, value_ok,
};
use crate::text::same_text;
use crate::types::{Request, RequestView};

verus! {

/// A request to the origin.
pub struct UpstreamRequest {
    /// The method.
    pub method: String,
    /// The address.
    pub url: String,
    /// The headers.
    pub headers: HeaderMap<HeaderValue>,
}

/// A request to the origin, by its characters.
pub struct UpstreamView {
    pub method: Seq<char>,
    pub url: Seq<char>,
    pub headers: HeaderView,
}

impl View for UpstreamRequest {
    type V = UpstreamView;

    open spec fn view(&self) -> UpstreamView {
        UpstreamView {
            method: self.method@,
            url: self.url@,
            headers: crate::headers::header_contents(self.headers),
        }
    }
}

/// Why text is no address; nothing where it is one.
pub uninterp spec fn url_error(url: Seq<char>) -> Option<Seq<char>>;

/// An optional text, by its characters.
pub open spec fn optional_text(text: Option<String>) -> Option<Seq<char>> {
    match text {
        Some(t) => Some(t@),
        None => None,
    }
}

/// `reqwest::Url::parse`: what it says against an address, nothing where it takes it.
#[verifier::external_body]
fn url_refusal(url: &str) -> (refusal: Option<String>)
    ensures
        optional_text(refusal) == url_error(url@),
{
    reqwest::Url::parse(url).err().map(|err| err.to_string())
}

/// `http::Method::from_str`: what it says against a method, nothing where it takes it. It takes
/// exactly the tokens, and says the same against all others.
#[verifier::external_body]
fn method_refusal(method: &str) -> (refusal: Option<String>)
    ensures
        refusal is None <==> crate::headers::is_token(method@),
        refusal is Some ==> refusal->0@ == "invalid HTTP method"@,
{
    http::Method::from_str(method).err().map(|err| err.to_string())
}

/// The address at the origin.
pub open spec fn origin_url(req: RequestView) -> Seq<char> {
    "http://"@ + req.host + req.url_path
}

/// The address at the origin.
pub fn url_at_origin(req: &Request) -> (url: String)
    ensures
        url@ == origin_url(req@),
{
    let mut url: String = "http://".to_owned();
    url.append(req.host.as_str());
    url.append(req.url_path.as_str());
    url
}

/// The headers that are handed on: all but the range, of each name the last value.
pub open spec fn forwarded(headers: HeaderView) -> HeaderView {
    Map::new(
        |k: Seq<char>| headers.contains_key(k) && k != "range"@,
        |k: Seq<char>| seq![headers[k].last()],
    )
}

/// The refusal of an address.
pub open spec fn bad_address(refusal: Seq<char>) -> ErrorView {
    ErrorView::Logical("build logical error "@ + refusal)
}

/// The refusal of a method.
pub open spec fn bad_method(method: Seq<char>) -> ErrorView {
    ErrorView::Logical("build method "@ + method + " error "@ + "invalid HTTP method"@)
}

/// The request that asks the origin for an object's headers, given what is said against its
/// address.
pub open spec fn head_request_with(req: RequestView, refusal: Option<Seq<char>>) -> Result<
    UpstreamView,
    ErrorView,
> {
    match refusal {
        Some(err) => Err(bad_address(err)),
        None => Ok(
            UpstreamView {
                method: "HEAD"@,
                url: origin_url(req),
                headers: forwarded(req.headers),
            },
        ),
    }
}

/// The request that asks the origin for an object's headers.
pub open spec fn head_request_of(req: RequestView) -> Result<UpstreamView, ErrorView> {
    head_request_with(req, url_error(origin_url(req)))
}

/// The request that asks the origin for an object, given what is said against its address.
pub open spec fn sub_request_with(req: RequestView, refusal: Option<Seq<char>>) -> Result<
    UpstreamView,
    ErrorView,
> {
    if !crate::headers::is_token(req.method) {
        Err(bad_method(req.method))
    } else {
        match refusal {
            Some(err) => Err(bad_address(err)),
            None => Ok(
                UpstreamView {
                    method: req.method,
                    url: origin_url(req),
                    headers: forwarded(req.headers),
                },
            ),
        }
    }
}

/// The request that asks the origin for an object.
pub open spec fn sub_request_of(req: RequestView) -> Result<UpstreamView, ErrorView> {
    sub_request_with(req, url_error(origin_url(req)))
}

/// An outcome, by its characters.
pub open spec fn request_outcome(built: Result<UpstreamRequest, ErrorKind>) -> Result<
    UpstreamView,
    ErrorView,
> {
    match built {
        Ok(request) => Ok(request@),
        Err(err) => Err(err@),
    }
}

/// Handing a header on, where the headers before it are.
proof fn lemma_forwarded_step(list: Seq<(Seq<char>, Seq<u8>)>)
    requires
        list.len() > 0,
    ensures
        forwarded(crate::headers::grouped(list)) == (if list.last().0 == "range"@ {
            forwarded(crate::headers::grouped(list.drop_last()))
        } else {
            forwarded(crate::headers::grouped(list.drop_last())).insert(
                list.last().0,
                seq![list.last().1],
            )
        }),
{
    let before = crate::headers::grouped(list.drop_last());
    let name = list.last().0;
    let after = crate::headers::grouped(list);
    assert(after == crate::headers::with_value(before, name, list.last().1));
    assert(after[name].last() == list.last().1);
    if name == "range"@ {
        assert(forwarded(after) =~= forwarded(before));
    } else {
        assert(forwarded(after) =~= forwarded(before).insert(name, seq![list.last().1]));
    }
}

/// A header list's names are among those that come of the whole of it.
proof fn lemma_grouped_prefix(list: Seq<(Seq<char>, Seq<u8>)>, n: int)
    requires
        0 <= n <= list.len(),
    ensures
        crate::headers::grouped(list.take(n)).dom().subset_of(crate::headers::grouped(list).dom()),
    decreases list.len() - n,
{
    if n < list.len() {
        lemma_grouped_prefix(list, n + 1);
        assert(list.take(n + 1).drop_last() =~= list.take(n));
        assert(crate::headers::grouped(list.take(n)).dom().subset_of(
            crate::headers::grouped(list.take(n + 1)).dom(),
        ));
    } else {
        assert(list.take(n) =~= list);
    }
}

/// Whether headers can be handed on: there is room for them, and all names and values but those of
/// the range are valid.
pub open spec fn forwardable(headers: HeaderView) -> bool {
    &&& crate::headers::roomy(headers)
    &&& forall|k: Seq<char>| #[trigger]
        headers.contains_key(k) && k != "range"@ ==> crate::headers::valid_name(k) && forall|i: int|
            0 <= i < headers[k].len() ==> crate::headers::valid_value(#[trigger] headers[k][i])
}

/// Whether headers can be handed on.
pub fn can_forward(headers: &HeaderMap<HeaderValue>) -> (yes: bool)
    ensures
        yes == forwardable(crate::headers::header_contents(*headers)),
{
    if header_names(headers) > MAX_NAMES {
        return false;
    }
    let list: Vec<(String, Vec<u8>)> = header_iter(headers);
    let ghost all = crate::headers::named_bytes(list@);
    let ghost whole = crate::headers::header_contents(*headers);
    proof {
        crate::headers::lemma_grouped_values(all);
    }
    let mut i: usize = 0;
    while i < list.len()
        invariant
            i <= list.len(),
            all == crate::headers::named_bytes(list@),
            whole == crate::headers::grouped(all),
            whole == crate::headers::header_contents(*headers),
            forall|j: int|
                0 <= j < all.len() ==> whole.contains_key((#[trigger] all[j]).0)
                    && whole[all[j].0].contains(all[j].1),
            forall|j: int|
                0 <= j < i && (#[trigger] all[j]).0 != "range"@ ==> crate::headers::valid_name(
                    all[j].0,
                ) && crate::headers::valid_value(all[j].1),
        decreases list.len() - i,
    {
        assert(all[i as int] == (list@[i as int].0@, list@[i as int].1@));
        if !same_text(list[i].0.as_str(), "range") {
            if !name_ok(list[i].0.as_str()) || !value_ok(list[i].1.as_slice()) {
                proof {
                    let k = all[i as int].0;
                    assert(whole.contains_key(k));
                    let p = choose|p: int| 0 <= p < whole[k].len() && whole[k][p] == all[i as int].1;
                    assert(whole[k][p] == all[i as int].1);
                }
                return false;
            }
        }
        i += 1;
    }
    proof {
        assert forall|k: Seq<char>| #[trigger]
            whole.contains_key(k) && k != "range"@ implies crate::headers::valid_name(k)
            && forall|p: int|
            0 <= p < whole[k].len() ==> crate::headers::valid_value(#[trigger] whole[k][p]) by {
            crate::headers::lemma_grouped_names(all);
            let q = choose|q: int| 0 <= q < all.len() && (#[trigger] all[q]).0 == k;
            assert(crate::headers::valid_name(all[q].0));
            assert forall|p: int| 0 <= p < whole[k].len() implies crate::headers::valid_value(
                #[trigger] whole[k][p],
            ) by {
                assert(all.contains((k, whole[k][p])));
                let r = choose|r: int| 0 <= r < all.len() && all[r] == (k, whole[k][p]);
                assert(all[r].0 == k);
            }
        }
    }
    true
}

/// The headers that are handed on.
pub fn forward_headers(headers: &HeaderMap<HeaderValue>) -> (out: HeaderMap<HeaderValue>)
    requires
        forwardable(crate::headers::header_contents(*headers)),
    ensures
        crate::headers::header_contents(out) == forwarded(crate::headers::header_contents(*headers)),
{
    let list: Vec<(String, Vec<u8>)> = header_iter(headers);
    let ghost all = crate::headers::named_bytes(list@);
    let ghost whole = crate::headers::grouped(all);
    let mut out: HeaderMap<HeaderValue> = header_new();
    let mut i: usize = 0;
    proof {
        crate::headers::lemma_grouped_values(all);
        assert(all.take(0) =~= Seq::<(Seq<char>, Seq<u8>)>::empty());
        assert(crate::headers::header_contents(out) =~= forwarded(
            crate::headers::grouped(all.take(0)),
        ));
    }
    while i < list.len()
        invariant
            i <= list.len(),
            all == crate::headers::named_bytes(list@),
            whole == crate::headers::grouped(all),
            forwardable(whole),
            crate::headers::header_contents(out) == forwarded(
                crate::headers::grouped(all.take(i as int)),
            ),
            forall|j: int|
                0 <= j < list@.len() ==> crate::headers::held_name((#[trigger] list@[j]).0@),
            forall|j: int|
                0 <= j < all.len() ==> whole.contains_key((#[trigger] all[j]).0)
                    && whole[all[j].0].contains(all[j].1),
        decreases list.len() - i,
    {
        let ghost here = (list@[i as int].0@, list@[i as int].1@);
        proof {
            let seen = all.take(i + 1);
            assert(seen.drop_last() =~= all.take(i as int));
            assert(seen.last() == here);
            assert(all[i as int] == here);
            lemma_forwarded_step(seen);
            lemma_grouped_prefix(all, i as int);
            let names = crate::headers::header_contents(out).dom();
            assert(names.subset_of(whole.dom()));
            vstd::set_lib::lemma_len_subset(names, whole.dom());
            crate::headers::lemma_held_lower(here.0);
            let p = choose|p: int| 0 <= p < whole[here.0].len() && whole[here.0][p] == here.1;
            assert(here.0 != "range"@ ==> crate::headers::valid_value(whole[here.0][p]));
        }
        if !same_text(list[i].0.as_str(), "range") {
            header_insert(&mut out, list[i].0.as_str(), list[i].1.as_slice());
        }
        i += 1;
    }
    assert(all.take(all.len() as int) =~= all);
    out
}

/// The error for an address that is refused.
fn address_error(refusal: &str) -> (err: ErrorKind)
    ensures
        err@ == bad_address(refusal@),
{
    let mut m: String = "build logical error ".to_owned();
    m.append(refusal);
    ErrorKind::LogicalError(m)
}

/// Builds the request for an object's headers, given what is said against its address.
pub fn build_head_request(req: &Request, refusal: Option<String>) -> (built: Result<
    UpstreamRequest,
    ErrorKind,
>)
    requires
        req@.well_formed(),
    ensures
        request_outcome(built) == head_request_with(req@, optional_text(refusal)),
{
    match refusal {
        Some(err) => Err(address_error(err.as_str())),
        None => Ok(
            UpstreamRequest {
                method: "HEAD".to_owned(),
                url: url_at_origin(req),
                headers: forward_headers(&req.headers),
            },
        ),
    }
}

/// Builds the request for an object, given what is said against its address.
pub fn build_sub_request(req: &Request, refusal: Option<String>) -> (built: Result<
    UpstreamRequest,
    ErrorKind,
>)
    requires
        req@.well_formed(),
    ensures
        request_outcome(built) == sub_request_with(req@, optional_text(refusal)),
{
    match method_refusal(req.method.as_str()) {
        Some(err) => {
            let mut m: String = "build method ".to_owned();
            m.append(req.method.as_str());
            m.append(" error ");
            m.append(err.as_str());
            Err(ErrorKind::LogicalError(m))
        },
        None => match refusal {
            Some(err) => Err(address_error(err.as_str())),
            None => Ok(
                UpstreamRequest {
                    method: req.method.clone(),
                    url: url_at_origin(req),
                    headers: forward_headers(&req.headers),
                },
            ),
        },
    }
}

/// The request that asks the origin for an object's headers.
pub fn head_request(req: &Request) -> (built: Result<UpstreamRequest, ErrorKind>)
    requires
        req@.well_formed(),
    ensures
        request_outcome(built) == head_request_of(req@),
{
    let url: String = url_at_origin(req);
    build_head_request(req, url_refusal(url.as_str()))
}

/// The request that asks the origin for an object.
pub fn sub_request(req: &Request) -> (built: Result<UpstreamRequest, ErrorKind>)
    requires
        req@.well_formed(),
    ensures
        request_outcome(built) == sub_request_of(req@),
{
    let url: String = url_at_origin(req);
    build_sub_request(req, url_refusal(url.as_str()))
}

/// The error for an origin that could not be asked.
pub open spec fn origin_failed(req: RequestView, failure: Seq<char>) -> ErrorView {
    ErrorView::Operate("upstream "@ + origin_url(req) + " failed "@ + failure)
}

/// The error for an origin that could not be asked.
pub fn origin_error(req: &Request, failure: &str) -> (err: ErrorKind)
    ensures
        err@ == origin_failed(req@, failure@),
{
    let mut m: String = "upstream ".to_owned();
    m.append(url_at_origin(req).as_str());
    m.append(" failed ");
    m.append(failure);
    ErrorKind::OperateError(m)
}

/// The origin is always asked for the whole object: no range is handed on, and every other header
/// is, with one value.
pub proof fn law_range_not_forwarded(headers: HeaderView, name: Seq<char>)
    ensures
        !forwarded(headers).contains_key("range"@),
        name != "range"@ ==> forwarded(headers).contains_key(name) == headers.contains_key(name),
        forwarded(headers).contains_key(name) ==> forwarded(headers)[name].len() == 1,
{
}

/// Handing headers on twice is the same as handing them on once.
pub proof fn law_forwarding_is_idempotent(headers: HeaderView)
    ensures
        forwarded(forwarded(headers)) == forwarded(headers),
{
    assert forall|k: Seq<char>| #[trigger] forwarded(headers).contains_key(k) implies forwarded(
        forwarded(headers),
    )[k] == forwarded(headers)[k] by {
        assert(forwarded(headers)[k] =~= seq![forwarded(headers)[k].last()]);
    }
    assert(forwarded(forwarded(headers)) =~= forwarded(headers));
}

/// The address at the origin is the path, all of it, on the host, all of it.
pub proof fn law_origin_is_asked_for_the_path(req: RequestView, other: RequestView)
    ensures
        origin_url(req).len() == 7 + req.host.len() + req.url_path.len(),
        origin_url(req).take(7) == "http://"@,
        origin_url(req).subrange(7, 7 + req.host.len() as int) == req.host,
        origin_url(req).skip(7 + req.host.len() as int) == req.url_path,
        other.host == req.host && origin_url(other) == origin_url(req) ==> other.url_path
            == req.url_path,
{
    reveal_strlit("http://");
    assert(origin_url(req).take(7) =~= "http://"@);
    assert(origin_url(req).subrange(7, 7 + req.host.len() as int) =~= req.host);
    assert(origin_url(req).skip(7 + req.host.len() as int) =~= req.url_path);
    assert(origin_url(other).skip(7 + other.host.len() as int) =~= other.url_path);
}

/// One more value of a header takes the place of those before it in what is handed on; one more range
/// makes no difference.
pub proof fn law_last_value_is_handed_on(headers: HeaderView, name: Seq<char>, value: Seq<u8>)
    ensures
        name != "range"@ ==> forwarded(crate::headers::with_value(headers, name, value)) == forwarded(
            headers,
        ).insert(name, seq![value]),
        forwarded(crate::headers::with_value(headers, "range"@, value)) == forwarded(headers),
        forwarded(HeaderView::empty()) == HeaderView::empty(),
{
    let after = crate::headers::with_value(headers, name, value);
    assert(after[name].last() == value);
    if name != "range"@ {
        assert(forwarded(after) =~= forwarded(headers).insert(name, seq![value]));
    }
    assert(forwarded(crate::headers::with_value(headers, "range"@, value)) =~= forwarded(headers));
    assert(forwarded(HeaderView::empty()) =~= HeaderView::empty());
}

/// A header with one value is handed on as it is.
pub proof fn law_single_values_are_handed_on(headers: HeaderView, name: Seq<char>)
    requires
        headers.contains_key(name),
        headers[name].len() == 1,
        name != "range"@,
    ensures
        forwarded(headers).contains_key(name),
        forwarded(headers)[name] == headers[name],
{
    assert(forwarded(headers)[name] =~= headers[name]);
}

/// The origin is asked for an object with the sender's method, and for its headers with `HEAD`; both go
/// to the same address with the same headers. Neither is asked where the address is none, nor is the
/// object where the method is none.
pub proof fn law_origin_is_asked_alike(req: RequestView)
    ensures
        match url_error("http://"@ + req.host + req.url_path) {
            None => {
                &&& head_request_of(req) matches Ok(head) && head.method == "HEAD"@ && head.url
                    == "http://"@ + req.host + req.url_path && head.headers == forwarded(req.headers)
                &&& crate::headers::is_token(req.method) ==> (sub_request_of(req) matches Ok(get)
                    && get.method == req.method && get.url == "http://"@ + req.host + req.url_path
                    && get.headers == forwarded(req.headers))
            },
            Some(why) => {
                let refused = ErrorView::Logical("build logical error "@ + why);
                &&& head_request_of(req) == Err::<UpstreamView, ErrorView>(refused)
                &&& crate::headers::is_token(req.method) ==> sub_request_of(req) == Err::<
                    UpstreamView,
                    ErrorView,
                >(refused)
            },
        },
        !crate::headers::is_token(req.method) ==> sub_request_of(req) == Err::<
            UpstreamView,
            ErrorView,
        >(
            ErrorView::Logical(
                "build method "@ + req.method + " error "@ + "invalid HTTP method"@,
            ),
        ),
{
}

/// Headers that were received can be handed on.
pub proof fn law_received_can_be_handed_on(headers: HeaderView)
    requires
        crate::headers::received(headers),
    ensures
        forwardable(headers),
{
}

/// An origin that could not be asked is an operation that failed, and the message says which address and
/// why.
pub proof fn law_origin_failure_is_told(req: RequestView, failure: Seq<char>)
    ensures
        origin_failed(req, failure) == ErrorView::Operate(
            "upstream "@ + ("http://"@ + req.host + req.url_path) + " failed "@ + failure,
        ),
{
}

} // verus!
