//! Which rule a request falls under, and which status an outcome is answered with.
use vstd::prelude::*;
use vstd::string::*;
use http::HeaderMap;
use http::HeaderValue;
use crate::error::{ErrorKind, ErrorView};
use crate::exchange::Reply;
use crate::forward::origin_error;
use crate::headers::{HeaderView, header_append, header_new};
use crate::text::same_text;
use crate::types::{Content, ContentView, Request, Response, Source, text_header};
use crate::types::acl::{Acl, Cache, Proxy};

verus! {

/// The servers that requests come in through.
#[derive(Clone, Copy, PartialEq, Eq, Structural, Debug)]
pub enum Frontend {
    /// The actix server.
    Actix,
    /// The hyper server.
    Hyper,
    /// The project's own HTTP layer.
    CacheMe,
}

/// How requests that a rule covers are served.
#[derive(Clone, Copy, PartialEq, Eq, Structural, Debug)]
pub enum Service {
    /// They are handed on.
    Proxy,
    /// They are answered from the cache.
    Cache,
}

/// What says how requests are served.
pub trait RequestHandler: Sized {
    /// How requests are served.
    spec fn service(self) -> Service;

    /// How requests are served.
    fn handle(self) -> (service: Service)
        ensures
            service == self.service(),
    ;
}

impl RequestHandler for Acl {
    open spec fn service(self) -> Service {
        service_of(self)
    }

    fn handle(self) -> (service: Service) {
        match self {
            Acl::Proxy(proxy) => proxy.handle(),
            Acl::Cache(cache) => cache.handle(),
        }
    }
}

impl RequestHandler for Cache {
    open spec fn service(self) -> Service {
        Service::Cache
    }

    fn handle(self) -> (service: Service) {
        Service::Cache
    }
}

impl RequestHandler for Proxy {
    open spec fn service(self) -> Service {
        Service::Proxy
    }

    fn handle(self) -> (service: Service) {
        Service::Proxy
    }
}

/// How the requests that a rule covers are served.
pub open spec fn service_of(acl: Acl) -> Service {
    match acl {
        Acl::Proxy(_) => Service::Proxy,
        Acl::Cache(_) => Service::Cache,
    }
}

/// Whether a pattern matches a path; nothing where it is no pattern.
pub uninterp spec fn pattern_matches(pattern: Seq<char>, path: Seq<char>) -> Option<bool>;

/// `regex::Regex::new` and `regex::Regex::is_match`: whether a regular expression matches anywhere
/// in a path; nothing where it is none.
#[verifier::external_body]
fn matches_path(pattern: &str, path: &str) -> (verdict: Option<bool>)
    ensures
        verdict == pattern_matches(pattern@, path@),
{
    regex::Regex::new(pattern).ok().map(|regex| regex.is_match(path))
}

/// Which of several rules a request falls under.
#[derive(Clone, Copy, PartialEq, Eq, Structural, Debug)]
pub enum Choice {
    /// None.
    Nothing,
    /// It cannot be said: the pattern of this rule, which would have to be looked at, is none.
    BadPattern(usize),
    /// This one.
    Rule(usize),
}

/// What one rule says of a request, given whether it allows the request's method and what its pattern
/// says of the path: the request falls under it, it cannot be said, or neither.
pub open spec fn decision(rule: usize, allowed: bool, verdict: Option<bool>) -> Option<Choice> {
    if !allowed {
        None
    } else {
        match verdict {
            None => Some(Choice::BadPattern(rule)),
            Some(true) => Some(Choice::Rule(rule)),
            Some(false) => None,
        }
    }
}

/// What a rule that allows a request's method says of it, given what its pattern says of the path.
fn decide(rule: usize, verdict: Option<bool>) -> (choice: Option<Choice>)
    ensures
        choice == decision(rule, true, verdict),
{
    match verdict {
        None => Some(Choice::BadPattern(rule)),
        Some(yes) => if yes {
            Some(Choice::Rule(rule))
        } else {
            None
        },
    }
}

/// Which of the rules from `from` on a request falls under: the first that allows its method and
/// whose pattern matches its path, given what the patterns say.
pub open spec fn choice_from(
    rules: Seq<Acl>,
    method: Seq<char>,
    verdicts: Seq<Option<bool>>,
    from: int,
) -> Choice
    decreases rules.len() - from,
{
    if from < 0 || from >= rules.len() {
        Choice::Nothing
    } else {
        match decision(from as usize, rules[from].allows(method), verdicts[from]) {
            Some(choice) => choice,
            None => choice_from(rules, method, verdicts, from + 1),
        }
    }
}

/// What the patterns of rules say of a path.
pub open spec fn verdicts_of(rules: Seq<Acl>, path: Seq<char>) -> Seq<Option<bool>> {
    Seq::new(rules.len(), |i: int| pattern_matches(rules[i].pattern(), path))
}

/// Which rule a request falls under, given what the patterns say.
pub fn select_rule(rules: &Vec<Acl>, method: &str, verdicts: &Vec<Option<bool>>) -> (choice: Choice)
    requires
        verdicts@.len() == rules@.len(),
    ensures
        choice == choice_from(rules@, method@, verdicts@, 0),
        choice matches Choice::Rule(i) ==> i < rules@.len(),
{
    let mut i: usize = 0;
    while i < rules.len()
        invariant
            i <= rules.len(),
            verdicts@.len() == rules@.len(),
            choice_from(rules@, method@, verdicts@, 0) == choice_from(
                rules@,
                method@,
                verdicts@,
                i as int,
            ),
        decreases rules.len() - i,
    {
        if rules[i].method_match(method) {
            match decide(i, verdicts[i]) {
                Some(choice) => {
                    return choice;
                },
                None => {},
            }
        }
        i += 1;
    }
    Choice::Nothing
}

/// Which rule a request falls under. Patterns are looked at only as far as needed.
pub fn choose_rule(rules: &Vec<Acl>, method: &str, path: &str) -> (choice: Choice)
    ensures
        choice == choice_from(rules@, method@, verdicts_of(rules@, path@), 0),
        choice matches Choice::Rule(i) ==> i < rules@.len(),
{
    let ghost verdicts = verdicts_of(rules@, path@);
    let mut i: usize = 0;
    while i < rules.len()
        invariant
            i <= rules.len(),
            verdicts == verdicts_of(rules@, path@),
            choice_from(rules@, method@, verdicts, 0) == choice_from(
                rules@,
                method@,
                verdicts,
                i as int,
            ),
        decreases rules.len() - i,
    {
        if rules[i].method_match(method) {
            match decide(i, matches_path(rules[i].path_match(), path)) {
                Some(choice) => {
                    return choice;
                },
                None => {},
            }
        }
        i += 1;
    }
    Choice::Nothing
}

/// The host that a request is for. Through hyper, the one in its address comes first.
pub open spec fn host_of(
    frontend: Frontend,
    address_host: Option<Seq<char>>,
    headers: HeaderView,
) -> Option<Seq<char>> {
    if frontend == Frontend::Hyper && address_host is Some {
        address_host
    } else {
        crate::types::header_as_text(headers, "host"@)
    }
}

/// The host that a request is for.
pub fn request_host(
    frontend: Frontend,
    address_host: Option<String>,
    headers: &HeaderMap<HeaderValue>,
) -> (host: Option<String>)
    ensures
        crate::forward::optional_text(host) == host_of(
            frontend,
            crate::forward::optional_text(address_host),
            crate::headers::header_contents(*headers),
        ),
{
    proof {
        crate::types::lemma_known_names();
    }
    if frontend == Frontend::Hyper {
        match address_host {
            Some(host) => {
                return Some(host);
            },
            None => {},
        }
    }
    text_header(headers, "host")
}

/// Why a request goes nowhere.
#[derive(Clone, Copy, PartialEq, Eq, Structural, Debug)]
pub enum Refusal {
    /// It names no host.
    NoHost,
    /// There are no rules for its host.
    UnknownHost,
    /// It falls under none of the rules for its host.
    NoRule,
}

/// Where a request goes.
pub enum Route {
    /// Nowhere.
    Refused { refusal: Refusal },
    /// Nowhere: the rule with this number has a pattern that is none.
    BadPattern { rule: usize },
    /// To this host, served like this.
    Found { host: String, service: Service },
}

/// Where a request goes, by its characters.
pub enum RouteView {
    Refused { refusal: Refusal },
    BadPattern { rule: usize },
    Found { host: Seq<char>, service: Service },
}

impl View for Route {
    type V = RouteView;

    open spec fn view(&self) -> RouteView {
        match self {
            Route::Refused { refusal } => RouteView::Refused { refusal: *refusal },
            Route::BadPattern { rule } => RouteView::BadPattern { rule: *rule },
            Route::Found { host, service } => RouteView::Found { host: host@, service: *service },
        }
    }
}

/// Where a request goes, given the rules for its host and which of them it falls under.
pub open spec fn route_by(host: Seq<char>, rules: Seq<Acl>, choice: Choice) -> RouteView {
    match choice {
        Choice::Nothing => RouteView::Refused { refusal: Refusal::NoRule },
        Choice::BadPattern(rule) => RouteView::BadPattern { rule },
        Choice::Rule(i) => RouteView::Found { host, service: service_of(rules[i as int]) },
    }
}

/// Where a request goes.
pub open spec fn route_of(
    host: Option<Seq<char>>,
    method: Seq<char>,
    path: Seq<char>,
    acl: Map<Seq<char>, Vec<Acl>>,
) -> RouteView {
    match host {
        None => RouteView::Refused { refusal: Refusal::NoHost },
        Some(host) => if acl.contains_key(host) {
            let rules = acl[host]@;
            route_by(host, rules, choice_from(rules, method, verdicts_of(rules, path), 0))
        } else {
            RouteView::Refused { refusal: Refusal::UnknownHost }
        },
    }
}

/// Where a request goes, given which of the rules for its host it falls under.
pub fn route_with(host: String, rules: &Vec<Acl>, choice: Choice) -> (route: Route)
    requires
        choice matches Choice::Rule(i) ==> i < rules@.len(),
    ensures
        route@ == route_by(host@, rules@, choice),
{
    match choice {
        Choice::Nothing => Route::Refused { refusal: Refusal::NoRule },
        Choice::BadPattern(rule) => Route::BadPattern { rule },
        Choice::Rule(i) => {
            let service: Service = match &rules[i] {
                Acl::Proxy(_) => Service::Proxy,
                Acl::Cache(_) => Service::Cache,
            };
            Route::Found { host, service }
        },
    }
}

/// The status that a refusal is answered with.
pub open spec fn refusal_status_of(frontend: Frontend, refusal: Refusal) -> u16 {
    if frontend == Frontend::Hyper && refusal == Refusal::NoHost {
        400
    } else {
        404
    }
}

/// The headers that a refusal is answered with.
pub open spec fn refusal_headers_of(frontend: Frontend, refusal: Refusal) -> HeaderView {
    if frontend == Frontend::Hyper && refusal == Refusal::NoRule {
        crate::headers::with_value(
            crate::headers::with_value(
                HeaderView::empty(),
                "content-length"@,
                vstd::utf8::encode_utf8("0"@),
            ),
            "contention"@,
            vstd::utf8::encode_utf8("close"@),
        )
    } else {
        HeaderView::empty()
    }
}

/// The status that an error is answered with.
pub open spec fn error_status_of(frontend: Frontend, err: ErrorView) -> u16 {
    match err {
        ErrorView::Machine(_) => if frontend == Frontend::Hyper {
            501
        } else {
            500
        },
        ErrorView::Logical(_) => 403,
        ErrorView::Operate(_) => if frontend == Frontend::Hyper {
            500
        } else {
            501
        },
    }
}

/// The status that an error is answered with.
pub fn error_status(frontend: Frontend, err: &ErrorKind) -> (status: u16)
    ensures
        status == error_status_of(frontend, err@),
{
    match err {
        ErrorKind::MachineError(_) => {
            if frontend == Frontend::Hyper {
                501
            } else {
                500
            }
        },
        ErrorKind::LogicalError(_) => 403,
        ErrorKind::OperateError(_) => {
            if frontend == Frontend::Hyper {
                500
            } else {
                501
            }
        },
    }
}

/// The status that an answer is sent with. Through actix a file is sent with a status of its own.
pub open spec fn sent_status_of(frontend: Frontend, status: u16, content: ContentView) -> Option<u16> {
    if frontend == Frontend::Actix && content is Path {
        None
    } else {
        Some(status)
    }
}

/// The status that an answer is sent with.
pub fn sent_status(frontend: Frontend, status: u16, content: &Content) -> (sent: Option<u16>)
    ensures
        sent == sent_status_of(frontend, status, content@),
{
    match content {
        Content::Path(_) => {
            if frontend == Frontend::Actix {
                None
            } else {
                Some(status)
            }
        },
        Content::Stream(_) => Some(status),
    }
}

/// An answer on its way out.
pub struct Outgoing {
    /// The status; none where the body has a status of its own.
    pub status: Option<u16>,
    /// The headers.
    pub headers: HeaderMap<HeaderValue>,
    /// The body.
    pub content: Content,
    /// Whether a failure of the server is counted.
    pub internal: bool,
}

/// An answer on its way out, by its characters.
pub struct OutgoingView {
    pub status: Option<u16>,
    pub headers: HeaderView,
    pub content: ContentView,
    pub internal: bool,
}

impl View for Outgoing {
    type V = OutgoingView;

    open spec fn view(&self) -> OutgoingView {
        OutgoingView {
            status: self.status,
            headers: crate::headers::header_contents(self.headers),
            content: self.content@,
            internal: self.internal,
        }
    }
}

/// The answer to a refused request.
pub open spec fn refused_of(frontend: Frontend, refusal: Refusal) -> OutgoingView {
    OutgoingView {
        status: Some(refusal_status_of(frontend, refusal)),
        headers: refusal_headers_of(frontend, refusal),
        content: ContentView::Empty,
        internal: false,
    }
}

/// The answer to a request that failed. Through hyper, failures that are not the sender's are
/// counted.
pub open spec fn failed_of(frontend: Frontend, err: ErrorView) -> OutgoingView {
    OutgoingView {
        status: Some(error_status_of(frontend, err)),
        headers: HeaderView::empty(),
        content: ContentView::Empty,
        internal: frontend == Frontend::Hyper && !(err is Logical),
    }
}

/// Header names and values of refusals can be sent.
proof fn lemma_refusal_headers()
    ensures
        crate::headers::valid_name("content-length"@),
        crate::headers::valid_name("contention"@),
        crate::headers::lowercase("content-length"@) == "content-length"@,
        crate::headers::lowercase("contention"@) == "contention"@,
        crate::headers::valid_value(vstd::utf8::encode_utf8("0"@)),
        crate::headers::valid_value(vstd::utf8::encode_utf8("close"@)),
{
    reveal_strlit("content-length");
    reveal_strlit("contention");
    reveal_strlit("0");
    reveal_strlit("close");
    assert(crate::headers::lowercase("content-length"@) =~= "content-length"@);
    assert(crate::headers::lowercase("contention"@) =~= "contention"@);
    crate::headers::lemma_printable("0"@);
    crate::headers::lemma_printable("close"@);
}

/// The answer to a refused request.
pub fn refused(frontend: Frontend, refusal: Refusal) -> (out: Outgoing)
    ensures
        out@ == refused_of(frontend, refusal),
{
    let mut headers: HeaderMap<HeaderValue> = header_new();
    if frontend == Frontend::Hyper && refusal == Refusal::NoRule {
        proof {
            lemma_refusal_headers();
        }
        header_append(&mut headers, "content-length", "0");
        header_append(&mut headers, "contention", "close");
    }
    let status: u16 = if frontend == Frontend::Hyper && refusal == Refusal::NoHost {
        400
    } else {
        404
    };
    Outgoing {
        status: Some(status),
        headers,
        content: Content::Stream(Source::Empty),
        internal: false,
    }
}

/// The answer to a request that was served.
pub open spec fn served_of(
    frontend: Frontend,
    status: u16,
    headers: HeaderView,
    content: ContentView,
) -> OutgoingView {
    OutgoingView {
        status: sent_status_of(frontend, status, content),
        headers,
        content,
        internal: false,
    }
}

/// The answer to a request, given what it came to.
pub fn outgoing(frontend: Frontend, result: Result<Response, ErrorKind>) -> (out: Outgoing)
    ensures
        match result {
            Ok(response) => out.status == sent_status_of(
                frontend,
                response.status_code,
                response.content@,
            ) && out.headers == response.headers && out.content == response.content
                && !out.internal,
            Err(err) => out@ == failed_of(frontend, err@),
        },
        result matches Ok(response) ==> out@ == served_of(
            frontend,
            response.status_code,
            crate::headers::header_contents(response.headers),
            response.content@,
        ),
{
    match result {
        Ok(response) => Outgoing {
            status: sent_status(frontend, response.status_code, &response.content),
            headers: response.headers,
            content: response.content,
            internal: false,
        },
        Err(err) => {
            let logical: bool = match err {
                ErrorKind::LogicalError(_) => true,
                _ => false,
            };
            Outgoing {
                status: Some(error_status(frontend, &err)),
                headers: header_new(),
                content: Content::Stream(Source::Empty),
                internal: frontend == Frontend::Hyper && !logical,
            }
        },
    }
}

/// What a request that is handed on comes to, given the origin's answer.
pub open spec fn handed_on(
    req: crate::types::RequestView,
    answer: crate::exchange::AnswerView,
) -> Result<crate::exchange::ReplyView, ErrorView> {
    match answer {
        Ok((status, headers)) => Ok(crate::exchange::ReplyView::PassThrough { status, headers }),
        Err(failure) => Err(crate::forward::origin_failed(req, failure)),
    }
}

/// What a request that is handed on comes to, given the origin's answer.
pub fn hand_on(
    req: &Request,
    answer: Result<(u16, HeaderMap<HeaderValue>), String>,
) -> (result: Result<Reply, ErrorKind>)
    ensures
        handed_on(req@, crate::exchange::answer_view(answer)) == (match result {
            Ok(reply) => Ok(reply@),
            Err(err) => Err(err@),
        }),
{
    match answer {
        Ok((status, headers)) => Ok(Reply::PassThrough { status, headers }),
        Err(failure) => Err(origin_error(req, failure.as_str())),
    }
}

/// An answer about the server itself.
pub struct ControlAnswer {
    /// The status.
    pub status: u16,
    /// Whether the body is metrics text, and is called so.
    pub metrics: bool,
    /// The body.
    pub body: Vec<u8>,
}

/// An answer about the server itself, by its bytes.
pub struct ControlView {
    pub status: u16,
    pub metrics: bool,
    pub body: Seq<u8>,
}

impl View for ControlAnswer {
    type V = ControlView;

    open spec fn view(&self) -> ControlView {
        ControlView { status: self.status, metrics: self.metrics, body: self.body@ }
    }
}

/// The answer to a request about the server itself, given its metrics, where they could be had.
pub open spec fn control_of(path: Seq<char>, metrics: Option<Seq<u8>>) -> ControlView {
    if path != "/metrics"@ {
        ControlView {
            status: 404,
            metrics: false,
            body: vstd::utf8::encode_utf8("Not Found"@),
        }
    } else {
        match metrics {
            Some(body) => ControlView { status: 200, metrics: true, body },
            None => ControlView {
                status: 500,
                metrics: false,
                body: vstd::utf8::encode_utf8("server internal error"@),
            },
        }
    }
}

/// The bytes of a text.
fn bytes_of(text: &str) -> (bytes: Vec<u8>)
    ensures
        bytes@ == vstd::utf8::encode_utf8(text@),
{
    let mut bytes: Vec<u8> = Vec::new();
    bytes.extend_from_slice(text.as_bytes());
    assert(bytes@ =~= vstd::utf8::encode_utf8(text@));
    bytes
}

/// The answer to a request about the server itself that is not for its metrics; nothing where it is.
pub fn refuse_control(path: &str) -> (answer: Option<ControlAnswer>)
    ensures
        match answer {
            Some(a) => path@ != "/metrics"@ && a.status == 404 && !a.metrics && a.body@
                == vstd::utf8::encode_utf8("Not Found"@),
            None => path@ == "/metrics"@,
        },
        answer matches Some(a) ==> forall|metrics: Option<Seq<u8>>|
            a@ == #[trigger] control_of(path@, metrics),
{
    if same_text(path, "/metrics") {
        None
    } else {
        Some(ControlAnswer { status: 404, metrics: false, body: bytes_of("Not Found") })
    }
}

/// The answer to a request for the server's metrics, given their text, where it could be had.
pub fn answer_metrics(text: Option<Vec<u8>>) -> (answer: ControlAnswer)
    ensures
        match text {
            Some(data) => answer.status == 200 && answer.metrics && answer.body@ == data@,
            None => answer.status == 500 && !answer.metrics && answer.body@
                == vstd::utf8::encode_utf8("server internal error"@),
        },
        answer@ == control_of(
            "/metrics"@,
            match text {
                Some(data) => Some(data@),
                None => None,
            },
        ),
{
    match text {
        Some(data) => ControlAnswer { status: 200, metrics: true, body: data },
        None => ControlAnswer {
            status: 500,
            metrics: false,
            body: bytes_of("server internal error"),
        },
    }
}

/// The rule that a request falls under allows its method and matches its path, and none before it
/// does both.
pub proof fn law_first_rule_wins(
    rules: Seq<Acl>,
    method: Seq<char>,
    verdicts: Seq<Option<bool>>,
    from: int,
)
    requires
        verdicts.len() == rules.len() <= usize::MAX,
        0 <= from <= rules.len(),
    ensures
        match choice_from(rules, method, verdicts, from) {
            Choice::Rule(i) => from <= i < rules.len() && rules[i as int].allows(method)
                && verdicts[i as int] == Some(true) && forall|j: int|
                from <= j < i ==> !((#[trigger] rules[j]).allows(method)) || verdicts[j] == Some(
                    false,
                ),
            Choice::BadPattern(i) => from <= i < rules.len() && rules[i as int].allows(method)
                && verdicts[i as int] is None && forall|j: int|
                from <= j < i ==> !((#[trigger] rules[j]).allows(method)) || verdicts[j] == Some(
                    false,
                ),
            Choice::Nothing => forall|j: int|
                from <= j < rules.len() ==> !((#[trigger] rules[j]).allows(method)) || verdicts[j]
                    == Some(false),
        },
    decreases rules.len() - from,
{
    if from < rules.len() {
        law_first_rule_wins(rules, method, verdicts, from + 1);
    }
}

/// Every error is answered, with a status that says so.
pub proof fn law_errors_are_answered(frontend: Frontend, err: ErrorView)
    ensures
        400 <= error_status_of(frontend, err) < 600,
        err is Logical <==> error_status_of(frontend, err) == 403,
        failed_of(frontend, err).internal ==> error_status_of(frontend, err) >= 500,
{
}

/// Every refused request is answered, with a status that says so and nothing else but, at most,
/// headers.
pub proof fn law_refusals_are_answered(frontend: Frontend, refusal: Refusal)
    ensures
        refused_of(frontend, refusal).status == Some(404u16) || refused_of(frontend, refusal).status
            == Some(400u16),
        refused_of(frontend, refusal).content == ContentView::Empty,
        !refused_of(frontend, refusal).internal,
{
}

/// A request is refused exactly where it names no host, or one without rules, or falls under none of
/// the rules for it; where it is not, its host is one that has rules.
pub proof fn law_refused_without_a_rule(
    host: Option<Seq<char>>,
    method: Seq<char>,
    path: Seq<char>,
    acl: Map<Seq<char>, Vec<Acl>>,
)
    ensures
        ({
            let route = route_of(host, method, path, acl);
            &&& host is None ==> route == (RouteView::Refused { refusal: Refusal::NoHost })
            &&& host is Some && !acl.contains_key(host->0) ==> route == (RouteView::Refused {
                refusal: Refusal::UnknownHost,
            })
            &&& route matches RouteView::Found { host: to, .. } ==> host == Some(to)
                && acl.contains_key(to)
        }),
{
}

/// The host of a request is what its `Host` header says; through hyper, the host in the address comes
/// first, and through no other server does it count.
pub proof fn law_host_is_read(
    frontend: Frontend,
    address_host: Option<Seq<char>>,
    headers: HeaderView,
    text: Seq<char>,
)
    requires
        crate::types::has_values(headers),
    ensures
        frontend == Frontend::Hyper && address_host == Some(text) ==> host_of(
            frontend,
            address_host,
            headers,
        ) == Some(text),
        frontend != Frontend::Hyper || address_host is None ==> (host_of(
            frontend,
            address_host,
            headers,
        ) == Some(text) <==> crate::types::says(headers, "host"@, text)),
        (frontend != Frontend::Hyper || address_host is None) && crate::types::says_nothing(
            headers,
            "host"@,
        ) ==> host_of(frontend, address_host, headers) is None,
{
    crate::types::law_header_is_read(headers, "host"@, text);
}

/// Whether a list of methods is not empty and does not hold a method.
pub open spec fn left_out(methods: Option<Vec<String>>, method: Seq<char>) -> bool {
    match methods {
        Some(list) => list@.len() > 0 && forall|i: int|
            0 <= i < list@.len() ==> (#[trigger] list@[i])@ != method,
        None => false,
    }
}

/// Whether a rule is passed over: its list of methods leaves the method out, or its pattern does not
/// match the path.
pub open spec fn passed_over(rule: Acl, method: Seq<char>, path: Seq<char>) -> bool {
    match rule {
        Acl::Proxy(proxy) => left_out(proxy.allow_method, method) || pattern_matches(
            proxy.path_match@,
            path,
        ) == Some(false),
        Acl::Cache(cache) => left_out(cache.allow_method, method) || pattern_matches(
            cache.path_match@,
            path,
        ) == Some(false),
    }
}

/// Whether a rule says that it is for a method: it lists the method, or has no list.
pub open spec fn named(methods: Option<Vec<String>>, method: Seq<char>) -> bool {
    match methods {
        Some(list) => exists|i: int| 0 <= i < list@.len() && (#[trigger] list@[i])@ == method,
        None => true,
    }
}

/// A request goes to the first rule for its host that names its method and whose pattern matches its
/// path: it is handed on where that is a rule for that, and cached where it is one for that. Where the
/// pattern of such a rule is none, or every rule for its host is passed over, it goes nowhere.
pub proof fn law_request_follows_its_rule(
    host: Seq<char>,
    method: Seq<char>,
    path: Seq<char>,
    acl: Map<Seq<char>, Vec<Acl>>,
    i: int,
)
    requires
        acl.contains_key(host),
        0 <= i <= acl[host]@.len() <= usize::MAX,
        forall|j: int| 0 <= j < i ==> passed_over(#[trigger] acl[host]@[j], method, path),
    ensures
        i < acl[host]@.len() ==> (match acl[host]@[i] {
            Acl::Proxy(proxy) => named(proxy.allow_method, method) && pattern_matches(
                proxy.path_match@,
                path,
            ) == Some(true) ==> route_of(Some(host), method, path, acl) == (RouteView::Found {
                host,
                service: Service::Proxy,
            }),
            Acl::Cache(cache) => named(cache.allow_method, method) && pattern_matches(
                cache.path_match@,
                path,
            ) == Some(true) ==> route_of(Some(host), method, path, acl) == (RouteView::Found {
                host,
                service: Service::Cache,
            }),
        }),
        i < acl[host]@.len() ==> (match acl[host]@[i] {
            Acl::Proxy(proxy) => named(proxy.allow_method, method) && pattern_matches(
                proxy.path_match@,
                path,
            ) is None,
            Acl::Cache(cache) => named(cache.allow_method, method) && pattern_matches(
                cache.path_match@,
                path,
            ) is None,
        }) ==> route_of(Some(host), method, path, acl) == (RouteView::BadPattern {
            rule: i as usize,
        }),
        i == acl[host]@.len() ==> route_of(Some(host), method, path, acl) == (RouteView::Refused {
            refusal: Refusal::NoRule,
        }),
{
    let rules = acl[host]@;
    let verdicts = verdicts_of(rules, path);
    assert forall|j: int| 0 <= j < i implies !((#[trigger] rules[j]).allows(method)) || verdicts[j]
        == Some(false) by {
        assert(passed_over(acl[host]@[j], method, path));
        assert(verdicts[j] == pattern_matches(rules[j].pattern(), path));
    }
    law_first_rule_wins(rules, method, verdicts, 0);
    if i < rules.len() {
        assert(verdicts[i] == pattern_matches(rules[i].pattern(), path));
    }
}

/// What a failed request is answered with: refused where it broke a rule, and else as a failure of the
/// server, which is counted through hyper alone. Failures of the machine and of operations are told
/// apart, the other way round through hyper.
pub proof fn law_failures_are_told_apart(frontend: Frontend, message: Seq<char>)
    ensures
        failed_of(frontend, ErrorView::Logical(message)).status == Some(403u16),
        !failed_of(frontend, ErrorView::Logical(message)).internal,
        failed_of(frontend, ErrorView::Machine(message)).status == Some(
            if frontend == Frontend::Hyper {
                501u16
            } else {
                500u16
            },
        ),
        failed_of(frontend, ErrorView::Operate(message)).status == Some(
            if frontend == Frontend::Hyper {
                500u16
            } else {
                501u16
            },
        ),
        failed_of(frontend, ErrorView::Machine(message)).internal <==> frontend == Frontend::Hyper,
        failed_of(frontend, ErrorView::Operate(message)).internal <==> frontend == Frontend::Hyper,
        failed_of(frontend, ErrorView::Machine(message)).content == ContentView::Empty,
        failed_of(frontend, ErrorView::Operate(message)).content == ContentView::Empty,
        failed_of(frontend, ErrorView::Logical(message)).content == ContentView::Empty,
        failed_of(frontend, ErrorView::Machine(message)).headers == HeaderView::empty(),
        failed_of(frontend, ErrorView::Operate(message)).headers == HeaderView::empty(),
        failed_of(frontend, ErrorView::Logical(message)).headers == HeaderView::empty(),
{
}

/// A refused request is answered as not found, but through hyper as bad where it names no host; through
/// hyper, one that falls under no rule is also told that there is no body and that the connection ends.
pub proof fn law_refusals_are_told_apart(frontend: Frontend)
    ensures
        refused_of(frontend, Refusal::NoHost).status == Some(
            if frontend == Frontend::Hyper {
                400u16
            } else {
                404u16
            },
        ),
        refused_of(frontend, Refusal::UnknownHost).status == Some(404u16),
        refused_of(frontend, Refusal::NoRule).status == Some(404u16),
        refused_of(frontend, Refusal::NoHost).headers == HeaderView::empty(),
        refused_of(frontend, Refusal::UnknownHost).headers == HeaderView::empty(),
        frontend != Frontend::Hyper ==> refused_of(frontend, Refusal::NoRule).headers
            == HeaderView::empty(),
        frontend == Frontend::Hyper ==> refused_of(frontend, Refusal::NoRule).headers
            == HeaderView::empty().insert(
            "content-length"@,
            seq![vstd::utf8::encode_utf8("0"@)],
        ).insert("contention"@, seq![vstd::utf8::encode_utf8("close"@)]),
{
    reveal_strlit("content-length");
    reveal_strlit("contention");
    assert("content-length"@.len() == 14 && "contention"@.len() == 10);
    let zero = vstd::utf8::encode_utf8("0"@);
    let close = vstd::utf8::encode_utf8("close"@);
    assert(Seq::<Seq<u8>>::empty().push(zero) =~= seq![zero]);
    assert(Seq::<Seq<u8>>::empty().push(close) =~= seq![close]);
}

/// The status that was found is the status that is sent, whatever it is, but for files through actix.
pub proof fn law_found_status_is_sent(frontend: Frontend, status: u16, content: ContentView)
    ensures
        !(content is Path) ==> sent_status_of(frontend, status, content) == Some(status),
        frontend != Frontend::Actix ==> sent_status_of(frontend, status, content) == Some(status),
        frontend == Frontend::Actix && content is Path ==> sent_status_of(
            frontend,
            status,
            content,
        ) is None,
{
}

/// The origin's answer to a request that is handed on is the answer to it, with its status and its
/// headers; an origin that could not be asked is a failed operation.
pub proof fn law_answers_are_handed_on(
    req: crate::types::RequestView,
    status: u16,
    headers: HeaderView,
    failure: Seq<char>,
)
    ensures
        handed_on(req, Ok((status, headers))) == Ok::<crate::exchange::ReplyView, ErrorView>(
            crate::exchange::ReplyView::PassThrough { status, headers },
        ),
        handed_on(req, Err(failure)) matches Err(ErrorView::Operate(_)),
{
}

/// What was found for a request is what is sent: its headers and its body as they are, and its status,
/// but for files through actix; it is no failure of the server.
pub proof fn law_found_answer_goes_out(
    frontend: Frontend,
    status: u16,
    headers: HeaderView,
    content: ContentView,
)
    ensures
        served_of(frontend, status, headers, content).headers == headers,
        served_of(frontend, status, headers, content).content == content,
        !served_of(frontend, status, headers, content).internal,
        frontend != Frontend::Actix || !(content is Path) ==> served_of(
            frontend,
            status,
            headers,
            content,
        ).status == Some(status),
{
}

/// The metrics are given as they are at their own path, and nowhere else; where they cannot be had, the
/// answer says that the server failed, and elsewhere that there is nothing.
pub proof fn law_metrics_at_their_path(path: Seq<char>, body: Seq<u8>)
    ensures
        control_of("/metrics"@, Some(body)) == (ControlView { status: 200, metrics: true, body }),
        control_of("/metrics"@, None).status == 500,
        !control_of("/metrics"@, None).metrics,
        path != "/metrics"@ ==> control_of(path, Some(body)).status == 404 && !control_of(
            path,
            Some(body),
        ).metrics && control_of(path, Some(body)) == control_of(path, None),
{
}

} // verus!
