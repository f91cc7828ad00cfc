//! The answer that an exchange comes to.
use vstd::prelude::*;
use super::Reply;
use crate::headers::{can_send, conver_hashmap_to_header_map, header_new};
use crate::types::{Content, Response, Source};

verus! {

/// Whether an answer can be sent.
pub open spec fn answerable(reply: super::ReplyView) -> bool {
    match reply {
        super::ReplyView::Stored { headers, .. } => crate::headers::sendable(headers),
        _ => true,
    }
}

/// Whether `response` is the answer that was found.
pub open spec fn answered(reply: super::ReplyView, response: Response) -> bool {
    let sent = crate::headers::header_contents(response.headers);
    match reply {
        super::ReplyView::Stored { status, headers, content } => {
            &&& response.status_code == status
            &&& crate::headers::headers_sent(headers, sent)
            &&& response.content@ == content
        },
        super::ReplyView::PassThrough { status, headers } => {
            &&& response.status_code == status
            &&& sent == headers
            &&& response.content@ == crate::types::ContentView::Upstream
        },
        super::ReplyView::NotModified => {
            &&& response.status_code == 304
            &&& sent == crate::headers::HeaderView::empty()
            &&& response.content@ == crate::types::ContentView::Empty
        },
    }
}

impl Reply {
    /// Whether the answer can be sent.
    pub fn can_answer(&self) -> (yes: bool)
        ensures
            yes == answerable(self@),
    {
        match self {
            Reply::Stored { headers, .. } => can_send(headers),
            _ => true,
        }
    }

    /// The answer as it is sent.
    pub fn into_response(self) -> (response: Response)
        requires
            answerable(self@),
        ensures
            answered(self@, response),
    {
        match self {
            Reply::Stored { status, headers, content } => Response {
                status_code: status,
                headers: conver_hashmap_to_header_map(headers),
                content,
            },
            Reply::PassThrough { status, headers } => Response {
                status_code: status,
                headers,
                content: Content::Stream(Source::Upstream),
            },
            Reply::NotModified => Response {
                status_code: 304,
                headers: header_new(),
                content: Content::Stream(Source::Empty),
            },
        }
    }
}

/// What an exchange comes to is what is sent: a stored object with its status and its body, the origin's
/// answer with its status, its headers and its body, and to those who have the current version that they
/// have it, with nothing else.
pub proof fn law_found_answer_is_sent(
    status: u16,
    stored: crate::headers::TextLists,
    content: crate::types::ContentView,
    headers: crate::headers::HeaderView,
    response: Response,
)
    ensures
        answered(super::ReplyView::Stored { status, headers: stored, content }, response)
            ==> response.status_code == status && response.content@ == content
            && crate::headers::headers_sent(
            stored,
            crate::headers::header_contents(response.headers),
        ),
        answered(super::ReplyView::PassThrough { status, headers }, response)
            ==> response.status_code == status && crate::headers::header_contents(response.headers)
            == headers && response.content@ is Upstream,
        answered(super::ReplyView::NotModified, response) ==> response.status_code == 304
            && response.content@ is Empty && crate::headers::header_contents(response.headers)
            == crate::headers::HeaderView::empty(),
{
}

/// Every answer of the origin can be sent, and one from the cache can where its headers can.
pub proof fn law_what_can_be_sent(
    status: u16,
    stored: crate::headers::TextLists,
    content: crate::types::ContentView,
    headers: crate::headers::HeaderView,
)
    ensures
        answerable(super::ReplyView::NotModified),
        answerable(super::ReplyView::PassThrough { status, headers }),
        answerable(super::ReplyView::Stored { status, headers: stored, content })
            <==> crate::headers::sendable(stored),
{
}

} // verus!
