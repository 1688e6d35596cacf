//! One pending request, and the response that answers it.

use crate::trans_content::{
    done_state, file_content_type, string_content_type, EntryView, FileEntryView, HeadView,
    PayloadView, ReqContent, ResContentType, ResFileContent, ResStringContent, ResponseView,
    TransHead, TransUnitType,
};
use vstd::prelude::*;

verus! {

/// The head of the response to a request with head `head`: the identifier and
/// the creation time are those of the request, the state is `"Done"`.
pub open spec fn response_head(head: HeadView, content_type: Seq<char>) -> HeadView {
    HeadView {
        id: head.id,
        content_type: Some(content_type),
        state: done_state(),
        timestamp: head.timestamp,
    }
}

/// The response that answers `request` with the handler's `result`.
pub open spec fn response_to(request: EntryView, result: PayloadView) -> ResponseView {
    match result {
        PayloadView::String(text) => ResponseView::String(
            EntryView { head: response_head(request.head, string_content_type()), body: text },
        ),
        PayloadView::File(bytes) => ResponseView::File(
            FileEntryView { head: response_head(request.head, file_content_type()), body: bytes },
        ),
    }
}

/// The head of a response, of either kind.
pub open spec fn head_of(response: ResponseView) -> HeadView {
    match response {
        ResponseView::String(entry) => entry.head,
        ResponseView::File(entry) => entry.head,
    }
}

/// A response is correlated with its request: whatever the handler returned,
/// it carries the request's identifier and creation time, and its state is
/// `"Done"`.
pub proof fn lemma_response_correlates(request: EntryView, result: PayloadView)
    ensures
        head_of(response_to(request, result)).id == request.head.id,
        head_of(response_to(request, result)).timestamp == request.head.timestamp,
        head_of(response_to(request, result)).state == done_state(),
        result is String ==> head_of(response_to(request, result)).content_type == Some(
            string_content_type(),
        ),
        result is File ==> head_of(response_to(request, result)).content_type == Some(
            file_content_type(),
        ),
{
}

/// An immutable wrapper around one pending request.
pub struct TransUnit {
    content: ReqContent,
}

impl View for TransUnit {
    type V = EntryView;

    closed spec fn view(&self) -> EntryView {
        self.content@
    }
}

impl TransUnit {
    /// Wraps a request.
    pub fn new(content: ReqContent) -> (unit: TransUnit)
        ensures
            unit@ == content@,
    {
        TransUnit { content }
    }

    /// The body of the request: the key by which its handler is found.
    pub fn get(&self) -> (body: &String)
        ensures
            body@ == self@.body,
    {
        &self.content.body
    }

    /// Builds the response that answers this request with `content`.
    pub fn set(&self, content: TransUnitType) -> (response: ResContentType)
        ensures
            response@ == response_to(self@, content@),
    {
        match content {
            TransUnitType::String(text) => ResContentType::String(
                ResStringContent {
                    head: TransHead {
                        id: self.content.head.id.clone(),
                        state: "Done".to_string(),
                        timestamp: self.content.head.timestamp,
                        content_type: Some("string".to_string()),
                    },
                    body: text,
                },
            ),
            TransUnitType::File(bytes) => ResContentType::File(
                ResFileContent {
                    head: TransHead {
                        id: self.content.head.id.clone(),
                        state: "Done".to_string(),
                        timestamp: self.content.head.timestamp,
                        content_type: Some("file".to_string()),
                    },
                    body: bytes,
                },
            ),
        }
    }
}

} // verus!
