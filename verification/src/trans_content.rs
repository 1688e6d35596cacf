//! The entry model: the shapes that travel through the mailbox document.

use vstd::prelude::*;

verus! {

/// The value `head.state` holds while an entry waits for its handler.
pub open spec fn pending_state() -> Seq<char> {
    "Pending"@
}

/// The value `head.state` holds once an entry carries a response.
pub open spec fn done_state() -> Seq<char> {
    "Done"@
}

/// The value `head.content_type` holds for a response whose body is text.
pub open spec fn string_content_type() -> Seq<char> {
    "string"@
}

/// The value `head.content_type` holds for a response whose body is a blob.
pub open spec fn file_content_type() -> Seq<char> {
    "file"@
}

/// Metadata carried by every request and response.
///
/// `id` is chosen by the requester and never changes; `timestamp` is the
/// creation time of the request in milliseconds since the epoch and is kept
/// as it is when the response is built.
#[derive(Debug, Clone)]
pub struct TransHead {
    pub id: String,
    /// `"string"` or `"file"` on a response, absent on a request.
    pub content_type: Option<String>,
    /// `"Pending"` on a request, `"Done"` on a response.
    pub state: String,
    pub timestamp: i64,
}

/// Mathematical model of a [`TransHead`].
#[verifier::ext_equal]
pub struct HeadView {
    pub id: Seq<char>,
    pub content_type: Option<Seq<char>>,
    pub state: Seq<char>,
    pub timestamp: int,
}

impl View for TransHead {
    type V = HeadView;

    open spec fn view(&self) -> HeadView {
        HeadView {
            id: self.id@,
            content_type: match self.content_type {
                Some(t) => Some(t@),
                None => None,
            },
            state: self.state@,
            timestamp: self.timestamp as int,
        }
    }
}

/// An entry of the mailbox document: a request, or a response whose body is
/// text.
#[derive(Debug, Clone)]
pub struct ReqContent {
    pub head: TransHead,
    pub body: String,
}

/// Mathematical model of a [`ReqContent`].
#[verifier::ext_equal]
pub struct EntryView {
    pub head: HeadView,
    pub body: Seq<char>,
}

impl View for ReqContent {
    type V = EntryView;

    open spec fn view(&self) -> EntryView {
        EntryView { head: self.head@, body: self.body@ }
    }
}

/// A response whose body is text: it has the shape of a request.
pub type ResStringContent = ReqContent;

/// A response whose body is a blob. It never enters the mailbox document.
pub struct ResFileContent {
    pub head: TransHead,
    pub body: Vec<u8>,
}

/// Mathematical model of a [`ResFileContent`].
#[verifier::ext_equal]
pub struct FileEntryView {
    pub head: HeadView,
    pub body: Seq<u8>,
}

impl View for ResFileContent {
    type V = FileEntryView;

    open spec fn view(&self) -> FileEntryView {
        FileEntryView { head: self.head@, body: self.body@ }
    }
}

/// A response as a handler's result is handed to the transport.
pub enum ResContentType {
    String(ResStringContent),
    File(ResFileContent),
}

/// Mathematical model of a [`ResContentType`].
#[verifier::ext_equal]
pub enum ResponseView {
    String(EntryView),
    File(FileEntryView),
}

impl View for ResContentType {
    type V = ResponseView;

    open spec fn view(&self) -> ResponseView {
        match self {
            ResContentType::String(entry) => ResponseView::String(entry@),
            ResContentType::File(entry) => ResponseView::File(entry@),
        }
    }
}

/// What a handler returns: text, or the bytes of a blob.
pub enum TransUnitType {
    String(String),
    File(Vec<u8>),
}

/// Mathematical model of a [`TransUnitType`].
#[verifier::ext_equal]
pub enum PayloadView {
    String(Seq<char>),
    File(Seq<u8>),
}

impl View for TransUnitType {
    type V = PayloadView;

    open spec fn view(&self) -> PayloadView {
        match self {
            TransUnitType::String(text) => PayloadView::String(text@),
            TransUnitType::File(bytes) => PayloadView::File(bytes@),
        }
    }
}

/// The models of the entries of `entries`, in order.
pub open spec fn entry_views(entries: Seq<ReqContent>) -> Seq<EntryView> {
    entries.map_values(|entry: ReqContent| entry@)
}

} // verus!
