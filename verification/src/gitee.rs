//! What the worker computes around the calls to the provider that hosts the
//! mailbox: addresses, request bodies, and the reading of its answers.

use crate::errors::{FetchError, WriteError};
use vstd::prelude::*;
use vstd::string::StringExecFns;
use vstd::utf8::encode_utf8;

verus! {

/// Where the mailbox lives, and the credential that opens it.
#[derive(Debug, Clone)]
pub struct GiteeConfig {
    pub access_token: String,
    pub user_name: String,
    pub repo: String,
    pub file_path: String,
}

/// Mathematical model of a [`GiteeConfig`].
#[verifier::ext_equal]
pub struct ConfigView {
    pub access_token: Seq<char>,
    pub user_name: Seq<char>,
    pub repo: Seq<char>,
    pub file_path: Seq<char>,
}

impl View for GiteeConfig {
    type V = ConfigView;

    open spec fn view(&self) -> ConfigView {
        ConfigView {
            access_token: self.access_token@,
            user_name: self.user_name@,
            repo: self.repo@,
            file_path: self.file_path@,
        }
    }
}

/// The address of the file at `path` in the repository `repo` of `user`.
pub open spec fn contents_address(user: Seq<char>, repo: Seq<char>, path: Seq<char>) -> Seq<char> {
    "https://gitee.com/api/v5/repos/"@ + user + "/"@ + repo + "/contents/"@ + path
}

/// The address from which the mailbox document is read.
pub open spec fn fetch_address(config: ConfigView) -> Seq<char> {
    contents_address(config.user_name, config.repo, config.file_path) + "?access_token="@
        + config.access_token
}

/// The commit message that goes with a write of the mailbox document.
pub open spec fn response_message() -> Seq<char> {
    "response"@
}

/// The commit message that goes with the upload of a blob.
pub open spec fn file_message() -> Seq<char> {
    "send file"@
}

/// The base64 text that `base64::encode` gives for `bytes`.
pub uninterp spec fn base64_text(bytes: Seq<u8>) -> Seq<char>;

/// The bytes that `base64::decode` gives for `text`, where it gives any.
pub uninterp spec fn base64_bytes(text: Seq<char>) -> Option<Seq<u8>>;

/// Whether the base64 text of `len` bytes still fits in memory: four
/// characters for every three bytes begun.
pub open spec fn fits_base64(len: nat) -> bool {
    (len + 2) / 3 * 4 <= isize::MAX
}

/// The text in which every character has the code of the byte in its place.
pub open spec fn latin1(bytes: Seq<u8>) -> Seq<char> {
    bytes.map_values(|byte: u8| byte as char)
}

/// Trusted: makes `base64::DecodeError` known as a type whose values are
/// carried, never looked into.
#[verifier::external_type_specification]
#[verifier::external_body]
pub struct ExDecodeError(base64::DecodeError);

/// Trusted: calls `base64::encode`, which encodes with the standard
/// alphabet and padding, and panics where the length of the text overflows.
/// The contract names the text and claims no more of it.
#[verifier::external_body]
fn base64_encode(bytes: &[u8]) -> (text: String)
    requires
        fits_base64(bytes@.len()),
    ensures
        text@ == base64_text(bytes@),
{
    base64::encode(bytes)
}

/// Trusted: calls `base64::decode`, which reads the standard alphabet and
/// fails on text that it does not take for base64. The contract names the
/// bytes where there are any, and claims no more of them.
#[verifier::external_body]
fn base64_decode(text: &str) -> (decoded: Result<Vec<u8>, base64::DecodeError>)
    requires
        encode_utf8(text@).len() <= isize::MAX,
    ensures
        match decoded {
            Ok(bytes) => base64_bytes(text@) == Some(bytes@),
            Err(_) => base64_bytes(text@) is None,
        },
{
    base64::decode(text)
}

/// Trusted: calls `String::push`, which appends one character.
#[verifier::external_body]
fn push_char(text: &mut String, c: char)
    ensures
        final(text)@ == old(text)@.push(c),
{
    text.push(c)
}

/// A request that puts content at an address of the provider.
#[derive(Debug, Clone)]
pub struct ContentRequest {
    pub url: String,
    pub access_token: String,
    /// The revision token of the file that is replaced; absent where a file
    /// is created.
    pub sha: Option<String>,
    pub message: String,
    /// The content, as base64 text.
    pub content: String,
}

/// Mathematical model of a [`ContentRequest`].
#[verifier::ext_equal]
pub struct RequestView {
    pub url: Seq<char>,
    pub access_token: Seq<char>,
    pub sha: Option<Seq<char>>,
    pub message: Seq<char>,
    pub content: Seq<char>,
}

impl View for ContentRequest {
    type V = RequestView;

    open spec fn view(&self) -> RequestView {
        RequestView {
            url: self.url@,
            access_token: self.access_token@,
            sha: match self.sha {
                Some(token) => Some(token@),
                None => None,
            },
            message: self.message@,
            content: self.content@,
        }
    }
}

/// The request that replaces the mailbox document by the content whose
/// base64 text is `encoded`, presenting the revision token `sha`.
pub open spec fn put_request(config: ConfigView, encoded: Seq<char>, sha: Seq<char>) -> RequestView {
    RequestView {
        url: contents_address(config.user_name, config.repo, config.file_path),
        access_token: config.access_token,
        sha: Some(sha),
        message: response_message(),
        content: encoded,
    }
}

/// The request that creates, under `file_name`, the blob whose base64 text
/// is `encoded`.
pub open spec fn create_request(
    config: ConfigView,
    file_name: Seq<char>,
    encoded: Seq<char>,
) -> RequestView {
    RequestView {
        url: contents_address(config.user_name, config.repo, file_name),
        access_token: config.access_token,
        sha: None,
        message: file_message(),
        content: encoded,
    }
}

/// The fields of the body that the provider is sent, by name: the
/// credential, the revision token where there is one, the commit message
/// and the content.
pub open spec fn body_fields(request: RequestView) -> Seq<(Seq<char>, Seq<char>)> {
    let sha = match request.sha {
        Some(token) => seq![("sha"@, token)],
        None => Seq::empty(),
    };
    seq![("access_token"@, request.access_token)] + sha + seq![
        ("message"@, request.message),
        ("content"@, request.content),
    ]
}

/// The models of the pairs of `fields`, in order.
pub open spec fn field_views(fields: Seq<(String, String)>) -> Seq<(Seq<char>, Seq<char>)> {
    fields.map_values(|field: (String, String)| (field.0@, field.1@))
}

impl ContentRequest {
    /// The fields of the body that the provider is sent, by name.
    pub fn fields(&self) -> (fields: Vec<(String, String)>)
        ensures
            field_views(fields@) == body_fields(self@),
    {
        let mut fields: Vec<(String, String)> = Vec::new();
        fields.push(("access_token".to_string(), self.access_token.clone()));
        match &self.sha {
            Some(token) => {
                fields.push(("sha".to_string(), token.clone()));
            },
            None => {},
        }
        fields.push(("message".to_string(), self.message.clone()));
        fields.push(("content".to_string(), self.content.clone()));
        assert(field_views(fields@) =~= body_fields(self@));
        fields
    }
}

fn contents_url(config: &GiteeConfig, path: &str) -> (url: String)
    ensures
        url@ == contents_address(config.user_name@, config.repo@, path@),
{
    let mut url = "https://gitee.com/api/v5/repos/".to_string();
    url.append(config.user_name.as_str());
    url.append("/");
    url.append(config.repo.as_str());
    url.append("/contents/");
    url.append(path);
    url
}

/// The address from which the mailbox document is read.
pub fn get_content_url(config: &GiteeConfig) -> (url: String)
    ensures
        url@ == fetch_address(config@),
{
    let mut url = contents_url(config, config.file_path.as_str());
    url.append("?access_token=");
    url.append(config.access_token.as_str());
    url
}

/// The text of bytes that are taken as one character each.
pub fn bytes_to_str(bytes: Vec<u8>) -> (text: String)
    ensures
        text@ == latin1(bytes@),
{
    let mut text = String::new();
    let mut at: usize = 0;
    while at < bytes.len()
        invariant
            at <= bytes@.len(),
            text@ == latin1(bytes@.take(at as int)),
        decreases bytes@.len() - at,
    {
        let c = bytes[at] as char;
        push_char(&mut text, c);
        assert(latin1(bytes@.take(at + 1)) =~= latin1(bytes@.take(at as int)).push(c));
        at += 1;
    }
    assert(bytes@.take(bytes@.len() as int) =~= bytes@);
    text
}

/// Reads the content field of the provider's answer: base64 text whose
/// bytes are the text of the mailbox document.
pub fn decode_content(content: &str) -> (decoded: Result<String, FetchError>)
    requires
        encode_utf8(content@).len() <= isize::MAX,
    ensures
        match decoded {
            Ok(text) => base64_bytes(content@) matches Some(bytes) && text@ == latin1(bytes),
            Err(error) => base64_bytes(content@) is None && error is Encoding,
        },
{
    match base64_decode(content) {
        Ok(bytes) => Ok(bytes_to_str(bytes)),
        Err(_) => Err(FetchError::Encoding),
    }
}

/// Whether `len` bytes can be encoded: the test that callers make before
/// they ask for a request with content of that length.
pub fn can_encode(len: usize) -> (fits: bool)
    ensures
        fits == fits_base64(len as nat),
{
    let groups: usize = len / 3 + if len % 3 == 0 { 0 } else { 1 };
    assert(groups == (len + 2) / 3);
    groups <= (isize::MAX as usize) / 4
}

/// The request that replaces the mailbox document by the content whose
/// base64 text is `encoded`, presenting the revision token `sha`.
pub fn put_encoded(config: &GiteeConfig, encoded: String, sha: String) -> (request: ContentRequest)
    ensures
        request@ == put_request(config@, encoded@, sha@),
{
    ContentRequest {
        url: contents_url(config, config.file_path.as_str()),
        access_token: config.access_token.clone(),
        sha: Some(sha),
        message: "response".to_string(),
        content: encoded,
    }
}

/// The request that creates, under `file_name`, the blob whose base64 text
/// is `encoded`.
pub fn create_encoded(config: &GiteeConfig, file_name: &String, encoded: String) -> (request:
    ContentRequest)
    ensures
        request@ == create_request(config@, file_name@, encoded@),
{
    ContentRequest {
        url: contents_url(config, file_name.as_str()),
        access_token: config.access_token.clone(),
        sha: None,
        message: "send file".to_string(),
        content: encoded,
    }
}

/// The request that replaces the mailbox document by `content`, presenting
/// the revision token `sha`. The content travels as the base64 text of its
/// UTF-8 bytes.
pub fn put_content_request(config: &GiteeConfig, content: String, sha: String) -> (request:
    ContentRequest)
    requires
        fits_base64(encode_utf8(content@).len()),
    ensures
        request@ == put_request(config@, base64_text(encode_utf8(content@)), sha@),
{
    let encoded = base64_encode(content.as_str().as_bytes());
    put_encoded(config, encoded, sha)
}

/// The request that creates the blob `file_content` under `file_name`. The
/// blob travels as base64 text.
pub fn create_file_request(
    config: &GiteeConfig,
    file_name: &String,
    file_content: &Vec<u8>,
) -> (request: ContentRequest)
    requires
        fits_base64(file_content@.len()),
    ensures
        request@ == create_request(config@, file_name@, base64_text(file_content@)),
{
    let encoded = base64_encode(file_content.as_slice());
    create_encoded(config, file_name, encoded)
}

/// The status with which the provider answers a write that it took.
pub const STATUS_TAKEN: u16 = 200;

/// The status with which the provider answers a write whose revision token
/// is not that of the file as it stands: the conflict status of HTTP.
pub const STATUS_CONFLICT: u16 = 409;

/// Whether a write answered with `status` was taken.
pub open spec fn write_taken(status: u16) -> bool {
    status == STATUS_TAKEN
}

/// Whether a write answered with `status` was refused because the revision
/// token it presented is stale.
pub open spec fn token_stale(status: u16) -> bool {
    status == STATUS_CONFLICT
}

/// Reads the provider's answer to a write. A write that was taken
/// succeeds. One that was refused for its stale revision token is a
/// conflict; any other refusal is a failure of the transport, with `body`
/// as the reason.
pub fn check_status(status: u16, body: String) -> (outcome: Result<(), WriteError>)
    ensures
        match outcome {
            Ok(_) => write_taken(status),
            Err(WriteError::Conflict) => token_stale(status),
            Err(WriteError::Transport(reason)) => !write_taken(status) && !token_stale(status)
                && reason@ == body@,
        },
{
    if status == STATUS_TAKEN {
        Ok(())
    } else if status == STATUS_CONFLICT {
        Err(WriteError::Conflict)
    } else {
        Err(WriteError::Transport(body))
    }
}

} // verus!
