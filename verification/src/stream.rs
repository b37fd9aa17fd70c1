//! Stream events and the metadata that lets a stream or sink be recreated
//! after a suspension.

use vstd::prelude::*;
use crate::value::Value;

verus! {

/// Event emitted by an async stream.
#[derive(Debug)]
pub enum StreamEvent {
    /// Intermediate data value.
    Data(Value),
    /// Terminal success with final value.
    Success(Value),
    /// Terminal failure with error.
    Failure(Value),
    /// Stream completed successfully (no value).
    Done,
}

/// Reference to a persisted stream buffer, for backtracking and replay.
#[derive(Debug, Clone, PartialEq)]
pub struct StreamBuffer {
    /// Storage partition where the buffer is kept.
    pub partition: String,
    /// Key prefix of the buffer's entries.
    pub key_prefix: String,
    /// Current read position in the buffer (for resumption).
    pub position: usize,
    /// Total bytes received and persisted so far.
    pub bytes_received: usize,
}

/// How to recreate a stream after a suspension. Headers are kept as a list
/// of name/value pairs.
#[derive(Debug, PartialEq)]
pub enum StreamSource {
    /// HTTP GET request: can be retried or resumed.
    HttpGet { url: String, headers: Vec<(String, String)>, buffer: Option<StreamBuffer> },
    /// HTTP POST request: may not be safely retryable.
    HttpPost {
        url: String,
        body: String,
        headers: Vec<(String, String)>,
        buffer: Option<StreamBuffer>,
    },
    /// WebSocket connection.
    WebSocket { url: String, buffer: Option<StreamBuffer> },
    /// File stream: can be resumed from a position.
    File { path: String, position: u64, buffer: Option<StreamBuffer> },
    /// LLM completion stream: needs the conversation context to resume.
    LlmCompletion { model: String, context: String, buffer: Option<StreamBuffer> },
    /// In-memory mock stream (for testing): cannot be resumed.
    Mock,
    /// Stream created programmatically: cannot be resumed.
    Ephemeral,
    /// Placeholder after a failed resume attempt.
    Disconnected { original: Box<StreamSource>, reason: String },
}

/// Whether a stream source can potentially be resumed: GET requests,
/// WebSockets, files and LLM completions can; POST requests (which may
/// not be idempotent), mocks, ephemeral and disconnected streams cannot.
pub open spec fn stream_resumable(s: StreamSource) -> bool {
    ||| s is HttpGet
    ||| s is WebSocket
    ||| s is File
    ||| s is LlmCompletion
}

/// Whether a stream source carries a buffer reference.
pub open spec fn carries_buffer(s: StreamSource) -> bool {
    ||| s is HttpGet
    ||| s is HttpPost
    ||| s is WebSocket
    ||| s is File
    ||| s is LlmCompletion
}

/// The buffer reference of a stream source, if it has one.
pub open spec fn buffer_of(s: StreamSource) -> Option<StreamBuffer> {
    match s {
        StreamSource::HttpGet { buffer, .. } => buffer,
        StreamSource::HttpPost { buffer, .. } => buffer,
        StreamSource::WebSocket { buffer, .. } => buffer,
        StreamSource::File { buffer, .. } => buffer,
        StreamSource::LlmCompletion { buffer, .. } => buffer,
        _ => None,
    }
}

/// The source with its buffer reference cleared.
pub open spec fn without_buffer(s: StreamSource) -> StreamSource {
    match s {
        StreamSource::HttpGet { url, headers, .. } => StreamSource::HttpGet { url, headers, buffer: None },
        StreamSource::HttpPost { url, body, headers, .. } => StreamSource::HttpPost {
            url,
            body,
            headers,
            buffer: None,
        },
        StreamSource::WebSocket { url, .. } => StreamSource::WebSocket { url, buffer: None },
        StreamSource::File { path, position, .. } => StreamSource::File { path, position, buffer: None },
        StreamSource::LlmCompletion { model, context, .. } => StreamSource::LlmCompletion {
            model,
            context,
            buffer: None,
        },
        other => other,
    }
}

/// Only sources that carry what recreating them needs are resumable: GET
/// requests, WebSockets, files and LLM completions. POST requests, mocks,
/// ephemeral and disconnected streams never are.
pub proof fn lemma_resumable_sources(s: StreamSource)
    ensures
        stream_resumable(s) <==> (s is HttpGet || s is WebSocket || s is File || s is LlmCompletion),
        s is HttpPost || s is Mock || s is Ephemeral || s is Disconnected ==> !stream_resumable(s),
{
}

impl StreamSource {
    /// Whether this stream source can potentially be resumed.
    pub fn is_resumable(&self) -> (r: bool)
        ensures
            r == stream_resumable(*self),
            r <==> (*self is HttpGet || *self is WebSocket || *self is File || *self is LlmCompletion),
    {
        match self {
            StreamSource::HttpGet { .. } => true,
            StreamSource::WebSocket { .. } => true,
            StreamSource::File { .. } => true,
            StreamSource::LlmCompletion { .. } => true,
            StreamSource::HttpPost { .. } => false,
            StreamSource::Mock => false,
            StreamSource::Ephemeral => false,
            StreamSource::Disconnected { .. } => false,
        }
    }

    /// The stream buffer reference, if any.
    pub fn buffer(&self) -> (r: Option<&StreamBuffer>)
        ensures
            match r {
                Some(b) => buffer_of(*self) == Some(*b),
                None => buffer_of(*self) is None,
            },
    {
        match self {
            StreamSource::HttpGet { buffer, .. } => buffer.as_ref(),
            StreamSource::HttpPost { buffer, .. } => buffer.as_ref(),
            StreamSource::WebSocket { buffer, .. } => buffer.as_ref(),
            StreamSource::File { buffer, .. } => buffer.as_ref(),
            StreamSource::LlmCompletion { buffer, .. } => buffer.as_ref(),
            StreamSource::Mock => None,
            StreamSource::Ephemeral => None,
            StreamSource::Disconnected { .. } => None,
        }
    }

    /// This source with its buffer reference set to `buffer`; sources that
    /// carry no buffer are returned unchanged.
    pub fn with_buffer(self, buffer: StreamBuffer) -> (r: StreamSource)
        ensures
            carries_buffer(self) ==> without_buffer(r) == without_buffer(self) && buffer_of(r) == Some(
                buffer,
            ),
            !carries_buffer(self) ==> r == self,
            stream_resumable(r) == stream_resumable(self),
    {
        match self {
            StreamSource::HttpGet { url, headers, .. } => StreamSource::HttpGet {
                url,
                headers,
                buffer: Some(buffer),
            },
            StreamSource::HttpPost { url, body, headers, .. } => StreamSource::HttpPost {
                url,
                body,
                headers,
                buffer: Some(buffer),
            },
            StreamSource::WebSocket { url, .. } => StreamSource::WebSocket { url, buffer: Some(buffer) },
            StreamSource::File { path, position, .. } => StreamSource::File {
                path,
                position,
                buffer: Some(buffer),
            },
            StreamSource::LlmCompletion { model, context, .. } => StreamSource::LlmCompletion {
                model,
                context,
                buffer: Some(buffer),
            },
            other => other,
        }
    }
}

/// How to recreate a sink after a suspension.
#[derive(Debug, PartialEq)]
pub enum SinkSource {
    /// HTTP response body sink.
    HttpResponse { request_id: String },
    /// WebSocket connection sink.
    WebSocket { url: String },
    /// File output sink.
    File { path: String },
    /// In-memory sink (for testing): cannot be resumed.
    Mock,
    /// Sink created programmatically: cannot be resumed.
    Ephemeral,
    /// Placeholder after a failed resume attempt.
    Disconnected { original: Box<SinkSource>, reason: String },
}

impl SinkSource {
    /// A copy of this sink source.
    pub fn duplicate(&self) -> (r: SinkSource)
        ensures
            r == *self,
        decreases self,
    {
        match self {
            SinkSource::HttpResponse { request_id } => SinkSource::HttpResponse { request_id: request_id.clone() },
            SinkSource::WebSocket { url } => SinkSource::WebSocket { url: url.clone() },
            SinkSource::File { path } => SinkSource::File { path: path.clone() },
            SinkSource::Mock => SinkSource::Mock,
            SinkSource::Ephemeral => SinkSource::Ephemeral,
            SinkSource::Disconnected { original, reason } => SinkSource::Disconnected {
                original: Box::new(original.duplicate()),
                reason: reason.clone(),
            },
        }
    }

    /// Whether this sink can potentially be resumed: WebSockets and files
    /// can; an HTTP response (already sent), mocks, ephemeral and
    /// disconnected sinks cannot.
    pub fn is_resumable(&self) -> (r: bool)
        ensures
            r == (*self is WebSocket || *self is File),
    {
        match self {
            SinkSource::WebSocket { .. } => true,
            SinkSource::File { .. } => true,
            SinkSource::HttpResponse { .. } => false,
            SinkSource::Mock => false,
            SinkSource::Ephemeral => false,
            SinkSource::Disconnected { .. } => false,
        }
    }
}

} // verus!
