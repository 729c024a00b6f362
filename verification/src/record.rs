//! The data the middleware works on: header snapshots, response metadata,
//! log fields, and the structured log record it emits.

use vstd::prelude::*;

use crate::text::{text_of_value, value_text};

verus! {

/// One request header: a name and a raw byte value, snapshotted before the
/// request is handed to the inner handler.
#[derive(Debug)]
pub struct Header {
    pub name: String,
    pub value: Vec<u8>,
}

impl DeepView for Header {
    type V = (Seq<char>, Seq<u8>);

    open spec fn deep_view(&self) -> Self::V {
        (self.name@, self.value@)
    }
}

/// One key/value field bound on a log record.
#[derive(Debug)]
pub struct LogField {
    pub key: String,
    pub value: String,
}

impl DeepView for LogField {
    type V = (Seq<char>, Seq<char>);

    open spec fn deep_view(&self) -> Self::V {
        (self.key@, self.value@)
    }
}

/// What the middleware reads off a response once the inner handler has
/// produced one: the status code, and the originating request's method and
/// path, reached through the response's back-reference to its request.
#[derive(Debug)]
pub struct ResponseMeta {
    pub method: String,
    pub path: String,
    pub status: u16,
}

/// The mathematical value of a [`ResponseMeta`].
pub ghost struct ResponseMetaV {
    pub method: Seq<char>,
    pub path: Seq<char>,
    pub status: u16,
}

impl View for ResponseMeta {
    type V = ResponseMetaV;

    open spec fn view(&self) -> Self::V {
        ResponseMetaV { method: self.method@, path: self.path@, status: self.status }
    }
}

/// One structured log record, ready for a logging sink: a fixed message, the
/// request's latency, method, path and status, and the bound key/value
/// fields (the logging context's fields followed by one field per header).
#[derive(Debug)]
pub struct LogRecord {
    pub message: String,
    pub latency_ms: u128,
    pub method: String,
    pub path: String,
    pub status: u16,
    pub fields: Vec<LogField>,
}

/// The mathematical value of a [`LogRecord`].
pub ghost struct LogRecordV {
    pub message: Seq<char>,
    pub latency_ms: u128,
    pub method: Seq<char>,
    pub path: Seq<char>,
    pub status: u16,
    pub fields: Seq<(Seq<char>, Seq<char>)>,
}

impl View for LogRecord {
    type V = LogRecordV;

    open spec fn view(&self) -> Self::V {
        LogRecordV {
            message: self.message@,
            latency_ms: self.latency_ms,
            method: self.method@,
            path: self.path@,
            status: self.status,
            fields: self.fields.deep_view(),
        }
    }
}

/// The fixed message of every record this middleware emits.
pub open spec fn http_request_message() -> Seq<char> {
    "http request"@
}

/// The field derived from one header: the header's name as key, its value
/// rendered as text (or the sentinel) as value.
pub open spec fn field_of_header(h: (Seq<char>, Seq<u8>)) -> (Seq<char>, Seq<char>) {
    (h.0, text_of_value(h.1))
}

/// The fields derived from a header snapshot, one per header, in header
/// order.
pub open spec fn header_fields(headers: Seq<(Seq<char>, Seq<u8>)>) -> Seq<(Seq<char>, Seq<char>)> {
    headers.map_values(|h: (Seq<char>, Seq<u8>)| field_of_header(h))
}

/// The one record emitted for a request that completed successfully: fixed
/// message, the measured latency, the response's method, path and status,
/// and the context's fields followed by one field per snapshotted header.
pub open spec fn record_of(
    ctx: Seq<(Seq<char>, Seq<char>)>,
    headers: Seq<(Seq<char>, Seq<u8>)>,
    elapsed_ms: u128,
    resp: ResponseMetaV,
) -> LogRecordV {
    LogRecordV {
        message: http_request_message(),
        latency_ms: elapsed_ms,
        method: resp.method,
        path: resp.path,
        status: resp.status,
        fields: ctx + header_fields(headers),
    }
}

/// The field derived from one header, as a value: key is the header's name,
/// value its text (or the sentinel).
pub fn derive_field(h: &Header) -> (r: LogField)
    ensures
        r.deep_view() == field_of_header(h.deep_view()),
{
    LogField { key: h.name.clone(), value: value_text(&h.value) }
}

} // verus!
