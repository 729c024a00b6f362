//! The middleware itself: a logging context, the factory that wraps an
//! inner handler, and the per-request completion step.

use vstd::prelude::*;

use crate::record::{
    Header, LogField, LogRecord, LogRecordV, ResponseMeta, ResponseMetaV, derive_field,
    field_of_header, header_fields, http_request_message, record_of,
};

verus! {

/// A structured logging context: an immutable handle modelled by the
/// key/value fields bound on it. Deriving a child context appends a field
/// and never mutates the parent.
pub struct LogContext {
    pub fields: Vec<LogField>,
}

impl View for LogContext {
    type V = Seq<(Seq<char>, Seq<char>)>;

    open spec fn view(&self) -> Self::V {
        self.fields.deep_view()
    }
}

impl LogContext {
    /// A context with no bound fields.
    pub fn new() -> (r: LogContext)
        ensures
            r@ == Seq::<(Seq<char>, Seq<char>)>::empty(),
    {
        let r = LogContext { fields: Vec::new() };
        proof {
            assert(r@ =~= Seq::<(Seq<char>, Seq<char>)>::empty());
        }
        r
    }

    /// A child context: this context's fields with one more bound at the end.
    pub fn with_field(self, key: String, value: String) -> (r: LogContext)
        ensures
            r@ == self@.push((key@, value@)),
    {
        let mut fields = self.fields;
        let ghost before = fields.deep_view();
        fields.push(LogField { key, value });
        let r = LogContext { fields };
        proof {
            assert(r@ =~= before.push((key@, value@)));
        }
        r
    }
}

/// An exact copy of a field list, field by field.
fn clone_fields(v: &Vec<LogField>) -> (r: Vec<LogField>)
    ensures
        r.deep_view() == v.deep_view(),
{
    let mut r: Vec<LogField> = Vec::new();
    let mut i: usize = 0;
    while i < v.len()
        invariant
            i <= v@.len(),
            r.deep_view() == v.deep_view().take(i as int),
        decreases v@.len() - i,
    {
        let f = &v[i];
        let g = LogField { key: f.key.clone(), value: f.value.clone() };
        proof {
            assert(g.deep_view() == v.deep_view()[i as int]);
        }
        let ghost prev = r.deep_view();
        let ghost prev_s = r@;
        r.push(g);
        proof {
            assert(r@ == prev_s.push(g));
            assert forall|j: int| 0 <= j < prev.len() implies r.deep_view()[j] == prev[j] by {
                assert(r@[j] == prev_s[j]);
            }
            assert(r.deep_view()[prev.len() as int] == g.deep_view());
            assert(r.deep_view() =~= v.deep_view().take(i + 1));
        }
        i = i + 1;
    }
    proof {
        assert(r.deep_view() =~= v.deep_view());
    }
    r
}

impl Clone for LogContext {
    /// A clone binds the same fields.
    fn clone(&self) -> (r: Self)
        ensures
            r@ == self@,
    {
        LogContext { fields: clone_fields(&self.fields) }
    }
}

/// The middleware factory: holds the logging context that every wrapped
/// handler will log through.
pub struct SlogLogger {
    pub logger: LogContext,
}

impl SlogLogger {
    /// A factory over the given logging context. Any context is accepted.
    pub fn new(logger: LogContext) -> (r: SlogLogger)
        ensures
            r.logger@ == logger@,
    {
        SlogLogger { logger }
    }

    /// Wraps an inner handler: the middleware holds the handler unchanged
    /// and a clone of this factory's logging context.
    pub fn new_transform<S>(&self, service: S) -> (r: SlogLoggerMiddleware<S>)
        ensures
            r.service == service,
            r.logger@ == self.logger@,
    {
        SlogLoggerMiddleware { service, logger: SlogLogger::new(self.logger.clone()).logger }
    }
}

/// A wrapped handler: the inner handler and the logging context the
/// middleware logs through. The inner handler is opaque here; the host
/// framework calls it and hands its outcome to [`Self::on_complete`].
pub struct SlogLoggerMiddleware<S> {
    pub service: S,
    pub logger: LogContext,
}

/// The value of an inner handler's outcome: the response's metadata on
/// success, the untouched error otherwise.
pub open spec fn response_view<E>(r: Result<ResponseMeta, E>) -> Result<ResponseMetaV, E> {
    match r {
        Ok(resp) => Ok(resp@),
        Err(e) => Err(e),
    }
}

/// The value of a possibly emitted record.
pub open spec fn record_view(r: Option<LogRecord>) -> Option<LogRecordV> {
    match r {
        Some(rec) => Some(rec@),
        None => None,
    }
}

/// What one request completion decides: the outcome is passed through
/// unchanged; a success emits exactly the one record of [`record_of`]; an
/// error emits nothing.
pub open spec fn call_decision<E>(
    ctx: Seq<(Seq<char>, Seq<char>)>,
    headers: Seq<(Seq<char>, Seq<u8>)>,
    elapsed_ms: u128,
    result: Result<ResponseMetaV, E>,
) -> (Result<ResponseMetaV, E>, Option<LogRecordV>) {
    match result {
        Ok(resp) => (Ok(resp), Some(record_of(ctx, headers, elapsed_ms, resp))),
        Err(e) => (Err(e), None),
    }
}

/// One record per success: a successful completion passes the response
/// through unchanged and emits exactly one record, whose message, latency,
/// method, path, status and bound fields are all pinned down; the latency is
/// never negative.
pub proof fn lemma_success_emits_one_record<E>(
    ctx: Seq<(Seq<char>, Seq<char>)>,
    headers: Seq<(Seq<char>, Seq<u8>)>,
    elapsed_ms: u128,
    resp: ResponseMetaV,
)
    ensures
        ({
            let d = call_decision::<E>(ctx, headers, elapsed_ms, Ok(resp));
            let rec = record_of(ctx, headers, elapsed_ms, resp);
            &&& d.0 == Ok::<ResponseMetaV, E>(resp)
            &&& d.1 == Some(rec)
            &&& rec.latency_ms >= 0
            &&& rec.message == http_request_message()
            &&& rec.method == resp.method
            &&& rec.path == resp.path
            &&& rec.status == resp.status
            &&& rec.fields == ctx + header_fields(headers)
        }),
{
}

/// No record on error: a failed completion emits nothing, and the caller
/// observes the very error the inner handler produced.
pub proof fn lemma_error_emits_no_record<E>(
    ctx: Seq<(Seq<char>, Seq<char>)>,
    headers: Seq<(Seq<char>, Seq<u8>)>,
    elapsed_ms: u128,
    err: E,
)
    ensures
        call_decision(ctx, headers, elapsed_ms, Err::<ResponseMetaV, E>(err)) == (
            Err::<ResponseMetaV, E>(err),
            None::<LogRecordV>,
        ),
{
}

/// Requests do not contaminate one another: two completions under the same
/// middleware each emit exactly one record, and each record's bound fields
/// are the shared context's fields followed by fields from that request's
/// own header snapshot alone.
pub proof fn lemma_requests_independent<E>(
    ctx: Seq<(Seq<char>, Seq<char>)>,
    headers_a: Seq<(Seq<char>, Seq<u8>)>,
    headers_b: Seq<(Seq<char>, Seq<u8>)>,
    elapsed_a: u128,
    elapsed_b: u128,
    resp_a: ResponseMetaV,
    resp_b: ResponseMetaV,
)
    ensures
        ({
            let a = call_decision::<E>(ctx, headers_a, elapsed_a, Ok(resp_a));
            let b = call_decision::<E>(ctx, headers_b, elapsed_b, Ok(resp_b));
            &&& a.1 == Some(record_of(ctx, headers_a, elapsed_a, resp_a))
            &&& b.1 == Some(record_of(ctx, headers_b, elapsed_b, resp_b))
            &&& record_of(ctx, headers_a, elapsed_a, resp_a).fields == ctx + header_fields(
                headers_a,
            )
            &&& record_of(ctx, headers_b, elapsed_b, resp_b).fields == ctx + header_fields(
                headers_b,
            )
        }),
{
}

/// Composability: installed twice around one inner handler, a successful
/// request yields two records, one per installation, each independently
/// correct, and the response passes through both layers unchanged; on an
/// error both layers stay silent and the error passes through both.
pub proof fn lemma_double_wrap<E>(
    ctx_outer: Seq<(Seq<char>, Seq<char>)>,
    ctx_inner: Seq<(Seq<char>, Seq<char>)>,
    headers: Seq<(Seq<char>, Seq<u8>)>,
    elapsed_outer: u128,
    elapsed_inner: u128,
    result: Result<ResponseMetaV, E>,
)
    ensures
        ({
            let inner = call_decision::<E>(ctx_inner, headers, elapsed_inner, result);
            let outer = call_decision::<E>(ctx_outer, headers, elapsed_outer, inner.0);
            &&& outer.0 == result
            &&& result is Ok ==> {
                &&& inner.1 == Some(record_of(ctx_inner, headers, elapsed_inner, result->Ok_0))
                &&& outer.1 == Some(record_of(ctx_outer, headers, elapsed_outer, result->Ok_0))
            }
            &&& result is Err ==> inner.1 is None && outer.1 is None
        }),
{
}

impl<S> SlogLoggerMiddleware<S> {
    /// The continuation of one request, run after the inner handler has
    /// completed: given the header snapshot taken before delegating, the
    /// elapsed milliseconds, and the inner outcome, it returns the outcome
    /// unchanged together with the record to emit — exactly one on success,
    /// none on error.
    pub fn on_complete<E>(
        &self,
        headers: &Vec<Header>,
        elapsed_ms: u128,
        result: Result<ResponseMeta, E>,
    ) -> (out: (Result<ResponseMeta, E>, Option<LogRecord>))
        ensures
            out.0 == result,
            (response_view(out.0), record_view(out.1)) == call_decision(
                self.logger@,
                headers.deep_view(),
                elapsed_ms,
                response_view(result),
            ),
    {
        match result {
            Err(e) => (Err(e), None),
            Ok(resp) => {
                let mut fields = clone_fields(&self.logger.fields);
                let mut i: usize = 0;
                proof {
                    assert(fields.deep_view() =~= self.logger@ + header_fields(
                        headers.deep_view().take(0),
                    ));
                }
                while i < headers.len()
                    invariant
                        i <= headers@.len(),
                        fields.deep_view() == self.logger@ + header_fields(
                            headers.deep_view().take(i as int),
                        ),
                    decreases headers@.len() - i,
                {
                    let g = derive_field(&headers[i]);
                    proof {
                        assert(g.deep_view() == header_fields(headers.deep_view())[i as int]);
                    }
                    let ghost prev = fields.deep_view();
                    let ghost prev_s = fields@;
                    fields.push(g);
                    proof {
                        assert(fields@ == prev_s.push(g));
                        assert forall|j: int| 0 <= j < prev.len() implies fields.deep_view()[j]
                            == prev[j] by {
                            assert(fields@[j] == prev_s[j]);
                        }
                        assert(fields.deep_view()[prev.len() as int] == g.deep_view());
                        let ctx = self.logger@;
                        let hv = headers.deep_view();
                        let target = ctx + header_fields(hv.take(i + 1));
                        assert(header_fields(hv.take(i + 1)).len() == i + 1);
                        assert forall|j: int| 0 <= j < fields.deep_view().len() implies
                            fields.deep_view()[j] == target[j] by {
                            if j < ctx.len() {
                                assert(prev[j] == ctx[j]);
                            } else if j < prev.len() {
                                let k = j - ctx.len();
                                assert(prev[j] == header_fields(hv.take(i as int))[k]);
                                assert(header_fields(hv.take(i as int))[k] == field_of_header(
                                    hv.take(i as int)[k],
                                ));
                                assert(header_fields(hv.take(i + 1))[k] == field_of_header(
                                    hv.take(i + 1)[k],
                                ));
                                assert(hv.take(i as int)[k] == hv[k]);
                                assert(hv.take(i + 1)[k] == hv[k]);
                            } else {
                                assert(j == prev.len());
                                assert(fields.deep_view()[j] == g.deep_view());
                                assert(header_fields(hv.take(i + 1))[i as int] == field_of_header(
                                    hv.take(i + 1)[i as int],
                                ));
                                assert(hv.take(i + 1)[i as int] == hv[i as int]);
                                assert(g.deep_view() == header_fields(hv)[i as int]);
                                assert(header_fields(hv)[i as int] == field_of_header(
                                    hv[i as int],
                                ));
                            }
                        }
                        assert(fields.deep_view() =~= self.logger@ + header_fields(
                            headers.deep_view().take(i + 1),
                        ));
                    }
                    i = i + 1;
                }
                proof {
                    assert(headers.deep_view().take(headers@.len() as int) =~= headers.deep_view());
                }
                let record = LogRecord {
                    message: "http request".to_owned(),
                    latency_ms: elapsed_ms,
                    method: resp.method.clone(),
                    path: resp.path.clone(),
                    status: resp.status,
                    fields,
                };
                proof {
                    assert(record@ == record_of(
                        self.logger@,
                        headers.deep_view(),
                        elapsed_ms,
                        resp@,
                    ));
                }
                (Ok(resp), Some(record))
            },
        }
    }
}

} // verus!
