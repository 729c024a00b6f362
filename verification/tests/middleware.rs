use slogger::middleware::{LogContext, SlogLogger};
use slogger::record::{Header, ResponseMeta};

fn header(name: &str, value: &[u8]) -> Header {
    Header { name: name.to_string(), value: value.to_vec() }
}

fn response(method: &str, path: &str, status: u16) -> ResponseMeta {
    ResponseMeta { method: method.to_string(), path: path.to_string(), status }
}

#[test]
fn success_emits_one_record() {
    let m = SlogLogger::new(LogContext::new()).new_transform(());
    let headers = vec![header("X-Test", b"hello")];
    let out = m.on_complete::<String>(&headers, 7, Ok(response("GET", "/index", 200)));
    let resp = out.0.expect("response must pass through");
    assert_eq!(resp.method, "GET");
    assert_eq!(resp.path, "/index");
    assert_eq!(resp.status, 200);
    let rec = out.1.expect("a success must emit exactly one record");
    assert_eq!(rec.message, "http request");
    assert_eq!(rec.latency_ms, 7);
    assert_eq!(rec.method, "GET");
    assert_eq!(rec.path, "/index");
    assert_eq!(rec.status, 200);
    assert_eq!(rec.fields.len(), 1);
}

#[test]
fn error_emits_no_record_and_error_is_identical() {
    let m = SlogLogger::new(LogContext::new()).new_transform(());
    let headers = vec![header("X-Test", b"hello")];
    let out = m.on_complete::<String>(&headers, 3, Err("boom".to_string()));
    assert!(out.1.is_none(), "an error must emit no record");
    assert_eq!(out.0.unwrap_err(), "boom");
}

#[test]
fn header_field_is_bound_with_its_text_value() {
    let m = SlogLogger::new(LogContext::new()).new_transform(());
    let headers = vec![header("X-Test", b"hello")];
    let out = m.on_complete::<String>(&headers, 0, Ok(response("GET", "/", 200)));
    let rec = out.1.unwrap();
    assert_eq!(rec.fields.len(), 1);
    assert_eq!(rec.fields[0].key, "X-Test");
    assert_eq!(rec.fields[0].value, "hello");
}

#[test]
fn invalid_header_value_is_bound_as_sentinel() {
    let m = SlogLogger::new(LogContext::new()).new_transform(());
    let headers = vec![header("X-Bin", &[0xFFu8, 0x00, 0x41])];
    let out = m.on_complete::<String>(&headers, 0, Ok(response("GET", "/", 200)));
    let rec = out.1.unwrap();
    assert_eq!(rec.fields[0].key, "X-Bin");
    assert_eq!(rec.fields[0].value, "[INVALID UTF-8]");
}

#[test]
fn fields_keep_header_order_after_context_fields() {
    let ctx = LogContext::new().with_field("app".to_string(), "demo".to_string());
    let m = SlogLogger::new(ctx).new_transform(());
    let headers = vec![header("A", b"1"), header("B", b"2"), header("A", b"3")];
    let out = m.on_complete::<String>(&headers, 0, Ok(response("POST", "/x", 201)));
    let rec = out.1.unwrap();
    let pairs: Vec<(String, String)> =
        rec.fields.iter().map(|f| (f.key.clone(), f.value.clone())).collect();
    assert_eq!(
        pairs,
        vec![
            ("app".to_string(), "demo".to_string()),
            ("A".to_string(), "1".to_string()),
            ("B".to_string(), "2".to_string()),
            ("A".to_string(), "3".to_string()),
        ]
    );
}

#[test]
fn concurrent_requests_do_not_share_fields() {
    let m = SlogLogger::new(LogContext::new()).new_transform(());
    let headers_a = vec![header("X-Req", b"a")];
    let headers_b = vec![header("X-Req", b"b")];
    let out_a = m.on_complete::<String>(&headers_a, 1, Ok(response("GET", "/a", 200)));
    let out_b = m.on_complete::<String>(&headers_b, 2, Ok(response("GET", "/b", 200)));
    let rec_a = out_a.1.unwrap();
    let rec_b = out_b.1.unwrap();
    assert_eq!(rec_a.fields.len(), 1);
    assert_eq!(rec_b.fields.len(), 1);
    assert_eq!(rec_a.fields[0].value, "a");
    assert_eq!(rec_b.fields[0].value, "b");
    assert_eq!(rec_a.path, "/a");
    assert_eq!(rec_b.path, "/b");
}

#[test]
fn many_requests_emit_one_record_each() {
    let m = SlogLogger::new(LogContext::new()).new_transform(());
    let mut emitted: usize = 0;
    for i in 0..100u32 {
        let headers = vec![header("X-N", i.to_string().as_bytes())];
        let out = m.on_complete::<String>(&headers, 0, Ok(response("GET", "/", 200)));
        let rec = out.1.unwrap();
        assert_eq!(rec.fields[0].value, i.to_string());
        emitted += 1;
    }
    assert_eq!(emitted, 100);
}

#[test]
fn double_wrap_emits_two_independent_records() {
    let inner_ctx = LogContext::new().with_field("layer".to_string(), "inner".to_string());
    let outer_ctx = LogContext::new().with_field("layer".to_string(), "outer".to_string());
    let inner = SlogLogger::new(inner_ctx).new_transform(());
    let outer = SlogLogger::new(outer_ctx).new_transform(());
    let headers = vec![header("X-Test", b"hello")];

    let inner_out = inner.on_complete::<String>(&headers, 5, Ok(response("GET", "/", 200)));
    let inner_rec = inner_out.1.expect("inner layer emits its record");
    let outer_out = outer.on_complete::<String>(&headers, 6, inner_out.0);
    let outer_rec = outer_out.1.expect("outer layer emits its record");

    assert_eq!(inner_rec.fields[0].value, "inner");
    assert_eq!(inner_rec.fields[1].value, "hello");
    assert_eq!(outer_rec.fields[0].value, "outer");
    assert_eq!(outer_rec.fields[1].value, "hello");
    assert_eq!(inner_rec.status, 200);
    assert_eq!(outer_rec.status, 200);
    assert!(outer_out.0.is_ok());
}

#[test]
fn double_wrap_error_passes_both_layers_silently() {
    let inner = SlogLogger::new(LogContext::new()).new_transform(());
    let outer = SlogLogger::new(LogContext::new()).new_transform(());
    let headers: Vec<Header> = Vec::new();
    let inner_out = inner.on_complete::<String>(&headers, 5, Err("nope".to_string()));
    assert!(inner_out.1.is_none());
    let outer_out = outer.on_complete::<String>(&headers, 6, inner_out.0);
    assert!(outer_out.1.is_none());
    assert_eq!(outer_out.0.unwrap_err(), "nope");
}
