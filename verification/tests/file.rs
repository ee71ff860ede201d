use opentracingrust::Error;
use opentracingrust::ExtractFormat;
use opentracingrust::FileContext;
use opentracingrust::FileTracer;
use opentracingrust::FileTracerContext;
use opentracingrust::ImplContextBox;
use opentracingrust::InjectFormat;
use opentracingrust::Log;
use opentracingrust::LogValue;
use opentracingrust::MapCarrier;
use opentracingrust::SpanContext;
use opentracingrust::SpanReceiver;
use opentracingrust::TagValue;
use opentracingrust::Tracer;
use opentracingrust::TextMapCarrier;

fn make_context(trace_id: u64, span_id: u64) -> SpanContext<FileContext> {
    SpanContext::new(ImplContextBox::new(FileTracerContext { trace_id, span_id }))
}

fn make_tracer() -> (Tracer<FileTracer>, SpanReceiver<FileContext>) {
    FileTracer::new()
}

#[test]
fn fails_if_invalid_span_id() {
    let (tracer, _) = make_tracer();
    let mut map = TextMapCarrier::new();
    map.set("TraceID", "123");
    map.set("SpanID", "abc");
    let context = tracer.extract(ExtractFormat::HttpHeaders, &map);
    match context {
        Err(Error::ParseIntError(_)) => {}
        Err(err) => panic!("Unexpected error: {:?}", err),
        Ok(success) => panic!("Unexpected ok: {:?}", success),
    }
}

#[test]
fn fails_if_invalid_trace_id() {
    let (tracer, _) = make_tracer();
    let mut map = TextMapCarrier::new();
    map.set("TraceID", "abc");
    let context = tracer.extract(ExtractFormat::HttpHeaders, &map);
    match context {
        Err(Error::ParseIntError(_)) => {}
        Err(err) => panic!("Unexpected error: {:?}", err),
        Ok(success) => panic!("Unexpected ok: {:?}", success),
    }
}

#[test]
fn returns_none_without_trace_id() {
    let (tracer, _) = make_tracer();
    let map = TextMapCarrier::new();
    let context = tracer.extract(ExtractFormat::HttpHeaders, &map);
    match context {
        Err(err) => panic!("Unexpected error: {:?}", err),
        Ok(Some(success)) => panic!("Unexpected some: {:?}", success),
        Ok(None) => {}
    }
}

#[test]
fn returns_none_without_span_id() {
    let (tracer, _) = make_tracer();
    let mut map = TextMapCarrier::new();
    map.set("TraceID", "123");
    let context = tracer.extract(ExtractFormat::HttpHeaders, &map);
    match context {
        Err(err) => panic!("Unexpected error: {:?}", err),
        Ok(Some(success)) => panic!("Unexpected some: {:?}", success),
        Ok(None) => {}
    }
}

#[test]
fn http_headers() {
    let (tracer, _) = make_tracer();
    let mut map = TextMapCarrier::new();
    map.set("TraceID", "1234");
    map.set("SpanID", "5678");
    map.set("Baggage-Item1", "ab");
    map.set("Baggage-Item2", "cd");

    let context = tracer
        .extract(ExtractFormat::HttpHeaders, &map)
        .unwrap()
        .unwrap();
    let inner = context.impl_context().unwrap();

    assert_eq!(1234, inner.trace_id);
    assert_eq!(5678, inner.span_id);
    assert_eq!("ab", context.get_baggage_item("Baggage-Item1").unwrap());
    assert_eq!("cd", context.get_baggage_item("Baggage-Item2").unwrap());
}

#[test]
fn file_http_headers() {
    let (tracer, _) = make_tracer();
    let mut context = make_context(1234, 5678);
    let mut map = TextMapCarrier::new();
    context.set_baggage_item(String::from("Item1"), String::from("ab"));
    context.set_baggage_item(String::from("Item2"), String::from("cd"));
    tracer
        .inject(&context, InjectFormat::HttpHeaders, &mut map)
        .unwrap();

    assert_eq!("1234", map.get("TraceID").unwrap());
    assert_eq!("5678", map.get("SpanID").unwrap());
    assert_eq!("ab", map.get("Baggage-Item1").unwrap());
    assert_eq!("cd", map.get("Baggage-Item2").unwrap());
}

#[test]
fn text_map() {
    let (tracer, _) = make_tracer();
    let mut context = make_context(1234, 5678);
    let mut map = TextMapCarrier::new();
    context.set_baggage_item(String::from("Item1"), String::from("ab"));
    context.set_baggage_item(String::from("Item2"), String::from("cd"));
    tracer
        .inject(&context, InjectFormat::TextMap, &mut map)
        .unwrap();

    assert_eq!("1234", map.get("TraceID").unwrap());
    assert_eq!("5678", map.get("SpanID").unwrap());
    assert_eq!("ab", map.get("Baggage-Item1").unwrap());
    assert_eq!("cd", map.get("Baggage-Item2").unwrap());
}

#[test]
fn create() {
    let (tracer, _) = make_tracer();
    let span = tracer.span("test1");
    let context = span.context().impl_context();
    context.unwrap();
}

#[test]
fn write() {
    let (tracer, receiver) = make_tracer();
    let mut span = tracer.span("test1");
    span.child_of(make_context(123456, 123));
    span.follows(make_context(123456, 456));
    span.set_baggage_item("TestKey", "Test Value");
    span.tag("test.bool", TagValue::Boolean(true));
    span.tag("test.float", TagValue::Float(format!("{}", 0.5)));
    span.tag("test.int", TagValue::Integer(5));
    span.tag("test.string", TagValue::String(String::from("hello")));

    span.log(
        Log::new()
            .log("bool", LogValue::Boolean(false))
            .log("float", LogValue::Float(format!("{}", 0.66)))
            .at(123456 * 1_000_000_000),
    );
    span.log(
        Log::new()
            .log("int", LogValue::Integer(66))
            .log("string", LogValue::String(String::from("message")))
            .at(654321 * 1_000_000_000),
    );
    span.finish().unwrap();

    let span = receiver.recv().unwrap();
    let buffer = FileTracer::render_trace(&span);

    let mut buffer = buffer.split('\n');
    assert_eq!(buffer.next().unwrap(), "==>> Trace ID: 123456");

    let buffer: Vec<&str> = buffer.skip(2).collect();
    assert_eq!(
        buffer,
        [
            "===> References: [",
            "===>   * Child of span ID: 123",
            "===>   * Follows from span ID: 456",
            "===> ]",
            "===> Baggage items: [",
            "===>   * TestKey: Test Value",
            "===> ]",
            "===> Tags: [",
            "===>   * test.bool: true",
            "===>   * test.float: 0.5",
            "===>   * test.int: 5",
            "===>   * test.string: hello",
            "===> ]",
            "===> Logs: [",
            "===>   - 123456:",
            "===>     * bool: false",
            "===>     * float: 0.66",
            "===>   - 654321:",
            "===>     * int: 66",
            "===>     * string: message",
            "===> ]",
            ""
        ]
    );
}

#[test]
fn duration_renders_fractional_seconds() {
    let (tracer, receiver) = make_tracer();
    let start: u64 = 1_000_000_000_000;
    let options = opentracingrust::StartOptions::default().start_time(start);
    let mut span = tracer.span_with_options("timed", options);
    span.finish_time(start + 500_000_000);
    span.finish().unwrap();
    let finished = receiver.recv().unwrap();
    let text = FileTracer::render_trace(&finished);
    let duration_line = text.split('\n').nth(2).unwrap().to_string();
    assert_eq!(duration_line, "===> Span Duration: 0.5");
}

#[test]
fn whole_second_duration_has_no_fraction() {
    let (tracer, receiver) = make_tracer();
    let start: u64 = 5_000_000_000;
    let options = opentracingrust::StartOptions::default().start_time(start);
    let mut span = tracer.span_with_options("timed", options);
    span.finish_time(start + 2_000_000_000);
    span.finish().unwrap();
    let finished = receiver.recv().unwrap();
    let text = FileTracer::render_trace(&finished);
    let duration_line = text.split('\n').nth(2).unwrap().to_string();
    assert_eq!(duration_line, "===> Span Duration: 2");
}

#[test]
fn negative_integer_tag_renders_with_sign() {
    let (tracer, receiver) = make_tracer();
    let options = opentracingrust::StartOptions::default().start_time(1);
    let mut span = tracer.span_with_options("neg", options);
    span.finish_time(1);
    span.tag("n", TagValue::Integer(-7));
    span.finish().unwrap();
    let finished = receiver.recv().unwrap();
    let text = FileTracer::render_trace(&finished);
    assert!(text.contains("===>   * n: -7\n"));
}
