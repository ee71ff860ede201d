use opentracingrust::Error;
use opentracingrust::ExtractFormat;
use opentracingrust::MapCarrier;
use opentracingrust::FinishedSpan;
use opentracingrust::InjectFormat;
use opentracingrust::NoopContext;
use opentracingrust::NoopTracer;
use opentracingrust::NullTracer;
use opentracingrust::ReporterAction;
use opentracingrust::ReporterEvent;
use opentracingrust::TagValue;
use opentracingrust::TextMapCarrier;
use opentracingrust::reporter_step;

#[test]
fn child_of_updates_trace_id() {
    let (tracer, _) = NoopTracer::new();
    let parent = tracer.span("test1");
    let mut span = tracer.span("test2");
    span.child_of(parent.context().clone());

    let inner_parent = parent.context().impl_context().unwrap();
    let inner_span = span.context().impl_context().unwrap();
    assert_eq!(inner_parent.trace_id, inner_span.trace_id);
}

#[test]
fn follows_updates_trace_id() {
    let (tracer, _) = NoopTracer::new();
    let parent = tracer.span("test1");
    let mut span = tracer.span("test2");
    span.follows(parent.context().clone());

    let inner_parent = parent.context().impl_context().unwrap();
    let inner_span = span.context().impl_context().unwrap();
    assert_eq!(inner_parent.trace_id, inner_span.trace_id);
}

#[test]
fn noop_extract_finds_nothing() {
    let (tracer, _) = NoopTracer::new();
    let mut map = TextMapCarrier::new();
    map.set("TraceID", "123");
    map.set("SpanID", "456");
    match tracer.extract(ExtractFormat::HttpHeaders, &map) {
        Ok(None) => {}
        other => panic!("Unexpected extraction result: {:?}", other),
    }
}

#[test]
fn noop_inject_writes_nothing() {
    let (tracer, _) = NoopTracer::new();
    let span = tracer.span("test");
    let mut map = TextMapCarrier::new();
    tracer
        .inject(span.context(), InjectFormat::HttpHeaders, &mut map)
        .unwrap();
    assert_eq!(0, map.items().len());
}

#[test]
fn null_extract_fails_with_message() {
    let (tracer, _) = NullTracer::new();
    let map = TextMapCarrier::new();
    match tracer.extract(ExtractFormat::HttpHeaders, &map) {
        Err(Error::Msg(m)) => assert_eq!(m, "NullTracer cannot extract contexts"),
        other => panic!("Unexpected extraction result: {:?}", other),
    }
}

#[test]
fn null_inject_fails_with_message() {
    let (tracer, _) = NullTracer::new();
    let span = tracer.span("test");
    let mut map = TextMapCarrier::new();
    match tracer.inject(span.context(), InjectFormat::TextMap, &mut map) {
        Err(Error::Msg(m)) => assert_eq!(m, "NullTracer cannot inject contexts"),
        other => panic!("Unexpected injection result: {:?}", other),
    }
}

#[test]
fn fail_spans() {
    let (tracer, receiver) = NoopTracer::new();
    let mut span = tracer.span("test");
    // the failing operation's message, kind and detail all read "SomeError"
    span.fail_span("SomeError", "SomeError", "SomeError");
    span.finish().unwrap();
    let span = receiver.recv().unwrap();
    match span.tags().get("error").unwrap() {
        TagValue::Boolean(_) => (),
        _ => panic!("Error tag not set"),
    }
    let logs = span.logs();
    assert_eq!(1, logs.len());
    let mut logs: Vec<(String, String)> = logs[0]
        .iter()
        .iter()
        .map(|p| (p.0.clone(), format!("{:?}", p.1)))
        .collect();
    logs.sort_by_key(|&(ref k, _)| k.clone());
    assert_eq!(
        logs,
        [
            (
                String::from("error.kind"),
                String::from(r#"String("SomeError")"#)
            ),
            (
                String::from("error.object"),
                String::from(r#"String("SomeError")"#)
            ),
            (String::from("event"), String::from(r#"String("error")"#)),
            (
                String::from("message"),
                String::from(r#"String("SomeError")"#)
            ),
        ]
    );
}

#[test]
fn reporter_step_delivers_while_running() {
    let (tracer, receiver) = NoopTracer::new();
    tracer.span("test").finish().unwrap();
    let span = receiver.recv().unwrap();
    match reporter_step(false, ReporterEvent::Received(span)) {
        ReporterAction::Deliver(delivered) => assert_eq!(delivered.name(), "test"),
        _ => panic!("A received span must be delivered"),
    }
}

#[test]
fn reporter_step_polls_on_timeout() {
    match reporter_step(false, ReporterEvent::<NoopContext>::TimedOut) {
        ReporterAction::Poll => {}
        _ => panic!("A timeout while running must poll again"),
    }
}

#[test]
fn reporter_step_halts_once_stopped() {
    let (tracer, receiver) = NoopTracer::new();
    tracer.span("late").finish().unwrap();
    let span: FinishedSpan<NoopContext> = receiver.recv().unwrap();
    match reporter_step(true, ReporterEvent::Received(span)) {
        ReporterAction::Halt => {}
        _ => panic!("A stopped reporter must halt"),
    }
}

#[test]
fn noop_report_discards() {
    let (tracer, receiver) = NoopTracer::new();
    tracer.span("test").finish().unwrap();
    let span = receiver.recv().unwrap();
    NoopTracer::report(span);
}
