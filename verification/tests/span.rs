use crossbeam_channel::unbounded;

use opentracingrust::ImplContextBox;
use opentracingrust::Span;
use opentracingrust::SpanContext;
use opentracingrust::SpanReceiver;
use opentracingrust::SpanReference;
use opentracingrust::SpanReferenceAware;
use opentracingrust::StartOptions;
use opentracingrust::TagValue;

#[derive(Debug, Clone)]
struct TestContext {
    pub id: String,
}

impl SpanReferenceAware for TestContext {
    fn reference_span(&mut self, _: &SpanReference<ImplContextBox<Self>>) {}
    fn duplicate(&self) -> Self {
        self.clone()
    }
}

type TestSpan = Span<ImplContextBox<TestContext>>;
type TestReceiver = SpanReceiver<ImplContextBox<TestContext>>;

fn make_span(options: StartOptions<ImplContextBox<TestContext>>) -> (TestSpan, TestReceiver) {
    let (sender, receiver) = unbounded();
    let context = SpanContext::new(ImplContextBox::new(TestContext {
        id: String::from("test-id"),
    }));
    (Span::new("test-span", context, options, sender), receiver)
}

fn now_nanos() -> u64 {
    std::time::SystemTime::now()
        .duration_since(std::time::UNIX_EPOCH)
        .unwrap()
        .as_nanos() as u64
}

#[test]
fn start_span_on_creation() {
    let (_span, _) = make_span(StartOptions::default());
}

#[test]
fn send_span_on_finish() {
    let (sender, receiver) = unbounded();
    let context = SpanContext::new(ImplContextBox::new(TestContext {
        id: String::from("test-id"),
    }));
    let options = StartOptions::default();
    let span: TestSpan = Span::new("test-span", context, options, sender);
    span.finish().unwrap();
    receiver.recv().unwrap();
}

#[test]
fn set_span_name() {
    let (sender, _) = unbounded();
    let context = SpanContext::new(ImplContextBox::new(TestContext {
        id: String::from("test-id"),
    }));
    let options = StartOptions::default();
    let mut span = Span::new("test-span", context, options, sender);
    span.set_operation_name("some-other-name");
    assert_eq!("some-other-name", span.operation_name());
}

#[test]
fn span_child_of_another() {
    let (sender, _) = unbounded();
    let context = SpanContext::new(ImplContextBox::new(TestContext {
        id: String::from("test-id-1"),
    }));
    let options = StartOptions::default();
    let mut span = Span::new("test-span", context, options, sender);
    let mut context = SpanContext::new(ImplContextBox::new(TestContext {
        id: String::from("test-id-2"),
    }));
    context.set_baggage_item(String::from("a"), String::from("b"));
    span.child_of(context.clone());
    match span.references().get(0).unwrap() {
        SpanReference::ChildOf(context) => {
            let inner = context.impl_context().unwrap();
            assert_eq!(inner.id, "test-id-2");
        }
        _ => panic!("Invalid span reference"),
    }
    let item = span.get_baggage_item("a").unwrap();
    assert_eq!(item, "b");
}

#[test]
fn span_follows_another() {
    let (sender, _) = unbounded();
    let context = SpanContext::new(ImplContextBox::new(TestContext {
        id: String::from("test-id-1"),
    }));
    let options = StartOptions::default();
    let mut span = Span::new("test-span", context, options, sender);
    let mut context = SpanContext::new(ImplContextBox::new(TestContext {
        id: String::from("test-id-2"),
    }));
    context.set_baggage_item(String::from("a"), String::from("b"));
    span.follows(context.clone());
    match span.references().get(0).unwrap() {
        SpanReference::FollowsFrom(context) => {
            let inner = context.impl_context().unwrap();
            assert_eq!(inner.id, "test-id-2");
        }
        _ => panic!("Invalid span reference"),
    }
    let item = span.get_baggage_item("a").unwrap();
    assert_eq!(item, "b");
}

#[test]
fn child_of() {
    let parent = SpanContext::new(ImplContextBox::new(TestContext {
        id: String::from("test-id"),
    }));
    let options = StartOptions::default().child_of(parent);
    let (span, _) = make_span(options);
    match span.references().get(0) {
        Some(SpanReference::ChildOf(_)) => (),
        Some(_) => panic!("Invalid span reference"),
        None => panic!("Missing span reference"),
    }
}

#[test]
fn follows() {
    let parent = SpanContext::new(ImplContextBox::new(TestContext {
        id: String::from("test-id"),
    }));
    let options = StartOptions::default().follows(parent);
    let (span, _) = make_span(options);
    match span.references().get(0) {
        Some(SpanReference::FollowsFrom(_)) => (),
        Some(_) => panic!("Invalid span reference"),
        None => panic!("Missing span reference"),
    }
}

#[test]
fn multi_refs() {
    let parent = SpanContext::new(ImplContextBox::new(TestContext {
        id: String::from("test-id"),
    }));
    let options = StartOptions::default()
        .child_of(parent.clone())
        .follows(parent);
    let (span, _) = make_span(options);
    match span.references().get(0) {
        Some(SpanReference::ChildOf(_)) => (),
        Some(_) => panic!("Invalid span reference"),
        None => panic!("Missing span reference"),
    }
    match span.references().get(1) {
        Some(SpanReference::FollowsFrom(_)) => (),
        Some(_) => panic!("Invalid span reference"),
        None => panic!("Missing span reference"),
    }
}

#[test]
fn add_generic_tag() {
    let (mut span, receiver) = make_span(StartOptions::default());
    span.tag("key", TagValue::String(String::from("value")));
    span.finish().unwrap();
    let span = receiver.recv().unwrap();
    match span.tags().get("key") {
        Some(TagValue::String(v)) => assert_eq!(v, "value"),
        Some(_) => panic!("Invalid tag type"),
        None => panic!("Tag not found"),
    }
}

#[test]
fn add_bool_tag() {
    let (mut span, receiver) = make_span(StartOptions::default());
    span.tag("key", TagValue::Boolean(true));
    span.finish().unwrap();
    let span = receiver.recv().unwrap();
    match span.tags().get("key") {
        Some(TagValue::Boolean(v)) => assert_eq!(*v, true),
        Some(_) => panic!("Invalid tag type"),
        None => panic!("Tag not found"),
    }
}

#[test]
fn add_float_tag() {
    let (mut span, receiver) = make_span(StartOptions::default());
    span.tag("key", TagValue::Float(format!("{}", 1.2)));
    span.finish().unwrap();
    let span = receiver.recv().unwrap();
    match span.tags().get("key") {
        Some(TagValue::Float(v)) => assert_eq!(v, &format!("{}", 1.2)),
        Some(_) => panic!("Invalid tag type"),
        None => panic!("Tag not found"),
    }
}

#[test]
fn add_integer_tag() {
    let (mut span, receiver) = make_span(StartOptions::default());
    span.tag("key", TagValue::Integer(-2));
    span.finish().unwrap();
    let span = receiver.recv().unwrap();
    match span.tags().get("key") {
        Some(TagValue::Integer(v)) => assert_eq!(*v, -2),
        Some(_) => panic!("Invalid tag type"),
        None => panic!("Tag not found"),
    }
}

#[test]
fn add_str_tag() {
    let (mut span, receiver) = make_span(StartOptions::default());
    span.tag("key", TagValue::String(String::from("value")));
    span.finish().unwrap();
    let span = receiver.recv().unwrap();
    match span.tags().get("key") {
        Some(TagValue::String(v)) => assert_eq!(v, "value"),
        Some(_) => panic!("Invalid tag type"),
        None => panic!("Tag not found"),
    }
}

#[test]
fn add_string_tag() {
    let (mut span, receiver) = make_span(StartOptions::default());
    span.tag("key", TagValue::String(String::from("value")));
    span.finish().unwrap();
    let span = receiver.recv().unwrap();
    match span.tags().get("key") {
        Some(TagValue::String(v)) => assert_eq!(v, "value"),
        Some(_) => panic!("Invalid tag type"),
        None => panic!("Tag not found"),
    }
}

#[test]
fn finish_span_on_finish() {
    // The clock cannot be pinned to a fixed value, so check the finish
    // time lies in the range [now, now + ten minutes].
    let about_now = now_nanos();
    let options = StartOptions::default();
    let (span, receiver) = make_span(options);
    let about_soon = about_now + 600 * 1_000_000_000;
    span.finish().unwrap();
    let span = receiver.recv().unwrap();
    assert!(about_now <= span.finish_time(), "Finish time too old");
    assert!(span.finish_time() <= about_soon, "Finish time too new");
}

#[test]
fn finish_span_at_finish_time() {
    let in_ten_minutes = now_nanos() + 600 * 1_000_000_000;
    let options = StartOptions::default();
    let (mut span, receiver) = make_span(options);
    span.finish_time(in_ten_minutes);
    span.finish().unwrap();
    let span = receiver.recv().unwrap();
    assert_eq!(span.finish_time(), in_ten_minutes);
}

#[test]
fn starts_now_by_default() {
    // The clock cannot be pinned to a fixed value, so check the start
    // time lies in the range [now, now + ten minutes].
    let about_now = now_nanos();
    let options = StartOptions::default();
    let (span, receiver) = make_span(options);
    let about_soon = about_now + 600 * 1_000_000_000;
    span.finish().unwrap();
    let span = receiver.recv().unwrap();
    assert!(about_now <= span.start_time(), "Start time too old");
    assert!(span.start_time() <= about_soon, "Start time too new");
}

#[test]
fn start_time_set() {
    let ten_minutes_ago = now_nanos() - 600 * 1_000_000_000;
    let options = StartOptions::default().start_time(ten_minutes_ago);
    let (span, receiver) = make_span(options);
    span.finish().unwrap();
    let span = receiver.recv().unwrap();
    assert_eq!(span.start_time(), ten_minutes_ago);
}

#[test]
fn send_error_returns_span() {
    let (sender, receiver) = unbounded();
    let context = SpanContext::new(ImplContextBox::new(TestContext {
        id: String::from("test-id"),
    }));
    let span: TestSpan = Span::new("kept-span", context, StartOptions::default(), sender);
    drop(receiver);
    match span.finish() {
        Err(opentracingrust::Error::SendError(finished)) => {
            assert_eq!(finished.name(), "kept-span");
        }
        Err(err) => panic!("Unexpected error: {:?}", err),
        Ok(()) => panic!("Expected the send to fail"),
    }
}

#[test]
fn baggage_propagates_to_children() {
    let (sender, _) = unbounded::<opentracingrust::FinishedSpan<ImplContextBox<TestContext>>>();
    let mut parent = SpanContext::new(ImplContextBox::new(TestContext {
        id: String::from("parent"),
    }));
    parent.set_baggage_item(String::from("a"), String::from("b"));

    let child_context = SpanContext::new(ImplContextBox::new(TestContext {
        id: String::from("child"),
    }));
    let mut child = Span::new(
        "child",
        child_context,
        StartOptions::default(),
        sender.clone(),
    );
    child.child_of(parent.clone());
    assert_eq!("b", child.get_baggage_item("a").unwrap());

    let follower_context = SpanContext::new(ImplContextBox::new(TestContext {
        id: String::from("follower"),
    }));
    let mut follower = Span::new("follower", follower_context, StartOptions::default(), sender);
    follower.follows(parent.clone());
    assert_eq!("b", follower.get_baggage_item("a").unwrap());
}

#[test]
fn baggage_does_not_propagate_backwards() {
    let (sender, _) = unbounded::<opentracingrust::FinishedSpan<ImplContextBox<TestContext>>>();
    let parent = SpanContext::new(ImplContextBox::new(TestContext {
        id: String::from("parent"),
    }));

    let child_context = SpanContext::new(ImplContextBox::new(TestContext {
        id: String::from("child"),
    }));
    let mut child = Span::new("child", child_context, StartOptions::default(), sender);
    child.child_of(parent.clone());
    child.set_baggage_item("late", "value");

    assert_eq!("value", child.get_baggage_item("late").unwrap());
    assert!(parent.get_baggage_item("late").is_none());
}
