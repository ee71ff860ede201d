use opentracingrust::BaggageItem;
use opentracingrust::ImplContext;
use opentracingrust::ImplContextBox;
use opentracingrust::Log;
use opentracingrust::LogValue;
use opentracingrust::SpanContext;
use opentracingrust::SpanReference;
use opentracingrust::SpanReferenceAware;
use opentracingrust::SpanTags;
use opentracingrust::TagValue;

#[derive(Debug, Clone)]
struct TestContext {
    pub id: String,
}

impl SpanReferenceAware for TestContext {
    fn reference_span(&mut self, _: &SpanReference<ImplContextBox<Self>>) {}
    fn duplicate(&self) -> Self {
        self.clone()
    }
}

fn now_nanos() -> u64 {
    std::time::SystemTime::now()
        .duration_since(std::time::UNIX_EPOCH)
        .unwrap()
        .as_nanos() as u64
}

#[test]
fn clone_span_context() {
    let clone = {
        let inner = ImplContextBox::new(TestContext { id: "A".to_owned() });
        let context = SpanContext::new(inner);
        context.clone()
    };
    let format = clone.debug_text();
    assert_eq!(format, "SpanContext { inner: Box<ImplContext>, baggage: {} }");
}

#[test]
fn debug_formatting() {
    let mut context = SpanContext::new(ImplContextBox::new(TestContext { id: "A".to_owned() }));
    context.set_baggage_item(String::from("key"), String::from("value"));
    let format = context.debug_text();
    assert_eq!(
        format,
        r#"SpanContext { inner: Box<ImplContext>, baggage: {"key": "value"} }"#
    );
}

#[test]
fn extract_implementation_context() {
    let inner = ImplContextBox::new(TestContext {
        id: "some-id".to_owned(),
    });
    let context = SpanContext::new(inner);
    match context.impl_context() {
        Some(ctx) => assert_eq!(ctx.id, "some-id"),
        None => panic!("Failed to downcast context"),
    }
}

#[test]
fn set_baggage_item() {
    let inner = ImplContextBox::new(TestContext {
        id: "some-id".to_owned(),
    });
    let mut context = SpanContext::new(inner);
    context.set_baggage_item(String::from("key"), String::from("value"));
    let baggage: Vec<(String, String)> = context
        .baggage_items()
        .iter()
        .map(|b| (b.key().to_string(), b.value().to_string()))
        .collect();
    let expected = vec![(String::from("key"), String::from("value"))];
    assert_eq!(baggage, expected);
}

#[test]
fn clone_context() {
    let clone = {
        let context = ImplContextBox::new(TestContext {
            id: "ABC".to_owned(),
        });
        context.duplicate()
    };
    let inner = clone.impl_context();
    assert_eq!(inner.id, "ABC");
}

#[test]
fn unwrap_context() {
    let context = ImplContextBox::new(TestContext {
        id: "ABC".to_owned(),
    });
    let inner = context.impl_context();
    assert_eq!(inner.id, "ABC");
}

#[test]
fn from_str() {
    let item = BaggageItem::new("key", "value");
    assert_eq!(item.key(), "key");
    assert_eq!(item.value(), "value");
}

#[test]
fn from_string() {
    let item = BaggageItem::new(String::from("key").as_str(), String::from("value").as_str());
    assert_eq!(item.key(), "key");
    assert_eq!(item.value(), "value");
}

#[test]
fn add_field() {
    let log = Log::new().log("key", LogValue::String(String::from("value")));
    let entries: Vec<(&String, &LogValue)> = log.iter().iter().map(|p| (&p.0, &p.1)).collect();
    assert_eq!(
        entries,
        [(
            &String::from("key"),
            &LogValue::String(String::from("value"))
        )]
    );
}

#[test]
fn defults_to_no_time() {
    match Log::new().timestamp() {
        None => (),
        _ => panic!("Time should not be set"),
    }
}

#[test]
fn set_default_timestamp() {
    let start = now_nanos();
    let mut log = Log::new();
    log.at_or_now();
    let time = log.timestamp().unwrap();
    let duration = time - start;
    if duration > 100 * 1_000_000 {
        panic!("Log timestamp too far from expected time");
    }
}

#[test]
fn set_log_timestamp() {
    let time = now_nanos();
    let log = Log::new().at(time);
    assert_eq!(time, log.timestamp().unwrap());
}

#[test]
fn get_missing_tag() {
    let tags = SpanTags::new();
    match tags.get("key") {
        Some(_) => panic!("Expected no tag"),
        None => {}
    }
}

#[test]
fn iterate_over_tags() {
    let mut tags = SpanTags::new();
    tags.tag("key", TagValue::Integer(42));
    for (key, value) in tags.iter() {
        assert_eq!(key, "key");
        match value {
            TagValue::Integer(i) => assert_eq!(*i, 42),
            _ => panic!("Invalid value type"),
        }
    }
}

#[test]
fn set_tag() {
    let mut tags = SpanTags::new();
    tags.tag("key", TagValue::Integer(42));
    match tags.get("key") {
        Some(TagValue::Integer(i)) => assert_eq!(*i, 42),
        Some(_) => panic!("Invalid value type"),
        None => panic!("Tag not found"),
    }
}

#[test]
fn tags_iterate_in_sorted_key_order() {
    let mut tags = SpanTags::new();
    tags.tag("b", TagValue::Integer(2));
    tags.tag("a", TagValue::Integer(1));
    tags.tag("c", TagValue::Integer(3));
    let keys: Vec<&str> = tags.iter().iter().map(|p| p.0.as_str()).collect();
    assert_eq!(keys, ["a", "b", "c"]);
}
