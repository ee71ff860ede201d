use crossbeam_channel::unbounded;

use opentracingrust::Error;
use opentracingrust::ExtractFormat;
use opentracingrust::ImplContextBox;
use opentracingrust::InjectFormat;
use opentracingrust::MapCarrier;
use opentracingrust::Span;
use opentracingrust::SpanContext;
use opentracingrust::SpanReference;
use opentracingrust::SpanReferenceAware;
use opentracingrust::SpanSender;
use opentracingrust::StartOptions;
use opentracingrust::TextMapCarrier;
use opentracingrust::Tracer;
use opentracingrust::TracerInterface;

#[derive(Debug, Clone)]
struct TestContext {
    pub name: String,
}

impl SpanReferenceAware for TestContext {
    fn reference_span(&mut self, _: &SpanReference<ImplContextBox<Self>>) {}
    fn duplicate(&self) -> Self {
        self.clone()
    }
}

type Ctx = ImplContextBox<TestContext>;

struct TestTracer {
    sender: SpanSender<Ctx>,
}

impl TracerInterface for TestTracer {
    type Context = Ctx;

    fn extract<M: MapCarrier>(
        &self,
        fmt: ExtractFormat,
        carrier: &M,
    ) -> Result<Option<SpanContext<Ctx>>, Error<Ctx>> {
        match fmt {
            ExtractFormat::HttpHeaders => {
                let mut context = SpanContext::new(ImplContextBox::new(TestContext {
                    name: carrier.get("Span-Name").unwrap(),
                }));
                for (key, value) in &carrier.items() {
                    if key.starts_with("Baggage-") {
                        context.set_baggage_item(String::from(&key[8..]), value.clone());
                    }
                }
                Ok(Some(context))
            }
            ExtractFormat::TextMap => {
                let mut context = SpanContext::new(ImplContextBox::new(TestContext {
                    name: carrier.get("span-name").unwrap(),
                }));
                for (key, value) in &carrier.items() {
                    if key.starts_with("baggage-") {
                        context.set_baggage_item(String::from(&key[8..]), value.clone());
                    }
                }
                Ok(Some(context))
            }
            ExtractFormat::Binary => panic!("Binary extraction is not wired in this test tracer"),
        }
    }

    fn inject<M: MapCarrier>(
        &self,
        context: &SpanContext<Ctx>,
        fmt: InjectFormat,
        carrier: &mut M,
    ) -> Result<(), Error<Ctx>> {
        match fmt {
            InjectFormat::HttpHeaders => {
                let inner = context.impl_context().unwrap();
                carrier.set("Trace-Id", "123");
                carrier.set("Span-Name", &inner.name);
                for item in context.baggage_items() {
                    let key = format!("Baggage-{}", item.key());
                    carrier.set(&key, item.value());
                }
                Ok(())
            }
            InjectFormat::TextMap => {
                let inner = context.impl_context().unwrap();
                carrier.set("trace-id", "123");
                carrier.set("span-name", &inner.name);
                for item in context.baggage_items() {
                    let key = format!("baggage-{}", item.key());
                    carrier.set(&key, item.value());
                }
                Ok(())
            }
            InjectFormat::Binary => panic!("Binary injection is not wired in this test tracer"),
        }
    }

    fn span(&self, name: &str, options: StartOptions<Ctx>) -> Span<Ctx> {
        let context = SpanContext::new(ImplContextBox::new(TestContext {
            name: String::from("test-span"),
        }));
        Span::new(name, context, options, self.sender.clone())
    }
}

#[test]
fn create_span() {
    let (sender, _) = unbounded();
    let tracer = Tracer::new(TestTracer { sender });
    let _span = tracer.span("test-span");
}

#[test]
fn extract_http_headers() {
    let mut map = TextMapCarrier::new();
    map.set("Span-Name", "2");
    map.set("Baggage-a", "b");
    let (sender, _) = unbounded();
    let tracer = Tracer::new(TestTracer { sender });
    let context = tracer
        .extract(ExtractFormat::HttpHeaders, &map)
        .unwrap()
        .unwrap();
    let inner = context.impl_context().unwrap();
    assert_eq!("2", inner.name);
    let items: Vec<(String, String)> = context
        .baggage_items()
        .iter()
        .map(|b| (b.key().to_string(), b.value().to_string()))
        .collect();
    assert_eq!(items, vec![(String::from("a"), String::from("b"))]);
}

#[test]
fn extract_textmap() {
    let mut map = TextMapCarrier::new();
    map.set("span-name", "2");
    map.set("baggage-a", "b");
    let (sender, _) = unbounded();
    let tracer = Tracer::new(TestTracer { sender });
    let context = tracer
        .extract(ExtractFormat::TextMap, &map)
        .unwrap()
        .unwrap();
    let inner = context.impl_context().unwrap();
    assert_eq!("2", inner.name);
    let items: Vec<(String, String)> = context
        .baggage_items()
        .iter()
        .map(|b| (b.key().to_string(), b.value().to_string()))
        .collect();
    assert_eq!(items, vec![(String::from("a"), String::from("b"))]);
}

#[test]
fn inject_http_headers() {
    let (sender, _) = unbounded();
    let tracer = Tracer::new(TestTracer { sender });
    let mut span = tracer.span("test-span");
    span.set_baggage_item("a", "b");

    let mut map = TextMapCarrier::new();
    tracer
        .inject(span.context(), InjectFormat::HttpHeaders, &mut map)
        .unwrap();

    let mut items: Vec<(String, String)> = map
        .items()
        .iter()
        .map(|p| (p.0.clone(), p.1.clone()))
        .collect();
    items.sort();
    assert_eq!(
        items,
        [
            (String::from("Baggage-a"), String::from("b")),
            (String::from("Span-Name"), String::from("test-span")),
            (String::from("Trace-Id"), String::from("123"))
        ]
    );
}

#[test]
fn inject_textmap() {
    let (sender, _) = unbounded();
    let tracer = Tracer::new(TestTracer { sender });
    let mut span = tracer.span("test-span");
    span.set_baggage_item("a", "b");

    let mut map = TextMapCarrier::new();
    tracer
        .inject(span.context(), InjectFormat::TextMap, &mut map)
        .unwrap();

    let mut items: Vec<(String, String)> = map
        .items()
        .iter()
        .map(|p| (p.0.clone(), p.1.clone()))
        .collect();
    items.sort();
    assert_eq!(
        items,
        [
            (String::from("baggage-a"), String::from("b")),
            (String::from("span-name"), String::from("test-span")),
            (String::from("trace-id"), String::from("123"))
        ]
    );
}
