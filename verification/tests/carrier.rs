use opentracingrust::MapCarrier;
use opentracingrust::TextMapCarrier;

#[test]
fn extract_keys() {
    let mut tree = TextMapCarrier::new();
    tree.set("aa", "d");
    assert_eq!(tree.get("aa").unwrap(), "d");
}

#[test]
fn find_keys() {
    let mut tree = TextMapCarrier::new();
    tree.set("aa", "d");
    tree.set("ab", "e");
    tree.set("bc", "f");

    let mut items = vec![];
    for (key, value) in &tree.items() {
        if key.starts_with("a") {
            items.push((key.clone(), value.clone()));
        }
    }
    items.sort();
    assert_eq!(
        items,
        [
            (String::from("aa"), String::from("d")),
            (String::from("ab"), String::from("e"))
        ]
    );
}

#[test]
fn inject_keys() {
    let mut tree = TextMapCarrier::new();
    tree.set("a", "d");
    tree.set("b", "e");
    tree.set("c", "f");
    assert_eq!("d", tree.get("a").unwrap());
    assert_eq!("e", tree.get("b").unwrap());
    assert_eq!("f", tree.get("c").unwrap());
}

#[test]
fn carrier_extract_keys() {
    let mut map = TextMapCarrier::new();
    map.set("aa", "d");
    assert_eq!(map.get("aa").unwrap(), "d");
}

#[test]
fn carrier_find_keys() {
    let mut map = TextMapCarrier::new();
    map.set("aa", "d");
    map.set("ab", "e");
    map.set("bc", "f");

    let mut items = vec![];
    for (key, value) in &map.items() {
        if key.starts_with("a") {
            items.push((key.clone(), value.clone()));
        }
    }
    items.sort();
    assert_eq!(
        items,
        [
            (String::from("aa"), String::from("d")),
            (String::from("ab"), String::from("e"))
        ]
    );
}

#[test]
fn carrier_inject_keys() {
    let mut map = TextMapCarrier::new();
    map.set("a", "d");
    map.set("b", "e");
    map.set("c", "f");
    assert_eq!("d", map.get("a").unwrap());
    assert_eq!("e", map.get("b").unwrap());
    assert_eq!("f", map.get("c").unwrap());
}

#[test]
fn carrier_overwrites_on_same_key() {
    let mut map = TextMapCarrier::new();
    map.set("a", "1");
    map.set("a", "2");
    assert_eq!("2", map.get("a").unwrap());
    assert_eq!(1, map.items().len());
}
