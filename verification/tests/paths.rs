use rillrate::provider::Col;
use rillrate::provider::EntryId;
use rillrate::provider::EntryType;
use rillrate::provider::Path;
use rillrate::provider::Row;
use rillrate::provider::StreamType;
use rillrate::provider::Timestamp;

#[test]
fn parse_and_render_round_trip() {
    let path = Path::parse("a.b.c").unwrap();
    assert_eq!(path.len(), 3);
    assert_eq!(path.get(0).as_str(), "a");
    assert_eq!(path.get(1).as_str(), "b");
    assert_eq!(path.get(2).as_str(), "c");
    assert_eq!(path.to_text(), "a.b.c");
}

#[test]
fn parse_empty_text_gives_one_empty_entry() {
    let path = Path::parse("").unwrap();
    assert_eq!(path.len(), 1);
    assert_eq!(path.get(0).as_str(), "");
    assert_eq!(path.to_text(), "");
}

#[test]
fn root_is_empty() {
    let path = Path::root();
    assert_eq!(path.len(), 0);
    assert_eq!(path.to_text(), "");
}

#[test]
fn single_and_concat() {
    let path = Path::single(EntryId::from_str("app"));
    let path = path.concat(EntryId::from_str("metrics"));
    assert_eq!(path.to_text(), "app.metrics");
}

#[test]
fn add_root_prepends() {
    let path = Path::parse("b.c").unwrap();
    let rooted = path.add_root(&EntryId::from_str("a"));
    assert_eq!(rooted.to_text(), "a.b.c");
}

#[test]
fn split_takes_the_first_entry() {
    let path = Path::parse("a.b.c").unwrap();
    let (head, rest) = path.split();
    assert_eq!(head.unwrap().as_str(), "a");
    assert_eq!(rest.to_text(), "b.c");

    let (none, rest) = Path::root().split();
    assert!(none.is_none());
    assert_eq!(rest.len(), 0);
}

#[test]
fn subpath_drops_from_the_left() {
    let path = Path::parse("a.b.c").unwrap();
    assert_eq!(path.subpath(1).to_text(), "b.c");
    assert_eq!(path.subpath(3).to_text(), "");
}

#[test]
fn path_equality_is_exact() {
    let a = Path::parse("a.b").unwrap();
    let b = Path::parse("a.b").unwrap();
    let c = Path::parse("a.c").unwrap();
    assert!(a == b);
    assert!(a != c);
}

#[test]
fn timestamps_count_milliseconds() {
    let ts = Timestamp(1500);
    assert_eq!(ts.as_millis(), 1500);
    assert_eq!(ts.as_secs(), 1);
    let neg = Timestamp(-1500);
    assert_eq!(neg.as_secs(), -1);
    assert_eq!(Timestamp::default().as_millis(), 0);
}

#[test]
fn entry_type_text_forms() {
    assert_eq!(EntryType::Node.to_text(), "node");
    assert_eq!(EntryType::Container.to_text(), "container");
    assert_eq!(EntryType::Provider.to_text(), "provider");
    let stream = EntryType::Stream(StreamType::of_str("rillrate.pulse.v0"));
    assert_eq!(stream.to_text(), "stream/rillrate.pulse.v0");
}

#[test]
fn path_order_is_lexicographic_by_segments() {
    let a = Path::parse("a").unwrap();
    let ab = Path::parse("a.b").unwrap();
    let ac = Path::parse("a.c").unwrap();
    let b = Path::parse("b").unwrap();
    // A proper prefix sorts first; segments compare as text.
    assert!(a.before(&ab));
    assert!(!ab.before(&a));
    assert!(ab.before(&ac));
    assert!(ab.before(&b));
    assert!(!ab.before(&ab));
}

#[test]
fn col_and_row_from_index() {
    assert_eq!(Col::from_index(7).0, 7);
    assert_eq!(Row::from_index(9).0, 9);
}
