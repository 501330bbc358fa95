use caser::helpers::UrlBuilder;
use url::Url;

#[test]
fn parts_are_joined_with_slashes() {
    let base = Url::parse("http://localhost:8000/").unwrap();
    let mut builder = UrlBuilder::new(base);
    builder.add_part("calendar").add_part("abc").add_part("events").add_part("def");
    assert_eq!(builder.reference(), "calendar/abc/events/def");
    assert_eq!(builder.build().unwrap().as_str(), "http://localhost:8000/calendar/abc/events/def");
}

#[test]
fn builder_without_parts_gives_the_base() {
    let base = Url::parse("http://localhost:8000/api/").unwrap();
    let mut builder = UrlBuilder::new(base.clone());
    assert_eq!(builder.reference(), "");
    assert_eq!(builder.build().unwrap(), base);
}

#[test]
fn query_pairs_follow_the_parts() {
    let base = Url::parse("http://localhost:8000/").unwrap();
    let mut builder = UrlBuilder::new(base);
    builder.add_part("events?").add_query("from", "2020-01-01").add_query("to", "2020-02-01");
    assert_eq!(builder.reference(), "events?from=2020-01-01&to=2020-02-01");
    assert_eq!(
        builder.build().unwrap().as_str(),
        "http://localhost:8000/events?from=2020-01-01&to=2020-02-01"
    );
    let mut only_query = UrlBuilder::new(Url::parse("http://localhost/").unwrap());
    only_query.add_query("a", "b");
    assert_eq!(only_query.reference(), "a=b");
}

#[test]
fn reference_that_is_no_address_fails() {
    let base = Url::parse("http://localhost:8000/").unwrap();
    let mut builder = UrlBuilder::new(base);
    builder.add_part("http://[");
    assert!(builder.build().is_err());
}
