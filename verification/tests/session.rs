use connectbox::error::Error;
use connectbox::session::{cookie_in, cookie_pair, find_cookie, SessionStore};
use reqwest::header::HeaderValue;
use reqwest::Url;

fn value(text: &str) -> Option<String> {
    Some(text.to_string())
}

#[test]
fn cookie_absent() {
    assert_eq!(find_cookie("a=1; b=2", "SID"), None);
    assert_eq!(find_cookie("", "SID"), None);
    assert_eq!(find_cookie("SID", "SID"), None);
}

#[test]
fn cookie_first() {
    assert_eq!(find_cookie("SID=abc; sessionToken=123", "SID"), value("abc"));
}

#[test]
fn cookie_last() {
    assert_eq!(find_cookie("sessionToken=123; SID=abc", "SID"), value("abc"));
}

#[test]
fn cookie_in_the_middle() {
    assert_eq!(find_cookie("a=1; SID=abc; b=2", "SID"), value("abc"));
}

#[test]
fn cookie_alone() {
    assert_eq!(find_cookie("sessionToken=1234567", "sessionToken"), value("1234567"));
}

#[test]
fn cookie_whose_name_starts_another() {
    assert_eq!(find_cookie("SIDx=1; SID=2", "SID"), value("2"));
    assert_eq!(find_cookie("SIDx=1", "SID"), None);
}

#[test]
fn cookie_whose_name_ends_another() {
    assert_eq!(find_cookie("xSID=1; SID=2", "SID"), value("2"));
    assert_eq!(find_cookie("xSID=1", "SID"), None);
    assert_eq!(find_cookie("a=1; xSID=2", "SID"), None);
}

#[test]
fn cookie_name_inside_a_value() {
    assert_eq!(find_cookie("a=SID=1; SID=2", "SID"), value("2"));
    assert_eq!(find_cookie("a=1;SID=2", "SID"), None);
}

#[test]
fn cookie_with_an_empty_value() {
    assert_eq!(find_cookie("SID=; a=1", "SID"), value(""));
    assert_eq!(find_cookie("a=1; SID=", "SID"), value(""));
}

#[test]
fn cookie_set_twice_gives_the_first() {
    assert_eq!(find_cookie("SID=1; SID=2", "SID"), value("1"));
}

#[test]
fn cookie_value_may_hold_an_equals_sign() {
    assert_eq!(find_cookie("SID=a=b; c=d", "SID"), value("a=b"));
}

#[test]
fn lookup_without_a_header_finds_nothing() {
    assert!(matches!(cookie_in(None, "SID"), Ok(None)));
}

#[test]
fn lookup_searches_the_header() {
    let header = Some(Ok("a=1; SID=xyz".to_string()));
    match cookie_in(header, "SID") {
        Ok(Some(found)) => assert_eq!(found, "xyz"),
        other => panic!("{:?}", other),
    }
    assert!(matches!(cookie_in(Some(Ok("a=1".to_string())), "SID"), Ok(None)));
}

#[test]
fn lookup_hands_on_a_header_that_is_no_text() {
    let header = HeaderValue::from_bytes(&[b'a', 0xfa]).unwrap();
    let failure = header.to_str().unwrap_err();
    assert!(matches!(cookie_in(Some(Err(failure)), "SID"), Err(Error::InvalidHeaderValue(_))));
}

#[test]
fn pairs_are_name_then_value() {
    assert_eq!(cookie_pair("SID", "abc123"), "SID=abc123");
    assert_eq!(cookie_pair("", ""), "=");
}

#[test]
fn store_gives_back_what_was_set() {
    let mut store = SessionStore::new(Url::parse("http://192.168.0.1/").unwrap());
    assert!(matches!(store.get("SID"), Ok(None)));
    store.set("SID", "abc123");
    assert_eq!(store.get("SID").unwrap(), value("abc123"));
    assert!(matches!(store.get("sessionToken"), Ok(None)));
    store.set("sessionToken", "42");
    assert_eq!(store.get("sessionToken").unwrap(), value("42"));
    assert_eq!(store.get("SID").unwrap(), value("abc123"));
}

#[test]
fn store_overwrites() {
    let mut store = SessionStore::new(Url::parse("http://192.168.0.1/").unwrap());
    store.set("SID", "one");
    store.set("SID", "two");
    assert_eq!(store.get("SID").unwrap(), value("two"));
}

#[test]
fn store_shares_its_jar() {
    let url = Url::parse("http://192.168.0.1/").unwrap();
    let store = SessionStore::new(url.clone());
    store.jar().add_cookie_str("sessionToken=777", &url);
    assert_eq!(store.get("sessionToken").unwrap(), value("777"));
}

#[test]
fn what_is_written_as_pairs_is_found_again() {
    let pairs = [("sessionToken", "1234"), ("SID", "ab=cd"), ("SIDx", ""), ("xSID", "9"), ("SID", "late")];
    let header = pairs
        .iter()
        .map(|(name, value)| cookie_pair(name, value))
        .collect::<Vec<String>>()
        .join("; ");
    assert_eq!(header, "sessionToken=1234; SID=ab=cd; SIDx=; xSID=9; SID=late");
    assert_eq!(find_cookie(&header, "sessionToken"), value("1234"));
    assert_eq!(find_cookie(&header, "SID"), value("ab=cd"));
    assert_eq!(find_cookie(&header, "SIDx"), value(""));
    assert_eq!(find_cookie(&header, "xSID"), value("9"));
    assert_eq!(find_cookie(&header, "ID"), None);
    assert_eq!(find_cookie(&header, "session"), None);
    assert_eq!(find_cookie(&header, ""), None);
}
