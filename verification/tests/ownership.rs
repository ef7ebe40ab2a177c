use token_scan::ownership::calculate_length;
use token_scan::ownership::calculate_length_ref;
use token_scan::ownership::change;
use token_scan::ownership::gives_ownership;
use token_scan::ownership::no_dangle;
use token_scan::ownership::takes_and_gives_back;

#[test]
fn gives_ownership_builds_yours() {
    assert_eq!(gives_ownership(), "yours");
}

#[test]
fn takes_and_gives_back_returns_its_argument() {
    let s = takes_and_gives_back(String::from("hello"));
    assert_eq!(s, "hello");
}

#[test]
fn calculate_length_returns_string_and_length() {
    let (s, len) = calculate_length(String::from("hello"));
    assert_eq!(s, "hello");
    assert_eq!(len, 5);
}

#[test]
fn calculate_length_of_empty() {
    let (s, len) = calculate_length(String::from(""));
    assert_eq!(s, "");
    assert_eq!(len, 0);
}

#[test]
fn calculate_length_ref_leaves_string_usable() {
    let s = String::from("hello");
    assert_eq!(calculate_length_ref(&s), 5);
    assert_eq!(s, "hello");
}

#[test]
fn calculate_length_counts_bytes() {
    let (_, len) = calculate_length(String::from("héllo"));
    assert_eq!(len, 6);
}

#[test]
fn change_appends_world() {
    let mut s = String::from("hello");
    change(&mut s);
    assert_eq!(s, "hello, world");
}

#[test]
fn no_dangle_returns_owned_hello() {
    assert_eq!(no_dangle(), "hello");
}
