use annotate::link::{deep_link, push_component};

fn component(text: &str) -> String {
    let mut out = String::new();
    push_component(&mut out, text);
    out
}

#[test]
fn unreserved_characters_stand_for_themselves() {
    let plain = "ABCXYZabcxyz0189-_.!~*'()";
    assert_eq!(component(plain), plain);
}

#[test]
fn other_characters_are_percent_encoded() {
    assert_eq!(component("hello world"), "hello%20world");
    assert_eq!(component("a&b=c?d#e/f"), "a%26b%3Dc%3Fd%23e%2Ff");
    assert_eq!(component("100%"), "100%25");
    assert_eq!(component("\"+,:;<>@[]^`{|}\\$"), "%22%2B%2C%3A%3B%3C%3E%40%5B%5D%5E%60%7B%7C%7D%5C%24");
    assert_eq!(component("\n\u{7f}"), "%0A%7F");
}

#[test]
fn unicode_is_encoded_byte_by_byte() {
    assert_eq!(component("é"), "%C3%A9");
    assert_eq!(component("日本"), "%E6%97%A5%E6%9C%AC");
    assert_eq!(component("😀"), "%F0%9F%98%80");
}

#[test]
fn component_is_appended() {
    let mut out = String::from("q=");
    push_component(&mut out, "a b");
    assert_eq!(out, "q=a%20b");
}

#[test]
fn deep_link_names_the_quote() {
    assert_eq!(
        deep_link("https://example.org/posts/a", "hello world"),
        "https://example.org/posts/a#:~:text=hello%20world"
    );
}

#[test]
fn deep_link_replaces_an_existing_fragment() {
    assert_eq!(
        deep_link("https://example.org/posts/a#section-2", "x"),
        "https://example.org/posts/a#:~:text=x"
    );
    assert_eq!(deep_link("https://example.org/p#a#b", "x"), "https://example.org/p#:~:text=x");
    assert_eq!(deep_link("#only", "x"), "#:~:text=x");
    assert_eq!(deep_link("", "日"), "#:~:text=%E6%97%A5");
    assert_eq!(deep_link("https://example.org/p?q=1#", ""), "https://example.org/p?q=1#:~:text=");
}
