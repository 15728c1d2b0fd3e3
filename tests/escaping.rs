use antsibull::{HTMLEscaper, MDEscaper, RSTEscaper, URLEscaper};

#[test]
fn test_url_escape() {
    let e = URLEscaper::new();
    assert_eq!(e.escape(""), "");
    assert_eq!(e.escape("https://ansible.com/test.html"), "https://ansible.com/test.html");
    assert_eq!(
        e.escape("https://ansible.com/test.html?f=<a>&g=h"),
        "https://ansible.com/test.html?f=%3Ca%3E&g=h"
    );
    assert_eq!(
        e.escape("https://example.com/test.html?foo=b<a>r&find=\\*#baz.bam%3D(boo"),
        "https://example.com/test.html?foo=b%3Ca%3Er&find=%5C*#baz.bam%253D(boo"
    );

    assert_eq!(e.escape_with_html_escape(""), "");
    assert_eq!(
        e.escape_with_html_escape("https://ansible.com/test.html"),
        "https://ansible.com/test.html"
    );
    assert_eq!(
        e.escape_with_html_escape("https://ansible.com/test.html?f=<a>&g=h"),
        "https://ansible.com/test.html?f=%3Ca%3E&amp;g=h"
    );
    assert_eq!(
        e.escape_with_html_escape("https://example.com/test.html?foo=b<a>r&find=\\*#baz.bam%3D(boo"),
        "https://example.com/test.html?foo=b%3Ca%3Er&amp;find=%5C*#baz.bam%253D(boo"
    );
}

#[test]
fn test_html_escape() {
    let e = HTMLEscaper::new();
    assert_eq!(e.escape(""), "");
    assert_eq!(e.escape("test"), "test");
    assert_eq!(e.escape("<foo>"), "&lt;foo&gt;");
    assert_eq!(e.escape("<f&o>"), "&lt;f&amp;o&gt;");
}

#[test]
fn test_rst_escape() {
    let e = RSTEscaper::new();
    assert_eq!(e.escape("", false, false), "");
    assert_eq!(e.escape("", true, false), "");
    assert_eq!(e.escape("", false, true), "\\ ");
    assert_eq!(e.escape("", true, true), "\\ ");
    assert_eq!(e.escape(" ", false, false), " ");
    assert_eq!(e.escape(" ", true, false), "\\  \\ ");
    assert_eq!(e.escape(" ", false, true), " ");
    assert_eq!(e.escape(" ", true, true), "\\  \\ ");
    assert_eq!(e.escape("  ", false, false), "  ");
    assert_eq!(e.escape("  ", true, false), "\\   \\ ");
    assert_eq!(e.escape("  ", false, true), "  ");
    assert_eq!(e.escape("  ", true, true), "\\   \\ ");
    assert_eq!(e.escape(" a\\b<c>d_e*f`g ", false, false), " a\\\\b\\<c\\>d\\_e\\*f\\`g ");
    assert_eq!(e.escape(" a\\b<c>d_e*f`g ", true, false), "\\  a\\\\b\\<c\\>d\\_e\\*f\\`g \\ ");
    assert_eq!(e.escape(" a\\b<c>d_e*f`g ", false, true), " a\\\\b\\<c\\>d\\_e\\*f\\`g ");
    assert_eq!(e.escape(" a\\b<c>d_e*f`g ", true, true), "\\  a\\\\b\\<c\\>d\\_e\\*f\\`g \\ ");
}

#[test]
fn md_escape_special_characters() {
    let e = MDEscaper::new();
    assert_eq!(e.escape(""), "");
    assert_eq!(e.escape("plain text"), "plain text");
    assert_eq!(e.escape("a.b-c_d"), "a\\.b\\-c\\_d");
    assert_eq!(e.escape("[x](y)"), "\\[x\\]\\(y\\)");
    assert_eq!(e.escape("é!"), "é\\!");
}

#[test]
fn escapers_leave_safe_text_unchanged() {
    let text = "Hello world 123";
    assert_eq!(HTMLEscaper::new().escape(text), text);
    assert_eq!(MDEscaper::new().escape(text), text);
    assert_eq!(RSTEscaper::new().escape(text, true, true), text);
    assert_eq!(URLEscaper::new().escape("abc/def?x=1"), "abc/def?x=1");
    assert_eq!(URLEscaper::new().escape_with_html_escape("abc/def?x=1"), "abc/def?x=1");
}

#[test]
fn url_escape_non_ascii_bytes() {
    let e = URLEscaper::new();
    assert_eq!(e.escape("a b"), "a%20b");
    assert_eq!(e.escape("é"), "%C3%A9");
    assert_eq!(e.escape("%"), "%25");
}
