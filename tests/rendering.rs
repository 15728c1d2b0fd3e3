use antsibull::{
    append_ansible_doc_text_paragraph, append_antsibull_html_paragraph, append_antsibull_html_paragraphs,
    append_antsibull_rst_paragraph, append_md_paragraph, append_md_paragraphs, append_plain_html_paragraph,
    append_plain_rst_paragraph, parse_without_sources, AntsibullHTMLFormatter, CollectorAppender, Context,
    Formatter, IntoString, MDFormatter, NoLinkProvider, ParseOptions, Part, PlainHTMLFormatter, PluginIdentifier,
    StringAppender, Appender, AppendTo,
};

fn parts_of(input: &str) -> Vec<Part> {
    parse_without_sources(input, &Context { current_plugin: None, role_entrypoint: None }, &ParseOptions::default())
}

fn parts_in_module(input: &str) -> Vec<Part> {
    let context = Context {
        current_plugin: Some(PluginIdentifier { fqcn: "ns.col.m".to_string(), plugin_type: "module".to_string() }),
        role_entrypoint: None,
    };
    parse_without_sources(input, &context, &ParseOptions::default())
}

fn antsibull_html(parts: &Vec<Part>) -> String {
    let mut a = CollectorAppender::new();
    append_antsibull_html_paragraph(&mut a, parts, &NoLinkProvider::new(), &None);
    a.into_string()
}

#[test]
fn antsibull_html_hello_world() {
    assert_eq!(antsibull_html(&parts_of("Hello B(world)!")), "<p>Hello <b>world</b>!</p>");
}

#[test]
fn antsibull_html_module_without_link() {
    assert_eq!(
        antsibull_html(&parts_of("M(ansible.builtin.debug)")),
        "<p><span class='module'>ansible.builtin.debug</span></p>"
    );
}

#[test]
fn ansible_doc_text_option_value() {
    let mut a = StringAppender::new();
    append_ansible_doc_text_paragraph(&mut a, &parts_of("V(a\\)b)"), &NoLinkProvider::new(), &None);
    assert_eq!(a.into_string(), "`a)b'");
}

#[test]
fn plain_html_option_with_value() {
    let mut a = String::new();
    append_plain_html_paragraph(&mut a, &parts_in_module("O(foo.bar[1]=baz)"), &NoLinkProvider::new(), &None);
    assert_eq!(a, "<p><code>foo.bar[1]=baz</code></p>");
}

#[test]
fn antsibull_html_url_is_escaped() {
    assert_eq!(
        antsibull_html(&parts_of("U(https://x.example/?a=1&b=2)")),
        "<p><a href='https://x.example/?a=1&amp;b=2'>https://x.example/?a=1&amp;b=2</a></p>"
    );
}

#[test]
fn antsibull_html_error() {
    assert_eq!(
        antsibull_html(&parts_of("B(a")),
        "<p><span class=\"error\">ERROR while parsing: While parsing \"B(a\" at index 1: Cannot find closing \")\" after last parameter</span></p>"
    );
}

#[test]
fn empty_paragraphs() {
    let empty: Vec<Part> = Vec::new();
    assert_eq!(antsibull_html(&empty), "<p></p>");
    let mut a = String::new();
    append_antsibull_rst_paragraph(&mut a, &empty, &NoLinkProvider::new(), &None);
    assert_eq!(a, "\\ ");
    let mut a = String::new();
    append_md_paragraph(&mut a, &empty, &NoLinkProvider::new(), &None);
    assert_eq!(a, "");
    let mut a = String::new();
    append_md_paragraphs(&mut a, &vec![empty, parts_of("a")], &NoLinkProvider::new(), &None);
    assert_eq!(a, " \n\na");
}

#[test]
fn antsibull_html_paragraphs() {
    let mut a = String::new();
    append_antsibull_html_paragraphs(&mut a, &vec![parts_of("a"), parts_of("I(b)")], &NoLinkProvider::new(), &None);
    assert_eq!(a, "<p>a</p><p><em>b</em></p>");
}

#[test]
fn antsibull_html_options() {
    assert_eq!(
        antsibull_html(&parts_of("O(foo) O(foo=<x>) RV(bar)")),
        "<p><code class=\"ansible-option literal notranslate\"><strong>foo</strong></code> \
         <code class=\"ansible-option-value literal notranslate\">foo=&lt;x&gt;</code> \
         <code class=\"ansible-return-value literal notranslate\">bar</code></p>"
    );
}

#[test]
fn formatter_with_url() {
    let mut a = String::new();
    let f = AntsibullHTMLFormatter::new();
    f.append(&mut a, &Part::Module { fqcn: "a.b.c".to_string() }, &Some("https://x/?a&b".to_string()));
    assert_eq!(a, "<a class='module' href='https://x/?a&amp;b'>a.b.c</a>");
    let mut a = String::new();
    let part = Part::OptionName {
        plugin: None,
        entrypoint: None,
        link: vec!["foo".to_string()],
        name: "foo".to_string(),
        value: None,
    };
    PlainHTMLFormatter::new().append(&mut a, &part, &Some("u".to_string()));
    assert_eq!(a, "<code><strong><a href=\"u\">foo</a></strong></code>");
    let mut a = String::new();
    MDFormatter::new().append(&mut a, &Part::Module { fqcn: "a.b.c".to_string() }, &Some("h t".to_string()));
    assert_eq!(a, "[a\\.b\\.c](h\\%20t)");
}

#[test]
fn markdown_rendering() {
    let mut a = String::new();
    append_md_paragraph(&mut a, &parts_of("B(a.b) L(x, https://y) O(k=v)"), &NoLinkProvider::new(), &None);
    assert_eq!(a, "<b>a\\.b</b> [x](https\\://y) <code>k\\=v</code>");
}

#[test]
fn rst_rendering() {
    let mut a = String::new();
    append_antsibull_rst_paragraph(
        &mut a,
        &parts_of("B(x) O(ns.col.m#module:foo=bar) M(a.b.c)"),
        &NoLinkProvider::new(),
        &None,
    );
    assert_eq!(
        a,
        "\\ :strong:`x`\\  \\ :ansopt:`ns.col.m#module:foo=bar`\\  \\ :ref:`a.b.c <ansible_collections.a.b.c_module>`\\ "
    );
    let mut a = String::new();
    append_plain_rst_paragraph(&mut a, &parts_of("O(ns.col.m#module:foo=bar)"), &NoLinkProvider::new(), &None);
    assert_eq!(a, "\\ :literal:`foo=bar` (of module :ref:`ns.col.m <ansible_collections.ns.col.m_module>`)\\ ");
    let mut a = String::new();
    append_plain_rst_paragraph(&mut a, &parts_of("O(ns.col.r#role:main:x)"), &NoLinkProvider::new(), &None);
    assert_eq!(a, "\\ :literal:`x` (of role :ref:`ns.col.r <ansible_collections.ns.col.r_role>`, entrypoint main)\\ ");
}

#[test]
fn ansible_doc_text_rendering() {
    let mut a = String::new();
    append_ansible_doc_text_paragraph(
        &mut a,
        &parts_of("B(b) P(ns.col.x#lookup) O(ns.col.x#lookup:k) L(t, u) HORIZONTALLINE"),
        &NoLinkProvider::new(),
        &None,
    );
    assert_eq!(a, "*b* [ns.col.x] `k' (of lookup plugin ns.col.x) t <u> \n-------------\n");
}

#[test]
fn appenders_collect_text() {
    let mut c = CollectorAppender::new();
    c.push_str("a");
    c.push_owned_string("b".to_string());
    c.push_string(&"c".to_string());
    let mut s = StringAppender::new();
    s.push_borrowed_string(&"x".to_string());
    assert_eq!(c.len(), 3);
    c.push_str("é");
    assert_eq!(c.len(), 5);
    c.append_to(&mut s);
    assert_eq!(s.len(), 6);
    assert_eq!(s.into_string(), "xabcé");
    assert_eq!(IntoString::len(&"ab".to_string()), 2);
}
