use antsibull::{
    parse, parse_paragraphs, parse_paragraphs_without_sources, parse_without_sources, Context, ParseOptions, Part,
    PartWithSource, PluginIdentifier,
};

fn no_context() -> Context {
    Context { current_plugin: None, role_entrypoint: None }
}

fn module_context() -> Context {
    Context {
        current_plugin: Some(PluginIdentifier { fqcn: "ns.col.m".to_string(), plugin_type: "module".to_string() }),
        role_entrypoint: None,
    }
}

fn text(s: &str) -> Part {
    Part::Text { text: s.to_string() }
}

fn error_of(input: &str, opts: &ParseOptions) -> String {
    let parts = parse_without_sources(input, &no_context(), opts);
    match &parts[0] {
        Part::Error { message } => message.clone(),
        other => panic!("expected an error part, got {:?}", other),
    }
}

#[test]
fn parse_simple() {
    let context = no_context();
    assert_eq!(parse("", &context, &ParseOptions::default()), vec!());
    assert_eq!(
        parse("Foo", &context, &ParseOptions::default()),
        vec!(PartWithSource { part: Part::Text { text: "Foo".to_string() }, source: "Foo".to_string() })
    );
}

#[test]
fn plain_text_is_one_text_part() {
    let input = "No commands (here), just text with O and B.";
    let parts = parse_without_sources(input, &no_context(), &ParseOptions::default());
    assert_eq!(parts, vec![text(input)]);
}

#[test]
fn empty_input_gives_no_parts() {
    assert_eq!(parse_without_sources("", &no_context(), &ParseOptions::default()), vec![]);
}

#[test]
fn sources_concatenate_to_input() {
    let input = "The B(module) that I(is) C(defined) in M(ansible.builtin.debug), O(foo=bar) and B(broken";
    let parts = parse(input, &no_context(), &ParseOptions::default());
    let joined: String = parts.iter().map(|p| p.source.as_str()).collect();
    assert_eq!(joined, input);
    assert_eq!(parts[1].source, "B(module)");
}

#[test]
fn escaped_argument_backslashes() {
    let parts = parse_without_sources("V(a\\xb)", &no_context(), &ParseOptions::default());
    assert_eq!(parts, vec![Part::OptionValue { value: "axb".to_string() }]);
    let parts = parse_without_sources("V(a\\\\b)", &no_context(), &ParseOptions::default().strict());
    assert_eq!(parts, vec![Part::OptionValue { value: "a\\b".to_string() }]);
    let parts = parse_without_sources("V(a\\xb)", &no_context(), &ParseOptions::default().strict());
    assert_eq!(
        parts,
        vec![Part::Error { message: "While parsing \"V(a\\xb)\" at index 1: Unnecessarily escaped \"x\"".to_string() }]
    );
    let parsed = parse("V(a\\b) B(c)", &no_context(), &ParseOptions::default().strict());
    assert_eq!(parsed.len(), 3);
    assert_eq!(parsed[0].source, "V(a\\b)");
    assert_eq!(parsed[2].part, Part::Bold { text: "c".to_string() });
    let parts = parse_without_sources("V(a\\\nb)", &no_context(), &ParseOptions::default());
    assert_eq!(parts, vec![Part::OptionValue { value: "a\nb".to_string() }]);
    let parts = parse_without_sources("V(a\\x", &no_context(), &ParseOptions::default().strict());
    assert_eq!(
        parts,
        vec![Part::Error { message: "While parsing \"V(a\\x\" at index 1: Unnecessarily escaped \"x\"".to_string() }]
    );
}

#[test]
fn bare_option_inherits_plugin() {
    let parts = parse_without_sources("O(foo)", &module_context(), &ParseOptions::default());
    assert_eq!(
        parts,
        vec![Part::OptionName {
            plugin: Some(PluginIdentifier { fqcn: "ns.col.m".to_string(), plugin_type: "module".to_string() }),
            entrypoint: None,
            link: vec!["foo".to_string()],
            name: "foo".to_string(),
            value: None,
        }]
    );
}

#[test]
fn ignore_marker_drops_plugin() {
    let parts = parse_without_sources("RV(ignore:foo)", &module_context(), &ParseOptions::default());
    assert_eq!(
        parts,
        vec![Part::ReturnValue {
            plugin: None,
            entrypoint: None,
            link: vec!["foo".to_string()],
            name: "foo".to_string(),
            value: None,
        }]
    );
}

#[test]
fn array_stubs_are_stripped_from_link() {
    let parts = parse_without_sources("O(foo[1].bar[].baz)", &no_context(), &ParseOptions::default());
    assert_eq!(
        parts,
        vec![Part::OptionName {
            plugin: None,
            entrypoint: None,
            link: vec!["foo".to_string(), "bar".to_string(), "baz".to_string()],
            name: "foo[1].bar[].baz".to_string(),
            value: None,
        }]
    );
}

#[test]
fn role_reference_needs_entrypoint() {
    assert_eq!(
        error_of("O(ns.col.r#role:name)", &ParseOptions::default()),
        "While parsing \"O(ns.col.r#role:name)\" at index 1: Role reference is missing entrypoint"
    );
    let parts = parse_without_sources("O(ns.col.r#role:ep:name)", &no_context(), &ParseOptions::default());
    assert_eq!(
        parts,
        vec![Part::OptionName {
            plugin: Some(PluginIdentifier { fqcn: "ns.col.r".to_string(), plugin_type: "role".to_string() }),
            entrypoint: Some("ep".to_string()),
            link: vec!["name".to_string()],
            name: "name".to_string(),
            value: None,
        }]
    );
}

#[test]
fn hello_bold_world() {
    let parts = parse_without_sources("Hello B(world)!", &no_context(), &ParseOptions::default());
    assert_eq!(parts, vec![text("Hello "), Part::Bold { text: "world".to_string() }, text("!")]);
}

#[test]
fn module_reference() {
    let parts = parse_without_sources("M(ansible.builtin.debug)", &no_context(), &ParseOptions::default());
    assert_eq!(parts, vec![Part::Module { fqcn: "ansible.builtin.debug".to_string() }]);
}

#[test]
fn option_value_with_escaped_paren() {
    let parts = parse_without_sources("V(a\\)b)", &no_context(), &ParseOptions::default());
    assert_eq!(parts, vec![Part::OptionValue { value: "a)b".to_string() }]);
}

#[test]
fn option_with_value_and_context() {
    let parts = parse_without_sources("O(foo.bar[1]=baz)", &module_context(), &ParseOptions::default());
    assert_eq!(
        parts,
        vec![Part::OptionName {
            plugin: Some(PluginIdentifier { fqcn: "ns.col.m".to_string(), plugin_type: "module".to_string() }),
            entrypoint: None,
            link: vec!["foo".to_string(), "bar".to_string()],
            name: "foo.bar[1]".to_string(),
            value: Some("baz".to_string()),
        }]
    );
}

#[test]
fn url_part() {
    let parts = parse_without_sources("U(https://x.example/?a=1&b=2)", &no_context(), &ParseOptions::default());
    assert_eq!(parts, vec![Part::URL { url: "https://x.example/?a=1&b=2".to_string() }]);
}

#[test]
fn unterminated_command() {
    let parts = parse("B(a", &no_context(), &ParseOptions::default());
    assert_eq!(
        parts,
        vec![PartWithSource {
            part: Part::Error {
                message: "While parsing \"B(a\" at index 1: Cannot find closing \")\" after last parameter".to_string()
            },
            source: "B(a".to_string(),
        }]
    );
}

#[test]
fn missing_comma() {
    assert_eq!(
        error_of("L(foo", &ParseOptions::default()),
        "While parsing \"L(foo\" at index 1: Cannot find comma separating parameter 1 from the next one"
    );
}

#[test]
fn link_arguments_are_stripped() {
    let parts = parse_without_sources("L(foo , bar) R( a ,b )", &no_context(), &ParseOptions::default());
    assert_eq!(
        parts,
        vec![
            Part::Link { text: "foo".to_string(), url: "bar".to_string() },
            text(" "),
            Part::RSTRef { text: " a".to_string(), reference: "b ".to_string() },
        ]
    );
}

#[test]
fn invalid_names_are_errors() {
    let opts = ParseOptions::default();
    assert_eq!(
        error_of("M(foo)", &opts),
        "While parsing \"M(foo)\" at index 1: Module name \"foo\" is not a FQCN"
    );
    assert_eq!(
        error_of("P(foo)", &opts),
        "While parsing \"P(foo)\" at index 1: Parameter \"foo\" is not of the form FQCN#type"
    );
    assert_eq!(
        error_of("P(a.b.c#X)", &opts),
        "While parsing \"P(a.b.c#X)\" at index 1: Plugin name \"X\" is not a FQCN"
    );
    assert_eq!(
        error_of("P(a.b#x)", &opts),
        "While parsing \"P(a.b#x)\" at index 1: Plugin name \"a.b\" is not a FQCN"
    );
    assert_eq!(
        error_of("O(ns.col.x#Foo:bar)", &opts),
        "While parsing \"O(ns.col.x#Foo:bar)\" at index 1: Plugin type \"Foo\" is not valid"
    );
    assert_eq!(
        error_of("O(NS.col.x#module:bar)", &opts),
        "While parsing \"O(NS.col.x#module:bar)\" at index 1: Plugin name \"NS.col.x\" is not a FQCN"
    );
    assert_eq!(
        error_of("O(foo:bar)", &opts),
        "While parsing \"O(foo:bar)\" at index 1: Invalid option/return value name \"foo:bar\""
    );
}

#[test]
fn debug_quoting_in_messages() {
    assert_eq!(
        error_of("M(a\"b)", &ParseOptions::default()),
        "While parsing \"M(a\"b)\" at index 1: Module name \"a\\\"b\" is not a FQCN"
    );
}

#[test]
fn plugin_part() {
    let parts = parse_without_sources("P(ns.col.x#lookup)", &no_context(), &ParseOptions::default());
    assert_eq!(
        parts,
        vec![Part::Plugin {
            plugin: PluginIdentifier { fqcn: "ns.col.x".to_string(), plugin_type: "lookup".to_string() }
        }]
    );
}

#[test]
fn unhelpful_errors_and_location() {
    let opts = ParseOptions::default().unhelpful_errors();
    assert_eq!(error_of("B(a", &opts), "While parsing B() at index 1: Cannot find closing \")\" after last parameter");
    let opts = ParseOptions::default().where_(" in foo".to_string());
    assert_eq!(
        error_of("B(a", &opts),
        "While parsing \"B(a\" at index 1 in foo: Cannot find closing \")\" after last parameter"
    );
}

#[test]
fn error_index_counts_bytes() {
    let parts = parse_without_sources("é B(a", &no_context(), &ParseOptions::default());
    assert_eq!(
        parts[1],
        Part::Error {
            message: "While parsing \"B(a\" at index 4: Cannot find closing \")\" after last parameter".to_string()
        }
    );
}

#[test]
fn paragraphs_name_their_index() {
    let inputs = vec!["B(x)", "I(a"];
    let result = parse_paragraphs(&inputs, &no_context(), &ParseOptions::default().where_(" of doc".to_string()));
    assert_eq!(result.len(), 2);
    assert_eq!(result[0][0].part, Part::Bold { text: "x".to_string() });
    assert_eq!(
        result[1][0].part,
        Part::Error {
            message: "While parsing \"I(a\" at index 1 of paragraph 2 of doc: Cannot find closing \")\" after last parameter"
                .to_string()
        }
    );
    let plain = parse_paragraphs_without_sources(&inputs, &no_context(), &ParseOptions::default());
    assert_eq!(plain[0], vec![Part::Bold { text: "x".to_string() }]);
}

#[test]
fn classic_only_hides_modern_markup() {
    let parts = parse_without_sources("O(foo) B(x)", &no_context(), &ParseOptions::default().only_classic_markup());
    assert_eq!(parts, vec![text("O(foo) "), Part::Bold { text: "x".to_string() }]);
}

#[test]
fn commands_start_at_word_boundaries() {
    let opts = ParseOptions::default();
    assert_eq!(parse_without_sources("xB(a)", &no_context(), &opts), vec![text("xB(a)")]);
    assert_eq!(parse_without_sources("éB(a)", &no_context(), &opts), vec![text("éB(a)")]);
    assert_eq!(
        parse_without_sources("-B(a)", &no_context(), &opts),
        vec![text("-"), Part::Bold { text: "a".to_string() }]
    );
    assert_eq!(
        parse_without_sources("a HORIZONTALLINE b", &no_context(), &opts),
        vec![text("a "), Part::HorizontalLine, text(" b")]
    );
    assert_eq!(parse_without_sources("HORIZONTALLINEx", &no_context(), &opts), vec![text("HORIZONTALLINEx")]);
}

#[test]
fn environment_variable_and_code() {
    let parts = parse_without_sources("E(PATH) C(ls)", &no_context(), &ParseOptions::default());
    assert_eq!(
        parts,
        vec![Part::EnvVariable { name: "PATH".to_string() }, text(" "), Part::Code { text: "ls".to_string() }]
    );
}

#[test]
fn parts_describe_themselves() {
    let parsed = parse("a B(b) O(x[1].y=z) M(a.b.c)", &module_context(), &ParseOptions::default());
    assert_eq!(parsed[0].describe(), "(text=\"a \"; source=\"a \")");
    assert_eq!(parsed[1].part.describe(), "bold=\"b\"");
    assert_eq!(
        parsed[3].part.describe(),
        "option={plugin=Some(PluginIdentifier { fqcn: \"ns.col.m\", plugin_type: \"module\" }), entrypoint=None, link=[\"x\", \"y\"], name=\"x[1].y\", value=Some(\"z\")}"
    );
    assert_eq!(parsed[5].part.describe(), "module=a.b.c");
    let p = PluginIdentifier { fqcn: "a.b.c".to_string(), plugin_type: "lookup".to_string() };
    assert_eq!(p.describe(), "a.b.c:lookup");
    assert_eq!(Part::HorizontalLine.describe(), "horizontal-line");
    assert_eq!(
        Part::Link { text: "t".to_string(), url: "u\n".to_string() }.describe(),
        "link=\"t\"->\"u\\n\""
    );
}
