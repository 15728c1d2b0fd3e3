//! One-line descriptions of parts, for logs and debugging.
use vstd::prelude::*;
use crate::dom::{OptionRefView, Part, PartView, PartWithSource, PluginIdentifier, part_view};
use crate::text::{debug_quoted, quote_debug};

verus! {

/// A plugin identifier as `fqcn:type`.
pub open spec fn describe_plugin(fqcn: Seq<char>, plugin_type: Seq<char>) -> Seq<char> {
    fqcn + ":"@ + plugin_type
}

/// A list of strings as `["a", "b"]`.
pub open spec fn describe_list(v: Seq<Seq<char>>) -> Seq<char>
    decreases v.len(),
{
    if v.len() == 0 {
        "[]"@
    } else {
        "["@ + describe_items(v) + "]"@
    }
}

/// The items of a list, quoted and separated by `, `.
pub open spec fn describe_items(v: Seq<Seq<char>>) -> Seq<char>
    decreases v.len(),
{
    if v.len() == 0 {
        Seq::empty()
    } else if v.len() == 1 {
        debug_quoted(v[0])
    } else {
        describe_items(v.drop_last()) + ", "@ + debug_quoted(v.last())
    }
}

/// An optional string as `Some("x")` or `None`.
pub open spec fn describe_opt(v: Option<Seq<char>>) -> Seq<char> {
    match v {
        Some(s) => "Some("@ + debug_quoted(s) + ")"@,
        None => "None"@,
    }
}

/// The fields of an option-like reference.
pub open spec fn describe_option_like(o: OptionRefView) -> Seq<char> {
    "{plugin="@ + (match o.plugin {
        Some((f, t)) => "Some(PluginIdentifier { fqcn: "@ + debug_quoted(f) + ", plugin_type: "@
            + debug_quoted(t) + " })"@,
        None => "None"@,
    }) + ", entrypoint="@ + describe_opt(o.entrypoint) + ", link="@ + describe_list(o.link)
        + ", name="@ + debug_quoted(o.name) + ", value="@ + describe_opt(o.value) + "}"@
}

/// A part as `kind=content`.
pub open spec fn describe_part(p: PartView) -> Seq<char> {
    match p {
        PartView::Text(t) => "text="@ + debug_quoted(t),
        PartView::Italic(t) => "italic="@ + debug_quoted(t),
        PartView::Bold(t) => "bold="@ + debug_quoted(t),
        PartView::Code(t) => "code="@ + debug_quoted(t),
        PartView::Module(f) => "module="@ + f,
        PartView::Plugin(f, t) => "plugin="@ + describe_plugin(f, t),
        PartView::URL(u) => "url="@ + debug_quoted(u),
        PartView::Link(t, u) => "link="@ + debug_quoted(t) + "->"@ + debug_quoted(u),
        PartView::RSTRef(t, r) => "RSTref="@ + debug_quoted(t) + "->"@ + debug_quoted(r),
        PartView::OptionName(o) => "option="@ + describe_option_like(o),
        PartView::OptionValue(v) => "option-value="@ + debug_quoted(v),
        PartView::EnvVariable(n) => "env-variable="@ + debug_quoted(n),
        PartView::ReturnValue(o) => "return-value="@ + describe_option_like(o),
        PartView::HorizontalLine => "horizontal-line"@,
        PartView::Error(m) => "error="@ + debug_quoted(m),
    }
}

fn describe_opt_string(v: &Option<String>) -> (r: String)
    ensures
        r@ == describe_opt(crate::text::opt_view(v)),
{
    match v {
        Some(s) => {
            let mut r = String::from_str("Some(");
            r.append(quote_debug(s.as_str()).as_str());
            r.append(")");
            r
        },
        None => String::from_str("None"),
    }
}

fn describe_strings(v: &Vec<String>) -> (r: String)
    ensures
        r@ == describe_list(crate::dom::strings_view(v@)),
{
    let ghost sv = crate::dom::strings_view(v@);
    if v.len() == 0 {
        return String::from_str("[]");
    }
    let mut items = String::new();
    let mut i: usize = 0;
    while i < v.len()
        invariant
            sv == crate::dom::strings_view(v@),
            i <= v@.len(),
            items@ == describe_items(sv.take(i as int)),
        decreases v@.len() - i,
    {
        proof {
            assert(sv.take(i + 1).drop_last() =~= sv.take(i as int));
        }
        if i > 0 {
            items.append(", ");
        }
        items.append(quote_debug(v[i].as_str()).as_str());
        proof {
            if i == 0 {
                assert(sv.take(1)[0] == v@[0]@);
            }
        }
        i += 1;
    }
    proof {
        assert(sv.take(v@.len() as int) =~= sv);
    }
    let mut r = String::from_str("[");
    r.append(items.as_str());
    r.append("]");
    r
}

fn describe_option_fields(
    plugin: &Option<PluginIdentifier>,
    entrypoint: &Option<String>,
    link: &Vec<String>,
    name: &String,
    value: &Option<String>,
) -> (r: String)
    ensures
        r@ == describe_option_like(
            OptionRefView {
                plugin: crate::dom::plugin_view(plugin),
                entrypoint: crate::text::opt_view(entrypoint),
                link: crate::dom::strings_view(link@),
                name: name@,
                value: crate::text::opt_view(value),
            },
        ),
{
    let mut r = String::from_str("{plugin=");
    match plugin {
        Some(p) => {
            r.append("Some(PluginIdentifier { fqcn: ");
            r.append(quote_debug(p.fqcn.as_str()).as_str());
            r.append(", plugin_type: ");
            r.append(quote_debug(p.plugin_type.as_str()).as_str());
            r.append(" })");
        },
        None => r.append("None"),
    }
    r.append(", entrypoint=");
    r.append(describe_opt_string(entrypoint).as_str());
    r.append(", link=");
    r.append(describe_strings(link).as_str());
    r.append(", name=");
    r.append(quote_debug(name.as_str()).as_str());
    r.append(", value=");
    r.append(describe_opt_string(value).as_str());
    r.append("}");
    proof {
        assert(r@ =~= describe_option_like(
            OptionRefView {
                plugin: crate::dom::plugin_view(plugin),
                entrypoint: crate::text::opt_view(entrypoint),
                link: crate::dom::strings_view(link@),
                name: name@,
                value: crate::text::opt_view(value),
            },
        ));
    }
    r
}

fn tagged(tag: &str, text: &String) -> (r: String)
    ensures
        r@ == tag@ + debug_quoted(text@),
{
    let mut r = String::from_str(tag);
    r.append(quote_debug(text.as_str()).as_str());
    r
}

fn tagged_pair(tag: &str, a: &String, b: &String) -> (r: String)
    ensures
        r@ == tag@ + debug_quoted(a@) + "->"@ + debug_quoted(b@),
{
    let mut r = tagged(tag, a);
    r.append("->");
    r.append(quote_debug(b.as_str()).as_str());
    r
}

impl PluginIdentifier {
    /// The identifier as `fqcn:type`.
    pub fn describe(&self) -> (r: String)
        ensures
            r@ == describe_plugin(self.fqcn@, self.plugin_type@),
    {
        let mut r = self.fqcn.clone();
        r.append(":");
        r.append(self.plugin_type.as_str());
        r
    }
}

impl Part {
    /// The part as `kind=content`, with strings quoted as Rust's `{:?}` quotes them.
    pub fn describe(&self) -> (r: String)
        ensures
            r@ == describe_part(part_view(self)),
    {
        match self {
            Part::Text { text } => tagged("text=", text),
            Part::Italic { text } => tagged("italic=", text),
            Part::Bold { text } => tagged("bold=", text),
            Part::Code { text } => tagged("code=", text),
            Part::Module { fqcn } => {
                let mut r = String::from_str("module=");
                r.append(fqcn.as_str());
                r
            },
            Part::Plugin { plugin } => {
                let mut r = String::from_str("plugin=");
                r.append(plugin.describe().as_str());
                r
            },
            Part::URL { url } => tagged("url=", url),
            Part::Link { text, url } => tagged_pair("link=", text, url),
            Part::RSTRef { text, reference } => tagged_pair("RSTref=", text, reference),
            Part::OptionName { plugin, entrypoint, link, name, value } => {
                let mut r = String::from_str("option=");
                r.append(describe_option_fields(plugin, entrypoint, link, name, value).as_str());
                r
            },
            Part::OptionValue { value } => tagged("option-value=", value),
            Part::EnvVariable { name } => tagged("env-variable=", name),
            Part::ReturnValue { plugin, entrypoint, link, name, value } => {
                let mut r = String::from_str("return-value=");
                r.append(describe_option_fields(plugin, entrypoint, link, name, value).as_str());
                r
            },
            Part::HorizontalLine => String::from_str("horizontal-line"),
            Part::Error { message } => tagged("error=", message),
        }
    }
}

impl PartWithSource {
    /// The part and its source as `(part; source="...")`.
    pub fn describe(&self) -> (r: String)
        ensures
            r@ == "("@ + describe_part(part_view(&self.part)) + "; source="@ + debug_quoted(self.source@)
                + ")"@,
    {
        let mut r = String::from_str("(");
        r.append(self.part.describe().as_str());
        r.append("; source=");
        r.append(quote_debug(self.source.as_str()).as_str());
        r.append(")");
        r
    }
}

} // verus!
