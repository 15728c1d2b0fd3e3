//! The plain terminal form that ansible-doc shows.
use vstd::prelude::*;
use crate::appender::Appender;
use crate::dom::{Part, PartView, PluginIdentifier, OptionRefView, part_view, parts_view, plugin_view};
use crate::format::{Formatter, LinkProvider, append_paragraph, append_paragraphs, paragraph_text, paragraphs_text, paragraphs_view};
use crate::text::{opt_view, str_eq};

verus! {

/// Whether a plugin type is written without the word "plugin" after it.
pub open spec fn is_bare_type(t: Seq<char>) -> bool {
    t == "role"@ || t == "module"@ || t == "playbook"@
}

/// The terminal text of an option or return-value reference.
pub open spec fn text_option_like(o: OptionRefView) -> Seq<char> {
    "`"@ + o.name + (match o.value {
        Some(v) => "="@ + v,
        None => Seq::empty(),
    }) + "'"@ + match o.plugin {
        Some((f, t)) => " (of "@ + t + (if is_bare_type(t) {
            Seq::empty()
        } else {
            " plugin"@
        }) + " "@ + f + (if t == "role"@ && o.entrypoint is Some {
            ", "@ + o.entrypoint->0 + " entrypoint"@
        } else {
            Seq::empty()
        }) + ")"@,
        None => Seq::empty(),
    }
}

/// The terminal text of a part; URLs are not shown.
pub open spec fn text_render(p: PartView) -> Seq<char> {
    match p {
        PartView::Text(t) => t,
        PartView::Bold(t) => "*"@ + t + "*"@,
        PartView::Italic(t) => "`"@ + t + "'"@,
        PartView::Code(t) => "`"@ + t + "'"@,
        PartView::HorizontalLine => "\n-------------\n"@,
        PartView::OptionValue(t) => "`"@ + t + "'"@,
        PartView::EnvVariable(t) => "`"@ + t + "'"@,
        PartView::Error(m) => "[[ERROR while parsing: "@ + m + "]]"@,
        PartView::RSTRef(t, _) => t,
        PartView::Link(t, u) => t + " <"@ + u + ">"@,
        PartView::URL(u) => u,
        PartView::Module(f) => "["@ + f + "]"@,
        PartView::Plugin(f, _) => "["@ + f + "]"@,
        PartView::OptionName(o) => text_option_like(o),
        PartView::ReturnValue(o) => text_option_like(o),
    }
}

/// Writes parts as ansible-doc's terminal text.
pub struct AnsibleDocTextFormatter {}

impl AnsibleDocTextFormatter {
    pub fn new() -> (r: AnsibleDocTextFormatter) {
        AnsibleDocTextFormatter {}
    }

    fn append_tag<A: Appender>(&self, appender: &mut A, start: &str, text: &str, end: &str)
        ensures
            final(appender).content() == old(appender).content() + start@ + text@ + end@,
    {
        appender.push_str(start);
        appender.push_str(text);
        appender.push_str(end);
    }

    fn append_fqcn<A: Appender>(&self, appender: &mut A, fqcn: &str)
        ensures
            final(appender).content() == old(appender).content() + "["@ + fqcn@ + "]"@,
    {
        appender.push_str("[");
        appender.push_str(fqcn);
        appender.push_str("]");
    }

    fn append_option_like<A: Appender>(
        &self,
        appender: &mut A,
        name: &String,
        value: &Option<String>,
        plugin: &Option<PluginIdentifier>,
        entrypoint: &Option<String>,
    )
        ensures
            final(appender).content() == old(appender).content() + text_option_like(
                OptionRefView {
                    plugin: plugin_view(plugin),
                    entrypoint: opt_view(entrypoint),
                    link: Seq::empty(),
                    name: name@,
                    value: opt_view(value),
                },
            ),
    {
        let ghost base = appender.content();
        appender.push_str("`");
        appender.push_string(name);
        if let Some(v) = value {
            appender.push_str("=");
            appender.push_string(v);
        }
        appender.push_str("'");
        let ghost mid = appender.content();
        if let Some(p) = plugin {
            appender.push_str(" (of ");
            appender.push_borrowed_string(&p.plugin_type);
            let t = p.plugin_type.as_str();
            if !(str_eq(t, "role") || str_eq(t, "module") || str_eq(t, "playbook")) {
                appender.push_str(" plugin");
            }
            appender.push_str(" ");
            appender.push_borrowed_string(&p.fqcn);
            if str_eq(t, "role") {
                if let Some(ep) = entrypoint {
                    appender.push_str(", ");
                    appender.push_borrowed_string(ep);
                    appender.push_str(" entrypoint");
                }
            }
            appender.push_str(")");
        }
        proof {
            let o = OptionRefView {
                plugin: plugin_view(plugin),
                entrypoint: opt_view(entrypoint),
                link: Seq::empty(),
                name: name@,
                value: opt_view(value),
            };
            assert(appender.content() =~= base + text_option_like(o));
        }
    }
}

impl Formatter for AnsibleDocTextFormatter {
    open spec fn render(&self, part: PartView, url: Option<Seq<char>>) -> Seq<char> {
        text_render(part)
    }

    fn append<A: Appender>(&self, appender: &mut A, part: &Part, url: &Option<String>) {
        let ghost base = appender.content();
        match part {
            Part::Text { text } => appender.push_string(text),
            Part::Bold { text } => self.append_tag(appender, "*", text.as_str(), "*"),
            Part::Italic { text } => self.append_tag(appender, "`", text.as_str(), "'"),
            Part::Code { text } => self.append_tag(appender, "`", text.as_str(), "'"),
            Part::HorizontalLine => appender.push_str("\n-------------\n"),
            Part::OptionValue { value } => self.append_tag(appender, "`", value.as_str(), "'"),
            Part::EnvVariable { name } => self.append_tag(appender, "`", name.as_str(), "'"),
            Part::Error { message } => self.append_tag(
                appender,
                "[[ERROR while parsing: ",
                message.as_str(),
                "]]",
            ),
            Part::RSTRef { text, .. } => appender.push_string(text),
            Part::Link { text, url } => {
                appender.push_string(text);
                self.append_tag(appender, " <", url.as_str(), ">");
            },
            Part::URL { url } => appender.push_string(url),
            Part::Module { fqcn } => self.append_fqcn(appender, fqcn.as_str()),
            Part::Plugin { plugin } => self.append_fqcn(appender, plugin.fqcn.as_str()),
            Part::OptionName { plugin, entrypoint, name, value, .. } => self.append_option_like(
                appender,
                name,
                value,
                plugin,
                entrypoint,
            ),
            Part::ReturnValue { plugin, entrypoint, name, value, .. } => self.append_option_like(
                appender,
                name,
                value,
                plugin,
                entrypoint,
            ),
        }
        proof {
            assert(appender.content() =~= base + text_render(part_view(part)));
        }
    }
}

/// Writes one paragraph as terminal text.
pub fn append_ansible_doc_text_paragraph<A: Appender, L: LinkProvider>(
    appender: &mut A,
    paragraph: &Vec<Part>,
    link_provider: &L,
    current_plugin: &Option<PluginIdentifier>,
)
    ensures
        final(appender).content() == old(appender).content() + paragraph_text(
            &AnsibleDocTextFormatter {},
            link_provider,
            parts_view(paragraph@),
            plugin_view(current_plugin),
            ""@,
            ""@,
            ""@,
        ),
{
    let f = AnsibleDocTextFormatter::new();
    append_paragraph(appender, paragraph, &f, link_provider, "", "", "", current_plugin);
}

/// Writes several paragraphs as terminal text, separated by blank lines.
pub fn append_ansible_doc_text_paragraphs<A: Appender, L: LinkProvider>(
    appender: &mut A,
    paragraphs: &Vec<Vec<Part>>,
    link_provider: &L,
    current_plugin: &Option<PluginIdentifier>,
)
    ensures
        final(appender).content() == old(appender).content() + paragraphs_text(
            &AnsibleDocTextFormatter {},
            link_provider,
            paragraphs_view(paragraphs@),
            plugin_view(current_plugin),
            ""@,
            ""@,
            "\n\n"@,
            ""@,
        ),
{
    let f = AnsibleDocTextFormatter::new();
    append_paragraphs(appender, paragraphs, &f, link_provider, "", "", "\n\n", "", current_plugin);
}

} // verus!
