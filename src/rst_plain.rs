//! reStructuredText with the standard roles only.
use vstd::prelude::*;
use crate::appender::Appender;
use crate::dom::{Part, PartView, PluginIdentifier, part_view, parts_view, plugin_view};
use crate::escape::{RSTEscaper, URLEscaper, rst_escape};
use crate::format::{Formatter, LinkProvider, append_paragraph, append_paragraphs, paragraph_text, paragraphs_text, paragraphs_view};
use crate::text::{opt_view, str_eq};
use crate::rst_antsibull::{rst_link, rst_fqcn, rst_role};

verus! {

/// Whether a plugin type is written without the word "plugin" after it.
pub open spec fn is_bare_type(t: Seq<char>) -> bool {
    t == "module"@ || t == "role"@ || t == "playbook"@
}

/// What an option-like reference says of its plugin and entrypoint, in parentheses.
pub open spec fn rst_plain_suffix(
    plugin: Option<(Seq<char>, Seq<char>)>,
    entrypoint: Option<Seq<char>>,
) -> Seq<char> {
    if plugin is None && entrypoint is None {
        Seq::empty()
    } else {
        " (of "@ + (match plugin {
            Some((f, t)) => t + (if is_bare_type(t) {
                Seq::empty()
            } else {
                " plugin"@
            }) + " :ref:`"@ + f + " <ansible_collections."@ + f + "_"@ + t + ">`"@,
            None => Seq::empty(),
        }) + (match entrypoint {
            Some(e) => (if plugin is Some {
                ", "@
            } else {
                Seq::empty()
            }) + "entrypoint "@ + rst_escape(e, true, true),
            None => Seq::empty(),
        }) + ")"@
    }
}

/// An option or return-value reference: the literal name and value, then
/// what it says of its plugin.
pub open spec fn rst_plain_option_like(
    plugin: Option<(Seq<char>, Seq<char>)>,
    entrypoint: Option<Seq<char>>,
    name: Seq<char>,
    value: Option<Seq<char>>,
) -> Seq<char> {
    "\\ :literal:`"@ + rst_escape(
        name + match value {
            Some(v) => "="@ + v,
            None => Seq::empty(),
        },
        true,
        true,
    ) + "`"@ + rst_plain_suffix(plugin, entrypoint) + "\\ "@
}

/// The plain reStructuredText of a part; URLs are not used.
pub open spec fn plain_rst_render(p: PartView) -> Seq<char> {
    match p {
        PartView::Text(t) => rst_escape(t, false, false),
        PartView::Bold(t) => rst_role("\\ :strong:`"@, t),
        PartView::Italic(t) => rst_role("\\ :emphasis:`"@, t),
        PartView::Code(t) => rst_role("\\ :literal:`"@, t),
        PartView::HorizontalLine => "\n\n------------\n\n"@,
        PartView::OptionValue(t) => rst_role("\\ :literal:`"@, t),
        PartView::EnvVariable(t) => rst_role("\\ :envvar:`"@, t),
        PartView::Error(m) => "\\ :strong:`ERROR while parsing`\\ : "@ + rst_escape(m, true, true)
            + "\\ "@,
        PartView::RSTRef(t, r) => "\\ :ref:`"@ + rst_escape(t, true, true) + " <"@ + r + ">`\\ "@,
        PartView::Link(t, u) => rst_link(t, u),
        PartView::URL(u) => rst_link(u, u),
        PartView::Module(f) => rst_fqcn(f, "module"@),
        PartView::Plugin(f, t) => rst_fqcn(f, t),
        PartView::OptionName(o) => rst_plain_option_like(o.plugin, o.entrypoint, o.name, o.value),
        PartView::ReturnValue(o) => rst_plain_option_like(o.plugin, o.entrypoint, o.name, o.value),
    }
}

/// Writes parts as plain reStructuredText.
pub struct PlainRSTFormatter {
    pub rst_escaper: RSTEscaper,
    pub url_escaper: URLEscaper,
}

impl PlainRSTFormatter {
    pub fn new() -> (r: PlainRSTFormatter) {
        PlainRSTFormatter { rst_escaper: RSTEscaper::new(), url_escaper: URLEscaper::new() }
    }

    fn append_tag<A: Appender>(&self, appender: &mut A, start: &str, text: &str, end: &str)
        ensures
            final(appender).content() == old(appender).content() + start@ + rst_escape(text@, true, true) + end@,
    {
        appender.push_str(start);
        appender.push_owned_string(self.rst_escaper.escape(text, true, true));
        appender.push_str(end);
    }

    fn append_link<A: Appender>(&self, appender: &mut A, text: &str, url: &str)
        ensures
            final(appender).content() == old(appender).content() + rst_link(text@, url@),
    {
        let ghost base = appender.content();
        if text.is_empty() {
            proof {
                assert(appender.content() =~= base + rst_link(text@, url@));
            }
            return;
        }
        if url.is_empty() {
            appender.push_owned_string(self.rst_escaper.escape(text, false, false));
            return;
        }
        appender.push_str("\\ `");
        appender.push_owned_string(self.rst_escaper.escape(text, true, false));
        appender.push_str(" <");
        appender.push_owned_string(self.url_escaper.escape(url));
        appender.push_str(">`__\\ ");
        proof {
            assert(appender.content() =~= base + rst_link(text@, url@));
        }
    }

    fn append_fqcn<A: Appender>(&self, appender: &mut A, fqcn: &str, plugin_type: &str)
        ensures
            final(appender).content() == old(appender).content() + rst_fqcn(fqcn@, plugin_type@),
    {
        let ghost base = appender.content();
        appender.push_str("\\ :ref:`");
        appender.push_owned_string(self.rst_escaper.escape(fqcn, false, false));
        appender.push_str(" <ansible_collections.");
        appender.push_str(fqcn);
        appender.push_str("_");
        appender.push_str(plugin_type);
        appender.push_str(">`\\ ");
        proof {
            assert(appender.content() =~= base + rst_fqcn(fqcn@, plugin_type@));
        }
    }

    fn append_suffix<A: Appender>(
        &self,
        appender: &mut A,
        plugin: &Option<PluginIdentifier>,
        entrypoint: &Option<String>,
    )
        ensures
            final(appender).content() == old(appender).content() + rst_plain_suffix(
                plugin_view(plugin),
                opt_view(entrypoint),
            ),
    {
        let ghost base = appender.content();
        if plugin.is_none() && entrypoint.is_none() {
            return;
        }
        appender.push_str(" (of ");
        if let Some(p) = plugin {
            let t = p.plugin_type.as_str();
            appender.push_str(t);
            if !(str_eq(t, "module") || str_eq(t, "role") || str_eq(t, "playbook")) {
                appender.push_str(" plugin");
            }
            appender.push_str(" :ref:`");
            appender.push_str(p.fqcn.as_str());
            appender.push_str(" <ansible_collections.");
            appender.push_str(p.fqcn.as_str());
            appender.push_str("_");
            appender.push_str(t);
            appender.push_str(">`");
        }
        if let Some(ep) = entrypoint {
            if plugin.is_some() {
                appender.push_str(", ");
            }
            appender.push_str("entrypoint ");
            appender.push_owned_string(self.rst_escaper.escape(ep.as_str(), true, true));
        }
        appender.push_str(")");
        proof {
            assert(appender.content() =~= base + rst_plain_suffix(plugin_view(plugin), opt_view(entrypoint)));
        }
    }

    fn append_option_like<A: Appender>(
        &self,
        appender: &mut A,
        plugin: &Option<PluginIdentifier>,
        entrypoint: &Option<String>,
        name: &String,
        value: &Option<String>,
    )
        ensures
            final(appender).content() == old(appender).content() + rst_plain_option_like(
                plugin_view(plugin),
                opt_view(entrypoint),
                name@,
                opt_view(value),
            ),
    {
        let ghost base = appender.content();
        appender.push_str("\\ :literal:`");
        let mut b = String::new();
        b.append(name.as_str());
        if let Some(v) = value {
            b.append("=");
            b.append(v.as_str());
        }
        let ghost content = name@ + match opt_view(value) {
            Some(v) => "="@ + v,
            None => Seq::<char>::empty(),
        };
        proof {
            assert(b@ =~= content);
        }
        appender.push_owned_string(self.rst_escaper.escape(b.as_str(), true, true));
        appender.push_str("`");
        self.append_suffix(appender, plugin, entrypoint);
        appender.push_str("\\ ");
        proof {
            assert(appender.content() =~= base + rst_plain_option_like(
                plugin_view(plugin),
                opt_view(entrypoint),
                name@,
                opt_view(value),
            ));
        }
    }
}

impl Formatter for PlainRSTFormatter {
    open spec fn render(&self, part: PartView, url: Option<Seq<char>>) -> Seq<char> {
        plain_rst_render(part)
    }

    fn append<A: Appender>(&self, appender: &mut A, part: &Part, url: &Option<String>) {
        let ghost base = appender.content();
        match part {
            Part::Text { text } => appender.push_owned_string(self.rst_escaper.escape(text.as_str(), false, false)),
            Part::Bold { text } => self.append_tag(appender, "\\ :strong:`", text.as_str(), "`\\ "),
            Part::Italic { text } => self.append_tag(appender, "\\ :emphasis:`", text.as_str(), "`\\ "),
            Part::Code { text } => self.append_tag(appender, "\\ :literal:`", text.as_str(), "`\\ "),
            Part::HorizontalLine => appender.push_str("\n\n------------\n\n"),
            Part::OptionValue { value } => self.append_tag(appender, "\\ :literal:`", value.as_str(), "`\\ "),
            Part::EnvVariable { name } => self.append_tag(appender, "\\ :envvar:`", name.as_str(), "`\\ "),
            Part::Error { message } => self.append_tag(
                appender,
                "\\ :strong:`ERROR while parsing`\\ : ",
                message.as_str(),
                "\\ ",
            ),
            Part::RSTRef { text, reference } => {
                self.append_tag(appender, "\\ :ref:`", text.as_str(), " <");
                appender.push_string(reference);
                appender.push_str(">`\\ ");
            },
            Part::Link { text, url } => self.append_link(appender, text.as_str(), url.as_str()),
            Part::URL { url } => self.append_link(appender, url.as_str(), url.as_str()),
            Part::Module { fqcn } => self.append_fqcn(appender, fqcn.as_str(), "module"),
            Part::Plugin { plugin } => self.append_fqcn(
                appender,
                plugin.fqcn.as_str(),
                plugin.plugin_type.as_str(),
            ),
            Part::OptionName { plugin, entrypoint, name, value, .. } => self.append_option_like(
                appender,
                plugin,
                entrypoint,
                name,
                value,
            ),
            Part::ReturnValue { plugin, entrypoint, name, value, .. } => self.append_option_like(
                appender,
                plugin,
                entrypoint,
                name,
                value,
            ),
        }
        proof {
            assert(appender.content() =~= base + plain_rst_render(part_view(part)));
        }
    }
}

/// Writes one paragraph as plain reStructuredText; an empty paragraph is `\ `.
pub fn append_plain_rst_paragraph<A: Appender, L: LinkProvider>(
    appender: &mut A,
    paragraph: &Vec<Part>,
    link_provider: &L,
    current_plugin: &Option<PluginIdentifier>,
)
    ensures
        final(appender).content() == old(appender).content() + paragraph_text(
            &PlainRSTFormatter { rst_escaper: RSTEscaper {}, url_escaper: URLEscaper {} },
            link_provider,
            parts_view(paragraph@),
            plugin_view(current_plugin),
            ""@,
            ""@,
            "\\ "@,
        ),
{
    let f = PlainRSTFormatter::new();
    append_paragraph(appender, paragraph, &f, link_provider, "", "", "\\ ", current_plugin);
}

/// Writes several paragraphs as plain reStructuredText, separated by blank lines.
pub fn append_plain_rst_paragraphs<A: Appender, L: LinkProvider>(
    appender: &mut A,
    paragraphs: &Vec<Vec<Part>>,
    link_provider: &L,
    current_plugin: &Option<PluginIdentifier>,
)
    ensures
        final(appender).content() == old(appender).content() + paragraphs_text(
            &PlainRSTFormatter { rst_escaper: RSTEscaper {}, url_escaper: URLEscaper {} },
            link_provider,
            paragraphs_view(paragraphs@),
            plugin_view(current_plugin),
            ""@,
            ""@,
            "\n\n"@,
            "\\ "@,
        ),
{
    let f = PlainRSTFormatter::new();
    append_paragraphs(appender, paragraphs, &f, link_provider, "", "", "\n\n", "\\ ", current_plugin);
}

} // verus!
