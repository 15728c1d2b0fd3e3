//! reStructuredText with the roles of the Ansible documentation site.
use vstd::prelude::*;
use crate::appender::Appender;
use crate::dom::{Part, PartView, PluginIdentifier, part_view, parts_view, plugin_view};
use crate::escape::{RSTEscaper, URLEscaper, rst_escape, url_escaped};
use crate::format::{Formatter, LinkProvider, OptionLike, append_paragraph, append_paragraphs, paragraph_text, paragraphs_text, paragraphs_view};
use crate::text::opt_view;

verus! {

/// A link: nothing without text, the escaped text without a URL.
pub open spec fn rst_link(text: Seq<char>, url: Seq<char>) -> Seq<char> {
    if text.len() == 0 {
        Seq::empty()
    } else if url.len() == 0 {
        rst_escape(text, false, false)
    } else {
        "\\ `"@ + rst_escape(text, true, false) + " <"@ + url_escaped(url, false) + ">`__\\ "@
    }
}

/// A reference to a plugin's page.
pub open spec fn rst_fqcn(fqcn: Seq<char>, plugin_type: Seq<char>) -> Seq<char> {
    "\\ :ref:`"@ + rst_escape(fqcn, false, false) + " <ansible_collections."@ + fqcn + "_"@
        + plugin_type + ">`\\ "@
}

/// A role whose content is escaped and guarded on both sides.
pub open spec fn rst_role(start: Seq<char>, text: Seq<char>) -> Seq<char> {
    start + rst_escape(text, true, true) + "`\\ "@
}

/// The content of an option role: `fqcn#type:entrypoint:name=value`, each
/// qualifier only where it is known.
pub open spec fn rst_option_content(
    plugin: Option<(Seq<char>, Seq<char>)>,
    entrypoint: Option<Seq<char>>,
    name: Seq<char>,
    value: Option<Seq<char>>,
) -> Seq<char> {
    (match plugin {
        Some((f, t)) => f + "#"@ + t + ":"@,
        None => Seq::empty(),
    }) + (match entrypoint {
        Some(e) => e + ":"@,
        None => Seq::empty(),
    }) + name + match value {
        Some(v) => "="@ + v,
        None => Seq::empty(),
    }
}

pub open spec fn option_role(what: OptionLike) -> Seq<char> {
    if what == OptionLike::Option {
        "\\ :ansopt:`"@
    } else {
        "\\ :ansretval:`"@
    }
}

/// The antsibull reStructuredText of a part; URLs are not used.
pub open spec fn antsibull_rst_render(p: PartView) -> Seq<char> {
    match p {
        PartView::Text(t) => rst_escape(t, false, false),
        PartView::Bold(t) => rst_role("\\ :strong:`"@, t),
        PartView::Italic(t) => rst_role("\\ :emphasis:`"@, t),
        PartView::Code(t) => rst_role("\\ :literal:`"@, t),
        PartView::HorizontalLine => "\n\n.. raw:: html\n\n  <hr>\n\n"@,
        PartView::OptionValue(t) => rst_role("\\ :ansval:`"@, t),
        PartView::EnvVariable(t) => rst_role("\\ :envvar:`"@, t),
        PartView::Error(m) => "\\ :strong:`ERROR while parsing`\\ : "@ + rst_escape(m, true, true)
            + "\\ "@,
        PartView::RSTRef(t, r) => "\\ :ref:`"@ + rst_escape(t, true, true) + " <"@ + r + ">`\\ "@,
        PartView::Link(t, u) => rst_link(t, u),
        PartView::URL(u) => rst_link(u, u),
        PartView::Module(f) => rst_fqcn(f, "module"@),
        PartView::Plugin(f, t) => rst_fqcn(f, t),
        PartView::OptionName(o) => rst_role(
            option_role(OptionLike::Option),
            rst_option_content(o.plugin, o.entrypoint, o.name, o.value),
        ),
        PartView::ReturnValue(o) => rst_role(
            option_role(OptionLike::RetVal),
            rst_option_content(o.plugin, o.entrypoint, o.name, o.value),
        ),
    }
}

/// Writes parts as antsibull reStructuredText.
pub struct AntsibullRSTFormatter {
    pub rst_escaper: RSTEscaper,
    pub url_escaper: URLEscaper,
}

impl AntsibullRSTFormatter {
    pub fn new() -> (r: AntsibullRSTFormatter) {
        AntsibullRSTFormatter { rst_escaper: RSTEscaper::new(), url_escaper: URLEscaper::new() }
    }

    fn append_tag<A: Appender>(&self, appender: &mut A, start: &str, text: &str, end: &str)
        ensures
            final(appender).content() == old(appender).content() + start@ + rst_escape(text@, true, true) + end@,
    {
        appender.push_str(start);
        appender.push_owned_string(self.rst_escaper.escape(text, true, true));
        appender.push_str(end);
    }

    fn append_link<A: Appender>(&self, appender: &mut A, text: &str, url: &str)
        ensures
            final(appender).content() == old(appender).content() + rst_link(text@, url@),
    {
        let ghost base = appender.content();
        if text.is_empty() {
            proof {
                assert(appender.content() =~= base + rst_link(text@, url@));
            }
            return;
        }
        if url.is_empty() {
            appender.push_owned_string(self.rst_escaper.escape(text, false, false));
            return;
        }
        appender.push_str("\\ `");
        appender.push_owned_string(self.rst_escaper.escape(text, true, false));
        appender.push_str(" <");
        appender.push_owned_string(self.url_escaper.escape(url));
        appender.push_str(">`__\\ ");
        proof {
            assert(appender.content() =~= base + rst_link(text@, url@));
        }
    }

    fn append_fqcn<A: Appender>(&self, appender: &mut A, fqcn: &str, plugin_type: &str)
        ensures
            final(appender).content() == old(appender).content() + rst_fqcn(fqcn@, plugin_type@),
    {
        let ghost base = appender.content();
        appender.push_str("\\ :ref:`");
        appender.push_owned_string(self.rst_escaper.escape(fqcn, false, false));
        appender.push_str(" <ansible_collections.");
        appender.push_str(fqcn);
        appender.push_str("_");
        appender.push_str(plugin_type);
        appender.push_str(">`\\ ");
        proof {
            assert(appender.content() =~= base + rst_fqcn(fqcn@, plugin_type@));
        }
    }

    fn append_option_like<A: Appender>(
        &self,
        appender: &mut A,
        plugin: &Option<PluginIdentifier>,
        entrypoint: &Option<String>,
        name: &String,
        value: &Option<String>,
        what: OptionLike,
    )
        ensures
            final(appender).content() == old(appender).content() + rst_role(
                option_role(what),
                rst_option_content(plugin_view(plugin), opt_view(entrypoint), name@, opt_view(value)),
            ),
    {
        let ghost base = appender.content();
        if what == OptionLike::Option {
            appender.push_str("\\ :ansopt:`");
        } else {
            appender.push_str("\\ :ansretval:`");
        }
        let mut b = String::new();
        if let Some(p) = plugin {
            b.append(p.fqcn.as_str());
            b.append("#");
            b.append(p.plugin_type.as_str());
            b.append(":");
        }
        if let Some(ep) = entrypoint {
            b.append(ep.as_str());
            b.append(":");
        }
        b.append(name.as_str());
        if let Some(v) = value {
            b.append("=");
            b.append(v.as_str());
        }
        proof {
            assert(b@ =~= rst_option_content(plugin_view(plugin), opt_view(entrypoint), name@, opt_view(value)));
        }
        appender.push_owned_string(self.rst_escaper.escape(b.as_str(), true, true));
        appender.push_str("`\\ ");
        proof {
            assert(appender.content() =~= base + rst_role(
                option_role(what),
                rst_option_content(plugin_view(plugin), opt_view(entrypoint), name@, opt_view(value)),
            ));
        }
    }
}

impl Formatter for AntsibullRSTFormatter {
    open spec fn render(&self, part: PartView, url: Option<Seq<char>>) -> Seq<char> {
        antsibull_rst_render(part)
    }

    fn append<A: Appender>(&self, appender: &mut A, part: &Part, url: &Option<String>) {
        let ghost base = appender.content();
        match part {
            Part::Text { text } => appender.push_owned_string(self.rst_escaper.escape(text.as_str(), false, false)),
            Part::Bold { text } => self.append_tag(appender, "\\ :strong:`", text.as_str(), "`\\ "),
            Part::Italic { text } => self.append_tag(appender, "\\ :emphasis:`", text.as_str(), "`\\ "),
            Part::Code { text } => self.append_tag(appender, "\\ :literal:`", text.as_str(), "`\\ "),
            Part::HorizontalLine => appender.push_str("\n\n.. raw:: html\n\n  <hr>\n\n"),
            Part::OptionValue { value } => self.append_tag(appender, "\\ :ansval:`", value.as_str(), "`\\ "),
            Part::EnvVariable { name } => self.append_tag(appender, "\\ :envvar:`", name.as_str(), "`\\ "),
            Part::Error { message } => self.append_tag(
                appender,
                "\\ :strong:`ERROR while parsing`\\ : ",
                message.as_str(),
                "\\ ",
            ),
            Part::RSTRef { text, reference } => {
                self.append_tag(appender, "\\ :ref:`", text.as_str(), " <");
                appender.push_string(reference);
                appender.push_str(">`\\ ");
            },
            Part::Link { text, url } => self.append_link(appender, text.as_str(), url.as_str()),
            Part::URL { url } => self.append_link(appender, url.as_str(), url.as_str()),
            Part::Module { fqcn } => self.append_fqcn(appender, fqcn.as_str(), "module"),
            Part::Plugin { plugin } => self.append_fqcn(
                appender,
                plugin.fqcn.as_str(),
                plugin.plugin_type.as_str(),
            ),
            Part::OptionName { plugin, entrypoint, name, value, .. } => self.append_option_like(
                appender,
                plugin,
                entrypoint,
                name,
                value,
                OptionLike::Option,
            ),
            Part::ReturnValue { plugin, entrypoint, name, value, .. } => self.append_option_like(
                appender,
                plugin,
                entrypoint,
                name,
                value,
                OptionLike::RetVal,
            ),
        }
        proof {
            assert(appender.content() =~= base + antsibull_rst_render(part_view(part)));
        }
    }
}

/// Writes one paragraph as antsibull reStructuredText; an empty paragraph is `\ `.
pub fn append_antsibull_rst_paragraph<A: Appender, L: LinkProvider>(
    appender: &mut A,
    paragraph: &Vec<Part>,
    link_provider: &L,
    current_plugin: &Option<PluginIdentifier>,
)
    ensures
        final(appender).content() == old(appender).content() + paragraph_text(
            &AntsibullRSTFormatter { rst_escaper: RSTEscaper {}, url_escaper: URLEscaper {} },
            link_provider,
            parts_view(paragraph@),
            plugin_view(current_plugin),
            ""@,
            ""@,
            "\\ "@,
        ),
{
    let f = AntsibullRSTFormatter::new();
    append_paragraph(appender, paragraph, &f, link_provider, "", "", "\\ ", current_plugin);
}

/// Writes several paragraphs as antsibull reStructuredText, separated by blank lines.
pub fn append_antsibull_rst_paragraphs<A: Appender, L: LinkProvider>(
    appender: &mut A,
    paragraphs: &Vec<Vec<Part>>,
    link_provider: &L,
    current_plugin: &Option<PluginIdentifier>,
)
    ensures
        final(appender).content() == old(appender).content() + paragraphs_text(
            &AntsibullRSTFormatter { rst_escaper: RSTEscaper {}, url_escaper: URLEscaper {} },
            link_provider,
            paragraphs_view(paragraphs@),
            plugin_view(current_plugin),
            ""@,
            ""@,
            "\n\n"@,
            "\\ "@,
        ),
{
    let f = AntsibullRSTFormatter::new();
    append_paragraphs(appender, paragraphs, &f, link_provider, "", "", "\n\n", "\\ ", current_plugin);
}

} // verus!
