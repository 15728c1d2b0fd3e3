//! Plain HTML without CSS classes.
use vstd::prelude::*;
use crate::appender::Appender;
use crate::dom::{Part, PartView, PluginIdentifier, part_view, parts_view, plugin_view};
use crate::escape::{HTMLEscaper, URLEscaper, html_escape, url_escaped};
use crate::format::{Formatter, LinkProvider, OptionLike, append_paragraph, append_paragraphs, paragraph_text, paragraphs_text, paragraphs_view};
use crate::html_antsibull::{antsibull_html_link, is_strong, option_close};
use crate::text::opt_view;

verus! {

/// A module or plugin name, linked when there is a URL.
pub open spec fn plain_html_fqcn(fqcn: Seq<char>, url: Option<Seq<char>>) -> Seq<char> {
    match url {
        Some(u) => "<a href='"@ + url_escaped(u, true) + "'>"@ + html_escape(fqcn) + "</a>"@,
        None => "<span>"@ + html_escape(fqcn) + "</span>"@,
    }
}

/// The opening tags of an option-like reference.
pub open spec fn code_open(value: Option<Seq<char>>, what: OptionLike) -> Seq<char> {
    "<code>"@ + (if is_strong(value, what) {
        "<strong>"@
    } else {
        Seq::empty()
    })
}

pub open spec fn plain_html_option_body(
    name: Seq<char>,
    value: Option<Seq<char>>,
    url: Option<Seq<char>>,
) -> Seq<char> {
    (match url {
        Some(u) => "<a href=\""@ + url_escaped(u, true) + "\">"@,
        None => Seq::empty(),
    }) + html_escape(name) + (match value {
        Some(v) => "="@ + html_escape(v),
        None => Seq::empty(),
    }) + (if url is Some {
        "</a>"@
    } else {
        Seq::empty()
    })
}

/// An option or return-value reference. A bare option name is also strong.
pub open spec fn plain_html_option_like(
    name: Seq<char>,
    value: Option<Seq<char>>,
    what: OptionLike,
    url: Option<Seq<char>>,
) -> Seq<char> {
    code_open(value, what) + plain_html_option_body(name, value, url) + option_close(value, what)
}

/// The plain HTML of a part.
pub open spec fn plain_html_render(p: PartView, url: Option<Seq<char>>) -> Seq<char> {
    match p {
        PartView::Text(t) => html_escape(t),
        PartView::Bold(t) => "<b>"@ + html_escape(t) + "</b>"@,
        PartView::Italic(t) => "<em>"@ + html_escape(t) + "</em>"@,
        PartView::Code(t) => "<code>"@ + html_escape(t) + "</code>"@,
        PartView::HorizontalLine => "<hr>"@,
        PartView::OptionValue(t) => "<code>"@ + html_escape(t) + "</code>"@,
        PartView::EnvVariable(t) => "<code>"@ + html_escape(t) + "</code>"@,
        PartView::Error(m) => "<span class=\"error\">ERROR while parsing: "@ + html_escape(m)
            + "</span>"@,
        PartView::RSTRef(t, _) => "<span>"@ + html_escape(t) + "</span>"@,
        PartView::Link(t, u) => antsibull_html_link(t, u),
        PartView::URL(u) => antsibull_html_link(u, u),
        PartView::Module(f) => plain_html_fqcn(f, url),
        PartView::Plugin(f, _) => plain_html_fqcn(f, url),
        PartView::OptionName(o) => plain_html_option_like(o.name, o.value, OptionLike::Option, url),
        PartView::ReturnValue(o) => plain_html_option_like(o.name, o.value, OptionLike::RetVal, url),
    }
}

/// Writes parts as plain HTML.
pub struct PlainHTMLFormatter {
    pub html_escaper: HTMLEscaper,
    pub url_escaper: URLEscaper,
}

impl PlainHTMLFormatter {
    pub fn new() -> (r: PlainHTMLFormatter) {
        PlainHTMLFormatter { html_escaper: HTMLEscaper::new(), url_escaper: URLEscaper::new() }
    }

    fn append_tag<A: Appender>(&self, appender: &mut A, start: &str, text: &str, end: &str)
        ensures
            final(appender).content() == old(appender).content() + start@ + html_escape(text@) + end@,
    {
        appender.push_str(start);
        appender.push_owned_string(self.html_escaper.escape(text));
        appender.push_str(end);
    }

    fn append_link<A: Appender>(&self, appender: &mut A, text: &str, url: &str)
        ensures
            final(appender).content() == old(appender).content() + antsibull_html_link(text@, url@),
    {
        let ghost base = appender.content();
        appender.push_str("<a href='");
        appender.push_owned_string(self.url_escaper.escape_with_html_escape(url));
        appender.push_str("'>");
        appender.push_owned_string(self.html_escaper.escape(text));
        appender.push_str("</a>");
        proof {
            assert(appender.content() =~= base + antsibull_html_link(text@, url@));
        }
    }

    fn append_fqcn<A: Appender>(&self, appender: &mut A, fqcn: &str, url: &Option<String>)
        ensures
            final(appender).content() == old(appender).content() + plain_html_fqcn(fqcn@, opt_view(url)),
    {
        let ghost base = appender.content();
        match url {
            Some(u) => {
                appender.push_str("<a href='");
                appender.push_owned_string(self.url_escaper.escape_with_html_escape(u.as_str()));
                appender.push_str("'>");
                appender.push_owned_string(self.html_escaper.escape(fqcn));
                appender.push_str("</a>");
            },
            None => {
                appender.push_str("<span>");
                appender.push_owned_string(self.html_escaper.escape(fqcn));
                appender.push_str("</span>");
            },
        }
        proof {
            assert(appender.content() =~= base + plain_html_fqcn(fqcn@, opt_view(url)));
        }
    }

    fn append_option_body<A: Appender>(
        &self,
        appender: &mut A,
        name: &String,
        value: &Option<String>,
        url: &Option<String>,
    )
        ensures
            final(appender).content() == old(appender).content() + plain_html_option_body(
                name@,
                opt_view(value),
                opt_view(url),
            ),
    {
        let ghost base = appender.content();
        if let Some(u) = url {
            appender.push_str("<a href=\"");
            appender.push_owned_string(self.url_escaper.escape_with_html_escape(u.as_str()));
            appender.push_str("\">");
        }
        appender.push_owned_string(self.html_escaper.escape(name.as_str()));
        if let Some(v) = value {
            appender.push_str("=");
            appender.push_owned_string(self.html_escaper.escape(v.as_str()));
        }
        if url.is_some() {
            appender.push_str("</a>");
        }
        proof {
            assert(appender.content() =~= base + plain_html_option_body(
                name@,
                opt_view(value),
                opt_view(url),
            ));
        }
    }

    fn append_option_like<A: Appender>(
        &self,
        appender: &mut A,
        name: &String,
        value: &Option<String>,
        what: OptionLike,
        url: &Option<String>,
    )
        ensures
            final(appender).content() == old(appender).content() + plain_html_option_like(
                name@,
                opt_view(value),
                what,
                opt_view(url),
            ),
    {
        let ghost base = appender.content();
        let strong = what == OptionLike::Option && value.is_none();
        appender.push_str("<code>");
        if strong {
            appender.push_str("<strong>");
        }
        let ghost a = appender.content();
        self.append_option_body(appender, name, value, url);
        let ghost b = appender.content();
        if strong {
            appender.push_str("</strong>");
        }
        appender.push_str("</code>");
        proof {
            assert(a =~= base + code_open(opt_view(value), what));
            assert(appender.content() =~= b + option_close(opt_view(value), what));
            assert(appender.content() =~= base + plain_html_option_like(
                name@,
                opt_view(value),
                what,
                opt_view(url),
            ));
        }
    }
}

impl Formatter for PlainHTMLFormatter {
    open spec fn render(&self, part: PartView, url: Option<Seq<char>>) -> Seq<char> {
        plain_html_render(part, url)
    }

    fn append<A: Appender>(&self, appender: &mut A, part: &Part, url: &Option<String>) {
        let ghost base = appender.content();
        match part {
            Part::Text { text } => appender.push_owned_string(self.html_escaper.escape(text.as_str())),
            Part::Bold { text } => self.append_tag(appender, "<b>", text.as_str(), "</b>"),
            Part::Italic { text } => self.append_tag(appender, "<em>", text.as_str(), "</em>"),
            Part::Code { text } => self.append_tag(appender, "<code>", text.as_str(), "</code>"),
            Part::HorizontalLine => appender.push_str("<hr>"),
            Part::OptionValue { value } => self.append_tag(appender, "<code>", value.as_str(), "</code>"),
            Part::EnvVariable { name } => self.append_tag(appender, "<code>", name.as_str(), "</code>"),
            Part::Error { message } => self.append_tag(
                appender,
                "<span class=\"error\">ERROR while parsing: ",
                message.as_str(),
                "</span>",
            ),
            Part::RSTRef { text, .. } => self.append_tag(appender, "<span>", text.as_str(), "</span>"),
            Part::Link { text, url } => self.append_link(appender, text.as_str(), url.as_str()),
            Part::URL { url } => self.append_link(appender, url.as_str(), url.as_str()),
            Part::Module { fqcn } => self.append_fqcn(appender, fqcn.as_str(), url),
            Part::Plugin { plugin } => self.append_fqcn(appender, plugin.fqcn.as_str(), url),
            Part::OptionName { name, value, .. } => self.append_option_like(
                appender,
                name,
                value,
                OptionLike::Option,
                url,
            ),
            Part::ReturnValue { name, value, .. } => self.append_option_like(
                appender,
                name,
                value,
                OptionLike::RetVal,
                url,
            ),
        }
        proof {
            assert(appender.content() =~= base + plain_html_render(part_view(part), opt_view(url)));
        }
    }
}

/// Writes one paragraph as plain HTML, inside `<p>` and `</p>`.
pub fn append_plain_html_paragraph<A: Appender, L: LinkProvider>(
    appender: &mut A,
    paragraph: &Vec<Part>,
    link_provider: &L,
    current_plugin: &Option<PluginIdentifier>,
)
    ensures
        final(appender).content() == old(appender).content() + paragraph_text(
            &PlainHTMLFormatter { html_escaper: HTMLEscaper {}, url_escaper: URLEscaper {} },
            link_provider,
            parts_view(paragraph@),
            plugin_view(current_plugin),
            "<p>"@,
            "</p>"@,
            ""@,
        ),
{
    let f = PlainHTMLFormatter::new();
    append_paragraph(appender, paragraph, &f, link_provider, "<p>", "</p>", "", current_plugin);
}

/// Writes several paragraphs as plain HTML.
pub fn append_plain_html_paragraphs<A: Appender, L: LinkProvider>(
    appender: &mut A,
    paragraphs: &Vec<Vec<Part>>,
    link_provider: &L,
    current_plugin: &Option<PluginIdentifier>,
)
    ensures
        final(appender).content() == old(appender).content() + paragraphs_text(
            &PlainHTMLFormatter { html_escaper: HTMLEscaper {}, url_escaper: URLEscaper {} },
            link_provider,
            paragraphs_view(paragraphs@),
            plugin_view(current_plugin),
            "<p>"@,
            "</p>"@,
            ""@,
            ""@,
        ),
{
    let f = PlainHTMLFormatter::new();
    append_paragraphs(appender, paragraphs, &f, link_provider, "<p>", "</p>", "", "", current_plugin);
}

} // verus!
