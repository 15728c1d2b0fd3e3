//! Rendering paragraphs of parts through a format backend.
use vstd::prelude::*;
use crate::appender::Appender;
use crate::dom::{Part, PartView, PluginIdentifier, part_view, parts_view, plugin_view, strings_view};
use crate::text::opt_view;

verus! {

/// Whether an option-like reference names an option or a return value.
#[derive(Clone, Copy, Debug, PartialEq, Eq, Structural)]
pub enum OptionLike {
    Option,
    RetVal,
}

/// A format backend: how each part is written.
pub trait Formatter {
    /// The text written for a part, given the URL that the link provider gave for it.
    spec fn render(&self, part: PartView, url: Option<Seq<char>>) -> Seq<char>;

    fn append<A: Appender>(&self, appender: &mut A, part: &Part, url: &Option<String>)
        ensures
            final(appender).content() == old(appender).content() + self.render(
                part_view(part),
                opt_view(url),
            ),
    ;
}

/// Resolves plugins and their options to URLs.
pub trait LinkProvider {
    spec fn spec_plugin_link(&self, fqcn: Seq<char>, plugin_type: Seq<char>) -> Option<Seq<char>>;

    spec fn spec_plugin_option_like_link(
        &self,
        fqcn: Seq<char>,
        plugin_type: Seq<char>,
        entrypoint: Option<Seq<char>>,
        what: OptionLike,
        name: Seq<Seq<char>>,
        current_plugin: bool,
    ) -> Option<Seq<char>>;

    fn plugin_link(&self, plugin: &PluginIdentifier) -> (r: Option<String>)
        ensures
            opt_view(&r) == self.spec_plugin_link(plugin.fqcn@, plugin.plugin_type@),
    ;

    fn plugin_option_like_link(
        &self,
        plugin: &PluginIdentifier,
        entrypoint: &Option<String>,
        what: OptionLike,
        name: &Vec<String>,
        current_plugin: bool,
    ) -> (r: Option<String>)
        ensures
            opt_view(&r) == self.spec_plugin_option_like_link(
                plugin.fqcn@,
                plugin.plugin_type@,
                opt_view(entrypoint),
                what,
                strings_view(name@),
                current_plugin,
            ),
    ;
}

/// A link provider that knows no URLs.
pub struct NoLinkProvider {}

impl NoLinkProvider {
    pub fn new() -> (r: NoLinkProvider) {
        NoLinkProvider {}
    }
}

impl LinkProvider for NoLinkProvider {
    open spec fn spec_plugin_link(&self, fqcn: Seq<char>, plugin_type: Seq<char>) -> Option<Seq<char>> {
        None
    }

    open spec fn spec_plugin_option_like_link(
        &self,
        fqcn: Seq<char>,
        plugin_type: Seq<char>,
        entrypoint: Option<Seq<char>>,
        what: OptionLike,
        name: Seq<Seq<char>>,
        current_plugin: bool,
    ) -> Option<Seq<char>> {
        None
    }

    fn plugin_link(&self, plugin: &PluginIdentifier) -> (r: Option<String>) {
        None
    }

    fn plugin_option_like_link(
        &self,
        plugin: &PluginIdentifier,
        entrypoint: &Option<String>,
        what: OptionLike,
        name: &Vec<String>,
        current_plugin: bool,
    ) -> (r: Option<String>) {
        None
    }
}

/// The URL that the link provider gives for a part, if the part is a reference.
pub open spec fn link_for<L: LinkProvider>(
    lp: &L,
    p: PartView,
    current: Option<(Seq<char>, Seq<char>)>,
) -> Option<Seq<char>> {
    match p {
        PartView::Module(f) => lp.spec_plugin_link(f, "module"@),
        PartView::Plugin(f, t) => lp.spec_plugin_link(f, t),
        PartView::OptionName(o) => match o.plugin {
            Some((f, t)) => lp.spec_plugin_option_like_link(
                f,
                t,
                o.entrypoint,
                OptionLike::Option,
                o.link,
                current == Some((f, t)),
            ),
            None => None,
        },
        PartView::ReturnValue(o) => match o.plugin {
            Some((f, t)) => lp.spec_plugin_option_like_link(
                f,
                t,
                o.entrypoint,
                OptionLike::RetVal,
                o.link,
                current == Some((f, t)),
            ),
            None => None,
        },
        _ => None,
    }
}

/// The text of a list of parts, written one after the other.
pub open spec fn render_parts<F: Formatter, L: LinkProvider>(
    f: &F,
    lp: &L,
    parts: Seq<PartView>,
    current: Option<(Seq<char>, Seq<char>)>,
) -> Seq<char>
    decreases parts.len(),
{
    if parts.len() == 0 {
        Seq::empty()
    } else {
        render_parts(f, lp, parts.drop_last(), current) + f.render(
            parts.last(),
            link_for(lp, parts.last(), current),
        )
    }
}

/// The text of a paragraph: its parts between `start` and `end`, or `empty`
/// in their place when there are none.
pub open spec fn paragraph_text<F: Formatter, L: LinkProvider>(
    f: &F,
    lp: &L,
    parts: Seq<PartView>,
    current: Option<(Seq<char>, Seq<char>)>,
    start: Seq<char>,
    end: Seq<char>,
    empty: Seq<char>,
) -> Seq<char> {
    start + (if parts.len() == 0 {
        empty
    } else {
        render_parts(f, lp, parts, current)
    }) + end
}

/// The text of several paragraphs, separated by `sep`.
pub open spec fn paragraphs_text<F: Formatter, L: LinkProvider>(
    f: &F,
    lp: &L,
    pars: Seq<Seq<PartView>>,
    current: Option<(Seq<char>, Seq<char>)>,
    start: Seq<char>,
    end: Seq<char>,
    sep: Seq<char>,
    empty: Seq<char>,
) -> Seq<char>
    decreases pars.len(),
{
    if pars.len() == 0 {
        Seq::empty()
    } else if pars.len() == 1 {
        paragraph_text(f, lp, pars[0], current, start, end, empty)
    } else {
        paragraphs_text(f, lp, pars.drop_last(), current, start, end, sep, empty) + sep
            + paragraph_text(f, lp, pars.last(), current, start, end, empty)
    }
}

/// The views of a list of paragraphs.
pub open spec fn paragraphs_view(v: Seq<Vec<Part>>) -> Seq<Seq<PartView>> {
    Seq::new(v.len(), |i: int| parts_view(v[i]@))
}

fn link_of<L: LinkProvider>(lp: &L, part: &Part, current: &Option<PluginIdentifier>) -> (r: Option<String>)
    ensures
        opt_view(&r) == link_for(lp, part_view(part), plugin_view(current)),
{
    match part {
        Part::Module { fqcn } => {
            let p = PluginIdentifier { fqcn: fqcn.clone(), plugin_type: String::from_str("module") };
            lp.plugin_link(&p)
        },
        Part::Plugin { plugin } => lp.plugin_link(plugin),
        Part::OptionName { plugin, entrypoint, link, .. } => match plugin {
            Some(p) => {
                let is_current = match current {
                    Some(c) => p.equals(c),
                    None => false,
                };
                lp.plugin_option_like_link(p, entrypoint, OptionLike::Option, link, is_current)
            },
            None => None,
        },
        Part::ReturnValue { plugin, entrypoint, link, .. } => match plugin {
            Some(p) => {
                let is_current = match current {
                    Some(c) => p.equals(c),
                    None => false,
                };
                lp.plugin_option_like_link(p, entrypoint, OptionLike::RetVal, link, is_current)
            },
            None => None,
        },
        _ => None,
    }
}

/// Writes one paragraph: `par_start`, each part (or `par_empty` if there is
/// none), then `par_end`.
pub fn append_paragraph<A: Appender, F: Formatter, L: LinkProvider>(
    appender: &mut A,
    paragraph: &Vec<Part>,
    formatter: &F,
    link_provider: &L,
    par_start: &str,
    par_end: &str,
    par_empty: &str,
    current_plugin: &Option<PluginIdentifier>,
)
    ensures
        final(appender).content() == old(appender).content() + paragraph_text(
            formatter,
            link_provider,
            parts_view(paragraph@),
            plugin_view(current_plugin),
            par_start@,
            par_end@,
            par_empty@,
        ),
{
    let ghost parts = parts_view(paragraph@);
    let ghost cur = plugin_view(current_plugin);
    appender.push_str(par_start);
    let ghost base = appender.content();
    let mut i: usize = 0;
    while i < paragraph.len()
        invariant
            i <= paragraph@.len(),
            parts == parts_view(paragraph@),
            cur == plugin_view(current_plugin),
            appender.content() == base + render_parts(formatter, link_provider, parts.take(i as int), cur),
        decreases paragraph@.len() - i,
    {
        let part = &paragraph[i];
        let url = link_of(link_provider, part, current_plugin);
        formatter.append(appender, part, &url);
        proof {
            assert(parts.take(i + 1).drop_last() =~= parts.take(i as int));
            assert(parts.take(i + 1).last() == part_view(part));
        }
        i += 1;
    }
    proof {
        assert(parts.take(paragraph@.len() as int) =~= parts);
    }
    if paragraph.len() == 0 {
        appender.push_str(par_empty);
    }
    appender.push_str(par_end);
}

/// Writes several paragraphs, with `par_sep` between each two.
pub fn append_paragraphs<A: Appender, F: Formatter, L: LinkProvider>(
    appender: &mut A,
    paragraphs: &Vec<Vec<Part>>,
    formatter: &F,
    link_provider: &L,
    par_start: &str,
    par_end: &str,
    par_sep: &str,
    par_empty: &str,
    current_plugin: &Option<PluginIdentifier>,
)
    ensures
        final(appender).content() == old(appender).content() + paragraphs_text(
            formatter,
            link_provider,
            paragraphs_view(paragraphs@),
            plugin_view(current_plugin),
            par_start@,
            par_end@,
            par_sep@,
            par_empty@,
        ),
{
    let ghost pars = paragraphs_view(paragraphs@);
    let ghost cur = plugin_view(current_plugin);
    let ghost base = appender.content();
    let mut i: usize = 0;
    while i < paragraphs.len()
        invariant
            i <= paragraphs@.len(),
            pars == paragraphs_view(paragraphs@),
            cur == plugin_view(current_plugin),
            appender.content() == base + paragraphs_text(
                formatter,
                link_provider,
                pars.take(i as int),
                cur,
                par_start@,
                par_end@,
                par_sep@,
                par_empty@,
            ),
        decreases paragraphs@.len() - i,
    {
        if i > 0 {
            appender.push_str(par_sep);
        }
        append_paragraph(
            appender,
            &paragraphs[i],
            formatter,
            link_provider,
            par_start,
            par_end,
            par_empty,
            current_plugin,
        );
        proof {
            assert(pars.take(i + 1).drop_last() =~= pars.take(i as int));
            assert(pars.take(i + 1).last() == parts_view(paragraphs@[i as int]@));
            if i == 0 {
                assert(pars.take(1)[0] == pars.take(1).last());
            }
        }
        i += 1;
    }
    proof {
        assert(pars.take(paragraphs@.len() as int) =~= pars);
    }
}

} // verus!
