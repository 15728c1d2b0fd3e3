//! The parts that a paragraph of markup is made of.
use vstd::prelude::*;
use crate::text::{copy_string, str_eq, opt_view};

verus! {

/// A plugin, named by its fully qualified collection name and its type.
#[derive(Debug, PartialEq)]
pub struct PluginIdentifier {
    pub fqcn: String,
    pub plugin_type: String,
}

/// Two plugin identifiers are equal when both fields are.
pub open spec fn same_plugin(a: &PluginIdentifier, b: &PluginIdentifier) -> bool {
    a.fqcn@ == b.fqcn@ && a.plugin_type@ == b.plugin_type@
}

impl PluginIdentifier {
    /// A copy of this identifier.
    pub fn copy(&self) -> (r: PluginIdentifier)
        ensures
            same_plugin(&r, self),
    {
        PluginIdentifier { fqcn: copy_string(&self.fqcn), plugin_type: copy_string(&self.plugin_type) }
    }

    /// Whether both identifiers name the same plugin.
    pub fn equals(&self, other: &PluginIdentifier) -> (r: bool)
        ensures
            r == same_plugin(self, other),
    {
        str_eq(self.fqcn.as_str(), other.fqcn.as_str()) && str_eq(
            self.plugin_type.as_str(),
            other.plugin_type.as_str(),
        )
    }
}

/// One part of a parsed paragraph.
#[derive(Debug, PartialEq)]
#[allow(inconsistent_fields)]
pub enum Part {
    Text { text: String },
    Italic { text: String },
    Bold { text: String },
    Code { text: String },
    Module { fqcn: String },
    Plugin { plugin: PluginIdentifier },
    URL { url: String },
    Link { text: String, url: String },
    RSTRef { text: String, reference: String },
    OptionName {
        plugin: Option<PluginIdentifier>,
        entrypoint: Option<String>,
        link: Vec<String>,
        name: String,
        value: Option<String>,
    },
    OptionValue { value: String },
    EnvVariable { name: String },
    ReturnValue {
        plugin: Option<PluginIdentifier>,
        entrypoint: Option<String>,
        link: Vec<String>,
        name: String,
        value: Option<String>,
    },
    HorizontalLine,
    Error { message: String },
}

/// A part together with the piece of input it was parsed from.
#[derive(Debug, PartialEq)]
pub struct PartWithSource {
    pub part: Part,
    pub source: String,
}

/// The characters of each string of a list.
pub open spec fn strings_view(v: Seq<String>) -> Seq<Seq<char>> {
    Seq::new(v.len(), |i: int| v[i]@)
}

/// The characters of an optional plugin identifier: its FQCN and its type.
pub open spec fn plugin_view(p: &Option<PluginIdentifier>) -> Option<(Seq<char>, Seq<char>)> {
    match p {
        Some(q) => Some((q.fqcn@, q.plugin_type@)),
        None => None,
    }
}

/// What an option or return-value reference resolves to.
pub struct OptionRefView {
    pub plugin: Option<(Seq<char>, Seq<char>)>,
    pub entrypoint: Option<Seq<char>>,
    pub link: Seq<Seq<char>>,
    pub name: Seq<char>,
    pub value: Option<Seq<char>>,
}

/// The content of a part, as character sequences.
pub enum PartView {
    Text(Seq<char>),
    Italic(Seq<char>),
    Bold(Seq<char>),
    Code(Seq<char>),
    Module(Seq<char>),
    Plugin(Seq<char>, Seq<char>),
    URL(Seq<char>),
    Link(Seq<char>, Seq<char>),
    RSTRef(Seq<char>, Seq<char>),
    OptionName(OptionRefView),
    OptionValue(Seq<char>),
    EnvVariable(Seq<char>),
    ReturnValue(OptionRefView),
    HorizontalLine,
    Error(Seq<char>),
}

pub open spec fn part_view(p: &Part) -> PartView {
    match p {
        Part::Text { text } => PartView::Text(text@),
        Part::Italic { text } => PartView::Italic(text@),
        Part::Bold { text } => PartView::Bold(text@),
        Part::Code { text } => PartView::Code(text@),
        Part::Module { fqcn } => PartView::Module(fqcn@),
        Part::Plugin { plugin } => PartView::Plugin(plugin.fqcn@, plugin.plugin_type@),
        Part::URL { url } => PartView::URL(url@),
        Part::Link { text, url } => PartView::Link(text@, url@),
        Part::RSTRef { text, reference } => PartView::RSTRef(text@, reference@),
        Part::OptionName { plugin, entrypoint, link, name, value } => PartView::OptionName(
            OptionRefView {
                plugin: plugin_view(plugin),
                entrypoint: opt_view(entrypoint),
                link: strings_view(link@),
                name: name@,
                value: opt_view(value),
            },
        ),
        Part::OptionValue { value } => PartView::OptionValue(value@),
        Part::EnvVariable { name } => PartView::EnvVariable(name@),
        Part::ReturnValue { plugin, entrypoint, link, name, value } => PartView::ReturnValue(
            OptionRefView {
                plugin: plugin_view(plugin),
                entrypoint: opt_view(entrypoint),
                link: strings_view(link@),
                name: name@,
                value: opt_view(value),
            },
        ),
        Part::HorizontalLine => PartView::HorizontalLine,
        Part::Error { message } => PartView::Error(message@),
    }
}

/// The views of a list of parts.
pub open spec fn parts_view(v: Seq<Part>) -> Seq<PartView> {
    Seq::new(v.len(), |i: int| part_view(&v[i]))
}

/// The views of a list of parts with their sources.
pub open spec fn sourced_view(v: Seq<PartWithSource>) -> Seq<(PartView, Seq<char>)> {
    Seq::new(v.len(), |i: int| (part_view(&v[i].part), v[i].source@))
}

} // verus!
