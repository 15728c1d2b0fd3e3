//! Parsing and rendering of the Ansible documentation markup language.
pub mod ansible_doc_text;
pub mod appender;
pub mod describe;
pub mod dom;
pub mod escape;
pub mod format;
pub mod grammar;
pub mod html_antsibull;
pub mod html_plain;
pub mod lemmas;
pub mod md;
pub mod parse;
pub mod rst_antsibull;
pub mod rst_plain;
pub mod scan;
pub mod text;

pub use ansible_doc_text::{append_ansible_doc_text_paragraph, append_ansible_doc_text_paragraphs, AnsibleDocTextFormatter};
pub use appender::{AppendTo, Appender, CollectorAppender, IntoString, StringAppender};
pub use dom::{Part, PartWithSource, PluginIdentifier};
pub use escape::{HTMLEscaper, MDEscaper, RSTEscaper, URLEscaper};
pub use format::{append_paragraph, append_paragraphs, Formatter, LinkProvider, NoLinkProvider, OptionLike};
pub use html_antsibull::{append_antsibull_html_paragraph, append_antsibull_html_paragraphs, AntsibullHTMLFormatter};
pub use html_plain::{append_plain_html_paragraph, append_plain_html_paragraphs, PlainHTMLFormatter};
pub use md::{append_md_paragraph, append_md_paragraphs, MDFormatter};
pub use parse::{parse, parse_paragraphs, parse_paragraphs_without_sources, parse_without_sources, Context, ParseOptions};
pub use rst_antsibull::{append_antsibull_rst_paragraph, append_antsibull_rst_paragraphs, AntsibullRSTFormatter};
pub use rst_plain::{append_plain_rst_paragraph, append_plain_rst_paragraphs, PlainRSTFormatter};
