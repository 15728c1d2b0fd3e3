//! The tokenizer and parser for paragraphs of markup.
use vstd::prelude::*;
use vstd::utf8::encode_utf8;
use crate::dom::{Part, PartView, PartWithSource, PluginIdentifier, plugin_view, part_view, parts_view, sourced_view};
use crate::grammar::{is_fqcn, is_plugin_type, option_ref, check_fqcn, check_plugin_type, parse_option_ref};
use crate::scan::{find_from, find_char, lemma_find_from, has_prefix_at, prefix_at};
use crate::text::{chars_of, string_of_range, string_of_chars, quote_debug, debug_quoted, decimal, decimal_string, byte_offset, push_char, opt_view};

verus! {

/// The commands of the markup language.
#[derive(Clone, Copy, Debug, PartialEq, Eq, Structural)]
pub enum CommandKind {
    Italic,
    Bold,
    Module,
    Url,
    Link,
    RstRef,
    Code,
    HorizontalLine,
    Plugin,
    EnvVariable,
    OptionValue,
    OptionName,
    ReturnValue,
}

/// Number of commands.
pub const COMMAND_COUNT: usize = 13;

/// The commands in the order in which they are tried at a position.
pub open spec fn command_order(n: int) -> CommandKind {
    if n == 0 {
        CommandKind::Italic
    } else if n == 1 {
        CommandKind::Bold
    } else if n == 2 {
        CommandKind::Module
    } else if n == 3 {
        CommandKind::Url
    } else if n == 4 {
        CommandKind::Link
    } else if n == 5 {
        CommandKind::RstRef
    } else if n == 6 {
        CommandKind::Code
    } else if n == 7 {
        CommandKind::HorizontalLine
    } else if n == 8 {
        CommandKind::Plugin
    } else if n == 9 {
        CommandKind::EnvVariable
    } else if n == 10 {
        CommandKind::OptionValue
    } else if n == 11 {
        CommandKind::OptionName
    } else {
        CommandKind::ReturnValue
    }
}

/// The name of a command, as error messages show it.
pub open spec fn command_name(k: CommandKind) -> Seq<char> {
    match k {
        CommandKind::Italic => "I"@,
        CommandKind::Bold => "B"@,
        CommandKind::Module => "M"@,
        CommandKind::Url => "U"@,
        CommandKind::Link => "L"@,
        CommandKind::RstRef => "R"@,
        CommandKind::Code => "C"@,
        CommandKind::HorizontalLine => "HORIZONTALLINE"@,
        CommandKind::Plugin => "P"@,
        CommandKind::EnvVariable => "E"@,
        CommandKind::OptionValue => "V"@,
        CommandKind::OptionName => "O"@,
        CommandKind::ReturnValue => "RV"@,
    }
}

/// The text that starts a command.
pub open spec fn command_prefix(k: CommandKind) -> Seq<char> {
    match k {
        CommandKind::Italic => "I("@,
        CommandKind::Bold => "B("@,
        CommandKind::Module => "M("@,
        CommandKind::Url => "U("@,
        CommandKind::Link => "L("@,
        CommandKind::RstRef => "R("@,
        CommandKind::Code => "C("@,
        CommandKind::HorizontalLine => "HORIZONTALLINE"@,
        CommandKind::Plugin => "P("@,
        CommandKind::EnvVariable => "E("@,
        CommandKind::OptionValue => "V("@,
        CommandKind::OptionName => "O("@,
        CommandKind::ReturnValue => "RV("@,
    }
}

/// How a command's arguments are read, and whether it is classic markup.
pub struct Command {
    pub kind: CommandKind,
    pub parameters: u32,
    pub escaped_arguments: bool,
    pub old_markup: bool,
}

pub open spec fn spec_command(k: CommandKind) -> Command {
    match k {
        CommandKind::HorizontalLine => Command { kind: k, parameters: 0, escaped_arguments: false, old_markup: true },
        CommandKind::Link | CommandKind::RstRef => Command { kind: k, parameters: 2, escaped_arguments: false, old_markup: true },
        CommandKind::Italic | CommandKind::Bold | CommandKind::Module | CommandKind::Url | CommandKind::Code => Command { kind: k, parameters: 1, escaped_arguments: false, old_markup: true },
        _ => Command { kind: k, parameters: 1, escaped_arguments: true, old_markup: false },
    }
}

impl Command {
    /// A classic command, whose arguments are taken literally.
    pub fn new_classic(kind: CommandKind, parameters: u32) -> (r: Command)
        ensures
            r == (Command { kind, parameters, escaped_arguments: false, old_markup: true }),
    {
        Command { kind, parameters, escaped_arguments: false, old_markup: true }
    }

    /// A modern command, whose arguments honour backslash escapes.
    pub fn new_modern(kind: CommandKind, parameters: u32) -> (r: Command)
        ensures
            r == (Command { kind, parameters, escaped_arguments: true, old_markup: false }),
    {
        Command { kind, parameters, escaped_arguments: true, old_markup: false }
    }
}

/// The command table entry of a command.
pub fn command_of(k: CommandKind) -> (r: Command)
    ensures
        r == spec_command(k),
{
    match k {
        CommandKind::HorizontalLine => Command::new_classic(k, 0),
        CommandKind::Link | CommandKind::RstRef => Command::new_classic(k, 2),
        CommandKind::Italic | CommandKind::Bold | CommandKind::Module | CommandKind::Url
        | CommandKind::Code => Command::new_classic(k, 1),
        _ => Command::new_modern(k, 1),
    }
}

fn order_at(n: usize) -> (r: CommandKind)
    ensures
        r == command_order(n as int),
{
    if n == 0 {
        CommandKind::Italic
    } else if n == 1 {
        CommandKind::Bold
    } else if n == 2 {
        CommandKind::Module
    } else if n == 3 {
        CommandKind::Url
    } else if n == 4 {
        CommandKind::Link
    } else if n == 5 {
        CommandKind::RstRef
    } else if n == 6 {
        CommandKind::Code
    } else if n == 7 {
        CommandKind::HorizontalLine
    } else if n == 8 {
        CommandKind::Plugin
    } else if n == 9 {
        CommandKind::EnvVariable
    } else if n == 10 {
        CommandKind::OptionValue
    } else if n == 11 {
        CommandKind::OptionName
    } else {
        CommandKind::ReturnValue
    }
}

fn name_of(k: CommandKind) -> (r: &'static str)
    ensures
        r@ == command_name(k),
{
    match k {
        CommandKind::Italic => "I",
        CommandKind::Bold => "B",
        CommandKind::Module => "M",
        CommandKind::Url => "U",
        CommandKind::Link => "L",
        CommandKind::RstRef => "R",
        CommandKind::Code => "C",
        CommandKind::HorizontalLine => "HORIZONTALLINE",
        CommandKind::Plugin => "P",
        CommandKind::EnvVariable => "E",
        CommandKind::OptionValue => "V",
        CommandKind::OptionName => "O",
        CommandKind::ReturnValue => "RV",
    }
}

fn prefix_of(k: CommandKind) -> (r: &'static str)
    ensures
        r@ == command_prefix(k),
{
    match k {
        CommandKind::Italic => "I(",
        CommandKind::Bold => "B(",
        CommandKind::Module => "M(",
        CommandKind::Url => "U(",
        CommandKind::Link => "L(",
        CommandKind::RstRef => "R(",
        CommandKind::Code => "C(",
        CommandKind::HorizontalLine => "HORIZONTALLINE",
        CommandKind::Plugin => "P(",
        CommandKind::EnvVariable => "E(",
        CommandKind::OptionValue => "V(",
        CommandKind::OptionName => "O(",
        CommandKind::ReturnValue => "RV(",
    }
}

/// Whether a character is alphanumeric, as `char::is_alphanumeric` decides.
pub uninterp spec fn alphanumeric(c: char) -> bool;

/// Relies on char::is_alphanumeric, a property of the character alone.
#[verifier::external_body]
fn is_alphanumeric(c: char) -> (r: bool)
    ensures
        r == alphanumeric(c),
{
    c.is_alphanumeric()
}

/// ASCII letters and digits.
pub open spec fn is_ascii_alphanumeric(c: char) -> bool {
    ('a' <= c && c <= 'z') || ('A' <= c && c <= 'Z') || ('0' <= c && c <= '9')
}

/// Characters that belong to a word; commands start only after a non-word
/// character. ASCII is decided here, other characters by `char::is_alphanumeric`.
pub open spec fn is_word_char(c: char) -> bool {
    if (c as u32) < 128 {
        is_ascii_alphanumeric(c) || c == '_'
    } else {
        alphanumeric(c)
    }
}

fn word_char(c: char) -> (r: bool)
    ensures
        r == is_word_char(c),
{
    if (c as u32) < 128 {
        ('a' <= c && c <= 'z') || ('A' <= c && c <= 'Z') || ('0' <= c && c <= '9') || c == '_'
    } else {
        is_alphanumeric(c)
    }
}

/// Whether command `k` may be recognised at index `i` of `s`.
pub open spec fn command_matches(s: Seq<char>, i: int, k: CommandKind) -> bool {
    let p = command_prefix(k);
    has_prefix_at(s, i, p) && (spec_command(k).parameters > 0 || i + p.len() == s.len()
        || !is_word_char(s[i + p.len()]))
}

/// The first command of the table, from entry `n` on, that matches at `i`.
pub open spec fn first_command_from(s: Seq<char>, i: int, classic: bool, n: int) -> Option<
    CommandKind,
>
    decreases 13 - n,
{
    if n < 0 || n >= 13 {
        None
    } else {
        let k = command_order(n);
        if (!classic || spec_command(k).old_markup) && command_matches(s, i, k) {
            Some(k)
        } else {
            first_command_from(s, i, classic, n + 1)
        }
    }
}

/// The command that starts at index `i` of `s`, if any.
pub open spec fn command_at(s: Seq<char>, i: int, classic: bool) -> Option<CommandKind> {
    if 0 <= i < s.len() && (i == 0 || !is_word_char(s[i - 1])) {
        first_command_from(s, i, classic, 0)
    } else {
        None
    }
}

/// The first command that starts at or after index `i`.
pub open spec fn next_command(s: Seq<char>, i: int, classic: bool) -> Option<(int, CommandKind)>
    decreases s.len() - i,
{
    if i < 0 || i >= s.len() {
        None
    } else if command_at(s, i, classic) is Some {
        Some((i, command_at(s, i, classic)->0))
    } else {
        next_command(s, i + 1, classic)
    }
}

fn find_command_at(v: &Vec<char>, i: usize, classic: bool) -> (r: Option<CommandKind>)
    requires
        i < v@.len(),
    ensures
        r == command_at(v@, i as int, classic),
{
    if i > 0 && word_char(v[i - 1]) {
        return None;
    }
    let vlen = v.len();
    let mut n: usize = 0;
    while n < COMMAND_COUNT
        invariant
            vlen == v@.len(),
            i < v@.len(),
            i == 0 || !is_word_char(v@[i - 1]),
            n <= 13,
            first_command_from(v@, i as int, classic, 0) == first_command_from(v@, i as int, classic, n as int),
        decreases 13 - n,
    {
        let k = order_at(n);
        let cmd = command_of(k);
        if !classic || cmd.old_markup {
            let p = prefix_of(k);
            if prefix_at(v, i, p) {
                let plen = chars_of(p).len();
                assert(i + plen <= vlen);
                if cmd.parameters > 0 || i + plen == v.len() || !word_char(v[i + plen]) {
                    return Some(k);
                }
            }
        }
        n += 1;
    }
    None
}

proof fn lemma_next_skip(s: Seq<char>, i: int, j: int, classic: bool)
    requires
        0 <= i <= j,
        forall|k: int| i <= k < j ==> command_at(s, k, classic) is None,
    ensures
        next_command(s, i, classic) == next_command(s, j, classic),
    decreases j - i,
{
    if i < j {
        lemma_next_skip(s, i + 1, j, classic);
    }
}

fn find_next_command(v: &Vec<char>, from: usize, classic: bool) -> (r: Option<(usize, CommandKind)>)
    ensures
        r matches Some((m, k)) ==> next_command(v@, from as int, classic) == Some((m as int, k))
            && from <= m < v@.len(),
        r is None ==> next_command(v@, from as int, classic) is None,
{
    let mut i = from;
    while i < v.len()
        invariant
            from <= i,
            forall|k: int| from <= k < i ==> command_at(v@, k, classic) is None,
        decreases v@.len() - i,
    {
        match find_command_at(v, i, classic) {
            Some(k) => {
                proof {
                    lemma_next_skip(v@, from as int, i as int, classic);
                }
                return Some((i, k));
            },
            None => {},
        }
        i += 1;
    }
    proof {
        lemma_next_skip(v@, from as int, i as int, classic);
    }
    None
}

/// The context in which a paragraph is parsed.
pub struct Context {
    /// The plugin whose documentation is parsed.
    pub current_plugin: Option<PluginIdentifier>,
    /// The role entrypoint whose documentation is parsed, if any.
    pub role_entrypoint: Option<String>,
}

/// How a paragraph is parsed.
pub struct ParseOptions {
    /// Whether only classic markup is recognised.
    pub only_classic_markup: bool,
    /// Whether escapes other than `\\` and `\)` are rejected.
    pub strict: bool,
    /// Whether error messages quote the whole offending markup.
    pub helpful_errors: bool,
    /// Location information appended to error messages.
    pub where_: Option<String>,
}

/// The options as plain values; a missing location is empty.
pub struct OptionsView {
    pub classic: bool,
    pub strict: bool,
    pub helpful: bool,
    pub location: Seq<char>,
}

impl ParseOptions {
    pub open spec fn view(&self) -> OptionsView {
        OptionsView {
            classic: self.only_classic_markup,
            strict: self.strict,
            helpful: self.helpful_errors,
            location: match self.where_ {
                Some(w) => w@,
                None => Seq::empty(),
            },
        }
    }
}

pub open spec fn close_message() -> Seq<char> {
    "Cannot find closing \")\" after last parameter"@
}

pub open spec fn comma_message() -> Seq<char> {
    "Cannot find comma separating parameter 1 from the next one"@
}

/// `s` without its leading spaces.
pub open spec fn lstrip(s: Seq<char>) -> Seq<char>
    decreases s.len(),
{
    if s.len() > 0 && s[0] == ' ' {
        lstrip(s.drop_first())
    } else {
        s
    }
}

/// `s` without its trailing spaces.
pub open spec fn rstrip(s: Seq<char>) -> Seq<char>
    decreases s.len(),
{
    if s.len() > 0 && s.last() == ' ' {
        rstrip(s.drop_last())
    } else {
        s
    }
}

/// The literal arguments of a classic command whose arguments start at `first`,
/// and where the command ends; or an error, and where reading stopped.
pub open spec fn unescaped_args(s: Seq<char>, first: int, arity: u32) -> Result<
    (Seq<Seq<char>>, int),
    (Seq<char>, int),
> {
    if arity == 0 {
        Ok((Seq::empty(), first))
    } else if arity == 1 {
        match find_from(s, first, ')') {
            None => Err((close_message(), s.len() as int)),
            Some(j) => Ok((seq![s.subrange(first, j)], j + 1)),
        }
    } else {
        match find_from(s, first, ',') {
            None => Err((comma_message(), s.len() as int)),
            Some(j1) => match find_from(s, j1 + 1, ')') {
                None => Err((close_message(), s.len() as int)),
                Some(j2) => Ok(
                    (seq![rstrip(s.subrange(first, j1)), lstrip(s.subrange(j1 + 1, j2))], j2 + 1),
                ),
            },
        }
    }
}

/// The index after the closing `)` of an escaped argument read from `i`, or
/// the end of `s` when there is none.
pub open spec fn escaped_close(s: Seq<char>, i: int) -> int
    decreases s.len() - i,
{
    if i < 0 || i >= s.len() {
        s.len() as int
    } else if s[i] == '\\' && i + 1 < s.len() {
        escaped_close(s, i + 2)
    } else if s[i] == ')' {
        i + 1
    } else {
        escaped_close(s, i + 1)
    }
}

/// The escaped argument that continues `acc` from index `i` up to the closing
/// `)`, and the index after it; or an error, and where the command ends.
/// A backslash followed by any character stands for that character.
pub open spec fn escaped_arg(s: Seq<char>, i: int, strict: bool, acc: Seq<char>) -> Result<
    (Seq<char>, int),
    (Seq<char>, int),
>
    decreases s.len() - i,
{
    if i < 0 || i >= s.len() {
        Err((close_message(), s.len() as int))
    } else if s[i] == '\\' && i + 1 < s.len() {
        if strict && s[i + 1] != ')' && s[i + 1] != '\\' {
            Err(("Unnecessarily escaped "@ + debug_quoted(seq![s[i + 1]]), escaped_close(s, i + 2)))
        } else {
            escaped_arg(s, i + 2, strict, acc.push(s[i + 1]))
        }
    } else if s[i] == ')' {
        Ok((acc, i + 1))
    } else {
        escaped_arg(s, i + 1, strict, acc.push(s[i]))
    }
}

/// The part that `P(arg)` stands for.
pub open spec fn plugin_part(a: Seq<char>) -> Result<PartView, Seq<char>> {
    match find_from(a, 0, '#') {
        Some(j) => {
            let fqcn = a.take(j);
            let ty = a.skip(j + 1);
            if !is_fqcn(fqcn) {
                Err("Plugin name "@ + debug_quoted(fqcn) + " is not a FQCN"@)
            } else if !is_plugin_type(ty) {
                Err("Plugin name "@ + debug_quoted(ty) + " is not a FQCN"@)
            } else {
                Ok(PartView::Plugin(fqcn, ty))
            }
        },
        None => Err("Parameter "@ + debug_quoted(a) + " is not of the form FQCN#type"@),
    }
}

/// The part that command `k` with arguments `args` stands for, or why it is invalid.
pub open spec fn convert(k: CommandKind, args: Seq<Seq<char>>, ctx: &Context) -> Result<
    PartView,
    Seq<char>,
> {
    let a0 = args[0];
    let a1 = args[1];
    let cp = plugin_view(&ctx.current_plugin);
    let ce = opt_view(&ctx.role_entrypoint);
    match k {
        CommandKind::Italic => Ok(PartView::Italic(a0)),
        CommandKind::Bold => Ok(PartView::Bold(a0)),
        CommandKind::Code => Ok(PartView::Code(a0)),
        CommandKind::Module => if is_fqcn(a0) {
            Ok(PartView::Module(a0))
        } else {
            Err("Module name "@ + debug_quoted(a0) + " is not a FQCN"@)
        },
        CommandKind::Url => Ok(PartView::URL(a0)),
        CommandKind::Link => Ok(PartView::Link(a0, a1)),
        CommandKind::RstRef => Ok(PartView::RSTRef(a0, a1)),
        CommandKind::HorizontalLine => Ok(PartView::HorizontalLine),
        CommandKind::Plugin => plugin_part(a0),
        CommandKind::EnvVariable => Ok(PartView::EnvVariable(a0)),
        CommandKind::OptionValue => Ok(PartView::OptionValue(a0)),
        CommandKind::OptionName => match option_ref(a0, cp, ce) {
            Ok(o) => Ok(PartView::OptionName(o)),
            Err(e) => Err(e),
        },
        CommandKind::ReturnValue => match option_ref(a0, cp, ce) {
            Ok(o) => Ok(PartView::ReturnValue(o)),
            Err(e) => Err(e),
        },
    }
}

/// How an error message names the offending markup.
pub open spec fn error_source(
    s: Seq<char>,
    helpful: bool,
    k: CommandKind,
    start: int,
    end: int,
) -> Seq<char> {
    if helpful {
        "\""@ + s.subrange(start, end) + "\""@
    } else if spec_command(k).parameters > 0 {
        command_name(k) + "()"@
    } else {
        command_name(k)
    }
}

/// The diagnostic for markup `s[start..end]`, with a 1-based byte index.
pub open spec fn error_message(
    s: Seq<char>,
    opts: OptionsView,
    k: CommandKind,
    start: int,
    end: int,
    detail: Seq<char>,
) -> Seq<char> {
    "While parsing "@ + error_source(s, opts.helpful, k, start, end) + " at index "@
        + decimal((encode_utf8(s.take(start)).len() + 1) as nat) + opts.location + ": "@ + detail
}

/// The arguments of the command `k` that starts at `m`.
pub open spec fn command_args(s: Seq<char>, m: int, k: CommandKind, opts: OptionsView) -> Result<
    (Seq<Seq<char>>, int),
    (Seq<char>, int),
> {
    let first = m + command_prefix(k).len();
    if spec_command(k).escaped_arguments {
        match escaped_arg(s, first, opts.strict, Seq::empty()) {
            Ok((a, e)) => Ok((seq![a], e)),
            Err(x) => Err(x),
        }
    } else {
        unescaped_args(s, first, spec_command(k).parameters)
    }
}

/// The part for the command `k` that starts at `m`, and where it ends.
pub open spec fn command_result(
    s: Seq<char>,
    m: int,
    k: CommandKind,
    ctx: &Context,
    opts: OptionsView,
) -> (PartView, int) {
    match command_args(s, m, k, opts) {
        Err((msg, e)) => (PartView::Error(error_message(s, opts, k, m, e, msg)), e),
        Ok((args, e)) => match convert(k, args, ctx) {
            Ok(p) => (p, e),
            Err(msg) => (PartView::Error(error_message(s, opts, k, m, e, msg)), e),
        },
    }
}

/// The parts of `s[pos..]`, each with its source.
pub open spec fn parse_from(s: Seq<char>, pos: int, ctx: &Context, opts: OptionsView) -> Seq<
    (PartView, Seq<char>),
>
    decreases s.len() - pos,
{
    if pos < 0 || pos >= s.len() {
        Seq::empty()
    } else {
        match next_command(s, pos, opts.classic) {
            None => seq![(PartView::Text(s.subrange(pos, s.len() as int)), s.subrange(pos, s.len() as int))],
            Some((m, k)) => {
                let before = if m > pos {
                    seq![(PartView::Text(s.subrange(pos, m)), s.subrange(pos, m))]
                } else {
                    Seq::empty()
                };
                let (part, e) = command_result(s, m, k, ctx, opts);
                let here = before.push((part, s.subrange(m, e)));
                if pos < e <= s.len() {
                    here + parse_from(s, e, ctx, opts)
                } else {
                    here
                }
            },
        }
    }
}

/// The parts of a paragraph, each with its source.
pub open spec fn parse_paragraph(s: Seq<char>, ctx: &Context, opts: OptionsView) -> Seq<
    (PartView, Seq<char>),
> {
    parse_from(s, 0, ctx, opts)
}

/// The parts of a paragraph, without sources.
pub open spec fn parse_paragraph_parts(s: Seq<char>, ctx: &Context, opts: OptionsView) -> Seq<
    PartView,
> {
    parse_paragraph(s, ctx, opts).map_values(|x: (PartView, Seq<char>)| x.0)
}

fn lstrip_from(v: &Vec<char>, lo: usize, hi: usize) -> (l: usize)
    requires
        lo <= hi <= v@.len(),
    ensures
        lo <= l <= hi,
        v@.subrange(l as int, hi as int) == lstrip(v@.subrange(lo as int, hi as int)),
{
    let mut l = lo;
    while l < hi && v[l] == ' '
        invariant
            lo <= l <= hi <= v@.len(),
            lstrip(v@.subrange(l as int, hi as int)) == lstrip(v@.subrange(lo as int, hi as int)),
        decreases hi - l,
    {
        proof {
            assert(v@.subrange(l as int, hi as int).drop_first() =~= v@.subrange(l + 1, hi as int));
        }
        l += 1;
    }
    l
}

fn rstrip_to(v: &Vec<char>, lo: usize, hi: usize) -> (r: usize)
    requires
        lo <= hi <= v@.len(),
    ensures
        lo <= r <= hi,
        v@.subrange(lo as int, r as int) == rstrip(v@.subrange(lo as int, hi as int)),
{
    let mut r = hi;
    while r > lo && v[r - 1] == ' '
        invariant
            lo <= r <= hi <= v@.len(),
            rstrip(v@.subrange(lo as int, r as int)) == rstrip(v@.subrange(lo as int, hi as int)),
        decreases r - lo,
    {
        proof {
            assert(v@.subrange(lo as int, r as int).drop_last() =~= v@.subrange(lo as int, r - 1));
        }
        r -= 1;
    }
    r
}

fn collect_unescaped(v: &Vec<char>, first: usize, arity: u32) -> (r: Result<
    (Vec<String>, usize),
    (String, usize),
>)
    requires
        first <= v@.len(),
        arity <= 2,
    ensures
        match r {
            Ok((a, e)) => unescaped_args(v@, first as int, arity) == Ok::<
                (Seq<Seq<char>>, int),
                (Seq<char>, int),
            >((crate::dom::strings_view(a@), e as int)),
            Err((m, e)) => unescaped_args(v@, first as int, arity) == Err::<
                (Seq<Seq<char>>, int),
                (Seq<char>, int),
            >((m@, e as int)),
        },
        r matches Ok((a, e)) ==> a@.len() == arity && first <= e <= v@.len() && (arity > 0 ==> first < e),
        r matches Err((_, e)) ==> e == v@.len(),
{
    let n = v.len();
    if arity == 0 {
        let a: Vec<String> = Vec::new();
        proof {
            assert(crate::dom::strings_view(a@) =~= Seq::<Seq<char>>::empty());
        }
        return Ok((a, first));
    }
    if arity == 1 {
        proof { lemma_find_from(v@, first as int, ')'); }
        match find_char(v, first, ')') {
            None => return Err((String::from_str("Cannot find closing \")\" after last parameter"), n)),
            Some(j) => {
                let mut a: Vec<String> = Vec::new();
                a.push(string_of_range(v, first, j));
                proof {
                    assert(crate::dom::strings_view(a@) =~= seq![v@.subrange(first as int, j as int)]);
                }
                return Ok((a, j + 1));
            },
        }
    }
    proof { lemma_find_from(v@, first as int, ','); }
    match find_char(v, first, ',') {
        None => Err((String::from_str("Cannot find comma separating parameter 1 from the next one"), n)),
        Some(j1) => {
            proof { lemma_find_from(v@, j1 + 1, ')'); }
            match find_char(v, j1 + 1, ')') {
                None => Err((String::from_str("Cannot find closing \")\" after last parameter"), n)),
                Some(j2) => {
                    let r1 = rstrip_to(v, first, j1);
                    let l2 = lstrip_from(v, j1 + 1, j2);
                    let mut a: Vec<String> = Vec::new();
                    a.push(string_of_range(v, first, r1));
                    a.push(string_of_range(v, l2, j2));
                    proof {
                        assert(crate::dom::strings_view(a@) =~= seq![
                            rstrip(v@.subrange(first as int, j1 as int)),
                            lstrip(v@.subrange(j1 + 1, j2 as int)),
                        ]);
                    }
                    Ok((a, j2 + 1))
                },
            }
        },
    }
}

fn find_escaped_close(v: &Vec<char>, from: usize) -> (r: usize)
    requires
        from <= v@.len(),
    ensures
        r == escaped_close(v@, from as int),
        from < r <= v@.len() || r == v@.len(),
{
    let n = v.len();
    let mut i = from;
    while i < n
        invariant
            n == v@.len(),
            from <= i <= n,
            escaped_close(v@, i as int) == escaped_close(v@, from as int),
        decreases n - i,
    {
        if v[i] == '\\' && i + 1 < n {
            i += 2;
        } else if v[i] == ')' {
            return i + 1;
        } else {
            i += 1;
        }
    }
    n
}

fn collect_escaped(v: &Vec<char>, first: usize, strict: bool) -> (r: Result<
    (String, usize),
    (String, usize),
>)
    requires
        first <= v@.len(),
    ensures
        match r {
            Ok((a, e)) => escaped_arg(v@, first as int, strict, Seq::empty()) == Ok::<
                (Seq<char>, int),
                (Seq<char>, int),
            >((a@, e as int)) && first < e <= v@.len(),
            Err((m, e)) => escaped_arg(v@, first as int, strict, Seq::empty()) == Err::<
                (Seq<char>, int),
                (Seq<char>, int),
            >((m@, e as int)) && first <= e <= v@.len() && (first < e || e == v@.len()),
        },
{
    let n = v.len();
    let mut acc = String::new();
    let mut i = first;
    while i < n
        invariant
            n == v@.len(),
            first <= i <= n,
            escaped_arg(v@, i as int, strict, acc@) == escaped_arg(v@, first as int, strict, Seq::empty()),
        decreases n - i,
    {
        let c = v[i];
        if c == '\\' && i + 1 < n {
            let e = v[i + 1];
            if strict && e != ')' && e != '\\' {
                let mut one = String::new();
                push_char(&mut one, e);
                let mut msg = String::from_str("Unnecessarily escaped ");
                msg.append(quote_debug(one.as_str()).as_str());
                proof {
                    assert(one@ =~= seq![v@[i + 1]]);
                }
                return Err((msg, find_escaped_close(v, i + 2)));
            }
            push_char(&mut acc, e);
            i += 2;
        } else if c == ')' {
            return Ok((acc, i + 1));
        } else {
            push_char(&mut acc, c);
            i += 1;
        }
    }
    Err((String::from_str("Cannot find closing \")\" after last parameter"), n))
}

fn plugin_from(a: &Vec<char>) -> (r: Result<Part, String>)
    ensures
        match r {
            Ok(p) => plugin_part(a@) == Ok::<PartView, Seq<char>>(part_view(&p)),
            Err(e) => plugin_part(a@) == Err::<PartView, Seq<char>>(e@),
        },
{
    let n = a.len();
    proof { lemma_find_from(a@, 0, '#'); }
    match find_char(a, 0, '#') {
        Some(j) => {
            let fqcn = crate::grammar::subrange_vec(a, 0, j);
            let ty = crate::grammar::subrange_vec(a, j + 1, n);
            proof {
                assert(fqcn@ =~= a@.take(j as int));
                assert(ty@ =~= a@.skip(j + 1));
            }
            if !check_fqcn(&fqcn) {
                let mut e = String::from_str("Plugin name ");
                e.append(quote_debug(string_of_chars(&fqcn).as_str()).as_str());
                e.append(" is not a FQCN");
                Err(e)
            } else if !check_plugin_type(&ty) {
                let mut e = String::from_str("Plugin name ");
                e.append(quote_debug(string_of_chars(&ty).as_str()).as_str());
                e.append(" is not a FQCN");
                Err(e)
            } else {
                Ok(
                    Part::Plugin {
                        plugin: PluginIdentifier {
                            fqcn: string_of_chars(&fqcn),
                            plugin_type: string_of_chars(&ty),
                        },
                    },
                )
            }
        },
        None => {
            let mut e = String::from_str("Parameter ");
            e.append(quote_debug(string_of_chars(a).as_str()).as_str());
            e.append(" is not of the form FQCN#type");
            Err(e)
        },
    }
}

fn take_first(args: Vec<String>) -> (r: (String, Vec<String>))
    requires
        args@.len() >= 1,
    ensures
        r.0@ == args@[0]@,
        r.1@ == args@.subrange(1, args@.len() as int),
{
    let mut rest = args;
    let first = rest.remove(0);
    (first, rest)
}

fn convert_part(k: CommandKind, args: Vec<String>, ctx: &Context) -> (r: Result<Part, String>)
    requires
        args@.len() == spec_command(k).parameters,
    ensures
        match r {
            Ok(p) => convert(k, crate::dom::strings_view(args@), ctx) == Ok::<PartView, Seq<char>>(
                part_view(&p),
            ),
            Err(e) => convert(k, crate::dom::strings_view(args@), ctx) == Err::<PartView, Seq<char>>(
                e@,
            ),
        },
{
    let ghost sv = crate::dom::strings_view(args@);
    if k == CommandKind::HorizontalLine {
        return Ok(Part::HorizontalLine);
    }
    let (a0, rest) = take_first(args);
    assert(a0@ == sv[0]);
    match k {
        CommandKind::Italic => Ok(Part::Italic { text: a0 }),
        CommandKind::Bold => Ok(Part::Bold { text: a0 }),
        CommandKind::Code => Ok(Part::Code { text: a0 }),
        CommandKind::Module => {
            let c = chars_of(a0.as_str());
            if check_fqcn(&c) {
                Ok(Part::Module { fqcn: a0 })
            } else {
                let mut e = String::from_str("Module name ");
                e.append(quote_debug(a0.as_str()).as_str());
                e.append(" is not a FQCN");
                Err(e)
            }
        },
        CommandKind::Url => Ok(Part::URL { url: a0 }),
        CommandKind::Link | CommandKind::RstRef => {
            let (a1, _) = take_first(rest);
            assert(a1@ == sv[1]);
            if k == CommandKind::Link {
                Ok(Part::Link { text: a0, url: a1 })
            } else {
                Ok(Part::RSTRef { text: a0, reference: a1 })
            }
        },
        CommandKind::Plugin => plugin_from(&chars_of(a0.as_str())),
        CommandKind::EnvVariable => Ok(Part::EnvVariable { name: a0 }),
        CommandKind::OptionValue => Ok(Part::OptionValue { value: a0 }),
        _ => {
            let c = chars_of(a0.as_str());
            match parse_option_ref(&c, &ctx.current_plugin, &ctx.role_entrypoint) {
                Ok(o) => if k == CommandKind::OptionName {
                    Ok(
                        Part::OptionName {
                            plugin: o.plugin,
                            entrypoint: o.entrypoint,
                            link: o.link,
                            name: o.name,
                            value: o.value,
                        },
                    )
                } else {
                    Ok(
                        Part::ReturnValue {
                            plugin: o.plugin,
                            entrypoint: o.entrypoint,
                            link: o.link,
                            name: o.name,
                            value: o.value,
                        },
                    )
                },
                Err(e) => Err(e),
            }
        },
    }
}

pub proof fn lemma_prefix_nonempty(k: CommandKind)
    ensures
        command_prefix(k).len() >= 2,
{
    reveal_strlit("I(");
    reveal_strlit("B(");
    reveal_strlit("M(");
    reveal_strlit("U(");
    reveal_strlit("L(");
    reveal_strlit("R(");
    reveal_strlit("C(");
    reveal_strlit("HORIZONTALLINE");
    reveal_strlit("P(");
    reveal_strlit("E(");
    reveal_strlit("V(");
    reveal_strlit("O(");
    reveal_strlit("RV(");
}

/// No two commands share a prefix, so at most one command is recognised at a position.
pub proof fn lemma_prefixes_distinct(a: CommandKind, b: CommandKind)
    requires
        a != b,
    ensures
        command_prefix(a) != command_prefix(b),
{
    reveal_strlit("I(");
    reveal_strlit("B(");
    reveal_strlit("M(");
    reveal_strlit("U(");
    reveal_strlit("L(");
    reveal_strlit("R(");
    reveal_strlit("C(");
    reveal_strlit("HORIZONTALLINE");
    reveal_strlit("P(");
    reveal_strlit("E(");
    reveal_strlit("V(");
    reveal_strlit("O(");
    reveal_strlit("RV(");
    if command_prefix(a).len() == command_prefix(b).len() && command_prefix(a).len() > 0 {
        assert(command_prefix(a)[0] != command_prefix(b)[0] || command_prefix(a).len() == 3);
    }
}

fn compose_error(
    input: &str,
    v: &Vec<char>,
    opts: &ParseOptions,
    k: CommandKind,
    start: usize,
    end: usize,
    detail: String,
) -> (r: String)
    requires
        v@ == input@,
        start < end <= v@.len(),
    ensures
        r@ == error_message(v@, opts.view(), k, start as int, end as int, detail@),
{
    let mut r = String::from_str("While parsing ");
    if opts.helpful_errors {
        r.append("\"");
        r.append(string_of_range(v, start, end).as_str());
        r.append("\"");
    } else {
        r.append(name_of(k));
        if command_of(k).parameters > 0 {
            r.append("()");
        }
    }
    r.append(" at index ");
    let off = byte_offset(input, v, start);
    let bytes = input.as_bytes();
    let blen = bytes.len();
    assert(blen == encode_utf8(input@).len());
    r.append(decimal_string(off + 1).as_str());
    match &opts.where_ {
        Some(w) => r.append(w.as_str()),
        None => {},
    }
    r.append(": ");
    r.append(detail.as_str());
    r
}

fn command_part(
    input: &str,
    v: &Vec<char>,
    m: usize,
    k: CommandKind,
    ctx: &Context,
    opts: &ParseOptions,
) -> (r: (Part, usize))
    requires
        v@ == input@,
        m < v@.len(),
        command_matches(v@, m as int, k),
    ensures
        (part_view(&r.0), r.1 as int) == command_result(v@, m as int, k, ctx, opts.view()),
        m < r.1 <= v@.len(),
{
    let n = v.len();
    let cmd = command_of(k);
    proof {
        lemma_prefix_nonempty(k);
    }
    let first = m + chars_of(prefix_of(k)).len();
    let collected: Result<(Vec<String>, usize), (String, usize)> = if cmd.escaped_arguments {
        match collect_escaped(v, first, opts.strict) {
            Ok((a, e)) => {
                let mut args: Vec<String> = Vec::new();
                args.push(a);
                proof {
                    assert(crate::dom::strings_view(args@) =~= seq![a@]);
                }
                Ok((args, e))
            },
            Err(x) => Err(x),
        }
    } else {
        collect_unescaped(v, first, cmd.parameters)
    };
    assert(match collected {
        Ok((a, e)) => command_args(v@, m as int, k, opts.view()) == Ok::<(Seq<Seq<char>>, int), (Seq<char>, int)>(
            (crate::dom::strings_view(a@), e as int),
        ),
        Err((msg, e)) => command_args(v@, m as int, k, opts.view()) == Err::<(Seq<Seq<char>>, int), (Seq<char>, int)>(
            (msg@, e as int),
        ),
    });
    match collected {
        Err((msg, e)) => {
            assert(m < e);
            (Part::Error { message: compose_error(input, v, opts, k, m, e, msg) }, e)
        },
        Ok((args, e)) => {
            assert(m < e);
            match convert_part(k, args, ctx) {
                Ok(p) => (p, e),
                Err(msg) => (Part::Error { message: compose_error(input, v, opts, k, m, e, msg) }, e),
            }
        },
    }
}

pub proof fn lemma_first_command_matches(s: Seq<char>, i: int, classic: bool, n: int)
    requires
        first_command_from(s, i, classic, n) is Some,
    ensures
        command_matches(s, i, first_command_from(s, i, classic, n)->0),
    decreases 13 - n,
{
    if 0 <= n < 13 {
        let k = command_order(n);
        if !((!classic || spec_command(k).old_markup) && command_matches(s, i, k)) {
            lemma_first_command_matches(s, i, classic, n + 1);
        }
    }
}

pub proof fn lemma_next_command(s: Seq<char>, i: int, classic: bool)
    requires
        0 <= i,
    ensures
        next_command(s, i, classic) matches Some((m, k)) ==> i <= m < s.len() && command_at(
            s,
            m,
            classic,
        ) == Some(k),
    decreases s.len() - i,
{
    if i < s.len() && command_at(s, i, classic) is None {
        lemma_next_command(s, i + 1, classic);
    }
}

fn text_part(v: &Vec<char>, lo: usize, hi: usize) -> (r: PartWithSource)
    requires
        lo <= hi <= v@.len(),
    ensures
        part_view(&r.part) == PartView::Text(v@.subrange(lo as int, hi as int)),
        r.source@ == v@.subrange(lo as int, hi as int),
{
    PartWithSource { part: Part::Text { text: string_of_range(v, lo, hi) }, source: string_of_range(v, lo, hi) }
}

fn parse_chars(input: &str, v: &Vec<char>, ctx: &Context, opts: &ParseOptions) -> (r: Vec<
    PartWithSource,
>)
    requires
        v@ == input@,
    ensures
        sourced_view(r@) == parse_from(v@, 0, ctx, opts.view()),
{
    let n = v.len();
    let classic = opts.only_classic_markup;
    let mut out: Vec<PartWithSource> = Vec::new();
    let mut pos: usize = 0;
    proof {
        assert(sourced_view(out@) =~= Seq::<(PartView, Seq<char>)>::empty());
        assert(sourced_view(out@) + parse_from(v@, 0, ctx, opts.view()) =~= parse_from(v@, 0, ctx, opts.view()));
    }
    while pos < n
        invariant
            n == v@.len(),
            v@ == input@,
            classic == opts.view().classic,
            pos <= n,
            sourced_view(out@) + parse_from(v@, pos as int, ctx, opts.view()) == parse_from(
                v@,
                0,
                ctx,
                opts.view(),
            ),
        decreases n - pos,
    {
        let ghost before = out@;
        match find_next_command(v, pos, classic) {
            None => {
                let t = text_part(v, pos, n);
                out.push(t);
                proof {
                    assert(sourced_view(out@) =~= sourced_view(before).push((part_view(&t.part), t.source@)));
                    assert(parse_from(v@, n as int, ctx, opts.view()) =~= Seq::<(PartView, Seq<char>)>::empty());
                    assert(sourced_view(out@) + parse_from(v@, n as int, ctx, opts.view()) =~= sourced_view(before)
                        + parse_from(v@, pos as int, ctx, opts.view()));
                }
                pos = n;
            },
            Some((m, k)) => {
                proof {
                    lemma_next_command(v@, pos as int, classic);
                    lemma_first_command_matches(v@, m as int, classic, 0);
                }
                let ghost pre = if m > pos {
                    seq![(PartView::Text(v@.subrange(pos as int, m as int)), v@.subrange(pos as int, m as int))]
                } else {
                    Seq::<(PartView, Seq<char>)>::empty()
                };
                if m > pos {
                    let t = text_part(v, pos, m);
                    out.push(t);
                    proof {
                        assert(sourced_view(out@) =~= sourced_view(before) + pre);
                    }
                } else {
                    proof {
                        assert(sourced_view(out@) =~= sourced_view(before) + pre);
                    }
                }
                let ghost mid = out@;
                let (part, e) = command_part(input, v, m, k, ctx, opts);
                let ps = PartWithSource { part, source: string_of_range(v, m, e) };
                out.push(ps);
                proof {
                    assert(sourced_view(out@) =~= sourced_view(mid).push((part_view(&ps.part), ps.source@)));
                    assert(sourced_view(out@) + parse_from(v@, e as int, ctx, opts.view()) =~= sourced_view(before)
                        + parse_from(v@, pos as int, ctx, opts.view()));
                }
                pos = e;
            },
        }
    }
    proof {
        assert(sourced_view(out@) + parse_from(v@, pos as int, ctx, opts.view()) =~= sourced_view(out@));
    }
    out
}

impl ParseOptions {
    /// The default options: all markup, lenient escapes, helpful errors, no location.
    pub fn default() -> (r: ParseOptions)
        ensures
            !r.only_classic_markup,
            !r.strict,
            r.helpful_errors,
            r.where_ is None,
    {
        ParseOptions { only_classic_markup: false, strict: false, helpful_errors: true, where_: None }
    }

    /// These options, restricted to classic markup.
    pub fn only_classic_markup(self) -> (r: ParseOptions)
        ensures
            r.only_classic_markup,
            r.strict == self.strict,
            r.helpful_errors == self.helpful_errors,
            opt_view(&r.where_) == opt_view(&self.where_),
    {
        ParseOptions { only_classic_markup: true, strict: self.strict, helpful_errors: self.helpful_errors, where_: self.where_ }
    }

    /// These options, with strict escapes.
    pub fn strict(self) -> (r: ParseOptions)
        ensures
            r.only_classic_markup == self.only_classic_markup,
            r.strict,
            r.helpful_errors == self.helpful_errors,
            opt_view(&r.where_) == opt_view(&self.where_),
    {
        ParseOptions { only_classic_markup: self.only_classic_markup, strict: true, helpful_errors: self.helpful_errors, where_: self.where_ }
    }

    /// These options, with error messages that name only the command.
    pub fn unhelpful_errors(self) -> (r: ParseOptions)
        ensures
            r.only_classic_markup == self.only_classic_markup,
            r.strict == self.strict,
            !r.helpful_errors,
            opt_view(&r.where_) == opt_view(&self.where_),
    {
        ParseOptions { only_classic_markup: self.only_classic_markup, strict: self.strict, helpful_errors: false, where_: self.where_ }
    }

    /// These options, with a location appended to error messages.
    pub fn where_(self, location: String) -> (r: ParseOptions)
        ensures
            r.only_classic_markup == self.only_classic_markup,
            r.strict == self.strict,
            r.helpful_errors == self.helpful_errors,
            opt_view(&r.where_) == Some(location@),
    {
        ParseOptions { only_classic_markup: self.only_classic_markup, strict: self.strict, helpful_errors: self.helpful_errors, where_: Some(location) }
    }

    /// These options, with the paragraph number put in front of the location.
    pub fn add_paragraph_to_where(&self, index: usize) -> (r: ParseOptions)
        ensures
            r.view() == paragraph_options(self.view(), index as nat),
    {
        let mut w = String::from_str(" of paragraph ");
        w.append(decimal_string(index).as_str());
        match &self.where_ {
            Some(old) => w.append(old.as_str()),
            None => {},
        }
        let r = ParseOptions { only_classic_markup: self.only_classic_markup, strict: self.strict, helpful_errors: self.helpful_errors, where_: Some(w) };
        proof {
            assert(r.view().location =~= paragraph_options(self.view(), index as nat).location);
        }
        r
    }
}

/// The options for paragraph `index` (counted from 1) of several.
pub open spec fn paragraph_options(opts: OptionsView, index: nat) -> OptionsView {
    OptionsView { location: " of paragraph "@ + decimal(index) + opts.location, ..opts }
}

/// Parses a paragraph into parts, each with the input it came from.
pub fn parse(input: &str, context: &Context, opts: &ParseOptions) -> (r: Vec<PartWithSource>)
    ensures
        sourced_view(r@) == parse_paragraph(input@, context, opts.view()),
{
    let v = chars_of(input);
    parse_chars(input, &v, context, opts)
}

/// Parses a paragraph into parts.
pub fn parse_without_sources(input: &str, context: &Context, opts: &ParseOptions) -> (r: Vec<Part>)
    ensures
        parts_view(r@) == parse_paragraph_parts(input@, context, opts.view()),
{
    let with = parse(input, context, opts);
    let ghost full = sourced_view(with@);
    let ghost orig = with@;
    let mut out: Vec<Part> = Vec::new();
    let mut rest = with;
    let total = rest.len();
    let mut i: usize = 0;
    while i < total
        invariant
            total == orig.len(),
            full == sourced_view(orig),
            i <= total,
            rest@ == orig.skip(i as int),
            parts_view(out@) == full.take(i as int).map_values(|x: (PartView, Seq<char>)| x.0),
        decreases total - i,
    {
        let ps = rest.remove(0);
        proof {
            assert(ps == orig[i as int]);
            assert(part_view(&ps.part) == full[i as int].0);
        }
        let ghost old_out = out@;
        let ghost pv = part_view(&ps.part);
        out.push(ps.part);
        proof {
            assert(parts_view(out@) =~= parts_view(old_out).push(pv));
            assert(full.take(i + 1).map_values(|x: (PartView, Seq<char>)| x.0) =~= full.take(
                i as int,
            ).map_values(|x: (PartView, Seq<char>)| x.0).push(pv));
            assert(rest@ =~= orig.skip(i + 1));
        }
        i += 1;
    }
    proof {
        assert(full.take(total as int) =~= full);
    }
    out
}

/// Parses several paragraphs; error messages name the paragraph, counted from 1.
pub fn parse_paragraphs(inputs: &Vec<&str>, context: &Context, opts: &ParseOptions) -> (r: Vec<
    Vec<PartWithSource>,
>)
    ensures
        r@.len() == inputs@.len(),
        forall|i: int|
            0 <= i < r@.len() ==> sourced_view(#[trigger] r@[i]@) == parse_paragraph(
                inputs@[i]@,
                context,
                paragraph_options(opts.view(), (i + 1) as nat),
            ),
{
    let mut out: Vec<Vec<PartWithSource>> = Vec::new();
    let mut i: usize = 0;
    while i < inputs.len()
        invariant
            i <= inputs@.len(),
            out@.len() == i,
            forall|j: int|
                0 <= j < i ==> sourced_view(#[trigger] out@[j]@) == parse_paragraph(
                    inputs@[j]@,
                    context,
                    paragraph_options(opts.view(), (j + 1) as nat),
                ),
        decreases inputs@.len() - i,
    {
        let o = opts.add_paragraph_to_where(i + 1);
        out.push(parse(inputs[i], context, &o));
        i += 1;
    }
    out
}

/// Parses several paragraphs into parts; error messages name the paragraph, counted from 1.
pub fn parse_paragraphs_without_sources(
    inputs: &Vec<&str>,
    context: &Context,
    opts: &ParseOptions,
) -> (r: Vec<Vec<Part>>)
    ensures
        r@.len() == inputs@.len(),
        forall|i: int|
            0 <= i < r@.len() ==> parts_view(#[trigger] r@[i]@) == parse_paragraph_parts(
                inputs@[i]@,
                context,
                paragraph_options(opts.view(), (i + 1) as nat),
            ),
{
    let mut out: Vec<Vec<Part>> = Vec::new();
    let mut i: usize = 0;
    while i < inputs.len()
        invariant
            i <= inputs@.len(),
            out@.len() == i,
            forall|j: int|
                0 <= j < i ==> parts_view(#[trigger] out@[j]@) == parse_paragraph_parts(
                    inputs@[j]@,
                    context,
                    paragraph_options(opts.view(), (j + 1) as nat),
                ),
        decreases inputs@.len() - i,
    {
        let o = opts.add_paragraph_to_where(i + 1);
        out.push(parse_without_sources(inputs[i], context, &o));
        i += 1;
    }
    out
}

} // verus!
