//! Laws that the parser, the renderers and the escapers obey.
use vstd::prelude::*;
use vstd::utf8::encode_utf8;
use crate::dom::{OptionRefView, PartView};
use crate::escape::{html_escape, md_escape, md_special, rst_escape, rst_escape_chars, rst_special, url_escaped, url_unchanged};
use crate::format::{Formatter, LinkProvider, paragraph_text};
use crate::grammar::{option_ref, qualifier, split_value, is_fqcn, is_plugin_type, resolve_plugin};
use crate::parse::{Context, OptionsView, parse_paragraph, parse_from, next_command, command_at, command_result, command_args, command_matches, command_prefix, spec_command, escaped_arg, lemma_prefix_nonempty, lemma_first_command_matches, lemma_next_command};
use crate::scan::{contains_char, find_from, has_prefix_at, lemma_find_from, lemma_find_skip};

verus! {

/// An empty paragraph parses to no parts.
pub proof fn lemma_empty_input(ctx: &Context, opts: OptionsView)
    ensures
        parse_paragraph(Seq::empty(), ctx, opts) == Seq::<(PartView, Seq<char>)>::empty(),
{
}

/// A paragraph without parts renders as `par_empty` between `par_start` and `par_end`.
pub proof fn lemma_empty_paragraph<F: Formatter, L: LinkProvider>(
    f: &F,
    lp: &L,
    current: Option<(Seq<char>, Seq<char>)>,
    start: Seq<char>,
    end: Seq<char>,
    empty: Seq<char>,
)
    ensures
        paragraph_text(f, lp, Seq::empty(), current, start, end, empty) == start + empty + end,
{
}

/// HTML escaping leaves text without `<`, `>` and `&` unchanged.
pub proof fn lemma_html_escape_unchanged(s: Seq<char>)
    requires
        forall|i: int| 0 <= i < s.len() ==> #[trigger] s[i] != '<' && s[i] != '>' && s[i] != '&',
    ensures
        html_escape(s) == s,
    decreases s.len(),
{
    if s.len() > 0 {
        lemma_html_escape_unchanged(s.drop_last());
        assert(html_escape(s) =~= s.drop_last() + seq![s.last()]);
        assert(s.drop_last() + seq![s.last()] =~= s);
    }
}

/// Markdown escaping leaves text without special characters unchanged.
pub proof fn lemma_md_escape_unchanged(s: Seq<char>)
    requires
        forall|i: int| 0 <= i < s.len() ==> !md_special(#[trigger] s[i]),
    ensures
        md_escape(s) == s,
    decreases s.len(),
{
    if s.len() > 0 {
        lemma_md_escape_unchanged(s.drop_last());
        assert(s.drop_last().push(s.last()) =~= s);
    }
}

proof fn lemma_rst_chars_unchanged(s: Seq<char>)
    requires
        forall|i: int| 0 <= i < s.len() ==> !rst_special(#[trigger] s[i]),
    ensures
        rst_escape_chars(s) == s,
    decreases s.len(),
{
    if s.len() > 0 {
        lemma_rst_chars_unchanged(s.drop_last());
        assert(s.drop_last().push(s.last()) =~= s);
    }
}

/// reStructuredText escaping leaves text unchanged when it holds no special
/// character, does not start or end with a space where ending whitespace is
/// escaped, and is not empty where it must not be.
pub proof fn lemma_rst_escape_unchanged(s: Seq<char>, escape_ending_whitespace: bool, must_not_be_empty: bool)
    requires
        forall|i: int| 0 <= i < s.len() ==> !rst_special(#[trigger] s[i]),
        escape_ending_whitespace && s.len() > 0 ==> s[0] != ' ' && s.last() != ' ',
        must_not_be_empty ==> s.len() > 0,
    ensures
        rst_escape(s, escape_ending_whitespace, must_not_be_empty) == s,
{
    lemma_rst_chars_unchanged(s);
    if s.len() > 0 {
        assert(Seq::<char>::empty() + s + Seq::<char>::empty() =~= s);
    }
}

/// URL escaping leaves a URL unchanged when none of its bytes needs escaping.
pub proof fn lemma_url_escape_unchanged(s: Seq<char>, html: bool)
    requires
        url_unchanged(encode_utf8(s), html),
    ensures
        url_escaped(s, html) == s,
{
}

/// An option name without `=`, `:` or `#` inherits the context's plugin.
pub proof fn lemma_link_inheritance(
    name: Seq<char>,
    plugin: (Seq<char>, Seq<char>),
    entrypoint: Option<Seq<char>>,
)
    requires
        !contains_char(name, '='),
        !contains_char(name, ':'),
        !contains_char(name, '#'),
        plugin.1 == "role"@ ==> entrypoint is Some,
    ensures
        option_ref(name, Some(plugin), entrypoint) matches Ok(o) && o.plugin == Some(plugin)
            && o.entrypoint == entrypoint && o.name == name && o.value is None,
{
    lemma_find_from(name, 0, '=');
    assert(split_value(name) == (name, None::<Seq<char>>));
    lemma_no_qualifier(name);
    lemma_not_ignored(name);
    lemma_find_from(name, 0, ':');
}

proof fn lemma_no_qualifier(t: Seq<char>)
    requires
        !contains_char(t, '#'),
    ensures
        qualifier(t) is None,
{
    if let Some(d1) = find_from(t, 0, '.') {
        lemma_find_from(t, 0, '.');
        if d1 >= 1 {
            if let Some(d2) = find_from(t, d1 + 1, '.') {
                lemma_find_from(t, d1 + 1, '.');
                lemma_find_from(t, d2 + 1, '#');
            }
        }
    }
}

proof fn lemma_not_ignored(t: Seq<char>)
    requires
        !contains_char(t, ':'),
    ensures
        !has_prefix_at(t, 0, "ignore:"@),
{
    reveal_strlit("ignore:");
    if has_prefix_at(t, 0, "ignore:"@) {
        assert(t.subrange(0, 7)[6] == ':');
        assert(t[6] == ':');
    }
}

/// `ignore:` before an option name drops the context's plugin and entrypoint.
pub proof fn lemma_ignore_marker(
    name: Seq<char>,
    plugin: Option<(Seq<char>, Seq<char>)>,
    entrypoint: Option<Seq<char>>,
)
    requires
        !contains_char(name, '='),
        !contains_char(name, ':'),
        !contains_char(name, '#'),
    ensures
        option_ref("ignore:"@ + name, plugin, entrypoint) matches Ok(o) && o.plugin is None
            && o.entrypoint is None && o.name == name && o.value is None,
{
    reveal_strlit("ignore:");
    let t = "ignore:"@ + name;
    assert forall|i: int| 0 <= i < t.len() implies #[trigger] t[i] != '=' && t[i] != '#' by {
        if i >= 7 {
            assert(t[i] == name[i - 7]);
        }
    }
    lemma_find_from(t, 0, '=');
    assert(split_value(t) == (t, None::<Seq<char>>));
    lemma_no_qualifier(t);
    assert(t.subrange(0, 7) =~= "ignore:"@);
    let rest = t.skip(7);
    assert(rest =~= name);
}

proof fn lemma_no_command(s: Seq<char>, i: int, classic: bool)
    requires
        0 <= i,
        forall|j: int| 0 <= j < s.len() ==> command_at(s, j, classic) is None,
    ensures
        next_command(s, i, classic) is None,
    decreases s.len() - i,
{
    if i < s.len() {
        lemma_no_command(s, i + 1, classic);
    }
}

/// Text in which no command starts parses to one text part holding all of it.
pub proof fn lemma_plain_text(s: Seq<char>, ctx: &Context, opts: OptionsView)
    requires
        s.len() > 0,
        forall|j: int| 0 <= j < s.len() ==> command_at(s, j, opts.classic) is None,
    ensures
        parse_paragraph(s, ctx, opts) == seq![(PartView::Text(s), s)],
{
    lemma_no_command(s, 0, opts.classic);
    assert(s.subrange(0, s.len() as int) =~= s);
}

/// The sources of a list of parts, one after the other.
pub open spec fn concat_sources(v: Seq<(PartView, Seq<char>)>) -> Seq<char>
    decreases v.len(),
{
    if v.len() == 0 {
        Seq::empty()
    } else {
        v[0].1 + concat_sources(v.drop_first())
    }
}

proof fn lemma_concat_sources_append(a: Seq<(PartView, Seq<char>)>, b: Seq<(PartView, Seq<char>)>)
    ensures
        concat_sources(a + b) == concat_sources(a) + concat_sources(b),
    decreases a.len(),
{
    if a.len() == 0 {
        assert(a + b =~= b);
    } else {
        assert((a + b).drop_first() =~= a.drop_first() + b);
        lemma_concat_sources_append(a.drop_first(), b);
        assert(concat_sources(a + b) =~= a[0].1 + (concat_sources(a.drop_first()) + concat_sources(b)));
    }
}

proof fn lemma_escaped_close_range(s: Seq<char>, i: int)
    requires
        0 <= i,
    ensures
        (i < crate::parse::escaped_close(s, i) <= s.len()) || crate::parse::escaped_close(s, i) == s.len(),
    decreases s.len() - i,
{
    if i < s.len() {
        if s[i] == '\\' && i + 1 < s.len() {
            lemma_escaped_close_range(s, i + 2);
        } else if s[i] != ')' {
            lemma_escaped_close_range(s, i + 1);
        }
    }
}

proof fn lemma_escaped_end(s: Seq<char>, i: int, strict: bool, acc: Seq<char>)
    requires
        0 <= i,
    ensures
        escaped_arg(s, i, strict, acc) matches Ok((_, e)) ==> i < e <= s.len(),
        escaped_arg(s, i, strict, acc) matches Err((_, e)) ==> (i < e <= s.len()) || e == s.len(),
    decreases s.len() - i,
{
    if i < s.len() {
        if s[i] == '\\' && i + 1 < s.len() {
            if !(strict && s[i + 1] != ')' && s[i + 1] != '\\') {
                lemma_escaped_end(s, i + 2, strict, acc.push(s[i + 1]));
            } else {
                lemma_escaped_close_range(s, i + 2);
            }
        } else if s[i] != ')' {
            lemma_escaped_end(s, i + 1, strict, acc.push(s[i]));
        }
    }
}

proof fn lemma_command_end(s: Seq<char>, m: int, k: crate::parse::CommandKind, ctx: &Context, opts: OptionsView)
    requires
        0 <= m < s.len(),
        command_matches(s, m, k),
    ensures
        m < command_result(s, m, k, ctx, opts).1 <= s.len(),
{
    lemma_prefix_nonempty(k);
    let first = m + command_prefix(k).len();
    if spec_command(k).escaped_arguments {
        lemma_escaped_end(s, first, opts.strict, Seq::empty());
    } else {
        lemma_find_from(s, first, ')');
        lemma_find_from(s, first, ',');
        if let Some(j1) = find_from(s, first, ',') {
            lemma_find_from(s, j1 + 1, ')');
        }
    }
    assert(command_args(s, m, k, opts) matches Ok((_, e)) ==> m < e <= s.len());
    assert(command_args(s, m, k, opts) matches Err((_, e)) ==> m < e <= s.len());
}

proof fn lemma_sources_from(s: Seq<char>, pos: int, ctx: &Context, opts: OptionsView)
    requires
        0 <= pos <= s.len(),
    ensures
        concat_sources(parse_from(s, pos, ctx, opts)) == s.subrange(pos, s.len() as int),
    decreases s.len() - pos,
{
    if pos < s.len() {
        lemma_next_command(s, pos, opts.classic);
        match next_command(s, pos, opts.classic) {
            None => {
                let v = seq![(PartView::Text(s.subrange(pos, s.len() as int)), s.subrange(pos, s.len() as int))];
                assert(v.drop_first() =~= Seq::<(PartView, Seq<char>)>::empty());
                assert(concat_sources(v.drop_first()) == Seq::<char>::empty());
                assert(concat_sources(v) == v[0].1 + concat_sources(v.drop_first()));
                assert(concat_sources(v) =~= s.subrange(pos, s.len() as int));
            },
            Some((m, k)) => {
                lemma_first_command_matches(s, m, opts.classic, 0);
                lemma_command_end(s, m, k, ctx, opts);
                let (part, e) = command_result(s, m, k, ctx, opts);
                let before = if m > pos {
                    seq![(PartView::Text(s.subrange(pos, m)), s.subrange(pos, m))]
                } else {
                    Seq::empty()
                };
                let one = seq![(part, s.subrange(m, e))];
                assert(before.push((part, s.subrange(m, e))) =~= before + one);
                lemma_sources_from(s, e, ctx, opts);
                lemma_concat_sources_append(before + one, parse_from(s, e, ctx, opts));
                lemma_concat_sources_append(before, one);
                assert(one.drop_first() =~= Seq::<(PartView, Seq<char>)>::empty());
                assert(concat_sources(one.drop_first()) == Seq::<char>::empty());
                assert(concat_sources(one) == one[0].1 + concat_sources(one.drop_first()));
                assert(concat_sources(one) =~= s.subrange(m, e));
                if m > pos {
                    assert(before.drop_first() =~= Seq::<(PartView, Seq<char>)>::empty());
                    assert(concat_sources(before.drop_first()) == Seq::<char>::empty());
                    assert(concat_sources(before) == before[0].1 + concat_sources(before.drop_first()));
                    assert(concat_sources(before) =~= s.subrange(pos, m));
                } else {
                    assert(concat_sources(before) =~= Seq::<char>::empty());
                }
                assert(s.subrange(pos, m) + s.subrange(m, e) + s.subrange(e, s.len() as int) =~= s.subrange(
                    pos,
                    s.len() as int,
                ));
            },
        }
    } else {
        assert(s.subrange(pos, s.len() as int) =~= Seq::<char>::empty());
    }
}

/// The sources of the parts of a paragraph, one after the other, are the paragraph.
pub proof fn lemma_sources_cover_input(s: Seq<char>, ctx: &Context, opts: OptionsView)
    ensures
        concat_sources(parse_paragraph(s, ctx, opts)) == s,
{
    lemma_sources_from(s, 0, ctx, opts);
    assert(s.subrange(0, s.len() as int) =~= s);
}

/// In an escaped argument a backslash followed by any character stands for
/// that character; strict parsing accepts only `\\` and `\)`.
pub proof fn lemma_backslash_escape(s: Seq<char>, i: int, strict: bool, acc: Seq<char>)
    requires
        0 <= i,
        i + 1 < s.len(),
        s[i] == '\\',
    ensures
        !strict || s[i + 1] == ')' || s[i + 1] == '\\' ==> escaped_arg(s, i, strict, acc)
            == escaped_arg(s, i + 2, strict, acc.push(s[i + 1])),
        strict && s[i + 1] != ')' && s[i + 1] != '\\' ==> escaped_arg(s, i, strict, acc) is Err,
{
}

proof fn lemma_first_char_differs(s: Seq<char>, p: Seq<char>)
    requires
        p.len() > 0,
        s.len() > 0,
        s[0] != p[0],
    ensures
        !has_prefix_at(s, 0, p),
{
    if has_prefix_at(s, 0, p) {
        assert(s.subrange(0, p.len() as int)[0] == s[0]);
    }
}

proof fn lemma_skip_entry(s: Seq<char>, n: int)
    requires
        0 <= n < 13,
        !command_matches(s, 0, crate::parse::command_order(n)),
    ensures
        crate::parse::first_command_from(s, 0, false, n) == crate::parse::first_command_from(s, 0, false, n + 1),
{
}

/// `V(\c)` is the option value `c`, for any `c`; under strict parsing that
/// holds only when `c` is `\` or `)`, and the whole command is one error part otherwise.
pub proof fn lemma_escaped_value(c: char, ctx: &Context, opts: OptionsView)
    requires
        !opts.classic,
    ensures
        !opts.strict || c == ')' || c == '\\' ==> parse_paragraph(seq!['V', '(', '\\', c, ')'], ctx, opts)
            == seq![(PartView::OptionValue(seq![c]), seq!['V', '(', '\\', c, ')'])],
        opts.strict && c != ')' && c != '\\' ==> parse_paragraph(seq!['V', '(', '\\', c, ')'], ctx, opts)
            .len() == 1 && parse_paragraph(seq!['V', '(', '\\', c, ')'], ctx, opts)[0].0 is Error
            && parse_paragraph(seq!['V', '(', '\\', c, ')'], ctx, opts)[0].1 == seq!['V', '(', '\\', c, ')'],
{
    let s = seq!['V', '(', '\\', c, ')'];
    lemma_value_start(s);
    let k = crate::parse::CommandKind::OptionValue;
    assert(next_command(s, 0, false) == Some((0int, k)));
    assert(command_prefix(k).len() == 2);
    if !opts.strict || c == ')' || c == '\\' {
        assert(escaped_arg(s, 4, opts.strict, seq![c]) == Ok::<(Seq<char>, int), (Seq<char>, int)>((seq![c], 5)));
        assert(Seq::<char>::empty().push(c) =~= seq![c]);
        assert(escaped_arg(s, 2, opts.strict, Seq::empty()) == Ok::<(Seq<char>, int), (Seq<char>, int)>((seq![c], 5)));
        assert(command_result(s, 0, k, ctx, opts) == (PartView::OptionValue(seq![c]), 5int));
        assert(s.subrange(0, 5) =~= s);
        assert(parse_from(s, 5, ctx, opts) == Seq::<(PartView, Seq<char>)>::empty());
        assert(parse_paragraph(s, ctx, opts) =~= seq![(PartView::OptionValue(seq![c]), s)]);
    } else {
        lemma_command_end(s, 0, k, ctx, opts);
        assert(escaped_arg(s, 2, opts.strict, Seq::empty()) is Err);
        let (part, e) = command_result(s, 0, k, ctx, opts);
        assert(part is Error);
        assert(crate::parse::escaped_close(s, 4) == 5);
        assert(e == 5);
        assert(s.subrange(0, 5) =~= s);
        let here = Seq::<(PartView, Seq<char>)>::empty().push((part, s));
        assert(parse_from(s, 5, ctx, opts) == Seq::<(PartView, Seq<char>)>::empty());
        assert(parse_paragraph(s, ctx, opts) =~= here);
    }
}

proof fn lemma_find_at(s: Seq<char>, i: int, j: int, c: char)
    requires
        0 <= i <= j < s.len(),
        s[j] == c,
        forall|k: int| i <= k < j ==> s[k] != c,
    ensures
        find_from(s, i, c) == Some(j),
{
    lemma_find_skip(s, i, j, c);
}

proof fn lemma_role_qualifier(f: Seq<char>, rest: Seq<char>)
    requires
        is_fqcn(f),
        !contains_char(rest, '\n'),
    ensures
        qualifier(f + "#role:"@ + rest) == Some((f.len() as int, f.len() as int + 5)),
        (f + "#role:"@ + rest).take(f.len() as int) == f,
        (f + "#role:"@ + rest).subrange(f.len() as int + 1, f.len() as int + 5) == "role"@,
        (f + "#role:"@ + rest).skip(f.len() as int + 6) == rest,
{
    reveal_strlit("#role:");
    reveal_strlit("role");
    let t = f + "#role:"@ + rest;
    let n = f.len() as int;
    assert(forall|k: int| 0 <= k < n ==> t[k] == f[k]);
    assert(t[n] == '#' && t[n + 1] == 'r' && t[n + 2] == 'o' && t[n + 3] == 'l' && t[n + 4] == 'e'
        && t[n + 5] == ':');
    assert(forall|k: int| 0 <= k < rest.len() ==> t[n + 6 + k] == rest[k]);
    let (a, b) = choose|a: int, b: int| 0 <= a < b < f.len() && f[a] == '.' && f[b] == '.';
    lemma_find_from(f, 0, '.');
    let d1 = find_from(f, 0, '.')->0;
    lemma_find_at(t, 0, d1, '.');
    assert(d1 >= 1);
    assert(d1 <= a);
    assert(f[d1 + 1] != '.');
    lemma_find_from(f, d1 + 1, '.');
    assert(find_from(f, d1 + 1, '.') is Some) by {
        if find_from(f, d1 + 1, '.') is None {
            assert(f[b] != '.');
        }
    }
    let d2 = find_from(f, d1 + 1, '.')->0;
    lemma_find_at(t, d1 + 1, d2, '.');
    assert(d2 >= d1 + 2);
    assert(d2 < n - 1) by {
        assert(f[n - 1] != '.');
    }
    assert(forall|k: int| 0 <= k < n ==> #[trigger] t[k] != '#') by {
        assert forall|k: int| 0 <= k < n implies #[trigger] t[k] != '#' by {
            assert(crate::grammar::is_fqcn_char(f[k]) || f[k] == '.');
        }
    }
    lemma_find_at(t, d2 + 1, n, '#');
    lemma_find_at(t, n + 1, n + 5, ':');
    assert(t.skip(n + 6) =~= rest);
    assert forall|k: int| 0 <= k < t.skip(n + 6).len() implies #[trigger] t.skip(n + 6)[k] != '\n' by {
        assert(t.skip(n + 6)[k] == rest[k]);
    }
    assert(t.take(n) =~= f);
    assert(t.subrange(n + 1, n + 5) =~= "role"@);
}

proof fn lemma_fqcn_plain(f: Seq<char>)
    requires
        is_fqcn(f),
    ensures
        !contains_char(f, '='),
        !contains_char(f, ':'),
        !contains_char(f, '#'),
        !contains_char(f, '\n'),
{
    assert forall|k: int| 0 <= k < f.len() implies #[trigger] f[k] != '=' && f[k] != ':' && f[k] != '#'
        && f[k] != '\n' by {
        assert(crate::grammar::is_fqcn_char(f[k]) || f[k] == '.');
    }
}

proof fn lemma_concat_lacks(a: Seq<char>, b: Seq<char>, c: char)
    requires
        !contains_char(a, c),
        !contains_char(b, c),
    ensures
        !contains_char(a + b, c),
{
    assert forall|k: int| 0 <= k < (a + b).len() implies #[trigger] (a + b)[k] != c by {
        if k >= a.len() {
            assert((a + b)[k] == b[k - a.len()]);
        }
    }
}

/// A role reference names its entrypoint: `fqcn#role:name` is rejected, and
/// `fqcn#role:ep:name` refers to option `name` of entrypoint `ep`.
pub proof fn lemma_role_entrypoint(
    f: Seq<char>,
    ep: Seq<char>,
    name: Seq<char>,
    ctx_plugin: Option<(Seq<char>, Seq<char>)>,
    ctx_entrypoint: Option<Seq<char>>,
)
    requires
        is_fqcn(f),
        !contains_char(ep, '='),
        !contains_char(ep, ':'),
        !contains_char(ep, '\n'),
        !contains_char(name, '='),
        !contains_char(name, ':'),
        !contains_char(name, '#'),
        !contains_char(name, '\n'),
    ensures
        option_ref(f + "#role:"@ + name, ctx_plugin, ctx_entrypoint) == Err::<OptionRefView, Seq<char>>(
            "Role reference is missing entrypoint"@,
        ),
        option_ref(f + "#role:"@ + (ep + ":"@ + name), ctx_plugin, ctx_entrypoint) matches Ok(o)
            && o.plugin == Some((f, "role"@)) && o.entrypoint == Some(ep) && o.name == name,
{
    reveal_strlit("#role:");
    reveal_strlit("role");
    reveal_strlit(":");
    lemma_fqcn_plain(f);
    assert(is_plugin_type("role"@));
    let mid = "#role:"@;
    assert(!contains_char(mid, '=') && !contains_char(mid, '\n'));
    let colon = ":"@;
    assert(!contains_char(colon, '=') && !contains_char(colon, '\n'));
    // the reference without an entrypoint
    let t1 = f + mid + name;
    lemma_role_qualifier(f, name);
    lemma_concat_lacks(f, mid, '=');
    lemma_concat_lacks(f + mid, name, '=');
    lemma_find_from(t1, 0, '=');
    assert(split_value(t1) == (t1, None::<Seq<char>>));
    assert(resolve_plugin(t1, ctx_plugin, ctx_entrypoint) == Ok::<(Option<(Seq<char>, Seq<char>)>, Option<Seq<char>>, Seq<char>), Seq<char>>(
        (Some((f, "role"@)), None, name)));
    lemma_find_from(name, 0, ':');
    // the reference with an entrypoint
    let rest = ep + colon + name;
    lemma_concat_lacks(ep, colon, '\n');
    lemma_concat_lacks(ep + colon, name, '\n');
    assert(ep + colon + name == ep + (colon + name)) by {
        assert(ep + colon + name =~= ep + (colon + name));
    }
    let t2 = f + mid + rest;
    lemma_role_qualifier(f, rest);
    lemma_concat_lacks(ep, colon, '=');
    lemma_concat_lacks(ep + colon, name, '=');
    lemma_concat_lacks(f + mid, rest, '=');
    lemma_find_from(t2, 0, '=');
    assert(split_value(t2) == (t2, None::<Seq<char>>));
    assert(rest[ep.len() as int] == ':');
    assert forall|k: int| 0 <= k < ep.len() implies #[trigger] rest[k] != ':' by {
        assert(rest[k] == ep[k]);
    }
    lemma_find_at(rest, 0, ep.len() as int, ':');
    assert(rest.take(ep.len() as int) =~= ep);
    assert(rest.skip(ep.len() as int + 1) =~= name);
    assert(f + "#role:"@ + (ep + ":"@ + name) =~= t2);
}

proof fn lemma_plain_escaped(s: Seq<char>, i: int, j: int, strict: bool, acc: Seq<char>)
    requires
        0 <= i <= j < s.len(),
        s[j] == ')',
        forall|k: int| i <= k < j ==> s[k] != '\\' && s[k] != ')',
    ensures
        escaped_arg(s, i, strict, acc) == Ok::<(Seq<char>, int), (Seq<char>, int)>(
            (acc + s.subrange(i, j), j + 1),
        ),
    decreases j - i,
{
    if i == j {
        assert(acc + s.subrange(i, j) =~= acc);
    } else {
        lemma_plain_escaped(s, i + 1, j, strict, acc.push(s[i]));
        assert(acc.push(s[i]) + s.subrange(i + 1, j) =~= acc + s.subrange(i, j));
    }
}

/// `O(arg)` alone, for an argument without `\` or `)` that names a valid
/// option, is one option part covering the whole input.
proof fn lemma_option_paragraph(arg: Seq<char>, ctx: &Context, opts: OptionsView)
    requires
        !opts.classic,
        !contains_char(arg, '\\'),
        !contains_char(arg, ')'),
    ensures
        option_ref(arg, crate::dom::plugin_view(&ctx.current_plugin), crate::text::opt_view(&ctx.role_entrypoint))
            matches Ok(o) ==> parse_paragraph("O("@ + arg + ")"@, ctx, opts) == seq![
            (PartView::OptionName(o), "O("@ + arg + ")"@),
        ],
{
    let s = "O("@ + arg + ")"@;
    reveal_strlit("I(");
    reveal_strlit("B(");
    reveal_strlit("M(");
    reveal_strlit("U(");
    reveal_strlit("L(");
    reveal_strlit("R(");
    reveal_strlit("C(");
    reveal_strlit("HORIZONTALLINE");
    reveal_strlit("P(");
    reveal_strlit("E(");
    reveal_strlit("V(");
    reveal_strlit("O(");
    reveal_strlit(")");
    let n = arg.len() as int;
    assert(s.len() == n + 3);
    assert(s[0] == 'O' && s[1] == '(' && s[n + 2] == ')');
    assert(forall|k: int| 0 <= k < n ==> s[k + 2] == arg[k]);
    lemma_first_char_differs(s, "I("@);
    lemma_first_char_differs(s, "B("@);
    lemma_first_char_differs(s, "M("@);
    lemma_first_char_differs(s, "U("@);
    lemma_first_char_differs(s, "L("@);
    lemma_first_char_differs(s, "R("@);
    lemma_first_char_differs(s, "C("@);
    lemma_first_char_differs(s, "HORIZONTALLINE"@);
    lemma_first_char_differs(s, "P("@);
    lemma_first_char_differs(s, "E("@);
    lemma_first_char_differs(s, "V("@);
    lemma_skip_entry(s, 0);
    lemma_skip_entry(s, 1);
    lemma_skip_entry(s, 2);
    lemma_skip_entry(s, 3);
    lemma_skip_entry(s, 4);
    lemma_skip_entry(s, 5);
    lemma_skip_entry(s, 6);
    lemma_skip_entry(s, 7);
    lemma_skip_entry(s, 8);
    lemma_skip_entry(s, 9);
    lemma_skip_entry(s, 10);
    let k = crate::parse::CommandKind::OptionName;
    assert(s.subrange(0, 2) =~= "O("@);
    assert(command_matches(s, 0, k));
    assert(crate::parse::first_command_from(s, 0, false, 11) == Some(k));
    assert(command_at(s, 0, false) == Some(k));
    assert(next_command(s, 0, false) == Some((0int, k)));
    assert(command_prefix(k).len() == 2);
    assert forall|j: int| 2 <= j < n + 2 implies #[trigger] s[j] != '\\' && s[j] != ')' by {
        assert(s[j] == arg[j - 2]);
    }
    lemma_plain_escaped(s, 2, n + 2, opts.strict, Seq::empty());
    assert(Seq::<char>::empty() + s.subrange(2, n + 2) =~= arg);
    assert(s.subrange(0, n + 3) =~= s);
    assert(parse_from(s, n + 3, ctx, opts) == Seq::<(PartView, Seq<char>)>::empty());
    if let Ok(o) = option_ref(
        arg,
        crate::dom::plugin_view(&ctx.current_plugin),
        crate::text::opt_view(&ctx.role_entrypoint),
    ) {
        assert(command_result(s, 0, k, ctx, opts) == (PartView::OptionName(o), n + 3));
        assert(parse_paragraph(s, ctx, opts) =~= seq![(PartView::OptionName(o), s)]);
    }
}

/// A bare `O(name)` in a paragraph takes the context's plugin and entrypoint.
pub proof fn lemma_paragraph_link_inheritance(name: Seq<char>, ctx: &Context, opts: OptionsView)
    requires
        !opts.classic,
        ctx.current_plugin is Some,
        ctx.current_plugin->0.plugin_type@ == "role"@ ==> ctx.role_entrypoint is Some,
        !contains_char(name, '='),
        !contains_char(name, ':'),
        !contains_char(name, '#'),
        !contains_char(name, '\\'),
        !contains_char(name, ')'),
    ensures
        parse_paragraph("O("@ + name + ")"@, ctx, opts).len() == 1,
        parse_paragraph("O("@ + name + ")"@, ctx, opts)[0].1 == "O("@ + name + ")"@,
        parse_paragraph("O("@ + name + ")"@, ctx, opts)[0].0 matches PartView::OptionName(o) && o.plugin
            == crate::dom::plugin_view(&ctx.current_plugin) && o.entrypoint == crate::text::opt_view(
            &ctx.role_entrypoint,
        ) && o.name == name && o.value is None,
{
    let p = ctx.current_plugin->0;
    lemma_link_inheritance(name, (p.fqcn@, p.plugin_type@), crate::text::opt_view(&ctx.role_entrypoint));
    lemma_option_paragraph(name, ctx, opts);
}

/// `O(ignore:name)` in a paragraph has no plugin and no entrypoint, whatever the context.
pub proof fn lemma_paragraph_ignore_marker(name: Seq<char>, ctx: &Context, opts: OptionsView)
    requires
        !opts.classic,
        !contains_char(name, '='),
        !contains_char(name, ':'),
        !contains_char(name, '#'),
        !contains_char(name, '\\'),
        !contains_char(name, ')'),
    ensures
        parse_paragraph("O("@ + ("ignore:"@ + name) + ")"@, ctx, opts).len() == 1,
        parse_paragraph("O("@ + ("ignore:"@ + name) + ")"@, ctx, opts)[0].0 matches PartView::OptionName(o)
            && o.plugin is None && o.entrypoint is None && o.name == name && o.value is None,
{
    reveal_strlit("ignore:");
    lemma_ignore_marker(
        name,
        crate::dom::plugin_view(&ctx.current_plugin),
        crate::text::opt_view(&ctx.role_entrypoint),
    );
    let arg = "ignore:"@ + name;
    assert forall|k: int| 0 <= k < arg.len() implies #[trigger] arg[k] != '\\' && arg[k] != ')' by {
        if k >= 7 {
            assert(arg[k] == name[k - 7]);
        }
    }
    lemma_option_paragraph(arg, ctx, opts);
}

proof fn lemma_value_start(s: Seq<char>)
    requires
        s.len() >= 2,
        s[0] == 'V',
        s[1] == '(',
    ensures
        next_command(s, 0, false) == Some((0int, crate::parse::CommandKind::OptionValue)),
        command_matches(s, 0, crate::parse::CommandKind::OptionValue),
        command_prefix(crate::parse::CommandKind::OptionValue).len() == 2,
{
    reveal_strlit("I(");
    reveal_strlit("B(");
    reveal_strlit("M(");
    reveal_strlit("U(");
    reveal_strlit("L(");
    reveal_strlit("R(");
    reveal_strlit("C(");
    reveal_strlit("HORIZONTALLINE");
    reveal_strlit("P(");
    reveal_strlit("E(");
    reveal_strlit("V(");
    lemma_first_char_differs(s, "I("@);
    lemma_first_char_differs(s, "B("@);
    lemma_first_char_differs(s, "M("@);
    lemma_first_char_differs(s, "U("@);
    lemma_first_char_differs(s, "L("@);
    lemma_first_char_differs(s, "R("@);
    lemma_first_char_differs(s, "C("@);
    lemma_first_char_differs(s, "HORIZONTALLINE"@);
    lemma_first_char_differs(s, "P("@);
    lemma_first_char_differs(s, "E("@);
    lemma_skip_entry(s, 0);
    lemma_skip_entry(s, 1);
    lemma_skip_entry(s, 2);
    lemma_skip_entry(s, 3);
    lemma_skip_entry(s, 4);
    lemma_skip_entry(s, 5);
    lemma_skip_entry(s, 6);
    lemma_skip_entry(s, 7);
    lemma_skip_entry(s, 8);
    lemma_skip_entry(s, 9);
    let k = crate::parse::CommandKind::OptionValue;
    assert(s.subrange(0, 2) =~= "V("@);
    assert(command_matches(s, 0, k));
    assert(crate::parse::first_command_from(s, 0, false, 10) == Some(k));
    assert(command_at(s, 0, false) == Some(k));
}

/// Inside `V(...)`, `\c` stands for `c` whatever `c` is: `V(a\cb)` is the
/// value `acb` when `a` and `b` hold no `\` or `)`. Strict parsing gives the
/// same for `c` being `\` or `)`.
pub proof fn lemma_escaped_value_within(
    a: Seq<char>,
    c: char,
    b: Seq<char>,
    ctx: &Context,
    opts: OptionsView,
)
    requires
        !opts.classic,
        !opts.strict || c == ')' || c == '\\',
        !contains_char(a, '\\'),
        !contains_char(a, ')'),
        !contains_char(b, '\\'),
        !contains_char(b, ')'),
    ensures
        parse_paragraph("V("@ + a + seq!['\\', c] + b + ")"@, ctx, opts) == seq![
            (PartView::OptionValue(a.push(c) + b), "V("@ + a + seq!['\\', c] + b + ")"@),
        ],
{
    reveal_strlit("V(");
    reveal_strlit(")");
    let s = "V("@ + a + seq!['\\', c] + b + ")"@;
    let na = a.len() as int;
    let nb = b.len() as int;
    let n = na + nb + 5;
    assert(s.len() == n);
    assert(s[0] == 'V' && s[1] == '(' && s[na + 2] == '\\' && s[na + 3] == c && s[n - 1] == ')');
    lemma_value_start(s);
    let k = crate::parse::CommandKind::OptionValue;
    assert forall|j: int| 2 <= j < na + 2 implies #[trigger] s[j] != '\\' && s[j] != ')' by {
        assert(s[j] == a[j - 2]);
    }
    assert forall|j: int| na + 4 <= j < n - 1 implies #[trigger] s[j] != '\\' && s[j] != ')' by {
        assert(s[j] == b[j - na - 4]);
    }
    assert(escaped_arg(s, 2, opts.strict, Seq::empty()) == escaped_arg(s, na + 2, opts.strict, s.subrange(2, na + 2))) by {
        lemma_plain_prefix(s, 2, na + 2, opts.strict, Seq::empty());
    }
    assert(s.subrange(2, na + 2) =~= a);
    lemma_plain_escaped(s, na + 4, n - 1, opts.strict, a.push(c));
    assert(a.push(c) + s.subrange(na + 4, n - 1) =~= a.push(c) + b);
    assert(s.subrange(0, n) =~= s);
    assert(command_result(s, 0, k, ctx, opts) == (PartView::OptionValue(a.push(c) + b), n));
    assert(parse_from(s, n, ctx, opts) == Seq::<(PartView, Seq<char>)>::empty());
    assert(parse_paragraph(s, ctx, opts) =~= seq![(PartView::OptionValue(a.push(c) + b), s)]);
}

proof fn lemma_plain_prefix(s: Seq<char>, i: int, j: int, strict: bool, acc: Seq<char>)
    requires
        0 <= i <= j < s.len(),
        forall|k: int| i <= k < j ==> s[k] != '\\' && s[k] != ')',
    ensures
        escaped_arg(s, i, strict, acc) == escaped_arg(s, j, strict, acc + s.subrange(i, j)),
    decreases j - i,
{
    if i == j {
        assert(acc + s.subrange(i, j) =~= acc);
    } else {
        lemma_plain_prefix(s, i + 1, j, strict, acc.push(s[i]));
        assert(acc.push(s[i]) + s.subrange(i + 1, j) =~= acc + s.subrange(i, j));
    }
}

} // verus!
