//! The grammar of plugin names, plugin types and option references.
use vstd::prelude::*;
use crate::dom::{PluginIdentifier, OptionRefView, plugin_view};
use crate::scan::{find_from, find_char, lemma_find_from, contains_char, has_char, has_prefix_at, prefix_at};
use crate::text::{chars_of, string_of_range, string_of_chars, quote_debug, debug_quoted, str_eq};

verus! {

pub open spec fn is_fqcn_char(c: char) -> bool {
    ('a' <= c && c <= 'z') || ('0' <= c && c <= '9') || c == '_'
}

/// A fully qualified collection name: three or more non-empty dot-separated
/// segments of `a-z`, `0-9` and `_`.
pub open spec fn is_fqcn(s: Seq<char>) -> bool {
    &&& s.len() > 0
    &&& s[0] != '.'
    &&& s[s.len() - 1] != '.'
    &&& forall|i: int| 0 <= i < s.len() ==> is_fqcn_char(#[trigger] s[i]) || s[i] == '.'
    &&& forall|i: int| 0 <= i < s.len() - 1 ==> !(#[trigger] s[i] == '.' && s[i + 1] == '.')
    &&& exists|i: int, j: int| 0 <= i < j < s.len() && s[i] == '.' && s[j] == '.'
}

/// A plugin type: a non-empty run of `a-z` and `_`.
pub open spec fn is_plugin_type(s: Seq<char>) -> bool {
    &&& s.len() > 0
    &&& forall|i: int| 0 <= i < s.len() ==> (('a' <= #[trigger] s[i] && s[i] <= 'z') || s[i] == '_')
}

/// Checks that `v` is a fully qualified collection name.
pub fn check_fqcn(v: &Vec<char>) -> (r: bool)
    ensures
        r == is_fqcn(v@),
{
    let n = v.len();
    if n == 0 || v[0] == '.' || v[n - 1] == '.' {
        return false;
    }
    let mut dots: usize = 0;
    let mut d1: usize = 0;
    let mut d2: usize = 0;
    let mut i: usize = 0;
    while i < n
        invariant
            n == v@.len(),
            n > 0,
            v@[0] != '.',
            v@[n - 1] != '.',
            i <= n,
            dots <= i,
            forall|k: int| 0 <= k < i ==> is_fqcn_char(#[trigger] v@[k]) || v@[k] == '.',
            forall|k: int| 0 <= k < i - 1 ==> !(#[trigger] v@[k] == '.' && v@[k + 1] == '.'),
            dots == 0 ==> forall|k: int| 0 <= k < i ==> v@[k] != '.',
            dots == 1 ==> d1 < i && v@[d1 as int] == '.' && forall|k: int|
                0 <= k < i && k != d1 ==> v@[k] != '.',
            dots >= 2 ==> d1 < d2 < i && v@[d1 as int] == '.' && v@[d2 as int] == '.',
        decreases n - i,
    {
        let c = v[i];
        if c == '.' {
            if i > 0 && v[i - 1] == '.' {
                proof {
                    assert(!(v@[i - 1] == '.' && v@[i - 1 + 1] == '.') == false);
                }
                return false;
            }
            if dots == 0 {
                d1 = i;
            } else if dots == 1 {
                d2 = i;
            }
            dots = dots + 1;
        } else if !(('a' <= c && c <= 'z') || ('0' <= c && c <= '9') || c == '_') {
            return false;
        }
        i += 1;
    }
    if dots < 2 {
        proof {
            assert forall|a: int, b: int| 0 <= a < b < v@.len() && v@[a] == '.' implies v@[b] != '.' by {
                if dots == 1 {
                    assert(a == d1);
                }
            }
        }
        return false;
    }
    true
}

/// Checks that `v` is a plugin type.
pub fn check_plugin_type(v: &Vec<char>) -> (r: bool)
    ensures
        r == is_plugin_type(v@),
{
    if v.len() == 0 {
        return false;
    }
    let mut i: usize = 0;
    while i < v.len()
        invariant
            i <= v@.len(),
            forall|k: int| 0 <= k < i ==> (('a' <= #[trigger] v@[k] && v@[k] <= 'z') || v@[k] == '_'),
        decreases v@.len() - i,
    {
        let c = v[i];
        if !(('a' <= c && c <= 'z') || c == '_') {
            return false;
        }
        i += 1;
    }
    true
}

/// `s[i..]` with every `[...]` array stub removed: a `[` up to the next `]`.
pub open spec fn strip_stubs(s: Seq<char>, i: int) -> Seq<char>
    decreases s.len() - i,
{
    if i < 0 || i >= s.len() {
        Seq::empty()
    } else if s[i] == '[' && find_from(s, i + 1, ']') is Some {
        let j = find_from(s, i + 1, ']')->0;
        if i < j < s.len() {
            strip_stubs(s, j + 1)
        } else {
            Seq::empty()
        }
    } else {
        seq![s[i]] + strip_stubs(s, i + 1)
    }
}

/// Removes every array stub from `v`.
pub fn remove_stubs(v: &Vec<char>) -> (r: Vec<char>)
    ensures
        r@ == strip_stubs(v@, 0),
{
    let mut out: Vec<char> = Vec::new();
    let n = v.len();
    let mut i: usize = 0;
    while i < v.len()
        invariant
            n == v@.len(),
            i <= v@.len(),
            out@ + strip_stubs(v@, i as int) == strip_stubs(v@, 0),
        decreases v@.len() - i,
    {
        if v[i] == '[' {
            match find_char(v, i + 1, ']') {
                Some(j) => {
                    proof {
                        lemma_find_from(v@, i + 1, ']');
                    }
                    i = j + 1;
                    continue;
                },
                None => {},
            }
        }
        proof {
            assert(out@.push(v@[i as int]) + strip_stubs(v@, i + 1) =~= out@ + (seq![v@[i as int]]
                + strip_stubs(v@, i + 1)));
        }
        out.push(v[i]);
        i += 1;
    }
    proof {
        assert(out@ + strip_stubs(v@, i as int) =~= out@);
    }
    out
}

/// `s[i..]` split at each `.`.
pub open spec fn split_dots(s: Seq<char>, i: int) -> Seq<Seq<char>>
    decreases s.len() - i,
{
    match find_from(s, i, '.') {
        Some(j) => if 0 <= i <= j < s.len() {
            seq![s.subrange(i, j)] + split_dots(s, j + 1)
        } else {
            Seq::empty()
        },
        None => seq![s.subrange(i, s.len() as int)],
    }
}

/// Splits `v` at each `.`.
pub fn split_at_dots(v: &Vec<char>) -> (r: Vec<String>)
    ensures
        crate::dom::strings_view(r@) == split_dots(v@, 0),
{
    let mut out: Vec<String> = Vec::new();
    let n = v.len();
    let mut i: usize = 0;
    loop
        invariant
            n == v@.len(),
            i <= v@.len(),
            crate::dom::strings_view(out@) + split_dots(v@, i as int) == split_dots(v@, 0),
        decreases v@.len() - i,
    {
        proof {
            lemma_find_from(v@, i as int, '.');
        }
        match find_char(v, i, '.') {
            Some(j) => {
                let piece = string_of_range(v, i, j);
                proof {
                    assert(crate::dom::strings_view(out@.push(piece)) =~= crate::dom::strings_view(
                        out@,
                    ).push(piece@));
                    assert(crate::dom::strings_view(out@).push(piece@) + split_dots(v@, j + 1)
                        =~= crate::dom::strings_view(out@) + split_dots(v@, i as int));
                }
                out.push(piece);
                i = j + 1;
            },
            None => {
                let piece = string_of_range(v, i, v.len());
                proof {
                    assert(crate::dom::strings_view(out@.push(piece)) =~= crate::dom::strings_view(
                        out@,
                    ) + split_dots(v@, i as int));
                }
                out.push(piece);
                return out;
            },
        }
    }
}

/// The parsed argument of an option or return-value reference.
pub struct OptionRef {
    pub plugin: Option<PluginIdentifier>,
    pub entrypoint: Option<String>,
    pub link: Vec<String>,
    pub name: String,
    pub value: Option<String>,
}

impl OptionRef {
    pub open spec fn view(&self) -> OptionRefView {
        OptionRefView {
            plugin: plugin_view(&self.plugin),
            entrypoint: crate::text::opt_view(&self.entrypoint),
            link: crate::dom::strings_view(self.link@),
            name: self.name@,
            value: crate::text::opt_view(&self.value),
        }
    }
}

/// `arg` split at its first `=`: the name part, and the value if there is one.
pub open spec fn split_value(arg: Seq<char>) -> (Seq<char>, Option<Seq<char>>) {
    match find_from(arg, 0, '=') {
        Some(j) => (arg.take(j), Some(arg.skip(j + 1))),
        None => (arg, None),
    }
}

/// Where a `FQCN#type:` qualifier ends: the index of its `#` and of its `:`.
/// The FQCN part holds two dots with something before, between and after
/// them; the type part is non-empty; what follows the `:` holds no newline.
pub open spec fn qualifier(t: Seq<char>) -> Option<(int, int)> {
    match find_from(t, 0, '.') {
        None => None,
        Some(d1) => if d1 < 1 {
            None
        } else {
            match find_from(t, d1 + 1, '.') {
                None => None,
                Some(d2) => if d2 < d1 + 2 {
                    None
                } else {
                    match find_from(t, d2 + 1, '#') {
                        None => None,
                        Some(h) => if h < d2 + 2 {
                            None
                        } else {
                            match find_from(t, h + 1, ':') {
                                None => None,
                                Some(c) => if c < h + 2 || contains_char(t.skip(c + 1), '\n') {
                                    None
                                } else {
                                    Some((h, c))
                                },
                            }
                        },
                    }
                },
            }
        },
    }
}

/// The plugin, entrypoint and remaining name after the qualifier step.
pub open spec fn resolve_plugin(
    t: Seq<char>,
    ctx_plugin: Option<(Seq<char>, Seq<char>)>,
    ctx_entrypoint: Option<Seq<char>>,
) -> Result<(Option<(Seq<char>, Seq<char>)>, Option<Seq<char>>, Seq<char>), Seq<char>> {
    match qualifier(t) {
        Some((h, c)) => {
            let g1 = t.take(h);
            let g2 = t.subrange(h + 1, c);
            if !is_fqcn(g1) {
                Err("Plugin name "@ + debug_quoted(g1) + " is not a FQCN"@)
            } else if !is_plugin_type(g2) {
                Err("Plugin type "@ + debug_quoted(g2) + " is not valid"@)
            } else {
                Ok((Some((g1, g2)), None, t.skip(c + 1)))
            }
        },
        None => if has_prefix_at(t, 0, "ignore:"@) {
            Ok((None, None, t.skip("ignore:"@.len() as int)))
        } else {
            Ok((ctx_plugin, ctx_entrypoint, t))
        },
    }
}

pub open spec fn is_role(p: Option<(Seq<char>, Seq<char>)>) -> bool {
    p matches Some((_, ty)) && ty == "role"@
}

/// What `O(arg)` or `RV(arg)` refers to, given the context's plugin and
/// role entrypoint, or the reason it is invalid.
pub open spec fn option_ref(
    arg: Seq<char>,
    ctx_plugin: Option<(Seq<char>, Seq<char>)>,
    ctx_entrypoint: Option<Seq<char>>,
) -> Result<OptionRefView, Seq<char>> {
    let (t0, value) = split_value(arg);
    match resolve_plugin(t0, ctx_plugin, ctx_entrypoint) {
        Err(e) => Err(e),
        Ok((plugin, ep, t)) => {
            let (ep2, t2) = if is_role(plugin) {
                match find_from(t, 0, ':') {
                    Some(k) => (Some(t.take(k)), t.skip(k + 1)),
                    None => (ep, t),
                }
            } else {
                (ep, t)
            };
            if is_role(plugin) && ep2 is None {
                Err("Role reference is missing entrypoint"@)
            } else if contains_char(t2, ':') || contains_char(t2, '#') {
                Err("Invalid option/return value name "@ + debug_quoted(t2))
            } else {
                Ok(
                    OptionRefView {
                        plugin,
                        entrypoint: ep2,
                        link: split_dots(strip_stubs(t2, 0), 0),
                        name: t2,
                        value,
                    },
                )
            }
        },
    }
}

fn find_qualifier(t: &Vec<char>) -> (r: Option<(usize, usize)>)
    ensures
        r matches Some((h, c)) ==> qualifier(t@) == Some((h as int, c as int)) && 0 < h && h + 1 < c
            && c < t@.len(),
        r is None ==> qualifier(t@) is None,
{
    let n = t.len();
    let d1 = match find_char(t, 0, '.') {
        Some(d) => d,
        None => return None,
    };
    proof { lemma_find_from(t@, 0, '.'); }
    if d1 < 1 {
        return None;
    }
    let d2 = match find_char(t, d1 + 1, '.') {
        Some(d) => d,
        None => return None,
    };
    proof { lemma_find_from(t@, d1 + 1, '.'); }
    if d2 < d1 + 2 {
        return None;
    }
    let h = match find_char(t, d2 + 1, '#') {
        Some(d) => d,
        None => return None,
    };
    proof { lemma_find_from(t@, d2 + 1, '#'); }
    if h < d2 + 2 {
        return None;
    }
    let c = match find_char(t, h + 1, ':') {
        Some(d) => d,
        None => return None,
    };
    proof { lemma_find_from(t@, h + 1, ':'); }
    if c < h + 2 {
        return None;
    }
    match find_char(t, c + 1, '\n') {
        Some(k) => {
            proof {
                lemma_find_from(t@, c + 1, '\n');
                assert(t@.skip(c + 1)[k - (c + 1)] == '\n');
            }
            None
        },
        None => {
            proof {
                lemma_find_from(t@, c + 1, '\n');
                assert forall|k: int| 0 <= k < t@.skip(c + 1).len() implies #[trigger] t@.skip(c + 1)[k] != '\n' by {
                    assert(t@.skip(c + 1)[k] == t@[k + c + 1]);
                }
            }
            Some((h, c))
        },
    }
}

fn clone_plugin(p: &Option<PluginIdentifier>) -> (r: Option<PluginIdentifier>)
    ensures
        plugin_view(&r) == plugin_view(p),
{
    match p {
        Some(q) => Some(q.copy()),
        None => None,
    }
}

pub fn subrange_vec(v: &Vec<char>, lo: usize, hi: usize) -> (r: Vec<char>)
    requires
        lo <= hi <= v@.len(),
    ensures
        r@ == v@.subrange(lo as int, hi as int),
{
    let mut out: Vec<char> = Vec::new();
    let mut i = lo;
    while i < hi
        invariant
            lo <= i <= hi <= v@.len(),
            out@ == v@.subrange(lo as int, i as int),
        decreases hi - i,
    {
        out.push(v[i]);
        proof {
            assert(out@ =~= v@.subrange(lo as int, i + 1));
        }
        i += 1;
    }
    out
}

/// Parses the argument of an option or return-value reference.
pub fn parse_option_ref(
    arg: &Vec<char>,
    ctx_plugin: &Option<PluginIdentifier>,
    ctx_entrypoint: &Option<String>,
) -> (r: Result<OptionRef, String>)
    ensures
        match r {
            Ok(o) => option_ref(arg@, plugin_view(ctx_plugin), crate::text::opt_view(ctx_entrypoint))
                == Ok::<OptionRefView, Seq<char>>(o.view()),
            Err(e) => option_ref(arg@, plugin_view(ctx_plugin), crate::text::opt_view(ctx_entrypoint))
                == Err::<OptionRefView, Seq<char>>(e@),
        },
{
    let n = arg.len();
    proof { lemma_find_from(arg@, 0, '='); }
    let (t0, value): (Vec<char>, Option<String>) = match find_char(arg, 0, '=') {
        Some(j) => (subrange_vec(arg, 0, j), Some(string_of_range(arg, j + 1, n))),
        None => (subrange_vec(arg, 0, n), None),
    };
    proof {
        assert(arg@.subrange(0, n as int) =~= arg@);
        if let Some(j) = find_from(arg@, 0, '=') {
            assert(arg@.subrange(0, j) =~= arg@.take(j));
            assert(arg@.subrange(j + 1, n as int) =~= arg@.skip(j + 1));
        }
    }
    let ghost sv = split_value(arg@);
    assert(t0@ == sv.0 && crate::text::opt_view(&value) == sv.1);
    let tn = t0.len();
    let (plugin, mut entrypoint, t): (Option<PluginIdentifier>, Option<String>, Vec<char>) =
        match find_qualifier(&t0) {
        Some((h, c)) => {
            let g1 = subrange_vec(&t0, 0, h);
            let g2 = subrange_vec(&t0, h + 1, c);
            proof {
                assert(g1@ =~= t0@.take(h as int));
            }
            if !check_fqcn(&g1) {
                let mut e = String::from_str("Plugin name ");
                e.append(quote_debug(string_of_chars(&g1).as_str()).as_str());
                e.append(" is not a FQCN");
                return Err(e);
            }
            if !check_plugin_type(&g2) {
                let mut e = String::from_str("Plugin type ");
                e.append(quote_debug(string_of_chars(&g2).as_str()).as_str());
                e.append(" is not valid");
                return Err(e);
            }
            let rest = subrange_vec(&t0, c + 1, tn);
            proof {
                assert(rest@ =~= t0@.skip(c + 1));
            }
            (
                Some(PluginIdentifier { fqcn: string_of_chars(&g1), plugin_type: string_of_chars(&g2) }),
                None,
                rest,
            )
        },
        None => {
            if prefix_at(&t0, 0, "ignore:") {
                let k = chars_of("ignore:").len();
                let rest = subrange_vec(&t0, k, tn);
                proof {
                    assert(rest@ =~= t0@.skip("ignore:"@.len() as int));
                }
                (None, None, rest)
            } else {
                (clone_plugin(ctx_plugin), crate::text::copy_opt_string(ctx_entrypoint), t0)
            }
        },
    };
    let ghost rp = resolve_plugin(sv.0, plugin_view(ctx_plugin), crate::text::opt_view(ctx_entrypoint));
    assert(rp == Ok::<(Option<(Seq<char>, Seq<char>)>, Option<Seq<char>>, Seq<char>), Seq<char>>(
        (plugin_view(&plugin), crate::text::opt_view(&entrypoint), t@)));
    let is_role_plugin = match &plugin {
        Some(p) => str_eq(p.plugin_type.as_str(), "role"),
        None => false,
    };
    assert(is_role_plugin == is_role(plugin_view(&plugin)));
    let mut t2 = t;
    if is_role_plugin {
        proof { lemma_find_from(t2@, 0, ':'); }
        match find_char(&t2, 0, ':') {
            Some(k) => {
                let m = t2.len();
                entrypoint = Some(string_of_range(&t2, 0, k));
                let rest = subrange_vec(&t2, k + 1, m);
                proof {
                    assert(t2@.subrange(0, k as int) =~= t2@.take(k as int));
                    assert(rest@ =~= t2@.skip(k + 1));
                }
                t2 = rest;
            },
            None => {},
        }
        if entrypoint.is_none() {
            return Err(String::from_str("Role reference is missing entrypoint"));
        }
    }
    if has_char(&t2, ':') || has_char(&t2, '#') {
        let mut e = String::from_str("Invalid option/return value name ");
        e.append(quote_debug(string_of_chars(&t2).as_str()).as_str());
        return Err(e);
    }
    let stripped = remove_stubs(&t2);
    let link = split_at_dots(&stripped);
    Ok(OptionRef { plugin, entrypoint, link, name: string_of_chars(&t2), value })
}

} // verus!
