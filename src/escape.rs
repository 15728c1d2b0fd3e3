//! Escaping text for URLs, HTML, reStructuredText and Markdown.
use vstd::prelude::*;
use crate::text::{chars_of, push_char};
use vstd::utf8::encode_utf8;

verus! {

/// Bytes that may stand in a URL as they are.
pub open spec fn url_safe(c: u8) -> bool {
    (65 <= c <= 90) || (97 <= c <= 122) || (48 <= c <= 57) || c == 45 || c == 95 || c == 46
        || c == 33 || c == 126 || c == 42 || c == 39 || c == 40 || c == 41 || c == 59 || c == 47
        || c == 63 || c == 58 || c == 64 || c == 38 || c == 61 || c == 43 || c == 36 || c == 44
        || c == 35
}

/// Bytes that may stand in HTML as they are: all but `<`, `>` and `&`.
pub open spec fn html_safe(c: u8) -> bool {
    c != 60 && c != 62 && c != 38
}

fn is_url_safe(c: u8) -> (r: bool)
    ensures
        r == url_safe(c),
{
    (65 <= c && c <= 90) || (97 <= c && c <= 122) || (48 <= c && c <= 57) || c == 45 || c == 95
        || c == 46 || c == 33 || c == 126 || c == 42 || c == 39 || c == 40 || c == 41 || c == 59
        || c == 47 || c == 63 || c == 58 || c == 64 || c == 38 || c == 61 || c == 43 || c == 36
        || c == 44 || c == 35
}

fn is_html_safe(c: u8) -> (r: bool)
    ensures
        r == html_safe(c),
{
    c != 60 && c != 62 && c != 38
}

/// The upper-case hexadecimal digit for a value below 16.
pub open spec fn hex_char(v: u8) -> char {
    if v < 10 {
        ((48 + v) as u8) as char
    } else {
        ((55 + v) as u8) as char
    }
}

fn hex_digit(v: u8) -> (r: char)
    requires
        v < 16,
    ensures
        r == hex_char(v),
{
    if v < 10 {
        (48 + v) as char
    } else {
        (55 + v) as char
    }
}

/// How one byte of a URL is written: as it is, percent-encoded, or (when
/// the URL goes into HTML) `&` as `&amp;`.
pub open spec fn url_escape_byte(c: u8, html: bool) -> Seq<char> {
    if url_safe(c) && (!html || html_safe(c)) {
        seq![c as char]
    } else if html && c == 38 {
        "&amp;"@
    } else {
        seq!['%', hex_char(c / 16), hex_char(c % 16)]
    }
}

/// The escaped form of a sequence of URL bytes.
pub open spec fn url_escape_bytes(b: Seq<u8>, html: bool) -> Seq<char>
    decreases b.len(),
{
    if b.len() == 0 {
        Seq::empty()
    } else {
        url_escape_bytes(b.drop_last(), html) + url_escape_byte(b.last(), html)
    }
}

/// Whether no byte of a URL needs escaping.
pub open spec fn url_unchanged(b: Seq<u8>, html: bool) -> bool {
    forall|i: int| 0 <= i < b.len() ==> url_safe(#[trigger] b[i]) && (!html || html_safe(b[i]))
}

/// What escaping a URL gives: the URL itself where no byte needs escaping.
pub open spec fn url_escaped(s: Seq<char>, html: bool) -> Seq<char> {
    if url_unchanged(encode_utf8(s), html) {
        s
    } else {
        url_escape_bytes(encode_utf8(s), html)
    }
}

fn escape_url(url: &str, html: bool) -> (r: String)
    ensures
        r@ == url_escaped(url@, html),
{
    let b = url.as_bytes();
    let n = b.len();
    let mut i: usize = 0;
    let mut unchanged = true;
    while i < n
        invariant
            n == b@.len(),
            i <= n,
            unchanged == forall|k: int| 0 <= k < i ==> url_safe(#[trigger] b@[k]) && (!html || html_safe(b@[k])),
        decreases n - i,
    {
        let c = b[i];
        unchanged = unchanged && is_url_safe(c) && (!html || is_html_safe(c));
        i += 1;
    }
    if unchanged {
        return String::from_str(url);
    }
    let mut out = String::new();
    let mut i: usize = 0;
    while i < n
        invariant
            n == b@.len(),
            b@ == encode_utf8(url@),
            i <= n,
            out@ == url_escape_bytes(b@.take(i as int), html),
        decreases n - i,
    {
        let c = b[i];
        proof {
            assert(b@.take(i + 1).drop_last() =~= b@.take(i as int));
        }
        if is_url_safe(c) && (!html || is_html_safe(c)) {
            push_char(&mut out, c as char);
        } else if html && c == 38 {
            out.append("&amp;");
        } else {
            push_char(&mut out, '%');
            push_char(&mut out, hex_digit(c / 16));
            push_char(&mut out, hex_digit(c % 16));
        }
        proof {
            assert(out@ =~= url_escape_bytes(b@.take(i + 1), html));
        }
        i += 1;
    }
    proof {
        assert(b@.take(n as int) =~= b@);
    }
    out
}

/// Percent-encodes URLs.
pub struct URLEscaper {}

impl URLEscaper {
    pub fn new() -> (r: URLEscaper) {
        URLEscaper {}
    }

    /// Percent-encodes every byte outside the URL-safe set, with upper-case hex digits.
    pub fn escape(&self, url: &str) -> (r: String)
        ensures
            r@ == url_escaped(url@, false),
    {
        escape_url(url, false)
    }

    /// As `escape`, and writes `&` as `&amp;` for use in an HTML attribute.
    pub fn escape_with_html_escape(&self, url: &str) -> (r: String)
        ensures
            r@ == url_escaped(url@, true),
    {
        escape_url(url, true)
    }
}

/// How HTML writes one character.
pub open spec fn html_escape_char(c: char) -> Seq<char> {
    if c == '<' {
        "&lt;"@
    } else if c == '>' {
        "&gt;"@
    } else if c == '&' {
        "&amp;"@
    } else {
        seq![c]
    }
}

/// Text escaped for HTML.
pub open spec fn html_escape(s: Seq<char>) -> Seq<char>
    decreases s.len(),
{
    if s.len() == 0 {
        Seq::empty()
    } else {
        html_escape(s.drop_last()) + html_escape_char(s.last())
    }
}

/// Escapes text for HTML.
pub struct HTMLEscaper {}

impl HTMLEscaper {
    pub fn new() -> (r: HTMLEscaper) {
        HTMLEscaper {}
    }

    /// Writes `<`, `>` and `&` as entities.
    pub fn escape(&self, text: &str) -> (r: String)
        ensures
            r@ == html_escape(text@),
    {
        let v = chars_of(text);
        let mut out = String::new();
        let mut i: usize = 0;
        while i < v.len()
            invariant
                i <= v@.len(),
                out@ == html_escape(v@.take(i as int)),
            decreases v@.len() - i,
        {
            let c = v[i];
            proof {
                assert(v@.take(i + 1).drop_last() =~= v@.take(i as int));
            }
            if c == '<' {
                out.append("&lt;");
            } else if c == '>' {
                out.append("&gt;");
            } else if c == '&' {
                out.append("&amp;");
            } else {
                push_char(&mut out, c);
            }
            proof {
                assert(out@ =~= html_escape(v@.take(i + 1)));
            }
            i += 1;
        }
        proof {
            assert(v@.take(v@.len() as int) =~= v@);
        }
        out
    }
}

/// Characters that reStructuredText escapes with a backslash.
pub open spec fn rst_special(c: char) -> bool {
    c == '\\' || c == '<' || c == '>' || c == '_' || c == '*' || c == '`'
}

/// Text with each special character escaped for reStructuredText.
pub open spec fn rst_escape_chars(s: Seq<char>) -> Seq<char>
    decreases s.len(),
{
    if s.len() == 0 {
        Seq::empty()
    } else if rst_special(s.last()) {
        rst_escape_chars(s.drop_last()) + seq!['\\', s.last()]
    } else {
        rst_escape_chars(s.drop_last()).push(s.last())
    }
}

/// Text escaped for reStructuredText. With `escape_ending_whitespace`, a
/// leading or trailing space is guarded by `\ `; with `must_not_be_empty`,
/// empty text becomes `\ `.
pub open spec fn rst_escape(s: Seq<char>, escape_ending_whitespace: bool, must_not_be_empty: bool) -> Seq<char> {
    if s.len() == 0 {
        if must_not_be_empty {
            "\\ "@
        } else {
            Seq::empty()
        }
    } else {
        (if escape_ending_whitespace && s[0] == ' ' {
            "\\ "@
        } else {
            Seq::empty()
        }) + rst_escape_chars(s) + (if escape_ending_whitespace && s.last() == ' ' {
            "\\ "@
        } else {
            Seq::empty()
        })
    }
}

/// Escapes text for reStructuredText.
pub struct RSTEscaper {}

impl RSTEscaper {
    pub fn new() -> (r: RSTEscaper) {
        RSTEscaper {}
    }

    pub fn escape(&self, text: &str, escape_ending_whitespace: bool, must_not_be_empty: bool) -> (r: String)
        ensures
            r@ == rst_escape(text@, escape_ending_whitespace, must_not_be_empty),
    {
        let v = chars_of(text);
        let n = v.len();
        let mut out = String::new();
        if n == 0 {
            if must_not_be_empty {
                out.append("\\ ");
            }
            proof {
                assert(out@ =~= rst_escape(text@, escape_ending_whitespace, must_not_be_empty));
            }
            return out;
        }
        if escape_ending_whitespace && v[0] == ' ' {
            out.append("\\ ");
        }
        let ghost head = out@;
        let mut i: usize = 0;
        while i < n
            invariant
                n == v@.len(),
                i <= n,
                out@ == head + rst_escape_chars(v@.take(i as int)),
            decreases n - i,
        {
            let c = v[i];
            proof {
                assert(v@.take(i + 1).drop_last() =~= v@.take(i as int));
            }
            if c == '\\' || c == '<' || c == '>' || c == '_' || c == '*' || c == '`' {
                push_char(&mut out, '\\');
            }
            push_char(&mut out, c);
            proof {
                assert(out@ =~= head + rst_escape_chars(v@.take(i + 1)));
            }
            i += 1;
        }
        proof {
            assert(v@.take(n as int) =~= v@);
        }
        if escape_ending_whitespace && v[n - 1] == ' ' {
            out.append("\\ ");
        }
        proof {
            assert(out@ =~= rst_escape(text@, escape_ending_whitespace, must_not_be_empty));
        }
        out
    }
}

/// Characters that Markdown escapes with a backslash.
pub open spec fn md_special(c: char) -> bool {
    c == '!' || c == '"' || c == '#' || c == '$' || c == '%' || c == '&' || c == '\'' || c == '('
        || c == ')' || c == '*' || c == '+' || c == ',' || c == ':' || c == ';' || c == '<' || c
        == '=' || c == '>' || c == '?' || c == '@' || c == '[' || c == '\\' || c == ']' || c == '^'
        || c == '_' || c == '`' || c == '{' || c == '|' || c == '}' || c == '~' || c == '.' || c
        == '-'
}

fn is_md_special(c: char) -> (r: bool)
    ensures
        r == md_special(c),
{
    c == '!' || c == '"' || c == '#' || c == '$' || c == '%' || c == '&' || c == '\'' || c == '('
        || c == ')' || c == '*' || c == '+' || c == ',' || c == ':' || c == ';' || c == '<' || c
        == '=' || c == '>' || c == '?' || c == '@' || c == '[' || c == '\\' || c == ']' || c == '^'
        || c == '_' || c == '`' || c == '{' || c == '|' || c == '}' || c == '~' || c == '.' || c
        == '-'
}

/// Text with each special character escaped for Markdown.
pub open spec fn md_escape(s: Seq<char>) -> Seq<char>
    decreases s.len(),
{
    if s.len() == 0 {
        Seq::empty()
    } else if md_special(s.last()) {
        md_escape(s.drop_last()) + seq!['\\', s.last()]
    } else {
        md_escape(s.drop_last()).push(s.last())
    }
}

/// Escapes text for Markdown.
pub struct MDEscaper {}

impl MDEscaper {
    pub fn new() -> (r: MDEscaper) {
        MDEscaper {}
    }

    /// Puts a backslash before each character of ``!"#$%&'()*+,:;<=>?@[\]^_`{|}~.-``.
    pub fn escape(&self, text: &str) -> (r: String)
        ensures
            r@ == md_escape(text@),
    {
        let v = chars_of(text);
        let mut out = String::new();
        let mut i: usize = 0;
        while i < v.len()
            invariant
                i <= v@.len(),
                out@ == md_escape(v@.take(i as int)),
            decreases v@.len() - i,
        {
            let c = v[i];
            proof {
                assert(v@.take(i + 1).drop_last() =~= v@.take(i as int));
            }
            if is_md_special(c) {
                push_char(&mut out, '\\');
            }
            push_char(&mut out, c);
            proof {
                assert(out@ =~= md_escape(v@.take(i + 1)));
            }
            i += 1;
        }
        proof {
            assert(v@.take(v@.len() as int) =~= v@);
        }
        out
    }
}

} // verus!
