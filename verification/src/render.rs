//! Presentation: the list of links rendered as an HTML document. The
//! page is a pure function of the link sequence, stated character by
//! character; aliases and targets are HTML-escaped.

use vstd::prelude::*;
use crate::store::{Link, LinkView};
use crate::util::{dec_of_int, push_i64_dec};

verus! {

/// The escaped form of one character in HTML text or attribute position.
pub open spec fn html_escape_char(c: char) -> Seq<char> {
    if c == '&' {
        "&amp;"@
    } else if c == '<' {
        "&lt;"@
    } else if c == '>' {
        "&gt;"@
    } else if c == '"' {
        "&quot;"@
    } else if c == '\'' {
        "&#x27;"@
    } else {
        seq![c]
    }
}

/// A string with every character escaped for HTML.
pub open spec fn html_escape(s: Seq<char>) -> Seq<char>
    decreases s.len(),
{
    if s.len() == 0 {
        Seq::empty()
    } else {
        html_escape(s.drop_last()) + html_escape_char(s.last())
    }
}

/// One list row: the alias linking to the target, the target spelled
/// out, and the id (the handle for deletion).
pub open spec fn render_link_row(l: LinkView) -> Seq<char> {
    "<li><a href=\""@ + html_escape(l.target_url) + "\">"@ + html_escape(l.alias)
        + "</a> &rarr; "@ + html_escape(l.target_url) + " (id "@ + dec_of_int(l.id) + ")</li>"@
}

/// All rows, in the order of the sequence.
pub open spec fn render_rows(s: Seq<LinkView>) -> Seq<char>
    decreases s.len(),
{
    if s.len() == 0 {
        Seq::<char>::empty()
    } else {
        render_rows(s.drop_last()) + render_link_row(s.last())
    }
}

pub open spec fn page_head() -> Seq<char> {
    "<!DOCTYPE html><html><head><title>ito</title></head><body><h1>Links</h1><ul>"@
}

pub open spec fn page_tail() -> Seq<char> {
    "</ul><form method=\"post\" action=\"/links\"><input name=\"alias\"><input name=\"target_url\"><button>create</button></form></body></html>"@
}

/// The whole page for a given link sequence.
pub open spec fn render_page_spec(s: Seq<LinkView>) -> Seq<char> {
    page_head() + render_rows(s) + page_tail()
}

/// Appends every character of `s` to `out`.
fn push_str_chars(out: &mut Vec<char>, s: &str)
    ensures
        final(out)@ == old(out)@ + s@,
{
    let n = s.unicode_len();
    let mut i: usize = 0;
    while i < n
        invariant
            n == s@.len(),
            0 <= i <= n,
            out@ == old(out)@ + s@.take(i as int),
        decreases n - i,
    {
        out.push(s.get_char(i));
        proof {
            assert(s@.take(i as int + 1).drop_last() =~= s@.take(i as int));
            assert(out@ =~= old(out)@ + s@.take(i as int + 1));
        }
        i = i + 1;
    }
    proof {
        assert(s@.take(n as int) =~= s@);
        assert(out@ =~= old(out)@ + s@);
    }
}

/// Appends the HTML-escaped form of `s` to `out`.
fn push_escaped(out: &mut Vec<char>, s: &str)
    ensures
        final(out)@ == old(out)@ + html_escape(s@),
{
    let n = s.unicode_len();
    let mut i: usize = 0;
    while i < n
        invariant
            n == s@.len(),
            0 <= i <= n,
            out@ == old(out)@ + html_escape(s@.take(i as int)),
        decreases n - i,
    {
        let c = s.get_char(i);
        if c == '&' {
            push_str_chars(out, "&amp;");
        } else if c == '<' {
            push_str_chars(out, "&lt;");
        } else if c == '>' {
            push_str_chars(out, "&gt;");
        } else if c == '"' {
            push_str_chars(out, "&quot;");
        } else if c == '\'' {
            push_str_chars(out, "&#x27;");
        } else {
            out.push(c);
        }
        proof {
            assert(s@.take(i as int + 1).drop_last() =~= s@.take(i as int));
            assert(s@.take(i as int + 1).last() == s@[i as int]);
            assert(out@ =~= old(out)@ + html_escape(s@.take(i as int + 1)));
        }
        i = i + 1;
    }
    proof {
        assert(s@.take(n as int) =~= s@);
        assert(out@ =~= old(out)@ + html_escape(s@));
    }
}

/// Relies on `String::from_iter` for `char`: the string of exactly the
/// given characters, in order.
#[verifier::external_body]
fn chars_to_string(v: &Vec<char>) -> (r: String)
    ensures
        r@ == v@,
{
    v.iter().collect()
}

/// Renders the link list as a complete HTML page.
pub fn render_page(links: &Vec<Link>) -> (r: String)
    ensures
        r@ == render_page_spec(links@.map_values(|l: Link| l@)),
{
    let ghost lvs = links@.map_values(|l: Link| l@);
    let mut out: Vec<char> = Vec::new();
    push_str_chars(
        &mut out,
        "<!DOCTYPE html><html><head><title>ito</title></head><body><h1>Links</h1><ul>",
    );
    let n = links.len();
    let mut i: usize = 0;
    while i < n
        invariant
            n == links@.len(),
            lvs == links@.map_values(|l: Link| l@),
            lvs.len() == n,
            0 <= i <= n,
            out@ == page_head() + render_rows(lvs.take(i as int)),
        decreases n - i,
    {
        let l = &links[i];
        push_str_chars(&mut out, "<li><a href=\"");
        push_escaped(&mut out, l.target_url.as_str());
        push_str_chars(&mut out, "\">");
        push_escaped(&mut out, l.alias.as_str());
        push_str_chars(&mut out, "</a> &rarr; ");
        push_escaped(&mut out, l.target_url.as_str());
        push_str_chars(&mut out, " (id ");
        push_i64_dec(&mut out, l.id);
        push_str_chars(&mut out, ")</li>");
        proof {
            assert(lvs.take(i as int + 1).drop_last() =~= lvs.take(i as int));
            assert(lvs.take(i as int + 1).last() == lvs[i as int]);
            assert(lvs[i as int] == links@[i as int]@);
            assert(out@ =~= page_head() + render_rows(lvs.take(i as int + 1)));
        }
        i = i + 1;
    }
    push_str_chars(
        &mut out,
        "</ul><form method=\"post\" action=\"/links\"><input name=\"alias\"><input name=\"target_url\"><button>create</button></form></body></html>",
    );
    proof {
        assert(lvs.take(n as int) =~= lvs);
        assert(out@ =~= render_page_spec(lvs));
    }
    chars_to_string(&out)
}

} // verus!
