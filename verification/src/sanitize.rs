//! The content sanitizer: a pure function from raw text and a declared content
//! kind to markup that is safe to serve back to other users.
//!
//! Plain-kind input has every markup-significant character escaped and is
//! wrapped in one paragraph container; that path is verified down to the
//! characters. Markup-kind input is narrowed by an HTML sanitizer with image
//! elements removed and link schemes restricted; that call is trusted.

use vstd::prelude::*;
use crate::comment::ContentType;
use crate::text::{chars_of, string_from_chars};

verus! {

/// How one character of plain text is rendered in the output markup.
pub open spec fn escape_char(c: char) -> Seq<char> {
    if c == '&' {
        seq!['&', 'a', 'm', 'p', ';']
    } else if c == '<' {
        seq!['&', 'l', 't', ';']
    } else if c == '>' {
        seq!['&', 'g', 't', ';']
    } else {
        seq![c]
    }
}

/// Plain text with every markup-significant character escaped.
pub open spec fn escaped_text(s: Seq<char>) -> Seq<char>
    decreases s.len(),
{
    if s.len() == 0 {
        Seq::<char>::empty()
    } else {
        escaped_text(s.drop_last()) + escape_char(s.last())
    }
}

/// What the sanitizer returns for a markup-kind input: the input parsed as
/// HTML and narrowed by the sanitizer's allow-list. The exact form is the
/// sanitizer library's; it depends on the input characters alone.
pub uninterp spec fn cleaned_markup(s: Seq<char>) -> Seq<char>;

/// What the sanitizer returns, by content kind: plain text escaped and wrapped
/// in a single paragraph container, or markup narrowed to its safe subset.
pub open spec fn spec_sanitize(t: ContentType, s: Seq<char>) -> Seq<char> {
    match t {
        ContentType::Plain => seq!['<', 'p', '>'] + escaped_text(s) + seq!['<', '/', 'p', '>'],
        ContentType::Html => cleaned_markup(s),
    }
}

/// Relies on ammonia's `Builder::clean`, configured with the `img` element
/// removed from the allow-list and URL schemes narrowed to http, https,
/// mailto and tel: the result depends on the input characters alone, and an
/// empty input stays empty.
#[verifier::external_body]
fn clean_markup(s: &str) -> (r: String)
    ensures
        r@ == cleaned_markup(s@),
        s@.len() == 0 ==> r@.len() == 0,
{
    ammonia::Builder::default().rm_tags(&["img"]).url_schemes(
        ["http", "https", "mailto", "tel"].into(),
    ).clean(s).to_string()
}

/// Appends the escaped rendering of one character.
fn push_escape(out: &mut Vec<char>, c: char)
    ensures
        final(out)@ == old(out)@ + escape_char(c),
{
    if c == '&' {
        out.push('&');
        out.push('a');
        out.push('m');
        out.push('p');
        out.push(';');
    } else if c == '<' {
        out.push('&');
        out.push('l');
        out.push('t');
        out.push(';');
    } else if c == '>' {
        out.push('&');
        out.push('g');
        out.push('t');
        out.push(';');
    } else {
        out.push(c);
    }

}

/// Escapes plain text and wraps it in a single paragraph container.
fn sanitize_plain(content: &str) -> (r: String)
    ensures
        r@ == spec_sanitize(ContentType::Plain, content@),
{
    let cs = chars_of(content);
    let n = cs.len();
    let mut out: Vec<char> = Vec::new();
    out.push('<');
    out.push('p');
    out.push('>');
    assert(out@ =~= seq!['<', 'p', '>'] + escaped_text(cs@.subrange(0, 0)));
    let mut i: usize = 0;
    while i < n
        invariant
            i <= n,
            n == cs@.len(),
            cs@ == content@,
            out@ == seq!['<', 'p', '>'] + escaped_text(cs@.subrange(0, i as int)),
        decreases n - i,
    {
        push_escape(&mut out, cs[i]);
        i = i + 1;
        proof {
            let pre = cs@.subrange(0, i as int);
            assert(pre.drop_last() =~= cs@.subrange(0, i - 1));
            assert(out@ =~= seq!['<', 'p', '>'] + escaped_text(pre));
        }
    }
    out.push('<');
    out.push('/');
    out.push('p');
    out.push('>');
    proof {
        assert(cs@.subrange(0, n as int) =~= content@);
        assert(out@ =~= spec_sanitize(ContentType::Plain, content@));
    }
    string_from_chars(&out)
}

/// Turns caller-supplied text of a declared kind into markup that is safe to
/// serve back: plain text is escaped and wrapped in one paragraph container;
/// markup is narrowed by the HTML sanitizer. Total: no input is an error.
pub fn sanitize(content_type: ContentType, content: &str) -> (r: String)
    ensures
        r@ == spec_sanitize(content_type, content@),
        content@.len() == 0 ==> r@.len() <= 7,
{
    match content_type {
        ContentType::Plain => sanitize_plain(content),
        ContentType::Html => clean_markup(content),
    }
}

/// One of the three escape entities stands at position `i` of `e`.
pub open spec fn escape_entity_at(e: Seq<char>, i: int) -> bool {
    ||| (i + 5 <= e.len() && e.subrange(i, i + 5) == seq!['&', 'a', 'm', 'p', ';'])
    ||| (i + 4 <= e.len() && e.subrange(i, i + 4) == seq!['&', 'l', 't', ';'])
    ||| (i + 4 <= e.len() && e.subrange(i, i + 4) == seq!['&', 'g', 't', ';'])
}

/// Law: escaped plain text holds no unescaped markup-significant character —
/// no '<' or '>' occurs at all, and every '&' begins one of the three escape
/// entities. With the shape of the plain-kind output this wraps the whole
/// escaped text in exactly one paragraph container.
pub proof fn lemma_escaped_text_safe(s: Seq<char>)
    ensures
        forall|i: int|
            0 <= i < escaped_text(s).len() ==> escaped_text(s)[i] != '<' && escaped_text(s)[i]
                != '>',
        forall|i: int|
            0 <= i < escaped_text(s).len() && escaped_text(s)[i] == '&' ==> escape_entity_at(
                escaped_text(s),
                i,
            ),
    decreases s.len(),
{
    if s.len() == 0 {
    } else {
        lemma_escaped_text_safe(s.drop_last());
        let e0 = escaped_text(s.drop_last());
        let b = escape_char(s.last());
        let e = escaped_text(s);
        assert(e == e0 + b);
        assert forall|j: int| 0 <= j < b.len() implies b[j] != '<' && b[j] != '>' by {
            let c = s.last();
            if c == '&' || c == '<' || c == '>' {
            } else {
                assert(b == seq![c]);
            }
        }
        assert forall|i: int| 0 <= i < e.len() implies e[i] != '<' && e[i] != '>' by {
            if i < e0.len() {
                assert(e[i] == e0[i]);
            } else {
                assert(e[i] == b[i - e0.len()]);
            }
        }
        assert forall|i: int| 0 <= i < e.len() && e[i] == '&' implies escape_entity_at(e, i) by {
            if i < e0.len() {
                assert(e0[i] == '&');
                if i + 5 <= e0.len() && e0.subrange(i, i + 5) == seq!['&', 'a', 'm', 'p', ';'] {
                    assert(e.subrange(i, i + 5) =~= e0.subrange(i, i + 5));
                } else if i + 4 <= e0.len() && e0.subrange(i, i + 4) == seq!['&', 'l', 't', ';'] {
                    assert(e.subrange(i, i + 4) =~= e0.subrange(i, i + 4));
                } else {
                    assert(i + 4 <= e0.len() && e0.subrange(i, i + 4) == seq!['&', 'g', 't', ';']);
                    assert(e.subrange(i, i + 4) =~= e0.subrange(i, i + 4));
                }
            } else {
                let c = s.last();
                let k = i - e0.len();
                assert(b[k] == '&');
                if c == '&' {
                    assert(k == 0) by {
                        if k != 0 {
                            assert(b[k] != '&');
                        }
                    }
                    assert(e.subrange(i, i + 5) =~= b);
                } else if c == '<' {
                    assert(k == 0) by {
                        if k != 0 {
                            assert(b[k] != '&');
                        }
                    }
                    assert(e.subrange(i, i + 4) =~= b);
                } else if c == '>' {
                    assert(k == 0) by {
                        if k != 0 {
                            assert(b[k] != '&');
                        }
                    }
                    assert(e.subrange(i, i + 4) =~= b);
                } else {
                    assert(b == seq![c]);
                    assert(b[k] != '&');
                }
            }
        }
    }
}

} // verus!
