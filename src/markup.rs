//! HTML escaping and line breaks for text shown inside the page.
use vstd::prelude::*;

verus! {

/// The entity that `html_escape::encode_safe` writes for one character.
pub open spec fn escape_char(c: char) -> Seq<char> {
    if c == '&' {
        seq!['&', 'a', 'm', 'p', ';']
    } else if c == '<' {
        seq!['&', 'l', 't', ';']
    } else if c == '>' {
        seq!['&', 'g', 't', ';']
    } else if c == '"' {
        seq!['&', 'q', 'u', 'o', 't', ';']
    } else if c == '\'' {
        seq!['&', '#', 'x', '2', '7', ';']
    } else if c == '/' {
        seq!['&', '#', 'x', '2', 'F', ';']
    } else {
        seq![c]
    }
}

/// Text with each character replaced by its entity, in order.
pub open spec fn escaped(s: Seq<char>) -> Seq<char>
    decreases s.len(),
{
    if s.len() == 0 {
        Seq::empty()
    } else {
        escaped(s.drop_last()) + escape_char(s.last())
    }
}

/// Text with each newline replaced by a `<br>` tag.
pub open spec fn with_breaks(s: Seq<char>) -> Seq<char>
    decreases s.len(),
{
    if s.len() == 0 {
        Seq::empty()
    } else if s.last() == '\n' {
        with_breaks(s.drop_last()) + seq!['<', 'b', 'r', '>']
    } else {
        with_breaks(s.drop_last()).push(s.last())
    }
}

/// Relies on `html_escape::encode_safe`, which writes `&`, `<`, `>`, `"`,
/// `'` and `/` as the entities `&amp;`, `&lt;`, `&gt;`, `&quot;`, `&#x27;`
/// and `&#x2F;` and copies every other character.
#[verifier::external_body]
fn encode_safe(s: &str) -> (r: String)
    ensures
        r@ == escaped(s@),
{
    html_escape::encode_safe(s).into_owned()
}

/// Relies on `String::push`, which appends one character.
#[verifier::external_body]
pub(crate) fn push_char(s: &mut String, c: char)
    ensures
        final(s)@ == old(s)@.push(c),
{
    s.push(c)
}

/// Replaces each newline of `s` with `<br>`.
pub fn newlines_to_breaks(s: &str) -> (r: String)
    ensures
        r@ == with_breaks(s@),
{
    broadcast use vstd::string::group_string_axioms;
    let mut out = String::new();
    for c in it: s.chars()
        invariant
            it.seq() == s@,
            out@ == with_breaks(s@.subrange(0, it.index() as int)),
    {
        let ghost i = it.index();
        proof {
            let next = s@.subrange(0, i + 1);
            assert(next.drop_last() =~= s@.subrange(0, i));
            assert(next.last() == c);
        }
        if c == '\n' {
            proof {
                reveal_strlit("<br>");
            }
            out.append("<br>");
        } else {
            push_char(&mut out, c);
        }
    }
    proof {
        assert(s@.subrange(0, s@.len() as int) =~= s@);
    }
    out
}

/// Escapes `msg` for HTML and turns its newlines into `<br>` tags.
pub fn escape_message(msg: &str) -> (r: String)
    ensures
        r@ == with_breaks(escaped(msg@)),
{
    let e = encode_safe(msg);
    newlines_to_breaks(e.as_str())
}

} // verus!
