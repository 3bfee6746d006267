//! Rendering of the home page, with an optional message put in place of a
//! marker comment of the page template.
use vstd::prelude::*;
use crate::markup::{escape_message, escaped, push_char, with_breaks};

verus! {

/// The marker comment of the template that a message replaces.
pub const SUCCESS_PLACEHOLDER: &'static str = "<!--success-msg-->";

/// Whether `pat` is non-empty and occurs in `s` at position `i`.
pub open spec fn occurs_at(s: Seq<char>, i: int, pat: Seq<char>) -> bool {
    &&& pat.len() > 0
    &&& 0 <= i
    &&& i + pat.len() <= s.len()
    &&& s.subrange(i, i + pat.len()) == pat
}

/// `s` with each occurrence of a non-empty `pat` replaced by `rep`, taking
/// occurrences from left to right without overlap.
pub open spec fn replaced(s: Seq<char>, pat: Seq<char>, rep: Seq<char>) -> Seq<char>
    decreases s.len(),
{
    if s.len() == 0 {
        Seq::empty()
    } else if occurs_at(s, 0, pat) {
        rep + replaced(s.subrange(pat.len() as int, s.len() as int), pat, rep)
    } else {
        seq![s[0]] + replaced(s.subrange(1, s.len() as int), pat, rep)
    }
}

/// The paragraph that shows a message in the page.
pub open spec fn message_html(msg: Seq<char>) -> Seq<char> {
    "<p class='success'>"@ + with_breaks(escaped(msg)) + "<p>"@
}

fn chars_of(s: &str) -> (v: Vec<char>)
    ensures
        v@ == s@,
{
    broadcast use vstd::string::group_string_axioms;
    let mut v: Vec<char> = Vec::new();
    for c in it: s.chars()
        invariant
            it.seq() == s@,
            v@ == s@.subrange(0, it.index() as int),
    {
        v.push(c);
        proof {
            assert(v@ =~= s@.subrange(0, it.index() + 1));
        }
    }
    proof {
        assert(s@.subrange(0, s@.len() as int) =~= s@);
    }
    v
}

fn occurs_in_at(s: &Vec<char>, i: usize, pat: &Vec<char>) -> (b: bool)
    requires
        i <= s.len(),
    ensures
        b == occurs_at(s@, i as int, pat@),
{
    if pat.len() == 0 || pat.len() > s.len() - i {
        return false;
    }
    let mut k: usize = 0;
    while k < pat.len()
        invariant
            0 < pat.len() <= s.len() - i,
            k <= pat.len(),
            forall|j: int| 0 <= j < k ==> s@[i + j] == pat@[j],
        decreases pat.len() - k,
    {
        if s[i + k] != pat[k] {
            proof {
                assert(s@.subrange(i as int, i + pat.len())[k as int] != pat@[k as int]);
            }
            return false;
        }
        k = k + 1;
    }
    proof {
        assert(s@.subrange(i as int, i + pat.len()) =~= pat@);
    }
    true
}

/// Replaces each occurrence of `pat` in `s` with `rep`, left to right.
pub fn replace_all(s: &str, pat: &str, rep: &str) -> (r: String)
    ensures
        r@ == replaced(s@, pat@, rep@),
{
    let t = chars_of(s);
    let p = chars_of(pat);
    let mut out = String::new();
    let mut i: usize = 0;
    proof {
        assert(t@.subrange(0, t@.len() as int) =~= t@);
        assert(out@ + replaced(t@, p@, rep@) =~= replaced(t@, p@, rep@));
    }
    while i < t.len()
        invariant
            t@ == s@,
            p@ == pat@,
            i <= t.len(),
            out@ + replaced(t@.subrange(i as int, t@.len() as int), p@, rep@) == replaced(
                t@,
                p@,
                rep@,
            ),
        decreases t.len() - i,
    {
        let ghost u = t@.subrange(i as int, t@.len() as int);
        if occurs_in_at(&t, i, &p) {
            proof {
                assert(u.subrange(0, p@.len() as int) =~= t@.subrange(i as int, i + p@.len()));
                assert(u.subrange(p@.len() as int, u.len() as int) =~= t@.subrange(
                    i + p@.len(),
                    t@.len() as int,
                ));
            }
            out.append(rep);
            proof {
                assert(out@ + replaced(t@.subrange(i + p@.len(), t@.len() as int), p@, rep@)
                    =~= replaced(t@, p@, rep@));
            }
            i = i + p.len();
        } else {
            proof {
                if occurs_at(u, 0, p@) {
                    assert(u.subrange(0, p@.len() as int) =~= t@.subrange(i as int, i + p@.len()));
                }
                assert(u.subrange(1, u.len() as int) =~= t@.subrange(i + 1, t@.len() as int));
            }
            push_char(&mut out, t[i]);
            proof {
                assert(out@ + replaced(t@.subrange(i + 1, t@.len() as int), p@, rep@)
                    =~= replaced(t@, p@, rep@));
            }
            i = i + 1;
        }
    }
    proof {
        assert(t@.subrange(i as int, t@.len() as int) =~= Seq::<char>::empty());
        assert(out@ =~= out@ + replaced(Seq::<char>::empty(), p@, rep@));
    }
    out
}

/// The home page: the template as it is, or, with a message, the template
/// with its marker replaced by the escaped message, whose newlines become
/// line breaks.
pub fn show_index(template: &str, success_msg: Option<&str>) -> (r: String)
    ensures
        success_msg is None ==> r@ == template@,
        success_msg is Some ==> r@ == replaced(
            template@,
            SUCCESS_PLACEHOLDER@,
            message_html(success_msg->0@),
        ),
{
    match success_msg {
        None => String::from_str(template),
        Some(msg) => {
            let mut html = String::from_str("<p class='success'>");
            let body = escape_message(msg);
            html.append(body.as_str());
            html.append("<p>");
            replace_all(template, SUCCESS_PLACEHOLDER, html.as_str())
        },
    }
}

} // verus!
