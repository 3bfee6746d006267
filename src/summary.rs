//! The summary of one upload request: which files were stored, and how
//! large each one was.
use vstd::prelude::*;
use crate::markup::push_char;

verus! {

/// The character of a decimal digit.
pub open spec fn digit_char(d: nat) -> char {
    if d == 0 {
        '0'
    } else if d == 1 {
        '1'
    } else if d == 2 {
        '2'
    } else if d == 3 {
        '3'
    } else if d == 4 {
        '4'
    } else if d == 5 {
        '5'
    } else if d == 6 {
        '6'
    } else if d == 7 {
        '7'
    } else if d == 8 {
        '8'
    } else {
        '9'
    }
}

/// A number written in decimal, without leading zeros.
pub open spec fn decimal(n: nat) -> Seq<char>
    decreases n,
{
    if n < 10 {
        seq![digit_char(n)]
    } else {
        decimal(n / 10).push(digit_char(n % 10))
    }
}

fn digit(d: usize) -> (c: char)
    requires
        d < 10,
    ensures
        c == digit_char(d as nat),
{
    if d == 0 {
        '0'
    } else if d == 1 {
        '1'
    } else if d == 2 {
        '2'
    } else if d == 3 {
        '3'
    } else if d == 4 {
        '4'
    } else if d == 5 {
        '5'
    } else if d == 6 {
        '6'
    } else if d == 7 {
        '7'
    } else if d == 8 {
        '8'
    } else {
        '9'
    }
}

/// Appends `n` in decimal to `out`.
pub fn push_decimal(out: &mut String, n: usize)
    ensures
        final(out)@ == old(out)@ + decimal(n as nat),
    decreases n,
{
    if n >= 10 {
        push_decimal(out, n / 10);
    }
    push_char(out, digit(n % 10));
    proof {
        if n >= 10 {
            assert(old(out)@ + decimal(n as nat) =~= old(out)@ + decimal((n / 10) as nat) + seq![
                digit_char((n % 10) as nat),
            ]);
        }
    }
}

/// One file that was stored: its name and its length in bytes.
pub struct UploadOutcome {
    pub filename: String,
    pub byte_count: usize,
}

impl View for UploadOutcome {
    type V = (Seq<char>, nat);

    open spec fn view(&self) -> (Seq<char>, nat) {
        (self.filename@, self.byte_count as nat)
    }
}

/// The (name, length) pairs of a sequence of outcomes.
pub open spec fn outcome_pairs(v: Seq<UploadOutcome>) -> Seq<(Seq<char>, nat)> {
    v.map_values(|o: UploadOutcome| o@)
}

/// First line of a summary: how many files were stored.
pub open spec fn summary_header(n: nat) -> Seq<char> {
    "Successfully uploaded "@ + decimal(n) + " file(s):"@
}

/// The line of one stored file: a newline, its name and its length.
pub open spec fn summary_line(o: (Seq<char>, nat)) -> Seq<char> {
    seq!['\n'] + o.0 + " ("@ + decimal(o.1) + " bytes)"@
}

/// The lines of all stored files, in the order in which they were stored.
pub open spec fn summary_lines(os: Seq<(Seq<char>, nat)>) -> Seq<char>
    decreases os.len(),
{
    if os.len() == 0 {
        Seq::empty()
    } else {
        summary_lines(os.drop_last()) + summary_line(os.last())
    }
}

/// The full summary text of a request that stored `os`.
pub open spec fn summary_text(os: Seq<(Seq<char>, nat)>) -> Seq<char> {
    summary_header(os.len()) + summary_lines(os)
}

/// Writes the summary of the files in `outcomes`: a first line with their
/// number, then one line per file, `name (N bytes)`, in order.
pub fn summary_message(outcomes: &Vec<UploadOutcome>) -> (r: String)
    ensures
        r@ == summary_text(outcome_pairs(outcomes@)),
{
    let ghost pairs = outcome_pairs(outcomes@);
    let mut msg = String::new();
    msg.append("Successfully uploaded ");
    push_decimal(&mut msg, outcomes.len());
    msg.append(" file(s):");
    for i in 0..outcomes.len()
        invariant
            pairs == outcome_pairs(outcomes@),
            msg@ == summary_header(pairs.len()) + summary_lines(pairs.subrange(0, i as int)),
    {
        let o = &outcomes[i];
        push_char(&mut msg, '\n');
        msg.append(o.filename.as_str());
        msg.append(" (");
        push_decimal(&mut msg, o.byte_count);
        msg.append(" bytes)");
        proof {
            let next = pairs.subrange(0, i + 1);
            assert(next.drop_last() =~= pairs.subrange(0, i as int));
            assert(next.last() == o@);
            assert(msg@ =~= summary_header(pairs.len()) + summary_lines(next));
        }
    }
    proof {
        assert(pairs.subrange(0, pairs.len() as int) =~= pairs);
    }
    msg
}

} // verus!
