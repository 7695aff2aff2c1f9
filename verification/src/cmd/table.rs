//! Lines with columns.

use vstd::prelude::*;

verus! {

/// A text with blanks behind it, as many as fill a column.
pub open spec fn padded(s: Seq<char>, width: nat) -> Seq<char> {
    if s.len() >= width {
        s
    } else {
        s + Seq::new((width - s.len()) as nat, |i: int| ' ')
    }
}

/// A text with blanks behind it, as many as fill a column.
pub fn pad(s: &str, width: usize) -> (r: String)
    ensures
        r@ == padded(s@, width as nat),
{
    let mut out = s.to_owned();
    let mut n: usize = s.unicode_len();
    proof {
        assert(out@ =~= s@ + Seq::new(0, |i: int| ' '));
    }
    while n < width
        invariant
            n >= s@.len(),
            n > s@.len() ==> n <= width,
            out@ == s@ + Seq::new((n - s@.len()) as nat, |i: int| ' '),
        decreases width - n,
    {
        out.push(' ');
        n += 1;
        proof {
            assert(out@ =~= s@ + Seq::new((n - s@.len()) as nat, |i: int| ' '));
        }
    }
    proof {
        assert(out@ =~= padded(s@, width as nat));
    }
    out
}

/// A text, or `-` where there is none.
pub open spec fn or_dash(s: Option<Seq<char>>) -> Seq<char> {
    match s {
        Some(text) => text,
        None => "-"@,
    }
}

/// A text, or `-` where there is none.
pub fn text_or_dash(s: &Option<String>) -> (r: String)
    ensures
        r@ == or_dash(s.deep_view()),
{
    match s {
        Some(text) => text.clone(),
        None => "-".to_owned(),
    }
}

/// A label and what it labels.
pub fn labelled(label: &str, value: &str) -> (r: String)
    ensures
        r@ == label@ + value@,
{
    let mut out = label.to_owned();
    out.append(value);
    out
}

/// Columns of a width that fits them stand apart: a line tells what its first column
/// holds, as long as that is without blanks.
pub proof fn law_columns_stand_apart(a: Seq<char>, b: Seq<char>, width: nat)
    requires
        !a.contains(' '),
        !b.contains(' '),
        padded(a, width) == padded(b, width),
    ensures
        a == b,
{
    let x = padded(a, width);
    if a.len() < b.len() {
        assert(x[a.len() as int] == ' ');
        assert(b[a.len() as int] == x[a.len() as int]);
        assert(b.contains(' '));
    }
    if b.len() < a.len() {
        assert(x[b.len() as int] == ' ');
        assert(a[b.len() as int] == x[b.len() as int]);
        assert(a.contains(' '));
    }
    assert forall|i: int| 0 <= i < a.len() implies a[i] == b[i] by {
        assert(x[i] == a[i]);
        assert(x[i] == b[i]);
    }
    assert(a =~= b);
}

/// A column begins with its text, is never cut, and has blanks up to its width.
pub proof fn law_columns_are_filled(s: Seq<char>, width: nat, i: int)
    ensures
        padded(s, width).len() == (if s.len() > width {
            s.len()
        } else {
            width
        }),
        padded(s, width).take(s.len() as int) == s,
        s.len() <= i < padded(s, width).len() ==> padded(s, width)[i] == ' ',
        or_dash(Some(s)) == s,
        or_dash(None) == seq!['-'],
{
    reveal_strlit("-");
    assert("-"@ =~= seq!['-']);
    assert(padded(s, width).take(s.len() as int) =~= s);
}

} // verus!
