//! Text operations on strings, stated over sequences of characters.

use vstd::prelude::*;

verus! {

/// Whether a character has the Unicode `White_Space` property.
pub open spec fn whitespace(c: char) -> bool {
    ||| '\u{9}' <= c <= '\u{d}'
    ||| c == ' '
    ||| c == '\u{85}'
    ||| c == '\u{a0}'
    ||| c == '\u{1680}'
    ||| '\u{2000}' <= c <= '\u{200a}'
    ||| c == '\u{2028}'
    ||| c == '\u{2029}'
    ||| c == '\u{202f}'
    ||| c == '\u{205f}'
    ||| c == '\u{3000}'
}

/// Whether some character of the text is white space.
pub open spec fn has_whitespace(s: Seq<char>) -> bool {
    exists|i: int| 0 <= i < s.len() && whitespace(#[trigger] s[i])
}

/// The text without its leading white space.
pub open spec fn trim_start(s: Seq<char>) -> Seq<char>
    decreases s.len(),
{
    if s.len() > 0 && whitespace(s[0]) {
        trim_start(s.skip(1))
    } else {
        s
    }
}

/// The text without its trailing white space.
pub open spec fn trim_end(s: Seq<char>) -> Seq<char>
    decreases s.len(),
{
    if s.len() > 0 && whitespace(s.last()) {
        trim_end(s.drop_last())
    } else {
        s
    }
}

/// The text without white space at either end.
pub open spec fn trimmed(s: Seq<char>) -> Seq<char> {
    trim_end(trim_start(s))
}

/// The position of the first `c`, or the length where there is none.
pub open spec fn index_of(s: Seq<char>, c: char) -> int
    decreases s.len(),
{
    if s.len() == 0 || s[0] == c {
        0
    } else {
        1 + index_of(s.skip(1), c)
    }
}

/// The position of the last `c`, or -1 where there is none.
pub open spec fn last_index_of(s: Seq<char>, c: char) -> int
    decreases s.len(),
{
    if s.len() == 0 || s.last() == c {
        s.len() - 1
    } else {
        last_index_of(s.drop_last(), c)
    }
}

/// What stands before and after the first `c`.
pub open spec fn halves(s: Seq<char>, c: char) -> Option<(Seq<char>, Seq<char>)> {
    let i = index_of(s, c);
    if i < s.len() {
        Some((s.take(i), s.skip(i + 1)))
    } else {
        None
    }
}

/// What stands before and after the last `c`.
pub open spec fn last_halves(s: Seq<char>, c: char) -> Option<(Seq<char>, Seq<char>)> {
    let i = last_index_of(s, c);
    if i >= 0 {
        Some((s.take(i), s.skip(i + 1)))
    } else {
        None
    }
}

/// The pieces between the occurrences of `c`.
pub open spec fn pieces(s: Seq<char>, c: char) -> Seq<Seq<char>>
    decreases s.len(),
{
    let i = index_of(s, c);
    if 0 <= i < s.len() {
        seq![s.take(i)] + pieces(s.skip(i + 1), c)
    } else {
        seq![s]
    }
}

/// The position of the first occurrence of a pattern.
pub open spec fn find_pattern(s: Seq<char>, p: Seq<char>) -> Option<int>
    decreases s.len(),
{
    if p.is_prefix_of(s) {
        Some(0)
    } else if s.len() == 0 {
        None
    } else {
        match find_pattern(s.skip(1), p) {
            Some(i) => Some(i + 1),
            None => None,
        }
    }
}

/// What follows a prefix, where the text starts with it.
pub open spec fn without_prefix(s: Seq<char>, p: Seq<char>) -> Option<Seq<char>> {
    if p.is_prefix_of(s) {
        Some(s.skip(p.len() as int))
    } else {
        None
    }
}

/// What precedes a suffix, where the text ends with it.
pub open spec fn without_suffix(s: Seq<char>, p: Seq<char>) -> Option<Seq<char>> {
    if p.is_suffix_of(s) {
        Some(s.take(s.len() - p.len()))
    } else {
        None
    }
}

/// The text without any `c` at its start.
pub open spec fn trim_start_char(s: Seq<char>, c: char) -> Seq<char>
    decreases s.len(),
{
    if s.len() > 0 && s[0] == c {
        trim_start_char(s.skip(1), c)
    } else {
        s
    }
}

/// The text without any `c` at its end.
pub open spec fn trim_end_char(s: Seq<char>, c: char) -> Seq<char>
    decreases s.len(),
{
    if s.len() > 0 && s.last() == c {
        trim_end_char(s.drop_last(), c)
    } else {
        s
    }
}

/// The text without any `c` at either end.
pub open spec fn trimmed_char(s: Seq<char>, c: char) -> Seq<char> {
    trim_end_char(trim_start_char(s, c), c)
}

/// A line without the carriage return that precedes its line feed.
pub open spec fn without_return(s: Seq<char>) -> Seq<char> {
    if s.len() > 0 && s.last() == '\r' {
        s.drop_last()
    } else {
        s
    }
}

/// The lines of a text. The last line need not be terminated.
pub open spec fn line_list(s: Seq<char>) -> Seq<Seq<char>>
    decreases s.len(),
{
    let i = index_of(s, '\n');
    if s.len() == 0 {
        Seq::empty()
    } else if 0 <= i < s.len() {
        seq![without_return(s.take(i))] + line_list(s.skip(i + 1))
    } else {
        seq![s]
    }
}

/// The length of the run of characters before the first white space.
pub open spec fn word_len(s: Seq<char>) -> int
    decreases s.len(),
{
    if s.len() == 0 || whitespace(s[0]) {
        0
    } else {
        1 + word_len(s.skip(1))
    }
}

/// The pieces of a text that white space separates; none of them is empty.
pub open spec fn word_list(s: Seq<char>) -> Seq<Seq<char>>
    decreases s.len(),
{
    if s.len() == 0 {
        Seq::empty()
    } else if whitespace(s[0]) {
        word_list(s.skip(1))
    } else if 0 < word_len(s) <= s.len() {
        seq![s.take(word_len(s))] + word_list(s.skip(word_len(s)))
    } else {
        Seq::empty()
    }
}

/// The texts one after another, with a separator between each two.
pub open spec fn joined(parts: Seq<Seq<char>>, sep: Seq<char>) -> Seq<char>
    decreases parts.len(),
{
    if parts.len() == 0 {
        Seq::empty()
    } else if parts.len() == 1 {
        parts[0]
    } else {
        joined(parts.drop_last(), sep) + sep + parts.last()
    }
}

/// The character of a digit, in lower case above nine.
pub open spec fn digit_char(d: nat) -> char {
    if d < 10 {
        (48 + d) as char
    } else {
        (87 + d) as char
    }
}

/// A number in base ten.
pub open spec fn decimal(n: nat) -> Seq<char>
    decreases n,
{
    if n < 10 {
        seq![digit_char(n)]
    } else {
        decimal(n / 10).push(digit_char(n % 10))
    }
}

/// A number in base sixteen, in lower case.
pub open spec fn hex(n: nat) -> Seq<char>
    decreases n,
{
    if n < 16 {
        seq![digit_char(n)]
    } else {
        hex(n / 16).push(digit_char(n % 16))
    }
}

/// A whole number in base ten, with a minus sign below zero.
pub open spec fn signed_decimal(n: int) -> Seq<char> {
    if n < 0 {
        seq!['-'] + decimal((-n) as nat)
    } else {
        decimal(n as nat)
    }
}

/// Whether a character is one of `0` to `9`.
pub open spec fn is_digit(c: char) -> bool {
    '0' <= c <= '9'
}

/// Whether a text is one digit or more and nothing else.
pub open spec fn all_digits(s: Seq<char>) -> bool {
    &&& s.len() > 0
    &&& forall|i: int| 0 <= i < s.len() ==> is_digit(#[trigger] s[i])
}

/// The number that a run of digits denotes.
pub open spec fn digits_value(s: Seq<char>) -> nat
    decreases s.len(),
{
    if s.len() == 0 {
        0
    } else {
        10 * digits_value(s.drop_last()) + (s.last() as nat - 48) as nat
    }
}

/// The whole number that a text denotes: digits behind an optional sign.
pub open spec fn integer_value(s: Seq<char>) -> Option<int> {
    if s.len() > 0 && (s[0] == '-' || s[0] == '+') {
        if all_digits(s.skip(1)) {
            if s[0] == '-' {
                Some(-digits_value(s.skip(1)))
            } else {
                Some(digits_value(s.skip(1)) as int)
            }
        } else {
            None
        }
    } else if all_digits(s) {
        Some(digits_value(s) as int)
    } else {
        None
    }
}

/// The whole number that a text denotes, where it lies between two bounds.
pub open spec fn integer_within(s: Seq<char>, low: int, high: int) -> Option<int> {
    match integer_value(s) {
        Some(n) => if low <= n <= high {
            Some(n)
        } else {
            None
        },
        None => None,
    }
}

/// The number that a text without a minus sign denotes, up to a bound.
pub open spec fn natural_within(s: Seq<char>, high: int) -> Option<int> {
    if s.len() > 0 && s[0] == '-' {
        None
    } else {
        integer_within(s, 0, high)
    }
}

/// Whether a text comes before another one, character by character.
pub open spec fn before(a: Seq<char>, b: Seq<char>) -> bool
    decreases b.len(),
{
    if b.len() == 0 {
        false
    } else if a.len() == 0 {
        true
    } else if a[0] == b[0] {
        before(a.skip(1), b.skip(1))
    } else {
        a[0] < b[0]
    }
}

/// No two texts come before each other, and of two different ones one does.
pub proof fn lemma_before_total(a: Seq<char>, b: Seq<char>)
    ensures
        !(before(a, b) && before(b, a)),
        a == b <==> !before(a, b) && !before(b, a),
    decreases b.len(),
{
    if a.len() > 0 && b.len() > 0 && a[0] == b[0] {
        lemma_before_total(a.skip(1), b.skip(1));
        if a.skip(1) == b.skip(1) {
            assert forall|i: int| 0 <= i < a.len() implies a[i] == b[i] by {
                if i > 0 {
                    assert(a[i] == a.skip(1)[i - 1]);
                    assert(b[i] == b.skip(1)[i - 1]);
                }
            }
            assert(a.len() == b.len());
            assert(a =~= b);
        }
    } else if a.len() == 0 && b.len() == 0 {
        assert(a =~= b);
    }
}

/// The order of texts is transitive.
pub proof fn lemma_before_transitive(a: Seq<char>, b: Seq<char>, c: Seq<char>)
    requires
        before(a, b),
        before(b, c),
    ensures
        before(a, c),
    decreases c.len(),
{
    if a.len() > 0 && b.len() > 0 && c.len() > 0 && a[0] == b[0] && b[0] == c[0] {
        lemma_before_transitive(a.skip(1), b.skip(1), c.skip(1));
    }
}

pub proof fn lemma_index_of(s: Seq<char>, c: char)
    ensures
        0 <= index_of(s, c) <= s.len(),
        forall|j: int| 0 <= j < index_of(s, c) ==> s[j] != c,
        index_of(s, c) < s.len() ==> s[index_of(s, c)] == c,
    decreases s.len(),
{
    if s.len() > 0 && s[0] != c {
        lemma_index_of(s.skip(1), c);
        assert forall|j: int| 0 <= j < index_of(s, c) implies s[j] != c by {
            if j > 0 {
                assert(s.skip(1)[j - 1] == s[j]);
            }
        }
    }
}

pub proof fn lemma_index_of_is(s: Seq<char>, c: char, i: int)
    requires
        0 <= i <= s.len(),
        forall|j: int| 0 <= j < i ==> s[j] != c,
        i < s.len() ==> s[i] == c,
    ensures
        index_of(s, c) == i,
{
    lemma_index_of(s, c);
}

pub proof fn lemma_last_index_of(s: Seq<char>, c: char)
    ensures
        -1 <= last_index_of(s, c) < s.len(),
        forall|j: int| last_index_of(s, c) < j < s.len() ==> s[j] != c,
        last_index_of(s, c) >= 0 ==> s[last_index_of(s, c)] == c,
    decreases s.len(),
{
    if s.len() > 0 && s.last() != c {
        lemma_last_index_of(s.drop_last(), c);
        assert forall|j: int| last_index_of(s, c) < j < s.len() implies s[j] != c by {
            if j < s.len() - 1 {
                assert(s.drop_last()[j] == s[j]);
            }
        }
    }
}

pub proof fn lemma_last_index_of_is(s: Seq<char>, c: char, i: int)
    requires
        -1 <= i < s.len(),
        forall|j: int| i < j < s.len() ==> s[j] != c,
        i >= 0 ==> s[i] == c,
    ensures
        last_index_of(s, c) == i,
{
    lemma_last_index_of(s, c);
}

pub proof fn lemma_trim_start(s: Seq<char>)
    ensures
        trim_start(s).len() <= s.len(),
        trim_start(s) == s.skip(s.len() - trim_start(s).len()),
        trim_start(s).len() > 0 ==> !whitespace(trim_start(s)[0]),
    decreases s.len(),
{
    if s.len() > 0 && whitespace(s[0]) {
        lemma_trim_start(s.skip(1));
        let n = s.len() - trim_start(s).len();
        assert(s.skip(1).skip(n - 1) =~= s.skip(n));
    } else {
        assert(s.skip(0) =~= s);
    }
}

pub proof fn lemma_trim_end(s: Seq<char>)
    ensures
        trim_end(s).len() <= s.len(),
        trim_end(s) == s.take(trim_end(s).len() as int),
        trim_end(s).len() > 0 ==> !whitespace(trim_end(s).last()),
    decreases s.len(),
{
    if s.len() > 0 && whitespace(s.last()) {
        lemma_trim_end(s.drop_last());
        let n = trim_end(s).len() as int;
        assert(s.drop_last().take(n) =~= s.take(n));
    } else {
        assert(s.take(s.len() as int) =~= s);
    }
}

/// Trimming leaves no white space at either end, and nothing in between changes.
pub proof fn lemma_trimmed(s: Seq<char>)
    ensures
        trimmed(s).len() <= s.len(),
        trimmed(s).len() > 0 ==> !whitespace(trimmed(s)[0]) && !whitespace(trimmed(s).last()),
        exists|i: int|
            0 <= i && i + trimmed(s).len() <= s.len() && trimmed(s) == #[trigger] s.subrange(
                i,
                i + trimmed(s).len(),
            ),
{
    lemma_trim_start(s);
    let t = trim_start(s);
    lemma_trim_end(t);
    let i = s.len() - t.len();
    let r = trimmed(s);
    assert(r =~= s.subrange(i, i + r.len()));
}

/// A text with no white space at its ends is its own trimming.
pub proof fn lemma_trimmed_fixed(s: Seq<char>)
    requires
        s.len() > 0 ==> !whitespace(s[0]) && !whitespace(s.last()),
    ensures
        trimmed(s) == s,
{
}

/// Trimming twice is trimming once.
pub proof fn lemma_trimmed_twice(s: Seq<char>)
    ensures
        trimmed(trimmed(s)) == trimmed(s),
{
    lemma_trimmed(s);
    lemma_trimmed_fixed(trimmed(s));
}

/// Whether a text is nothing but white space.
pub open spec fn blank(s: Seq<char>) -> bool {
    forall|i: int| 0 <= i < s.len() ==> whitespace(#[trigger] s[i])
}

proof fn lemma_trim_start_blank(s: Seq<char>)
    ensures
        trim_start(s).len() == 0 <==> blank(s),
    decreases s.len(),
{
    if s.len() > 0 && whitespace(s[0]) {
        let rest = s.skip(1);
        lemma_trim_start_blank(rest);
        if blank(rest) {
            assert forall|i: int| 0 <= i < s.len() implies whitespace(#[trigger] s[i]) by {
                if i > 0 {
                    assert(rest[i - 1] == s[i]);
                }
            }
        }
        if blank(s) {
            assert forall|i: int| 0 <= i < rest.len() implies whitespace(#[trigger] rest[i]) by {
                assert(rest[i] == s[i + 1]);
            }
        }
    }
}

proof fn lemma_trim_end_filled(s: Seq<char>)
    requires
        s.len() > 0,
        !whitespace(s[0]),
    ensures
        trim_end(s).len() > 0,
    decreases s.len(),
{
    if whitespace(s.last()) {
        assert(s.drop_last()[0] == s[0]);
        lemma_trim_end_filled(s.drop_last());
    }
}

/// Nothing is left of a text exactly where it is nothing but white space.
pub proof fn lemma_trimmed_blank(s: Seq<char>)
    ensures
        trimmed(s).len() == 0 <==> blank(s),
{
    lemma_trim_start_blank(s);
    lemma_trim_start(s);
    if trim_start(s).len() > 0 {
        lemma_trim_end_filled(trim_start(s));
    }
}

/// No line holds a line feed, and the lines hold everything of a text but the ends of
/// the lines, which are white space.
pub proof fn lemma_line_list(s: Seq<char>)
    ensures
        forall|i: int| 0 <= i < line_list(s).len() ==> !(#[trigger] line_list(s)[i]).contains('\n'),
        blank(s) <==> forall|i: int|
            0 <= i < line_list(s).len() ==> blank(#[trigger] line_list(s)[i]),
    decreases s.len(),
{
    let lines = line_list(s);
    let i = index_of(s, '\n');
    lemma_index_of(s, '\n');
    if s.len() == 0 {
    } else if i < s.len() {
        let head = s.take(i);
        let first = without_return(head);
        let rest = s.skip(i + 1);
        lemma_line_list(rest);
        assert(lines =~= seq![first] + line_list(rest));
        assert(lines[0] == first);
        assert forall|j: int| 0 <= j < lines.len() implies !(#[trigger] lines[j]).contains(
            '\n',
        ) by {
            if j > 0 {
                assert(lines[j] == line_list(rest)[j - 1]);
            }
        }
        assert(blank(s) <==> blank(head) && blank(rest)) by {
            if blank(s) {
                assert(forall|j: int| 0 <= j < head.len() ==> #[trigger] head[j] == s[j]);
                assert(forall|j: int| 0 <= j < rest.len() ==> #[trigger] rest[j] == s[i + 1 + j]);
            }
            if blank(head) && blank(rest) {
                assert forall|j: int| 0 <= j < s.len() implies whitespace(#[trigger] s[j]) by {
                    if j < i {
                        assert(head[j] == s[j]);
                    } else if j > i {
                        assert(rest[j - i - 1] == s[j]);
                    }
                }
            }
        }
        assert(blank(head) <==> blank(first)) by {
            if blank(head) {
                assert(forall|j: int| 0 <= j < first.len() ==> #[trigger] first[j] == head[j]);
            }
            if blank(first) {
                assert forall|j: int| 0 <= j < head.len() implies whitespace(
                    #[trigger] head[j],
                ) by {
                    if j < first.len() {
                        assert(first[j] == head[j]);
                    }
                }
            }
        }
        assert(blank(rest) && blank(first) <==> forall|j: int|
            0 <= j < lines.len() ==> blank(#[trigger] lines[j])) by {
            if blank(rest) && blank(first) {
                assert forall|j: int| 0 <= j < lines.len() implies blank(#[trigger] lines[j]) by {
                    if j > 0 {
                        assert(lines[j] == line_list(rest)[j - 1]);
                    }
                }
            }
            if forall|j: int| 0 <= j < lines.len() ==> blank(#[trigger] lines[j]) {
                assert forall|j: int| 0 <= j < line_list(rest).len() implies blank(
                    #[trigger] line_list(rest)[j],
                ) by {
                    assert(lines[j + 1] == line_list(rest)[j]);
                }
            }
        }
    } else {
        assert(lines =~= seq![s]);
        assert(lines[0] == s);
    }
}

/// Joining can as well begin with the first text.
pub proof fn lemma_joined_front(parts: Seq<Seq<char>>, sep: Seq<char>)
    requires
        parts.len() >= 2,
    ensures
        joined(parts, sep) == parts[0] + sep + joined(parts.skip(1), sep),
    decreases parts.len(),
{
    let front = parts.drop_last();
    let rest = parts.skip(1);
    assert(rest.drop_last() =~= front.skip(1));
    assert(rest.last() == parts.last());
    if parts.len() == 2 {
        assert(joined(front, sep) == parts[0]);
        assert(joined(rest, sep) == parts[1]);
    } else {
        lemma_joined_front(front, sep);
    }
    assert(joined(parts, sep) =~= parts[0] + sep + joined(rest, sep));
}

/// Texts that can be lines are the lines of what they are joined to.
pub proof fn lemma_lines_of_joined(parts: Seq<Seq<char>>)
    requires
        forall|i: int|
            0 <= i < parts.len() ==> (#[trigger] parts[i]).len() > 0 && !parts[i].contains('\n')
                && parts[i].last() != '\r',
    ensures
        line_list(joined(parts, "\n"@)) == parts,
        parts.len() > 0 ==> joined(parts, "\n"@).len() > 0,
    decreases parts.len(),
{
    reveal_strlit("\n");
    let s = joined(parts, "\n"@);
    if parts.len() == 0 {
        assert(line_list(s) =~= parts);
    } else {
        let first = parts[0];
        assert forall|j: int| 0 <= j < first.len() implies first[j] != '\n' by {
            assert(first.contains(first[j]));
        }
        if parts.len() == 1 {
            lemma_index_of_is(s, '\n', s.len() as int);
            assert(line_list(s) =~= parts);
        } else {
            let rest = parts.skip(1);
            assert forall|i: int| 0 <= i < rest.len() implies (#[trigger] rest[i]).len() > 0
                && !rest[i].contains('\n') && rest[i].last() != '\r' by {
                assert(rest[i] == parts[i + 1]);
            }
            lemma_lines_of_joined(rest);
            lemma_joined_front(parts, "\n"@);
            let n = first.len() as int;
            assert forall|j: int| 0 <= j < n implies s[j] != '\n' by {
                assert(s[j] == first[j]);
            }
            assert(s[n] == '\n');
            lemma_index_of_is(s, '\n', n);
            assert(s.take(n) =~= first);
            assert(s.skip(n + 1) =~= joined(rest, "\n"@));
            assert(line_list(s) =~= parts);
        }
    }
}

/// Where a pattern is found it stands, and it is found where it stands.
pub proof fn lemma_find_pattern(s: Seq<char>, p: Seq<char>)
    ensures
        match find_pattern(s, p) {
            Some(i) => 0 <= i <= s.len() && p.is_prefix_of(s.skip(i)) && forall|j: int|
                0 <= j < i ==> !p.is_prefix_of(#[trigger] s.skip(j)),
            None => forall|j: int| 0 <= j <= s.len() ==> !p.is_prefix_of(#[trigger] s.skip(j)),
        },
    decreases s.len(),
{
    assert(s.skip(0) =~= s);
    if !p.is_prefix_of(s) && s.len() > 0 {
        lemma_find_pattern(s.skip(1), p);
        assert forall|j: int| 1 <= j <= s.len() implies #[trigger] s.skip(j) == s.skip(1).skip(
            j - 1,
        ) by {
            assert(s.skip(j) =~= s.skip(1).skip(j - 1));
        }
        if let Some(i) = find_pattern(s.skip(1), p) {
            assert(s.skip(i + 1) =~= s.skip(1).skip(i));
        }
    }
}

/// What stands before the first separator is the first piece.
pub proof fn lemma_pieces_head(a: Seq<char>, c: char, rest: Seq<char>)
    requires
        !a.contains(c),
    ensures
        pieces(a.push(c) + rest, c) == seq![a] + pieces(rest, c),
        halves(a.push(c) + rest, c) == Some((a, rest)),
{
    let s = a.push(c) + rest;
    let i = a.len() as int;
    assert forall|j: int| 0 <= j < i implies s[j] != c by {
        assert(s[j] == a[j]);
    }
    lemma_index_of_is(s, c, i);
    assert(s.take(i) =~= a);
    assert(s.skip(i + 1) =~= rest);
}

/// A text without the separator is one piece.
pub proof fn lemma_pieces_single(a: Seq<char>, c: char)
    requires
        !a.contains(c),
    ensures
        pieces(a, c) == seq![a],
        halves(a, c) is None,
{
    assert forall|j: int| 0 <= j < a.len() implies a[j] != c by {
        assert(a.contains(a[j]));
    }
    lemma_index_of_is(a, c, a.len() as int);
}

/// A number in base sixteen can be told from every other number.
pub proof fn lemma_hex_injective(a: nat, b: nat)
    requires
        hex(a) == hex(b),
    ensures
        a == b,
    decreases a,
{
    lemma_hex_len(a);
    lemma_hex_len(b);
    assert(hex(a).last() == digit_char(a % 16));
    assert(hex(b).last() == digit_char(b % 16));
    assert(a % 16 == b % 16) by {
        lemma_digit_char(a % 16, b % 16);
    }
    if a >= 16 {
        assert(b >= 16);
        assert(hex(a).drop_last() =~= hex(a / 16));
        assert(hex(b).drop_last() =~= hex(b / 16));
        lemma_hex_injective(a / 16, b / 16);
    } else {
        assert(b < 16);
    }
}

/// A number in base ten can be told from every other number.
pub proof fn lemma_decimal_injective(a: nat, b: nat)
    requires
        decimal(a) == decimal(b),
    ensures
        a == b,
    decreases a,
{
    lemma_decimal_len(a);
    lemma_decimal_len(b);
    assert(decimal(a).last() == digit_char(a % 10));
    assert(decimal(b).last() == digit_char(b % 10));
    assert(a % 10 == b % 10) by {
        lemma_digit_char(a % 10, b % 10);
    }
    if a >= 10 {
        assert(b >= 10);
        assert(decimal(a).drop_last() =~= decimal(a / 10));
        assert(decimal(b).drop_last() =~= decimal(b / 10));
        lemma_decimal_injective(a / 10, b / 10);
    } else {
        assert(b < 10);
    }
}

proof fn lemma_decimal_len(n: nat)
    ensures
        decimal(n).len() >= 1,
        n < 10 <==> decimal(n).len() == 1,
    decreases n,
{
    if n >= 10 {
        lemma_decimal_len(n / 10);
    }
}

proof fn lemma_hex_len(n: nat)
    ensures
        hex(n).len() >= 1,
        n < 16 <==> hex(n).len() == 1,
    decreases n,
{
    if n >= 16 {
        lemma_hex_len(n / 16);
    }
}

proof fn lemma_digit_char(a: nat, b: nat)
    requires
        a < 16,
        b < 16,
        digit_char(a) == digit_char(b),
    ensures
        a == b,
{
}

pub proof fn lemma_digits_value_prefix(s: Seq<char>, i: int)
    requires
        0 <= i <= s.len(),
    ensures
        digits_value(s.take(i)) <= digits_value(s),
    decreases s.len(),
{
    if i == s.len() {
        assert(s.take(i) =~= s);
    } else {
        lemma_digits_value_prefix(s.drop_last(), i);
        assert(s.drop_last().take(i) =~= s.take(i));
    }
}

/// `String::push`: the character is appended to the end of the string.
pub assume_specification[ String::push ](s: &mut String, c: char)
    ensures
        final(s)@ == old(s)@.push(c),
;

/// Tells whether a character is white space.
pub fn is_whitespace(c: char) -> (r: bool)
    ensures
        r == whitespace(c),
{
    ('\u{9}' <= c && c <= '\u{d}') || c == ' ' || c == '\u{85}' || c == '\u{a0}' || c == '\u{1680}'
        || ('\u{2000}' <= c && c <= '\u{200a}') || c == '\u{2028}' || c == '\u{2029}' || c
        == '\u{202f}' || c == '\u{205f}' || c == '\u{3000}'
}

/// The characters of a string, one per element.
pub fn chars_of(s: &str) -> (r: Vec<char>)
    ensures
        r@ == s@,
{
    let mut out: Vec<char> = Vec::new();
    for c in it: s.chars()
        invariant
            out@ == it.seq().take(it.index()),
            it.seq() == s@,
    {
        proof {
            assert(it.seq().take(it.index() + 1) =~= it.seq().take(it.index()).push(c));
        }
        out.push(c);
    }
    proof {
        assert(s@.take(s@.len() as int) =~= s@);
    }
    out
}

/// Tells whether two strings hold the same characters.
pub fn same(a: &str, b: &str) -> (r: bool)
    ensures
        r == (a@ == b@),
{
    a.to_owned() == b.to_owned()
}

/// The string without white space at either end.
pub fn trim(s: &str) -> (r: &str)
    ensures
        r@ == trimmed(s@),
{
    let cs = chars_of(s);
    let n: usize = cs.len();
    let mut i: usize = 0;
    proof {
        assert(s@.skip(0) =~= s@);
    }
    while i < n && is_whitespace(cs[i])
        invariant
            i <= n,
            n == s@.len(),
            cs@ == s@,
            trim_start(s@) == trim_start(s@.skip(i as int)),
        decreases n - i,
    {
        proof {
            assert(s@.skip(i as int)[0] == s@[i as int]);
            assert(s@.skip(i as int).skip(1) =~= s@.skip(i + 1));
        }
        i += 1;
    }
    proof {
        if i < n {
            assert(s@.skip(i as int)[0] == s@[i as int]);
        }
        assert(s@.subrange(i as int, n as int) =~= s@.skip(i as int));
    }
    let mut j: usize = n;
    while j > i && is_whitespace(cs[j - 1])
        invariant
            i <= j <= n,
            n == s@.len(),
            cs@ == s@,
            trimmed(s@) == trim_end(s@.subrange(i as int, j as int)),
        decreases j,
    {
        proof {
            let t = s@.subrange(i as int, j as int);
            assert(t.last() == s@[j - 1]);
            assert(t.drop_last() =~= s@.subrange(i as int, j - 1));
        }
        j -= 1;
    }
    proof {
        let t = s@.subrange(i as int, j as int);
        if j > i {
            assert(t.last() == s@[j - 1]);
        }
    }
    s.substring_char(i, j)
}

/// The position of the first `c`, counted in characters.
pub fn find(s: &str, c: char) -> (r: Option<usize>)
    ensures
        match r {
            Some(i) => i == index_of(s@, c) && i < s@.len(),
            None => index_of(s@, c) == s@.len(),
        },
{
    let cs = chars_of(s);
    let mut i: usize = 0;
    while i < cs.len()
        invariant
            i <= cs.len(),
            cs@ == s@,
            forall|j: int| 0 <= j < i ==> s@[j] != c,
        decreases cs.len() - i,
    {
        if cs[i] == c {
            proof {
                lemma_index_of_is(s@, c, i as int);
            }
            return Some(i);
        }
        i += 1;
    }
    proof {
        lemma_index_of_is(s@, c, i as int);
    }
    None
}

/// The position of the last `c`, counted in characters.
pub fn rfind(s: &str, c: char) -> (r: Option<usize>)
    ensures
        match r {
            Some(i) => i == last_index_of(s@, c) && i < s@.len(),
            None => last_index_of(s@, c) == -1,
        },
{
    let cs = chars_of(s);
    let mut i: usize = cs.len();
    while i > 0
        invariant
            i <= cs.len(),
            cs@ == s@,
            forall|j: int| i <= j < s@.len() ==> s@[j] != c,
        decreases i,
    {
        if cs[i - 1] == c {
            proof {
                lemma_last_index_of_is(s@, c, i - 1);
            }
            return Some(i - 1);
        }
        i -= 1;
    }
    proof {
        lemma_last_index_of_is(s@, c, -1);
    }
    None
}

/// The parts before and after a position that holds a separator.
fn parts_at(s: &str, i: usize, n: usize) -> (r: (&str, &str))
    requires
        i < n,
        n == s@.len(),
    ensures
        r.0@ == s@.take(i as int),
        r.1@ == s@.skip(i + 1),
{
    proof {
        assert(s@.subrange(0, i as int) =~= s@.take(i as int));
        assert(s@.subrange(i + 1, n as int) =~= s@.skip(i + 1));
    }
    (s.substring_char(0, i), s.substring_char(i + 1, n))
}

/// Splits a string at the first `c`.
pub fn split_once(s: &str, c: char) -> (r: Option<(&str, &str)>)
    ensures
        match r {
            Some(p) => halves(s@, c) == Some((p.0@, p.1@)),
            None => halves(s@, c) is None,
        },
{
    match find(s, c) {
        Some(i) => Some(parts_at(s, i, s.unicode_len())),
        None => None,
    }
}

/// Splits a string at the last `c`.
pub fn rsplit_once(s: &str, c: char) -> (r: Option<(&str, &str)>)
    ensures
        match r {
            Some(p) => last_halves(s@, c) == Some((p.0@, p.1@)),
            None => last_halves(s@, c) is None,
        },
{
    match rfind(s, c) {
        Some(i) => Some(parts_at(s, i, s.unicode_len())),
        None => None,
    }
}

/// Whether a character occurs in a string.
pub fn contains_char(s: &str, c: char) -> (r: bool)
    ensures
        r == s@.contains(c),
{
    proof {
        lemma_index_of(s@, c);
    }
    match find(s, c) {
        Some(i) => {
            proof {
                assert(s@[i as int] == c);
            }
            true
        },
        None => false,
    }
}

/// Whether some character of a string is white space.
pub fn contains_whitespace(s: &str) -> (r: bool)
    ensures
        r == has_whitespace(s@),
{
    let cs = chars_of(s);
    let mut i: usize = 0;
    while i < cs.len()
        invariant
            i <= cs.len(),
            cs@ == s@,
            forall|j: int| 0 <= j < i ==> !whitespace(s@[j]),
        decreases cs.len() - i,
    {
        if is_whitespace(cs[i]) {
            proof {
                assert(whitespace(s@[i as int]));
            }
            return true;
        }
        i += 1;
    }
    false
}

/// Splits a string at every `c`.
pub fn split(s: &str, c: char) -> (r: Vec<String>)
    ensures
        r.deep_view() == pieces(s@, c),
{
    let cs = chars_of(s);
    let n: usize = cs.len();
    let mut out: Vec<String> = Vec::new();
    let mut start: usize = 0;
    let mut i: usize = 0;
    proof {
        assert(s@.skip(0) =~= s@);
        assert(out.deep_view() + pieces(s@, c) =~= pieces(s@, c));
    }
    while i < n
        invariant
            start <= i <= n,
            n == s@.len(),
            cs@ == s@,
            forall|j: int| start <= j < i ==> s@[j] != c,
            pieces(s@, c) == out.deep_view() + pieces(s@.skip(start as int), c),
        decreases n - i,
    {
        if cs[i] == c {
            let ghost before = out.deep_view();
            let ghost rest = s@.skip(start as int);
            out.push(s.substring_char(start, i).to_owned());
            proof {
                lemma_index_of_is(rest, c, i - start);
                assert(rest.take(i - start) =~= s@.subrange(start as int, i as int));
                assert(rest.skip(i - start + 1) =~= s@.skip(i + 1));
                assert(out.deep_view() =~= before.push(s@.subrange(start as int, i as int)));
                assert(before + (seq![rest.take(i - start)] + pieces(s@.skip(i + 1), c))
                    =~= out.deep_view() + pieces(s@.skip(i + 1), c));
            }
            start = i + 1;
        }
        i += 1;
    }
    let ghost before = out.deep_view();
    let ghost rest = s@.skip(start as int);
    out.push(s.substring_char(start, n).to_owned());
    proof {
        lemma_index_of_is(rest, c, rest.len() as int);
        assert(rest =~= s@.subrange(start as int, n as int));
        assert(out.deep_view() =~= before + seq![rest]);
    }
    out
}

/// Tells whether a string starts with a prefix.
pub fn starts_with(s: &str, p: &str) -> (r: bool)
    ensures
        r == p@.is_prefix_of(s@),
{
    let cs = chars_of(s);
    let ps = chars_of(p);
    prefix_at(&cs, &ps, 0)
}

/// Tells whether a pattern stands at a position.
fn prefix_at(cs: &Vec<char>, ps: &Vec<char>, at: usize) -> (r: bool)
    requires
        at <= cs@.len(),
    ensures
        r == ps@.is_prefix_of(cs@.skip(at as int)),
{
    if ps.len() > cs.len() - at {
        return false;
    }
    let mut i: usize = 0;
    while i < ps.len()
        invariant
            i <= ps.len(),
            at + ps.len() <= cs.len(),
            forall|j: int| 0 <= j < i ==> ps@[j] == cs@[at + j],
        decreases ps.len() - i,
    {
        if ps[i] != cs[at + i] {
            proof {
                assert(cs@.skip(at as int)[i as int] == cs@[at + i]);
                assert(cs@.skip(at as int).subrange(0, ps@.len() as int)[i as int] == cs@[at + i]);
            }
            return false;
        }
        i += 1;
    }
    proof {
        assert(ps@ =~= cs@.skip(at as int).subrange(0, ps@.len() as int));
    }
    true
}

/// The position of the first occurrence of a pattern, counted in characters.
pub fn find_text(s: &str, p: &str) -> (r: Option<usize>)
    ensures
        match r {
            Some(i) => find_pattern(s@, p@) == Some(i as int) && i + p@.len() <= s@.len(),
            None => find_pattern(s@, p@) is None,
        },
{
    let cs = chars_of(s);
    let ps = chars_of(p);
    let n: usize = cs.len();
    let mut i: usize = 0;
    proof {
        assert(s@.skip(0) =~= s@);
    }
    loop
        invariant
            i <= n,
            n == s@.len(),
            cs@ == s@,
            ps@ == p@,
            find_pattern(s@, p@) == (match find_pattern(s@.skip(i as int), p@) {
                Some(k) => Some(k + i),
                None => None::<int>,
            }),
        decreases n - i,
    {
        if prefix_at(&cs, &ps, i) {
            return Some(i);
        }
        if i == n {
            return None;
        }
        proof {
            assert(s@.skip(i as int).skip(1) =~= s@.skip(i + 1));
        }
        i += 1;
    }
}

/// Tells whether a pattern occurs in a string.
pub fn contains_text(s: &str, p: &str) -> (r: bool)
    ensures
        r == (find_pattern(s@, p@) is Some),
{
    find_text(s, p).is_some()
}

/// The string behind a prefix.
pub fn strip_prefix<'a>(s: &'a str, p: &str) -> (r: Option<&'a str>)
    ensures
        match r {
            Some(t) => without_prefix(s@, p@) == Some(t@),
            None => without_prefix(s@, p@) is None,
        },
{
    if starts_with(s, p) {
        proof {
            assert(s@.subrange(p@.len() as int, s@.len() as int) =~= s@.skip(p@.len() as int));
        }
        Some(s.substring_char(p.unicode_len(), s.unicode_len()))
    } else {
        None
    }
}

/// The string before a suffix.
pub fn strip_suffix<'a>(s: &'a str, p: &str) -> (r: Option<&'a str>)
    ensures
        match r {
            Some(t) => without_suffix(s@, p@) == Some(t@),
            None => without_suffix(s@, p@) is None,
        },
{
    let cs = chars_of(s);
    let ps = chars_of(p);
    if ps.len() > cs.len() {
        return None;
    }
    let at: usize = cs.len() - ps.len();
    proof {
        let tail = s@.skip(at as int);
        assert(tail.subrange(0, p@.len() as int) =~= tail);
        assert(s@.subrange(s@.len() - p@.len(), s@.len() as int) =~= tail);
        assert(s@.subrange(0, at as int) =~= s@.take(at as int));
    }
    if prefix_at(&cs, &ps, at) {
        Some(s.substring_char(0, at))
    } else {
        None
    }
}

/// The string without any `c` at either end.
pub fn trim_matches(s: &str, c: char) -> (r: &str)
    ensures
        r@ == trimmed_char(s@, c),
{
    let cs = chars_of(s);
    let n: usize = cs.len();
    let mut i: usize = 0;
    proof {
        assert(s@.skip(0) =~= s@);
    }
    while i < n && cs[i] == c
        invariant
            i <= n,
            n == s@.len(),
            cs@ == s@,
            trim_start_char(s@, c) == trim_start_char(s@.skip(i as int), c),
        decreases n - i,
    {
        proof {
            assert(s@.skip(i as int)[0] == s@[i as int]);
            assert(s@.skip(i as int).skip(1) =~= s@.skip(i + 1));
        }
        i += 1;
    }
    proof {
        if i < n {
            assert(s@.skip(i as int)[0] == s@[i as int]);
        }
        assert(s@.subrange(i as int, n as int) =~= s@.skip(i as int));
    }
    let mut j: usize = n;
    while j > i && cs[j - 1] == c
        invariant
            i <= j <= n,
            n == s@.len(),
            cs@ == s@,
            trimmed_char(s@, c) == trim_end_char(s@.subrange(i as int, j as int), c),
        decreases j,
    {
        proof {
            let t = s@.subrange(i as int, j as int);
            assert(t.last() == s@[j - 1]);
            assert(t.drop_last() =~= s@.subrange(i as int, j - 1));
        }
        j -= 1;
    }
    proof {
        let t = s@.subrange(i as int, j as int);
        if j > i {
            assert(t.last() == s@[j - 1]);
        }
    }
    s.substring_char(i, j)
}

/// The lines of a string, without their terminators.
pub fn lines(s: &str) -> (r: Vec<String>)
    ensures
        r.deep_view() == line_list(s@),
{
    let cs = chars_of(s);
    let n: usize = cs.len();
    let mut out: Vec<String> = Vec::new();
    let mut start: usize = 0;
    let mut i: usize = 0;
    proof {
        assert(s@.skip(0) =~= s@);
        assert(out.deep_view() + line_list(s@) =~= line_list(s@));
    }
    while i < n
        invariant
            start <= i <= n,
            n == s@.len(),
            cs@ == s@,
            forall|j: int| start <= j < i ==> s@[j] != '\n',
            line_list(s@) == out.deep_view() + line_list(s@.skip(start as int)),
        decreases n - i,
    {
        if cs[i] == '\n' {
            let ghost before = out.deep_view();
            let ghost rest = s@.skip(start as int);
            let mut end: usize = i;
            if end > start && cs[end - 1] == '\r' {
                end -= 1;
            }
            out.push(s.substring_char(start, end).to_owned());
            proof {
                let k = i - start;
                lemma_index_of_is(rest, '\n', k);
                let line = rest.take(k);
                assert(line =~= s@.subrange(start as int, i as int));
                if k > 0 {
                    assert(line.last() == s@[i - 1]);
                }
                assert(without_return(line) =~= s@.subrange(start as int, end as int));
                assert(rest.skip(k + 1) =~= s@.skip(i + 1));
                assert(out.deep_view() =~= before.push(without_return(line)));
                assert(before + (seq![without_return(line)] + line_list(s@.skip(i + 1)))
                    =~= out.deep_view() + line_list(s@.skip(i + 1)));
            }
            start = i + 1;
        }
        i += 1;
    }
    let ghost before = out.deep_view();
    let ghost rest = s@.skip(start as int);
    if start < n {
        out.push(s.substring_char(start, n).to_owned());
        proof {
            lemma_index_of_is(rest, '\n', rest.len() as int);
            assert(rest =~= s@.subrange(start as int, n as int));
            assert(out.deep_view() =~= before + seq![rest]);
        }
    } else {
        proof {
            assert(rest =~= Seq::<char>::empty());
            assert(before + Seq::<Seq<char>>::empty() =~= before);
        }
    }
    out
}

proof fn lemma_word_len(s: Seq<char>)
    ensures
        0 <= word_len(s) <= s.len(),
        forall|j: int| 0 <= j < word_len(s) ==> !whitespace(s[j]),
        word_len(s) < s.len() ==> whitespace(s[word_len(s)]),
    decreases s.len(),
{
    if s.len() > 0 && !whitespace(s[0]) {
        lemma_word_len(s.skip(1));
        assert forall|j: int| 0 <= j < word_len(s) implies !whitespace(s[j]) by {
            if j > 0 {
                assert(s.skip(1)[j - 1] == s[j]);
            }
        }
    }
}

/// The words of a string, which white space separates.
pub fn split_whitespace(s: &str) -> (r: Vec<String>)
    ensures
        r.deep_view() == word_list(s@),
{
    let cs = chars_of(s);
    let n: usize = cs.len();
    let mut out: Vec<String> = Vec::new();
    let mut i: usize = 0;
    proof {
        assert(s@.skip(0) =~= s@);
        assert(out.deep_view() + word_list(s@) =~= word_list(s@));
    }
    while i < n
        invariant
            i <= n,
            n == s@.len(),
            cs@ == s@,
            word_list(s@) == out.deep_view() + word_list(s@.skip(i as int)),
        decreases n - i,
    {
        let ghost rest = s@.skip(i as int);
        if is_whitespace(cs[i]) {
            proof {
                assert(rest[0] == s@[i as int]);
                assert(rest.skip(1) =~= s@.skip(i + 1));
            }
            i += 1;
        } else {
            let start: usize = i;
            i += 1;
            while i < n && !is_whitespace(cs[i])
                invariant
                    start < i <= n,
                    n == s@.len(),
                    cs@ == s@,
                    forall|j: int| start <= j < i ==> !whitespace(s@[j]),
                decreases n - i,
            {
                i += 1;
            }
            let ghost before = out.deep_view();
            out.push(s.substring_char(start, i).to_owned());
            proof {
                lemma_word_len(rest);
                let k = word_len(rest);
                assert(rest[0] == s@[start as int]);
                if k < i - start {
                    assert(rest[k] == s@[start + k]);
                }
                if k > i - start {
                    assert(rest[i - start] == s@[i as int]);
                }
                assert(rest.take(k) =~= s@.subrange(start as int, i as int));
                assert(rest.skip(k) =~= s@.skip(i as int));
                assert(out.deep_view() =~= before.push(rest.take(k)));
                assert(before + (seq![rest.take(k)] + word_list(s@.skip(i as int)))
                    =~= out.deep_view() + word_list(s@.skip(i as int)));
            }
        }
    }
    proof {
        assert(s@.skip(i as int) =~= Seq::<char>::empty());
        assert(out.deep_view() + Seq::<Seq<char>>::empty() =~= out.deep_view());
    }
    out
}

/// The strings one after another, with a separator between each two.
pub fn join(parts: &Vec<String>, sep: &str) -> (r: String)
    ensures
        r@ == joined(parts.deep_view(), sep@),
{
    let mut out = String::new();
    let mut i: usize = 0;
    let ghost all = parts.deep_view();
    while i < parts.len()
        invariant
            i <= parts.len(),
            all == parts.deep_view(),
            out@ == joined(all.take(i as int), sep@),
        decreases parts.len() - i,
    {
        if i > 0 {
            out.append(sep);
        }
        out.append(parts[i].as_str());
        proof {
            assert(all[i as int] == parts@[i as int]@);
            assert(all.take(i + 1).drop_last() =~= all.take(i as int));
            assert(all.take(i + 1).last() == all[i as int]);
            if i == 0 {
                assert(all.take(1)[0] == all[0]);
                assert(Seq::<char>::empty() + parts@[0]@ =~= parts@[0]@);
            }
        }
        i += 1;
    }
    proof {
        assert(all.take(all.len() as int) =~= all);
    }
    out
}

pub(crate) fn digit_of(d: u64) -> (r: char)
    requires
        d < 16,
    ensures
        r == digit_char(d as nat),
{
    if d < 10 {
        (48u8 + d as u8) as char
    } else {
        (87u8 + d as u8) as char
    }
}

fn push_decimal(out: &mut String, n: u64)
    ensures
        final(out)@ == old(out)@ + decimal(n as nat),
    decreases n,
{
    if n >= 10 {
        push_decimal(out, n / 10);
    }
    out.push(digit_of(n % 10));
    proof {
        assert(out@ =~= old(out)@ + decimal(n as nat));
    }
}

/// A number in base ten.
pub fn decimal_text(n: u64) -> (r: String)
    ensures
        r@ == decimal(n as nat),
{
    let mut out = String::new();
    push_decimal(&mut out, n);
    proof {
        assert(out@ =~= decimal(n as nat));
    }
    out
}

/// A whole number in base ten.
pub fn signed_text(n: i64) -> (r: String)
    ensures
        r@ == signed_decimal(n as int),
{
    if n < 0 {
        let mut out = String::new();
        out.push('-');
        let magnitude: u64 = (-(n as i128)) as u64;
        push_decimal(&mut out, magnitude);
        proof {
            assert(out@ =~= signed_decimal(n as int));
        }
        out
    } else {
        decimal_text(n as u64)
    }
}

fn push_hex(out: &mut String, n: u64)
    ensures
        final(out)@ == old(out)@ + hex(n as nat),
    decreases n,
{
    if n >= 16 {
        push_hex(out, n / 16);
    }
    out.push(digit_of(n % 16));
    proof {
        assert(out@ =~= old(out)@ + hex(n as nat));
    }
}

/// A number in base sixteen.
pub fn hex_text(n: u64) -> (r: String)
    ensures
        r@ == hex(n as nat),
{
    let mut out = String::new();
    push_hex(&mut out, n);
    proof {
        assert(out@ =~= hex(n as nat));
    }
    out
}

/// The value of the digits from a position on, where it is at most `limit`.
fn parse_digits(cs: &Vec<char>, from: usize, limit: u64) -> (r: Option<u64>)
    requires
        from <= cs@.len(),
        limit <= 0x8000_0000_0000_0000,
    ensures
        match r {
            Some(v) => all_digits(cs@.skip(from as int)) && v == digits_value(
                cs@.skip(from as int),
            ) && v <= limit,
            None => all_digits(cs@.skip(from as int)) ==> digits_value(cs@.skip(from as int))
                > limit,
        },
{
    let ghost s = cs@.skip(from as int);
    if from == cs.len() {
        return None;
    }
    let mut value: u64 = 0;
    let mut i: usize = from;
    while i < cs.len()
        invariant
            from <= i <= cs.len(),
            s == cs@.skip(from as int),
            limit <= 0x8000_0000_0000_0000,
            value <= limit,
            value == digits_value(s.take(i - from)),
            forall|j: int| 0 <= j < i - from ==> is_digit(#[trigger] s[j]),
        decreases cs.len() - i,
    {
        let c = cs[i];
        proof {
            assert(s[i - from] == c);
        }
        if !('0' <= c && c <= '9') {
            return None;
        }
        let d: u64 = (c as u32 - 48) as u64;
        proof {
            let t = s.take(i - from + 1);
            assert(t.drop_last() =~= s.take(i - from));
            assert(t.last() == c);
            assert(digits_value(t) == 10 * value + d);
            lemma_digits_value_prefix(s, i - from + 1);
        }
        let wide: u128 = 10 * (value as u128) + d as u128;
        if wide > limit as u128 {
            return None;
        }
        value = wide as u64;
        i += 1;
    }
    proof {
        assert(s.take(s.len() as int) =~= s);
    }
    Some(value)
}

/// Reads a whole number between two bounds.
pub fn parse_integer(s: &str, low: i64, high: i64) -> (r: Option<i64>)
    ensures
        match r {
            Some(v) => integer_within(s@, low as int, high as int) == Some(v as int),
            None => integer_within(s@, low as int, high as int) is None,
        },
{
    let cs = chars_of(s);
    if cs.len() == 0 {
        return None;
    }
    let signed: bool = cs[0] == '-' || cs[0] == '+';
    let from: usize = if signed {
        1
    } else {
        0
    };
    proof {
        assert(s@.skip(0) =~= s@);
    }
    match parse_digits(&cs, from, 0x8000_0000_0000_0000) {
        Some(magnitude) => {
            let value: i128 = if cs[0] == '-' {
                -(magnitude as i128)
            } else {
                magnitude as i128
            };
            if low as i128 <= value && value <= high as i128 {
                Some(value as i64)
            } else {
                None
            }
        },
        None => None,
    }
}

/// Reads a number without a minus sign, up to a bound.
pub fn parse_natural(s: &str, high: u32) -> (r: Option<u32>)
    ensures
        match r {
            Some(v) => natural_within(s@, high as int) == Some(v as int),
            None => natural_within(s@, high as int) is None,
        },
{
    if starts_with(s, "-") {
        proof {
            reveal_strlit("-");
            assert(s@[0] == s@.subrange(0, 1)[0]);
        }
        return None;
    }
    proof {
        reveal_strlit("-");
        if s@.len() > 0 && s@[0] == '-' {
            assert("-"@ =~= s@.subrange(0, 1));
        }
    }
    match parse_integer(s, 0, high as i64) {
        Some(v) => Some(v as u32),
        None => None,
    }
}

/// Tells whether a string comes before another one.
pub fn is_before(a: &str, b: &str) -> (r: bool)
    ensures
        r == before(a@, b@),
{
    let x = chars_of(a);
    let y = chars_of(b);
    let mut i: usize = 0;
    proof {
        assert(a@.skip(0) =~= a@);
        assert(b@.skip(0) =~= b@);
    }
    while i < x.len() && i < y.len() && x[i] == y[i]
        invariant
            i <= x.len(),
            i <= y.len(),
            x@ == a@,
            y@ == b@,
            before(a@, b@) == before(a@.skip(i as int), b@.skip(i as int)),
        decreases x.len() - i,
    {
        proof {
            let s = a@.skip(i as int);
            let t = b@.skip(i as int);
            assert(s[0] == a@[i as int] && t[0] == b@[i as int]);
            assert(s.skip(1) =~= a@.skip(i + 1));
            assert(t.skip(1) =~= b@.skip(i + 1));
        }
        i += 1;
    }
    proof {
        let s = a@.skip(i as int);
        let t = b@.skip(i as int);
        if i < x.len() && i < y.len() {
            assert(s[0] == a@[i as int] && t[0] == b@[i as int]);
        }
    }
    if i == y.len() {
        false
    } else if i == x.len() {
        true
    } else {
        x[i] < y[i]
    }
}

/// The text that bytes decode to as UTF-8, with a replacement character for
/// each sequence that is not valid.
pub uninterp spec fn lossy_text(bytes: Seq<u8>) -> Seq<char>;

/// `String::from_utf8_lossy`: the bytes as text. Bytes that are valid UTF-8
/// decode to their characters. Which replacement characters stand for invalid
/// bytes is only named.
#[verifier::external_body]
pub(crate) fn decode_lossy(bytes: &Vec<u8>) -> (r: String)
    ensures
        r@ == lossy_text(bytes@),
        vstd::utf8::valid_utf8(bytes@) ==> r@ == vstd::utf8::decode_utf8(bytes@),
{
    String::from_utf8_lossy(bytes.as_slice()).into_owned()
}

/// The text of a string between double quotes, with escapes where needed.
pub uninterp spec fn quoted_text(s: Seq<char>) -> Seq<char>;

/// `{:?}` of a string (`Debug` for `str`): the string between double quotes,
/// with escapes. The text is a function of the string.
#[verifier::external_body]
pub(crate) fn quote(s: &str) -> (r: String)
    ensures
        r@ == quoted_text(s@),
{
    format!("{:?}", s)
}

proof fn lemma_trim_front(a: Seq<char>, s: Seq<char>)
    requires
        blank(a),
        s.len() == 0 || !whitespace(s[0]),
    ensures
        trim_start(a + s) == s,
    decreases a.len(),
{
    if a.len() == 0 {
        assert(a + s =~= s);
    } else {
        assert(whitespace(a[0]));
        assert(blank(a.skip(1))) by {
            assert forall|i: int| 0 <= i < a.skip(1).len() implies whitespace(
                #[trigger] a.skip(1)[i],
            ) by {
                assert(a.skip(1)[i] == a[i + 1]);
            }
        }
        lemma_trim_front(a.skip(1), s);
        assert((a + s).skip(1) =~= a.skip(1) + s);
    }
}

proof fn lemma_trim_back(s: Seq<char>, b: Seq<char>)
    requires
        blank(b),
        s.len() == 0 || !whitespace(s.last()),
    ensures
        trim_end(s + b) == s,
    decreases b.len(),
{
    if b.len() == 0 {
        assert(s + b =~= s);
    } else {
        assert(whitespace(b[b.len() - 1]));
        assert(blank(b.drop_last())) by {
            assert forall|i: int| 0 <= i < b.drop_last().len() implies whitespace(
                #[trigger] b.drop_last()[i],
            ) by {
                assert(b.drop_last()[i] == b[i]);
            }
        }
        lemma_trim_back(s, b.drop_last());
        assert((s + b).drop_last() =~= s + b.drop_last());
    }
}

/// Trimming takes all white space off both ends and nothing else.
pub proof fn law_trimming_keeps_the_inside(a: Seq<char>, s: Seq<char>, b: Seq<char>)
    requires
        blank(a),
        blank(b),
        s.len() > 0 ==> !whitespace(s[0]) && !whitespace(s.last()),
    ensures
        trimmed(a + s + b) == s,
{
    if s.len() > 0 {
        assert((s + b)[0] == s[0]);
        lemma_trim_front(a, s + b);
        assert(a + s + b =~= a + (s + b));
        lemma_trim_back(s, b);
    } else {
        assert(blank(a + b)) by {
            assert forall|i: int| 0 <= i < (a + b).len() implies whitespace(
                #[trigger] (a + b)[i],
            ) by {
                if i < a.len() {
                    assert((a + b)[i] == a[i]);
                } else {
                    assert((a + b)[i] == b[i - a.len()]);
                }
            }
        }
        assert(a + s + b =~= a + b);
        assert(a + b =~= (a + b) + s);
        lemma_trim_front(a + b, s);
        assert(trim_end(s) =~= s);
    }
}

/// The characters that are white space, one by one.
pub proof fn law_white_space(c: char)
    ensures
        whitespace(c) <==> seq![
            '\t',
            '\n',
            '\u{b}',
            '\u{c}',
            '\r',
            ' ',
            '\u{85}',
            '\u{a0}',
            '\u{1680}',
            '\u{2000}',
            '\u{2001}',
            '\u{2002}',
            '\u{2003}',
            '\u{2004}',
            '\u{2005}',
            '\u{2006}',
            '\u{2007}',
            '\u{2008}',
            '\u{2009}',
            '\u{200a}',
            '\u{2028}',
            '\u{2029}',
            '\u{202f}',
            '\u{205f}',
            '\u{3000}',
        ].contains(c),
{
    let all = seq![
        '\t',
        '\n',
        '\u{b}',
        '\u{c}',
        '\r',
        ' ',
        '\u{85}',
        '\u{a0}',
        '\u{1680}',
        '\u{2000}',
        '\u{2001}',
        '\u{2002}',
        '\u{2003}',
        '\u{2004}',
        '\u{2005}',
        '\u{2006}',
        '\u{2007}',
        '\u{2008}',
        '\u{2009}',
        '\u{200a}',
        '\u{2028}',
        '\u{2029}',
        '\u{202f}',
        '\u{205f}',
        '\u{3000}',
    ];
    if whitespace(c) {
        if '\u{9}' <= c <= '\u{d}' {
            assert(all[c as int - 9] == c);
        } else if '\u{2000}' <= c <= '\u{200a}' {
            assert(all[c as int - 0x2000 + 9] == c);
        } else if c == ' ' {
            assert(all[5] == c);
        } else if c == '\u{85}' {
            assert(all[6] == c);
        } else if c == '\u{a0}' {
            assert(all[7] == c);
        } else if c == '\u{1680}' {
            assert(all[8] == c);
        } else if c == '\u{2028}' {
            assert(all[20] == c);
        } else if c == '\u{2029}' {
            assert(all[21] == c);
        } else if c == '\u{202f}' {
            assert(all[22] == c);
        } else if c == '\u{205f}' {
            assert(all[23] == c);
        } else {
            assert(all[24] == c);
        }
    }
}

/// A number is written with decimal digits: a digit that is put behind a number that is not
/// zero makes it ten times as large and adds the digit, and no number but zero begins with a
/// zero.
pub proof fn law_decimal_digits(n: nat, d: nat)
    requires
        d < 10,
    ensures
        decimal(d) == seq![(48 + d) as char],
        n > 0 ==> decimal(10 * n + d) == decimal(n).push((48 + d) as char),
        all_digits(decimal(n)),
        n > 0 ==> decimal(n)[0] != '0',
        digits_value(decimal(n)) == n,
    decreases n,
{
    if n > 0 {
        assert((10 * n + d) / 10 == n && (10 * n + d) % 10 == d);
    }
    if n >= 10 {
        law_decimal_digits(n / 10, n % 10);
        let front = decimal(n / 10);
        let last = digit_char(n % 10);
        assert(front.push(last).drop_last() =~= front);
        assert(front.push(last).last() == last);
        assert forall|i: int| 0 <= i < decimal(n).len() implies is_digit(
            #[trigger] decimal(n)[i],
        ) by {
            if i < front.len() {
                assert(decimal(n)[i] == front[i]);
            }
        }
        assert(decimal(n)[0] == front[0]);
    } else {
        let one = seq![digit_char(n)];
        assert(one.drop_last() =~= Seq::<char>::empty());
        assert(digits_value(Seq::<char>::empty()) == 0);
        assert(one.last() == digit_char(n));
    }
}

/// The value of digits, read as the digits of a number in base sixteen with small letters.
pub open spec fn hex_value(s: Seq<char>) -> nat
    decreases s.len(),
{
    if s.len() == 0 {
        0
    } else {
        16 * hex_value(s.drop_last()) + (if '0' <= s.last() <= '9' {
            (s.last() as nat - '0' as nat) as nat
        } else {
            (10 + (s.last() as nat - 'a' as nat)) as nat
        })
    }
}

/// A number in base sixteen is written with the digits and the letters from `a` to `f`, reads
/// back, and does not begin with a zero unless it is zero.
pub proof fn law_hex_digits(n: nat)
    ensures
        hex_value(hex(n)) == n,
        hex(n).len() > 0,
        forall|i: int|
            0 <= i < hex(n).len() ==> '0' <= #[trigger] hex(n)[i] <= '9' || 'a' <= hex(n)[i]
                <= 'f',
        n > 0 ==> hex(n)[0] != '0',
    decreases n,
{
    if n >= 16 {
        law_hex_digits(n / 16);
        let front = hex(n / 16);
        let last = digit_char(n % 16);
        assert(front.push(last).drop_last() =~= front);
        assert(front.push(last).last() == last);
        assert forall|i: int| 0 <= i < hex(n).len() implies '0' <= #[trigger] hex(n)[i] <= '9'
            || 'a' <= hex(n)[i] <= 'f' by {
            if i < front.len() {
                assert(hex(n)[i] == front[i]);
            }
        }
        assert(hex(n)[0] == front[0]);
    } else {
        let one = seq![digit_char(n)];
        assert(one.drop_last() =~= Seq::<char>::empty());
        assert(hex_value(Seq::<char>::empty()) == 0);
        assert(one.last() == digit_char(n));
    }
}

/// A number that is written reads back, with the sign of a negative number and with a plus
/// where there is one, exactly where it is within the bounds. Without a digit behind the
/// sign, or with anything but digits there, a text is no number.
pub proof fn law_numbers_read_back(n: int, low: int, high: int)
    ensures
        integer_value(signed_decimal(n)) == Some(n),
        n >= 0 ==> integer_value(seq!['+'] + decimal(n as nat)) == Some(n),
        signed_decimal(n)[0] == '-' <==> n < 0,
        integer_within(signed_decimal(n), low, high) == (if low <= n <= high {
            Some(n)
        } else {
            None
        }),
        natural_within(signed_decimal(n), high) == (if 0 <= n <= high {
            Some(n)
        } else {
            None
        }),
{
    if n < 0 {
        let digits = decimal((-n) as nat);
        law_decimal_digits((-n) as nat, 0);
        assert(signed_decimal(n).skip(1) =~= digits);
    } else {
        law_decimal_digits(n as nat, 0);
        assert(is_digit(decimal(n as nat)[0]));
        assert((seq!['+'] + decimal(n as nat)).skip(1) =~= decimal(n as nat));
    }
}

/// What reads as a number is digits, with a sign before them or without, and leading zeros
/// do not count.
pub proof fn law_only_digits_are_numbers(s: Seq<char>)
    ensures
        integer_value(s) is Some ==> s.len() > 0 && is_digit(s.last()) && (is_digit(s[0]) || s[0]
            == '-' || s[0] == '+') && forall|i: int|
            0 < i < s.len() ==> '0' <= #[trigger] s[i] <= '9',
        all_digits(s) ==> digits_value(seq!['0'] + s) == digits_value(s) && integer_value(s)
            == Some(digits_value(s) as int),
{
    if s.len() > 0 && (s[0] == '-' || s[0] == '+') {
        if all_digits(s.skip(1)) {
            assert forall|i: int| 0 < i < s.len() implies '0' <= #[trigger] s[i] <= '9' by {
                assert(s.skip(1)[i - 1] == s[i]);
            }
            assert(s.skip(1).last() == s.last());
        }
    } else if all_digits(s) {
        lemma_leading_zero(s);
    }
}

proof fn lemma_leading_zero(s: Seq<char>)
    ensures
        digits_value(seq!['0'] + s) == digits_value(s),
    decreases s.len(),
{
    let padded = seq!['0'] + s;
    if s.len() == 0 {
        assert(padded =~= seq!['0']);
        assert(padded.drop_last() =~= Seq::<char>::empty());
        assert(digits_value(Seq::<char>::empty()) == 0);
    } else {
        lemma_leading_zero(s.drop_last());
        assert(padded.drop_last() =~= seq!['0'] + s.drop_last());
        assert(padded.last() == s.last());
    }
}

/// A text is cut at the first, or at the last, occurrence of a character: what stands before
/// and behind it is kept, and a text without the character is not cut.
pub proof fn law_cutting_at_a_character(a: Seq<char>, c: char, b: Seq<char>)
    ensures
        !a.contains(c) ==> halves(a + seq![c] + b, c) == Some((a, b)),
        !b.contains(c) ==> last_halves(a + seq![c] + b, c) == Some((a, b)),
        !a.contains(c) <==> halves(a, c) is None,
        !a.contains(c) <==> last_halves(a, c) is None,
{
    let s = a + seq![c] + b;
    if !a.contains(c) {
        assert forall|j: int| 0 <= j < a.len() implies s[j] != c by {
            assert(a.contains(a[j]));
        }
        lemma_index_of_is(s, c, a.len() as int);
        assert(s.take(a.len() as int) =~= a);
        assert(s.skip(a.len() as int + 1) =~= b);
    }
    if !b.contains(c) {
        assert forall|j: int| a.len() < j < s.len() implies s[j] != c by {
            assert(b.contains(b[j - a.len() - 1]));
        }
        lemma_last_index_of_is(s, c, a.len() as int);
        assert(s.take(a.len() as int) =~= a);
        assert(s.skip(a.len() as int + 1) =~= b);
    }
    lemma_index_of(a, c);
    lemma_last_index_of(a, c);
}

/// The pieces of a text, joined with the character that parts them, are the text again, and
/// none of them holds that character.
pub proof fn law_pieces_make_up_the_text(s: Seq<char>, c: char)
    ensures
        pieces(s, c).len() > 0,
        joined(pieces(s, c), seq![c]) == s,
        forall|i: int| 0 <= i < pieces(s, c).len() ==> !(#[trigger] pieces(s, c)[i]).contains(c),
    decreases s.len(),
{
    lemma_index_of(s, c);
    let i = index_of(s, c);
    if i < s.len() {
        let rest = s.skip(i + 1);
        law_pieces_make_up_the_text(rest, c);
        let all = pieces(s, c);
        assert(all.skip(1) =~= pieces(rest, c));
        assert(all[0] == s.take(i));
        lemma_joined_front(all, seq![c]);
        assert(s =~= s.take(i) + seq![c] + rest);
        assert forall|k: int| 0 <= k < all.len() implies !(#[trigger] all[k]).contains(c) by {
            if k > 0 {
                assert(all[k] == pieces(rest, c)[k - 1]);
            }
        }
    } else {
        assert(pieces(s, c) =~= seq![s]);
    }
}

/// Parts are joined one behind the other with the separator between them, and nothing before
/// the first and behind the last.
pub proof fn law_joining(parts: Seq<Seq<char>>, sep: Seq<char>, part: Seq<char>)
    ensures
        joined(seq![], sep) == Seq::<char>::empty(),
        joined(seq![part], sep) == part,
        parts.len() > 0 ==> joined(parts + seq![part], sep) == joined(parts, sep) + sep + part,
        parts.len() > 0 ==> joined(seq![part] + parts, sep) == part + sep + joined(parts, sep),
{
    let all = parts + seq![part];
    assert(all.drop_last() =~= parts);
    if parts.len() > 0 {
        lemma_joined_front(seq![part] + parts, sep);
        assert((seq![part] + parts).skip(1) =~= parts);
    }
}

/// What stands behind a prefix, or before a suffix, is what the text was made of; a text
/// without it is told apart.
pub proof fn law_prefixes_and_suffixes(p: Seq<char>, t: Seq<char>)
    ensures
        without_prefix(p + t, p) == Some(t),
        without_suffix(t + p, p) == Some(t),
        without_prefix(t, p) is None <==> !p.is_prefix_of(t),
        without_suffix(t, p) is None <==> !p.is_suffix_of(t),
{
    assert(p.is_prefix_of(p + t));
    assert((p + t).skip(p.len() as int) =~= t);
    assert((t + p).subrange((t + p).len() - p.len(), (t + p).len() as int) =~= p);
    assert(p.is_suffix_of(t + p));
    assert((t + p).take((t + p).len() - p.len()) =~= t);
}

proof fn lemma_trim_char_front(a: Seq<char>, c: char, s: Seq<char>)
    requires
        forall|i: int| 0 <= i < a.len() ==> #[trigger] a[i] == c,
        s.len() == 0 || s[0] != c,
    ensures
        trim_start_char(a + s, c) == s,
    decreases a.len(),
{
    if a.len() == 0 {
        assert(a + s =~= s);
    } else {
        assert(a[0] == c);
        assert forall|i: int| 0 <= i < a.skip(1).len() implies #[trigger] a.skip(1)[i] == c by {
            assert(a.skip(1)[i] == a[i + 1]);
        }
        lemma_trim_char_front(a.skip(1), c, s);
        assert((a + s).skip(1) =~= a.skip(1) + s);
    }
}

proof fn lemma_trim_char_back(s: Seq<char>, b: Seq<char>, c: char)
    requires
        forall|i: int| 0 <= i < b.len() ==> #[trigger] b[i] == c,
        s.len() == 0 || s.last() != c,
    ensures
        trim_end_char(s + b, c) == s,
    decreases b.len(),
{
    if b.len() == 0 {
        assert(s + b =~= s);
    } else {
        assert(b[b.len() - 1] == c);
        assert forall|i: int| 0 <= i < b.drop_last().len() implies #[trigger] b.drop_last()[i]
            == c by {
            assert(b.drop_last()[i] == b[i]);
        }
        lemma_trim_char_back(s, b.drop_last(), c);
        assert((s + b).drop_last() =~= s + b.drop_last());
    }
}

/// Taking a character off both ends takes all of it off and nothing else.
pub proof fn law_trimming_a_character(a: Seq<char>, s: Seq<char>, b: Seq<char>, c: char)
    requires
        forall|i: int| 0 <= i < a.len() ==> #[trigger] a[i] == c,
        forall|i: int| 0 <= i < b.len() ==> #[trigger] b[i] == c,
        s.len() > 0,
        s[0] != c,
        s.last() != c,
    ensures
        trimmed_char(a + s + b, c) == s,
        trimmed_char(a, c) == Seq::<char>::empty(),
{
    assert((s + b)[0] == s[0]);
    assert(a + s + b =~= a + (s + b));
    lemma_trim_char_front(a, c, s + b);
    lemma_trim_char_back(s, b, c);
    let none = Seq::<char>::empty();
    lemma_trim_char_front(a, c, none);
    assert(a + none =~= a);
}

/// A text is cut into lines at its line ends, which are `\n` or `\r\n` and no part of the
/// line. What stands behind the last line end is a line where it is not empty.
pub proof fn law_cutting_into_lines(line: Seq<char>, rest: Seq<char>)
    requires
        !line.contains('\n'),
    ensures
        line_list(seq![]) == Seq::<Seq<char>>::empty(),
        line.len() > 0 ==> line_list(line) == seq![line],
        line_list(line + seq!['\r', '\n'] + rest) == seq![line] + line_list(rest),
        line.len() == 0 || line.last() != '\r' ==> line_list(line + seq!['\n'] + rest) == seq![
            line,
        ] + line_list(rest),
{
    lemma_index_of(line, '\n');
    if index_of(line, '\n') < line.len() {
        assert(line.contains(line[index_of(line, '\n')]));
    }
    let plain = line + seq!['\n'] + rest;
    assert forall|j: int| 0 <= j < line.len() implies plain[j] != '\n' by {
        assert(line.contains(line[j]));
    }
    lemma_index_of_is(plain, '\n', line.len() as int);
    assert(plain.take(line.len() as int) =~= line);
    assert(plain.skip(line.len() as int + 1) =~= rest);
    let full = line + seq!['\r', '\n'] + rest;
    assert forall|j: int| 0 <= j < line.len() + 1 implies full[j] != '\n' by {
        if j < line.len() {
            assert(line.contains(line[j]));
        }
    }
    lemma_index_of_is(full, '\n', line.len() as int + 1);
    assert(full.take(line.len() as int + 1) =~= line.push('\r'));
    assert(line.push('\r').drop_last() =~= line);
    assert(full.skip(line.len() as int + 2) =~= rest);
}

/// The last line of a text is what stands behind its last line end.
pub proof fn lemma_last_line(front: Seq<char>, last: Seq<char>)
    requires
        last.len() > 0,
        !last.contains('\n'),
        front.len() == 0 || front.last() == '\n',
    ensures
        line_list(front + last).len() > 0,
        line_list(front + last).last() == last,
    decreases front.len(),
{
    let s = front + last;
    lemma_index_of(s, '\n');
    let i = index_of(s, '\n');
    if front.len() == 0 {
        assert(s =~= last);
        if i < s.len() {
            assert(last.contains(s[i]));
        }
    } else {
        if i >= front.len() {
            assert(s[front.len() - 1] == '\n');
        }
        let rest = front.skip(i + 1);
        assert(s.skip(i + 1) =~= rest + last);
        if rest.len() > 0 {
            assert(rest.last() == front.last());
        }
        lemma_last_line(rest, last);
        let tail = line_list(s.skip(i + 1));
        let all = line_list(s);
        assert(all =~= seq![without_return(s.take(i))] + tail);
        assert(all.last() == tail.last());
    }
}

/// Words are parted by white space, as much of it as there is: a word that is followed by
/// white space is the first of the words, and white space alone has none.
pub proof fn law_cutting_into_words(
    front: Seq<char>,
    word: Seq<char>,
    gap: char,
    rest: Seq<char>,
)
    requires
        blank(front),
        word.len() > 0,
        !has_whitespace(word),
        whitespace(gap),
    ensures
        word_list(front) == Seq::<Seq<char>>::empty(),
        word_list(front + word) == seq![word],
        word_list(front + word + seq![gap] + rest) == seq![word] + word_list(rest),
    decreases front.len(),
{
    let s = front + word + seq![gap] + rest;
    let end = front + word;
    if front.len() == 0 {
        assert forall|j: int| 0 <= j < word.len() implies !whitespace(s[j]) by {
            assert(s[j] == word[j]);
        }
        lemma_word_len(s);
        lemma_word_len(end);
        assert(s[word.len() as int] == gap);
        assert(word_len(s) == word.len());
        assert(s.take(word.len() as int) =~= word);
        assert(s.skip(word.len() as int) =~= seq![gap] + rest);
        assert((seq![gap] + rest).skip(1) =~= rest);
        assert(end =~= word);
        assert(whitespace(word[0]) ==> has_whitespace(word));
        assert(word_len(end) == word.len()) by {
            if word_len(end) < word.len() {
                assert(whitespace(word[word_len(end)]));
            }
        }
        assert(end.take(word.len() as int) =~= word);
        assert(end.skip(word.len() as int) =~= Seq::<char>::empty());
        assert(!whitespace(s[0]));
        reveal_with_fuel(word_list, 3);
        assert(word_list(end) =~= seq![word]);
        assert(word_list(s) =~= seq![word] + word_list(rest));
        assert(word_list(front) =~= Seq::<Seq<char>>::empty());
    } else {
        assert(whitespace(front[0]));
        assert forall|i: int| 0 <= i < front.skip(1).len() implies whitespace(
            #[trigger] front.skip(1)[i],
        ) by {
            assert(front.skip(1)[i] == front[i + 1]);
        }
        law_cutting_into_words(front.skip(1), word, gap, rest);
        assert(s.skip(1) =~= front.skip(1) + word + seq![gap] + rest);
        assert(end.skip(1) =~= front.skip(1) + word);
    }
}

/// Texts are ordered by their first difference; a text comes before every longer one that
/// begins with it.
pub proof fn law_order_of_texts(
    common: Seq<char>,
    x: char,
    a: Seq<char>,
    y: char,
    b: Seq<char>,
)
    requires
        x != y,
    ensures
        before(common + seq![x] + a, common + seq![y] + b) <==> x < y,
        before(common, common + seq![x] + a),
        !before(common, common),
    decreases common.len(),
{
    let s = common + seq![x] + a;
    let t = common + seq![y] + b;
    if common.len() > 0 {
        law_order_of_texts(common.skip(1), x, a, y, b);
        assert(s.skip(1) =~= common.skip(1) + seq![x] + a);
        assert(t.skip(1) =~= common.skip(1) + seq![y] + b);
        assert(s[0] == common[0] && t[0] == common[0]);
    } else {
        assert(s[0] == x && t[0] == y);
    }
}

/// What is cut off the front of a text is white space.
pub proof fn lemma_cut_front(s: Seq<char>)
    ensures
        trim_start(s).len() <= s.len(),
        blank(s.take(s.len() - trim_start(s).len())),
    decreases s.len(),
{
    lemma_trim_start(s);
    if s.len() > 0 && whitespace(s[0]) {
        lemma_cut_front(s.skip(1));
        let rest = s.skip(1);
        let n = s.len() - trim_start(s).len();
        assert forall|i: int| 0 <= i < n implies whitespace(#[trigger] s.take(n)[i]) by {
            if i > 0 {
                assert(rest.take(n - 1)[i - 1] == s[i]);
            }
        }
    } else {
        assert(s.take(0).len() == 0);
    }
}

} // verus!
