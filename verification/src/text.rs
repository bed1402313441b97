//! Character classes, trimming, and the line grammar of a comment body.
//!
//! Everything here is stated over `Seq<char>`, the view of a string. The
//! executable functions work on the characters of a `&str` by index.

use vstd::prelude::*;

verus! {

/// Whether `c` is white space as Unicode defines it (`White_Space`).
pub open spec fn is_whitespace(c: char) -> bool {
    let n = c as u32;
    ||| 0x09 <= n <= 0x0d
    ||| n == 0x20
    ||| n == 0x85
    ||| n == 0xa0
    ||| n == 0x1680
    ||| 0x2000 <= n <= 0x200a
    ||| n == 0x2028
    ||| n == 0x2029
    ||| n == 0x202f
    ||| n == 0x205f
    ||| n == 0x3000
}

/// `s` without its leading whitespace.
pub open spec fn trim_start(s: Seq<char>) -> Seq<char>
    decreases s.len(),
{
    if s.len() > 0 && is_whitespace(s.first()) {
        trim_start(s.drop_first())
    } else {
        s
    }
}

/// `s` without its trailing whitespace.
pub open spec fn trim_end(s: Seq<char>) -> Seq<char>
    decreases s.len(),
{
    if s.len() > 0 && is_whitespace(s.last()) {
        trim_end(s.drop_last())
    } else {
        s
    }
}

/// `s` without the whitespace that surrounds it.
pub open spec fn trimmed(s: Seq<char>) -> Seq<char> {
    trim_end(trim_start(s))
}

/// Whether a carriage return followed by a line feed stands at index `i` of `s`.
pub open spec fn crlf_at(s: Seq<char>, i: int) -> bool {
    0 <= i && i + 1 < s.len() && s[i] == '\r' && s[i + 1] == '\n'
}

/// The index of the first CRLF in `s`, or `s.len()` where there is none.
pub open spec fn first_crlf(s: Seq<char>) -> nat
    decreases s.len(),
{
    if s.len() < 2 {
        s.len()
    } else if s[0] == '\r' && s[1] == '\n' {
        0
    } else {
        1 + first_crlf(s.drop_first())
    }
}

/// The pieces of `s` between its CRLF separators, in order. A text without a
/// separator is one piece; a separator at either end leaves an empty piece
/// there. `first_crlf(s) + 2 <= s.len()` holds exactly when `s` has a separator.
pub open spec fn split_crlf(s: Seq<char>) -> Seq<Seq<char>>
    decreases s.len(),
{
    let k = first_crlf(s) as int;
    if k + 2 <= s.len() {
        seq![s.take(k)] + split_crlf(s.skip(k + 2))
    } else {
        seq![s]
    }
}

/// `lines` with a CRLF between each two neighbours.
pub open spec fn join_crlf(lines: Seq<Seq<char>>) -> Seq<char>
    decreases lines.len(),
{
    if lines.len() == 0 {
        Seq::empty()
    } else if lines.len() == 1 {
        lines[0]
    } else {
        lines[0] + seq!['\r', '\n'] + join_crlf(lines.drop_first())
    }
}

/// The members of `lines` that hold at least one character, in order.
pub open spec fn keep_nonempty(lines: Seq<Seq<char>>) -> Seq<Seq<char>> {
    lines.filter(|line: Seq<char>| line.len() > 0)
}

/// The lines of `s` that hold at least one character: it is split at every
/// CRLF, and the empty pieces are left out.
pub open spec fn nonempty_lines(s: Seq<char>) -> Seq<Seq<char>> {
    keep_nonempty(split_crlf(s))
}

/// Whether `s` consists of empty lines alone: no piece between its CRLF
/// separators holds a character.
pub open spec fn is_blank(s: Seq<char>) -> bool {
    forall|i: int| 0 <= i < split_crlf(s).len() ==> (#[trigger] split_crlf(s)[i]).len() == 0
}

/// `n` CRLF separators and nothing else.
pub open spec fn crlf_run(n: nat) -> Seq<char>
    decreases n,
{
    if n == 0 {
        Seq::empty()
    } else {
        seq!['\r', '\n'] + crlf_run((n - 1) as nat)
    }
}

/// The character for the decimal digit `d`.
pub open spec fn digit(d: int) -> char {
    if d == 0 {
        '0'
    } else if d == 1 {
        '1'
    } else if d == 2 {
        '2'
    } else if d == 3 {
        '3'
    } else if d == 4 {
        '4'
    } else if d == 5 {
        '5'
    } else if d == 6 {
        '6'
    } else if d == 7 {
        '7'
    } else if d == 8 {
        '8'
    } else {
        '9'
    }
}

/// `n` in decimal: no sign, no padding, no leading zero but for zero itself.
pub open spec fn decimal(n: nat) -> Seq<char>
    decreases n,
{
    if n < 10 {
        seq![digit(n as int)]
    } else {
        decimal(n / 10).push(digit((n % 10) as int))
    }
}

/// The views of a sequence of strings.
pub open spec fn views(v: Seq<String>) -> Seq<Seq<char>> {
    v.map_values(|s: String| s@)
}

/// `first_crlf` is the least index at which a CRLF stands.
pub proof fn lemma_first_crlf(s: Seq<char>)
    ensures
        first_crlf(s) <= s.len(),
        forall|j: int| 0 <= j < first_crlf(s) ==> !crlf_at(s, j),
        first_crlf(s) < s.len() ==> crlf_at(s, first_crlf(s) as int),
    decreases s.len(),
{
    if s.len() >= 2 && !(s[0] == '\r' && s[1] == '\n') {
        let t = s.drop_first();
        lemma_first_crlf(t);
        assert forall|j: int| 0 <= j < first_crlf(s) implies !crlf_at(s, j) by {
            if j > 0 {
                assert(!crlf_at(t, j - 1));
            }
        }
    }
}

/// An index with no CRLF before it, at which a CRLF stands or the text ends,
/// is `first_crlf`.
pub proof fn lemma_first_crlf_is(s: Seq<char>, k: int)
    requires
        0 <= k <= s.len(),
        forall|j: int| 0 <= j < k ==> !crlf_at(s, j),
        k == s.len() || crlf_at(s, k),
    ensures
        first_crlf(s) == k,
{
    lemma_first_crlf(s);
    let f = first_crlf(s) as int;
    if f < k {
        assert(crlf_at(s, f));
    }
}

/// Splitting loses nothing and cuts at every separator: the pieces, joined
/// by CRLF again, are the text, and no piece holds a CRLF.
pub proof fn lemma_split_crlf_rejoins(s: Seq<char>)
    ensures
        split_crlf(s).len() >= 1,
        join_crlf(split_crlf(s)) == s,
        forall|i: int, j: int|
            0 <= i < split_crlf(s).len() ==> !#[trigger] crlf_at(split_crlf(s)[i], j),
    decreases s.len(),
{
    lemma_first_crlf(s);
    let k = first_crlf(s) as int;
    if k + 2 <= s.len() {
        let rest = s.skip(k + 2);
        let pieces = split_crlf(s);
        lemma_split_crlf_rejoins(rest);
        assert(pieces.drop_first() == split_crlf(rest));
        assert(s.take(k) + seq!['\r', '\n'] + rest == s);
        assert forall|i: int, j: int| 0 <= i < pieces.len() implies !#[trigger] crlf_at(
            pieces[i],
            j,
        ) by {
            if i == 0 {
                if crlf_at(s.take(k), j) {
                    assert(crlf_at(s, j));
                }
            } else {
                assert(pieces[i] == split_crlf(rest)[i - 1]);
            }
        }
    } else {
        assert forall|j: int| !crlf_at(s, j) by {
            if crlf_at(s, j) {
                assert(j < k);
            }
        }
    }
}

/// Appending a line to a list keeps it exactly when it has content.
pub proof fn lemma_keep_nonempty_push(lines: Seq<Seq<char>>, line: Seq<char>)
    ensures
        keep_nonempty(lines.push(line)) == if line.len() > 0 {
            keep_nonempty(lines).push(line)
        } else {
            keep_nonempty(lines)
        },
{
    reveal(Seq::filter);
    assert(lines.push(line).drop_last() == lines);
}

/// A list of empty lines keeps none.
pub proof fn lemma_keep_nonempty_of_empty_lines(lines: Seq<Seq<char>>)
    requires
        forall|i: int| 0 <= i < lines.len() ==> (#[trigger] lines[i]).len() == 0,
    ensures
        keep_nonempty(lines).len() == 0,
    decreases lines.len(),
{
    reveal(Seq::filter);
    if lines.len() > 0 {
        lemma_keep_nonempty_of_empty_lines(lines.drop_last());
    }
}

/// A text of empty lines alone has no non-empty line.
pub proof fn lemma_blank_has_no_lines(s: Seq<char>)
    requires
        is_blank(s),
    ensures
        nonempty_lines(s).len() == 0,
{
    lemma_keep_nonempty_of_empty_lines(split_crlf(s));
}

/// A run of `n` separators falls into `n + 1` empty lines.
pub proof fn lemma_crlf_run_is_blank(n: nat)
    ensures
        split_crlf(crlf_run(n)).len() == n + 1,
        is_blank(crlf_run(n)),
    decreases n,
{
    let s = crlf_run(n);
    if n > 0 {
        let rest = crlf_run((n - 1) as nat);
        lemma_crlf_run_is_blank((n - 1) as nat);
        assert(s[0] == '\r' && s[1] == '\n');
        assert(s.skip(2) == rest);
        assert(s.take(0).len() == 0);
        assert forall|i: int| 0 <= i < split_crlf(s).len() implies (#[trigger] split_crlf(
            s,
        )[i]).len() == 0 by {
            if i > 0 {
                assert(split_crlf(s)[i] == split_crlf(rest)[i - 1]);
            }
        }
    }
}

/// Tests whether a character is white space as Unicode defines it.
pub fn char_is_whitespace(c: char) -> (b: bool)
    ensures
        b == is_whitespace(c),
{
    let n: u32 = c as u32;
    (0x09 <= n && n <= 0x0d) || n == 0x20 || n == 0x85 || n == 0xa0 || n == 0x1680 || (0x2000 <= n
        && n <= 0x200a) || n == 0x2028 || n == 0x2029 || n == 0x202f || n == 0x205f || n == 0x3000
}

/// The characters of `s`, one element for one character.
pub fn chars_of(s: &str) -> (v: Vec<char>)
    ensures
        v@ == s@,
{
    let mut v: Vec<char> = Vec::new();
    for c in it: s.chars()
        invariant
            it.seq() == s@,
            v@ == it.seq().take(it.index() as int),
    {
        v.push(c);
    }
    v
}

/// The bounds of what trimming leaves of the characters `from..to` of `v`.
pub fn trim_bounds(v: &Vec<char>, from: usize, to: usize) -> (r: (usize, usize))
    requires
        from <= to <= v.len(),
    ensures
        from <= r.0 <= r.1 <= to,
        v@.subrange(r.0 as int, r.1 as int) == trimmed(v@.subrange(from as int, to as int)),
{
    let mut a: usize = from;
    while a < to && char_is_whitespace(v[a])
        invariant
            from <= a <= to <= v.len(),
            trim_start(v@.subrange(from as int, to as int)) == trim_start(
                v@.subrange(a as int, to as int),
            ),
        decreases to - a,
    {
        assert(v@.subrange(a as int, to as int).drop_first() == v@.subrange(a + 1, to as int));
        a = a + 1;
    }
    let mut b: usize = to;
    while b > a && char_is_whitespace(v[b - 1])
        invariant
            a <= b <= to <= v.len(),
            trim_end(v@.subrange(a as int, to as int)) == trim_end(v@.subrange(a as int, b as int)),
        decreases b - a,
    {
        assert(v@.subrange(a as int, b as int).drop_last() == v@.subrange(a as int, b - 1));
        b = b - 1;
    }
    (a, b)
}

/// The bounds in `v` of its non-empty lines, in order.
pub fn line_bounds(v: &Vec<char>) -> (r: Vec<(usize, usize)>)
    ensures
        r@.len() == nonempty_lines(v@).len(),
        forall|k: int|
            0 <= k < r@.len() ==> (#[trigger] r@[k]).0 < r@[k].1 <= v@.len() && v@.subrange(
                r@[k].0 as int,
                r@[k].1 as int,
            ) == nonempty_lines(v@)[k],
{
    let n = v.len();
    let mut r: Vec<(usize, usize)> = Vec::new();
    let mut start: usize = 0;
    let mut i: usize = 0;
    let ghost mut done: Seq<Seq<char>> = Seq::empty();
    assert(v@.skip(0) == v@);
    while i < n
        invariant
            start <= i <= n == v@.len(),
            forall|j: int| start <= j < i ==> !crlf_at(v@, j),
            split_crlf(v@) == done + split_crlf(v@.skip(start as int)),
            r@.len() == keep_nonempty(done).len(),
            forall|k: int|
                0 <= k < r@.len() ==> (#[trigger] r@[k]).0 < r@[k].1 <= n && v@.subrange(
                    r@[k].0 as int,
                    r@[k].1 as int,
                ) == keep_nonempty(done)[k],
        decreases n - i,
    {
        if v[i] == '\r' && i + 1 < n && v[i + 1] == '\n' {
            proof {
                let rest = v@.skip(start as int);
                let line = v@.subrange(start as int, i as int);
                assert forall|j: int| 0 <= j < i - start implies !crlf_at(rest, j) by {
                    assert(!crlf_at(v@, start + j));
                }
                assert(crlf_at(rest, i - start));
                lemma_first_crlf_is(rest, i - start);
                assert(rest.take(i - start) == line);
                assert(rest.skip(i - start + 2) == v@.skip(i + 2));
                assert(done + (seq![line] + split_crlf(v@.skip(i + 2))) == done.push(line)
                    + split_crlf(v@.skip(i + 2)));
                lemma_keep_nonempty_push(done, line);
                done = done.push(line);
            }
            if i > start {
                r.push((start, i));
            }
            start = i + 2;
            i = i + 2;
        } else {
            i = i + 1;
        }
    }
    proof {
        let rest = v@.skip(start as int);
        assert forall|j: int| 0 <= j < rest.len() implies !crlf_at(rest, j) by {
            assert(!crlf_at(v@, start + j));
        }
        lemma_first_crlf_is(rest, rest.len() as int);
        assert(rest == v@.subrange(start as int, n as int));
        assert(done + seq![rest] == done.push(rest));
        lemma_keep_nonempty_push(done, rest);
    }
    if n > start {
        r.push((start, n));
    }
    r
}

/// The one-character text of the decimal digit `d`.
fn digit_text(d: u64) -> (r: &'static str)
    requires
        d < 10,
    ensures
        r@ == seq![digit(d as int)],
{
    proof {
        reveal_strlit("0");
        reveal_strlit("1");
        reveal_strlit("2");
        reveal_strlit("3");
        reveal_strlit("4");
        reveal_strlit("5");
        reveal_strlit("6");
        reveal_strlit("7");
        reveal_strlit("8");
        reveal_strlit("9");
    }
    let r = if d == 0 {
        "0"
    } else if d == 1 {
        "1"
    } else if d == 2 {
        "2"
    } else if d == 3 {
        "3"
    } else if d == 4 {
        "4"
    } else if d == 5 {
        "5"
    } else if d == 6 {
        "6"
    } else if d == 7 {
        "7"
    } else if d == 8 {
        "8"
    } else {
        "9"
    };
    assert(r@ =~= seq![digit(d as int)]);
    r
}

/// Writes `n` in decimal.
pub fn format_decimal(n: u64) -> (r: String)
    ensures
        r@ == decimal(n as nat),
    decreases n,
{
    let mut r = if n < 10 {
        String::new()
    } else {
        format_decimal(n / 10)
    };
    r.append(digit_text(n % 10));
    assert(r@ =~= decimal(n as nat));
    r
}

/// `s` without the whitespace that surrounds it.
pub fn trim(s: &str) -> (r: String)
    ensures
        r@ == trimmed(s@),
{
    let v = chars_of(s);
    let (a, b) = trim_bounds(&v, 0, v.len());
    assert(v@.subrange(0, v.len() as int) == v@);
    s.substring_char(a, b).to_owned()
}

} // verus!
