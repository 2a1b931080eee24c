//! Text primitives, stated over sequences of characters.
//!
//! Every string in this crate is modelled by its view, a `Seq<char>`. The
//! functions here are the only places where characters are inspected one by
//! one; everything else is built from them.

use vstd::prelude::*;

verus! {

/// `String::push` appends one character.
pub assume_specification[ std::string::String::push ](s: &mut std::string::String, c: char)
    ensures
        final(s)@ == old(s)@.push(c),
;

/// `pat` occurs in `text` starting at position `i`.
pub open spec fn occurs_at(text: Seq<char>, pat: Seq<char>, i: int) -> bool {
    0 <= i && i + pat.len() <= text.len() && text.subrange(i, i + pat.len()) == pat
}

/// `pat` occurs somewhere in `text`.
pub open spec fn is_substring(pat: Seq<char>, text: Seq<char>) -> bool {
    exists|i: int| occurs_at(text, pat, i)
}

/// `text` with every occurrence of `from` replaced by `to`, scanning from the
/// left and never looking again at what was already replaced. An empty `from`
/// occurs nowhere.
pub open spec fn replace_all(text: Seq<char>, from: Seq<char>, to: Seq<char>) -> Seq<char>
    decreases text.len(),
{
    if from.len() == 0 || text.len() < from.len() {
        text
    } else if text.subrange(0, from.len() as int) == from {
        to + replace_all(text.subrange(from.len() as int, text.len() as int), from, to)
    } else {
        seq![text[0]] + replace_all(text.subrange(1, text.len() as int), from, to)
    }
}

/// The character that stands for the digit `d`.
pub open spec fn digit_char(d: nat) -> char {
    if d == 0 {
        '0'
    } else if d == 1 {
        '1'
    } else if d == 2 {
        '2'
    } else if d == 3 {
        '3'
    } else if d == 4 {
        '4'
    } else if d == 5 {
        '5'
    } else if d == 6 {
        '6'
    } else if d == 7 {
        '7'
    } else if d == 8 {
        '8'
    } else {
        '9'
    }
}

/// `n` written in base ten, without leading zeros.
pub open spec fn decimal(n: nat) -> Seq<char>
    decreases n,
{
    if n < 10 {
        seq![digit_char(n)]
    } else {
        decimal(n / 10).push(digit_char(n % 10))
    }
}

/// `line` without the carriage return that it may end in.
pub open spec fn without_return(line: Seq<char>) -> Seq<char> {
    if line.len() > 0 && line.last() == '\r' {
        line.drop_last()
    } else {
        line
    }
}

/// The lines of `text` from the position `at` on, where the line that `at`
/// lies in begins at `start`.
pub open spec fn lines_from(text: Seq<char>, start: int, at: int) -> Seq<Seq<char>>
    decreases text.len() - at,
{
    if at >= text.len() {
        if start < text.len() {
            seq![text.subrange(start, text.len() as int)]
        } else {
            Seq::empty()
        }
    } else if text[at] == '\n' {
        seq![without_return(text.subrange(start, at))] + lines_from(text, at + 1, at + 1)
    } else {
        lines_from(text, start, at + 1)
    }
}

/// The lines of `text`: what stands between its line feeds, each without the
/// carriage return before the line feed. A line feed at the very end begins
/// no further line, and a last line without line feed is kept as it is.
pub open spec fn lines_of(text: Seq<char>) -> Seq<Seq<char>> {
    lines_from(text, 0, 0)
}

/// `lines` with a line feed between each two of them.
pub open spec fn joined(lines: Seq<Seq<char>>) -> Seq<char>
    decreases lines.len(),
{
    if lines.len() == 0 {
        Seq::empty()
    } else if lines.len() == 1 {
        lines[0]
    } else {
        joined(lines.drop_last()) + seq!['\n'] + lines.last()
    }
}

/// `n` written in base ten, with a minus sign where it is negative.
pub open spec fn signed_decimal(n: int) -> Seq<char> {
    if n < 0 {
        seq!['-'] + decimal((-n) as nat)
    } else {
        decimal(n as nat)
    }
}

/// The first line of `text`: what stands before the first line feed, without
/// the carriage return that may precede it. The whole text if it holds no
/// line feed.
pub open spec fn first_line(text: Seq<char>) -> Seq<char> {
    let end = first_index_of(text, '\n');
    if end < text.len() && end > 0 && text[end - 1] == '\r' {
        text.subrange(0, end - 1)
    } else {
        text.subrange(0, end)
    }
}

/// The least index at which `c` stands in `text`, or the length of `text`.
pub open spec fn first_index_of(text: Seq<char>, c: char) -> int
    decreases text.len(),
{
    if text.len() == 0 {
        0
    } else if text[0] == c {
        0
    } else {
        1 + first_index_of(text.subrange(1, text.len() as int), c)
    }
}

pub proof fn lemma_first_index_of(text: Seq<char>, c: char)
    ensures
        0 <= first_index_of(text, c) <= text.len(),
        first_index_of(text, c) < text.len() ==> text[first_index_of(text, c)] == c,
        forall|j: int| 0 <= j < first_index_of(text, c) ==> text[j] != c,
    decreases text.len(),
{
    if text.len() > 0 && text[0] != c {
        let rest = text.subrange(1, text.len() as int);
        lemma_first_index_of(rest, c);
        assert forall|j: int| 0 <= j < first_index_of(text, c) implies text[j] != c by {
            if j > 0 {
                assert(rest[j - 1] == text[j]);
            }
        }
    }
}

/// The characters of `s`, in order.
pub fn to_chars(s: &str) -> (v: Vec<char>)
    ensures
        v@ == s@,
{
    let mut v: Vec<char> = Vec::new();
    for c in it: s.chars()
        invariant
            v@ == it.seq().take(it.index()),
            it.seq() == s@,
    {
        v.push(c);
    }
    v
}

/// The string whose characters are `v`.
pub fn from_chars(v: &Vec<char>) -> (s: String)
    ensures
        s@ == v@,
{
    let mut s = String::new();
    let mut i: usize = 0;
    while i < v.len()
        invariant
            i <= v.len(),
            s@ == v@.take(i as int),
        decreases v.len() - i,
    {
        s.push(v[i]);
        i = i + 1;
    }
    s
}

/// Whether `pat` stands in `text` at position `i`.
pub fn matches_at(text: &Vec<char>, pat: &Vec<char>, i: usize) -> (b: bool)
    ensures
        b == occurs_at(text@, pat@, i as int),
{
    if pat.len() > text.len() || i > text.len() - pat.len() {
        return false;
    }
    let mut k: usize = 0;
    while k < pat.len()
        invariant
            k <= pat.len(),
            i + pat.len() <= text.len(),
            forall|j: int| 0 <= j < k ==> text@[i + j] == pat@[j],
        decreases pat.len() - k,
    {
        if text[i + k] != pat[k] {
            return false;
        }
        k = k + 1;
    }
    proof {
        assert(text@.subrange(i as int, i + pat.len()) =~= pat@);
    }
    true
}

/// Whether `pat` occurs in `text`.
pub fn contains_chars(text: &Vec<char>, pat: &Vec<char>) -> (b: bool)
    ensures
        b == is_substring(pat@, text@),
{
    if pat.len() > text.len() {
        return false;
    }
    if pat.len() == 0 {
        proof {
            assert(text@.subrange(0, 0) =~= pat@);
            assert(occurs_at(text@, pat@, 0));
        }
        return true;
    }
    let last: usize = text.len() - pat.len();
    let mut i: usize = 0;
    while i <= last
        invariant
            last == text.len() - pat.len(),
            pat.len() > 0,
            i <= last + 1,
            forall|j: int| 0 <= j < i ==> !occurs_at(text@, pat@, j),
        decreases last + 1 - i,
    {
        if matches_at(text, pat, i) {
            return true;
        }
        i = i + 1;
    }
    false
}

/// Whether `pat` occurs in `text`.
pub fn contains(text: &str, pat: &str) -> (b: bool)
    ensures
        b == is_substring(pat@, text@),
{
    let t = to_chars(text);
    let p = to_chars(pat);
    contains_chars(&t, &p)
}

/// `text` with every occurrence of `from` replaced by `to`.
pub fn replace_chars(text: &Vec<char>, from: &Vec<char>, to: &Vec<char>) -> (out: Vec<char>)
    ensures
        out@ == replace_all(text@, from@, to@),
{
    let mut out: Vec<char> = Vec::new();
    if from.len() == 0 {
        let mut j: usize = 0;
        while j < text.len()
            invariant
                j <= text.len(),
                out@ == text@.take(j as int),
            decreases text.len() - j,
        {
            out.push(text[j]);
            j = j + 1;
        }
        return out;
    }
    let mut i: usize = 0;
    proof {
        assert(text@.subrange(0, text.len() as int) =~= text@);
    }
    while i < text.len()
        invariant
            i <= text.len(),
            from.len() > 0,
            replace_all(text@, from@, to@) == out@ + replace_all(
                text@.subrange(i as int, text.len() as int),
                from@,
                to@,
            ),
        decreases text.len() - i,
    {
        let ghost rest = text@.subrange(i as int, text.len() as int);
        if matches_at(text, from, i) {
            let mut k: usize = 0;
            let ghost before = out@;
            while k < to.len()
                invariant
                    k <= to.len(),
                    out@ == before + to@.take(k as int),
                decreases to.len() - k,
            {
                out.push(to[k]);
                k = k + 1;
            }
            proof {
                assert(rest.subrange(0, from.len() as int) =~= text@.subrange(
                    i as int,
                    i + from.len(),
                ));
                assert(rest.subrange(from.len() as int, rest.len() as int) =~= text@.subrange(
                    i + from.len(),
                    text.len() as int,
                ));
                assert(out@ + replace_all(
                    text@.subrange(i + from.len(), text.len() as int),
                    from@,
                    to@,
                ) =~= before + replace_all(rest, from@, to@));
            }
            i = i + from.len();
        } else {
            out.push(text[i]);
            proof {
                assert(rest.subrange(1, rest.len() as int) =~= text@.subrange(
                    i + 1,
                    text.len() as int,
                ));
                if rest.len() >= from.len() {
                    assert(rest.subrange(0, from.len() as int) =~= text@.subrange(
                        i as int,
                        i + from.len(),
                    ));
                    assert(out@ + replace_all(
                        text@.subrange(i + 1, text.len() as int),
                        from@,
                        to@,
                    ) =~= out@.drop_last() + replace_all(rest, from@, to@));
                } else {
                    lemma_replace_short(rest, from@, to@);
                    lemma_replace_short(rest.subrange(1, rest.len() as int), from@, to@);
                }
            }
            i = i + 1;
        }
    }
    out
}

/// A text shorter than `from` holds no occurrence of it.
pub proof fn lemma_replace_short(text: Seq<char>, from: Seq<char>, to: Seq<char>)
    requires
        text.len() < from.len(),
    ensures
        replace_all(text, from, to) == text,
{
}

/// `text` with every occurrence of `from` replaced by `to`.
pub fn replace(text: &str, from: &str, to: &str) -> (out: String)
    ensures
        out@ == replace_all(text@, from@, to@),
{
    let t = to_chars(text);
    let f = to_chars(from);
    let r = to_chars(to);
    let o = replace_chars(&t, &f, &r);
    from_chars(&o)
}

/// The digit `d` as a character.
pub fn digit(d: u64) -> (c: char)
    requires
        d < 10,
    ensures
        c == digit_char(d as nat),
{
    if d == 0 {
        '0'
    } else if d == 1 {
        '1'
    } else if d == 2 {
        '2'
    } else if d == 3 {
        '3'
    } else if d == 4 {
        '4'
    } else if d == 5 {
        '5'
    } else if d == 6 {
        '6'
    } else if d == 7 {
        '7'
    } else if d == 8 {
        '8'
    } else {
        '9'
    }
}

/// `n` in base ten.
pub fn decimal_string(n: u64) -> (s: String)
    ensures
        s@ == decimal(n as nat),
{
    let mut low_first: Vec<char> = Vec::new();
    low_first.push(digit(n % 10));
    let mut m: u64 = n / 10;
    while m > 0
        invariant
            low_first.len() > 0,
            m > 0 ==> decimal(n as nat) == decimal(m as nat) + low_first@.reverse(),
            m == 0 ==> decimal(n as nat) == low_first@.reverse(),
        decreases m,
    {
        let ghost prev = low_first@;
        low_first.push(digit(m % 10));
        proof {
            if m >= 10 {
                assert(decimal((m / 10) as nat).push(digit_char((m % 10) as nat)) + prev.reverse()
                    =~= decimal((m / 10) as nat) + low_first@.reverse());
            }
        }
        m = m / 10;
    }
    let mut s = String::new();
    let mut i: usize = low_first.len();
    while i > 0
        invariant
            i <= low_first.len(),
            s@ == low_first@.reverse().take(low_first.len() - i),
        decreases i,
    {
        i = i - 1;
        s.push(low_first[i]);
    }
    s
}

/// `n` in base ten, with a minus sign where it is negative.
pub fn signed_decimal_string(n: i64) -> (s: String)
    ensures
        s@ == signed_decimal(n as int),
{
    if n < 0 {
        let magnitude: u64 = if n == i64::MIN {
            9223372036854775808u64
        } else {
            (-n) as u64
        };
        let digits = decimal_string(magnitude);
        proof {
            reveal_strlit("-");
        }
        concat("-", digits.as_str())
    } else {
        decimal_string(n as u64)
    }
}

/// The first line of `text`.
pub fn first_line_of(text: &str) -> (s: String)
    ensures
        s@ == first_line(text@),
{
    let t = to_chars(text);
    let mut end: usize = 0;
    while end < t.len() && t[end] != '\n'
        invariant
            end <= t.len(),
            forall|j: int| 0 <= j < end ==> t@[j] != '\n',
        decreases t.len() - end,
    {
        end = end + 1;
    }
    proof {
        lemma_first_index_of(t@, '\n');
    }
    let stop: usize = if end < t.len() && end > 0 && t[end - 1] == '\r' {
        end - 1
    } else {
        end
    };
    let mut s = String::new();
    let mut i: usize = 0;
    while i < stop
        invariant
            i <= stop <= t.len(),
            s@ == t@.subrange(0, i as int),
        decreases stop - i,
    {
        s.push(t[i]);
        i = i + 1;
    }
    s
}

/// Whether `a` and `b` hold the same characters.
pub fn same_text(a: &str, b: &str) -> (r: bool)
    ensures
        r == (a@ == b@),
{
    let x = a.to_owned();
    let y = b.to_owned();
    x == y
}

/// A copy of an optional text.
pub fn clone_opt(o: &Option<String>) -> (r: Option<String>)
    ensures
        r == *o,
{
    match o {
        Some(s) => Some(s.clone()),
        None => None,
    }
}

/// A copy of a list of texts.
pub fn clone_list(v: &Vec<String>) -> (r: Vec<String>)
    ensures
        r@ == v@,
{
    let mut r: Vec<String> = Vec::new();
    let mut i: usize = 0;
    while i < v.len()
        invariant
            i <= v.len(),
            r@ == v@.take(i as int),
        decreases v.len() - i,
    {
        r.push(v[i].clone());
        i = i + 1;
    }
    r
}

/// The view of an optional text.
pub open spec fn opt_text(o: Option<String>) -> Option<Seq<char>> {
    match o {
        Some(s) => Some(s@),
        None => None,
    }
}

/// The views of a list of texts.
pub open spec fn texts(v: Seq<String>) -> Seq<Seq<char>> {
    v.map_values(|s: String| s@)
}

/// The view of an optional borrowed text.
pub open spec fn opt_ref_text(o: Option<&String>) -> Option<Seq<char>> {
    match o {
        Some(s) => Some(s@),
        None => None,
    }
}

/// Whether `key` is one of the texts of `list`.
pub fn list_contains(list: &Vec<String>, key: &str) -> (b: bool)
    ensures
        b == texts(list@).contains(key@),
{
    let mut i: usize = 0;
    while i < list.len()
        invariant
            i <= list.len(),
            forall|j: int| 0 <= j < i ==> list@[j]@ != key@,
        decreases list.len() - i,
    {
        if same_text(list[i].as_str(), key) {
            proof {
                assert(texts(list@)[i as int] == key@);
            }
            return true;
        }
        i = i + 1;
    }
    false
}

/// The lines of `text`.
pub fn split_lines(text: &str) -> (lines: Vec<String>)
    ensures
        texts(lines@) == lines_of(text@),
{
    let chars = to_chars(text);
    let mut lines: Vec<String> = Vec::new();
    let mut start: usize = 0;
    let mut at: usize = 0;
    while at < chars.len()
        invariant
            start <= at <= chars.len(),
            chars@ == text@,
            lines_of(text@) == texts(lines@) + lines_from(chars@, start as int, at as int),
        decreases chars.len() - at,
    {
        if chars[at] == '\n' {
            let stop: usize = if at > start && chars[at - 1] == '\r' {
                at - 1
            } else {
                at
            };
            let line = slice_string(&chars, start, stop);
            let ghost before = lines@;
            proof {
                let whole = chars@.subrange(start as int, at as int);
                assert(line@ =~= without_return(whole));
            }
            lines.push(line);
            proof {
                assert(texts(lines@) + lines_from(chars@, at + 1, at + 1) =~= texts(before)
                    + lines_from(chars@, start as int, at as int));
            }
            start = at + 1;
        }
        at = at + 1;
    }
    if start < chars.len() {
        let line = slice_string(&chars, start, chars.len());
        let ghost before = lines@;
        lines.push(line);
        proof {
            assert(texts(lines@) =~= texts(before) + lines_from(
                chars@,
                start as int,
                chars.len() as int,
            ));
        }
    } else {
        proof {
            assert(texts(lines@) + lines_from(chars@, start as int, chars.len() as int)
                =~= texts(lines@));
        }
    }
    lines
}

/// The characters of `chars` from `from` up to `to` as a string.
pub fn slice_string(chars: &Vec<char>, from: usize, to: usize) -> (s: String)
    requires
        from <= to <= chars.len(),
    ensures
        s@ == chars@.subrange(from as int, to as int),
{
    let mut s = String::new();
    let mut i: usize = from;
    while i < to
        invariant
            from <= i <= to <= chars.len(),
            s@ == chars@.subrange(from as int, i as int),
        decreases to - i,
    {
        s.push(chars[i]);
        i = i + 1;
    }
    s
}

/// The first `count` of `lines`, with a line feed between each two.
pub fn join_first(lines: &Vec<String>, count: usize) -> (s: String)
    requires
        count <= lines.len(),
    ensures
        s@ == joined(texts(lines@).take(count as int)),
{
    let mut s = String::new();
    let mut i: usize = 0;
    while i < count
        invariant
            i <= count <= lines.len(),
            s@ == joined(texts(lines@).take(i as int)),
        decreases count - i,
    {
        proof {
            let next = texts(lines@).take(i + 1);
            assert(next.drop_last() =~= texts(lines@).take(i as int));
            reveal_strlit("\n");
        }
        if i > 0 {
            s.append("\n");
        }
        s.append(lines[i].as_str());
        i = i + 1;
    }
    s
}

/// `a` followed by `b`.
pub fn concat(a: &str, b: &str) -> (s: String)
    ensures
        s@ == a@ + b@,
{
    let mut s = a.to_owned();
    s.append(b);
    s
}

} // verus!
