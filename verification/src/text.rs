//! Character-level helpers on which the rest of the crate builds its strings.

use vstd::prelude::*;
use vstd::string::*;

verus! {

/// Appends one character to a string. Specifies `String::push`: the text
/// afterwards is the text before with `c` added at the end.
#[verifier::external_body]
fn push_char(s: &mut String, c: char)
    ensures
        final(s)@ == old(s)@.push(c),
{
    s.push(c)
}

/// The text that `String::from_utf8_lossy` makes of `bytes`: their reading as
/// UTF-8, with the replacement character in place of what is not valid.
pub uninterp spec fn utf8_lossy(bytes: Seq<u8>) -> Seq<char>;

/// Reads bytes as text, whatever they hold. Specifies
/// `String::from_utf8_lossy`: the text depends on the bytes alone.
#[verifier::external_body]
pub(crate) fn lossy_text(bytes: &Vec<u8>) -> (text: String)
    ensures
        text@ == utf8_lossy(bytes@),
{
    String::from_utf8_lossy(bytes).into_owned()
}

/// The characters of `s`, in order.
pub fn to_chars(s: &str) -> (v: Vec<char>)
    ensures
        v@ == s@,
{
    let n = s.unicode_len();
    let mut v: Vec<char> = Vec::new();
    let mut i: usize = 0;
    while i < n
        invariant
            n == s@.len(),
            i <= n,
            v@ == s@.subrange(0, i as int),
        decreases n - i,
    {
        let c = s.get_char(i);
        v.push(c);
        i = i + 1;
    }
    v
}

/// The string made of the characters of `v`, in order.
pub fn from_chars(v: &Vec<char>) -> (s: String)
    ensures
        s@ == v@,
{
    let mut s = String::new();
    let mut i: usize = 0;
    while i < v.len()
        invariant
            i <= v.len(),
            s@ == v@.subrange(0, i as int),
        decreases v.len() - i,
    {
        push_char(&mut s, v[i]);
        i = i + 1;
    }
    s
}

/// The character that writes the digit `d` in base ten.
pub open spec fn digit_char(d: nat) -> char
    recommends
        d < 10,
{
    if d == 0 {
        '0'
    } else if d == 1 {
        '1'
    } else if d == 2 {
        '2'
    } else if d == 3 {
        '3'
    } else if d == 4 {
        '4'
    } else if d == 5 {
        '5'
    } else if d == 6 {
        '6'
    } else if d == 7 {
        '7'
    } else if d == 8 {
        '8'
    } else {
        '9'
    }
}

/// The base-ten numeral of `n`: no sign, no leading zero, `"0"` for zero.
pub open spec fn decimal(n: nat) -> Seq<char>
    decreases n,
{
    if n < 10 {
        seq![digit_char(n)]
    } else {
        decimal(n / 10).push(digit_char(n % 10))
    }
}

/// A numeral is never empty.
pub proof fn lemma_decimal_nonempty(n: nat)
    ensures
        decimal(n).len() >= 1,
    decreases n,
{
    if n >= 10 {
        lemma_decimal_nonempty(n / 10);
    }
}

fn digit_of(d: u128) -> (c: char)
    requires
        d < 10,
    ensures
        c == digit_char(d as nat),
{
    if d == 0 {
        '0'
    } else if d == 1 {
        '1'
    } else if d == 2 {
        '2'
    } else if d == 3 {
        '3'
    } else if d == 4 {
        '4'
    } else if d == 5 {
        '5'
    } else if d == 6 {
        '6'
    } else if d == 7 {
        '7'
    } else if d == 8 {
        '8'
    } else {
        '9'
    }
}

/// Appends the base-ten numeral of `n` to `out`.
pub fn push_decimal(out: &mut Vec<char>, n: u128)
    ensures
        final(out)@ == old(out)@ + decimal(n as nat),
    decreases n,
{
    if n < 10 {
        out.push(digit_of(n));
        assert(out@ =~= old(out)@ + decimal(n as nat));
    } else {
        push_decimal(out, n / 10);
        out.push(digit_of(n % 10));
        assert(out@ =~= old(out)@ + decimal(n as nat));
    }
}

/// Appends the characters of `s` to `out`.
pub fn push_str(out: &mut Vec<char>, s: &str)
    ensures
        final(out)@ == old(out)@ + s@,
{
    let n = s.unicode_len();
    let mut i: usize = 0;
    while i < n
        invariant
            n == s@.len(),
            i <= n,
            out@ == old(out)@ + s@.subrange(0, i as int),
        decreases n - i,
    {
        let c = s.get_char(i);
        out.push(c);
        i = i + 1;
    }
    assert(s@.subrange(0, n as int) =~= s@);
}

/// Appends the characters of `v` to `out`.
pub fn push_chars(out: &mut Vec<char>, v: &Vec<char>)
    ensures
        final(out)@ == old(out)@ + v@,
{
    let mut i: usize = 0;
    while i < v.len()
        invariant
            i <= v.len(),
            out@ == old(out)@ + v@.subrange(0, i as int),
        decreases v.len() - i,
    {
        out.push(v[i]);
        i = i + 1;
    }
    assert(v@.subrange(0, v.len() as int) =~= v@);
}

/// `pat` stands in `s` at index `i`.
pub open spec fn occurs_at(s: Seq<char>, pat: Seq<char>, i: int) -> bool {
    0 <= i && i + pat.len() <= s.len() && s.subrange(i, i + pat.len()) == pat
}

/// `pat` stands somewhere in `s`.
pub open spec fn occurs(s: Seq<char>, pat: Seq<char>) -> bool {
    exists|i: int| occurs_at(s, pat, i)
}

/// `pat` stands in `s` at index `i` and nowhere further right.
pub open spec fn is_last_occurrence(s: Seq<char>, pat: Seq<char>, i: int) -> bool {
    occurs_at(s, pat, i) && forall|j: int| i < j ==> !occurs_at(s, pat, j)
}

/// The index of the rightmost occurrence of `pat` in `s`, if there is one.
pub open spec fn rfind(s: Seq<char>, pat: Seq<char>) -> Option<int> {
    if exists|i: int| is_last_occurrence(s, pat, i) {
        Some(choose|i: int| is_last_occurrence(s, pat, i))
    } else {
        None
    }
}

/// `s` ends with `suffix`.
pub open spec fn ends_with(s: Seq<char>, suffix: Seq<char>) -> bool {
    suffix.len() <= s.len() && s.subrange(s.len() - suffix.len(), s.len() as int) == suffix
}

/// There is at most one rightmost occurrence.
pub proof fn lemma_last_occurrence_unique(s: Seq<char>, pat: Seq<char>, i: int)
    requires
        is_last_occurrence(s, pat, i),
    ensures
        rfind(s, pat) == Some(i),
{
    let j = choose|j: int| is_last_occurrence(s, pat, j);
    assert(is_last_occurrence(s, pat, j));
    if j < i {
        assert(!occurs_at(s, pat, i));
    } else if i < j {
        assert(!occurs_at(s, pat, j));
    }
}

/// Whether `pat` stands in `s` at index `i`.
pub fn matches_at(s: &Vec<char>, pat: &Vec<char>, i: usize) -> (b: bool)
    ensures
        b == occurs_at(s@, pat@, i as int),
{
    if pat.len() > s.len() || i > s.len() - pat.len() {
        return false;
    }
    let mut k: usize = 0;
    while k < pat.len()
        invariant
            k <= pat.len(),
            i + pat.len() <= s.len(),
            forall|m: int| 0 <= m < k ==> s@[i + m] == pat@[m],
        decreases pat.len() - k,
    {
        if s[i + k] != pat[k] {
            assert(s@.subrange(i as int, i + pat@.len())[k as int] != pat@[k as int]);
            return false;
        }
        k = k + 1;
    }
    assert(s@.subrange(i as int, i + pat@.len()) =~= pat@);
    true
}

/// The index of the rightmost occurrence of `pat` in `s`.
pub fn find_last(s: &Vec<char>, pat: &Vec<char>) -> (r: Option<usize>)
    ensures
        match r {
            Some(i) => rfind(s@, pat@) == Some(i as int),
            None => rfind(s@, pat@) is None,
        },
{
    if pat.len() > s.len() {
        return None;
    }
    let mut i: usize = s.len() - pat.len();
    loop
        invariant
            pat.len() <= s.len(),
            i <= s.len() - pat.len(),
            forall|j: int| i < j ==> !occurs_at(s@, pat@, j),
        decreases i,
    {
        if matches_at(s, pat, i) {
            proof {
                lemma_last_occurrence_unique(s@, pat@, i as int);
            }
            return Some(i);
        }
        if i == 0 {
            return None;
        }
        i = i - 1;
    }
}

/// Whether `pat` stands in `s` at some index from `start` on.
pub fn occurs_from(s: &Vec<char>, pat: &Vec<char>, start: usize) -> (b: bool)
    requires
        start <= s.len(),
    ensures
        b == occurs(s@.subrange(start as int, s.len() as int), pat@),
{
    let ghost tail = s@.subrange(start as int, s.len() as int);
    let mut i: usize = start;
    loop
        invariant
            start <= i <= s.len(),
            tail == s@.subrange(start as int, s.len() as int),
            forall|j: int| 0 <= j < i - start ==> !occurs_at(tail, pat@, j),
        decreases s.len() - i,
    {
        proof {
            if i + pat@.len() <= s@.len() {
                assert(tail.subrange(i - start, i - start + pat@.len()) =~= s@.subrange(
                    i as int,
                    i + pat@.len(),
                ));
            }
        }
        if matches_at(s, pat, i) {
            assert(occurs_at(tail, pat@, i - start));
            return true;
        }
        if i == s.len() {
            return false;
        }
        i = i + 1;
    }
}

/// Whether `s` ends with `suffix`.
pub fn has_suffix(s: &Vec<char>, suffix: &Vec<char>) -> (b: bool)
    ensures
        b == ends_with(s@, suffix@),
{
    if suffix.len() > s.len() {
        return false;
    }
    matches_at(s, suffix, s.len() - suffix.len())
}

/// The characters of `s` from index `from` up to, not including, index `to`.
pub fn slice_chars(s: &Vec<char>, from: usize, to: usize) -> (v: Vec<char>)
    requires
        from <= to <= s.len(),
    ensures
        v@ == s@.subrange(from as int, to as int),
{
    let mut v: Vec<char> = Vec::new();
    let mut i: usize = from;
    while i < to
        invariant
            from <= i <= to <= s.len(),
            v@ == s@.subrange(from as int, i as int),
        decreases to - i,
    {
        v.push(s[i]);
        i = i + 1;
    }
    v
}

/// The index of the first `c` in `s`, or the length of `s` if it holds none.
pub open spec fn first_index(s: Seq<char>, c: char) -> nat
    decreases s.len(),
{
    if s.len() == 0 {
        0
    } else if s[0] == c {
        0
    } else {
        1 + first_index(s.drop_first(), c)
    }
}

/// `s` without one carriage return at its end, if it ends with one.
pub open spec fn strip_cr(s: Seq<char>) -> Seq<char> {
    if s.len() > 0 && s.last() == '\r' {
        s.drop_last()
    } else {
        s
    }
}

/// The lines of `s`. A line ends at a line feed, which is not part of it, nor
/// is a carriage return right before that line feed. What follows the last
/// line feed is a line of its own unless it is empty.
pub open spec fn lines_of(s: Seq<char>) -> Seq<Seq<char>>
    decreases s.len(),
{
    if s.len() == 0 {
        Seq::empty()
    } else {
        let i = first_index(s, '\n') as int;
        if i >= s.len() {
            seq![s]
        } else {
            seq![strip_cr(s.subrange(0, i))] + lines_of(s.subrange(i + 1, s.len() as int))
        }
    }
}

/// `first_index` is the least index that holds `c`.
pub proof fn lemma_first_index(s: Seq<char>, c: char)
    ensures
        0 <= first_index(s, c) <= s.len(),
        first_index(s, c) < s.len() ==> s[first_index(s, c) as int] == c,
        forall|k: int| 0 <= k < first_index(s, c) ==> s[k] != c,
    decreases s.len(),
{
    if s.len() > 0 && s[0] != c {
        let t = s.drop_first();
        lemma_first_index(t, c);
        assert forall|k: int| 0 <= k < first_index(s, c) implies s[k] != c by {
            if k > 0 {
                assert(t[k - 1] == s[k]);
            }
        }
    }
}

/// The index of the first `c` in `s` at or after `start`, or the length of `s`.
pub fn find_char_from(s: &Vec<char>, c: char, start: usize) -> (j: usize)
    requires
        start <= s.len(),
    ensures
        start <= j <= s.len(),
        j - start == first_index(s@.subrange(start as int, s.len() as int), c),
{
    let ghost tail = s@.subrange(start as int, s.len() as int);
    proof {
        lemma_first_index(tail, c);
    }
    let mut j: usize = start;
    while j < s.len() && s[j] != c
        invariant
            start <= j <= s.len(),
            tail == s@.subrange(start as int, s.len() as int),
            forall|k: int| 0 <= k < j - start ==> tail[k] != c,
        decreases s.len() - j,
    {
        assert(tail[j - start] == s@[j as int]);
        j = j + 1;
    }
    proof {
        let f = first_index(tail, c) as int;
        if j < s.len() {
            assert(tail[j - start] == s@[j as int]);
        }
        if f < j - start {
            assert(tail[f] != c);
        }
    }
    j
}

/// The lines of `text`, in order.
pub fn lines(text: &str) -> (result: Vec<String>)
    ensures
        result@.len() == lines_of(text@).len(),
        forall|i: int| 0 <= i < result@.len() ==> (#[trigger] result@[i])@ == lines_of(text@)[i],
{
    let s = to_chars(text);
    let mut result: Vec<String> = Vec::new();
    let ghost mut done: Seq<Seq<char>> = Seq::empty();
    let mut start: usize = 0;
    proof {
        assert(s@.subrange(0, s.len() as int) =~= s@);
        assert(done + lines_of(s@) =~= lines_of(s@));
    }
    while start < s.len()
        invariant
            start <= s.len(),
            s@ == text@,
            result@.len() == done.len(),
            forall|i: int| 0 <= i < result@.len() ==> (#[trigger] result@[i])@ == done[i],
            lines_of(s@) == done + lines_of(s@.subrange(start as int, s.len() as int)),
        decreases s.len() - start,
    {
        let ghost tail = s@.subrange(start as int, s.len() as int);
        let end = find_char_from(&s, '\n', start);
        let mut stop = end;
        if end < s.len() && end > start && s[end - 1] == '\r' {
            stop = end - 1;
        }
        let line = slice_chars(&s, start, stop);
        proof {
            let i = first_index(tail, '\n') as int;
            assert(tail.subrange(0, i) =~= s@.subrange(start as int, end as int));
            if end < s.len() {
                assert(tail.subrange(i + 1, tail.len() as int) =~= s@.subrange(
                    end + 1,
                    s.len() as int,
                ));
                assert(line@ =~= strip_cr(tail.subrange(0, i)));
                assert(lines_of(tail) == seq![line@] + lines_of(
                    s@.subrange(end + 1, s.len() as int),
                ));
                assert(done + lines_of(tail) =~= done.push(line@) + lines_of(
                    s@.subrange(end + 1, s.len() as int),
                ));
            } else {
                assert(line@ =~= tail);
                assert(s@.subrange(s.len() as int, s.len() as int) =~= Seq::<char>::empty());
                assert(lines_of(Seq::<char>::empty()) =~= Seq::<Seq<char>>::empty());
                assert(done + lines_of(tail) =~= done.push(line@) + lines_of(
                    s@.subrange(s.len() as int, s.len() as int),
                ));
            }
            done = done.push(line@);
        }
        result.push(from_chars(&line));
        if end < s.len() {
            start = end + 1;
        } else {
            start = end;
        }
    }
    proof {
        assert(s@.subrange(s.len() as int, s.len() as int) =~= Seq::<char>::empty());
        assert(s@.subrange(0, s.len() as int) =~= s@);
        assert(done + Seq::<Seq<char>>::empty() =~= done);
    }
    result
}

/// The number that a digit character writes; zero for any other character.
pub open spec fn digit_value(c: char) -> nat {
    if c == '1' {
        1
    } else if c == '2' {
        2
    } else if c == '3' {
        3
    } else if c == '4' {
        4
    } else if c == '5' {
        5
    } else if c == '6' {
        6
    } else if c == '7' {
        7
    } else if c == '8' {
        8
    } else if c == '9' {
        9
    } else {
        0
    }
}

/// The number that a sequence of digits writes in base ten.
pub open spec fn numeral_value(s: Seq<char>) -> nat
    decreases s.len(),
{
    if s.len() == 0 {
        0
    } else {
        10 * numeral_value(s.drop_last()) + digit_value(s.last())
    }
}

/// A numeral writes the number it was made from.
pub proof fn lemma_decimal_value(n: nat)
    ensures
        numeral_value(decimal(n)) == n,
    decreases n,
{
    if n < 10 {
        let s = decimal(n);
        assert(s.drop_last() =~= Seq::<char>::empty());
        assert(s.last() == digit_char(n));
        assert(numeral_value(s.drop_last()) == 0);
    } else {
        lemma_decimal_value(n / 10);
        let s = decimal(n);
        assert(s.drop_last() =~= decimal(n / 10));
        assert(s.last() == digit_char(n % 10));
    }
}

/// Different numbers have different numerals.
pub proof fn lemma_decimal_injective(m: nat, n: nat)
    requires
        decimal(m) == decimal(n),
    ensures
        m == n,
{
    lemma_decimal_value(m);
    lemma_decimal_value(n);
}

/// The characters that count as white space: the Unicode property
/// `White_Space`.
pub open spec fn is_whitespace(c: char) -> bool {
    let n = c as u32;
    ||| 0x09 <= n <= 0x0d
    ||| n == 0x20
    ||| n == 0x85
    ||| n == 0xa0
    ||| n == 0x1680
    ||| 0x2000 <= n <= 0x200a
    ||| n == 0x2028
    ||| n == 0x2029
    ||| n == 0x202f
    ||| n == 0x205f
    ||| n == 0x3000
}

/// The length of `s` without the white space at its end.
pub open spec fn trimmed_len(s: Seq<char>) -> nat
    decreases s.len(),
{
    if s.len() == 0 {
        0
    } else if is_whitespace(s.last()) {
        trimmed_len(s.drop_last())
    } else {
        s.len()
    }
}

/// `s` without the white space at its end.
pub open spec fn trim_end(s: Seq<char>) -> Seq<char> {
    s.subrange(0, trimmed_len(s) as int)
}

/// Whether `c` counts as white space.
pub fn whitespace(c: char) -> (b: bool)
    ensures
        b == is_whitespace(c),
{
    let n: u32 = c as u32;
    (0x09 <= n && n <= 0x0d) || n == 0x20 || n == 0x85 || n == 0xa0 || n == 0x1680 || (0x2000 <= n
        && n <= 0x200a) || n == 0x2028 || n == 0x2029 || n == 0x202f || n == 0x205f || n == 0x3000
}

/// The characters of `s` without the white space at its end.
pub fn trim_end_chars(s: &Vec<char>) -> (v: Vec<char>)
    ensures
        v@ == trim_end(s@),
{
    let mut end: usize = s.len();
    assert(s@.subrange(0, s.len() as int) =~= s@);
    while end > 0 && whitespace(s[end - 1])
        invariant
            end <= s.len(),
            trimmed_len(s@) == trimmed_len(s@.subrange(0, end as int)),
        decreases end,
    {
        proof {
            let t = s@.subrange(0, end as int);
            assert(t.drop_last() =~= s@.subrange(0, end - 1));
        }
        end = end - 1;
    }
    proof {
        assert(s@.subrange(0, s.len() as int) =~= s@);
        let t = s@.subrange(0, end as int);
        if end > 0 {
            assert(t.last() == s@[end - 1]);
        }
    }
    slice_chars(s, 0, end)
}

/// `pat` stands in `s` at index `i` and nowhere further left.
pub open spec fn is_first_occurrence(s: Seq<char>, pat: Seq<char>, i: int) -> bool {
    occurs_at(s, pat, i) && forall|j: int| j < i ==> !occurs_at(s, pat, j)
}

/// The index of the leftmost occurrence of `pat` in `s`, if there is one.
pub open spec fn find(s: Seq<char>, pat: Seq<char>) -> Option<int> {
    if exists|i: int| is_first_occurrence(s, pat, i) {
        Some(choose|i: int| is_first_occurrence(s, pat, i))
    } else {
        None
    }
}

/// There is at most one leftmost occurrence.
pub proof fn lemma_first_occurrence_unique(s: Seq<char>, pat: Seq<char>, i: int)
    requires
        is_first_occurrence(s, pat, i),
    ensures
        find(s, pat) == Some(i),
{
    let j = choose|j: int| is_first_occurrence(s, pat, j);
    assert(is_first_occurrence(s, pat, j));
    if j < i {
        assert(!occurs_at(s, pat, j));
    } else if i < j {
        assert(!occurs_at(s, pat, i));
    }
}

/// What `find` gives is a leftmost occurrence.
pub proof fn lemma_find_is_first(s: Seq<char>, pat: Seq<char>, i: int)
    requires
        find(s, pat) == Some(i),
    ensures
        is_first_occurrence(s, pat, i),
{
}

/// What `rfind` gives is a rightmost occurrence.
pub proof fn lemma_rfind_is_last(s: Seq<char>, pat: Seq<char>, i: int)
    requires
        rfind(s, pat) == Some(i),
    ensures
        is_last_occurrence(s, pat, i),
{
}

/// The index of the leftmost occurrence of `pat` in `s`.
pub fn find_first(s: &Vec<char>, pat: &Vec<char>) -> (r: Option<usize>)
    ensures
        match r {
            Some(i) => find(s@, pat@) == Some(i as int),
            None => find(s@, pat@) is None,
        },
{
    let mut i: usize = 0;
    loop
        invariant
            i <= s.len(),
            forall|j: int| j < i ==> !occurs_at(s@, pat@, j),
        decreases s.len() - i,
    {
        if matches_at(s, pat, i) {
            proof {
                lemma_first_occurrence_unique(s@, pat@, i as int);
            }
            return Some(i);
        }
        if i == s.len() {
            return None;
        }
        i = i + 1;
    }
}

/// The number of white-space characters at the start of `s`.
pub open spec fn leading_whitespace(s: Seq<char>) -> nat
    decreases s.len(),
{
    if s.len() == 0 {
        0
    } else if is_whitespace(s[0]) {
        1 + leading_whitespace(s.drop_first())
    } else {
        0
    }
}

/// `s` without the white space at its start and at its end.
pub open spec fn trim(s: Seq<char>) -> Seq<char> {
    trim_end(s.subrange(leading_whitespace(s) as int, s.len() as int))
}

/// The characters of `s` without the white space at its start and at its end.
pub fn trim_chars(s: &Vec<char>) -> (v: Vec<char>)
    ensures
        v@ == trim(s@),
{
    let mut start: usize = 0;
    proof {
        assert(s@.subrange(0, s.len() as int) =~= s@);
    }
    while start < s.len() && whitespace(s[start])
        invariant
            start <= s.len(),
            leading_whitespace(s@) == start + leading_whitespace(
                s@.subrange(start as int, s.len() as int),
            ),
        decreases s.len() - start,
    {
        proof {
            let t = s@.subrange(start as int, s.len() as int);
            assert(t[0] == s@[start as int]);
            assert(t.drop_first() =~= s@.subrange(start + 1, s.len() as int));
        }
        start = start + 1;
    }
    proof {
        let t = s@.subrange(start as int, s.len() as int);
        if start < s.len() {
            assert(t[0] == s@[start as int]);
        }
    }
    let rest = slice_chars(s, start, s.len());
    trim_end_chars(&rest)
}

} // verus!
