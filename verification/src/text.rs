//! Work on text: comparing, trimming, splitting, and reading numbers.
use vstd::prelude::*;
use vstd::string::StrSliceExecFns;

verus! {

/// Whether two strings hold the same characters.
pub fn str_eq(a: &str, b: &str) -> (r: bool)
    ensures
        r == (a@ == b@),
{
    let n = a.unicode_len();
    if n != b.unicode_len() {
        return false;
    }
    let mut i: usize = 0;
    while i < n
        invariant
            i <= n,
            n == a@.len(),
            n == b@.len(),
            forall|j: int| 0 <= j < i ==> a@[j] == b@[j],
        decreases n - i,
    {
        if a.get_char(i) != b.get_char(i) {
            return false;
        }
        i += 1;
    }
    assert(a@ =~= b@);
    true
}

/// Whether a character is white space: a blank, a tab, a line end, or one of
/// the other spaces of Unicode.
pub open spec fn is_space(c: char) -> bool {
    let n = c as u32;
    ||| 0x09 <= n <= 0x0d
    ||| n == 0x20
    ||| n == 0x85
    ||| n == 0xa0
    ||| n == 0x1680
    ||| 0x2000 <= n <= 0x200a
    ||| n == 0x2028
    ||| n == 0x2029
    ||| n == 0x202f
    ||| n == 0x205f
    ||| n == 0x3000
}

/// Whether a character is cut off the ends of a text: white space, or, where
/// the name of a section is read, a bracket or a blank.
pub open spec fn is_margin(c: char, brackets: bool) -> bool {
    if brackets {
        c == '[' || c == ']' || c == ' '
    } else {
        is_space(c)
    }
}

/// The number of margin characters at the start of a text.
pub open spec fn lead_margin(s: Seq<char>, brackets: bool) -> nat
    decreases s.len(),
{
    if s.len() > 0 && is_margin(s[0], brackets) {
        1 + lead_margin(s.drop_first(), brackets)
    } else {
        0
    }
}

/// The number of margin characters at the end of a text.
pub open spec fn tail_margin(s: Seq<char>, brackets: bool) -> nat
    decreases s.len(),
{
    if s.len() > 0 && is_margin(s.last(), brackets) {
        1 + tail_margin(s.drop_last(), brackets)
    } else {
        0
    }
}

/// A text without the margin characters at its ends.
pub open spec fn stripped(s: Seq<char>, brackets: bool) -> Seq<char> {
    let a = lead_margin(s, brackets);
    if a >= s.len() {
        Seq::empty()
    } else {
        s.subrange(a as int, s.len() - tail_margin(s, brackets))
    }
}

/// A text without the white space at its ends.
pub open spec fn trimmed(s: Seq<char>) -> Seq<char> {
    stripped(s, false)
}

/// The place of the first `c` in a text, and the length of the text if there
/// is none.
pub open spec fn index_of(s: Seq<char>, c: char) -> nat
    decreases s.len(),
{
    if s.len() == 0 || s[0] == c {
        0
    } else {
        1 + index_of(s.drop_first(), c)
    }
}

/// The parts of a text between the occurrences of `c`; a text without `c` is
/// its only part.
pub open spec fn split_on(s: Seq<char>, c: char) -> Seq<Seq<char>>
    decreases s.len(),
{
    let i = index_of(s, c);
    if i >= s.len() {
        seq![s]
    } else {
        seq![s.take(i as int)] + split_on(s.skip(i as int + 1), c)
    }
}

/// Whether a character is a decimal digit.
pub open spec fn is_digit(c: char) -> bool {
    '0' <= c <= '9'
}

/// Whether a text is made of decimal digits.
pub open spec fn all_digits(s: Seq<char>) -> bool {
    forall|i: int| 0 <= i < s.len() ==> is_digit(#[trigger] s[i])
}

/// The number that decimal digits stand for.
pub open spec fn digits_value(s: Seq<char>) -> nat
    decreases s.len(),
{
    if s.len() == 0 {
        0
    } else {
        digits_value(s.drop_last()) * 10 + (s.last() as u32 - '0' as u32) as nat
    }
}

/// The number that a text stands for: decimal digits, at least one, after a
/// plus sign or, where negative numbers are read, a minus sign, if there is a
/// sign at all.
pub open spec fn number_of(s: Seq<char>, minus: bool) -> Option<int> {
    let signed = s.len() > 0 && (s[0] == '+' || (minus && s[0] == '-'));
    let body = if signed {
        s.drop_first()
    } else {
        s
    };
    if body.len() == 0 || !all_digits(body) {
        None
    } else if signed && s[0] == '-' {
        Some(-(digits_value(body) as int))
    } else {
        Some(digits_value(body) as int)
    }
}

/// The number that a text stands for, if it stands for one from `lo` to `hi`.
pub open spec fn number_within(s: Seq<char>, lo: int, hi: int) -> Option<int> {
    match number_of(s, lo < 0) {
        Some(v) => if lo <= v <= hi {
            Some(v)
        } else {
            None
        },
        None => None,
    }
}

/// Whether a character is white space.
pub fn is_whitespace(c: char) -> (r: bool)
    ensures
        r == is_space(c),
{
    let n = c as u32;
    (0x09 <= n && n <= 0x0d) || n == 0x20 || n == 0x85 || n == 0xa0 || n == 0x1680 || (0x2000 <= n
        && n <= 0x200a) || n == 0x2028 || n == 0x2029 || n == 0x202f || n == 0x205f || n == 0x3000
}

/// The margin at the start of a text goes on after margin characters.
proof fn lemma_lead_margin(s: Seq<char>, brackets: bool, a: int)
    requires
        0 <= a <= s.len(),
        forall|i: int| 0 <= i < a ==> is_margin(#[trigger] s[i], brackets),
    ensures
        lead_margin(s, brackets) == a + lead_margin(s.skip(a), brackets),
    decreases a,
{
    if a > 0 {
        assert(s.drop_first().skip(a - 1) =~= s.skip(a));
        lemma_lead_margin(s.drop_first(), brackets, a - 1);
    } else {
        assert(s.skip(0) =~= s);
    }
}

/// The margin at the end of a text goes on before margin characters.
proof fn lemma_tail_margin(s: Seq<char>, brackets: bool, b: int)
    requires
        0 <= b <= s.len(),
        forall|i: int| b <= i < s.len() ==> is_margin(#[trigger] s[i], brackets),
    ensures
        tail_margin(s, brackets) == (s.len() - b) + tail_margin(s.take(b), brackets),
    decreases s.len() - b,
{
    if b < s.len() {
        assert(s.drop_last().take(b) =~= s.take(b));
        lemma_tail_margin(s.drop_last(), brackets, b);
    } else {
        assert(s.take(b) =~= s);
    }
}

/// Cuts the margin characters off the ends of a text: white space, or brackets
/// and blanks.
pub fn strip(s: &str, brackets: bool) -> (r: &str)
    ensures
        r@ == stripped(s@, brackets),
{
    let n = s.unicode_len();
    let mut a: usize = 0;
    while a < n && is_margin_char(s.get_char(a), brackets)
        invariant
            a <= n,
            n == s@.len(),
            forall|i: int| 0 <= i < a ==> is_margin(#[trigger] s@[i], brackets),
        decreases n - a,
    {
        a += 1;
    }
    proof {
        lemma_lead_margin(s@, brackets, a as int);
        if a < n {
            assert(s@.skip(a as int)[0] == s@[a as int]);
        }
    }
    if a == n {
        let r = s.substring_char(0, 0);
        assert(r@ =~= Seq::<char>::empty());
        return r;
    }
    let mut b: usize = n;
    while b > a + 1 && is_margin_char(s.get_char(b - 1), brackets)
        invariant
            a < b <= n,
            n == s@.len(),
            forall|i: int| b <= i < n ==> is_margin(#[trigger] s@[i], brackets),
        decreases b,
    {
        b -= 1;
    }
    proof {
        lemma_tail_margin(s@, brackets, b as int);
        assert(s@.take(b as int).last() == s@[b - 1]);
        assert(!is_margin(s@[a as int], brackets));
        if b == a + 1 {
            assert(!is_margin(s@[b - 1], brackets));
        }
    }
    s.substring_char(a, b)
}

/// Whether a character is cut off the ends of a text.
fn is_margin_char(c: char, brackets: bool) -> (r: bool)
    ensures
        r == is_margin(c, brackets),
{
    if brackets {
        c == '[' || c == ']' || c == ' '
    } else {
        is_whitespace(c)
    }
}

/// Cuts the white space off the ends of a text.
pub fn trim(s: &str) -> (r: &str)
    ensures
        r@ == trimmed(s@),
{
    strip(s, false)
}

/// The first `c` is where no `c` comes before.
proof fn lemma_index_of(s: Seq<char>, c: char, i: int)
    requires
        0 <= i <= s.len(),
        forall|j: int| 0 <= j < i ==> #[trigger] s[j] != c,
        i < s.len() ==> s[i] == c,
    ensures
        index_of(s, c) == i,
    decreases i,
{
    if i > 0 {
        let rest = s.drop_first();
        assert forall|j: int| 0 <= j < i - 1 implies #[trigger] rest[j] != c by {
            assert(s[j + 1] != c);
        }
        lemma_index_of(rest, c, i - 1);
    }
}

/// The place of the first `c` in a text from `from` on, and the length of the
/// text if there is none.
pub fn find_from(s: &str, c: char, from: usize) -> (r: usize)
    requires
        from <= s@.len(),
    ensures
        r == from + index_of(s@.skip(from as int), c),
        from <= r <= s@.len(),
{
    let n = s.unicode_len();
    let mut i: usize = from;
    while i < n && s.get_char(i) != c
        invariant
            from <= i <= n,
            n == s@.len(),
            forall|j: int| from <= j < i ==> #[trigger] s@[j] != c,
        decreases n - i,
    {
        i += 1;
    }
    proof {
        let rest = s@.skip(from as int);
        assert forall|j: int| 0 <= j < i - from implies #[trigger] rest[j] != c by {
            assert(s@[from + j] != c);
        }
        lemma_index_of(rest, c, i - from);
    }
    i
}

/// The place of the first `c` in a text, if there is one.
pub fn find_char(s: &str, c: char) -> (r: Option<usize>)
    ensures
        match r {
            Some(i) => i == index_of(s@, c) && i < s@.len(),
            None => index_of(s@, c) >= s@.len(),
        },
{
    let n = s.unicode_len();
    let i = find_from(s, c, 0);
    assert(s@.skip(0) =~= s@);
    if i < n {
        Some(i)
    } else {
        None
    }
}

/// The parts of a text between the occurrences of `c`.
pub fn split<'a>(s: &'a str, c: char) -> (r: Vec<&'a str>)
    ensures
        r@.len() == split_on(s@, c).len(),
        forall|k: int| 0 <= k < r@.len() ==> (#[trigger] r@[k])@ == split_on(s@, c)[k],
        r@.len() >= 1,
{
    let n = s.unicode_len();
    let mut parts: Vec<&str> = Vec::new();
    let mut start: usize = 0;
    let mut going = true;
    let ghost mut done: Seq<Seq<char>> = Seq::empty();
    assert(s@.skip(0) =~= s@);
    while going
        invariant
            start <= n,
            n == s@.len(),
            parts@.len() == done.len(),
            forall|k: int| 0 <= k < parts@.len() ==> (#[trigger] parts@[k])@ == done[k],
            going ==> split_on(s@, c) == done + split_on(s@.skip(start as int), c),
            !going ==> split_on(s@, c) == done && done.len() >= 1,
        decreases n - start + (if going { 1int } else { 0int }),
    {
        let rest = Ghost(s@.skip(start as int));
        let end = find_from(s, c, start);
        let part = s.substring_char(start, end);
        assert(part@ =~= rest@.take(end - start));
        parts.push(part);
        if end < n {
            proof {
                assert(rest@.skip(end - start + 1) =~= s@.skip(end + 1));
                assert(done + split_on(rest@, c) =~= done.push(part@) + split_on(
                    s@.skip(end + 1),
                    c,
                ));
                done = done.push(part@);
            }
            start = end + 1;
        } else {
            proof {
                assert(rest@.take(end - start) =~= rest@);
                assert(done + split_on(rest@, c) =~= done.push(part@));
                done = done.push(part@);
            }
            going = false;
        }
    }
    parts
}

/// Reads a whole number from `lo` to `hi`.
pub fn parse_number(s: &str, lo: i32, hi: i32) -> (r: Option<i32>)
    requires
        -1000000 <= lo <= hi <= 1000000,
    ensures
        match number_within(s@, lo as int, hi as int) {
            Some(v) => r == Some(v as i32),
            None => r is None,
        },
{
    let n = s.unicode_len();
    if n == 0 {
        return None;
    }
    let first = s.get_char(0);
    let signed = first == '+' || (lo < 0 && first == '-');
    let start: usize = if signed {
        1
    } else {
        0
    };
    if start == n {
        assert(s@.drop_first().len() == 0);
        return None;
    }
    let ghost body = if signed {
        s@.drop_first()
    } else {
        s@
    };
    assert(body =~= s@.skip(start as int));
    let mut value: i32 = 0;
    let mut big = false;
    let mut i: usize = start;
    assert(body.take(0) =~= Seq::<char>::empty());
    while i < n
        invariant
            start <= i <= n,
            0 < n == s@.len(),
            first == s@[0],
            signed == (first == '+' || (lo < 0 && first == '-')),
            start == (if signed {
                1int
            } else {
                0int
            }),
            body == s@.skip(start as int),
            all_digits(body.take(i - start)),
            0 <= value <= 1000000,
            !big ==> value == digits_value(body.take(i - start)),
            big ==> digits_value(body.take(i - start)) > 1000000,
        decreases n - i,
    {
        let c = s.get_char(i);
        let ghost seen = body.take(i - start);
        let ghost more = body.take(i - start + 1);
        assert(more.drop_last() =~= seen);
        assert(more.last() == c);
        if !(c >= '0' && c <= '9') {
            assert(!is_digit(body[i - start]));
            assert(body =~= (if signed {
                s@.drop_first()
            } else {
                s@
            }));
            return None;
        }
        assert(all_digits(more)) by {
            assert forall|j: int| 0 <= j < more.len() implies is_digit(#[trigger] more[j]) by {
                if j < seen.len() {
                    assert(is_digit(seen[j]));
                }
            }
        }
        let d: i32 = (c as u32 - '0' as u32) as i32;
        if !big {
            value = value * 10 + d;
            if value > 1000000 {
                big = true;
                value = 0;
            }
        }
        i += 1;
    }
    assert(body.take(n - start) =~= body);
    if big {
        return None;
    }
    let v = if signed && first == '-' {
        -value
    } else {
        value
    };
    if v < lo || v > hi {
        return None;
    }
    Some(v)
}

} // verus!
