//! Character-level building blocks of the catalog format: trimming blank
//! space, splitting on a separator, reading and printing decimal numbers.

use vstd::prelude::*;

verus! {

/// True of the characters that count as blank space when a catalog line
/// is trimmed: the Unicode White_Space characters, the set `str::trim`
/// removes — tab through carriage return, space, next line, no-break
/// space, ogham space mark, the en-quad..hair-space range, the line and
/// paragraph separators, narrow no-break space, medium mathematical
/// space, and ideographic space.
pub open spec fn is_space_char(c: char) -> bool {
    ||| (0x09 <= c as u32 && c as u32 <= 0x0D)
    ||| c == ' '
    ||| c == '\u{85}'
    ||| c == '\u{A0}'
    ||| c == '\u{1680}'
    ||| (0x2000 <= c as u32 && c as u32 <= 0x200A)
    ||| c == '\u{2028}'
    ||| c == '\u{2029}'
    ||| c == '\u{202F}'
    ||| c == '\u{205F}'
    ||| c == '\u{3000}'
}

/// Runtime test matching `is_space_char`.
pub fn is_space(c: char) -> (r: bool)
    ensures
        r == is_space_char(c),
{
    let u = c as u32;
    (0x09 <= u && u <= 0x0D) || c == ' ' || c == '\u{85}' || c == '\u{A0}' || c == '\u{1680}' || (
    0x2000 <= u && u <= 0x200A) || c == '\u{2028}' || c == '\u{2029}' || c == '\u{202F}' || c
        == '\u{205F}' || c == '\u{3000}'
}

/// The text with its leading blank space removed.
pub open spec fn trim_start_spec(s: Seq<char>) -> Seq<char>
    decreases s.len(),
{
    if s.len() > 0 && is_space_char(s[0]) {
        trim_start_spec(s.drop_first())
    } else {
        s
    }
}

/// The text with its trailing blank space removed.
pub open spec fn trim_end_spec(s: Seq<char>) -> Seq<char>
    decreases s.len(),
{
    if s.len() > 0 && is_space_char(s.last()) {
        trim_end_spec(s.drop_last())
    } else {
        s
    }
}

/// The text with blank space removed from both ends.
pub open spec fn trim_spec(s: Seq<char>) -> Seq<char> {
    trim_end_spec(trim_start_spec(s))
}

proof fn lemma_trim_start_at(s: Seq<char>, i: int)
    requires
        0 <= i <= s.len(),
        forall|j: int| 0 <= j < i ==> is_space_char(s[j]),
        i == s.len() || !is_space_char(s[i]),
    ensures
        trim_start_spec(s) == s.subrange(i, s.len() as int),
    decreases i,
{
    if i == 0 {
        assert(s.subrange(0, s.len() as int) =~= s);
    } else {
        let t = s.drop_first();
        lemma_trim_start_at(t, i - 1);
        assert(t.subrange(i - 1, t.len() as int) =~= s.subrange(i, s.len() as int));
    }
}

proof fn lemma_trim_end_at(s: Seq<char>, i: int)
    requires
        0 <= i <= s.len(),
        forall|j: int| i <= j < s.len() ==> is_space_char(s[j]),
        i == 0 || !is_space_char(s[i - 1]),
    ensures
        trim_end_spec(s) == s.subrange(0, i),
    decreases s.len() - i,
{
    if i == s.len() {
        assert(s.subrange(0, s.len() as int) =~= s);
    } else {
        let t = s.drop_last();
        lemma_trim_end_at(t, i);
        assert(t.subrange(0, i) =~= s.subrange(0, i));
    }
}

/// The input with blank space removed from both ends, as `str::trim`
/// does for the blank characters of `is_space_char`.
pub fn trim_str(s: &str) -> (r: &str)
    ensures
        r@ == trim_spec(s@),
{
    let n = s.unicode_len();
    let mut a: usize = 0;
    while a < n && is_space(s.get_char(a))
        invariant
            0 <= a <= n == s@.len(),
            forall|j: int| 0 <= j < a ==> is_space_char(s@[j]),
        decreases n - a,
    {
        a = a + 1;
    }
    let mut b: usize = n;
    while b > a && is_space(s.get_char(b - 1))
        invariant
            a <= b <= n == s@.len(),
            forall|j: int| b <= j < n ==> is_space_char(s@[j]),
        decreases b,
    {
        b = b - 1;
    }
    proof {
        lemma_trim_start_at(s@, a as int);
        let t = s@.subrange(a as int, n as int);
        lemma_trim_end_at(t, b - a);
        assert(t.subrange(0, b - a) =~= s@.subrange(a as int, b as int));
    }
    s.substring_char(a, b)
}

/// The view of each piece of text in the vector.
pub open spec fn views_of(parts: Seq<&str>) -> Seq<Seq<char>> {
    parts.map_values(|p: &str| p@)
}

/// The segments of `s` between occurrences of the separator `sep`.
/// There is always one segment more than there are separators; a text
/// without the separator is a single segment.
pub open spec fn split_on(s: Seq<char>, sep: char) -> Seq<Seq<char>>
    decreases s.len(),
{
    if s.len() == 0 {
        seq![Seq::<char>::empty()]
    } else {
        let pre = split_on(s.drop_last(), sep);
        if s.last() == sep {
            pre.push(Seq::<char>::empty())
        } else {
            pre.update(pre.len() - 1, pre.last().push(s.last()))
        }
    }
}

pub proof fn lemma_split_on_len(s: Seq<char>, sep: char)
    ensures
        split_on(s, sep).len() >= 1,
    decreases s.len(),
{
    if s.len() > 0 {
        lemma_split_on_len(s.drop_last(), sep);
    }
}

/// A text without the separator is a single segment.
pub proof fn lemma_split_on_no_sep(s: Seq<char>, sep: char)
    requires
        forall|i: int| 0 <= i < s.len() ==> s[i] != sep,
    ensures
        split_on(s, sep) == seq![s],
    decreases s.len(),
{
    if s.len() == 0 {
        assert(s =~= Seq::<char>::empty());
    } else {
        let t = s.drop_last();
        lemma_split_on_no_sep(t, sep);
        assert(t.push(s.last()) =~= s);
        assert(seq![t].update(0, t.push(s.last())) =~= seq![s]);
    }
}

/// Appending the separator appends an empty segment.
pub proof fn lemma_split_on_push_sep(s: Seq<char>, sep: char)
    ensures
        split_on(s.push(sep), sep) == split_on(s, sep).push(Seq::<char>::empty()),
{
    assert(s.push(sep).drop_last() =~= s);
}

/// Appending a text without the separator extends the last segment.
pub proof fn lemma_split_on_extend(a: Seq<char>, b: Seq<char>, sep: char)
    requires
        forall|i: int| 0 <= i < b.len() ==> b[i] != sep,
    ensures
        split_on(a + b, sep) == split_on(a, sep).update(
            split_on(a, sep).len() - 1,
            split_on(a, sep).last() + b,
        ),
    decreases b.len(),
{
    lemma_split_on_len(a, sep);
    let pre = split_on(a, sep);
    if b.len() == 0 {
        assert(a + b =~= a);
        assert(pre.last() + b =~= pre.last());
        assert(pre.update(pre.len() - 1, pre.last()) =~= pre);
    } else {
        let b1 = b.drop_last();
        lemma_split_on_extend(a, b1, sep);
        let q = split_on(a + b1, sep);
        assert((a + b).drop_last() =~= a + b1);
        assert((a + b).last() == b.last());
        assert(q.last() == pre.last() + b1);
        assert((pre.last() + b1).push(b.last()) =~= pre.last() + b);
        assert(q.update(q.len() - 1, q.last().push(b.last())) =~= pre.update(
            pre.len() - 1,
            pre.last() + b,
        ));
    }
}

/// The segments of `s` between occurrences of `sep`, left to right.
pub fn split_on_char<'a>(s: &'a str, sep: char) -> (parts: Vec<&'a str>)
    ensures
        views_of(parts@) == split_on(s@, sep),
{
    let n = s.unicode_len();
    let mut parts: Vec<&str> = Vec::new();
    let mut start: usize = 0;
    let mut i: usize = 0;
    proof {
        assert(s@.subrange(0, 0) =~= Seq::<char>::empty());
        assert(views_of(parts@) =~= Seq::<Seq<char>>::empty());
    }
    while i < n
        invariant
            0 <= start <= i <= n == s@.len(),
            split_on(s@.subrange(0, i as int), sep) == views_of(parts@).push(
                s@.subrange(start as int, i as int),
            ),
        decreases n - i,
    {
        let ghost pre = s@.subrange(0, i as int);
        let ghost pv = views_of(parts@);
        let ghost seg = s@.subrange(start as int, i as int);
        let c = s.get_char(i);
        proof {
            assert(s@.subrange(0, i + 1).drop_last() =~= pre);
            lemma_split_on_len(pre, sep);
        }
        if c == sep {
            let piece = s.substring_char(start, i);
            parts.push(piece);
            start = i + 1;
            proof {
                assert(split_on(s@.subrange(0, i + 1), sep) == split_on(pre, sep).push(
                    Seq::<char>::empty(),
                ));
                assert(views_of(parts@) =~= pv.push(seg));
                assert(s@.subrange(i + 1, i + 1) =~= Seq::<char>::empty());
            }
        } else {
            proof {
                let split_pre = split_on(pre, sep);
                assert(split_on(s@.subrange(0, i + 1), sep) == split_pre.update(
                    split_pre.len() - 1,
                    split_pre.last().push(s@[i as int]),
                ));
                assert(split_pre.last() == seg);
                assert(split_pre.update(split_pre.len() - 1, seg.push(s@[i as int])) =~= pv.push(
                    seg.push(s@[i as int]),
                ));
                assert(s@.subrange(start as int, i + 1) =~= seg.push(s@[i as int]));
            }
        }
        i = i + 1;
    }
    let piece = s.substring_char(start, n);
    let ghost pv = views_of(parts@);
    let ghost seg = s@.subrange(start as int, n as int);
    parts.push(piece);
    proof {
        assert(s@.subrange(0, n as int) =~= s@);
        assert(views_of(parts@) =~= pv.push(seg));
    }
    parts
}

/// True of the ten ASCII decimal digits.
pub open spec fn is_digit_char(c: char) -> bool {
    48 <= c as u32 <= 57
}

/// The numeric value of one decimal digit.
pub open spec fn digit_val(c: char) -> int {
    c as u32 - 48
}

/// True when every character of `s` is a decimal digit.
pub open spec fn all_digits(s: Seq<char>) -> bool {
    forall|i: int| 0 <= i < s.len() ==> is_digit_char(s[i])
}

/// The number written by the digit string `s`, read in base ten.
pub open spec fn digits_val(s: Seq<char>) -> int
    decreases s.len(),
{
    if s.len() == 0 {
        0
    } else {
        digits_val(s.drop_last()) * 10 + digit_val(s.last())
    }
}

pub proof fn lemma_digits_val_nonneg(s: Seq<char>)
    requires
        all_digits(s),
    ensures
        digits_val(s) >= 0,
    decreases s.len(),
{
    if s.len() > 0 {
        lemma_digits_val_nonneg(s.drop_last());
    }
}

/// Appending digits never shrinks the value: the value of a digit
/// string is at least the value of any of its prefixes.
pub proof fn lemma_digits_val_prefix_le(s: Seq<char>, k: int)
    requires
        all_digits(s),
        0 <= k <= s.len(),
    ensures
        digits_val(s.subrange(0, k)) <= digits_val(s),
    decreases s.len() - k,
{
    if k == s.len() {
        assert(s.subrange(0, k) =~= s);
    } else {
        let t = s.drop_last();
        lemma_digits_val_nonneg(t);
        lemma_digits_val_prefix_le(t, k);
        assert(t.subrange(0, k) =~= s.subrange(0, k));
    }
}

/// What `str::parse::<u16>` accepts: an optional leading plus sign, then
/// one or more decimal digits whose value fits in sixteen bits.
pub open spec fn parse_u16_spec(s: Seq<char>) -> Option<u16> {
    let d = if s.len() > 0 && s[0] == '+' {
        s.drop_first()
    } else {
        s
    };
    if d.len() > 0 && all_digits(d) && digits_val(d) <= 0xffff {
        Some(digits_val(d) as u16)
    } else {
        None
    }
}

/// Reads an unsigned sixteen-bit number the way `str::parse::<u16>`
/// does: an optional `+`, then decimal digits, rejecting overflow.
pub fn parse_u16(s: &str) -> (r: Option<u16>)
    ensures
        r == parse_u16_spec(s@),
{
    let n = s.unicode_len();
    let mut i: usize = 0;
    if n > 0 && s.get_char(0) == '+' {
        i = 1;
    }
    let start = i;
    let ghost d = s@.subrange(start as int, n as int);
    proof {
        if start == 1 {
            assert(d =~= s@.drop_first());
        } else {
            assert(d =~= s@);
        }
    }
    if i == n {
        return None;
    }
    let mut val: u32 = 0;
    while i < n
        invariant
            start <= i <= n == s@.len(),
            d == s@.subrange(start as int, n as int),
            d == (if s@.len() > 0 && s@[0] == '+' {
                s@.drop_first()
            } else {
                s@
            }),
            all_digits(s@.subrange(start as int, i as int)),
            val == digits_val(s@.subrange(start as int, i as int)),
            val <= 0xffff,
        decreases n - i,
    {
        let ghost seen = s@.subrange(start as int, i as int);
        let c = s.get_char(i);
        let cu = c as u32;
        if cu < 48 || cu > 57 {
            assert(d[i - start] == s@[i as int]);
            return None;
        }
        proof {
            assert(s@.subrange(start as int, i + 1) =~= seen.push(s@[i as int]));
            assert(s@.subrange(start as int, i + 1).drop_last() =~= seen);
        }
        let val2 = val * 10 + (cu - 48);
        if val2 > 0xffff {
            proof {
                if all_digits(d) {
                    assert(d.subrange(0, i + 1 - start) =~= s@.subrange(start as int, i + 1));
                    lemma_digits_val_prefix_le(d, i + 1 - start);
                }
            }
            return None;
        }
        val = val2;
        i = i + 1;
    }
    proof {
        assert(s@.subrange(start as int, n as int) =~= d);
    }
    Some(val as u16)
}

/// The decimal digit characters of the number `n`, most significant
/// first, as `0` to `9` without sign or padding.
pub open spec fn dec_digits(n: int) -> Seq<char>
    decreases n,
{
    if n <= 9 {
        seq![dec_digit_char(n)]
    } else {
        dec_digits(n / 10).push(dec_digit_char(n % 10))
    }
}

/// The character for one decimal digit value.
pub open spec fn dec_digit_char(d: int) -> char {
    if d == 0 {
        '0'
    } else if d == 1 {
        '1'
    } else if d == 2 {
        '2'
    } else if d == 3 {
        '3'
    } else if d == 4 {
        '4'
    } else if d == 5 {
        '5'
    } else if d == 6 {
        '6'
    } else if d == 7 {
        '7'
    } else if d == 8 {
        '8'
    } else {
        '9'
    }
}

/// One decimal digit as text.
fn digit_str(d: u32) -> (r: &'static str)
    requires
        d <= 9,
    ensures
        r@ == seq![dec_digit_char(d as int)],
{
    let r: &'static str = if d == 0 {
        "0"
    } else if d == 1 {
        "1"
    } else if d == 2 {
        "2"
    } else if d == 3 {
        "3"
    } else if d == 4 {
        "4"
    } else if d == 5 {
        "5"
    } else if d == 6 {
        "6"
    } else if d == 7 {
        "7"
    } else if d == 8 {
        "8"
    } else {
        "9"
    };
    proof {
        reveal_strlit("0");
        reveal_strlit("1");
        reveal_strlit("2");
        reveal_strlit("3");
        reveal_strlit("4");
        reveal_strlit("5");
        reveal_strlit("6");
        reveal_strlit("7");
        reveal_strlit("8");
        reveal_strlit("9");
        assert(r@ =~= seq![dec_digit_char(d as int)]);
    }
    r
}

/// Writes `v` in decimal, matching `dec_digits`.
pub fn u16_to_string(v: u16) -> (r: String)
    ensures
        r@ == dec_digits(v as int),
{
    let mut m: u32 = v as u32;
    let mut r = String::new();
    if m == 0 {
        let r0 = String::from_str(digit_str(0));
        return r0;
    }
    while m > 0
        invariant
            m <= 0xffff,
            m > 0 ==> dec_digits(v as int) == dec_digits(m as int) + r@,
            m == 0 ==> dec_digits(v as int) == r@,
        decreases m,
    {
        let ghost r_old = r@;
        let d = m % 10;
        let piece = String::from_str(digit_str(d)).concat(r.as_str());
        r = piece;
        proof {
            assert(r@ =~= seq![dec_digit_char(d as int)] + r_old);
            if m >= 10 {
                assert(dec_digits(m as int) == dec_digits(m as int / 10).push(
                    dec_digit_char(m as int % 10),
                ));
                assert(dec_digits(m as int / 10) + r@ =~= dec_digits(m as int) + r_old);
            } else {
                assert(dec_digits(m as int) =~= seq![dec_digit_char(m as int)]);
            }
        }
        m = m / 10;
    }
    r
}

} // verus!
