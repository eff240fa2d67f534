//! Character-level utilities for the assembler: whitespace trimming,
//! splitting on a separator character, and decimal parsing, each with a
//! specification over `Seq<char>` and an executable form proved against it.

use vstd::prelude::*;
use vstd::string::StrSliceExecFns;

verus! {

/// Whether `c` has the Unicode White_Space property, the set of characters
/// that trimming removes.
pub open spec fn is_space(c: char) -> bool {
    let u = c as u32;
    ||| u == 32
    ||| (9 <= u && u <= 13)
    ||| u == 0x85
    ||| u == 0xA0
    ||| u == 0x1680
    ||| (0x2000 <= u && u <= 0x200A)
    ||| u == 0x2028
    ||| u == 0x2029
    ||| u == 0x202F
    ||| u == 0x205F
    ||| u == 0x3000
}

pub fn is_space_char(c: char) -> (b: bool)
    ensures
        b == is_space(c),
{
    let u = c as u32;
    u == 32 || (9 <= u && u <= 13) || u == 0x85 || u == 0xA0 || u == 0x1680 || (0x2000 <= u && u
        <= 0x200A) || u == 0x2028 || u == 0x2029 || u == 0x202F || u == 0x205F || u == 0x3000
}

/// `s` with its leading whitespace removed.
pub open spec fn trim_start_spec(s: Seq<char>) -> Seq<char>
    decreases s.len(),
{
    if s.len() > 0 && is_space(s[0]) {
        trim_start_spec(s.drop_first())
    } else {
        s
    }
}

/// `s` with its trailing whitespace removed.
pub open spec fn trim_end_spec(s: Seq<char>) -> Seq<char>
    decreases s.len(),
{
    if s.len() > 0 && is_space(s.last()) {
        trim_end_spec(s.drop_last())
    } else {
        s
    }
}

/// `s` with leading and trailing whitespace removed.
pub open spec fn trim_spec(s: Seq<char>) -> Seq<char> {
    trim_end_spec(trim_start_spec(s))
}

/// The pieces of `s` between occurrences of `sep`: always one piece more
/// than there are separators, so the empty sequence splits into one empty
/// piece, as `str::split` has it.
pub open spec fn split_at_char(s: Seq<char>, sep: char) -> Seq<Seq<char>>
    decreases s.len(),
{
    if s.len() == 0 {
        seq![Seq::<char>::empty()]
    } else if s[0] == sep {
        seq![Seq::<char>::empty()] + split_at_char(s.drop_first(), sep)
    } else {
        let rest = split_at_char(s.drop_first(), sep);
        seq![seq![s[0]] + rest[0]] + rest.drop_first()
    }
}

pub proof fn lemma_split_len_pos(s: Seq<char>, sep: char)
    ensures
        split_at_char(s, sep).len() >= 1,
    decreases s.len(),
{
    if s.len() > 0 {
        lemma_split_len_pos(s.drop_first(), sep);
    }
}

/// Splitting a sequence whose first separator stands at `i` (or that has
/// none, when `i == s.len()`) takes the prefix as the first piece.
pub proof fn lemma_split_at_first_sep(s: Seq<char>, sep: char, i: int)
    requires
        0 <= i <= s.len(),
        forall|j: int| 0 <= j < i ==> s[j] != sep,
        i < s.len() ==> s[i] == sep,
    ensures
        i == s.len() ==> split_at_char(s, sep) == seq![s],
        i < s.len() ==> split_at_char(s, sep) == seq![s.take(i)] + split_at_char(
            s.skip(i + 1),
            sep,
        ),
    decreases i,
{
    if i == 0 {
        if s.len() == 0 {
            assert(s =~= Seq::<char>::empty());
            assert(split_at_char(s, sep) =~= seq![s]);
        } else {
            assert(s.drop_first() =~= s.skip(1));
            assert(Seq::<char>::empty() =~= s.take(0));
            assert(split_at_char(s, sep) =~= seq![s.take(0)] + split_at_char(s.skip(1), sep));
        }
    } else {
        let sd = s.drop_first();
        assert(forall|j: int| 0 <= j < i - 1 ==> sd[j] != sep);
        lemma_split_at_first_sep(sd, sep, i - 1);
        lemma_split_len_pos(sd, sep);
        let rest = split_at_char(sd, sep);
        if i == s.len() {
            assert(rest == seq![sd]);
            assert(rest.drop_first() =~= Seq::<Seq<char>>::empty());
            assert(seq![s[0]] + sd =~= s);
            assert(split_at_char(s, sep) =~= seq![s]);
        } else {
            let tail = split_at_char(sd.skip(i), sep);
            assert(rest == seq![sd.take(i - 1)] + tail);
            assert(rest[0] == sd.take(i - 1));
            assert(rest.drop_first() =~= tail);
            assert(seq![s[0]] + sd.take(i - 1) =~= s.take(i));
            assert(sd.skip(i) =~= s.skip(i + 1));
            assert(split_at_char(s, sep) =~= seq![s.take(i)] + split_at_char(s.skip(i + 1), sep));
        }
    }
}

/// The contents that a sequence of index ranges selects out of `v`.
pub open spec fn range_contents(v: Seq<char>, rs: Seq<(usize, usize)>) -> Seq<Seq<char>> {
    rs.map_values(|r: (usize, usize)| v.subrange(r.0 as int, r.1 as int))
}

/// The characters of `s`, as a vector.
pub fn chars_of(s: &str) -> (v: Vec<char>)
    ensures
        v@ == s@,
{
    let n = s.unicode_len();
    let mut v: Vec<char> = Vec::new();
    let mut i: usize = 0;
    while i < n
        invariant
            i <= n,
            n == s@.len(),
            v@ == s@.subrange(0, i as int),
        decreases n - i,
    {
        let c = s.get_char(i);
        v.push(c);
        proof {
            assert(v@ =~= s@.subrange(0, i + 1 as int));
        }
        i = i + 1;
    }
    proof {
        assert(v@ =~= s@);
    }
    v
}

/// The bounds of `v[lo..hi]` with leading and trailing whitespace left out.
pub fn trim_range(v: &Vec<char>, lo: usize, hi: usize) -> (r: (usize, usize))
    requires
        lo <= hi <= v@.len(),
    ensures
        lo <= r.0 <= r.1 <= hi,
        v@.subrange(r.0 as int, r.1 as int) == trim_spec(
            v@.subrange(lo as int, hi as int),
        ),
{
    let ghost s = v@.subrange(lo as int, hi as int);
    let mut a = lo;
    while a < hi && is_space_char(v[a])
        invariant
            lo <= a <= hi <= v@.len(),
            trim_start_spec(s) == trim_start_spec(v@.subrange(a as int, hi as int)),
            s == v@.subrange(lo as int, hi as int),
        decreases hi - a,
    {
        proof {
            let cur = v@.subrange(a as int, hi as int);
            assert(cur[0] == v@[a as int]);
            assert(cur.drop_first() =~= v@.subrange(a + 1 as int, hi as int));
        }
        a = a + 1;
    }
    proof {
        let cur = v@.subrange(a as int, hi as int);
        if a < hi {
            assert(cur[0] == v@[a as int]);
        }
        assert(trim_start_spec(s) == cur);
    }
    let mut b = hi;
    while b > a && is_space_char(v[b - 1])
        invariant
            lo <= a <= b <= hi <= v@.len(),
            trim_end_spec(trim_start_spec(s)) == trim_end_spec(
                v@.subrange(a as int, b as int),
            ),
            trim_start_spec(s) == v@.subrange(a as int, hi as int),
            s == v@.subrange(lo as int, hi as int),
        decreases b,
    {
        proof {
            let cur = v@.subrange(a as int, b as int);
            assert(cur.last() == v@[b - 1 as int]);
            assert(cur.drop_last() =~= v@.subrange(a as int, b - 1 as int));
        }
        b = b - 1;
    }
    proof {
        let cur = v@.subrange(a as int, b as int);
        if b > a {
            assert(cur.last() == v@[b - 1 as int]);
        }
        assert(trim_end_spec(trim_start_spec(s)) == cur);
    }
    (a, b)
}

/// The ranges of the pieces of `v[lo..hi]` between occurrences of `sep`.
pub fn split_ranges(v: &Vec<char>, lo: usize, hi: usize, sep: char) -> (rs: Vec<(usize, usize)>)
    requires
        lo <= hi <= v@.len(),
    ensures
        rs@.len() >= 1,
        forall|k: int| 0 <= k < rs@.len() ==> lo <= (#[trigger] rs@[k]).0 && rs@[k].0 <= rs@[k].1
            && rs@[k].1 <= hi,
        range_contents(v@, rs@) == split_at_char(v@.subrange(lo as int, hi as int), sep),
{
    let ghost s = v@.subrange(lo as int, hi as int);
    let mut rs: Vec<(usize, usize)> = Vec::new();
    let mut start = lo;
    let mut i = lo;
    while i < hi
        invariant
            lo <= start <= i <= hi <= v@.len(),
            forall|k: int| 0 <= k < rs@.len() ==> lo <= (#[trigger] rs@[k]).0 && rs@[k].0
                <= rs@[k].1 && rs@[k].1 <= hi,
            forall|j: int| start <= j < i ==> v@[j] != sep,
            split_at_char(s, sep) == range_contents(v@, rs@) + split_at_char(
                v@.subrange(start as int, hi as int),
                sep,
            ),
            s == v@.subrange(lo as int, hi as int),
        decreases hi - i,
    {
        if v[i] == sep {
            proof {
                let cur = v@.subrange(start as int, hi as int);
                let fi = i - start;
                assert(forall|j: int| 0 <= j < fi ==> cur[j] == v@[start + j]);
                assert(cur[fi] == v@[i as int]);
                lemma_split_at_first_sep(cur, sep, fi);
                assert(cur.take(fi) =~= v@.subrange(start as int, i as int));
                assert(cur.skip(fi + 1) =~= v@.subrange(i + 1 as int, hi as int));
                assert(range_contents(v@, rs@.push((start, i))) =~= range_contents(v@, rs@).push(
                    v@.subrange(start as int, i as int),
                ));
                assert(range_contents(v@, rs@).push(v@.subrange(start as int, i as int))
                    + split_at_char(v@.subrange(i + 1 as int, hi as int), sep) =~= range_contents(
                    v@,
                    rs@,
                ) + (seq![v@.subrange(start as int, i as int)] + split_at_char(
                    v@.subrange(i + 1 as int, hi as int),
                    sep,
                )));
            }
            rs.push((start, i));
            start = i + 1;
        }
        i = i + 1;
    }
    proof {
        let cur = v@.subrange(start as int, hi as int);
        assert(forall|j: int| 0 <= j < cur.len() ==> cur[j] == v@[start + j]);
        lemma_split_at_first_sep(cur, sep, cur.len() as int);
        assert(range_contents(v@, rs@.push((start, hi))) =~= range_contents(v@, rs@).push(cur));
        assert(range_contents(v@, rs@).push(cur) =~= range_contents(v@, rs@) + seq![cur]);
    }
    rs.push((start, hi));
    rs
}

/// Whether `c` is an ASCII decimal digit.
pub open spec fn is_digit(c: char) -> bool {
    48 <= c as u32 && c as u32 <= 57
}

/// The numeric value of a digit character.
pub open spec fn digit_of(c: char) -> int {
    c as u32 - 48
}

/// The value of the digit string `t` read left to right onto `acc`.
pub open spec fn dec_value_from(t: Seq<char>, acc: int) -> int
    decreases t.len(),
{
    if t.len() == 0 {
        acc
    } else {
        dec_value_from(t.drop_first(), acc * 10 + digit_of(t[0]))
    }
}

/// The value of the digit string `t`.
pub open spec fn dec_value(t: Seq<char>) -> int {
    dec_value_from(t, 0)
}

pub proof fn lemma_dec_value_from_ge_acc(t: Seq<char>, acc: int)
    requires
        acc >= 0,
        forall|i: int| 0 <= i < t.len() ==> is_digit(#[trigger] t[i]),
    ensures
        dec_value_from(t, acc) >= acc,
    decreases t.len(),
{
    if t.len() > 0 {
        assert(is_digit(t[0]));
        assert(forall|i: int| 0 <= i < t.drop_first().len() ==> is_digit(
            #[trigger] t.drop_first()[i],
        ));
        lemma_dec_value_from_ge_acc(t.drop_first(), acc * 10 + digit_of(t[0]));
    }
}

/// The unsigned 8-bit value that the digit string `d` denotes: one or more
/// decimal digits whose value is at most 255; any other shape denotes
/// nothing.
pub open spec fn digits_u8_of(d: Seq<char>) -> Option<u8> {
    if d.len() > 0 && (forall|i: int| 0 <= i < d.len() ==> is_digit(#[trigger] d[i])) && dec_value(
        d,
    ) <= 255 {
        Some(dec_value(d) as u8)
    } else {
        None
    }
}

/// The unsigned 8-bit value that the token `t` denotes: an optional leading
/// `+`, then one or more decimal digits whose value is at most 255; any
/// other shape denotes nothing.
pub open spec fn u8_of(t: Seq<char>) -> Option<u8> {
    digits_u8_of(
        if t.len() > 0 && t[0] == '+' {
            t.drop_first()
        } else {
            t
        },
    )
}

/// Reads `v[start..end]` as an unsigned 8-bit decimal number.
pub fn parse_u8_range(v: &Vec<char>, start: usize, end: usize) -> (r: Option<u8>)
    requires
        start <= end <= v@.len(),
    ensures
        r == u8_of(v@.subrange(start as int, end as int)),
{
    let ghost t = v@.subrange(start as int, end as int);
    let mut j = start;
    if j < end && v[j] == '+' {
        j = j + 1;
    }
    let ghost d = if t.len() > 0 && t[0] == '+' {
        t.drop_first()
    } else {
        t
    };
    proof {
        assert(d =~= v@.subrange(j as int, end as int));
    }
    if j == end {
        return None;
    }
    let ghost dstart = j as int;
    let mut acc: u32 = 0;
    while j < end
        invariant
            0 <= dstart,
            dstart <= j as int,
            j <= end <= v@.len(),
            t == v@.subrange(start as int, end as int),
            d == (if t.len() > 0 && t[0] == '+' {
                t.drop_first()
            } else {
                t
            }),
            d == v@.subrange(dstart, end as int),
            d.len() > 0,
            acc <= 255,
            forall|k: int| dstart <= k < j ==> is_digit(#[trigger] v@[k]),
            dec_value(d) == dec_value_from(v@.subrange(j as int, end as int), acc as int),
        decreases end - j,
    {
        let u = v[j] as u32;
        if u < 48 || u > 57 {
            proof {
                let dsub = v@.subrange(dstart, end as int);
                assert(dsub.len() == end - dstart);
                assert(d.len() == dsub.len());
                assert(0 <= j - dstart < d.len());
                assert(dsub[j - dstart] == v@[j as int]);
                assert(d[j - dstart] == dsub[j - dstart]);
                assert(!is_digit(d[j - dstart]));
                assert(digits_u8_of(d) is None);
                assert(u8_of(t) is None);
            }
            return None;
        }
        let dig = u - 48;
        proof {
            let rem = v@.subrange(j as int, end as int);
            assert(rem[0] == v@[j as int]);
            assert(rem.drop_first() =~= v@.subrange(j + 1 as int, end as int));
            assert(dec_value_from(rem, acc as int) == dec_value_from(
                v@.subrange(j + 1 as int, end as int),
                acc as int * 10 + digit_of(v@[j as int]),
            ));
        }
        if acc * 10 + dig > 255 {
            proof {
                let dsub = v@.subrange(dstart, end as int);
                let rem2 = v@.subrange(j + 1 as int, end as int);
                assert(dsub.len() == end - dstart);
                assert(d.len() == dsub.len());
                assert(rem2.len() == end - (j + 1));
                if forall|i: int| 0 <= i < d.len() ==> is_digit(#[trigger] d[i]) {
                    assert(forall|i: int| 0 <= i < rem2.len() ==> rem2[i] == dsub[j + 1 - dstart
                        + i]);
                    assert(forall|i: int| 0 <= i < rem2.len() ==> rem2[i] == d[j + 1 - dstart + i]);
                    assert(forall|i: int| 0 <= i < rem2.len() ==> is_digit(#[trigger] rem2[i]));
                    lemma_dec_value_from_ge_acc(rem2, acc as int * 10 + digit_of(v@[j as int]));
                    assert(dec_value(d) > 255);
                }
                assert(digits_u8_of(d) is None);
                assert(u8_of(t) is None);
            }
            return None;
        }
        acc = acc * 10 + dig;
        j = j + 1;
    }
    proof {
        let dsub = v@.subrange(dstart, end as int);
        assert(v@.subrange(j as int, end as int) =~= Seq::<char>::empty());
        assert(dec_value(d) == acc as int);
        assert(dsub.len() == end - dstart);
        assert(d.len() == dsub.len());
        assert(forall|i: int| 0 <= i < dsub.len() ==> dsub[i] == v@[dstart + i]);
        assert(forall|i: int| 0 <= i < d.len() ==> is_digit(#[trigger] d[i]));
        assert(digits_u8_of(d) == Some(acc as u8));
        assert(u8_of(t) == Some(acc as u8));
    }
    Some(acc as u8)
}

/// Whether `v[start..end]` spells exactly the word `w`.
pub fn range_matches(v: &Vec<char>, start: usize, end: usize, w: &str) -> (b: bool)
    requires
        start <= end <= v@.len(),
    ensures
        b == (v@.subrange(start as int, end as int) == w@),
{
    let n = w.unicode_len();
    if end - start != n {
        proof {
            assert(v@.subrange(start as int, end as int).len() != w@.len());
        }
        return false;
    }
    let mut i: usize = 0;
    while i < n
        invariant
            i <= n,
            n == w@.len(),
            start + n == end,
            end <= v@.len(),
            forall|k: int| 0 <= k < i ==> v@[start + k] == w@[k],
        decreases n - i,
    {
        if v[start + i] != w.get_char(i) {
            proof {
                assert(v@.subrange(start as int, end as int)[i as int] != w@[i as int]);
            }
            return false;
        }
        i = i + 1;
    }
    proof {
        assert(v@.subrange(start as int, end as int) =~= w@);
    }
    true
}

} // verus!
