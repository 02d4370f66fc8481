//! Character-level helpers shared by the parsers and formatters:
//! decimal digits, trimming, searching, and building numeric strings.

use vstd::prelude::*;

verus! {

/// Whether `c` counts as trimmable whitespace (executable form).
pub fn is_space_char(c: char) -> (r: bool)
    ensures
        r == is_space(c),
{
    c == ' ' || c == '\t' || c == '\r' || c == '\n'
}

/// Whether `c` is an ASCII decimal digit.
pub open spec fn is_digit(c: char) -> bool {
    48 <= c as u32 <= 57
}

/// Numeric value of a digit character.
pub open spec fn digit_val(c: char) -> int {
    c as u32 - 48
}

/// Whether every character of `s` is a decimal digit.
pub open spec fn all_digits(s: Seq<char>) -> bool {
    forall|i: int| 0 <= i < s.len() ==> is_digit(#[trigger] s[i])
}

/// Value of a digit string read in base ten; leading zeros are allowed.
pub open spec fn digits_val(s: Seq<char>) -> int
    decreases s.len(),
{
    if s.len() == 0 {
        0
    } else {
        digits_val(s.drop_last()) * 10 + digit_val(s.last())
    }
}

/// A digit string has a non-negative value.
pub proof fn lemma_digits_val_nonneg(s: Seq<char>)
    requires
        all_digits(s),
    ensures
        digits_val(s) >= 0,
    decreases s.len(),
{
    if s.len() > 0 {
        assert(all_digits(s.drop_last()));
        lemma_digits_val_nonneg(s.drop_last());
    }
}

/// Appending digits never lowers the value of a digit string.
pub proof fn lemma_digits_val_prefix(s: Seq<char>, i: int)
    requires
        all_digits(s),
        0 <= i <= s.len(),
    ensures
        digits_val(s.subrange(0, i)) <= digits_val(s),
    decreases s.len() - i,
{
    if i < s.len() {
        let t = s.subrange(0, i + 1);
        assert(t.drop_last() =~= s.subrange(0, i));
        assert(all_digits(t.drop_last()));
        lemma_digits_val_nonneg(t.drop_last());
        assert(digits_val(s.subrange(0, i)) <= digits_val(s.subrange(0, i + 1)));
        lemma_digits_val_prefix(s, i + 1);
    } else {
        assert(s.subrange(0, i) =~= s);
    }
}

/// A digit string of length at most four denotes a value below the
/// corresponding power of ten.
pub proof fn lemma_digits_val_upper(s: Seq<char>, bound: int)
    requires
        all_digits(s),
        s.len() <= 4,
        bound == if s.len() == 0 { 1int }
            else if s.len() == 1 { 10int }
            else if s.len() == 2 { 100int }
            else if s.len() == 3 { 1000int }
            else { 10000int },
    ensures
        0 <= digits_val(s) < bound,
    decreases s.len(),
{
    if s.len() == 0 {
    } else {
        assert(all_digits(s.drop_last()));
        lemma_digits_val_upper(s.drop_last(), bound / 10);
    }
}

/// Whether `c` counts as trimmable whitespace.
pub open spec fn is_space(c: char) -> bool {
    c == ' ' || c == '\t' || c == '\r' || c == '\n'
}

/// `s` with leading and trailing whitespace removed.
pub open spec fn trimmed(s: Seq<char>) -> Seq<char>
    decreases s.len(),
{
    if s.len() == 0 {
        s
    } else if is_space(s[0]) {
        trimmed(s.subrange(1, s.len() as int))
    } else if is_space(s.last()) {
        trimmed(s.drop_last())
    } else {
        s
    }
}

/// Index of the first occurrence of `c` in `s`, or the length if absent.
pub open spec fn find_char(s: Seq<char>, c: char) -> int
    decreases s.len(),
{
    if s.len() == 0 {
        0
    } else if s[0] == c {
        0
    } else {
        1 + find_char(s.subrange(1, s.len() as int), c)
    }
}

/// Character for the digit `d`.
pub open spec fn digit_char(d: int) -> char {
    if d == 0 { '0' }
    else if d == 1 { '1' }
    else if d == 2 { '2' }
    else if d == 3 { '3' }
    else if d == 4 { '4' }
    else if d == 5 { '5' }
    else if d == 6 { '6' }
    else if d == 7 { '7' }
    else if d == 8 { '8' }
    else if d == 9 { '9' }
    else { '0' }
}

/// Decimal rendering of a non-negative integer, without leading zeros.
pub open spec fn uint_string(v: int) -> Seq<char>
    decreases v,
{
    if v < 10 {
        seq![digit_char(v)]
    } else {
        uint_string(v / 10) + seq![digit_char(v % 10)]
    }
}

/// Trims leading and trailing whitespace from a string slice.
pub fn trim(s: &str) -> (r: &str)
    ensures
        r@ == trimmed(s@),
{
    let len = s.unicode_len();
    let mut from: usize = 0;
    let mut to: usize = len;
    proof {
        assert(s@.subrange(0, len as int) =~= s@);
    }
    while from < to && is_space_char(s.get_char(from))
        invariant
            0 <= from <= to <= len,
            len == s@.len(),
            trimmed(s@) == trimmed(s@.subrange(from as int, to as int)),
        decreases to - from,
    {
        proof {
            let t = s@.subrange(from as int, to as int);
            assert(t[0] == s@[from as int]);
            assert(is_space(t[0]));
            assert(t.subrange(1, t.len() as int)
                =~= s@.subrange(from as int + 1, to as int));
        }
        from = from + 1;
    }
    while from < to && is_space_char(s.get_char(to - 1))
        invariant
            0 <= from <= to <= len,
            len == s@.len(),
            trimmed(s@) == trimmed(s@.subrange(from as int, to as int)),
            from < to ==> !is_space(s@[from as int]),
        decreases to - from,
    {
        proof {
            let t = s@.subrange(from as int, to as int);
            assert(t[0] == s@[from as int]);
            assert(!is_space(t[0]));
            assert(t.last() == s@[to as int - 1]);
            assert(is_space(t.last()));
            assert(t.drop_last() =~= s@.subrange(from as int, to as int - 1));
        }
        to = to - 1;
    }
    proof {
        let t = s@.subrange(from as int, to as int);
        if from < to {
            assert(t[0] == s@[from as int]);
            assert(!is_space(t[0]));
            assert(t.last() == s@[to as int - 1]);
            assert(!is_space(t.last()));
            assert(trimmed(t) == t);
        } else {
            assert(t.len() == 0);
        }
    }
    s.substring_char(from, to)
}

/// Finds the first occurrence of `c` at or after `from`, as `find_char`
/// over the tail of the string.
pub fn find_from(s: &str, from: usize, c: char) -> (r: usize)
    requires
        from <= s@.len(),
    ensures
        r == from + find_char(s@.subrange(from as int, s@.len() as int), c),
        from <= r <= s@.len(),
{
    let len = s.unicode_len();
    let mut i: usize = from;
    while i < len && s.get_char(i) != c
        invariant
            from <= i <= len,
            len == s@.len(),
            find_char(s@.subrange(from as int, len as int), c)
                == (i - from) + find_char(s@.subrange(i as int, len as int), c),
        decreases len - i,
    {
        proof {
            let t = s@.subrange(i as int, len as int);
            assert(t[0] == s@[i as int]);
            assert(t.subrange(1, t.len() as int)
                =~= s@.subrange(i as int + 1, len as int));
        }
        i = i + 1;
    }
    proof {
        let t = s@.subrange(i as int, len as int);
        if i < len {
            assert(t[0] == s@[i as int]);
            assert(find_char(t, c) == 0);
        } else {
            assert(t.len() == 0);
            assert(find_char(t, c) == 0);
        }
    }
    i
}

/// Reads the digit-only range `[from, to)` of `s` as a base-ten value.
/// Returns `None` when the range holds a non-digit or the value
/// exceeds `limit`.
pub fn parse_digits(s: &str, from: usize, to: usize, limit: i64) -> (r: Option<i64>)
    requires
        from <= to <= s@.len(),
        limit >= 9,
    ensures
        ({
            let d = s@.subrange(from as int, to as int);
            match r {
                Some(v) => all_digits(d) && digits_val(d) == v && 0 <= v <= limit,
                None => !all_digits(d) || digits_val(d) > limit,
            }
        }),
{
    let ghost d = s@.subrange(from as int, to as int);
    let mut acc: i64 = 0;
    let mut i: usize = from;
    while i < to
        invariant
            from <= i <= to <= s@.len(),
            d == s@.subrange(from as int, to as int),
            all_digits(s@.subrange(from as int, i as int)),
            acc == digits_val(s@.subrange(from as int, i as int)),
            0 <= acc <= limit,
            limit >= 9,
        decreases to - i,
    {
        let c = s.get_char(i);
        let cu = c as u32;
        proof {
            assert(d[i - from] == s@[i as int]);
        }
        if cu < 48 || cu > 57 {
            proof {
                assert(!is_digit(d[i - from]));
            }
            return None;
        }
        let dv = (cu - 48) as i64;
        proof {
            let p = s@.subrange(from as int, i as int + 1);
            assert(p.drop_last() =~= s@.subrange(from as int, i as int));
            assert(p.last() == s@[i as int]);
        }
        proof {
            vstd::arithmetic::div_mod::lemma_fundamental_div_mod(
                limit as int - dv as int, 10);
            vstd::arithmetic::div_mod::lemma_mod_bound(
                limit as int - dv as int, 10);
        }
        if acc > (limit - dv) / 10 {
            proof {
                let p = s@.subrange(from as int, i as int + 1);
                assert(digits_val(p) == acc * 10 + dv);
                assert(digits_val(p) > limit);
                assert(p =~= d.subrange(0, i - from + 1));
                if all_digits(d) {
                    lemma_digits_val_prefix(d, i - from + 1);
                }
            }
            return None;
        }
        proof {
            assert(acc * 10 + dv <= limit);
        }
        acc = acc * 10 + dv;
        i = i + 1;
    }
    proof {
        assert(s@.subrange(from as int, i as int) =~= d);
    }
    Some(acc)
}

/// Whether two string slices hold the same characters.
pub fn str_eq(a: &str, b: &str) -> (r: bool)
    ensures
        r == (a@ == b@),
{
    let alen = a.unicode_len();
    let blen = b.unicode_len();
    if alen != blen {
        return false;
    }
    let mut i: usize = 0;
    while i < alen
        invariant
            0 <= i <= alen,
            alen == a@.len(),
            alen == b@.len(),
            forall|j: int| 0 <= j < i ==> a@[j] == b@[j],
        decreases alen - i,
    {
        if a.get_char(i) != b.get_char(i) {
            return false;
        }
        i = i + 1;
    }
    proof {
        assert(a@ =~= b@);
    }
    true
}

/// `s` with every occurrence of `pat` replaced by `rep`, scanning left
/// to right without revisiting replaced text; `s` unchanged when `pat`
/// is empty.
pub open spec fn replace_all_chars(s: Seq<char>, pat: Seq<char>, rep: Seq<char>) -> Seq<char>
    decreases s.len(),
{
    if pat.len() == 0 || s.len() < pat.len() {
        s
    } else if s.subrange(0, pat.len() as int) == pat {
        rep + replace_all_chars(s.subrange(pat.len() as int, s.len() as int), pat, rep)
    } else {
        seq![s[0]] + replace_all_chars(s.subrange(1, s.len() as int), pat, rep)
    }
}

/// Replaces every occurrence of `pat` in `s` with `rep`.
pub fn replace_all(s: &str, pat: &str, rep: &str) -> (r: String)
    ensures
        r@ == replace_all_chars(s@, pat@, rep@),
{
    let len = s.unicode_len();
    let plen = pat.unicode_len();
    if plen == 0 {
        return s.to_owned();
    }
    let mut out = String::new();
    let mut i: usize = 0;
    proof {
        assert(s@.subrange(0, len as int) =~= s@);
        assert(out@ + replace_all_chars(s@, pat@, rep@)
            =~= replace_all_chars(s@, pat@, rep@));
    }
    while i < len
        invariant
            0 <= i <= len,
            len == s@.len(),
            plen == pat@.len(),
            plen >= 1,
            replace_all_chars(s@, pat@, rep@)
                == out@ + replace_all_chars(
                    s@.subrange(i as int, len as int), pat@, rep@),
        decreases len - i,
    {
        let ghost rest = s@.subrange(i as int, len as int);
        let hit = if plen <= len - i {
            str_eq(s.substring_char(i, i + plen), pat)
        } else {
            false
        };
        proof {
            if i + plen <= len {
                assert(rest.subrange(0, pat@.len() as int)
                    =~= s@.subrange(i as int, i as int + plen));
            }
        }
        if hit {
            out.append(rep);
            proof {
                assert(rest.subrange(pat@.len() as int, rest.len() as int)
                    =~= s@.subrange(i as int + plen, len as int));
                assert(replace_all_chars(rest, pat@, rep@)
                    == rep@ + replace_all_chars(
                        s@.subrange(i as int + plen, len as int), pat@, rep@));
            }
            i = i + plen;
        } else {
            let piece = s.substring_char(i, i + 1);
            proof {
                assert(piece@ =~= seq![s@[i as int]]);
                assert(rest.subrange(1, rest.len() as int)
                    =~= s@.subrange(i as int + 1, len as int));
                if i + plen <= len {
                    assert(rest.subrange(0, pat@.len() as int) != pat@);
                } else {
                    assert(rest.len() < pat@.len());
                }
                assert(replace_all_chars(rest, pat@, rep@)
                    == seq![rest[0]] + replace_all_chars(
                        s@.subrange(i as int + 1, len as int), pat@, rep@));
            }
            out.append(piece);
            i = i + 1;
        }
    }
    proof {
        assert(s@.subrange(i as int, len as int).len() == 0);
        assert(replace_all_chars(
            s@.subrange(i as int, len as int), pat@, rep@).len() == 0);
        assert(out@ =~= out@ + replace_all_chars(
            s@.subrange(i as int, len as int), pat@, rep@));
    }
    out
}

/// Appends the decimal rendering of `v` to `out`.
pub fn push_uint(out: &mut String, v: u64)
    ensures
        final(out)@ == old(out)@ + uint_string(v as int),
    decreases v,
{
    if v < 10 {
        push_digit(out, (v % 10) as u8);
    } else {
        push_uint(out, v / 10);
        push_digit(out, (v % 10) as u8);
    }
}

/// Appends the digit `d` to `out`.
pub fn push_digit(out: &mut String, d: u8)
    requires
        d < 10,
    ensures
        final(out)@ == old(out)@ + seq![digit_char(d as int)],
{
    let piece: &str = if d == 0 { "0" }
        else if d == 1 { "1" }
        else if d == 2 { "2" }
        else if d == 3 { "3" }
        else if d == 4 { "4" }
        else if d == 5 { "5" }
        else if d == 6 { "6" }
        else if d == 7 { "7" }
        else if d == 8 { "8" }
        else { "9" };
    proof {
        reveal_strlit("0");
        reveal_strlit("1");
        reveal_strlit("2");
        reveal_strlit("3");
        reveal_strlit("4");
        reveal_strlit("5");
        reveal_strlit("6");
        reveal_strlit("7");
        reveal_strlit("8");
        reveal_strlit("9");
        assert(piece@ =~= seq![digit_char(d as int)]);
    }
    out.append(piece);
}

} // verus!
