//! Fixed-point money amounts.
//!
//! An amount is stored as a signed count of ten-thousandths (four decimal
//! places), bounded so that sums over any vector of amounts stay well inside
//! `i128` and pairwise sums stay inside `i64`.

use vstd::prelude::*;
use crate::text::{all_digits, digit_char, digits_val, find_char, uint_string};

verus! {

/// Largest magnitude, in units, that a `Money` may hold.
pub const MONEY_MAX_UNITS: i64 = 1_000_000_000_000_000_000;

/// A money amount: a signed count of ten-thousandths of the currency unit.
#[derive(Debug, Clone, Copy, PartialEq, Eq, Structural)]
pub struct Money {
    units: i64,
}

impl Money {
    /// The amount as an integer count of units.
    pub closed spec fn val(self) -> int {
        self.units as int
    }

    /// Magnitude bound that every `Money` value satisfies.
    #[verifier::type_invariant]
    pub open spec fn inv(self) -> bool {
        -MONEY_MAX_UNITS <= self.val() <= MONEY_MAX_UNITS
    }

    /// Ghost-level constructor from a unit count.
    pub closed spec fn spec_from_units(v: int) -> Money {
        Money { units: v as i64 }
    }

    /// `spec_from_units` holds the given count when it is in range.
    pub proof fn lemma_spec_from_units(v: int)
        requires
            -MONEY_MAX_UNITS <= v <= MONEY_MAX_UNITS,
        ensures
            Money::spec_from_units(v).val() == v,
    {
    }

    /// Two amounts with the same unit count are the same amount.
    pub proof fn lemma_val_injective(a: Money, b: Money)
        requires
            a.val() == b.val(),
        ensures
            a == b,
    {
    }

    /// The zero amount.
    pub fn zero() -> (r: Money)
        ensures
            r.val() == 0,
    {
        Money { units: 0 }
    }

    /// Builds an amount from a unit count.
    pub fn from_units(units: i64) -> (r: Money)
        requires
            -MONEY_MAX_UNITS <= units <= MONEY_MAX_UNITS,
        ensures
            r.val() == units,
    {
        Money { units }
    }

    /// Builds an amount from a unit count, refusing out-of-range counts.
    pub fn try_from_units(units: i64) -> (r: Option<Money>)
        ensures
            r matches Some(m) ==> m.val() == units,
            r is Some <==> -MONEY_MAX_UNITS <= units <= MONEY_MAX_UNITS,
    {
        if -MONEY_MAX_UNITS <= units && units <= MONEY_MAX_UNITS {
            Some(Money { units })
        } else {
            None
        }
    }

    /// The unit count.
    pub fn units(&self) -> (r: i64)
        ensures
            r == self.val(),
    {
        proof { use_type_invariant(self); }
        self.units
    }

    /// Whether the amount is zero.
    pub fn is_zero(&self) -> (r: bool)
        ensures
            r <==> self.val() == 0,
    {
        proof { use_type_invariant(self); }
        self.units == 0
    }

    /// Whether the amount is strictly negative.
    pub fn is_negative(&self) -> (r: bool)
        ensures
            r <==> self.val() < 0,
    {
        proof { use_type_invariant(self); }
        self.units < 0
    }

    /// Sum of two amounts.
    pub fn plus(&self, other: &Money) -> (r: Money)
        requires
            -MONEY_MAX_UNITS <= self.val() + other.val() <= MONEY_MAX_UNITS,
        ensures
            r.val() == self.val() + other.val(),
    {
        proof {
            use_type_invariant(self);
            use_type_invariant(other);
        }
        Money { units: self.units + other.units }
    }

    /// Difference of two amounts.
    pub fn minus(&self, other: &Money) -> (r: Money)
        requires
            -MONEY_MAX_UNITS <= self.val() - other.val() <= MONEY_MAX_UNITS,
        ensures
            r.val() == self.val() - other.val(),
    {
        proof {
            use_type_invariant(self);
            use_type_invariant(other);
        }
        Money { units: self.units - other.units }
    }

    /// Negation; total because the magnitude bound is symmetric.
    pub fn negated(&self) -> (r: Money)
        ensures
            r.val() == -self.val(),
    {
        proof { use_type_invariant(self); }
        Money { units: -self.units }
    }

    /// Magnitude of the amount.
    pub fn magnitude(&self) -> (r: Money)
        ensures
            r.val() == if self.val() >= 0 { self.val() } else { -self.val() },
    {
        proof { use_type_invariant(self); }
        if self.units < 0 {
            Money { units: -self.units }
        } else {
            *self
        }
    }

    /// Whether this amount is strictly below `other`.
    pub fn lt(&self, other: &Money) -> (r: bool)
        ensures
            r <==> self.val() < other.val(),
    {
        proof {
            use_type_invariant(self);
            use_type_invariant(other);
        }
        self.units < other.units
    }
}

/// Whether `c` survives stripping of currency marks.
pub open spec fn keeps_mark(c: char) -> bool {
    c != '$' && c != ','
}

/// `s` with every `$` and `,` removed.
pub open spec fn strip_marks(s: Seq<char>) -> Seq<char>
    decreases s.len(),
{
    if s.len() == 0 {
        s
    } else if keeps_mark(s.last()) {
        strip_marks(s.drop_last()) + seq![s.last()]
    } else {
        strip_marks(s.drop_last())
    }
}

/// Units carried by a fractional digit string of length `n` (at most four).
pub open spec fn frac_scale(n: int) -> int {
    if n == 0 { 10000 }
    else if n == 1 { 1000 }
    else if n == 2 { 100 }
    else if n == 3 { 10 }
    else { 1 }
}

/// Unit count denoted by an unsigned decimal string: an optional integer
/// part, an optional dot, and at most four fractional digits, with at
/// least one digit in all.
pub open spec fn unsigned_units_of(u: Seq<char>) -> Option<int> {
    let dot = find_char(u, '.');
    let ip = u.subrange(0, dot);
    if dot == u.len() {
        if all_digits(ip) && ip.len() >= 1 && digits_val(ip) * 10000 <= MONEY_MAX_UNITS {
            Some(digits_val(ip) * 10000)
        } else {
            None
        }
    } else {
        let fp = u.subrange(dot + 1, u.len() as int);
        if all_digits(ip) && all_digits(fp) && ip.len() + fp.len() >= 1 && fp.len() <= 4
            && digits_val(ip) * 10000 + digits_val(fp) * frac_scale(fp.len() as int)
                <= MONEY_MAX_UNITS
        {
            Some(digits_val(ip) * 10000 + digits_val(fp) * frac_scale(fp.len() as int))
        } else {
            None
        }
    }
}

/// Unit count denoted by `s`: currency marks are stripped, then an
/// optional sign precedes an unsigned decimal string.
pub open spec fn units_of_chars(s: Seq<char>) -> Option<int> {
    let t = strip_marks(s);
    if t.len() > 0 && (t[0] == '-' || t[0] == '+') {
        let rest = t.subrange(1, t.len() as int);
        match unsigned_units_of(rest) {
            Some(v) => Some(if t[0] == '-' { -v } else { v }),
            None => None,
        }
    } else {
        unsigned_units_of(t)
    }
}

/// Removes every `$` and `,` from `s`.
fn strip_money_marks(s: &str) -> (r: String)
    ensures
        r@ == strip_marks(s@),
{
    let len = s.unicode_len();
    let mut out = String::new();
    let mut i: usize = 0;
    while i < len
        invariant
            0 <= i <= len,
            len == s@.len(),
            out@ == strip_marks(s@.subrange(0, i as int)),
        decreases len - i,
    {
        let c = s.get_char(i);
        proof {
            let p = s@.subrange(0, i as int + 1);
            assert(p.drop_last() =~= s@.subrange(0, i as int));
            assert(p.last() == s@[i as int]);
        }
        if c != '$' && c != ',' {
            let piece = s.substring_char(i, i + 1);
            proof {
                assert(piece@ =~= seq![s@[i as int]]);
            }
            out.append(piece);
        }
        i = i + 1;
    }
    proof {
        assert(s@.subrange(0, len as int) =~= s@);
    }
    out
}

impl Money {
    /// Parses a decimal amount. Currency marks `$` and `,` are ignored;
    /// an optional sign precedes digits with at most four decimal places;
    /// amounts beyond the magnitude bound are refused.
    pub fn parse(s: &str) -> (r: Option<Money>)
        ensures
            r matches Some(m) ==> units_of_chars(s@) == Some(m.val()),
            r is Some <==> units_of_chars(s@) is Some,
    {
        let f = strip_money_marks(s);
        let fs: &str = f.as_str();
        let len = fs.unicode_len();
        let ghost t = fs@;
        let mut start: usize = 0;
        let mut negative = false;
        if len > 0 {
            let c0 = fs.get_char(0);
            if c0 == '-' {
                negative = true;
                start = 1;
            } else if c0 == '+' {
                start = 1;
            }
        }
        let ghost u = t.subrange(start as int, t.len() as int);
        proof {
            if start == 0 {
                assert(u =~= t);
            }
        }
        let dot = crate::text::find_from(fs, start, '.');
        proof {
            assert(u.subrange(0, dot - start) =~= t.subrange(start as int, dot as int));
        }
        let ip = crate::text::parse_digits(fs, start, dot, MONEY_MAX_UNITS);
        let ghost ipv = u.subrange(0, dot - start);
        if dot == len {
            // no fractional part
            match ip {
                Some(v) => {
                    if dot == start {
                        proof { assert(ipv.len() == 0); }
                        None
                    } else if v > MONEY_MAX_UNITS / 10_000 {
                        proof {
                            assert(v * 10000 > MONEY_MAX_UNITS) by (nonlinear_arith)
                                requires v > MONEY_MAX_UNITS / 10_000
                                    && MONEY_MAX_UNITS == 1_000_000_000_000_000_000;
                        }
                        None
                    } else {
                        let units_mag = v * 10_000;
                        proof {
                            assert(v * 10000 <= MONEY_MAX_UNITS) by (nonlinear_arith)
                                requires v <= MONEY_MAX_UNITS / 10_000
                                    && MONEY_MAX_UNITS == 1_000_000_000_000_000_000;
                        }
                        let units = if negative { -units_mag } else { units_mag };
                        Some(Money { units })
                    }
                },
                None => {
                    proof {
                        if all_digits(ipv) {
                            crate::text::lemma_digits_val_nonneg(ipv);
                            assert(digits_val(ipv) > MONEY_MAX_UNITS);
                            assert(digits_val(ipv) * 10000 > MONEY_MAX_UNITS)
                                by (nonlinear_arith)
                                requires digits_val(ipv) > MONEY_MAX_UNITS
                                    && MONEY_MAX_UNITS == 1_000_000_000_000_000_000;
                        }
                    }
                    None
                },
            }
        } else {
            let ghost fpv = u.subrange(dot - start + 1, u.len() as int);
            proof {
                assert(fpv =~= t.subrange(dot as int + 1, t.len() as int));
            }
            let fp_len = len - dot - 1;
            if fp_len > 4 {
                return None;
            }
            let fp = crate::text::parse_digits(fs, dot + 1, len, 9_999);
            proof {
                if all_digits(fpv) {
                    crate::text::lemma_digits_val_nonneg(fpv);
                }
            }
            match (ip, fp) {
                (Some(iv), Some(fv)) => {
                    if dot == start && fp_len == 0 {
                        proof {
                            assert(ipv.len() + fpv.len() == 0);
                        }
                        return None;
                    }
                    let scale: i64 = if fp_len == 0 { 10_000 }
                        else if fp_len == 1 { 1_000 }
                        else if fp_len == 2 { 100 }
                        else if fp_len == 3 { 10 }
                        else { 1 };
                    let total: i128 = (iv as i128) * 10_000 + (fv as i128) * (scale as i128);
                    proof {
                        assert(iv * 10000 <= MONEY_MAX_UNITS * 10000) by (nonlinear_arith)
                            requires 0 <= iv <= MONEY_MAX_UNITS;
                        assert(0 <= fv * scale <= 9999 * 10000) by (nonlinear_arith)
                            requires 0 <= fv <= 9999 && 1 <= scale <= 10000;
                        assert(iv * 10000 >= 0) by (nonlinear_arith)
                            requires iv >= 0;
                    }
                    if total > MONEY_MAX_UNITS as i128 {
                        return None;
                    }
                    let units_mag = total as i64;
                    let units = if negative { -units_mag } else { units_mag };
                    Some(Money { units })
                },
                (None, _) => {
                    proof {
                        if all_digits(ipv) {
                            crate::text::lemma_digits_val_nonneg(ipv);
                            if all_digits(fpv) {
                                crate::text::lemma_digits_val_nonneg(fpv);
                                assert(digits_val(ipv) * 10000 > MONEY_MAX_UNITS)
                                    by (nonlinear_arith)
                                    requires digits_val(ipv) > MONEY_MAX_UNITS
                                        && MONEY_MAX_UNITS == 1_000_000_000_000_000_000;
                                assert(digits_val(fpv) * frac_scale(fpv.len() as int) >= 0)
                                    by (nonlinear_arith)
                                    requires digits_val(fpv) >= 0
                                        && frac_scale(fpv.len() as int) >= 1;
                            }
                        }
                    }
                    None
                },
                (_, None) => {
                    proof {
                        if all_digits(fpv) {
                            crate::text::lemma_digits_val_upper(
                                fpv,
                                if fpv.len() == 0 { 1int }
                                else if fpv.len() == 1 { 10int }
                                else if fpv.len() == 2 { 100int }
                                else if fpv.len() == 3 { 1000int }
                                else { 10000int },
                            );
                        }
                    }
                    None
                },
            }
        }
    }
}

/// Fractional display digits with at least two and at most four decimal
/// places, trailing zeros beyond the second place stripped.
pub open spec fn frac_chars_min2(frac: int) -> Seq<char> {
    let d1 = digit_char(frac / 1000);
    let d2 = digit_char((frac / 100) % 10);
    let d3 = digit_char((frac / 10) % 10);
    let d4 = digit_char(frac % 10);
    if frac % 100 == 0 {
        seq!['.', d1, d2]
    } else if frac % 10 == 0 {
        seq!['.', d1, d2, d3]
    } else {
        seq!['.', d1, d2, d3, d4]
    }
}

/// Fractional display digits with every trailing zero stripped; empty
/// when the amount is whole.
pub open spec fn frac_chars_plain(frac: int) -> Seq<char> {
    let d1 = digit_char(frac / 1000);
    let d2 = digit_char((frac / 100) % 10);
    let d3 = digit_char((frac / 10) % 10);
    let d4 = digit_char(frac % 10);
    if frac == 0 {
        Seq::empty()
    } else if frac % 1000 == 0 {
        seq!['.', d1]
    } else if frac % 100 == 0 {
        seq!['.', d1, d2]
    } else if frac % 10 == 0 {
        seq!['.', d1, d2, d3]
    } else {
        seq!['.', d1, d2, d3, d4]
    }
}

/// Currency rendering of a money value: `$` before the magnitude, the
/// whole rendering in parentheses when negative, and at least two
/// decimal places.
pub open spec fn display_chars(v: int) -> Seq<char> {
    let mag = if v < 0 { -v } else { v };
    let body = seq!['$'] + uint_string(mag / 10000) + frac_chars_min2(mag % 10000);
    if v < 0 {
        seq!['('] + body + seq![')']
    } else {
        body
    }
}

/// Plain numeric rendering of a money value: a `-` sign when negative
/// and no more decimal places than needed.
pub open spec fn plain_chars(v: int) -> Seq<char> {
    let mag = if v < 0 { -v } else { v };
    let body = uint_string(mag / 10000) + frac_chars_plain(mag % 10000);
    if v < 0 {
        seq!['-'] + body
    } else {
        body
    }
}

impl Money {
    /// Renders the amount with a currency mark, negative amounts in
    /// parentheses, as `$12.50` or `($3.075)`.
    pub fn display_string(&self) -> (r: String)
        ensures
            r@ == display_chars(self.val()),
    {
        proof { use_type_invariant(self); }
        let neg = self.units < 0;
        let mag = if neg { (-self.units) as u64 } else { self.units as u64 };
        let mut out = String::new();
        if neg {
            push_lit(&mut out, 0);
        }
        push_lit(&mut out, 2);
        crate::text::push_uint(&mut out, mag / 10_000);
        let frac = mag % 10_000;
        push_lit(&mut out, 3);
        crate::text::push_digit(&mut out, (frac / 1_000) as u8);
        crate::text::push_digit(&mut out, ((frac / 100) % 10) as u8);
        if frac % 100 != 0 {
            crate::text::push_digit(&mut out, ((frac / 10) % 10) as u8);
            if frac % 10 != 0 {
                crate::text::push_digit(&mut out, (frac % 10) as u8);
            }
        }
        if neg {
            push_lit(&mut out, 1);
        }
        proof {
            assert(out@ =~= display_chars(self.val()));
        }
        out
    }

    /// Renders the amount as a bare decimal number, as `-60.5` or `310`.
    pub fn plain_string(&self) -> (r: String)
        ensures
            r@ == plain_chars(self.val()),
    {
        proof { use_type_invariant(self); }
        let neg = self.units < 0;
        let mag = if neg { (-self.units) as u64 } else { self.units as u64 };
        let mut out = String::new();
        if neg {
            push_lit(&mut out, 4);
        }
        crate::text::push_uint(&mut out, mag / 10_000);
        let frac = mag % 10_000;
        if frac != 0 {
            push_lit(&mut out, 3);
            crate::text::push_digit(&mut out, (frac / 1_000) as u8);
            if frac % 1_000 != 0 {
                crate::text::push_digit(&mut out, ((frac / 100) % 10) as u8);
                if frac % 100 != 0 {
                    crate::text::push_digit(&mut out, ((frac / 10) % 10) as u8);
                    if frac % 10 != 0 {
                        crate::text::push_digit(&mut out, (frac % 10) as u8);
                    }
                }
            }
        }
        proof {
            assert(out@ =~= plain_chars(self.val()));
        }
        out
    }
}

/// Appends one punctuation mark, chosen by index, to `out`.
fn push_lit(out: &mut String, which: u8)
    requires
        which < 5,
    ensures
        final(out)@ == old(out)@ + seq![
            if which == 0 { '(' } else if which == 1 { ')' }
            else if which == 2 { '$' } else if which == 3 { '.' }
            else { '-' }
        ],
{
    let piece: &str = if which == 0 { "(" }
        else if which == 1 { ")" }
        else if which == 2 { "$" }
        else if which == 3 { "." }
        else { "-" };
    proof {
        reveal_strlit("(");
        reveal_strlit(")");
        reveal_strlit("$");
        reveal_strlit(".");
        reveal_strlit("-");
        assert(piece@ =~= seq![
            if which == 0 { '(' } else if which == 1 { ')' }
            else if which == 2 { '$' } else if which == 3 { '.' }
            else { '-' }
        ]);
    }
    out.append(piece);
}

impl Default for Money {
    /// The zero amount.
    fn default() -> (r: Money)
        ensures
            r.val() == 0,
    {
        Money { units: 0 }
    }
}

} // verus!
