//! Signed journal amounts, journal lines, and balanced sets of lines.

use vstd::prelude::*;
use crate::date::Date;
use crate::money::{Money, MONEY_MAX_UNITS};

verus! {

/// Name of a ledger account.
pub type JournalAccount = String;

/// An amount tagged with its ledger direction.
#[derive(Debug, Clone, Copy, PartialEq, Eq, Structural)]
pub enum JournalAmount {
    Debit(Money),
    Credit(Money),
}

impl JournalAmount {
    /// The amount as a signed unit count: debits positive, credits negative.
    pub open spec fn signed_val(self) -> int {
        match self {
            JournalAmount::Debit(m) => m.val(),
            JournalAmount::Credit(m) => -m.val(),
        }
    }

    /// The magnitude of the amount, in units.
    pub open spec fn magnitude_val(self) -> int {
        match self {
            JournalAmount::Debit(m) => m.val(),
            JournalAmount::Credit(m) => m.val(),
        }
    }

    /// The amount with its direction swapped.
    pub open spec fn spec_invert(self) -> JournalAmount {
        match self {
            JournalAmount::Debit(m) => JournalAmount::Credit(m),
            JournalAmount::Credit(m) => JournalAmount::Debit(m),
        }
    }

    /// The canonical amount holding the signed unit count `v`:
    /// a debit when `v` is non-negative, else a credit of the negation.
    pub open spec fn spec_of_signed(v: int) -> JournalAmount {
        if v >= 0 {
            JournalAmount::Debit(Money::spec_from_units(v))
        } else {
            JournalAmount::Credit(Money::spec_from_units(-v))
        }
    }

    /// A fresh zero amount, tagged as a debit.
    pub fn new() -> (r: JournalAmount)
        ensures
            r == JournalAmount::Debit(Money::spec_from_units(0)),
    {
        let z = Money::zero();
        proof {
            Money::lemma_spec_from_units(0);
            Money::lemma_val_injective(z, Money::spec_from_units(0));
        }
        JournalAmount::Debit(z)
    }

    /// A debit of the given amount.
    pub fn debit(m: Money) -> (r: JournalAmount)
        ensures
            r == JournalAmount::Debit(m),
    {
        JournalAmount::Debit(m)
    }

    /// A credit of the given amount.
    pub fn credit(m: Money) -> (r: JournalAmount)
        ensures
            r == JournalAmount::Credit(m),
    {
        JournalAmount::Credit(m)
    }

    /// The inner amount when this is a debit.
    pub fn as_debit(&self) -> (r: Option<Money>)
        ensures
            r == match *self {
                JournalAmount::Debit(m) => Some(m),
                JournalAmount::Credit(_) => None::<Money>,
            },
    {
        match self {
            JournalAmount::Debit(m) => Some(*m),
            JournalAmount::Credit(_) => None,
        }
    }

    /// The inner amount when this is a credit.
    pub fn as_credit(&self) -> (r: Option<Money>)
        ensures
            r == match *self {
                JournalAmount::Credit(m) => Some(m),
                JournalAmount::Debit(_) => None::<Money>,
            },
    {
        match self {
            JournalAmount::Debit(_) => None,
            JournalAmount::Credit(m) => Some(*m),
        }
    }

    /// Whether this is a debit.
    pub fn is_debit(&self) -> (r: bool)
        ensures
            r == (*self is Debit),
    {
        match self {
            JournalAmount::Debit(_) => true,
            JournalAmount::Credit(_) => false,
        }
    }

    /// Whether this is a credit.
    pub fn is_credit(&self) -> (r: bool)
        ensures
            r == (*self is Credit),
    {
        match self {
            JournalAmount::Debit(_) => false,
            JournalAmount::Credit(_) => true,
        }
    }

    /// Swaps the direction of the amount, keeping the magnitude.
    pub fn invert(&self) -> (r: JournalAmount)
        ensures
            r == self.spec_invert(),
    {
        match self {
            JournalAmount::Debit(m) => JournalAmount::Credit(*m),
            JournalAmount::Credit(m) => JournalAmount::Debit(*m),
        }
    }

    /// The magnitude of the amount, without its direction.
    pub fn abs_amount(&self) -> (r: Money)
        ensures
            r.val() == self.magnitude_val(),
    {
        match self {
            JournalAmount::Debit(m) => *m,
            JournalAmount::Credit(m) => *m,
        }
    }

    /// Adds `other` to this amount, treating credits as negative; the
    /// result is a debit exactly when the signed sum is non-negative.
    pub fn accumulate(&self, other: &JournalAmount) -> (r: JournalAmount)
        requires
            -MONEY_MAX_UNITS <= self.signed_val() + other.signed_val() <= MONEY_MAX_UNITS,
        ensures
            r == JournalAmount::spec_of_signed(self.signed_val() + other.signed_val()),
            r.signed_val() == self.signed_val() + other.signed_val(),
    {
        proof {
            match *self {
                JournalAmount::Debit(m) => use_type_invariant(m),
                JournalAmount::Credit(m) => use_type_invariant(m),
            }
            match *other {
                JournalAmount::Debit(m) => use_type_invariant(m),
                JournalAmount::Credit(m) => use_type_invariant(m),
            }
        }
        let a = match self {
            JournalAmount::Debit(m) => m.units(),
            JournalAmount::Credit(m) => -m.units(),
        };
        let b = match other {
            JournalAmount::Debit(m) => m.units(),
            JournalAmount::Credit(m) => -m.units(),
        };
        let sum = a + b;
        proof {
            Money::lemma_spec_from_units(sum as int);
            Money::lemma_spec_from_units(-(sum as int));
        }
        if sum >= 0 {
            let m = Money::from_units(sum);
            proof {
                Money::lemma_val_injective(m, Money::spec_from_units(sum as int));
            }
            JournalAmount::Debit(m)
        } else {
            let m = Money::from_units(-sum);
            proof {
                Money::lemma_val_injective(m, Money::spec_from_units(-(sum as int)));
            }
            JournalAmount::Credit(m)
        }
    }

    /// As `accumulate`, refusing sums beyond the magnitude bound
    /// instead of requiring them away.
    pub fn checked_accumulate(&self, other: &JournalAmount) -> (r: Option<JournalAmount>)
        ensures
            r is Some <==> -MONEY_MAX_UNITS
                <= self.signed_val() + other.signed_val() <= MONEY_MAX_UNITS,
            r matches Some(a) ==> a
                == JournalAmount::spec_of_signed(self.signed_val() + other.signed_val()),
    {
        proof {
            match *self {
                JournalAmount::Debit(m) => use_type_invariant(m),
                JournalAmount::Credit(m) => use_type_invariant(m),
            }
            match *other {
                JournalAmount::Debit(m) => use_type_invariant(m),
                JournalAmount::Credit(m) => use_type_invariant(m),
            }
        }
        let a = match self {
            JournalAmount::Debit(m) => m.units(),
            JournalAmount::Credit(m) => -m.units(),
        };
        let b = match other {
            JournalAmount::Debit(m) => m.units(),
            JournalAmount::Credit(m) => -m.units(),
        };
        let sum = a + b;
        if -MONEY_MAX_UNITS <= sum && sum <= MONEY_MAX_UNITS {
            Some(self.accumulate(other))
        } else {
            None
        }
    }
}

impl Default for JournalAmount {
    /// A zero debit.
    fn default() -> (r: JournalAmount)
        ensures
            r == JournalAmount::Debit(Money::spec_from_units(0)),
    {
        JournalAmount::new()
    }
}

/// Inverting twice gives back the original amount.
pub proof fn lemma_invert_involutive(a: JournalAmount)
    ensures
        a.spec_invert().spec_invert() == a,
{
}

/// Accumulation is commutative: both orders give the same canonical amount.
pub proof fn lemma_accumulate_commutes(a: JournalAmount, b: JournalAmount)
    ensures
        JournalAmount::spec_of_signed(a.signed_val() + b.signed_val())
            == JournalAmount::spec_of_signed(b.signed_val() + a.signed_val()),
{
}

/// One journal line: an account name and a signed amount.
#[derive(Debug, PartialEq)]
pub struct JournalLine(pub JournalAccount, pub JournalAmount);

impl Clone for JournalLine {
    /// An exact copy of the line.
    fn clone(&self) -> (r: JournalLine)
        ensures
            r == *self,
    {
        JournalLine(self.0.clone(), self.1)
    }
}

/// Total of the debit amounts of `s`, in units.
pub open spec fn debit_total(s: Seq<JournalLine>) -> int
    decreases s.len(),
{
    if s.len() == 0 {
        0
    } else {
        debit_total(s.drop_last()) + match s.last().1 {
            JournalAmount::Debit(m) => m.val(),
            JournalAmount::Credit(_) => 0,
        }
    }
}

/// Total of the credit amounts of `s`, in units.
pub open spec fn credit_total(s: Seq<JournalLine>) -> int
    decreases s.len(),
{
    if s.len() == 0 {
        0
    } else {
        credit_total(s.drop_last()) + match s.last().1 {
            JournalAmount::Credit(m) => m.val(),
            JournalAmount::Debit(_) => 0,
        }
    }
}

/// The debit lines of `s`, in order.
pub open spec fn debits_of(s: Seq<JournalLine>) -> Seq<JournalLine>
    decreases s.len(),
{
    if s.len() == 0 {
        s
    } else if s.last().1 is Debit {
        debits_of(s.drop_last()) + seq![s.last()]
    } else {
        debits_of(s.drop_last())
    }
}

/// The credit lines of `s`, in order.
pub open spec fn credits_of(s: Seq<JournalLine>) -> Seq<JournalLine>
    decreases s.len(),
{
    if s.len() == 0 {
        s
    } else if s.last().1 is Credit {
        credits_of(s.drop_last()) + seq![s.last()]
    } else {
        credits_of(s.drop_last())
    }
}

/// Stable partition of `s` with every debit line before every credit line.
pub open spec fn debits_first(s: Seq<JournalLine>) -> Seq<JournalLine> {
    debits_of(s) + credits_of(s)
}

/// Totals of a single line.
proof fn lemma_total_singleton(l: JournalLine)
    ensures
        debit_total(seq![l]) == match l.1 {
            JournalAmount::Debit(m) => m.val(),
            JournalAmount::Credit(_) => 0,
        },
        credit_total(seq![l]) == match l.1 {
            JournalAmount::Credit(m) => m.val(),
            JournalAmount::Debit(_) => 0,
        },
{
    let s = seq![l];
    assert(s.len() == 1);
    assert(s.last() == l);
    assert(s.drop_last() =~= Seq::<JournalLine>::empty());
    assert(debit_total(Seq::<JournalLine>::empty()) == 0);
    assert(credit_total(Seq::<JournalLine>::empty()) == 0);
}

/// Totals distribute over concatenation.
proof fn lemma_totals_concat(a: Seq<JournalLine>, b: Seq<JournalLine>)
    ensures
        debit_total(a + b) == debit_total(a) + debit_total(b),
        credit_total(a + b) == credit_total(a) + credit_total(b),
    decreases b.len(),
{
    if b.len() == 0 {
        assert(a + b =~= a);
    } else {
        assert((a + b).drop_last() =~= a + b.drop_last());
        assert((a + b).last() == b.last());
        lemma_totals_concat(a, b.drop_last());
    }
}

/// The stable partition keeps both totals and the length, every line of
/// the debit half is a debit, and every line of the credit half a credit.
pub proof fn lemma_partition(s: Seq<JournalLine>)
    ensures
        debit_total(debits_of(s)) == debit_total(s),
        credit_total(debits_of(s)) == 0,
        debit_total(credits_of(s)) == 0,
        credit_total(credits_of(s)) == credit_total(s),
        debits_of(s).len() + credits_of(s).len() == s.len(),
        forall|i: int| 0 <= i < debits_of(s).len()
            ==> (#[trigger] debits_of(s)[i]).1 is Debit,
        forall|i: int| 0 <= i < credits_of(s).len()
            ==> (#[trigger] credits_of(s)[i]).1 is Credit,
    decreases s.len(),
{
    if s.len() > 0 {
        lemma_partition(s.drop_last());
        lemma_total_singleton(s.last());
        if s.last().1 is Debit {
            lemma_totals_concat(debits_of(s.drop_last()), seq![s.last()]);
        } else {
            lemma_totals_concat(credits_of(s.drop_last()), seq![s.last()]);
        }
    }
}

/// Why a set of journal lines could not be built.
#[derive(Debug, Clone, Copy, PartialEq, Eq, Structural)]
pub enum BalanceError {
    /// No lines were given.
    EmptyEntry,
    /// Totals differ and no balance account was given.
    Unbalanced,
    /// A total or the balancing difference exceeds the representable range.
    Overflow,
}

impl BalanceError {
    /// A short description of the failure.
    pub fn message(&self) -> (r: String)
        ensures
            r@ == match *self {
                BalanceError::EmptyEntry => "Journal lines cannot be empty"@,
                BalanceError::Unbalanced =>
                    "Journal credits and debits are not equal and no balance account given"@,
                BalanceError::Overflow => "Journal amounts exceed the representable range"@,
            },
    {
        match self {
            BalanceError::EmptyEntry => "Journal lines cannot be empty".to_owned(),
            BalanceError::Unbalanced =>
                "Journal credits and debits are not equal and no balance account given"
                .to_owned(),
            BalanceError::Overflow =>
                "Journal amounts exceed the representable range".to_owned(),
        }
    }
}

/// A non-empty set of journal lines whose debit and credit totals are
/// equal, ordered with every debit line before every credit line.
#[derive(Debug)]
pub struct JournalLines {
    lines: Vec<JournalLine>,
}

impl View for JournalLines {
    type V = Seq<JournalLine>;

    closed spec fn view(&self) -> Seq<JournalLine> {
        self.lines@
    }
}

impl JournalLines {
    /// Well-formedness: non-empty, balanced, and debits first.
    pub open spec fn wf(self) -> bool {
        &&& self@.len() > 0
        &&& debit_total(self@) == credit_total(self@)
        &&& forall|i: int, j: int| 0 <= i < j < self@.len()
            ==> !((#[trigger] self@[i]).1 is Credit && (#[trigger] self@[j]).1 is Debit)
    }

    /// Whether building from these lines fails, and how: empty input is
    /// refused; unequal totals are refused without a balance account;
    /// a balancing difference beyond the representable range is refused.
    pub open spec fn build_error(
        lines: Seq<JournalLine>,
        balance_account: Option<JournalAccount>,
    ) -> Option<BalanceError> {
        let dt = debit_total(lines);
        let ct = credit_total(lines);
        if lines.len() == 0 {
            Some(BalanceError::EmptyEntry)
        } else if dt == ct {
            None
        } else if balance_account is None {
            Some(BalanceError::Unbalanced)
        } else if dt - ct > MONEY_MAX_UNITS || ct - dt > MONEY_MAX_UNITS {
            Some(BalanceError::Overflow)
        } else {
            None
        }
    }

    /// Builds a balanced set of lines. When the given lines do not
    /// balance and a balance account is supplied, one line on that
    /// account for the difference is appended. The result is stably
    /// sorted with debits first.
    pub fn new(
        lines: Vec<JournalLine>,
        balance_account: Option<JournalAccount>,
    ) -> (r: Result<JournalLines, BalanceError>)
        ensures
            ({
                let dt = debit_total(lines@);
                let ct = credit_total(lines@);
                match r {
                    Ok(ls) => {
                        &&& Self::build_error(lines@, balance_account) is None
                        &&& ls.wf()
                        &&& if dt == ct {
                                ls@ == debits_first(lines@)
                            } else {
                                balance_account is Some
                                && exists|bal: JournalLine|
                                    (#[trigger] bal.0)@ == balance_account.unwrap()@
                                    && bal.1 == (if dt > ct {
                                        JournalAmount::Credit(Money::spec_from_units(dt - ct))
                                    } else {
                                        JournalAmount::Debit(Money::spec_from_units(ct - dt))
                                    })
                                    && ls@ == debits_first(lines@.push(bal))
                            }
                    },
                    Err(e) => Self::build_error(lines@, balance_account) == Some(e),
                }
            }),
    {
        let ghost orig = lines@;
        let ghost ba_spec = balance_account;
        if lines.len() == 0 {
            return Err(BalanceError::EmptyEntry);
        }
        let (dt, ct) = totals(&lines);
        if dt == ct {
            let sorted = partition_debits_first(&lines);
            let ls = JournalLines { lines: sorted };
            proof {
                lemma_partition(orig);
                lemma_totals_concat(debits_of(orig), credits_of(orig));
                lemma_debits_first_sorted(orig);
                assert(ls.wf());
            }
            Ok(ls)
        } else {
            match balance_account {
                None => Err(BalanceError::Unbalanced),
                Some(acct) => {
                    let diff = dt - ct;
                    if diff > MONEY_MAX_UNITS as i128 || diff < -(MONEY_MAX_UNITS as i128) {
                        Err(BalanceError::Overflow)
                    } else {
                        let mut ext = lines;
                        let amount = if diff > 0 {
                            let m = Money::from_units(diff as i64);
                            proof {
                                Money::lemma_spec_from_units(diff as int);
                                Money::lemma_val_injective(
                                    m, Money::spec_from_units(diff as int));
                            }
                            JournalAmount::Credit(m)
                        } else {
                            let m = Money::from_units((-diff) as i64);
                            proof {
                                Money::lemma_spec_from_units(-(diff as int));
                                Money::lemma_val_injective(
                                    m, Money::spec_from_units(-(diff as int)));
                            }
                            JournalAmount::Debit(m)
                        };
                        let bal = JournalLine(acct, amount);
                        let ghost balg = bal;
                        ext.push(bal);
                        proof {
                            assert(ext@ =~= orig.push(balg));
                            assert(ext@.drop_last() =~= orig);
                            assert(ext@.last() == balg);
                            assert(debit_total(ext@)
                                == debit_total(orig) + (if diff > 0 { 0int } else { ct - dt }));
                            assert(credit_total(ext@)
                                == credit_total(orig) + (if diff > 0 { dt - ct } else { 0int }));
                        }
                        let sorted = partition_debits_first(&ext);
                        let ls = JournalLines { lines: sorted };
                        proof {
                            lemma_partition(ext@);
                            lemma_totals_concat(debits_of(ext@), credits_of(ext@));
                            lemma_debits_first_sorted(ext@);
                            assert(ls.wf());
                            assert(balg.0@ == ba_spec.unwrap()@
                                && balg.1 == (if debit_total(orig) > credit_total(orig) {
                                    JournalAmount::Credit(Money::spec_from_units(
                                        debit_total(orig) - credit_total(orig)))
                                } else {
                                    JournalAmount::Debit(Money::spec_from_units(
                                        credit_total(orig) - debit_total(orig)))
                                })
                                && ls@ == debits_first(orig.push(balg)));
                        }
                        Ok(ls)
                    }
                },
            }
        }
    }

    /// Number of lines.
    pub fn len(&self) -> (r: usize)
        ensures
            r == self@.len(),
    {
        self.lines.len()
    }

    /// The line at `i`.
    pub fn line(&self, i: usize) -> (r: &JournalLine)
        requires
            i < self@.len(),
        ensures
            *r == self@[i as int],
    {
        &self.lines[i]
    }

    /// An exact copy of the lines as a plain vector.
    pub fn to_vec(&self) -> (r: Vec<JournalLine>)
        ensures
            r@ == self@,
    {
        let mut out: Vec<JournalLine> = Vec::new();
        let mut i: usize = 0;
        while i < self.lines.len()
            invariant
                0 <= i <= self.lines@.len(),
                out@ =~= self.lines@.subrange(0, i as int),
            decreases self.lines@.len() - i,
        {
            out.push(self.lines[i].clone());
            proof {
                assert(out@ =~= self.lines@.subrange(0, i as int + 1));
            }
            i = i + 1;
        }
        proof {
            assert(self.lines@.subrange(0, i as int) =~= self.lines@);
        }
        out
    }

    /// An exact copy of the lines.
    pub fn duplicate(&self) -> (r: JournalLines)
        ensures
            r@ == self@,
    {
        let mut out: Vec<JournalLine> = Vec::new();
        let mut i: usize = 0;
        while i < self.lines.len()
            invariant
                0 <= i <= self.lines@.len(),
                out@ =~= self.lines@.subrange(0, i as int),
            decreases self.lines@.len() - i,
        {
            out.push(self.lines[i].clone());
            proof {
                assert(out@ =~= self.lines@.subrange(0, i as int + 1));
            }
            i = i + 1;
        }
        proof {
            assert(self.lines@.subrange(0, i as int) =~= self.lines@);
        }
        JournalLines { lines: out }
    }
}

/// Computes the debit and credit totals of the lines, in units.
fn totals(lines: &Vec<JournalLine>) -> (r: (i128, i128))
    ensures
        r.0 == debit_total(lines@),
        r.1 == credit_total(lines@),
        -18446744073709551615000000000000000000 <= r.0
            <= 18446744073709551615000000000000000000,
        -18446744073709551615000000000000000000 <= r.1
            <= 18446744073709551615000000000000000000,
{
    let ghost orig = lines@;
    let mut dt: i128 = 0;
    let mut ct: i128 = 0;
    let mut i: usize = 0;
    proof {
        assert(orig.subrange(0, 0) =~= Seq::<JournalLine>::empty());
    }
    while i < lines.len()
        invariant
            0 <= i <= orig.len(),
            orig == lines@,
            dt == debit_total(orig.subrange(0, i as int)),
            ct == credit_total(orig.subrange(0, i as int)),
            -(i as int) * MONEY_MAX_UNITS <= dt <= (i as int) * MONEY_MAX_UNITS,
            -(i as int) * MONEY_MAX_UNITS <= ct <= (i as int) * MONEY_MAX_UNITS,
        decreases orig.len() - i,
    {
        proof {
            assert(orig.subrange(0, i as int + 1).drop_last()
                =~= orig.subrange(0, i as int));
            assert(orig.subrange(0, i as int + 1).last() == orig[i as int]);
            assert((i as int) * MONEY_MAX_UNITS
                <= (orig.len() as int) * MONEY_MAX_UNITS) by (nonlinear_arith)
                requires 0 <= i as int <= orig.len() && MONEY_MAX_UNITS > 0;
            assert((orig.len() as int) * MONEY_MAX_UNITS
                <= 18446744073709551615 * 1_000_000_000_000_000_000) by (nonlinear_arith)
                requires orig.len() <= 18446744073709551615
                    && MONEY_MAX_UNITS == 1_000_000_000_000_000_000;
        }
        match &lines[i].1 {
            JournalAmount::Debit(m) => {
                proof { use_type_invariant(m); }
                dt = dt + m.units() as i128;
            },
            JournalAmount::Credit(m) => {
                proof { use_type_invariant(m); }
                ct = ct + m.units() as i128;
            },
        }
        i = i + 1;
    }
    proof {
        assert(orig.subrange(0, i as int) =~= orig);
        assert((i as int) * MONEY_MAX_UNITS
            <= 18446744073709551615 * 1_000_000_000_000_000_000) by (nonlinear_arith)
            requires 0 <= i as int <= 18446744073709551615
                && MONEY_MAX_UNITS == 1_000_000_000_000_000_000;
    }
    (dt, ct)
}

/// Copies the lines with every debit line before every credit line,
/// keeping the relative order within each kind.
fn partition_debits_first(lines: &Vec<JournalLine>) -> (r: Vec<JournalLine>)
    ensures
        r@ == debits_first(lines@),
{
    let ghost orig = lines@;
    let mut out: Vec<JournalLine> = Vec::new();
    let mut i: usize = 0;
    proof {
        assert(orig.subrange(0, 0) =~= Seq::<JournalLine>::empty());
        assert(debits_of(orig.subrange(0, 0)) =~= Seq::<JournalLine>::empty());
    }
    while i < lines.len()
        invariant
            0 <= i <= orig.len(),
            orig == lines@,
            out@ == debits_of(orig.subrange(0, i as int)),
        decreases orig.len() - i,
    {
        proof {
            assert(orig.subrange(0, i as int + 1).drop_last()
                =~= orig.subrange(0, i as int));
            assert(orig.subrange(0, i as int + 1).last() == orig[i as int]);
        }
        let l = &lines[i];
        if l.1.is_debit() {
            out.push(l.clone());
            proof {
                assert(out@ =~= debits_of(orig.subrange(0, i as int))
                    + seq![orig[i as int]]);
            }
        }
        i = i + 1;
    }
    proof {
        assert(orig.subrange(0, i as int) =~= orig);
    }
    let mut j: usize = 0;
    proof {
        assert(credits_of(orig.subrange(0, 0)) =~= Seq::<JournalLine>::empty());
        assert(out@ =~= debits_of(orig) + credits_of(orig.subrange(0, 0)));
    }
    while j < lines.len()
        invariant
            0 <= j <= orig.len(),
            orig == lines@,
            out@ == debits_of(orig) + credits_of(orig.subrange(0, j as int)),
        decreases orig.len() - j,
    {
        proof {
            assert(orig.subrange(0, j as int + 1).drop_last()
                =~= orig.subrange(0, j as int));
            assert(orig.subrange(0, j as int + 1).last() == orig[j as int]);
        }
        let l = &lines[j];
        if l.1.is_credit() {
            out.push(l.clone());
            proof {
                assert(out@ =~= debits_of(orig)
                    + (credits_of(orig.subrange(0, j as int)) + seq![orig[j as int]]));
            }
        }
        j = j + 1;
    }
    proof {
        assert(orig.subrange(0, j as int) =~= orig);
    }
    out
}

/// The stable partition is ordered with every debit line first.
proof fn lemma_debits_first_sorted(s: Seq<JournalLine>)
    ensures
        forall|i: int, j: int| 0 <= i < j < debits_first(s).len()
            ==> !((#[trigger] debits_first(s)[i]).1 is Credit
                && (#[trigger] debits_first(s)[j]).1 is Debit),
{
    lemma_partition(s);
    let t = debits_first(s);
    let dlen = debits_of(s).len() as int;
    assert forall|i: int, j: int| 0 <= i < j < t.len()
        implies !((t[i]).1 is Credit && (t[j]).1 is Debit) by {
        if i < dlen {
            assert(t[i] == debits_of(s)[i]);
        } else {
            assert(t[i] == credits_of(s)[i - dlen]);
            assert(t[j] == credits_of(s)[j - dlen]);
        }
    }
}

/// Every well-formed set of journal lines is balanced: the debit and
/// credit totals agree.
pub proof fn lemma_balance_invariant(ls: JournalLines)
    requires
        ls.wf(),
    ensures
        debit_total(ls@) == credit_total(ls@),
{
}

/// The account names and amounts of journal lines, as ghost pairs.
pub open spec fn jline_views(s: Seq<JournalLine>) -> Seq<(Seq<char>, JournalAmount)> {
    Seq::new(s.len(), |i: int| (s[i].0@, s[i].1))
}

/// Debit total over ghost line pairs, in units.
pub open spec fn views_debit_total(s: Seq<(Seq<char>, JournalAmount)>) -> int
    decreases s.len(),
{
    if s.len() == 0 {
        0
    } else {
        views_debit_total(s.drop_last()) + match s.last().1 {
            JournalAmount::Debit(m) => m.val(),
            JournalAmount::Credit(_) => 0,
        }
    }
}

/// Credit total over ghost line pairs, in units.
pub open spec fn views_credit_total(s: Seq<(Seq<char>, JournalAmount)>) -> int
    decreases s.len(),
{
    if s.len() == 0 {
        0
    } else {
        views_credit_total(s.drop_last()) + match s.last().1 {
            JournalAmount::Credit(m) => m.val(),
            JournalAmount::Debit(_) => 0,
        }
    }
}

/// The debit pairs of `s`, in order.
pub open spec fn debits_of_v(
    s: Seq<(Seq<char>, JournalAmount)>,
) -> Seq<(Seq<char>, JournalAmount)>
    decreases s.len(),
{
    if s.len() == 0 {
        s
    } else if s.last().1 is Debit {
        debits_of_v(s.drop_last()) + seq![s.last()]
    } else {
        debits_of_v(s.drop_last())
    }
}

/// The credit pairs of `s`, in order.
pub open spec fn credits_of_v(
    s: Seq<(Seq<char>, JournalAmount)>,
) -> Seq<(Seq<char>, JournalAmount)>
    decreases s.len(),
{
    if s.len() == 0 {
        s
    } else if s.last().1 is Credit {
        credits_of_v(s.drop_last()) + seq![s.last()]
    } else {
        credits_of_v(s.drop_last())
    }
}

/// Stable partition of ghost line pairs, debits first.
pub open spec fn debits_first_v(
    s: Seq<(Seq<char>, JournalAmount)>,
) -> Seq<(Seq<char>, JournalAmount)> {
    debits_of_v(s) + credits_of_v(s)
}

/// Taking views commutes with totals and with the stable partition.
pub proof fn lemma_jline_views(s: Seq<JournalLine>)
    ensures
        views_debit_total(jline_views(s)) == debit_total(s),
        views_credit_total(jline_views(s)) == credit_total(s),
        jline_views(debits_first(s)) =~= debits_first_v(jline_views(s)),
    decreases s.len(),
{
    if s.len() == 0 {
        assert(jline_views(s) =~= Seq::<(Seq<char>, JournalAmount)>::empty());
        assert(debits_of(s) =~= Seq::<JournalLine>::empty());
        assert(credits_of(s) =~= Seq::<JournalLine>::empty());
        assert(jline_views(debits_first(s))
            =~= Seq::<(Seq<char>, JournalAmount)>::empty());
    } else {
        let t = s.drop_last();
        lemma_jline_views(t);
        assert(jline_views(s).drop_last() =~= jline_views(t));
        assert(jline_views(s).last() == (s.last().0@, s.last().1));
        lemma_partition(s);
        lemma_partition(t);
        // partition views: both sides append the last line to the same half
        assert(jline_views(debits_of(s)) =~= debits_of_v(jline_views(s))) by {
            lemma_jline_views_partition(s);
        }
        assert(jline_views(credits_of(s)) =~= credits_of_v(jline_views(s))) by {
            lemma_jline_views_partition(s);
        }
        assert(jline_views(debits_first(s)) =~= jline_views(debits_of(s))
            + jline_views(credits_of(s)));
    }
}

/// Taking views commutes with selecting the debit and credit halves.
pub proof fn lemma_jline_views_partition(s: Seq<JournalLine>)
    ensures
        jline_views(debits_of(s)) =~= debits_of_v(jline_views(s)),
        jline_views(credits_of(s)) =~= credits_of_v(jline_views(s)),
    decreases s.len(),
{
    if s.len() > 0 {
        let t = s.drop_last();
        lemma_jline_views_partition(t);
        assert(jline_views(s).drop_last() =~= jline_views(t));
        assert(jline_views(s).last() == (s.last().0@, s.last().1));
        if s.last().1 is Debit {
            assert(jline_views(debits_of(s))
                =~= jline_views(debits_of(t)) + seq![(s.last().0@, s.last().1)]);
            assert(jline_views(credits_of(s)) =~= jline_views(credits_of(t)));
        } else {
            assert(jline_views(credits_of(s))
                =~= jline_views(credits_of(t)) + seq![(s.last().0@, s.last().1)]);
            assert(jline_views(debits_of(s)) =~= jline_views(debits_of(t)));
        }
    } else {
        assert(jline_views(s) =~= Seq::<(Seq<char>, JournalAmount)>::empty());
        assert(jline_views(debits_of(s))
            =~= Seq::<(Seq<char>, JournalAmount)>::empty());
        assert(jline_views(credits_of(s))
            =~= Seq::<(Seq<char>, JournalAmount)>::empty());
    }
}

/// View-level totals distribute over concatenation.
pub proof fn lemma_totals_concat_v(
    a: Seq<(Seq<char>, JournalAmount)>,
    b: Seq<(Seq<char>, JournalAmount)>,
)
    ensures
        views_debit_total(a + b) == views_debit_total(a) + views_debit_total(b),
        views_credit_total(a + b) == views_credit_total(a) + views_credit_total(b),
    decreases b.len(),
{
    if b.len() == 0 {
        assert(a + b =~= a);
    } else {
        assert((a + b).drop_last() =~= a + b.drop_last());
        assert((a + b).last() == b.last());
        lemma_totals_concat_v(a, b.drop_last());
    }
}

/// The view-level stable partition keeps both totals.
pub proof fn lemma_partition_v(s: Seq<(Seq<char>, JournalAmount)>)
    ensures
        views_debit_total(debits_first_v(s)) == views_debit_total(s),
        views_credit_total(debits_first_v(s)) == views_credit_total(s),
    decreases s.len(),
{
    if s.len() == 0 {
        assert(debits_of_v(s) =~= Seq::<(Seq<char>, JournalAmount)>::empty());
        assert(credits_of_v(s) =~= Seq::<(Seq<char>, JournalAmount)>::empty());
        assert(debits_first_v(s) =~= Seq::<(Seq<char>, JournalAmount)>::empty());
    } else {
        lemma_partition_halves_v(s);
        lemma_totals_concat_v(debits_of_v(s), credits_of_v(s));
    }
}

/// Totals of the view-level halves.
proof fn lemma_partition_halves_v(s: Seq<(Seq<char>, JournalAmount)>)
    ensures
        views_debit_total(debits_of_v(s)) == views_debit_total(s),
        views_credit_total(debits_of_v(s)) == 0,
        views_debit_total(credits_of_v(s)) == 0,
        views_credit_total(credits_of_v(s)) == views_credit_total(s),
    decreases s.len(),
{
    if s.len() > 0 {
        lemma_partition_halves_v(s.drop_last());
        let l = s.last();
        assert(seq![l].drop_last() =~= Seq::<(Seq<char>, JournalAmount)>::empty());
        assert(seq![l].last() == l);
        assert(views_debit_total(Seq::<(Seq<char>, JournalAmount)>::empty()) == 0);
        assert(views_credit_total(Seq::<(Seq<char>, JournalAmount)>::empty()) == 0);
        assert(views_debit_total(seq![l]) == match l.1 {
            JournalAmount::Debit(m) => m.val(),
            JournalAmount::Credit(_) => 0,
        });
        assert(views_credit_total(seq![l]) == match l.1 {
            JournalAmount::Credit(m) => m.val(),
            JournalAmount::Debit(_) => 0,
        });
        if l.1 is Debit {
            lemma_totals_concat_v(debits_of_v(s.drop_last()), seq![l]);
        } else {
            lemma_totals_concat_v(credits_of_v(s.drop_last()), seq![l]);
        }
    }
}

/// Whatever `build_views` builds is balanced: its debit and credit
/// totals agree.
pub proof fn lemma_build_views_balanced(
    input: Seq<(Seq<char>, JournalAmount)>,
    bal: Option<Seq<char>>,
)
    ensures
        build_views(input, bal) matches Some(v)
            ==> views_debit_total(v) == views_credit_total(v),
{
    let dt = views_debit_total(input);
    let ct = views_credit_total(input);
    if input.len() > 0 && dt == ct {
        lemma_partition_v(input);
    } else if input.len() > 0 && dt != ct && bal is Some
        && -MONEY_MAX_UNITS <= dt - ct <= MONEY_MAX_UNITS {
        let amount = if dt > ct {
            JournalAmount::Credit(Money::spec_from_units(dt - ct))
        } else {
            JournalAmount::Debit(Money::spec_from_units(ct - dt))
        };
        let ext = input.push((bal.unwrap(), amount));
        assert(ext.drop_last() =~= input);
        assert(ext.last() == (bal.unwrap(), amount));
        if dt > ct {
            Money::lemma_spec_from_units(dt - ct);
        } else {
            Money::lemma_spec_from_units(ct - dt);
        }
        lemma_partition_v(ext);
    }
}

/// Mirror of `JournalLines::new` over ghost line pairs: the pairs of
/// the built set, or `None` exactly when building fails.
pub open spec fn build_views(
    input: Seq<(Seq<char>, JournalAmount)>,
    bal: Option<Seq<char>>,
) -> Option<Seq<(Seq<char>, JournalAmount)>> {
    let dt = views_debit_total(input);
    let ct = views_credit_total(input);
    if input.len() == 0 {
        None
    } else if dt == ct {
        Some(debits_first_v(input))
    } else if bal is None {
        None
    } else if dt - ct > MONEY_MAX_UNITS || ct - dt > MONEY_MAX_UNITS {
        None
    } else {
        let amount = if dt > ct {
            JournalAmount::Credit(Money::spec_from_units(dt - ct))
        } else {
            JournalAmount::Debit(Money::spec_from_units(ct - dt))
        };
        Some(debits_first_v(input.push((bal.unwrap(), amount))))
    }
}

/// A set of lines built by `JournalLines::new` has exactly the ghost
/// pairs that `build_views` gives for the same input.
pub proof fn lemma_new_views(input: Seq<JournalLine>, bav: Option<Seq<char>>, lsv: Seq<JournalLine>)
    requires
        ({
            let dt = debit_total(input);
            let ct = credit_total(input);
            &&& input.len() > 0
            &&& (dt != ct ==> bav is Some && -MONEY_MAX_UNITS <= dt - ct <= MONEY_MAX_UNITS)
        }),
        ({
            let dt = debit_total(input);
            let ct = credit_total(input);
            if dt == ct {
                lsv == debits_first(input)
            } else {
                exists|bal: JournalLine|
                    (#[trigger] bal.0)@ == bav.unwrap()
                    && bal.1 == (if dt > ct {
                        JournalAmount::Credit(Money::spec_from_units(dt - ct))
                    } else {
                        JournalAmount::Debit(Money::spec_from_units(ct - dt))
                    })
                    && lsv == debits_first(input.push(bal))
            }
        }),
    ensures
        Some(jline_views(lsv)) == build_views(jline_views(input), bav),
{
    lemma_jline_views(input);
    let dt = debit_total(input);
    let ct = credit_total(input);
    let iv = jline_views(input);
    if dt == ct {
        lemma_jline_views(debits_first(input));
        assert(jline_views(lsv) == debits_first_v(iv));
    } else {
        let bal = choose|bal: JournalLine|
            (#[trigger] bal.0)@ == bav.unwrap()
            && bal.1 == (if dt > ct {
                JournalAmount::Credit(Money::spec_from_units(dt - ct))
            } else {
                JournalAmount::Debit(Money::spec_from_units(ct - dt))
            })
            && lsv == debits_first(input.push(bal));
        let ext = input.push(bal);
        assert(jline_views(ext) =~= iv.push((bal.0@, bal.1)));
        lemma_jline_views(ext);
        assert(jline_views(lsv) == debits_first_v(iv.push((bal.0@, bal.1))));
    }
}

/// `n` spaces.
pub open spec fn spaces(n: int) -> Seq<char>
    decreases n,
{
    if n <= 0 {
        Seq::empty()
    } else {
        spaces(n - 1) + seq![' ']
    }
}

/// `s` padded on the left with spaces to at least `pad` characters.
pub open spec fn padded_left(s: Seq<char>, pad: int) -> Seq<char> {
    if s.len() >= pad {
        s
    } else {
        spaces(pad - s.len()) + s
    }
}

/// Appends `n` spaces to `out`.
fn push_spaces(out: &mut String, n: usize)
    ensures
        final(out)@ == old(out)@ + spaces(n as int),
{
    let mut k: usize = 0;
    proof {
        assert(out@ =~= out@ + spaces(0));
    }
    while k < n
        invariant
            0 <= k <= n,
            out@ == old(out)@ + spaces(k as int),
        decreases n - k,
    {
        proof {
            reveal_strlit(" ");
            assert(" "@ =~= seq![' ']);
        }
        out.append(" ");
        k = k + 1;
    }
}

impl JournalAmount {
    /// The characters of one table row: the amount in a left-padded
    /// debit or credit column, the other column blank.
    pub open spec fn row_chars(self, pad: int) -> Seq<char> {
        let money = crate::money::display_chars(self.magnitude_val());
        match self {
            JournalAmount::Debit(_) =>
                padded_left(money, pad) + seq![' ', '|', ' '] + spaces(pad),
            JournalAmount::Credit(_) =>
                spaces(pad) + seq![' ', '|', ' '] + padded_left(money, pad),
        }
    }

    /// Renders the amount as a debit / credit table row with columns
    /// of width `pad`.
    pub fn to_row_string(&self, pad: usize) -> (r: String)
        ensures
            r@ == self.row_chars(pad as int),
    {
        let money = self.abs_amount().display_string();
        let mlen = money.as_str().unicode_len();
        let mut out = String::new();
        match self {
            JournalAmount::Debit(_) => {
                if mlen < pad {
                    push_spaces(&mut out, pad - mlen);
                }
                out.append(money.as_str());
                push_sep(&mut out);
                push_spaces(&mut out, pad);
            },
            JournalAmount::Credit(_) => {
                push_spaces(&mut out, pad);
                push_sep(&mut out);
                if mlen < pad {
                    push_spaces(&mut out, pad - mlen);
                }
                out.append(money.as_str());
            },
        }
        proof {
            assert(out@ =~= self.row_chars(pad as int));
        }
        out
    }
}

/// Appends a column separator to `out`.
fn push_sep(out: &mut String)
    ensures
        final(out)@ == old(out)@ + seq![' ', '|', ' '],
{
    proof {
        reveal_strlit(" | ");
        assert(" | "@ =~= seq![' ', '|', ' ']);
    }
    out.append(" | ");
}

/// A journal entry: an identifying reference, a date, an optional memo,
/// and a balanced set of lines.
#[derive(Debug)]
pub struct JournalEntry {
    id: String,
    date: Date,
    memo: Option<String>,
    lines: JournalLines,
}

impl JournalEntry {
    /// The identifying reference.
    pub closed spec fn id_spec(self) -> Seq<char> {
        self.id@
    }

    /// The date.
    pub closed spec fn date_spec(self) -> Date {
        self.date
    }

    /// The memo, if any.
    pub closed spec fn memo_spec(self) -> Option<Seq<char>> {
        match self.memo {
            Some(m) => Some(m@),
            None => None,
        }
    }

    /// The lines.
    pub closed spec fn lines_spec(self) -> Seq<JournalLine> {
        self.lines@
    }

    /// The lines are well-formed.
    pub closed spec fn wf(self) -> bool {
        self.lines.wf()
    }

    /// Builds a journal entry; the lines are balanced as in
    /// `JournalLines::new`, against `balance_account` when given.
    pub fn new(
        id: &str,
        date: &Date,
        memo: Option<&str>,
        lines: Vec<JournalLine>,
        balance_account: Option<JournalAccount>,
    ) -> (r: Result<JournalEntry, BalanceError>)
        ensures
            match r {
                Ok(e) => {
                    &&& JournalLines::build_error(lines@, balance_account) is None
                    &&& e.wf()
                    &&& e.id_spec() == id@
                    &&& e.date_spec() == *date
                    &&& e.memo_spec() == match memo {
                            Some(m) => Some(m@),
                            None => None::<Seq<char>>,
                        }
                    &&& debit_total(e.lines_spec()) == credit_total(e.lines_spec())
                    &&& if debit_total(lines@) == credit_total(lines@) {
                            e.lines_spec() == debits_first(lines@)
                        } else {
                            exists|bal: JournalLine|
                                (#[trigger] bal.0)@ == balance_account.unwrap()@
                                && bal.1 == (if debit_total(lines@) > credit_total(lines@) {
                                    JournalAmount::Credit(Money::spec_from_units(
                                        debit_total(lines@) - credit_total(lines@)))
                                } else {
                                    JournalAmount::Debit(Money::spec_from_units(
                                        credit_total(lines@) - debit_total(lines@)))
                                })
                                && e.lines_spec() == debits_first(lines@.push(bal))
                        }
                },
                Err(e) => JournalLines::build_error(lines@, balance_account) == Some(e),
            },
    {
        let built = JournalLines::new(lines, balance_account);
        match built {
            Ok(ls) => Ok(JournalEntry {
                id: id.to_owned(),
                date: *date,
                memo: match memo {
                    Some(m) => Some(m.to_owned()),
                    None => None,
                },
                lines: ls,
            }),
            Err(e) => Err(e),
        }
    }

    /// The date of the entry.
    pub fn date(&self) -> (r: Date)
        ensures
            r == self.date_spec(),
    {
        self.date
    }

    /// The memo of the entry, if any.
    pub fn memo(&self) -> (r: Option<String>)
        ensures
            r is Some <==> self.memo_spec() is Some,
            r matches Some(m) ==> self.memo_spec() == Some(m@),
    {
        match &self.memo {
            Some(m) => Some(m.clone()),
            None => None,
        }
    }

    /// A copy of the lines of the entry.
    pub fn lines(&self) -> (r: JournalLines)
        ensures
            r@ == self.lines_spec(),
            self.wf() ==> r.wf(),
    {
        self.lines.duplicate()
    }
}

} // verus!
