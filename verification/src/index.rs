//! A module for creating indices. Indices are the weighted sums of
//! multiple questions that relate to a single topic, intended to give an
//! overall view of how the topic is doing.
//!
//! A question on a logarithmic scale contributes `ln(value / zero) *
//! weight`, which is irrational in general: such a contribution is kept in
//! symbolic form ([`Contribution::LogLinearised`]) and the caller
//! approximates it. Every other contribution is an exact rational.

use vstd::prelude::*;

use crate::dates::date_str_secs;
use crate::rational::{rat_add, rat_eq, rat_mul, rat_sub, spec_zero, Rational};
use crate::{spec_best_before, spec_is_logarithmic, Prediction, Question, QuestionView, RealValue, ScaleView};

verus! {

/// An index, containing a list of weighted questions.
pub struct Index {
    /// List of questions to consider as part of the index.
    pub questions: Vec<WeightedQuestion>,
}

/// A question along with the weight to assign to it in an index.
pub struct WeightedQuestion {
    pub question: Question,
    pub weight: Rational,
    /// The zero point for the question.
    ///
    /// For linear continuous questions, this is subtracted from the
    /// prediction before multiplying by the weight.
    ///
    /// For logarithmic continuous questions with `linearise_if_log ==
    /// true`, the prediction is divided by this before multiplying by the
    /// weight.
    pub zero: Rational,
    /// `true` to take the natural logarithm of the prediction when
    /// evaluating the index if it is on a logarithmic scale, `false` to
    /// leave it as-is.
    pub linearise_if_log: bool,
}

/// A contribution of the form `ln(value / zero) * weight`, kept symbolic.
#[derive(Clone, Copy, PartialEq, Eq, Debug)]
pub struct LogTerm {
    pub value: RealValue,
    pub zero: Rational,
    pub weight: Rational,
}

/// What one weighted question contributes to its index.
#[derive(Clone, Copy, PartialEq, Eq, Debug)]
pub enum Contribution {
    /// An exact rational contribution: `(value - zero) * weight`, or zero
    /// where no prediction exists or the question resolved ambiguously.
    Exact(Rational),
    /// The symbolic contribution `ln(value / zero) * weight` of a
    /// logarithmic question being linearised.
    LogLinearised(LogTerm),
}

/// Why a contribution could not be evaluated.
#[derive(Clone, Copy, PartialEq, Eq, Debug)]
pub enum EvalError {
    /// A symbolic logarithmic-scale value reached the exact (linear)
    /// evaluation path: the kind of prediction it cannot evaluate.
    UnsupportedPredictionKind,
    /// The exact arithmetic left the 128-bit range.
    ArithmeticOverflow,
}

/// The value of an index: the exact rational part, plus the symbolic
/// logarithmic terms in member order, each standing for
/// `ln(value / zero) * weight`.
#[derive(Clone, PartialEq, Eq, Debug)]
pub struct IndexValue {
    pub exact: Rational,
    pub log_terms: Vec<LogTerm>,
}

impl WeightedQuestion {
    /// The underlying question snapshot is well-formed.
    pub open spec fn wf(self) -> bool {
        self.question@.wf()
    }

    /// Makes a new `WeightedQuestion` from a [`Question`], with a given
    /// weight and a zero point of `0`, if the question is a binary
    /// question.
    pub fn create_from_binary(question: &Question, weight: Rational) -> (r: Option<
        WeightedQuestion,
    >)
        ensures
            question@.kind is Binary ==> (r matches Some(wq) && wq.question@ == question@
                && wq.weight == weight && wq.zero == spec_zero() && !wq.linearise_if_log),
            !(question@.kind is Binary) ==> r is None,
    {
        if question.is_binary() {
            Some(
                WeightedQuestion {
                    question: question.duplicate(),
                    weight,
                    zero: Rational::zero(),
                    linearise_if_log: false,
                },
            )
        } else {
            None
        }
    }

    /// Makes a new `WeightedQuestion` from a [`Question`], with a given
    /// weight and a zero point equal to the smallest value of the scale,
    /// if the question is a continuous numerical question.
    pub fn create_from_range(question: &Question, weight: Rational) -> (r: Option<
        WeightedQuestion,
    >)
        ensures
            match question@.scale {
                Some(ScaleView::Numeric { min, .. }) => r matches Some(wq) && wq.question@
                    == question@ && wq.weight == weight && wq.zero == min && wq.linearise_if_log,
                _ => r is None,
            },
    {
        match &question.scale {
            Some(crate::Scale::NumericScale { min, .. }) => Some(
                WeightedQuestion {
                    question: question.duplicate(),
                    weight,
                    zero: *min,
                    linearise_if_log: true,
                },
            ),
            _ => None,
        }
    }

    /// Makes a new `WeightedQuestion` from a [`Question`], with a given
    /// weight and a zero point equal to the smallest date of the scale as
    /// epoch seconds, if the question is a continuous date question whose
    /// smallest date parses.
    ///
    /// For dates, the base unit for the value of the index is the number
    /// of seconds from the zero point.
    pub fn create_from_date(question: &Question, weight: Rational) -> (r: Option<WeightedQuestion>)
        ensures
            match question@.scale {
                Some(ScaleView::Date { min_date, .. }) => match date_str_secs(min_date) {
                    Some(mn) => r matches Some(wq) && wq.question@ == question@ && wq.weight
                        == weight && wq.zero == (Rational { num: mn as i128, den: 1 as i128 })
                        && wq.linearise_if_log,
                    None => r is None,
                },
                _ => r is None,
            },
    {
        match &question.scale {
            Some(crate::Scale::DateScale { min_date, .. }) => {
                match crate::dates::parse_date_secs(min_date.as_str()) {
                    Some(mn) => Some(
                        WeightedQuestion {
                            question: question.duplicate(),
                            weight,
                            zero: Rational::from_int(mn),
                            linearise_if_log: true,
                        },
                    ),
                    None => None,
                }
            },
            _ => None,
        }
    }

    /// Makes a `WeightedQuestion` by whichever constructor matches the
    /// question: binary first, then numeric range, then date range; `None`
    /// where none fits.
    pub fn create_with_fallback(question: &Question, weight: Rational) -> (r: Option<
        WeightedQuestion,
    >)
        ensures
            question@.kind is Binary ==> (r matches Some(wq) && wq.question@ == question@
                && wq.weight == weight && wq.zero == spec_zero() && !wq.linearise_if_log),
            !(question@.kind is Binary) ==> match question@.scale {
                Some(ScaleView::Numeric { min, .. }) => r matches Some(wq) && wq.question@
                    == question@ && wq.weight == weight && wq.zero == min && wq.linearise_if_log,
                Some(ScaleView::Date { min_date, .. }) => match date_str_secs(min_date) {
                    Some(mn) => r matches Some(wq) && wq.question@ == question@ && wq.weight
                        == weight && wq.zero == (Rational { num: mn as i128, den: 1 as i128 })
                        && wq.linearise_if_log,
                    None => r is None,
                },
                None => r is None,
            },
    {
        match Self::create_from_binary(question, weight) {
            Some(wq) => Some(wq),
            None => match Self::create_from_range(question, weight) {
                Some(wq) => Some(wq),
                None => Self::create_from_date(question, weight),
            },
        }
    }

    /// Get the value that the current prediction on this weighted question
    /// alone contributes to its index.
    pub fn get_value(&self) -> (r: Result<Contribution, EvalError>)
        requires
            self.wf(),
        ensures
            exists|t: int| r == spec_value_before(*self, t),
    {
        let t = crate::dates::now_secs();
        let r = self.get_value_before(t);
        proof {
            assert(r == spec_value_before(*self, t as int));
        }
        r
    }

    /// Get the value that the prediction on this weighted question at the
    /// instant `t` contributes to its index.
    pub fn get_value_before(&self, t: i64) -> (r: Result<Contribution, EvalError>)
        requires
            self.wf(),
        ensures
            r == spec_value_before(*self, t as int),
    {
        match self.question.get_best_prediction_before(t) {
            None => Ok(Contribution::Exact(Rational::zero())),
            Some(Prediction::AmbP) => Ok(Contribution::Exact(Rational::zero())),
            Some(Prediction::NumP(v)) => self.contribution(v),
            Some(Prediction::DatP(v)) => self.contribution(v),
        }
    }

    /// The contribution of the prediction value `v` under this question's
    /// weight, zero point and linearisation flag.
    fn contribution(&self, v: RealValue) -> (r: Result<Contribution, EvalError>)
        ensures
            r == spec_contribution(*self, v),
    {
        if self.linearise_if_log && self.question.is_logarithmic() {
            Ok(
                Contribution::LogLinearised(
                    LogTerm { value: v, zero: self.zero, weight: self.weight },
                ),
            )
        } else {
            match v {
                RealValue::Exact(x) => {
                    let d = match x.sub(&self.zero) {
                        Some(d) => d,
                        None => {
                            return Err(EvalError::ArithmeticOverflow);
                        },
                    };
                    match d.mul(&self.weight) {
                        Some(c) => Ok(Contribution::Exact(c)),
                        None => Err(EvalError::ArithmeticOverflow),
                    }
                },
                RealValue::GeomInterp { .. } => Err(EvalError::UnsupportedPredictionKind),
            }
        }
    }
}

/// The contribution of the prediction value `v` under `wq`'s weight, zero
/// point and linearisation flag: symbolic where a logarithmic question is
/// linearised, `(v - zero) * weight` exactly otherwise.
pub open spec fn spec_contribution(wq: WeightedQuestion, v: RealValue) -> Result<
    Contribution,
    EvalError,
> {
    if wq.linearise_if_log && spec_is_logarithmic(wq.question@) {
        Ok(Contribution::LogLinearised(LogTerm { value: v, zero: wq.zero, weight: wq.weight }))
    } else {
        match v {
            RealValue::Exact(x) => match rat_sub(x, wq.zero) {
                None => Err(EvalError::ArithmeticOverflow),
                Some(d) => match rat_mul(d, wq.weight) {
                    None => Err(EvalError::ArithmeticOverflow),
                    Some(c) => Ok(Contribution::Exact(c)),
                },
            },
            RealValue::GeomInterp { .. } => Err(EvalError::UnsupportedPredictionKind),
        }
    }
}

/// What `wq` contributes to an index at the instant `t`: zero where no
/// prediction exists or the question resolved ambiguously, the weighted
/// contribution of the best prediction otherwise.
pub open spec fn spec_value_before(wq: WeightedQuestion, t: int) -> Result<
    Contribution,
    EvalError,
> {
    match spec_best_before(wq.question@, t) {
        None => Ok(Contribution::Exact(spec_zero())),
        Some(Prediction::AmbP) => Ok(Contribution::Exact(spec_zero())),
        Some(Prediction::NumP(v)) => spec_contribution(wq, v),
        Some(Prediction::DatP(v)) => spec_contribution(wq, v),
    }
}

/// The value of an index over `qs` at the instant `t`: the sum of the
/// members' exact contributions, beside their symbolic logarithmic terms
/// in member order. An error of any member is the index's error.
pub open spec fn spec_index_value(qs: Seq<WeightedQuestion>, t: int) -> Result<
    (Rational, Seq<LogTerm>),
    EvalError,
>
    decreases qs.len(),
{
    if qs.len() == 0 {
        Ok((spec_zero(), Seq::<LogTerm>::empty()))
    } else {
        match spec_index_value(qs.drop_last(), t) {
            Err(e) => Err(e),
            Ok(acc) => match spec_value_before(qs.last(), t) {
                Err(e) => Err(e),
                Ok(Contribution::Exact(c)) => match rat_add(acc.0, c) {
                    None => Err(EvalError::ArithmeticOverflow),
                    Some(s) => Ok((s, acc.1)),
                },
                Ok(Contribution::LogLinearised(lt)) => Ok((acc.0, acc.1.push(lt))),
            },
        }
    }
}


/// The form a question takes in an index: the snapshot, the weight, the
/// zero point and the linearisation flag.
pub open spec fn spec_wq_form(wq: WeightedQuestion) -> (QuestionView, Rational, Rational, bool) {
    (wq.question@, wq.weight, wq.zero, wq.linearise_if_log)
}

/// The form [`WeightedQuestion::create_with_fallback`] gives a question:
/// binary first, then numeric range, then date range; `None` where none
/// fits.
pub open spec fn spec_fallback_form(q: QuestionView, weight: Rational) -> Option<
    (QuestionView, Rational, Rational, bool),
> {
    if q.kind is Binary {
        Some((q, weight, spec_zero(), false))
    } else {
        match q.scale {
            Some(ScaleView::Numeric { min, .. }) => Some((q, weight, min, true)),
            Some(ScaleView::Date { min_date, .. }) => match date_str_secs(min_date) {
                Some(mn) => Some((q, weight, Rational { num: mn as i128, den: 1 as i128 }, true)),
                None => None,
            },
            None => None,
        }
    }
}

/// The members of an index built from the first `n` question/weight
/// pairs: each question that was retrieved and matches a constructor, in
/// order, under its fallback form; the others are dropped.
pub open spec fn spec_index_members(
    qs: Seq<Option<Question>>,
    ws: Seq<Rational>,
    n: int,
) -> Seq<(QuestionView, Rational, Rational, bool)>
    decreases n,
{
    if n <= 0 {
        Seq::<(QuestionView, Rational, Rational, bool)>::empty()
    } else {
        let rest = spec_index_members(qs, ws, n - 1);
        match qs[n - 1] {
            None => rest,
            Some(q) => match spec_fallback_form(q@, ws[n - 1]) {
                None => rest,
                Some(f) => rest.push(f),
            },
        }
    }
}

impl Index {
    /// Creates an index from a list of retrieved questions (`None` for
    /// one that could not be retrieved or parsed), each with the weight
    /// at the same position, silently dropping every question that is
    /// missing or matches no constructor. Pairs past the shorter of the
    /// two lists are ignored.
    pub fn create_index_from_questions(
        questions: Vec<Option<Question>>,
        weights: Vec<Rational>,
    ) -> (r: Index)
        ensures
            r.questions@.map_values(|wq: WeightedQuestion| spec_wq_form(wq))
                == spec_index_members(
                questions@,
                weights@,
                if questions@.len() <= weights@.len() {
                    questions@.len() as int
                } else {
                    weights@.len() as int
                },
            ),
    {
        let n = if questions.len() <= weights.len() {
            questions.len()
        } else {
            weights.len()
        };
        let mut members: Vec<WeightedQuestion> = Vec::new();
        let mut i: usize = 0;
        while i < n
            invariant
                0 <= i <= n,
                n <= questions@.len(),
                n <= weights@.len(),
                members@.map_values(|wq: WeightedQuestion| spec_wq_form(wq))
                    == spec_index_members(questions@, weights@, i as int),
            decreases n - i,
        {
            let ghost old_members = members@;
            match &questions[i] {
                None => {},
                Some(q) => {
                    match WeightedQuestion::create_with_fallback(q, weights[i]) {
                        Some(wq) => {
                            members.push(wq);
                            proof {
                                assert(members@.map_values(
                                    |wq: WeightedQuestion| spec_wq_form(wq),
                                ) =~= old_members.map_values(
                                    |wq: WeightedQuestion| spec_wq_form(wq),
                                ).push(spec_wq_form(members@.last())));
                            }
                        },
                        None => {},
                    }
                },
            }
            i = i + 1;
        }
        Index { questions: members }
    }
}

/// An error in evaluating any prefix of an index is the whole index's
/// error: the members past the failing one cannot repair it.
proof fn lemma_index_value_err_prefix(qs: Seq<WeightedQuestion>, t: int, k: int, e: EvalError)
    requires
        0 <= k <= qs.len(),
        spec_index_value(qs.take(k), t) == Err::<(Rational, Seq<LogTerm>), EvalError>(e),
    ensures
        spec_index_value(qs, t) == Err::<(Rational, Seq<LogTerm>), EvalError>(e),
    decreases qs.len() - k,
{
    if k == qs.len() {
        assert(qs.take(k) =~= qs);
    } else {
        assert(qs.take(k + 1).drop_last() =~= qs.take(k));
        lemma_index_value_err_prefix(qs, t, k + 1, e);
    }
}

impl Index {
    /// Every member's question snapshot is well-formed.
    pub open spec fn wf(self) -> bool {
        forall|i: int| 0 <= i < self.questions@.len() ==> (#[trigger] self.questions@[i]).wf()
    }

    /// Get the current value of the index by summing over the questions
    /// and multiplying by the weights.
    pub fn get_index_value(&self) -> (r: Result<IndexValue, EvalError>)
        requires
            self.wf(),
        ensures
            exists|t: int|
                #![trigger spec_index_value(self.questions@, t)]
                match r {
                    Ok(iv) => spec_index_value(self.questions@, t) == Ok::<_, EvalError>(
                        ((iv.exact, iv.log_terms@)),
                    ),
                    Err(e) => spec_index_value(self.questions@, t) == Err::<
                        (Rational, Seq<LogTerm>),
                        _,
                    >(e),
                },
    {
        let t = crate::dates::now_secs();
        let r = self.get_index_value_before(t);
        proof {
            assert(match r {
                Ok(iv) => spec_index_value(self.questions@, t as int) == Ok::<_, EvalError>(
                    ((iv.exact, iv.log_terms@)),
                ),
                Err(e) => spec_index_value(self.questions@, t as int) == Err::<
                    (Rational, Seq<LogTerm>),
                    _,
                >(e),
            });
        }
        r
    }

    /// Get the value of the index as it was at the instant `t` by summing
    /// over the questions and multiplying by the weights.
    pub fn get_index_value_before(&self, t: i64) -> (r: Result<IndexValue, EvalError>)
        requires
            self.wf(),
        ensures
            match r {
                Ok(iv) => spec_index_value(self.questions@, t as int) == Ok::<_, EvalError>(
                    ((iv.exact, iv.log_terms@)),
                ),
                Err(e) => spec_index_value(self.questions@, t as int) == Err::<
                    (Rational, Seq<LogTerm>),
                    _,
                >(e),
            },
    {
        let mut exact = Rational::zero();
        let mut log_terms: Vec<LogTerm> = Vec::new();
        let mut i: usize = 0;
        while i < self.questions.len()
            invariant
                0 <= i <= self.questions@.len(),
                self.wf(),
                spec_index_value(self.questions@.take(i as int), t as int) == Ok::<_, EvalError>(
                    ((exact, log_terms@)),
                ),
            decreases self.questions@.len() - i,
        {
            proof {
                assert(self.questions@.take(i as int + 1).drop_last() =~= self.questions@.take(
                    i as int,
                ));
                assert(self.questions@.take(i as int + 1).last() == self.questions@[i as int]);
                assert((#[trigger] self.questions@[i as int]).wf());
            }
            let wq = &self.questions[i];
            match wq.get_value_before(t) {
                Err(e) => {
                    proof {
                        lemma_index_value_err_prefix(self.questions@, t as int, i as int + 1, e);
                    }
                    return Err(e);
                },
                Ok(Contribution::Exact(c)) => {
                    match exact.add(&c) {
                        Some(s) => {
                            exact = s;
                        },
                        None => {
                            proof {
                                lemma_index_value_err_prefix(
                                    self.questions@,
                                    t as int,
                                    i as int + 1,
                                    EvalError::ArithmeticOverflow,
                                );
                            }
                            return Err(EvalError::ArithmeticOverflow);
                        },
                    }
                },
                Ok(Contribution::LogLinearised(lt)) => {
                    log_terms.push(lt);
                },
            }
            i = i + 1;
        }
        proof {
            assert(self.questions@.take(self.questions@.len() as int) =~= self.questions@);
        }
        Ok(IndexValue { exact, log_terms })
    }
}


// ---------------------------------------------------------------------
// Laws of the index.

/// The exact rational value, as an unbounded numerator/denominator pair,
/// of the sum of the members' independently computed exact contributions.
pub open spec fn spec_member_sum(qs: Seq<WeightedQuestion>, t: int) -> (int, int)
    decreases qs.len(),
{
    if qs.len() == 0 {
        (0int, 1int)
    } else {
        let acc = spec_member_sum(qs.drop_last(), t);
        match spec_value_before(qs.last(), t) {
            Ok(Contribution::Exact(c)) => (acc.0 * c.den + c.num * acc.1, acc.1 * c.den),
            _ => acc,
        }
    }
}

/// The members' symbolic logarithmic contributions, in member order.
pub open spec fn spec_member_log_terms(qs: Seq<WeightedQuestion>, t: int) -> Seq<LogTerm>
    decreases qs.len(),
{
    if qs.len() == 0 {
        Seq::<LogTerm>::empty()
    } else {
        let acc = spec_member_log_terms(qs.drop_last(), t);
        match spec_value_before(qs.last(), t) {
            Ok(Contribution::LogLinearised(lt)) => acc.push(lt),
            _ => acc,
        }
    }
}

/// Index linearity: where an index evaluates, every member evaluates; the
/// index's exact part is exactly the rational sum of the members'
/// independently computed exact contributions, and its symbolic terms are
/// the members' symbolic contributions in member order.
pub proof fn lemma_index_linearity(qs: Seq<WeightedQuestion>, t: int, e: Rational, l: Seq<LogTerm>)
    requires
        spec_index_value(qs, t) == Ok::<(Rational, Seq<LogTerm>), EvalError>((e, l)),
    ensures
        forall|i: int| 0 <= i < qs.len() ==> (#[trigger] spec_value_before(qs[i], t)) is Ok,
        (e.num as int, e.den as int) == spec_member_sum(qs, t),
        l == spec_member_log_terms(qs, t),
    decreases qs.len(),
{
    if qs.len() > 0 {
        let hd = qs.drop_last();
        assert(forall|i: int| 0 <= i < hd.len() ==> #[trigger] hd[i] == qs[i]);
        let acc = spec_index_value(hd, t)->Ok_0;
        lemma_index_linearity(hd, t, acc.0, acc.1);
        assert forall|i: int| 0 <= i < qs.len() implies (#[trigger] spec_value_before(
            qs[i],
            t,
        )) is Ok by {
            if i < qs.len() - 1 {
                assert(spec_value_before(hd[i], t) is Ok);
            } else {
                assert(qs[i] == qs.last());
            }
        }
    }
}

/// Scaling a member's weight scales exactly that member's contribution:
/// where `wq2` is `wq1` with its weight multiplied by `k`, an exact
/// contribution of `wq2` equals `k` times the exact contribution of
/// `wq1`, as rational values.
pub proof fn lemma_contribution_scales_with_weight(
    wq1: WeightedQuestion,
    wq2: WeightedQuestion,
    k: Rational,
    t: int,
    c1: Rational,
    c2: Rational,
    kc1: Rational,
)
    requires
        wq2.question == wq1.question,
        wq2.zero == wq1.zero,
        wq2.linearise_if_log == wq1.linearise_if_log,
        rat_mul(k, wq1.weight) == Some(wq2.weight),
        spec_value_before(wq1, t) == Ok::<Contribution, EvalError>(Contribution::Exact(c1)),
        spec_value_before(wq2, t) == Ok::<Contribution, EvalError>(Contribution::Exact(c2)),
        rat_mul(k, c1) == Some(kc1),
    ensures
        rat_eq(c2, kc1),
{
    let w1 = wq1.weight;
    match spec_best_before(wq1.question@, t) {
        None => {
            assert(c2.num * kc1.den == kc1.num * c2.den) by (nonlinear_arith)
                requires
                    c2.num == 0,
                    kc1.num == k.num * 0,
            ;
        },
        Some(Prediction::AmbP) => {
            assert(c2.num * kc1.den == kc1.num * c2.den) by (nonlinear_arith)
                requires
                    c2.num == 0,
                    kc1.num == k.num * 0,
            ;
        },
        Some(Prediction::NumP(v)) => {
            let x = v->Exact_0;
            let d = rat_sub(x, wq1.zero)->Some_0;
            assert(c2.num * kc1.den == kc1.num * c2.den) by (nonlinear_arith)
                requires
                    c1.num == d.num * w1.num,
                    c1.den == d.den * w1.den,
                    c2.num == d.num * (k.num * w1.num),
                    c2.den == d.den * (k.den * w1.den),
                    kc1.num == k.num * (d.num * w1.num),
                    kc1.den == k.den * (d.den * w1.den),
            ;
        },
        Some(Prediction::DatP(v)) => {
            let x = v->Exact_0;
            let d = rat_sub(x, wq1.zero)->Some_0;
            assert(c2.num * kc1.den == kc1.num * c2.den) by (nonlinear_arith)
                requires
                    c1.num == d.num * w1.num,
                    c1.den == d.den * w1.den,
                    c2.num == d.num * (k.num * w1.num),
                    c2.den == d.den * (k.den * w1.den),
                    kc1.num == k.num * (d.num * w1.num),
                    kc1.den == k.den * (d.den * w1.den),
            ;
        },
    }
}

} // verus!
