//! A library for working with Metaculus question data: it models question
//! snapshots (resolution, aggregate histories, scale descriptors), resolves
//! the best prediction available as of a point in time, converts normalized
//! values across linear and logarithmic scales, and combines questions into
//! weighted indices.
//!
//! All quantities are held as exact rationals; a value on a logarithmic
//! scale, which is irrational in general, is kept in symbolic form
//! ([`RealValue::GeomInterp`]) and left to the caller to approximate.

pub mod dates;
pub mod index;
pub mod rational;

use vstd::prelude::*;

use crate::dates::{date_str_secs, datetime_str_secs};
use crate::rational::{rat_add, rat_eq, rat_le, rat_mul, rat_sub, spec_zero, Rational};

verus! {

/// An API client description for retrieving Metaculus question data:
/// the domain (e.g. `www`, `pandemic`, `ai`) of the Metaculus instance.
pub struct Metaculus {
    /// The Metaculus domain to retrieve questions from, such as `www`
    /// (Metaculus Prime), `pandemic`, or `ai`.
    pub domain: String,
}

impl Metaculus {
    /// Returns a default Metaculus instance describing <https://www.metaculus.com>.
    pub fn standard() -> (r: Metaculus)
        ensures
            r.domain@ == "www"@,
    {
        Metaculus { domain: "www".to_string() }
    }

    /// Returns a default Metaculus instance describing <https://www.metaculus.com>.
    pub fn new() -> (r: Metaculus)
        ensures
            r.domain@ == "www"@,
    {
        Metaculus { domain: "www".to_string() }
    }
}

/// The kind of a question: a binary probability question, a continuous
/// (numeric- or date-range) question, or a discussion post, which carries
/// no scale and no numeric predictions.
#[derive(Clone, Copy, PartialEq, Eq, Debug)]
pub enum QuestionKind {
    Binary,
    Continuous,
    Discussion,
}

/// The scale of a continuous question: how a normalized position in [0, 1]
/// maps to an actual value.
#[derive(Clone, PartialEq, Eq, Debug)]
pub enum Scale {
    /// A numeric range from `min` to `max`, interpolated linearly or
    /// logarithmically.
    NumericScale { min: Rational, max: Rational, logarithmic: bool },
    /// A date range between two `YYYY-MM-DD` dates, interpolated linearly
    /// or logarithmically over their epoch seconds.
    DateScale { min_date: String, max_date: String, logarithmic: bool },
}

/// The mathematical content of a [`Scale`], with date strings as
/// character sequences.
#[verifier::ext_equal]
pub enum ScaleView {
    Numeric { min: Rational, max: Rational, logarithmic: bool },
    Date { min_date: Seq<char>, max_date: Seq<char>, logarithmic: bool },
}

impl View for Scale {
    type V = ScaleView;

    open spec fn view(&self) -> ScaleView {
        match self {
            Scale::NumericScale { min, max, logarithmic } => ScaleView::Numeric {
                min: *min,
                max: *max,
                logarithmic: *logarithmic,
            },
            Scale::DateScale { min_date, max_date, logarithmic } => ScaleView::Date {
                min_date: min_date@,
                max_date: max_date@,
                logarithmic: *logarithmic,
            },
        }
    }
}

/// One entry of an aggregate-prediction history: the time it was recorded
/// (seconds since the epoch, possibly fractional) and the normalized value
/// in [0, 1] recorded then.
#[derive(Clone, Copy, PartialEq, Eq, Debug)]
pub struct HistoryPoint {
    pub time: Rational,
    pub value: Rational,
}

/// Data on a single Metaculus question: an immutable snapshot.
#[derive(Clone, Debug)]
pub struct Question {
    /// The title of the question displayed on Metaculus.
    pub title_short: String,
    /// The community aggregate over time; absent where the question has
    /// none. Not guaranteed sorted in storage order.
    pub prediction_timeseries: Option<Vec<HistoryPoint>>,
    /// The Metaculus-computed aggregate over time; absent where hidden or
    /// missing. Not guaranteed sorted in storage order.
    pub metaculus_prediction: Option<Vec<HistoryPoint>>,
    /// The raw resolution: absent while unresolved; the value -1 is the
    /// sentinel for an ambiguous resolution.
    pub resolution: Option<Rational>,
    /// The kind of the question.
    pub kind: QuestionKind,
    /// The scale; present exactly for continuous questions.
    pub scale: Option<Scale>,
    /// When the resolution became visible, as `YYYY-MM-DDTHH:MM:SSZ`.
    pub resolve_time: Option<String>,
}

/// The mathematical content of a [`Question`].
#[verifier::ext_equal]
pub struct QuestionView {
    pub title: Seq<char>,
    pub timeseries: Option<Seq<HistoryPoint>>,
    pub metaculus: Option<Seq<HistoryPoint>>,
    pub resolution: Option<Rational>,
    pub kind: QuestionKind,
    pub scale: Option<ScaleView>,
    pub resolve_time: Option<Seq<char>>,
}

impl View for Question {
    type V = QuestionView;

    open spec fn view(&self) -> QuestionView {
        QuestionView {
            title: self.title_short@,
            timeseries: match self.prediction_timeseries {
                Some(ref v) => Some(v@),
                None => None,
            },
            metaculus: match self.metaculus_prediction {
                Some(ref v) => Some(v@),
                None => None,
            },
            resolution: self.resolution,
            kind: self.kind,
            scale: match self.scale {
                Some(ref s) => Some(s@),
                None => None,
            },
            resolve_time: match self.resolve_time {
                Some(ref s) => Some(s@),
                None => None,
            },
        }
    }
}

/// A history entry has a well-formed value and a time whose components
/// are small enough for cross-multiplied time comparisons.
pub open spec fn point_wf(p: HistoryPoint) -> bool {
    p.time.wf() && p.time.small() && p.value.wf()
}

/// Every entry of the history satisfies [`point_wf`].
pub open spec fn history_wf(s: Seq<HistoryPoint>) -> bool {
    forall|i: int| 0 <= i < s.len() ==> point_wf(#[trigger] s[i])
}

impl QuestionView {
    /// Well-formedness of a question snapshot: rationals are well-formed,
    /// history times admit comparison, the scale is present exactly for
    /// continuous questions, and a discussion question carries neither a
    /// resolution nor predictions.
    pub open spec fn wf(self) -> bool {
        &&& (match self.resolution {
            Some(r) => r.wf(),
            None => true,
        })
        &&& (match self.scale {
            Some(ScaleView::Numeric { min, max, .. }) => min.wf() && max.wf(),
            _ => true,
        })
        &&& (match self.timeseries {
            Some(s) => history_wf(s),
            None => true,
        })
        &&& (match self.metaculus {
            Some(s) => history_wf(s),
            None => true,
        })
        &&& (self.scale is Some <==> self.kind is Continuous)
        &&& (self.kind is Discussion ==> self.resolution is None && self.timeseries is None
            && self.metaculus is None)
    }
}

/// An aggregated overall prediction value. A value on a logarithmic scale
/// is irrational in general and is kept in symbolic form.
#[derive(Clone, Copy, PartialEq, Eq, Debug)]
pub enum RealValue {
    /// An exact rational value.
    Exact(Rational),
    /// The value `lo * (hi / lo)^pos`: the point at normalized position
    /// `pos` on the logarithmic scale from `lo` to `hi`.
    GeomInterp { lo: Rational, hi: Rational, pos: Rational },
}

/// An aggregated overall prediction on a Metaculus question.
#[derive(Clone, Copy, PartialEq, Eq, Debug)]
pub enum Prediction {
    /// Represents an ambiguous resolution.
    AmbP,
    /// Represents a numeric prediction, either a probability (from 0 to 1)
    /// or continuous.
    NumP(RealValue),
    /// Represents a date prediction, as seconds since the epoch.
    DatP(RealValue),
}

impl Prediction {
    /// Returns the value of the prediction if it is a numerical one
    /// (either continuous or binary), and `None` otherwise.
    pub fn get_if_numeric(&self) -> (r: Option<RealValue>)
        ensures
            r == (match *self {
                Prediction::NumP(v) => Some(v),
                _ => None::<RealValue>,
            }),
    {
        match self {
            Prediction::NumP(v) => Some(*v),
            _ => None,
        }
    }

    /// Returns the value of the prediction (epoch seconds) if it is a date
    /// prediction, and `None` otherwise.
    pub fn get_if_date(&self) -> (r: Option<RealValue>)
        ensures
            r == (match *self {
                Prediction::DatP(v) => Some(v),
                _ => None::<RealValue>,
            }),
    {
        match self {
            Prediction::DatP(v) => Some(*v),
            _ => None,
        }
    }
}

/// The point at normalized position `pos` on the logarithmic scale from
/// `lo` to `hi`, that is `lo * (hi / lo)^pos`; exact at the endpoints and
/// symbolic in between.
pub open spec fn spec_geom(lo: Rational, hi: Rational, pos: Rational) -> RealValue {
    if pos.num == 0 {
        RealValue::Exact(lo)
    } else if pos.num == pos.den {
        RealValue::Exact(hi)
    } else {
        RealValue::GeomInterp { lo, hi, pos }
    }
}

/// The point at normalized position `p` on the linear scale from `min` to
/// `max`, that is `p * (max - min) + min`; `None` where the checked
/// arithmetic leaves the 128-bit range.
pub open spec fn spec_scale_linear(p: Rational, min: Rational, max: Rational) -> Option<Rational> {
    match rat_sub(max, min) {
        None => None,
        Some(span) => match rat_mul(p, span) {
            None => None,
            Some(scaled) => rat_add(scaled, min),
        },
    }
}

/// Conversion of a normalized value `p` to an actual prediction under the
/// question's scale. `None` where the question has no scale, a date bound
/// does not parse, or the checked arithmetic fails.
pub open spec fn spec_convert(q: QuestionView, p: Rational) -> Option<Prediction> {
    match q.scale {
        None => None,
        Some(ScaleView::Numeric { min, max, logarithmic }) => if logarithmic {
            Some(Prediction::NumP(spec_geom(min, max, p)))
        } else {
            match spec_scale_linear(p, min, max) {
                None => None,
                Some(v) => Some(Prediction::NumP(RealValue::Exact(v))),
            }
        },
        Some(ScaleView::Date { min_date, max_date, logarithmic }) => match date_str_secs(
            min_date,
        ) {
            None => None,
            Some(mn) => match date_str_secs(max_date) {
                None => None,
                Some(mx) => {
                    let lo = Rational { num: mn as i128, den: 1 as i128 };
                    let hi = Rational { num: mx as i128, den: 1 as i128 };
                    if logarithmic {
                        Some(Prediction::DatP(spec_geom(lo, hi, p)))
                    } else {
                        match spec_scale_linear(p, lo, hi) {
                            None => None,
                            Some(v) => Some(Prediction::DatP(RealValue::Exact(v))),
                        }
                    }
                },
            },
        },
    }
}

/// `p`'s time is at or before the instant `t`.
pub open spec fn time_le_int(p: HistoryPoint, t: int) -> bool {
    rational::rat_le_int(p.time, t)
}

/// The latest entry of `h` recorded at or before `t`, regardless of
/// storage order; among entries with equal times the one stored last wins.
pub open spec fn spec_latest_at(h: Seq<HistoryPoint>, t: int) -> Option<HistoryPoint>
    decreases h.len(),
{
    if h.len() == 0 {
        None
    } else {
        let rest = spec_latest_at(h.drop_last(), t);
        let last = h.last();
        if time_le_int(last, t) {
            match rest {
                None => Some(last),
                Some(b) => if rat_le(b.time, last.time) {
                    Some(last)
                } else {
                    Some(b)
                },
            }
        } else {
            rest
        }
    }
}

/// The community median prediction as of `t`: the latest eligible history
/// entry, raw for a binary question and converted under the scale
/// otherwise.
pub open spec fn spec_community_before(q: QuestionView, t: int) -> Option<Prediction> {
    match q.timeseries {
        None => None,
        Some(h) => match spec_latest_at(h, t) {
            None => None,
            Some(pt) => if q.kind is Binary {
                Some(Prediction::NumP(RealValue::Exact(pt.value)))
            } else {
                spec_convert(q, pt.value)
            },
        },
    }
}

/// The Metaculus-computed prediction as of `t`.
pub open spec fn spec_metaculus_before(q: QuestionView, t: int) -> Option<Prediction> {
    match q.metaculus {
        None => None,
        Some(h) => match spec_latest_at(h, t) {
            None => None,
            Some(pt) => if q.kind is Binary {
                Some(Prediction::NumP(RealValue::Exact(pt.value)))
            } else {
                spec_convert(q, pt.value)
            },
        },
    }
}

/// The raw resolution as a prediction: `None` while unresolved, ambiguous
/// for the -1 sentinel, converted under the scale for a continuous
/// question, and the raw probability otherwise.
pub open spec fn spec_resolution(q: QuestionView) -> Option<Prediction> {
    match q.resolution {
        None => None,
        Some(res) => if res.num == -res.den {
            Some(Prediction::AmbP)
        } else if q.kind is Continuous {
            spec_convert(q, res)
        } else {
            Some(Prediction::NumP(RealValue::Exact(res)))
        },
    }
}

/// The resolution as of `t`: visible only where the resolve time parses
/// and is at or before `t`.
pub open spec fn spec_resolution_before(q: QuestionView, t: int) -> Option<Prediction> {
    match q.resolve_time {
        None => None,
        Some(s) => match datetime_str_secs(s) {
            None => None,
            Some(rt) => if rt <= t {
                spec_resolution(q)
            } else {
                None
            },
        },
    }
}

/// The first of `a` and `b` that is present.
pub open spec fn opt_or(a: Option<Prediction>, b: Option<Prediction>) -> Option<Prediction> {
    match a {
        Some(p) => Some(p),
        None => b,
    }
}

/// The best prediction available as of `t`: the visible resolution first,
/// then the Metaculus prediction, then the community prediction.
pub open spec fn spec_best_before(q: QuestionView, t: int) -> Option<Prediction> {
    opt_or(
        spec_resolution_before(q, t),
        opt_or(spec_metaculus_before(q, t), spec_community_before(q, t)),
    )
}

/// Whether the question is continuous with a logarithmic scale.
pub open spec fn spec_is_logarithmic(q: QuestionView) -> bool {
    match q.scale {
        Some(ScaleView::Numeric { logarithmic, .. }) => logarithmic,
        Some(ScaleView::Date { logarithmic, .. }) => logarithmic,
        None => false,
    }
}

/// The point at normalized position `pos` on the logarithmic scale from
/// `lo` to `hi`.
fn geom_value(lo: Rational, hi: Rational, pos: Rational) -> (r: RealValue)
    ensures
        r == spec_geom(lo, hi, pos),
{
    if pos.num == 0 {
        RealValue::Exact(lo)
    } else if pos.num == pos.den {
        RealValue::Exact(hi)
    } else {
        RealValue::GeomInterp { lo, hi, pos }
    }
}

/// The point at normalized position `p` on the linear scale from `min` to
/// `max`.
fn scale_linear(p: Rational, min: Rational, max: Rational) -> (r: Option<Rational>)
    ensures
        r == spec_scale_linear(p, min, max),
{
    let span = match max.sub(&min) {
        Some(v) => v,
        None => {
            return None;
        },
    };
    let scaled = match p.mul(&span) {
        Some(v) => v,
        None => {
            return None;
        },
    };
    scaled.add(&min)
}

/// The latest entry of `points` recorded at or before `t`, found by a
/// scan that honors true time order even where storage order does not.
fn latest_at(points: &Vec<HistoryPoint>, t: i64) -> (r: Option<HistoryPoint>)
    requires
        history_wf(points@),
    ensures
        r == spec_latest_at(points@, t as int),
        r matches Some(b) ==> b.time.wf() && b.time.small() && b.value.wf(),
{
    let mut best: Option<HistoryPoint> = None;
    let mut i: usize = 0;
    while i < points.len()
        invariant
            0 <= i <= points@.len(),
            history_wf(points@),
            best == spec_latest_at(points@.take(i as int), t as int),
            best matches Some(b) ==> b.time.wf() && b.time.small() && b.value.wf(),
        decreases points@.len() - i,
    {
        let p = points[i];
        proof {
            assert(points@.take(i as int + 1).drop_last() =~= points@.take(i as int));
            assert(points@.take(i as int + 1).last() == points@[i as int]);
            assert(point_wf(points@[i as int]));
        }
        if p.time.le_int(t) {
            match best {
                None => {
                    best = Some(p);
                },
                Some(b) => {
                    if b.time.le(&p.time) {
                        best = Some(p);
                    }
                },
            }
        }
        i = i + 1;
    }
    proof {
        assert(points@.take(points@.len() as int) =~= points@);
    }
    best
}

impl Question {
    /// Returns the best prediction available (prioritising the actual
    /// resolution, then the Metaculus prediction, then the community
    /// prediction) for the question, as of now, if the question has any
    /// predictions.
    pub fn get_best_prediction(&self) -> (r: Option<Prediction>)
        requires
            self@.wf(),
        ensures
            exists|t: int| r == spec_best_before(self@, t),
    {
        let t = crate::dates::now_secs();
        let r = self.get_best_prediction_before(t);
        proof {
            assert(r == spec_best_before(self@, t as int));
        }
        r
    }

    /// Returns the best prediction available as of the instant `t`
    /// (seconds since the epoch), prioritising the actual resolution, then
    /// the Metaculus prediction, then the community prediction, if the
    /// question has any predictions from before that instant.
    pub fn get_best_prediction_before(&self, t: i64) -> (r: Option<Prediction>)
        requires
            self@.wf(),
        ensures
            r == spec_best_before(self@, t as int),
    {
        match self.get_resolution_before(t) {
            Some(p) => Some(p),
            None => match self.get_metaculus_prediction_before(t) {
                Some(p) => Some(p),
                None => self.get_community_prediction_before(t),
            },
        }
    }

    /// Returns the current community median prediction, if it exists.
    pub fn get_community_prediction(&self) -> (r: Option<Prediction>)
        requires
            self@.wf(),
        ensures
            exists|t: int| r == spec_community_before(self@, t),
    {
        let t = crate::dates::now_secs();
        let r = self.get_community_prediction_before(t);
        proof {
            assert(r == spec_community_before(self@, t as int));
        }
        r
    }

    /// Returns the current Metaculus prediction, if it exists and is
    /// available.
    pub fn get_metaculus_prediction(&self) -> (r: Option<Prediction>)
        requires
            self@.wf(),
        ensures
            exists|t: int| r == spec_metaculus_before(self@, t),
    {
        let t = crate::dates::now_secs();
        let r = self.get_metaculus_prediction_before(t);
        proof {
            assert(r == spec_metaculus_before(self@, t as int));
        }
        r
    }

    /// Returns the community median prediction as it was at the instant
    /// `t`, if it existed.
    pub fn get_community_prediction_before(&self, t: i64) -> (r: Option<Prediction>)
        requires
            self@.wf(),
        ensures
            r == spec_community_before(self@, t as int),
    {
        match &self.prediction_timeseries {
            None => None,
            Some(points) => match latest_at(points, t) {
                None => None,
                Some(pt) => match self.kind {
                    QuestionKind::Binary => Some(Prediction::NumP(RealValue::Exact(pt.value))),
                    _ => self.convert_range_prediction(pt.value),
                },
            },
        }
    }

    /// Returns the Metaculus prediction as it was at the instant `t`, if
    /// it existed.
    pub fn get_metaculus_prediction_before(&self, t: i64) -> (r: Option<Prediction>)
        requires
            self@.wf(),
        ensures
            r == spec_metaculus_before(self@, t as int),
    {
        match &self.metaculus_prediction {
            None => None,
            Some(points) => match latest_at(points, t) {
                None => None,
                Some(pt) => match self.kind {
                    QuestionKind::Binary => Some(Prediction::NumP(RealValue::Exact(pt.value))),
                    _ => self.convert_range_prediction(pt.value),
                },
            },
        }
    }

    /// Returns the question resolution, if it exists. This will be
    /// [`Prediction::AmbP`] if the question has resolved ambiguously.
    pub fn get_resolution(&self) -> (r: Option<Prediction>)
        requires
            self@.wf(),
        ensures
            r == spec_resolution(self@),
    {
        match &self.resolution {
            None => None,
            Some(res) => if res.num == -res.den {
                Some(Prediction::AmbP)
            } else {
                match self.kind {
                    QuestionKind::Continuous => self.convert_range_prediction(*res),
                    _ => Some(Prediction::NumP(RealValue::Exact(*res))),
                }
            },
        }
    }

    /// The resolution as of the instant `t`: present only where the
    /// resolve time parses and is at or before `t`.
    fn get_resolution_before(&self, t: i64) -> (r: Option<Prediction>)
        requires
            self@.wf(),
        ensures
            r == spec_resolution_before(self@, t as int),
    {
        match &self.resolve_time {
            None => None,
            Some(s) => match crate::dates::parse_datetime_secs(s.as_str()) {
                None => None,
                Some(rt) => if rt <= t {
                    self.get_resolution()
                } else {
                    None
                },
            },
        }
    }

    /// Conversion of a normalized value under this question's scale.
    fn convert_range_prediction(&self, p: Rational) -> (r: Option<Prediction>)
        requires
            self@.wf(),
        ensures
            r == spec_convert(self@, p),
    {
        match &self.scale {
            None => None,
            Some(Scale::NumericScale { min, max, logarithmic }) => if *logarithmic {
                Some(Prediction::NumP(geom_value(*min, *max, p)))
            } else {
                match scale_linear(p, *min, *max) {
                    None => None,
                    Some(v) => Some(Prediction::NumP(RealValue::Exact(v))),
                }
            },
            Some(Scale::DateScale { min_date, max_date, logarithmic }) => match crate::dates::parse_date_secs(
                min_date.as_str(),
            ) {
                None => None,
                Some(mn) => match crate::dates::parse_date_secs(max_date.as_str()) {
                    None => None,
                    Some(mx) => {
                        let lo = Rational::from_int(mn);
                        let hi = Rational::from_int(mx);
                        if *logarithmic {
                            Some(Prediction::DatP(geom_value(lo, hi, p)))
                        } else {
                            match scale_linear(p, lo, hi) {
                                None => None,
                                Some(v) => Some(Prediction::DatP(RealValue::Exact(v))),
                            }
                        }
                    },
                },
            },
        }
    }

    /// Returns `true` iff the question is continuous and has a logarithmic
    /// scale.
    pub fn is_logarithmic(&self) -> (r: bool)
        ensures
            r == spec_is_logarithmic(self@),
    {
        match &self.scale {
            Some(Scale::NumericScale { logarithmic, .. }) => *logarithmic,
            Some(Scale::DateScale { logarithmic, .. }) => *logarithmic,
            None => false,
        }
    }

    /// Returns `true` iff the question is a binary probability question.
    pub fn is_binary(&self) -> (r: bool)
        ensures
            r == (self@.kind is Binary),
    {
        match self.kind {
            QuestionKind::Binary => true,
            _ => false,
        }
    }

    /// An exact copy of this snapshot.
    pub fn duplicate(&self) -> (r: Question)
        ensures
            r@ == self@,
    {
        Question {
            title_short: self.title_short.clone(),
            prediction_timeseries: match &self.prediction_timeseries {
                None => None,
                Some(v) => Some(copy_points(v)),
            },
            metaculus_prediction: match &self.metaculus_prediction {
                None => None,
                Some(v) => Some(copy_points(v)),
            },
            resolution: self.resolution,
            kind: self.kind,
            scale: match &self.scale {
                None => None,
                Some(s) => Some(s.duplicate()),
            },
            resolve_time: match &self.resolve_time {
                None => None,
                Some(s) => Some(s.clone()),
            },
        }
    }
}

impl Scale {
    /// An exact copy of this scale.
    fn duplicate(&self) -> (r: Scale)
        ensures
            r@ == self@,
    {
        match self {
            Scale::NumericScale { min, max, logarithmic } => Scale::NumericScale {
                min: *min,
                max: *max,
                logarithmic: *logarithmic,
            },
            Scale::DateScale { min_date, max_date, logarithmic } => Scale::DateScale {
                min_date: min_date.clone(),
                max_date: max_date.clone(),
                logarithmic: *logarithmic,
            },
        }
    }
}

/// An element-wise copy of a history.
fn copy_points(v: &Vec<HistoryPoint>) -> (r: Vec<HistoryPoint>)
    ensures
        r@ == v@,
{
    let mut r: Vec<HistoryPoint> = Vec::new();
    let mut i: usize = 0;
    while i < v.len()
        invariant
            0 <= i <= v@.len(),
            r@ == v@.take(i as int),
        decreases v@.len() - i,
    {
        r.push(v[i]);
        proof {
            assert(v@.take(i as int + 1) =~= v@.take(i as int).push(v@[i as int]));
        }
        i = i + 1;
    }
    proof {
        assert(v@.take(v@.len() as int) =~= v@);
    }
    r
}


// ---------------------------------------------------------------------
// Laws of the resolver.

/// Resolution priority: where a question's resolution is visible at `t`
/// (the resolve time parses and is at or before `t`) and yields a
/// prediction, the best prediction at `t` is the resolution, whatever
/// either history holds.
pub proof fn lemma_resolution_priority(q: QuestionView, t: int)
    requires
        q.resolve_time matches Some(s) && datetime_str_secs(s) matches Some(rt) && rt <= t,
        spec_resolution(q) is Some,
    ensures
        spec_best_before(q, t) == spec_resolution(q),
{
}

/// Time-gating: where the resolve time parses and lies strictly after
/// `t`, the resolution is not used; the query falls through to the
/// Metaculus prediction, then the community prediction.
pub proof fn lemma_resolution_time_gated(q: QuestionView, t: int)
    requires
        q.resolve_time matches Some(s) && datetime_str_secs(s) matches Some(rt) && rt > t,
    ensures
        spec_resolution_before(q, t) is None,
        spec_best_before(q, t) == opt_or(spec_metaculus_before(q, t), spec_community_before(q, t)),
{
}

/// As-of search: what [`spec_latest_at`] finds is an entry of the history
/// whose time is at or before `t` and at or after the time of every such
/// entry; where it finds nothing, no entry's time is at or before `t`.
/// This characterizes the search by time order alone, whatever the
/// storage order: storage order only chooses among entries of equal time.
pub proof fn lemma_latest_at_correct(h: Seq<HistoryPoint>, t: int)
    requires
        history_wf(h),
    ensures
        match spec_latest_at(h, t) {
            None => forall|i: int| 0 <= i < h.len() ==> !time_le_int(#[trigger] h[i], t),
            Some(b) => {
                &&& exists|i: int| 0 <= i < h.len() && h[i] == b
                &&& time_le_int(b, t)
                &&& forall|i: int|
                    0 <= i < h.len() && time_le_int(#[trigger] h[i], t) ==> rat_le(
                        h[i].time,
                        b.time,
                    )
            },
        },
    decreases h.len(),
{
    if h.len() > 0 {
        let hd = h.drop_last();
        let last = h.last();
        assert(forall|i: int| 0 <= i < hd.len() ==> #[trigger] hd[i] == h[i]);
        assert(history_wf(hd)) by {
            assert forall|i: int| 0 <= i < hd.len() implies point_wf(#[trigger] hd[i]) by {
                assert(point_wf(h[i]));
            }
        }
        lemma_latest_at_correct(hd, t);
        assert(point_wf(h[h.len() - 1]));
        match spec_latest_at(hd, t) {
            None => {
                if time_le_int(last, t) {
                    assert(spec_latest_at(h, t) == Some(last));
                    assert forall|i: int|
                        0 <= i < h.len() && time_le_int(#[trigger] h[i], t) implies rat_le(
                        h[i].time,
                        last.time,
                    ) by {
                        if i < h.len() - 1 {
                            assert(hd[i] == h[i]);
                            assert(!time_le_int(hd[i], t));
                        }
                    }
                } else {
                    assert forall|i: int| 0 <= i < h.len() implies !time_le_int(
                        #[trigger] h[i],
                        t,
                    ) by {
                        if i < h.len() - 1 {
                            assert(hd[i] == h[i]);
                            assert(!time_le_int(hd[i], t));
                        }
                    }
                }
            },
            Some(b) => {
                let j = choose|j: int| 0 <= j < hd.len() && hd[j] == b;
                assert(h[j] == b);
                assert(point_wf(h[j]));
                if time_le_int(last, t) {
                    if rat_le(b.time, last.time) {
                        assert(spec_latest_at(h, t) == Some(last));
                        assert forall|i: int|
                            0 <= i < h.len() && time_le_int(#[trigger] h[i], t) implies rat_le(
                            h[i].time,
                            last.time,
                        ) by {
                            if i < h.len() - 1 {
                                assert(hd[i] == h[i]);
                                assert(point_wf(h[i]));
                                assert(rat_le(hd[i].time, b.time));
                                rational::lemma_rat_le_trans(h[i].time, b.time, last.time);
                            }
                        }
                    } else {
                        assert(spec_latest_at(h, t) == Some(b));
                        assert(rat_le(last.time, b.time));
                        assert forall|i: int|
                            0 <= i < h.len() && time_le_int(#[trigger] h[i], t) implies rat_le(
                            h[i].time,
                            b.time,
                        ) by {
                            if i < h.len() - 1 {
                                assert(hd[i] == h[i]);
                                assert(rat_le(hd[i].time, b.time));
                            }
                        }
                    }
                } else {
                    assert(spec_latest_at(h, t) == Some(b));
                    assert forall|i: int|
                        0 <= i < h.len() && time_le_int(#[trigger] h[i], t) implies rat_le(
                        h[i].time,
                        b.time,
                    ) by {
                        if i < h.len() - 1 {
                            assert(hd[i] == h[i]);
                            assert(rat_le(hd[i].time, b.time));
                        }
                    }
                }
            },
        }
    }
}

/// Scale conversion at the low end: linear conversion maps the normalized
/// position 0 to the lower bound of the scale, as rational values.
pub proof fn lemma_linear_scale_at_zero(min: Rational, max: Rational, v: Rational)
    requires
        min.wf(),
        max.wf(),
        spec_scale_linear(spec_zero(), min, max) == Some(v),
    ensures
        rat_eq(v, min),
{
    let span = rat_sub(max, min).unwrap();
    let scaled = rat_mul(spec_zero(), span).unwrap();
    assert(v.num * min.den == min.num * v.den) by (nonlinear_arith)
        requires
            scaled.num == 0 * span.num,
            scaled.den == 1 * span.den,
            v.num == scaled.num * min.den + min.num * scaled.den,
            v.den == scaled.den * min.den,
    ;
}

/// Scale conversion at the high end: linear conversion maps the
/// normalized position 1 to the upper bound of the scale, as rational
/// values.
pub proof fn lemma_linear_scale_at_one(min: Rational, max: Rational, v: Rational)
    requires
        min.wf(),
        max.wf(),
        spec_scale_linear(Rational { num: 1 as i128, den: 1 as i128 }, min, max) == Some(v),
    ensures
        rat_eq(v, max),
{
    let span = rat_sub(max, min).unwrap();
    let scaled = rat_mul(Rational { num: 1 as i128, den: 1 as i128 }, span).unwrap();
    assert(v.num * max.den == max.num * v.den) by (nonlinear_arith)
        requires
            span.num == max.num * min.den - min.num * max.den,
            span.den == max.den * min.den,
            scaled.num == 1 * span.num,
            scaled.den == 1 * span.den,
            v.num == scaled.num * min.den + min.num * scaled.den,
            v.den == scaled.den * min.den,
    ;
}

/// Scale conversion is monotonic: over a nondecreasing linear scale, a
/// larger normalized position converts to a value at least as large.
pub proof fn lemma_linear_scale_monotonic(
    p1: Rational,
    p2: Rational,
    min: Rational,
    max: Rational,
    v1: Rational,
    v2: Rational,
)
    requires
        p1.wf(),
        p2.wf(),
        min.wf(),
        max.wf(),
        rat_le(p1, p2),
        rat_le(min, max),
        spec_scale_linear(p1, min, max) == Some(v1),
        spec_scale_linear(p2, min, max) == Some(v2),
    ensures
        rat_le(v1, v2),
{
    let span = rat_sub(max, min).unwrap();
    rational::lemma_rat_sub_wf(max, min, span);
    assert(span.num >= 0) by (nonlinear_arith)
        requires
            span.num == max.num * min.den - min.num * max.den,
            min.num * max.den <= max.num * min.den,
    ;
    let s1 = rat_mul(p1, span).unwrap();
    let s2 = rat_mul(p2, span).unwrap();
    rational::lemma_rat_le_mul_nonneg(p1, p2, span, s1, s2);
    rational::lemma_rat_mul_wf(p1, span, s1);
    rational::lemma_rat_mul_wf(p2, span, s2);
    rational::lemma_rat_le_add_right(s1, s2, min, v1, v2);
}

/// Logarithmic scale conversion at the endpoints: the normalized position
/// 0 converts exactly to the lower bound and 1 exactly to the upper
/// bound; between them the value `lo * (hi / lo)^pos` is kept in symbolic
/// form with exactly these bounds and this position.
pub proof fn lemma_log_scale_endpoints(min: Rational, max: Rational, p: Rational)
    requires
        p.wf(),
    ensures
        rat_eq(p, spec_zero()) ==> spec_geom(min, max, p) == RealValue::Exact(min),
        rat_eq(p, Rational { num: 1 as i128, den: 1 as i128 }) ==> spec_geom(min, max, p) == RealValue::Exact(max),
        !rat_eq(p, spec_zero()) && !rat_eq(p, Rational { num: 1 as i128, den: 1 as i128 })
            ==> spec_geom(min, max, p) == (RealValue::GeomInterp { lo: min, hi: max, pos: p }),
{
    assert(p.num * 1 == p.num) by (nonlinear_arith);
    assert(1 * p.den == p.den) by (nonlinear_arith);
    assert(0 * p.den == 0) by (nonlinear_arith);
}

/// An ambiguous resolution (the sentinel value -1) always yields an
/// ambiguous prediction, never a numeric conversion; visible at `t`, it
/// is also the best prediction at `t`.
pub proof fn lemma_ambiguous_resolution(q: QuestionView, t: int)
    requires
        q.wf(),
        q.resolution matches Some(res) && rat_eq(res, Rational { num: -1 as i128, den: 1 as i128 }),
    ensures
        spec_resolution(q) == Some(Prediction::AmbP),
        (q.resolve_time matches Some(s) && datetime_str_secs(s) matches Some(rt) && rt <= t)
            ==> spec_best_before(q, t) == Some(Prediction::AmbP),
{
    let res = q.resolution.unwrap();
    assert(res.num * 1 == res.num) by (nonlinear_arith);
    assert(-1 * res.den == -res.den) by (nonlinear_arith);
}

/// A discussion question never yields a prediction, at any instant.
pub proof fn lemma_discussion_never_predicts(q: QuestionView, t: int)
    requires
        q.wf(),
        q.kind is Discussion,
    ensures
        spec_best_before(q, t) is None,
{
}

} // verus!
