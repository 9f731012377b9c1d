//! The evaluation rubric and the scoring of a submission.
//!
//! A rubric is an ordered set of named metrics. Some are seeded with a
//! score computed here (the line-count effort score); the rest are left for
//! the model, asked for through a rendered prompt, and filled in from the
//! model's structured reply. A completed rubric yields an exact mean and a
//! suitability decision.

use vstd::prelude::*;
use crate::error::TriageError;
use crate::json::JsonScalar;
use crate::json::JsonV;
use crate::json::json_object_of;
use crate::json::pairs_view;
use crate::repo::FileContents;
use crate::score::SCALE;
use crate::score::SCORE_BOUND;
use crate::score::Score;
use crate::score::Rat;
use crate::score::dec_units;
use crate::score::rating_units;
use crate::text::line_count;

verus! {

/// One evaluation metric: a key, the guidance the model is given for it,
/// and its score once one is known. A metric born with a score is excluded
/// from the model query but participates in the mean.
#[derive(Debug)]
pub struct EvalMetric {
    pub key: String,
    pub specification: String,
    pub value: Option<Score>,
}

impl EvalMetric {
    /// Builds a metric from its parts.
    pub fn new(key: &str, specification: &str, value: Option<Score>) -> (r: Self)
        ensures
            r.key@ == key@,
            r.specification@ == specification@,
            r.value == value,
    {
        Self { key: key.to_owned(), specification: specification.to_owned(), value }
    }
}

/// The rubric: an ordered collection of metrics.
#[derive(Debug)]
pub struct EvalMetrics(pub Vec<EvalMetric>);

/// Index of the first metric keyed `key`, if any.
pub open spec fn find_key(ms: Seq<EvalMetric>, key: Seq<char>) -> Option<int>
    decreases ms.len(),
{
    if ms.len() == 0 {
        None
    } else if ms[0].key@ == key {
        Some(0)
    } else {
        match find_key(ms.drop_first(), key) {
            Some(i) => Some(1 + i),
            None => None,
        }
    }
}

/// Every score the rubric already holds lies within the score bound.
pub open spec fn rubric_wf(ms: Seq<EvalMetric>) -> bool {
    forall|i: int|
        0 <= i < ms.len() ==> ((#[trigger] ms[i].value) matches Some(s) ==> s.wf())
}

pub proof fn lemma_find_key_bounds(ms: Seq<EvalMetric>, key: Seq<char>)
    ensures
        find_key(ms, key) matches Some(i) ==> 0 <= i < ms.len() && ms[i].key@ == key,
    decreases ms.len(),
{
    if ms.len() > 0 && ms[0].key@ != key {
        lemma_find_key_bounds(ms.drop_first(), key);
    }
}

proof fn lemma_find_key_at(ms: Seq<EvalMetric>, key: Seq<char>, i: int)
    requires
        0 <= i < ms.len(),
        ms[i].key@ == key,
        forall|j: int| 0 <= j < i ==> (#[trigger] ms[j].key)@ != key,
    ensures
        find_key(ms, key) == Some(i),
    decreases i,
{
    if i == 0 {
    } else {
        assert(ms[0].key@ != key);
        lemma_find_key_at(ms.drop_first(), key, i - 1);
    }
}

proof fn lemma_find_key_none(ms: Seq<EvalMetric>, key: Seq<char>)
    requires
        forall|j: int| 0 <= j < ms.len() ==> (#[trigger] ms[j].key)@ != key,
    ensures
        find_key(ms, key) is None,
    decreases ms.len(),
{
    if ms.len() > 0 {
        lemma_find_key_none(ms.drop_first(), key);
    }
}

/// The metric `m` with its value set to `s`.
pub open spec fn with_value(m: EvalMetric, s: Score) -> EvalMetric {
    EvalMetric { key: m.key, specification: m.specification, value: Some(s) }
}

impl EvalMetrics {
    /// Sets the value of the metric keyed `key`. Fails, and leaves the
    /// rubric as it stands, when no metric carries that key.
    pub fn update(&mut self, key: &str, new_value: Score) -> (r: Result<(), TriageError>)
        ensures
            match find_key(old(self).0@, key@) {
                Some(i) => r is Ok && final(self).0@ == old(self).0@.update(
                    i,
                    with_value(old(self).0@[i], new_value),
                ),
                None => *final(self) == *old(self) && (r matches Err(e) && (e matches
                    TriageError::UnknownMetricKey(k) && k@ == key@)),
            },
    {
        let needle = crate::text::chars_of(key);
        let n = self.0.len();
        let mut i: usize = 0;
        while i < n
            invariant
                n == self.0@.len(),
                i <= n,
                needle@ == key@,
                *self == *old(self),
                forall|j: int| 0 <= j < i ==> (#[trigger] self.0@[j].key)@ != key@,
            decreases n - i,
        {
            if crate::text::str_eq_chars(self.0[i].key.as_str(), &needle) {
                proof {
                    lemma_find_key_at(self.0@, key@, i as int);
                }
                let k = self.0[i].key.clone();
                let sp = self.0[i].specification.clone();
                let m = EvalMetric { key: k, specification: sp, value: Some(new_value) };
                proof {
                    assert(m == with_value(self.0@[i as int], new_value));
                }
                self.0.set(i, m);
                proof {
                    assert(final(self).0@ =~= old(self).0@.update(
                        i as int,
                        with_value(old(self).0@[i as int], new_value),
                    ));
                }
                return Ok(());
            }
            i = i + 1;
        }
        proof {
            lemma_find_key_none(self.0@, key@);
        }
        Err(TriageError::UnknownMetricKey(msg_key(key)))
    }
}

/// Carries the offending key into an error.
fn msg_key(key: &str) -> (r: String)
    ensures
        r@ == key@,
{
    key.to_owned()
}

/// Lines over all files of a submission.
pub open spec fn total_line_count(fs: Seq<FileContents>) -> int
    decreases fs.len(),
{
    if fs.len() == 0 {
        0
    } else {
        total_line_count(fs.drop_last()) + line_count(fs.last().contents@)
    }
}

/// The effort score that a line total earns, in units: one point for every
/// 45 lines past 100, clamped to the scoring range.
pub open spec fn n_lines_units(total: int) -> int {
    if total <= 100 {
        0
    } else if total >= 550 {
        450_000_000
    } else {
        (total - 100) * 1_000_000
    }
}

/// The effort score that a line total earns.
pub open spec fn n_lines_score(total: int) -> Score {
    Score { units: n_lines_units(total) as i64 }
}

/// `t` capped at a million: every threshold the rubric reads lies far
/// below the cap, so the capped total decides exactly as the true one.
pub open spec fn capped(t: int) -> int {
    if t > 1_000_000 {
        1_000_000
    } else {
        t
    }
}

impl EvalMetrics {
    /// Builds the rubric a submission gets. Always: `functionality` and
    /// `difficulty_of_language`, unscored, and `n_lines`, seeded with the
    /// effort score; past 250 lines in all, `reliability` and
    /// `maintainability` are appended, unscored.
    pub fn from_file_contents(file_contents: &Vec<FileContents>) -> (r: EvalMetrics)
        ensures
            ({
                let total = total_line_count(file_contents@);
                &&& r.0@.len() == (if total > 250 {
                    5int
                } else {
                    3int
                })
                &&& r.0@[0].key@ == "functionality"@
                &&& r.0@[0].specification@ == "`5/10` if exactly what was required"@
                &&& r.0@[0].value is None
                &&& r.0@[1].key@ == "difficulty_of_language"@
                &&& r.0@[1].specification@ == "python is `0/10` -> assembly `10/10`"@
                &&& r.0@[1].value is None
                &&& r.0@[2].key@ == "n_lines"@
                &&& r.0@[2].specification@ == "AUTO"@
                &&& r.0@[2].value == Some(n_lines_score(total))
                &&& (total > 250 ==> r.0@[3].key@ == "reliability"@ && r.0@[3].specification@
                    == "how reliable is the code"@ && r.0@[3].value is None)
                &&& (total > 250 ==> r.0@[4].key@ == "maintainability"@
                    && r.0@[4].specification@ == "how mantainable is the code"@ && r.0@[4].value
                    is None)
                &&& ((exists|i: int|
                    0 <= i < r.0@.len() && (#[trigger] r.0@[i].key)@ == "reliability"@) <==> total
                    > 250)
                &&& ((exists|i: int|
                    0 <= i < r.0@.len() && (#[trigger] r.0@[i].key)@ == "maintainability"@) <==> total
                    > 250)
                &&& rubric_wf(r.0@)
            }),
    {
        let n = file_contents.len();
        let mut total: u64 = 0;
        let mut i: usize = 0;
        proof {
            assert(file_contents@.subrange(0, 0) =~= Seq::<FileContents>::empty());
        }
        while i < n
            invariant
                n == file_contents@.len(),
                i <= n,
                0 <= total <= 1_000_000,
                total == capped(total_line_count(file_contents@.subrange(0, i as int))),
            decreases n - i,
        {
            let cs = crate::text::chars_of(file_contents[i].contents.as_str());
            let c = crate::text::count_lines(&cs);
            let cu: u64 = if c > 1_000_000 {
                1_000_000
            } else {
                c as u64
            };
            total = total + cu;
            if total > 1_000_000 {
                total = 1_000_000;
            }
            i = i + 1;
            proof {
                assert(file_contents@.subrange(0, i as int).drop_last() =~= file_contents@
                    .subrange(0, i - 1));
                assert(file_contents@.subrange(0, i as int).last() == file_contents@[i - 1]);
            }
        }
        proof {
            assert(file_contents@.subrange(0, n as int) =~= file_contents@);
        }
        let ghost real_total = total_line_count(file_contents@);
        let units: u64 = if total <= 100 {
            0
        } else if total >= 550 {
            450_000_000
        } else {
            (total - 100) * 1_000_000
        };
        proof {
            assert(units == n_lines_units(real_total));
        }
        let mut ms: Vec<EvalMetric> = Vec::new();
        ms.push(EvalMetric::new("functionality", "`5/10` if exactly what was required", None));
        ms.push(
            EvalMetric::new("difficulty_of_language", "python is `0/10` -> assembly `10/10`", None),
        );
        ms.push(EvalMetric::new("n_lines", "AUTO", Some(Score { units: units as i64 })));
        if total > 250 {
            ms.push(EvalMetric::new("reliability", "how reliable is the code", None));
            ms.push(EvalMetric::new("maintainability", "how mantainable is the code", None));
        }
        proof {
            reveal_strlit("functionality");
            reveal_strlit("difficulty_of_language");
            reveal_strlit("n_lines");
            reveal_strlit("reliability");
            reveal_strlit("maintainability");
            assert("functionality"@.len() == 13 && "difficulty_of_language"@.len() == 22
                && "n_lines"@.len() == 7 && "reliability"@.len() == 11
                && "maintainability"@.len() == 15);
            if real_total > 250 {
                assert(ms@[3].key@ == "reliability"@);
                assert(ms@[4].key@ == "maintainability"@);
            }
        }
        EvalMetrics(ms)
    }

    /// Copies the rubric.
    pub fn duplicate(&self) -> (r: EvalMetrics)
        ensures
            r.0@ == self.0@,
    {
        let n = self.0.len();
        let mut ms: Vec<EvalMetric> = Vec::new();
        let mut i: usize = 0;
        while i < n
            invariant
                n == self.0@.len(),
                i <= n,
                ms@ == self.0@.subrange(0, i as int),
            decreases n - i,
        {
            let m = EvalMetric {
                key: self.0[i].key.clone(),
                specification: self.0[i].specification.clone(),
                value: self.0[i].value,
            };
            proof {
                assert(m == self.0@[i as int]);
            }
            ms.push(m);
            i = i + 1;
            proof {
                assert(ms@ =~= self.0@.subrange(0, i as int));
            }
        }
        proof {
            assert(ms@ =~= self.0@);
        }
        EvalMetrics(ms)
    }
}

/// Why a model reply fails to complete a rubric, in mathematical form.
pub enum ApplyError {
    /// The reply holds no `json` code block.
    NoJson,
    /// The block is not a JSON object.
    NotObject,
    /// `is_suitable` is not a boolean.
    BadSuitable,
    /// The named field is neither a number nor a string.
    NotScalar(Seq<char>),
    /// The named field's rating has an unknown shape; carries the raw text.
    BadRating(Seq<char>, Seq<char>),
    /// The reply scored a key outside the rubric.
    UnknownKey(Seq<char>),
    /// The reply never carried `is_suitable`.
    NoSuitable,
    /// A metric never received a value.
    Incomplete,
    /// The rubric holds no metric at all.
    Empty,
}

/// A completed evaluation, in mathematical form: the sum of all metric
/// units, the metric count, and the suitability decision.
pub struct EvalCore {
    pub sum: int,
    pub n: nat,
    pub decision: bool,
}

/// How the reply's entries act on the rubric, entry by entry in reply
/// order, the first failure winning: `is_suitable` must be a boolean and is
/// remembered; every other entry must be a number or a rating string and
/// scores the metric of its key.
pub open spec fn apply_pairs(
    ms: Seq<EvalMetric>,
    pairs: Seq<(Seq<char>, JsonV)>,
    suit: Option<bool>,
) -> Result<(Seq<EvalMetric>, Option<bool>), ApplyError>
    decreases pairs.len(),
{
    if pairs.len() == 0 {
        Ok((ms, suit))
    } else {
        let k = pairs[0].0;
        let v = pairs[0].1;
        if k == "is_suitable"@ {
            match v {
                JsonV::Bool(b) => apply_pairs(ms, pairs.drop_first(), Some(b)),
                _ => Err(ApplyError::BadSuitable),
            }
        } else {
            match v {
                JsonV::Num(t) => match dec_units(t) {
                    Some(u) => match find_key(ms, k) {
                        Some(i) => apply_pairs(
                            ms.update(i, with_value(ms[i], (Score { units: u as i64 }))),
                            pairs.drop_first(),
                            suit,
                        ),
                        None => Err(ApplyError::UnknownKey(k)),
                    },
                    None => Err(ApplyError::BadRating(k, t)),
                },
                JsonV::Str(t) => match rating_units(t) {
                    Some(u) => match find_key(ms, k) {
                        Some(i) => apply_pairs(
                            ms.update(i, with_value(ms[i], (Score { units: u as i64 }))),
                            pairs.drop_first(),
                            suit,
                        ),
                        None => Err(ApplyError::UnknownKey(k)),
                    },
                    None => Err(ApplyError::BadRating(k, t)),
                },
                _ => Err(ApplyError::NotScalar(k)),
            }
        }
    }
}

/// The units the rubric's metrics sum to, unset metrics counting nothing.
pub open spec fn sum_units(ms: Seq<EvalMetric>) -> int
    decreases ms.len(),
{
    if ms.len() == 0 {
        0
    } else {
        sum_units(ms.drop_last()) + (match ms.last().value {
            Some(s) => s.units as int,
            None => 0,
        })
    }
}

/// What the applied reply concludes to: the decision must have arrived,
/// every metric must hold a value, and the rubric must not be empty; then
/// the mean is the sum over all metrics divided by their count.
pub open spec fn conclude_pairs(
    ms: Seq<EvalMetric>,
    suit: Option<bool>,
) -> Result<EvalCore, ApplyError> {
    match suit {
        None => Err(ApplyError::NoSuitable),
        Some(d) => {
            if exists|i: int| 0 <= i < ms.len() && (#[trigger] ms[i].value) is None {
                Err(ApplyError::Incomplete)
            } else if ms.len() == 0 {
                Err(ApplyError::Empty)
            } else {
                Ok(EvalCore { sum: sum_units(ms), n: ms.len(), decision: d })
            }
        },
    }
}

/// What a reply's parsed entries make of a rubric.
pub open spec fn apply_spec(
    ms: Seq<EvalMetric>,
    pairs: Seq<(Seq<char>, JsonV)>,
) -> Result<EvalCore, ApplyError> {
    match apply_pairs(ms, pairs, None) {
        Ok((ms2, suit)) => conclude_pairs(ms2, suit),
        Err(e) => Err(e),
    }
}

/// What evaluating a raw reply against a rubric yields: the `json` code
/// block, read as a JSON object, applied to the rubric.
pub open spec fn finish_spec(
    ms: Seq<EvalMetric>,
    reply: Seq<char>,
) -> Result<EvalCore, ApplyError> {
    match crate::text::codeblock_spec(reply, "json"@) {
        None => Err(ApplyError::NoJson),
        Some(block) => match json_object_of(block) {
            None => Err(ApplyError::NotObject),
            Some(obj) => apply_spec(ms, obj),
        },
    }
}

/// The mean is never taken over a subset: when applying a reply succeeds,
/// every metric of the resulting rubric holds a value, the rubric is not
/// empty, and the mean runs over all of its metrics.
pub proof fn lemma_ok_means_complete(ms: Seq<EvalMetric>, pairs: Seq<(Seq<char>, JsonV)>)
    ensures
        apply_spec(ms, pairs) matches Ok(core) ==> (apply_pairs(ms, pairs, None) matches Ok(st)
            && (forall|i: int| 0 <= i < st.0.len() ==> (#[trigger] st.0[i].value) is Some)
            && core.n == st.0.len() && core.n >= 1 && core.sum == sum_units(st.0)),
{
}

/// A rubric with an unpopulated metric after the reply is applied fails,
/// with the incomplete-rubric error and no other.
pub proof fn lemma_incomplete_rubric_fails(ms: Seq<EvalMetric>, pairs: Seq<(Seq<char>, JsonV)>)
    ensures
        (apply_pairs(ms, pairs, None) matches Ok(st) && st.1 is Some && (exists|i: int|
            0 <= i < st.0.len() && (#[trigger] st.0[i].value) is None)) ==> apply_spec(ms, pairs)
            == Err::<EvalCore, ApplyError>(ApplyError::Incomplete),
{
}

/// Which error kind each failure surfaces as, and what it carries.
pub open spec fn maps_apply_error(ae: ApplyError, te: TriageError) -> bool {
    match ae {
        ApplyError::UnknownKey(k) => te matches TriageError::UnknownMetricKey(s) && s@ == k,
        ApplyError::Incomplete => te is IncompleteRubric,
        ApplyError::Empty => te is IncompleteRubric,
        _ => te is MalformedModelOutput,
    }
}

/// The evaluation of one submission.
#[derive(Debug)]
pub struct Evaluation {
    pub mean_score: Rat,
    pub decision: bool,
    pub raw_response: String,
}

/// A completed evaluation matches its mathematical core: the mean is
/// exactly the sum of all metric units over the metric count, and the
/// decision is the model's verdict.
pub open spec fn evaluation_matches(e: Evaluation, core: EvalCore, raw: Seq<char>) -> bool {
    &&& e.mean_score.num == core.sum
    &&& e.mean_score.den == core.n * (SCALE as int)
    &&& e.mean_score.wf()
    &&& e.decision == core.decision
    &&& e.raw_response@ == raw
}

fn update_scored(cur: &mut EvalMetrics, key: &str, sc: Score) -> (r: Result<(), TriageError>)
    requires
        rubric_wf(old(cur).0@),
        sc.wf(),
    ensures
        rubric_wf(final(cur).0@),
        match find_key(old(cur).0@, key@) {
            Some(i) => r is Ok && final(cur).0@ == old(cur).0@.update(
                i,
                with_value(old(cur).0@[i], sc),
            ),
            None => *final(cur) == *old(cur) && (r matches Err(e) && (e matches
                TriageError::UnknownMetricKey(k) && k@ == key@)),
        },
{
    let r = cur.update(key, sc);
    proof {
        lemma_find_key_bounds(old(cur).0@, key@);
        match find_key(old(cur).0@, key@) {
            Some(i) => {
                assert forall|p: int|
                    0 <= p < cur.0@.len() implies ((#[trigger] cur.0@[p].value) matches Some(sx)
                    ==> sx.wf()) by {
                    if p == i {
                        assert(cur.0@[p].value == Some(sc));
                    } else {
                        assert(cur.0@[p] == old(cur).0@[p]);
                    }
                }
            },
            None => (),
        }
    }
    r
}

fn msg2(a: &str, b: &str) -> String {
    let mut m = String::new();
    m.append(a);
    m.append(b);
    m
}

fn msg_key_raw(prefix: &str, key: &str, raw: &str) -> String {
    let mut m = String::new();
    m.append(prefix);
    m.append(key);
    m.append("\n");
    m.append(raw);
    m
}

/// Applies a reply's parsed entries to a copy of the rubric and concludes
/// the evaluation: the mean over every metric, and the model's verdict.
#[verifier::rlimit(50)]
pub fn apply_model_reply(
    metrics: &EvalMetrics,
    pairs: &Vec<(String, JsonScalar)>,
    raw: &str,
) -> (r: Result<Evaluation, TriageError>)
    requires
        rubric_wf(metrics.0@),
    ensures
        (match apply_spec(metrics.0@, pairs_view(pairs@)) {
            Ok(core) => r matches Ok(e) && evaluation_matches(e, core, raw@),
            Err(ae) => r matches Err(te) && maps_apply_error(ae, te),
        }),
{
    let ghost pv = pairs_view(pairs@);
    let mut cur = metrics.duplicate();
    let mut suit: Option<bool> = None;
    let n = pairs.len();
    let mut i: usize = 0;
    let is_suitable_chars = crate::text::chars_of("is_suitable");
    proof {
        assert(pv.skip(0) =~= pv);
    }
    while i < n
        invariant
            n == pairs@.len(),
            i <= n,
            pv == pairs_view(pairs@),
            is_suitable_chars@ == "is_suitable"@,
            rubric_wf(cur.0@),
            rubric_wf(metrics.0@),
            apply_pairs(metrics.0@, pv, None) == apply_pairs(cur.0@, pv.skip(i as int), suit),
        decreases n - i,
    {
        proof {
            assert(pv.skip(i as int)[0] == pv[i as int]);
            assert(pv.skip(i as int).drop_first() =~= pv.skip(i + 1));
            assert(pv[i as int].0 == pairs@[i as int].0@);
            assert(pv[i as int].1 == pairs@[i as int].1@);
        }
        let key_matches = crate::text::str_eq_chars(pairs[i].0.as_str(), &is_suitable_chars);
        if key_matches {
            match &pairs[i].1 {
                JsonScalar::Bool(b) => {
                    suit = Some(*b);
                },
                _ => {
                    return Err(
                        TriageError::MalformedModelOutput(
                            msg2("model returned a non-boolean value for is_suitable\n", raw),
                        ),
                    );
                },
            }
        } else {
            match &pairs[i].1 {
                JsonScalar::Num(t) => {
                    let tv = crate::text::chars_of(t.as_str());
                    match crate::score::parse_decimal(&tv) {
                        Some(sc) => match update_scored(&mut cur, pairs[i].0.as_str(), sc) {
                            Ok(_) => (),
                            Err(e) => {
                                return Err(e);
                            },
                        },
                        None => {
                            return Err(
                                TriageError::MalformedModelOutput(
                                    msg_key_raw("unusable rating for ", pairs[i].0.as_str(), raw),
                                ),
                            );
                        },
                    }
                },
                JsonScalar::Str(t) => {
                    let tv = crate::text::chars_of(t.as_str());
                    match crate::score::normalize_rating_chars(&tv) {
                        Some(sc) => match update_scored(&mut cur, pairs[i].0.as_str(), sc) {
                            Ok(_) => (),
                            Err(e) => {
                                return Err(e);
                            },
                        },
                        None => {
                            return Err(
                                TriageError::MalformedModelOutput(
                                    msg_key_raw("invalid rating format for ", pairs[i].0.as_str(), raw),
                                ),
                            );
                        },
                    }
                },
                _ => {
                    return Err(
                        TriageError::MalformedModelOutput(
                            msg_key_raw("expected a number or string for ", pairs[i].0.as_str(), raw),
                        ),
                    );
                },
            }
        }
        i = i + 1;
    }
    proof {
        assert(pv.skip(n as int) =~= Seq::<(Seq<char>, JsonV)>::empty());
    }
    let decision: bool = match suit {
        Some(d) => d,
        None => {
            return Err(
                TriageError::MalformedModelOutput(
                    msg2("model did not return the is_suitable field\n", raw),
                ),
            );
        },
    };
    let m = cur.0.len();
    let mut sum: i128 = 0;
    let mut j: usize = 0;
    proof {
        assert(cur.0@.subrange(0, 0) =~= Seq::<EvalMetric>::empty());
    }
    while j < m
        invariant
            m == cur.0@.len(),
            j <= m,
            rubric_wf(cur.0@),
            pv == pairs_view(pairs@),
            suit == Some(decision),
            apply_pairs(metrics.0@, pv, None) == Ok::<_, ApplyError>((cur.0@, suit)),
            forall|p: int| 0 <= p < j ==> (#[trigger] cur.0@[p].value) is Some,
            sum == sum_units(cur.0@.subrange(0, j as int)),
            -(j as int) * (SCORE_BOUND as int) <= sum <= (j as int) * (SCORE_BOUND as int),
        decreases m - j,
    {
        let v = cur.0[j].value;
        match v {
            Some(s) => {
                proof {
                    assert(s.wf());
                    assert((j + 1) * (SCORE_BOUND as int) == (j as int) * (SCORE_BOUND as int)
                        + SCORE_BOUND) by (nonlinear_arith);
                    assert((j as int) * (SCORE_BOUND as int) <= 18446744073709551616 * (
                    SCORE_BOUND as int)) by (nonlinear_arith)
                        requires
                            0 <= j <= 18446744073709551616,
                    ;
                }
                sum = sum + (s.units as i128);
            },
            None => {
                return Err(
                    TriageError::IncompleteRubric(
                        msg2("the model left evaluation metrics without values\n", raw),
                    ),
                );
            },
        }
        j = j + 1;
        proof {
            assert(cur.0@.subrange(0, j as int).drop_last() =~= cur.0@.subrange(0, j - 1));
            assert(cur.0@.subrange(0, j as int).last() == cur.0@[j - 1]);
        }
    }
    proof {
        assert(cur.0@.subrange(0, m as int) =~= cur.0@);
    }
    if m == 0 {
        return Err(
            TriageError::IncompleteRubric(
                msg2("the rubric holds no metric at all\n", raw),
            ),
        );
    }
    let den = (m as i128) * (SCALE as i128);
    proof {
        assert(0 < (m as int) * (SCALE as int) <= 18446744073709551616 * (SCALE as int))
            by (nonlinear_arith)
            requires
                1 <= m <= 18446744073709551616,
        ;
        assert(-(m as int) * (SCORE_BOUND as int) >= -18446744073709551616 * (
        SCORE_BOUND as int)) by (nonlinear_arith)
            requires
                0 <= m <= 18446744073709551616,
        ;
    }
    Ok(
        Evaluation {
            mean_score: Rat { num: sum, den },
            decision,
            raw_response: raw.to_owned(),
        },
    )
}

/// Evaluates a raw model reply against a rubric: extracts the `json` code
/// block, reads it as an object, and applies it.
pub fn finish_evaluation(metrics: &EvalMetrics, reply: &str) -> (r: Result<
    Evaluation,
    TriageError,
>)
    requires
        rubric_wf(metrics.0@),
    ensures
        (match finish_spec(metrics.0@, reply@) {
            Ok(core) => r matches Ok(e) && evaluation_matches(e, core, reply@),
            Err(ae) => r matches Err(te) && maps_apply_error(ae, te),
        }),
{
    let tv = crate::text::chars_of(reply);
    let tag = crate::text::chars_of("json");
    match crate::text::extract_block(&tv, &tag) {
        None => Err(
            TriageError::MalformedModelOutput(
                msg2("the reply did not contain a json code block:\n", reply),
            ),
        ),
        Some(block) => {
            let block_str = crate::text::string_of(block);
            match crate::json::parse_json_object(block_str.as_str()) {
                Err(_) => Err(
                    TriageError::MalformedModelOutput(
                        msg2("the returned json is not an object:\n", reply),
                    ),
                ),
                Ok(pairs) => {
                    proof {
                        let obj = json_object_of(block_str@)->Some_0;
                        assert(pairs_view(pairs@) =~= obj);
                    }
                    apply_model_reply(metrics, &pairs, reply)
                },
            }
        },
    }
}

/// The keys of the metrics still waiting for a score, in rubric order.
pub open spec fn pending_keys(ms: Seq<EvalMetric>) -> Seq<Seq<char>>
    decreases ms.len(),
{
    if ms.len() == 0 {
        Seq::empty()
    } else {
        pending_keys(ms.drop_last()) + if ms.last().value is None {
            seq![ms.last().key@]
        } else {
            Seq::empty()
        }
    }
}

/// How one unscored metric is rendered for the reply template.
pub open spec fn entry_text(m: EvalMetric) -> Seq<char> {
    "\""@ + m.key@ + "\": "@ + m.specification@
}

/// The rendered lines of the metrics still waiting for a score.
pub open spec fn pending_entries(ms: Seq<EvalMetric>) -> Seq<Seq<char>>
    decreases ms.len(),
{
    if ms.len() == 0 {
        Seq::empty()
    } else {
        pending_entries(ms.drop_last()) + if ms.last().value is None {
            seq![entry_text(ms.last())]
        } else {
            Seq::empty()
        }
    }
}

fn pending_key_vecs(metrics: &EvalMetrics) -> (r: Vec<Vec<char>>)
    ensures
        crate::text::views(r@) == pending_keys(metrics.0@),
{
    let n = metrics.0.len();
    let mut r: Vec<Vec<char>> = Vec::new();
    let mut i: usize = 0;
    proof {
        assert(crate::text::views(r@) =~= pending_keys(metrics.0@.subrange(0, 0)));
    }
    while i < n
        invariant
            n == metrics.0@.len(),
            i <= n,
            crate::text::views(r@) == pending_keys(metrics.0@.subrange(0, i as int)),
        decreases n - i,
    {
        if metrics.0[i].value.is_none() {
            r.push(crate::text::chars_of(metrics.0[i].key.as_str()));
        }
        i = i + 1;
        proof {
            assert(metrics.0@.subrange(0, i as int).drop_last() =~= metrics.0@.subrange(
                0,
                i - 1,
            ));
            assert(metrics.0@.subrange(0, i as int).last() == metrics.0@[i - 1]);
            assert(crate::text::views(r@) =~= pending_keys(metrics.0@.subrange(0, i as int)));
        }
    }
    proof {
        assert(metrics.0@.subrange(0, n as int) =~= metrics.0@);
    }
    r
}

fn pending_entry_vecs(metrics: &EvalMetrics) -> (r: Vec<Vec<char>>)
    ensures
        crate::text::views(r@) == pending_entries(metrics.0@),
{
    let n = metrics.0.len();
    let mut r: Vec<Vec<char>> = Vec::new();
    let mut i: usize = 0;
    proof {
        assert(crate::text::views(r@) =~= pending_entries(metrics.0@.subrange(0, 0)));
    }
    while i < n
        invariant
            n == metrics.0@.len(),
            i <= n,
            crate::text::views(r@) == pending_entries(metrics.0@.subrange(0, i as int)),
        decreases n - i,
    {
        if metrics.0[i].value.is_none() {
            let mut e: Vec<char> = Vec::new();
            crate::text::append_str(&mut e, "\"");
            crate::text::append_str(&mut e, metrics.0[i].key.as_str());
            crate::text::append_str(&mut e, "\": ");
            crate::text::append_str(&mut e, metrics.0[i].specification.as_str());
            proof {
                assert(e@ == entry_text(metrics.0@[i as int]));
            }
            r.push(e);
        }
        i = i + 1;
        proof {
            assert(metrics.0@.subrange(0, i as int).drop_last() =~= metrics.0@.subrange(
                0,
                i - 1,
            ));
            assert(metrics.0@.subrange(0, i as int).last() == metrics.0@[i - 1]);
            assert(crate::text::views(r@) =~= pending_entries(metrics.0@.subrange(0, i as int)));
        }
    }
    proof {
        assert(metrics.0@.subrange(0, n as int) =~= metrics.0@);
    }
    r
}

/// How one file is rendered into the prompt: its path, then its text in a
/// fence tagged with its extension.
pub open spec fn file_block(f: FileContents) -> Seq<char> {
    "\n\n"@ + f.filename@ + ":\n````"@ + crate::repo::ext_of(f.filename@) + "\n"@ + f.contents@
        + "\n````"@
}

/// How the whole file set is rendered into the prompt.
pub open spec fn files_text(fs: Seq<FileContents>) -> Seq<char>
    decreases fs.len(),
{
    if fs.len() == 0 {
        Seq::empty()
    } else {
        files_text(fs.drop_last()) + file_block(fs.last())
    }
}

fn append_files(out: &mut Vec<char>, files: &Vec<FileContents>)
    ensures
        final(out)@ == old(out)@ + files_text(files@),
{
    let n = files.len();
    let mut i: usize = 0;
    proof {
        assert(out@ =~= old(out)@ + files_text(files@.subrange(0, 0)));
    }
    while i < n
        invariant
            n == files@.len(),
            i <= n,
            out@ == old(out)@ + files_text(files@.subrange(0, i as int)),
        decreases n - i,
    {
        crate::text::append_str(out, "\n\n");
        crate::text::append_str(out, files[i].filename.as_str());
        crate::text::append_str(out, ":\n````");
        let ext = files[i].extension();
        crate::text::append_str(out, ext.as_str());
        crate::text::append_str(out, "\n");
        crate::text::append_str(out, files[i].contents.as_str());
        crate::text::append_str(out, "\n````");
        i = i + 1;
        proof {
            assert(files@.subrange(0, i as int).drop_last() =~= files@.subrange(0, i - 1));
            assert(files@.subrange(0, i as int).last() == files@[i - 1]);
        }
    }
    proof {
        assert(files@.subrange(0, n as int) =~= files@);
    }
}

/// The scoring prompt, in full: the unscored metric keys, the task with
/// its first letter lowered, every file in a tagged fence, and the strict
/// output contract asking for one `json` code block.
pub open spec fn eval_prompt_spec(
    task: Seq<char>,
    position: Seq<char>,
    ms: Seq<EvalMetric>,
    fs: Seq<FileContents>,
) -> Seq<char> {
    "Give objective evaluation of the performance of a candidate for a position of a programmer, on the scale of 1-10 for each of the following metrics: ["@
        + crate::text::join_sep(pending_keys(ms), ", "@) + "]\nThe assignment was to "@
        + crate::text::lower_first(task)
        + ".\nHere are all the files with actual code from submitted repo:"@ + files_text(fs)
        + "\n\nAfter evaluating the candidate's performance on the provided metrics, return as json codeblock evaluations of each metric, and then whether the candidate is suitable for the position of "@
        + crate::text::ascii_lower(position) + ":\n```json\n{\n\t"@
        + crate::text::join_sep(pending_entries(ms), ",\n"@)
        + "\n\t\"is_suitable\": bool\n}\n```\nOnly return the ```json``` codeblock in the very end, _after_ having had evaluated each metric individually\nIf any of the creterions defines its evaluation scale, IGNORE THE CONVENTION and follow it exactly."@
}

/// Renders the scoring prompt for a submission.
pub fn eval_prompt(
    task_spec: &crate::answer::TaskSpec,
    metrics: &EvalMetrics,
    files: &Vec<FileContents>,
) -> (r: String)
    ensures
        r@ == eval_prompt_spec(
            task_spec.task@,
            task_spec.position@,
            metrics.0@,
            files@,
        ),
{
    let mut out: Vec<char> = Vec::new();
    crate::text::append_str(
        &mut out,
        "Give objective evaluation of the performance of a candidate for a position of a programmer, on the scale of 1-10 for each of the following metrics: [",
    );
    let keys = pending_key_vecs(metrics);
    let joined_keys = crate::text::join_with(&keys, ", ");
    crate::text::append_chars(&mut out, &joined_keys);
    crate::text::append_str(&mut out, "]\nThe assignment was to ");
    let tv = crate::text::chars_of(task_spec.task.as_str());
    let tl = crate::text::lower_first_chars(&tv);
    crate::text::append_chars(&mut out, &tl);
    crate::text::append_str(
        &mut out,
        ".\nHere are all the files with actual code from submitted repo:",
    );
    append_files(&mut out, files);
    crate::text::append_str(
        &mut out,
        "\n\nAfter evaluating the candidate's performance on the provided metrics, return as json codeblock evaluations of each metric, and then whether the candidate is suitable for the position of ",
    );
    let pv2 = crate::text::chars_of(task_spec.position.as_str());
    let pl = crate::text::ascii_lower_chars(&pv2);
    crate::text::append_chars(&mut out, &pl);
    crate::text::append_str(&mut out, ":\n```json\n{\n\t");
    let entries = pending_entry_vecs(metrics);
    let joined_entries = crate::text::join_with(&entries, ",\n");
    crate::text::append_chars(&mut out, &joined_entries);
    crate::text::append_str(
        &mut out,
        "\n\t\"is_suitable\": bool\n}\n```\nOnly return the ```json``` codeblock in the very end, _after_ having had evaluated each metric individually\nIf any of the creterions defines its evaluation scale, IGNORE THE CONVENTION and follow it exactly.",
    );
    crate::text::string_of(out)
}

} // verus!
