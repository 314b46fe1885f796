//! Label selector rendering into the cluster CLI's string grammar.

use crate::errors::SshPodError;
use crate::strutil::{join_strings, join_with, str_eq};
use vstd::prelude::*;

verus! {

/// One `matchLabels` entry.
#[derive(Debug, Clone)]
pub struct LabelPair {
    pub key: String,
    pub value: String,
}

/// One `matchExpressions` entry. The operator is kept as the cluster
/// reported it; rendering rejects anything outside the four known ones.
#[derive(Debug, Clone)]
pub struct MatchExpression {
    pub key: String,
    pub operator: String,
    pub values: Vec<String>,
}

/// A deployment's or job's pod selector.
#[derive(Debug, Clone)]
pub struct LabelSelector {
    pub match_labels: Vec<LabelPair>,
    pub match_expressions: Vec<MatchExpression>,
}

// ---------------------------------------------------------------------------
// Spec-level rendering
// ---------------------------------------------------------------------------

/// Whether one expression can be rendered: `In`/`NotIn` need values, and
/// only the four known operators exist.
pub open spec fn spec_expr_ok(e: MatchExpression) -> bool {
    ||| ((e.operator@ == ("In")@ || e.operator@ == ("NotIn")@) && e.values@.len() > 0)
    ||| e.operator@ == ("Exists")@
    ||| e.operator@ == ("DoesNotExist")@
}

/// The rendering of one well-formed expression.
pub open spec fn spec_expr_part(e: MatchExpression) -> Seq<char> {
    if e.operator@ == ("In")@ {
        e.key@ + (" in (")@ + join_with(e.values.deep_view(), (",")@) + (")")@
    } else if e.operator@ == ("NotIn")@ {
        e.key@ + (" notin (")@ + join_with(e.values.deep_view(), (",")@) + (")")@
    } else if e.operator@ == ("Exists")@ {
        e.key@
    } else if e.operator@ == ("DoesNotExist")@ {
        ("!")@ + e.key@
    } else {
        Seq::empty()
    }
}

/// The message given for the first expression that cannot be rendered.
pub open spec fn spec_expr_error(e: MatchExpression) -> Seq<char> {
    if e.operator@ == ("In")@ {
        ("matchExpressions In requires values")@
    } else if e.operator@ == ("NotIn")@ {
        ("matchExpressions NotIn requires values")@
    } else {
        ("unsupported matchExpression operator: ")@ + e.operator@
    }
}

pub open spec fn spec_first_bad(exprs: Seq<MatchExpression>) -> Option<MatchExpression>
    decreases exprs.len(),
{
    if exprs.len() == 0 {
        Option::None
    } else if !spec_expr_ok(exprs[0]) {
        Option::Some(exprs[0])
    } else {
        spec_first_bad(exprs.drop_first())
    }
}

pub open spec fn spec_label_parts(labels: Seq<LabelPair>) -> Seq<Seq<char>> {
    labels.map_values(|p: LabelPair| p.key@ + ("=")@ + p.value@)
}

pub open spec fn spec_expr_parts(exprs: Seq<MatchExpression>) -> Seq<Seq<char>> {
    exprs.map_values(|e: MatchExpression| spec_expr_part(e))
}

/// What rendering returns: the message of the first broken expression, else
/// a rejection of the empty selector, else the comma-joined parts.
pub open spec fn spec_render(labels: Seq<LabelPair>, exprs: Seq<MatchExpression>) -> Result<
    Seq<char>,
    Seq<char>,
> {
    match spec_first_bad(exprs) {
        Option::Some(e) => Result::Err(spec_expr_error(e)),
        Option::None => {
            if labels.len() + exprs.len() == 0 {
                Result::Err(("label selector is empty")@)
            } else {
                Result::Ok(join_with(spec_label_parts(labels) + spec_expr_parts(exprs), (",")@))
            }
        },
    }
}

/// The four operator names are pairwise distinct (their lengths differ).
proof fn lemma_op_distinct()
    ensures
        ("In")@ != ("NotIn")@,
        ("In")@ != ("Exists")@,
        ("In")@ != ("DoesNotExist")@,
        ("NotIn")@ != ("Exists")@,
        ("NotIn")@ != ("DoesNotExist")@,
        ("Exists")@ != ("DoesNotExist")@,
{
    reveal_strlit("In");
    reveal_strlit("NotIn");
    reveal_strlit("Exists");
    reveal_strlit("DoesNotExist");
    assert(("In")@.len() == 2);
    assert(("NotIn")@.len() == 5);
    assert(("Exists")@.len() == 6);
    assert(("DoesNotExist")@.len() == 12);
}

proof fn lemma_first_bad_at(exprs: Seq<MatchExpression>, i: int)
    requires
        0 <= i < exprs.len(),
        forall|j: int| 0 <= j < i ==> spec_expr_ok(#[trigger] exprs[j]),
        !spec_expr_ok(exprs[i]),
    ensures
        spec_first_bad(exprs) == Option::Some(exprs[i]),
    decreases i,
{
    if i > 0 {
        assert(forall|j: int| 0 <= j < i - 1 ==> exprs.drop_first()[j] == exprs[j + 1]);
        lemma_first_bad_at(exprs.drop_first(), i - 1);
    }
}

proof fn lemma_first_bad_none(exprs: Seq<MatchExpression>)
    requires
        forall|j: int| 0 <= j < exprs.len() ==> spec_expr_ok(#[trigger] exprs[j]),
    ensures
        spec_first_bad(exprs) == Option::None::<MatchExpression>,
    decreases exprs.len(),
{
    if exprs.len() > 0 {
        assert(forall|j: int| 0 <= j < exprs.len() - 1 ==> exprs.drop_first()[j] == exprs[j + 1]);
        lemma_first_bad_none(exprs.drop_first());
    }
}

proof fn lemma_first_bad_some(exprs: Seq<MatchExpression>, i: int)
    requires
        0 <= i < exprs.len(),
        !spec_expr_ok(exprs[i]),
    ensures
        spec_first_bad(exprs) is Some,
    decreases i,
{
    if spec_expr_ok(exprs[0]) {
        assert(exprs.drop_first()[i - 1] == exprs[i]);
        lemma_first_bad_some(exprs.drop_first(), i - 1);
    }
}

// ---------------------------------------------------------------------------
// Laws
// ---------------------------------------------------------------------------

/// Rendering is total on well-typed selectors: when every expression uses a
/// known operator with values where required, and the selector is not
/// empty, rendering succeeds.
pub proof fn lemma_selector_total(labels: Seq<LabelPair>, exprs: Seq<MatchExpression>)
    requires
        forall|i: int| 0 <= i < exprs.len() ==> spec_expr_ok(#[trigger] exprs[i]),
        labels.len() + exprs.len() > 0,
    ensures
        spec_render(labels, exprs) is Ok,
{
    lemma_first_bad_none(exprs);
}

/// An `In` or `NotIn` expression without values always makes rendering
/// fail, whatever else the selector holds.
pub proof fn lemma_selector_empty_values_rejected(
    labels: Seq<LabelPair>,
    exprs: Seq<MatchExpression>,
    i: int,
)
    requires
        0 <= i < exprs.len(),
        exprs[i].operator@ == ("In")@ || exprs[i].operator@ == ("NotIn")@,
        exprs[i].values@.len() == 0,
    ensures
        spec_render(labels, exprs) is Err,
{
    lemma_op_distinct();
    lemma_first_bad_some(exprs, i);
}

// ---------------------------------------------------------------------------
// Executable rendering
// ---------------------------------------------------------------------------

/// Render a selector, or report the first broken expression or an empty
/// selector.
#[verifier::loop_isolation(false)]
pub fn to_selector(sel: &LabelSelector) -> (r: Result<String, SshPodError>)
    ensures
        match r {
            Result::Ok(s) => spec_render(sel.match_labels@, sel.match_expressions@)
                == Result::<Seq<char>, Seq<char>>::Ok(s@),
            Result::Err(e) => e matches SshPodError::ClusterQueryFailed { detail }
                && spec_render(sel.match_labels@, sel.match_expressions@)
                == Result::<Seq<char>, Seq<char>>::Err(detail@),
        },
{
    let ghost labels = sel.match_labels@;
    let ghost exprs = sel.match_expressions@;
    let mut parts: Vec<String> = Vec::new();
    let mut i: usize = 0;
    proof {
        assert(labels.take(0) =~= Seq::<LabelPair>::empty());
        assert(parts.deep_view() =~= spec_label_parts(labels.take(0)));
    }
    while i < sel.match_labels.len()
        invariant
            i <= sel.match_labels.len(),
            parts.deep_view() == spec_label_parts(labels.take(i as int)),
        decreases sel.match_labels.len() - i,
    {
        let ghost old_parts = parts.deep_view();
        let mut part = sel.match_labels[i].key.clone();
        part.append("=");
        part.append(sel.match_labels[i].value.as_str());
        parts.push(part);
        proof {
            assert(parts.deep_view() =~= old_parts.push(
                labels[i as int].key@ + ("=")@ + labels[i as int].value@,
            ));
            assert(spec_label_parts(labels.take(i as int + 1)) =~= spec_label_parts(
                labels.take(i as int),
            ).push(labels[i as int].key@ + ("=")@ + labels[i as int].value@));
        }
        i += 1;
    }
    proof {
        assert(labels.take(labels.len() as int) =~= labels);
    }
    let mut j: usize = 0;
    proof {
        assert(exprs.take(0) =~= Seq::<MatchExpression>::empty());
        assert(spec_expr_parts(exprs.take(0)) =~= Seq::<Seq<char>>::empty());
        assert(parts.deep_view() =~= spec_label_parts(labels) + spec_expr_parts(exprs.take(0)));
    }
    while j < sel.match_expressions.len()
        invariant
            j <= sel.match_expressions.len(),
            forall|k: int| 0 <= k < j ==> spec_expr_ok(#[trigger] exprs[k]),
            parts.deep_view() == spec_label_parts(labels) + spec_expr_parts(exprs.take(j as int)),
        decreases sel.match_expressions.len() - j,
    {
        let ghost old_parts = parts.deep_view();
        let e = &sel.match_expressions[j];
        let mut part: String;
        if str_eq(e.operator.as_str(), "In") {
            if e.values.len() == 0 {
                proof {
                    lemma_op_distinct();
                    lemma_first_bad_at(exprs, j as int);
                }
                return Result::Err(
                    SshPodError::ClusterQueryFailed {
                        detail: String::from_str("matchExpressions In requires values"),
                    },
                );
            }
            part = e.key.clone();
            part.append(" in (");
            let joined = join_strings(&e.values, ",");
            part.append(joined.as_str());
            part.append(")");
        } else if str_eq(e.operator.as_str(), "NotIn") {
            if e.values.len() == 0 {
                proof {
                    lemma_op_distinct();
                    lemma_first_bad_at(exprs, j as int);
                }
                return Result::Err(
                    SshPodError::ClusterQueryFailed {
                        detail: String::from_str("matchExpressions NotIn requires values"),
                    },
                );
            }
            part = e.key.clone();
            part.append(" notin (");
            let joined = join_strings(&e.values, ",");
            part.append(joined.as_str());
            part.append(")");
        } else if str_eq(e.operator.as_str(), "Exists") {
            part = e.key.clone();
        } else if str_eq(e.operator.as_str(), "DoesNotExist") {
            part = String::from_str("!");
            part.append(e.key.as_str());
        } else {
            proof {
                lemma_first_bad_at(exprs, j as int);
            }
            let mut detail = String::from_str("unsupported matchExpression operator: ");
            detail.append(e.operator.as_str());
            return Result::Err(SshPodError::ClusterQueryFailed { detail });
        }
        parts.push(part);
        proof {
            assert(parts.deep_view() =~= old_parts.push(spec_expr_part(exprs[j as int])));
            assert(spec_expr_parts(exprs.take(j as int + 1)) =~= spec_expr_parts(
                exprs.take(j as int),
            ).push(spec_expr_part(exprs[j as int])));
            assert(old_parts.push(spec_expr_part(exprs[j as int])) =~= spec_label_parts(labels)
                + spec_expr_parts(exprs.take(j as int + 1)));
        }
        j += 1;
    }
    proof {
        assert(exprs.take(exprs.len() as int) =~= exprs);
        lemma_first_bad_none(exprs);
    }
    if parts.len() == 0 {
        proof {
            assert(spec_label_parts(labels).len() == labels.len());
            assert(spec_expr_parts(exprs).len() == exprs.len());
        }
        return Result::Err(
            SshPodError::ClusterQueryFailed { detail: String::from_str("label selector is empty") },
        );
    }
    let joined = join_strings(&parts, ",");
    proof {
        assert(spec_label_parts(labels).len() == labels.len());
        assert(spec_expr_parts(exprs).len() == exprs.len());
    }
    Result::Ok(joined)
}

/// The selector used to find a job's pods: the job's own selector when the
/// cluster reports one, else its template labels, else the conventional
/// `job-name=<job>` label.
pub fn job_selector(
    sel: Option<LabelSelector>,
    template_labels: Option<Vec<LabelPair>>,
    job: &str,
) -> (r: Result<String, SshPodError>)
    ensures
        match sel {
            Option::Some(s) => match r {
                Result::Ok(v) => spec_render(s.match_labels@, s.match_expressions@)
                    == Result::<Seq<char>, Seq<char>>::Ok(v@),
                Result::Err(e) => e matches SshPodError::ClusterQueryFailed { detail }
                    && spec_render(s.match_labels@, s.match_expressions@)
                    == Result::<Seq<char>, Seq<char>>::Err(detail@),
            },
            Option::None => match template_labels {
                Option::Some(ls) => {
                    if ls@.len() > 0 {
                        r matches Ok(v) && spec_render(ls@, Seq::empty()) == Result::<
                            Seq<char>,
                            Seq<char>,
                        >::Ok(v@)
                    } else {
                        r matches Ok(v) && v@ == ("job-name=")@ + job@
                    }
                },
                Option::None => r matches Ok(v) && v@ == ("job-name=")@ + job@,
            },
        },
{
    match sel {
        Option::Some(s) => to_selector(&s),
        Option::None => match template_labels {
            Option::Some(ls) => {
                if ls.len() > 0 {
                    let assembled = LabelSelector {
                        match_labels: ls,
                        match_expressions: Vec::new(),
                    };
                    proof {
                        assert(assembled.match_expressions@ =~= Seq::<MatchExpression>::empty());
                        lemma_first_bad_none(assembled.match_expressions@);
                    }
                    to_selector(&assembled)
                } else {
                    let mut r = String::from_str("job-name=");
                    r.append(job);
                    Result::Ok(r)
                }
            },
            Option::None => {
                let mut r = String::from_str("job-name=");
                r.append(job);
                Result::Ok(r)
            },
        },
    }
}

} // verus!
