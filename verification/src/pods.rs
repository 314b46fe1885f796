//! Pod, deployment and job listing: readiness, ranking, container choice,
//! and the small decisions of target resolution.

use crate::errors::SshPodError;
use crate::strutil::str_eq;
use vstd::prelude::*;

verus! {

/// What one cluster query reports about a pod: its stable identity and the
/// names of its containers, in order.
#[derive(Debug, Clone)]
pub struct PodInfo {
    pub uid: String,
    pub containers: Vec<String>,
}

/// One entry of a pod's `status.conditions` list.
#[derive(Debug, Clone)]
pub struct PodCondition {
    pub cond_type: String,
    pub status: String,
}

/// One entry of a pod list query.
#[derive(Debug, Clone)]
pub struct PodListItem {
    pub name: String,
    pub phase: Option<String>,
    pub conditions: Option<Vec<PodCondition>>,
}

/// One entry of a deployment list query.
#[derive(Debug, Clone)]
pub struct DeploymentItem {
    pub name: String,
    pub available_replicas: Option<u32>,
    pub ready_replicas: Option<u32>,
}

/// One entry of a job list query.
#[derive(Debug, Clone)]
pub struct JobItem {
    pub name: String,
    pub succeeded: Option<u32>,
    pub ready: Option<u32>,
    pub active: Option<u32>,
}

// ---------------------------------------------------------------------------
// Readiness
// ---------------------------------------------------------------------------

pub open spec fn spec_is_running(p: PodListItem) -> bool {
    match p.phase {
        Option::Some(ph) => ph@ == ("Running")@,
        Option::None => false,
    }
}

pub open spec fn spec_has_ready_condition(conds: Seq<PodCondition>) -> bool {
    exists|i: int|
        0 <= i < conds.len() && conds[i].cond_type@ == ("Ready")@ && conds[i].status@ == ("True")@
}

/// Ready means phase `Running` plus a condition `{type: Ready, status: True}`.
pub open spec fn spec_is_ready(p: PodListItem) -> bool {
    &&& spec_is_running(p)
    &&& match p.conditions {
        Option::Some(cs) => spec_has_ready_condition(cs@),
        Option::None => false,
    }
}

pub fn is_running(p: &PodListItem) -> (r: bool)
    ensures
        r == spec_is_running(*p),
{
    match &p.phase {
        Option::Some(ph) => str_eq(ph.as_str(), "Running"),
        Option::None => false,
    }
}

#[verifier::loop_isolation(false)]
pub fn is_ready(p: &PodListItem) -> (r: bool)
    ensures
        r == spec_is_ready(*p),
{
    if !is_running(p) {
        return false;
    }
    match &p.conditions {
        Option::Some(cs) => {
            let mut i: usize = 0;
            while i < cs.len()
                invariant
                    i <= cs.len(),
                    forall|j: int|
                        0 <= j < i ==> !(cs@[j].cond_type@ == ("Ready")@ && cs@[j].status@ == (
                        "True")@),
                decreases cs.len() - i,
            {
                if str_eq(cs[i].cond_type.as_str(), "Ready") && str_eq(
                    cs[i].status.as_str(),
                    "True",
                ) {
                    proof {
                        assert(cs@[i as int].cond_type@ == ("Ready")@ && cs@[i as int].status@ == (
                        "True")@);
                        assert(spec_has_ready_condition(cs@));
                    }
                    return true;
                }
                i += 1;
            }
            false
        },
        Option::None => false,
    }
}

// ---------------------------------------------------------------------------
// Ranking: first Ready, else first Running, else the first listed
// ---------------------------------------------------------------------------

pub open spec fn spec_first_ready(items: Seq<PodListItem>) -> Option<PodListItem>
    decreases items.len(),
{
    if items.len() == 0 {
        Option::None
    } else if spec_is_ready(items[0]) {
        Option::Some(items[0])
    } else {
        spec_first_ready(items.drop_first())
    }
}

pub open spec fn spec_first_running(items: Seq<PodListItem>) -> Option<PodListItem>
    decreases items.len(),
{
    if items.len() == 0 {
        Option::None
    } else if spec_is_running(items[0]) {
        Option::Some(items[0])
    } else {
        spec_first_running(items.drop_first())
    }
}

/// The name `select_pod` returns on a non-empty list: the first Ready pod,
/// else the first Running pod, else the head of the list.
pub open spec fn spec_select_pod(items: Seq<PodListItem>) -> Seq<char> {
    match spec_first_ready(items) {
        Option::Some(p) => p.name@,
        Option::None => match spec_first_running(items) {
            Option::Some(p) => p.name@,
            Option::None => if items.len() > 0 {
                items[0].name@
            } else {
                Seq::empty()
            },
        },
    }
}

proof fn lemma_first_ready_at(items: Seq<PodListItem>, i: int)
    requires
        0 <= i < items.len(),
        forall|j: int| 0 <= j < i ==> !spec_is_ready(items[j]),
        spec_is_ready(items[i]),
    ensures
        spec_first_ready(items) == Option::Some(items[i]),
    decreases i,
{
    if i > 0 {
        assert(forall|j: int|
            0 <= j < i - 1 ==> items.drop_first()[j] == items[j + 1]);
        lemma_first_ready_at(items.drop_first(), i - 1);
    }
}

proof fn lemma_first_ready_none(items: Seq<PodListItem>)
    requires
        forall|j: int| 0 <= j < items.len() ==> !spec_is_ready(items[j]),
    ensures
        spec_first_ready(items) == Option::None::<PodListItem>,
    decreases items.len(),
{
    if items.len() > 0 {
        assert(forall|j: int|
            0 <= j < items.len() - 1 ==> items.drop_first()[j] == items[j + 1]);
        lemma_first_ready_none(items.drop_first());
    }
}

proof fn lemma_first_running_at(items: Seq<PodListItem>, i: int)
    requires
        0 <= i < items.len(),
        forall|j: int| 0 <= j < i ==> !spec_is_running(items[j]),
        spec_is_running(items[i]),
    ensures
        spec_first_running(items) == Option::Some(items[i]),
    decreases i,
{
    if i > 0 {
        assert(forall|j: int|
            0 <= j < i - 1 ==> items.drop_first()[j] == items[j + 1]);
        lemma_first_running_at(items.drop_first(), i - 1);
    }
}

proof fn lemma_first_running_none(items: Seq<PodListItem>)
    requires
        forall|j: int| 0 <= j < items.len() ==> !spec_is_running(items[j]),
    ensures
        spec_first_running(items) == Option::None::<PodListItem>,
    decreases items.len(),
{
    if items.len() > 0 {
        assert(forall|j: int|
            0 <= j < items.len() - 1 ==> items.drop_first()[j] == items[j + 1]);
        lemma_first_running_none(items.drop_first());
    }
}

/// Ranking is stable: the chosen name is a single value determined by the
/// pod list, so any two calls of `select_pod` on the same list return the
/// same name.
pub proof fn lemma_ranking_stable(items: Seq<PodListItem>, n1: Seq<char>, n2: Seq<char>)
    requires
        n1 == spec_select_pod(items),
        n2 == spec_select_pod(items),
    ensures
        n1 == n2,
{
}

/// Rank a pod list and return the chosen pod's name, or report that the
/// selector matched nothing. The choice is a pure function of the list, so
/// repeated calls on the same list agree.
pub fn select_pod(
    items: &Vec<PodListItem>,
    kind: &str,
    selector: &str,
    namespace: &str,
) -> (r: Result<String, SshPodError>)
    ensures
        items@.len() > 0 ==> (r matches Ok(name) && name@ == spec_select_pod(items@)),
        items@.len() == 0 ==> (r matches Err(e) && e matches SshPodError::NoPodFound {
            kind: k,
            selector: s,
            namespace: ns,
        } && k@ == kind@ && s@ == selector@ && ns@ == namespace@),
{
    if items.len() == 0 {
        return Result::Err(
            SshPodError::NoPodFound {
                kind: kind.to_owned(),
                selector: selector.to_owned(),
                namespace: namespace.to_owned(),
            },
        );
    }
    let mut i: usize = 0;
    while i < items.len()
        invariant
            i <= items.len(),
            forall|j: int| 0 <= j < i ==> !spec_is_ready(items@[j]),
        decreases items.len() - i,
    {
        if is_ready(&items[i]) {
            proof {
                lemma_first_ready_at(items@, i as int);
            }
            return Result::Ok(items[i].name.clone());
        }
        i += 1;
    }
    proof {
        lemma_first_ready_none(items@);
    }
    let mut i: usize = 0;
    while i < items.len()
        invariant
            i <= items.len(),
            spec_first_ready(items@) == Option::None::<PodListItem>,
            forall|j: int| 0 <= j < i ==> !spec_is_running(items@[j]),
        decreases items.len() - i,
    {
        if is_running(&items[i]) {
            proof {
                lemma_first_running_at(items@, i as int);
            }
            return Result::Ok(items[i].name.clone());
        }
        i += 1;
    }
    proof {
        lemma_first_running_none(items@);
    }
    Result::Ok(items[0].name.clone())
}

// ---------------------------------------------------------------------------
// Container choice
// ---------------------------------------------------------------------------

pub open spec fn spec_has_container(containers: Seq<String>, c: Seq<char>) -> bool {
    exists|i: int| 0 <= i < containers.len() && containers[i]@ == c
}

/// Validate the requested container against the pod, or pick the only one.
///
/// With a requested name, succeeds exactly when the pod has a container of
/// that name; without one, exactly when the pod has a single container.
#[verifier::loop_isolation(false)]
pub fn choose_container(info: &PodInfo, requested: &Option<String>, pod_name: &str) -> (r: Result<
    String,
    SshPodError,
>)
    ensures
        match requested {
            Option::Some(c) => {
                if spec_has_container(info.containers@, c@) {
                    r matches Ok(v) && v@ == c@
                } else {
                    r matches Err(e) && e matches SshPodError::AmbiguousContainer {
                        requested: rq,
                        pod,
                        containers,
                    } && rq matches Some(rc) && rc@ == c@ && pod@ == pod_name@
                        && containers.deep_view() == info.containers.deep_view()
                }
            },
            Option::None => {
                if info.containers@.len() == 1 {
                    r matches Ok(v) && v@ == info.containers@[0]@
                } else {
                    r matches Err(e) && e matches SshPodError::AmbiguousContainer {
                        requested: rq,
                        pod,
                        containers,
                    } && rq is None && pod@ == pod_name@ && containers.deep_view()
                        == info.containers.deep_view()
                }
            },
        },
{
    match requested {
        Option::Some(c) => {
            let mut i: usize = 0;
            while i < info.containers.len()
                invariant
                    i <= info.containers.len(),
                    forall|j: int| 0 <= j < i ==> info.containers@[j]@ != c@,
                decreases info.containers.len() - i,
            {
                if info.containers[i].eq(c) {
                    proof {
                        assert(info.containers@[i as int]@ == c@);
                        assert(spec_has_container(info.containers@, c@));
                    }
                    return Result::Ok(c.clone());
                }
                i += 1;
            }
            let containers = info.containers.clone();
            proof {
                assert forall|k: int| 0 <= k < info.containers@.len() implies containers.deep_view()[k]
                    == info.containers.deep_view()[k] by {
                    assert(vstd::pervasive::cloned::<String>(info.containers[k], containers[k]));
                }
                assert(containers.deep_view() =~= info.containers.deep_view());
            }
            Result::Err(
                SshPodError::AmbiguousContainer {
                    requested: Option::Some(c.clone()),
                    pod: pod_name.to_owned(),
                    containers,
                },
            )
        },
        Option::None => {
            if info.containers.len() == 1 {
                Result::Ok(info.containers[0].clone())
            } else {
                let containers = info.containers.clone();
                proof {
                    assert forall|k: int| 0 <= k < info.containers@.len() implies
                        containers.deep_view()[k] == info.containers.deep_view()[k] by {
                        assert(vstd::pervasive::cloned::<String>(info.containers[k], containers[k]));
                    }
                    assert(containers.deep_view() =~= info.containers.deep_view());
                }
                Result::Err(
                    SshPodError::AmbiguousContainer {
                        requested: Option::None,
                        pod: pod_name.to_owned(),
                        containers,
                    },
                )
            }
        },
    }
}

// ---------------------------------------------------------------------------
// Namespace and context decisions
// ---------------------------------------------------------------------------

/// The namespace a query runs in: the hostname's, else the context's
/// default, else empty (the cluster CLI's own default).
pub fn resolve_namespace(host_ns: &Option<String>, ctx_default: &Option<String>) -> (r: String)
    ensures
        host_ns matches Some(ns) ==> r@ == ns@,
        host_ns is None ==> match ctx_default {
            Option::Some(d) => r@ == d@,
            Option::None => r@ == Seq::<char>::empty(),
        },
{
    match host_ns {
        Option::Some(ns) => ns.clone(),
        Option::None => match ctx_default {
            Option::Some(d) => d.clone(),
            Option::None => String::new(),
        },
    }
}

/// Whether `ctx` occurs in the configured context list.
pub fn context_known(contexts: &Vec<String>, ctx: &str) -> (r: bool)
    ensures
        r == exists|i: int| 0 <= i < contexts@.len() && contexts@[i]@ == ctx@,
{
    let mut i: usize = 0;
    while i < contexts.len()
        invariant
            i <= contexts.len(),
            forall|j: int| 0 <= j < i ==> contexts@[j]@ != ctx@,
        decreases contexts.len() - i,
    {
        if str_eq(contexts[i].as_str(), ctx) {
            return true;
        }
        i += 1;
    }
    false
}

// ---------------------------------------------------------------------------
// List filters used for "did you mean" error messages
// ---------------------------------------------------------------------------

pub open spec fn spec_ready_names(items: Seq<PodListItem>) -> Seq<Seq<char>>
    decreases items.len(),
{
    if items.len() == 0 {
        Seq::empty()
    } else {
        spec_ready_names(items.drop_last()) + if spec_is_ready(items.last()) {
            seq![items.last().name@]
        } else {
            Seq::empty()
        }
    }
}

/// The names of the Ready pods, in listing order.
pub fn ready_pod_names(items: &Vec<PodListItem>) -> (r: Vec<String>)
    ensures
        r.deep_view() == spec_ready_names(items@),
{
    let mut out: Vec<String> = Vec::new();
    let mut i: usize = 0;
    proof {
        assert(items@.take(0) =~= Seq::<PodListItem>::empty());
        assert(out.deep_view() =~= Seq::<Seq<char>>::empty());
    }
    while i < items.len()
        invariant
            i <= items.len(),
            out.deep_view() == spec_ready_names(items@.take(i as int)),
        decreases items.len() - i,
    {
        let ghost old_out = out.deep_view();
        let ghost pre = items@.take(i as int);
        let ghost pre1 = items@.take(i as int + 1);
        proof {
            assert(pre1.drop_last() =~= pre);
            assert(pre1.last() == items@[i as int]);
        }
        if is_ready(&items[i]) {
            out.push(items[i].name.clone());
            proof {
                assert(out.deep_view() =~= old_out.push(items@[i as int].name@));
                assert(old_out + seq![items@[i as int].name@] =~= old_out.push(
                    items@[i as int].name@,
                ));
            }
        } else {
            proof {
                assert(old_out + Seq::<Seq<char>>::empty() =~= old_out);
            }
        }
        i += 1;
    }
    proof {
        assert(items@.take(items@.len() as int) =~= items@);
    }
    out
}

pub open spec fn spec_deployment_listed(d: DeploymentItem) -> bool {
    (match d.available_replicas {
        Option::Some(v) => v as int,
        Option::None => 0,
    }) + (match d.ready_replicas {
        Option::Some(v) => v as int,
        Option::None => 0,
    }) > 0
}

pub open spec fn spec_deployment_names(items: Seq<DeploymentItem>) -> Seq<Seq<char>>
    decreases items.len(),
{
    if items.len() == 0 {
        Seq::empty()
    } else {
        spec_deployment_names(items.drop_last()) + if spec_deployment_listed(items.last()) {
            seq![items.last().name@]
        } else {
            Seq::empty()
        }
    }
}

/// The names of the deployments with at least one available or ready
/// replica, in listing order.
pub fn listed_deployment_names(items: &Vec<DeploymentItem>) -> (r: Vec<String>)
    ensures
        r.deep_view() == spec_deployment_names(items@),
{
    let mut out: Vec<String> = Vec::new();
    let mut i: usize = 0;
    proof {
        assert(items@.take(0) =~= Seq::<DeploymentItem>::empty());
        assert(out.deep_view() =~= Seq::<Seq<char>>::empty());
    }
    while i < items.len()
        invariant
            i <= items.len(),
            out.deep_view() == spec_deployment_names(items@.take(i as int)),
        decreases items.len() - i,
    {
        let ghost old_out = out.deep_view();
        let ghost pre = items@.take(i as int);
        let ghost pre1 = items@.take(i as int + 1);
        proof {
            assert(pre1.drop_last() =~= pre);
            assert(pre1.last() == items@[i as int]);
        }
        let av: u64 = match items[i].available_replicas {
            Option::Some(v) => v as u64,
            Option::None => 0,
        };
        let rd: u64 = match items[i].ready_replicas {
            Option::Some(v) => v as u64,
            Option::None => 0,
        };
        if av + rd > 0 {
            out.push(items[i].name.clone());
            proof {
                assert(out.deep_view() =~= old_out.push(items@[i as int].name@));
                assert(old_out + seq![items@[i as int].name@] =~= old_out.push(
                    items@[i as int].name@,
                ));
            }
        } else {
            proof {
                assert(old_out + Seq::<Seq<char>>::empty() =~= old_out);
            }
        }
        i += 1;
    }
    proof {
        assert(items@.take(items@.len() as int) =~= items@);
    }
    out
}

pub open spec fn spec_job_listed(j: JobItem) -> bool {
    ||| (j.succeeded matches Some(v) && v > 0)
    ||| (j.ready matches Some(v) && v > 0)
    ||| (j.active matches Some(v) && v > 0)
}

pub open spec fn spec_job_names(items: Seq<JobItem>) -> Seq<Seq<char>>
    decreases items.len(),
{
    if items.len() == 0 {
        Seq::empty()
    } else {
        spec_job_names(items.drop_last()) + if spec_job_listed(items.last()) {
            seq![items.last().name@]
        } else {
            Seq::empty()
        }
    }
}

/// The names of the jobs with any succeeded, ready or active pods, in
/// listing order.
pub fn listed_job_names(items: &Vec<JobItem>) -> (r: Vec<String>)
    ensures
        r.deep_view() == spec_job_names(items@),
{
    let mut out: Vec<String> = Vec::new();
    let mut i: usize = 0;
    proof {
        assert(items@.take(0) =~= Seq::<JobItem>::empty());
        assert(out.deep_view() =~= Seq::<Seq<char>>::empty());
    }
    while i < items.len()
        invariant
            i <= items.len(),
            out.deep_view() == spec_job_names(items@.take(i as int)),
        decreases items.len() - i,
    {
        let ghost old_out = out.deep_view();
        let ghost pre = items@.take(i as int);
        let ghost pre1 = items@.take(i as int + 1);
        proof {
            assert(pre1.drop_last() =~= pre);
            assert(pre1.last() == items@[i as int]);
        }
        let sc: u32 = match items[i].succeeded {
            Option::Some(v) => v,
            Option::None => 0,
        };
        let rd: u32 = match items[i].ready {
            Option::Some(v) => v,
            Option::None => 0,
        };
        let ac: u32 = match items[i].active {
            Option::Some(v) => v,
            Option::None => 0,
        };
        if sc > 0 || rd > 0 || ac > 0 {
            out.push(items[i].name.clone());
            proof {
                assert(out.deep_view() =~= old_out.push(items@[i as int].name@));
                assert(old_out + seq![items@[i as int].name@] =~= old_out.push(
                    items@[i as int].name@,
                ));
            }
        } else {
            proof {
                assert(old_out + Seq::<Seq<char>>::empty() =~= old_out);
            }
        }
        i += 1;
    }
    proof {
        assert(items@.take(items@.len() as int) =~= items@);
    }
    out
}

} // verus!
