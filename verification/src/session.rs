//! The order of one invocation's remote phases, as a verified model. The
//! login-user check runs first; architecture detection, bundle
//! installation, the daemon launch and the bridge follow in that order,
//! and the first failing phase ends the invocation: nothing after it
//! runs. The I/O layer sequences its calls in exactly this order.

use vstd::prelude::*;

verus! {

/// The remote phases of one invocation, in the order they run.
#[derive(Debug, Clone, Copy, PartialEq, Eq, Structural)]
pub enum SessionPhase {
    UserCheck,
    ArchDetect,
    BundleInstall,
    DaemonLaunch,
    Bridge,
}

/// The phase that follows `p` when `p` succeeds, while one remains.
pub open spec fn spec_next_phase(p: SessionPhase) -> Option<SessionPhase> {
    match p {
        SessionPhase::UserCheck => Option::Some(SessionPhase::ArchDetect),
        SessionPhase::ArchDetect => Option::Some(SessionPhase::BundleInstall),
        SessionPhase::BundleInstall => Option::Some(SessionPhase::DaemonLaunch),
        SessionPhase::DaemonLaunch => Option::Some(SessionPhase::Bridge),
        SessionPhase::Bridge => Option::None,
    }
}

pub fn next_phase(p: SessionPhase) -> (r: Option<SessionPhase>)
    ensures
        r == spec_next_phase(p),
{
    match p {
        SessionPhase::UserCheck => Option::Some(SessionPhase::ArchDetect),
        SessionPhase::ArchDetect => Option::Some(SessionPhase::BundleInstall),
        SessionPhase::BundleInstall => Option::Some(SessionPhase::DaemonLaunch),
        SessionPhase::DaemonLaunch => Option::Some(SessionPhase::Bridge),
        SessionPhase::Bridge => Option::None,
    }
}

/// The phases that run, starting at `p`, when `outcomes` lists each run
/// phase's result in order: a phase runs, and the next follows only on
/// success.
pub open spec fn spec_phases_run_from(p: SessionPhase, outcomes: Seq<bool>) -> Seq<SessionPhase>
    decreases outcomes.len(),
{
    if outcomes.len() == 0 {
        Seq::empty()
    } else if outcomes[0] {
        match spec_next_phase(p) {
            Option::Some(q) => seq![p] + spec_phases_run_from(q, outcomes.drop_first()),
            Option::None => seq![p],
        }
    } else {
        seq![p]
    }
}

/// The phases one invocation runs, given each phase's outcome.
pub open spec fn spec_phases_run(outcomes: Seq<bool>) -> Seq<SessionPhase> {
    spec_phases_run_from(SessionPhase::UserCheck, outcomes)
}

/// A failed login-user check ends the invocation at once: neither the
/// architecture probe nor any installation or launch phase runs after it.
pub proof fn lemma_user_mismatch_stops_session(outcomes: Seq<bool>)
    requires
        outcomes.len() > 0,
        !outcomes[0],
    ensures
        spec_phases_run(outcomes) == seq![SessionPhase::UserCheck],
{
}

/// When every phase succeeds, the invocation runs exactly the five
/// phases, in their fixed order, each once.
pub proof fn lemma_happy_path_order(outcomes: Seq<bool>)
    requires
        outcomes.len() >= 5,
        forall|i: int| 0 <= i < outcomes.len() ==> outcomes[i],
    ensures
        spec_phases_run(outcomes) == seq![
            SessionPhase::UserCheck,
            SessionPhase::ArchDetect,
            SessionPhase::BundleInstall,
            SessionPhase::DaemonLaunch,
            SessionPhase::Bridge,
        ],
{
    let o1 = outcomes.drop_first();
    let o2 = o1.drop_first();
    let o3 = o2.drop_first();
    let o4 = o3.drop_first();
    assert(o4.len() >= 1);
    assert(outcomes[0]);
    assert(o1[0] == outcomes[1] && outcomes[1]);
    assert(o2[0] == outcomes[2] && outcomes[2]);
    assert(o3[0] == outcomes[3] && outcomes[3]);
    assert(o4[0] == outcomes[4] && outcomes[4]);
    assert(spec_phases_run_from(SessionPhase::Bridge, o4) == seq![SessionPhase::Bridge]);
    assert(spec_phases_run_from(SessionPhase::DaemonLaunch, o3) == seq![
        SessionPhase::DaemonLaunch,
    ] + spec_phases_run_from(SessionPhase::Bridge, o4));
    assert(spec_phases_run_from(SessionPhase::BundleInstall, o2) == seq![
        SessionPhase::BundleInstall,
    ] + spec_phases_run_from(SessionPhase::DaemonLaunch, o3));
    assert(spec_phases_run_from(SessionPhase::ArchDetect, o1) == seq![SessionPhase::ArchDetect]
        + spec_phases_run_from(SessionPhase::BundleInstall, o2));
    assert(spec_phases_run(outcomes) == seq![SessionPhase::UserCheck] + spec_phases_run_from(
        SessionPhase::ArchDetect,
        o1,
    ));
    assert(spec_phases_run(outcomes) =~= seq![
        SessionPhase::UserCheck,
        SessionPhase::ArchDetect,
        SessionPhase::BundleInstall,
        SessionPhase::DaemonLaunch,
        SessionPhase::Bridge,
    ]);
}

/// Walk the phase order for a given outcome list.
#[verifier::loop_isolation(false)]
pub fn session_phases(outcomes: &Vec<bool>) -> (r: Vec<SessionPhase>)
    ensures
        r@ == spec_phases_run(outcomes@),
{
    let mut r: Vec<SessionPhase> = Vec::new();
    let mut phase = SessionPhase::UserCheck;
    let mut i: usize = 0;
    proof {
        assert(outcomes@.skip(0) =~= outcomes@);
        assert(r@ + spec_phases_run_from(phase, outcomes@.skip(0)) =~= spec_phases_run(
            outcomes@,
        ));
    }
    while i < outcomes.len()
        invariant
            i <= outcomes.len(),
            spec_phases_run(outcomes@) == r@ + spec_phases_run_from(
                phase,
                outcomes@.skip(i as int),
            ),
        decreases outcomes.len() - i,
    {
        let ghost old_r = r@;
        let ghost rest = outcomes@.skip(i as int);
        proof {
            assert(rest[0] == outcomes@[i as int]);
            assert(rest.drop_first() =~= outcomes@.skip(i as int + 1));
        }
        r.push(phase);
        proof {
            assert(r@ =~= old_r + seq![phase]);
        }
        if !outcomes[i] {
            proof {
                assert(spec_phases_run_from(phase, rest) == seq![phase]);
                assert(old_r + seq![phase] =~= spec_phases_run(outcomes@));
            }
            return r;
        }
        match next_phase(phase) {
            Option::Some(q) => {
                proof {
                    assert(spec_phases_run_from(phase, rest) == seq![phase]
                        + spec_phases_run_from(q, outcomes@.skip(i as int + 1)));
                    assert(old_r + (seq![phase] + spec_phases_run_from(
                        q,
                        outcomes@.skip(i as int + 1),
                    )) =~= (old_r + seq![phase]) + spec_phases_run_from(
                        q,
                        outcomes@.skip(i as int + 1),
                    ));
                }
                phase = q;
            },
            Option::None => {
                proof {
                    assert(spec_phases_run_from(phase, rest) == seq![phase]);
                    assert(old_r + seq![phase] =~= spec_phases_run(outcomes@));
                }
                return r;
            },
        }
        i += 1;
    }
    proof {
        assert(outcomes@.skip(outcomes@.len() as int).len() == 0);
        assert(spec_phases_run_from(phase, outcomes@.skip(outcomes@.len() as int))
            == Seq::<SessionPhase>::empty());
        assert(r@ + Seq::<SessionPhase>::empty() =~= r@);
    }
    r
}

} // verus!
