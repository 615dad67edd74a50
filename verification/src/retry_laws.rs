//! What holds of every run of the upload machine.

use crate::cloud_client::UploadOptsView;
use crate::config::BucketSourceView;
use crate::fallback::{
    bucket_count, is_chain_prefix, is_fallback_chain, lemma_chain_exists, lemma_chain_length,
};
use crate::network::network_of;
use crate::upload::{
    begun, domain_sought, effective_request, fallback_chain, initial_state, next_probe,
    persisted, state_wf, stepped, Env, PhaseView, UploadEventView, UploadStateView,
    RETRY_BUDGET, SWITCH_AFTER,
};
use vstd::prelude::*;
use vstd::utf8::is_ascii_chars;

verus! {

/// The state after the events, one after the other.
pub open spec fn run(env: Env, s: UploadStateView, events: Seq<UploadEventView>) -> UploadStateView
    decreases events.len(),
{
    if events.len() == 0 {
        s
    } else {
        stepped(env, run(env, s, events.drop_last()), events.last())
    }
}

/// The number of transfers that the machine has asked for in a run from `s`.
pub open spec fn transfers_started(
    env: Env,
    s: UploadStateView,
    events: Seq<UploadEventView>,
) -> nat
    decreases events.len(),
{
    if events.len() == 0 {
        0
    } else {
        let before = run(env, s, events.drop_last());
        let earlier = transfers_started(env, s, events.drop_last());
        if before.phase is Sts && events.last() is StsReady {
            earlier + 1
        } else {
            earlier
        }
    }
}

/// An event of a run in which the credentials are always issued, every transfer fails, and the
/// network is never reported as missing.
pub open spec fn transfer_fails(event: UploadEventView) -> bool {
    match event {
        UploadEventView::StsReady => true,
        UploadEventView::StsFailed(_) => false,
        UploadEventView::Uploaded(_) => false,
        UploadEventView::UploadFailed(_) => true,
        UploadEventView::Dns(_) => true,
        UploadEventView::Network(report) => network_of(report).network_type != "none"@,
    }
}

/// Whether the upload ended for want of success.
pub open spec fn gave_up(s: UploadStateView) -> bool {
    s.phase matches PhaseView::Failed(error) && error is UploadFailed
}

/// Whether the upload ended because a bucket has no registered strategy.
pub open spec fn misconfigured(s: UploadStateView) -> bool {
    s.phase matches PhaseView::Failed(error) && error is InvalidConfig
}

/// Neither the request nor the errors recorded are lost, and a state that the machine hands
/// out is followed by one.
pub proof fn lemma_step_keeps(env: Env, s: UploadStateView, event: UploadEventView)
    requires
        state_wf(s),
    ensures
        state_wf(stepped(env, s, event)),
        stepped(env, s, event).opts == s.opts,
        s.errors.is_prefix_of(stepped(env, s, event).errors),
        s.phase.is_done() ==> stepped(env, s, event) == s,
{
    let next = stepped(env, s, event);
    match (s.phase, event) {
        (PhaseView::Transfer, UploadEventView::UploadFailed(error)) => {
            lemma_domain_sought(
                UploadStateView {
                    errors: s.errors.push(error),
                    retry_count: s.retry_count + 1,
                    candidates: fallback_chain(
                        env.config,
                        s.bucket_source,
                        seq![s.bucket_source],
                    ),
                    ..s
                },
                0,
            );
            assert(s.errors.is_prefix_of(s.errors.push(error)));
        },
        (PhaseView::Sts, UploadEventView::StsFailed(error)) => {
            assert(s.errors.is_prefix_of(s.errors.push(error)));
        },
        (PhaseView::Probe, UploadEventView::Dns(report)) => {
            lemma_domain_sought(s, s.probe + 1);
        },
        _ => {},
    }
    assert(s.errors.is_prefix_of(s.errors));
}

/// Where a candidate is probed, it has a domain.
pub proof fn lemma_domain_sought(s: UploadStateView, from: int)
    requires
        0 <= from,
    ensures
        domain_sought(s, from).phase is Probe ==> from <= domain_sought(s, from).probe
            < s.candidates.len() && s.candidates[domain_sought(s, from).probe].domain is Some,
        domain_sought(s, from).phase is Probe || domain_sought(s, from).phase is Network,
    decreases s.candidates.len() - from,
{
    if from < s.candidates.len() && !(s.candidates[from].domain is Some) {
        lemma_domain_sought(s, from + 1);
        assert(next_probe(s.candidates, from) == next_probe(s.candidates, from + 1));
    }
}

/// What holds between the state of a run of failing transfers and the number of transfers
/// that it has asked for.
spec fn failing_run_inv(s: UploadStateView, started: nat, no_retry: bool) -> bool {
    &&& state_wf(s)
    &&& s.opts.disable_retry == no_retry
    &&& !(s.phase is Succeeded)
    &&& s.phase is Transfer ==> started == s.errors.len() + 1
    &&& !(s.phase is Transfer) ==> started == s.errors.len()
    &&& s.phase is Probe || s.phase is Network ==> !no_retry && s.retry_count >= 1
    &&& s.phase is Probe || s.candidates.len() > 0 ==> s.retry_count > SWITCH_AFTER
    &&& !no_retry ==> s.errors.len() == s.retry_count
    &&& no_retry ==> s.retry_count == 0 && (gave_up(s) || s.errors.len() == 0)
    &&& gave_up(s) ==> (if no_retry {
        s.errors.len() == 1
    } else {
        s.retry_count == RETRY_BUDGET
    })
}

proof fn lemma_failing_run(
    env: Env,
    registry: Map<Seq<char>, UploadOptsView>,
    opts: UploadOptsView,
    events: Seq<UploadEventView>,
)
    requires
        forall|i: int| 0 <= i < events.len() ==> transfer_fails(#[trigger] events[i]),
        is_ascii_chars(effective_request(registry, opts).file_path),
    ensures
        failing_run_inv(
            run(env, begun(env, registry, opts), events),
            transfers_started(env, begun(env, registry, opts), events),
            effective_request(registry, opts).disable_retry,
        ),
    decreases events.len(),
{
    let start = begun(env, registry, opts);
    let no_retry = effective_request(registry, opts).disable_retry;
    if events.len() == 0 {
        assert(initial_state(effective_request(registry, opts)).errors.len() == 0);
    } else {
        let earlier = events.drop_last();
        assert forall|i: int| 0 <= i < earlier.len() implies transfer_fails(
            #[trigger] earlier[i],
        ) by {
            assert(earlier[i] == events[i]);
        }
        lemma_failing_run(env, registry, opts, earlier);
        let before = run(env, start, earlier);
        let event = events.last();
        assert(transfer_fails(event));
        lemma_step_keeps(env, before, event);
        match (before.phase, event) {
            (PhaseView::Transfer, UploadEventView::UploadFailed(error)) => {
                lemma_domain_sought(
                    UploadStateView {
                        errors: before.errors.push(error),
                        retry_count: before.retry_count + 1,
                        candidates: fallback_chain(
                            env.config,
                            before.bucket_source,
                            seq![before.bucket_source],
                        ),
                        ..before
                    },
                    0,
                );
            },
            (PhaseView::Probe, UploadEventView::Dns(report)) => {
                lemma_domain_sought(before, before.probe + 1);
            },
            _ => {},
        }
    }
}

/// Where every transfer fails and retries are allowed, the machine asks for exactly as many
/// transfers as the budget allows, which is five, and then gives up; and it does not look for
/// another domain before the fourth transfer has failed.
///
/// The run may be cut short only by a bucket without a registered strategy, which ends it with
/// a configuration error instead.
pub proof fn law_failing_transfers_use_up_budget(
    env: Env,
    registry: Map<Seq<char>, UploadOptsView>,
    opts: UploadOptsView,
    events: Seq<UploadEventView>,
)
    requires
        forall|i: int| 0 <= i < events.len() ==> transfer_fails(#[trigger] events[i]),
        is_ascii_chars(effective_request(registry, opts).file_path),
        !effective_request(registry, opts).disable_retry,
    ensures
        ({
            let start = begun(env, registry, opts);
            let end = run(env, start, events);
            let started = transfers_started(env, start, events);
            &&& started <= RETRY_BUDGET
            &&& gave_up(end) ==> started == RETRY_BUDGET && end.errors.len() == RETRY_BUDGET
            &&& end.phase.is_done() ==> gave_up(end) || misconfigured(end)
            &&& end.phase is Probe || end.candidates.len() > 0 ==> started > SWITCH_AFTER
        }),
{
    lemma_failing_run(env, registry, opts, events);
    lemma_done_kinds(env, registry, opts, events);
}

/// Where the request forbids retries and the transfer fails, the machine asks for exactly one
/// transfer, and for nothing about domains or the network.
pub proof fn law_single_attempt_without_retry(
    env: Env,
    registry: Map<Seq<char>, UploadOptsView>,
    opts: UploadOptsView,
    events: Seq<UploadEventView>,
)
    requires
        forall|i: int| 0 <= i < events.len() ==> transfer_fails(#[trigger] events[i]),
        is_ascii_chars(effective_request(registry, opts).file_path),
        effective_request(registry, opts).disable_retry,
    ensures
        ({
            let start = begun(env, registry, opts);
            let end = run(env, start, events);
            let started = transfers_started(env, start, events);
            &&& started <= 1
            &&& gave_up(end) ==> started == 1 && end.retry_count == 0
            &&& end.phase.is_done() ==> gave_up(end) || misconfigured(end)
            &&& !(end.phase is Probe) && !(end.phase is Network)
        }),
{
    lemma_failing_run(env, registry, opts, events);
    lemma_done_kinds(env, registry, opts, events);
}

/// A run that starts with an ASCII file path ends, if it fails, for want of success or for a
/// bucket without a registered strategy.
proof fn lemma_done_kinds(
    env: Env,
    registry: Map<Seq<char>, UploadOptsView>,
    opts: UploadOptsView,
    events: Seq<UploadEventView>,
)
    requires
        is_ascii_chars(effective_request(registry, opts).file_path),
    ensures
        ({
            let end = run(env, begun(env, registry, opts), events);
            &&& state_wf(end)
            &&& end.phase is Failed ==> gave_up(end) || misconfigured(end)
        }),
    decreases events.len(),
{
    let start = begun(env, registry, opts);
    if events.len() > 0 {
        lemma_done_kinds(env, registry, opts, events.drop_last());
        let before = run(env, start, events.drop_last());
        lemma_step_keeps(env, before, events.last());
        match (before.phase, events.last()) {
            (PhaseView::Transfer, UploadEventView::UploadFailed(error)) => {
                lemma_domain_sought(
                    UploadStateView {
                        errors: before.errors.push(error),
                        retry_count: before.retry_count + 1,
                        candidates: fallback_chain(
                            env.config,
                            before.bucket_source,
                            seq![before.bucket_source],
                        ),
                        ..before
                    },
                    0,
                );
            },
            (PhaseView::Probe, UploadEventView::Dns(report)) => {
                lemma_domain_sought(before, before.probe + 1);
            },
            _ => {},
        }
    }
}

/// Whether the event answers what the machine waits for.
pub open spec fn answers(phase: PhaseView, event: UploadEventView) -> bool {
    match phase {
        PhaseView::Sts => event is StsReady || event is StsFailed,
        PhaseView::Transfer => event is Uploaded || event is UploadFailed,
        PhaseView::Probe => event is Dns,
        PhaseView::Network => event is Network,
        _ => false,
    }
}

/// Whether each event of the run answers what the machine waits for when the event comes.
pub open spec fn answered_run(env: Env, s: UploadStateView, events: Seq<UploadEventView>) -> bool
    decreases events.len(),
{
    if events.len() == 0 {
        true
    } else {
        let before = run(env, s, events.drop_last());
        answered_run(env, s, events.drop_last()) && (before.phase.is_done() || answers(
            before.phase,
            events.last(),
        ))
    }
}

/// The most answers that one failed transfer can ask for before the next: one for each
/// fallback bucket's domain, and those for the network, the credentials and the transfer.
pub open spec fn answers_per_attempt(env: Env) -> nat {
    bucket_count(env.config) + 4
}

/// A number of answers after which every upload has ended.
pub open spec fn answers_at_most(env: Env) -> nat {
    RETRY_BUDGET as nat * answers_per_attempt(env)
}

/// A bound on the answers that the machine still asks for.
spec fn answers_left(env: Env, s: UploadStateView) -> int {
    let attempts = (RETRY_BUDGET - s.retry_count) * answers_per_attempt(env);
    match s.phase {
        PhaseView::Transfer => attempts + 1,
        PhaseView::Sts => attempts + 2,
        PhaseView::Network => attempts + 3,
        PhaseView::Probe => attempts + 3 + (s.candidates.len() - s.probe),
        _ => 0,
    }
}

/// The candidates of a domain switch are no more than the configuration has buckets.
proof fn lemma_candidates_bounded(env: Env, s: UploadStateView)
    ensures
        fallback_chain(env.config, s.bucket_source, seq![s.bucket_source]).len()
            <= bucket_count(env.config),
{
    let ignore = seq![s.bucket_source];
    assert(is_chain_prefix(
        env.config,
        s.bucket_source,
        ignore,
        Seq::<BucketSourceView>::empty(),
    ));
    lemma_chain_exists(env.config, s.bucket_source, ignore, Seq::empty());
    let chain = fallback_chain(env.config, s.bucket_source, ignore);
    assert(is_fallback_chain(env.config, s.bucket_source, ignore, chain));
    lemma_chain_length(env.config, s.bucket_source, ignore, chain);
}

/// Each answer brings the end nearer.
proof fn lemma_answer_counts(env: Env, s: UploadStateView, event: UploadEventView)
    requires
        state_wf(s),
        s.candidates.len() <= bucket_count(env.config),
        !s.phase.is_done(),
        answers(s.phase, event),
    ensures
        answers_left(env, stepped(env, s, event)) < answers_left(env, s),
        stepped(env, s, event).candidates.len() <= bucket_count(env.config),
        0 < answers_left(env, s) <= answers_at_most(env) + 3 + bucket_count(env.config),
{
    let per = answers_per_attempt(env) as int;
    let r = s.retry_count as int;
    assert((RETRY_BUDGET - r) * per == (RETRY_BUDGET - 1 - r) * per + per) by (nonlinear_arith);
    assert(0 <= (RETRY_BUDGET - 1 - r) * per) by (nonlinear_arith)
        requires
            0 <= r <= RETRY_BUDGET - 1,
            0 <= per,
    ;
    assert((RETRY_BUDGET - r) * per <= RETRY_BUDGET * per) by (nonlinear_arith)
        requires
            0 <= r,
            0 <= per,
    ;
    lemma_candidates_bounded(env, s);
    lemma_step_keeps(env, s, event);
    match (s.phase, event) {
        (PhaseView::Transfer, UploadEventView::UploadFailed(error)) => {
            lemma_domain_sought(
                UploadStateView {
                    errors: s.errors.push(error),
                    retry_count: s.retry_count + 1,
                    candidates: fallback_chain(
                        env.config,
                        s.bucket_source,
                        seq![s.bucket_source],
                    ),
                    ..s
                },
                0,
            );
        },
        (PhaseView::Probe, UploadEventView::Dns(report)) => {
            lemma_domain_sought(s, s.probe + 1);
        },
        _ => {},
    }
}

proof fn lemma_answered_run(
    env: Env,
    registry: Map<Seq<char>, UploadOptsView>,
    opts: UploadOptsView,
    events: Seq<UploadEventView>,
)
    requires
        answered_run(env, begun(env, registry, opts), events),
    ensures
        ({
            let end = run(env, begun(env, registry, opts), events);
            &&& state_wf(end)
            &&& end.candidates.len() <= bucket_count(env.config)
            &&& end.phase.is_done() || answers_left(env, end) + events.len() <= answers_at_most(env)
                + 2
        }),
    decreases events.len(),
{
    let start = begun(env, registry, opts);
    if events.len() == 0 {
        assert(initial_state(effective_request(registry, opts)).candidates.len() == 0);
        assert((RETRY_BUDGET - 0) * answers_per_attempt(env) == answers_at_most(env));
    } else {
        lemma_answered_run(env, registry, opts, events.drop_last());
        let before = run(env, start, events.drop_last());
        lemma_step_keeps(env, before, events.last());
        if !before.phase.is_done() {
            lemma_answer_counts(env, before, events.last());
        }
    }
}

/// Every upload ends: once the host has answered often enough, whatever it answered, the
/// machine has handed out the end of the upload.
pub proof fn law_upload_ends(
    env: Env,
    registry: Map<Seq<char>, UploadOptsView>,
    opts: UploadOptsView,
    events: Seq<UploadEventView>,
)
    requires
        answered_run(env, begun(env, registry, opts), events),
        events.len() >= answers_at_most(env) + 2,
    ensures
        run(env, begun(env, registry, opts), events).phase.is_done(),
{
    lemma_answered_run(env, registry, opts, events);
    let end = run(env, begun(env, registry, opts), events);
    if !end.phase.is_done() {
        assert(answers_left(env, end) >= 1) by {
            let per = answers_per_attempt(env) as int;
            let r = end.retry_count as int;
            assert(0 <= (RETRY_BUDGET - r) * per) by (nonlinear_arith)
                requires
                    0 <= r <= RETRY_BUDGET,
                    0 <= per,
            ;
        }
    }
}

/// A request that was kept after a failed upload is the one that a later manual retry for the
/// same file path carries out, whatever else that later request holds.
pub proof fn law_manual_retry_reuses_request(
    env: Env,
    registry: Map<Seq<char>, UploadOptsView>,
    failed: UploadOptsView,
    later: UploadOptsView,
)
    requires
        failed.manual_retry,
        later.manual_retry,
        later.file_path == failed.file_path,
    ensures
        effective_request(persisted(registry, failed), later) == failed,
        begun(env, persisted(registry, failed), later).opts == failed,
{
}

/// A request that does not ask for a manual retry is carried out as it is, and leaves the
/// registry as it was when its upload fails.
pub proof fn law_plain_request_is_not_replaced(
    registry: Map<Seq<char>, UploadOptsView>,
    opts: UploadOptsView,
)
    requires
        !opts.manual_retry,
    ensures
        effective_request(registry, opts) == opts,
        persisted(registry, opts) == registry,
{
}

} // verus!
