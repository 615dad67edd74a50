//! The retry and fallback machine of one upload.
//!
//! The machine decides; the caller acts. `upload_begin` and `upload_step` hand out the action
//! to perform next, and `upload_step` takes what came of it. Between two calls nothing of the
//! client is held, so the caller may wait for the outside world as long as it takes.

use crate::cloud_client::{CloudClient, UploadOpts, UploadOptsView};
use crate::config::{BucketSource, BucketSourceView, ConfigView};
use crate::error::{result_view, XError, XErrorView, XResult};
use crate::fallback::{is_fallback_chain, lemma_fallback_chain_unique};
use crate::network::{check_dns, check_network, dns_ok, network_of, NetworkInfo, NetworkInfoView};
use crate::replicate::Replicate;
use crate::strategy::{UrlRes, UrlResView};
use crate::text::{decimal, decimal_text, same_text};
use vstd::prelude::*;
use vstd::string::*;
use vstd::utf8::is_ascii_chars;

verus! {

/// The number of transfers that one upload may take: once so many have failed, no further one
/// is tried.
pub const RETRY_BUDGET: u32 = 5;

/// Another domain is looked for once more than so many transfers have failed.
pub const SWITCH_AFTER: u32 = 3;

/// What the machine waits for, or how the upload ended.
#[derive(Debug)]
pub enum Phase {
    /// The credentials of the current bucket.
    Sts,
    /// The transfer to the current bucket.
    Transfer,
    /// The reachability of a fallback bucket's domain.
    Probe,
    /// The state of the network.
    Network,
    /// The upload succeeded, with the object's address.
    Succeeded(String),
    /// The upload failed, with the error.
    Failed(XError),
}

pub enum PhaseView {
    Sts,
    Transfer,
    Probe,
    Network,
    Succeeded(Seq<char>),
    Failed(XErrorView),
}

impl DeepView for Phase {
    type V = PhaseView;

    open spec fn deep_view(&self) -> PhaseView {
        match self {
            Phase::Sts => PhaseView::Sts,
            Phase::Transfer => PhaseView::Transfer,
            Phase::Probe => PhaseView::Probe,
            Phase::Network => PhaseView::Network,
            Phase::Succeeded(url) => PhaseView::Succeeded(url@),
            Phase::Failed(error) => PhaseView::Failed(error@),
        }
    }
}

impl PhaseView {
    /// Whether the upload has ended.
    pub open spec fn is_done(self) -> bool {
        self is Succeeded || self is Failed
    }
}

/// What came of the action that the machine handed out.
#[derive(Debug)]
pub enum UploadEvent {
    /// The credentials were issued.
    StsReady,
    /// The credentials were refused.
    StsFailed(XError),
    /// The transfer went through.
    Uploaded(UrlRes),
    /// The transfer failed.
    UploadFailed(XError),
    /// The host's report on a domain.
    Dns(XResult<bool>),
    /// The host's report on the network.
    Network(XResult<NetworkInfo>),
}

pub enum UploadEventView {
    StsReady,
    StsFailed(XErrorView),
    Uploaded(UrlResView),
    UploadFailed(XErrorView),
    Dns(Result<bool, XErrorView>),
    Network(Result<NetworkInfoView, XErrorView>),
}

impl DeepView for UploadEvent {
    type V = UploadEventView;

    open spec fn deep_view(&self) -> UploadEventView {
        match self {
            UploadEvent::StsReady => UploadEventView::StsReady,
            UploadEvent::StsFailed(e) => UploadEventView::StsFailed(e@),
            UploadEvent::Uploaded(u) => UploadEventView::Uploaded(u@),
            UploadEvent::UploadFailed(e) => UploadEventView::UploadFailed(e@),
            UploadEvent::Dns(r) => UploadEventView::Dns(result_view(*r)),
            UploadEvent::Network(r) => UploadEventView::Network(result_view(*r)),
        }
    }
}

impl View for UploadEvent {
    type V = UploadEventView;

    open spec fn view(&self) -> UploadEventView {
        self.deep_view()
    }
}

/// What the caller is to do next.
#[derive(Debug)]
pub enum UploadAction {
    /// Ask the strategy for the credentials of the bucket.
    GetSts { strategy: usize, bucket_source: BucketSource },
    /// Have the strategy transfer the file to the bucket.
    Upload { strategy: usize, bucket_source: BucketSource },
    /// Ask the host whether the domain resolves.
    CheckDns { domain: String },
    /// Ask the host for the state of the network.
    CheckNetwork,
    /// Announce the end with the address, and hand the address back.
    Succeed { url: String },
    /// Announce the end with the error, and hand the error back. The number of retries and the
    /// errors of the single attempts come with it.
    Fail { error: XError, retry_count: u32, errors: Vec<XError> },
}

pub enum UploadActionView {
    GetSts { strategy: usize, bucket_source: BucketSourceView },
    Upload { strategy: usize, bucket_source: BucketSourceView },
    CheckDns { domain: Seq<char> },
    CheckNetwork,
    Succeed { url: Seq<char> },
    Fail { error: XErrorView, retry_count: nat, errors: Seq<XErrorView> },
}

impl DeepView for UploadAction {
    type V = UploadActionView;

    open spec fn deep_view(&self) -> UploadActionView {
        match self {
            UploadAction::GetSts { strategy, bucket_source } => UploadActionView::GetSts {
                strategy: *strategy,
                bucket_source: bucket_source@,
            },
            UploadAction::Upload { strategy, bucket_source } => UploadActionView::Upload {
                strategy: *strategy,
                bucket_source: bucket_source@,
            },
            UploadAction::CheckDns { domain } => UploadActionView::CheckDns { domain: domain@ },
            UploadAction::CheckNetwork => UploadActionView::CheckNetwork,
            UploadAction::Succeed { url } => UploadActionView::Succeed { url: url@ },
            UploadAction::Fail { error, retry_count, errors } => UploadActionView::Fail {
                error: error@,
                retry_count: *retry_count as nat,
                errors: errors.deep_view(),
            },
        }
    }
}

impl View for UploadAction {
    type V = UploadActionView;

    open spec fn view(&self) -> UploadActionView {
        self.deep_view()
    }
}

/// The state of one upload between two actions.
#[derive(Debug)]
pub struct UploadState {
    opts: UploadOpts,
    bucket_source: BucketSource,
    errors: Vec<XError>,
    retry_count: u32,
    phase: Phase,
    strategy: usize,
    candidates: Vec<BucketSource>,
    probe: usize,
}

pub struct UploadStateView {
    /// The request that is carried out.
    pub opts: UploadOptsView,
    /// The bucket that the next transfer goes to.
    pub bucket_source: BucketSourceView,
    /// The errors of the attempts so far, in order.
    pub errors: Seq<XErrorView>,
    /// The number of failed transfers that counted against the budget.
    pub retry_count: nat,
    pub phase: PhaseView,
    /// The handle of the current bucket's strategy.
    pub strategy: usize,
    /// The fallback buckets of the domain switch under way.
    pub candidates: Seq<BucketSourceView>,
    /// The position in `candidates` of the bucket whose domain is being probed.
    pub probe: int,
}

/// What holds of every state that the machine hands out.
pub open spec fn state_wf(s: UploadStateView) -> bool {
    &&& s.retry_count <= RETRY_BUDGET
    &&& !s.phase.is_done() ==> s.retry_count < RETRY_BUDGET
    &&& s.phase is Probe ==> 0 <= s.probe < s.candidates.len()
        && s.candidates[s.probe].domain is Some
}

/// What the machine decides by, beside the state: the strategies that are registered and the
/// configuration.
pub struct Env {
    pub strategies: Map<Seq<char>, usize>,
    pub config: Option<ConfigView>,
}

/// The walk along the fallback pointers from `start`.
pub open spec fn fallback_chain(
    config: Option<ConfigView>,
    start: BucketSourceView,
    ignore: Seq<BucketSourceView>,
) -> Seq<BucketSourceView> {
    choose|chain: Seq<BucketSourceView>| is_fallback_chain(config, start, ignore, chain)
}

/// The text of the failure after `retry_count` retries.
pub open spec fn failure_text(retry_count: nat) -> Seq<char> {
    "Upload failed after "@ + decimal_text(retry_count) + " retries"@
}

/// The request that is carried out: the one kept for the file path where a manual retry is
/// asked for and one is kept, else the one handed in.
pub open spec fn effective_request(
    registry: Map<Seq<char>, UploadOptsView>,
    opts: UploadOptsView,
) -> UploadOptsView {
    if opts.manual_retry && registry.contains_key(opts.file_path) {
        registry[opts.file_path]
    } else {
        opts
    }
}

/// The registry once the request of a failed upload has been kept, where it asks for that.
pub open spec fn persisted(
    registry: Map<Seq<char>, UploadOptsView>,
    opts: UploadOptsView,
) -> Map<Seq<char>, UploadOptsView> {
    if opts.manual_retry {
        registry.insert(opts.file_path, opts)
    } else {
        registry
    }
}

/// The state at the start of the first attempt.
pub open spec fn initial_state(opts: UploadOptsView) -> UploadStateView {
    UploadStateView {
        opts,
        bucket_source: opts.bucket_source,
        errors: Seq::empty(),
        retry_count: 0,
        phase: PhaseView::Sts,
        strategy: 0,
        candidates: Seq::empty(),
        probe: 0,
    }
}

/// The state with the upload ended by `error`.
pub open spec fn closed_with(s: UploadStateView, error: XErrorView) -> UploadStateView {
    UploadStateView { phase: PhaseView::Failed(error), ..s }
}

/// The state with the upload ended for want of success.
pub open spec fn given_up(s: UploadStateView) -> UploadStateView {
    closed_with(s, XErrorView::UploadFailed(failure_text(s.retry_count)))
}

/// The state at the start of an attempt: waiting for the credentials where a strategy is
/// registered for the provider family of the current bucket, else ended by a configuration
/// error.
pub open spec fn attempt_entered(env: Env, s: UploadStateView) -> UploadStateView {
    match s.bucket_source.cloud {
        Some(cloud) => if env.strategies.contains_key(cloud) {
            UploadStateView { phase: PhaseView::Sts, strategy: env.strategies[cloud], ..s }
        } else {
            closed_with(s, XErrorView::InvalidConfig)
        },
        None => closed_with(s, XErrorView::InvalidConfig),
    }
}

/// The first position from `from` on of a candidate that has a domain.
pub open spec fn next_probe(candidates: Seq<BucketSourceView>, from: int) -> Option<int>
    decreases candidates.len() - from,
{
    if from < 0 || from >= candidates.len() {
        None
    } else if candidates[from].domain is Some {
        Some(from)
    } else {
        next_probe(candidates, from + 1)
    }
}

/// The state with the next candidate's domain to probe, or, where none is left, with the
/// network's state to ask for.
pub open spec fn domain_sought(s: UploadStateView, from: int) -> UploadStateView {
    match next_probe(s.candidates, from) {
        Some(i) => UploadStateView { phase: PhaseView::Probe, probe: i, ..s },
        None => UploadStateView { phase: PhaseView::Network, ..s },
    }
}

/// The state after a transfer failed with `error`.
pub open spec fn transfer_failed(env: Env, s: UploadStateView, error: XErrorView) -> UploadStateView {
    let recorded = UploadStateView { errors: s.errors.push(error), ..s };
    if recorded.opts.disable_retry {
        given_up(recorded)
    } else {
        let counted = UploadStateView { retry_count: recorded.retry_count + 1, ..recorded };
        if counted.retry_count >= RETRY_BUDGET {
            given_up(counted)
        } else if counted.retry_count > SWITCH_AFTER {
            domain_sought(
                UploadStateView {
                    candidates: fallback_chain(
                        env.config,
                        counted.bucket_source,
                        seq![counted.bucket_source],
                    ),
                    ..counted
                },
                0,
            )
        } else {
            UploadStateView { phase: PhaseView::Network, ..counted }
        }
    }
}

/// The state after `event`. An event that does not answer what the machine waits for changes
/// nothing, and neither does any event once the upload has ended.
pub open spec fn stepped(env: Env, s: UploadStateView, event: UploadEventView) -> UploadStateView {
    match (s.phase, event) {
        (PhaseView::Sts, UploadEventView::StsReady) => UploadStateView {
            phase: PhaseView::Transfer,
            ..s
        },
        (PhaseView::Sts, UploadEventView::StsFailed(error)) => given_up(
            UploadStateView { errors: s.errors.push(error), ..s },
        ),
        (PhaseView::Transfer, UploadEventView::Uploaded(address)) => UploadStateView {
            phase: PhaseView::Succeeded(address.text()),
            ..s
        },
        (PhaseView::Transfer, UploadEventView::UploadFailed(error)) => transfer_failed(env, s, error),
        (PhaseView::Probe, UploadEventView::Dns(report)) => if dns_ok(report) {
            attempt_entered(env, UploadStateView { bucket_source: s.candidates[s.probe], ..s })
        } else {
            domain_sought(s, s.probe + 1)
        },
        (PhaseView::Network, UploadEventView::Network(report)) => if network_of(report).network_type
            == "none"@ {
            given_up(s)
        } else {
            attempt_entered(env, s)
        },
        _ => s,
    }
}

/// The state in which an upload starts. A file path that is not ASCII ends it at once.
pub open spec fn begun(
    env: Env,
    registry: Map<Seq<char>, UploadOptsView>,
    opts: UploadOptsView,
) -> UploadStateView {
    let request = effective_request(registry, opts);
    if is_ascii_chars(request.file_path) {
        attempt_entered(env, initial_state(request))
    } else {
        UploadStateView {
            phase: PhaseView::Failed(XErrorView::UploadFailed("Invalid file path"@)),
            ..initial_state(request)
        }
    }
}

/// The registry once the machine has moved from `before` to `after`: the request is kept
/// where this move ended the upload with a failure.
pub open spec fn registry_after(
    registry: Map<Seq<char>, UploadOptsView>,
    before: UploadStateView,
    after: UploadStateView,
) -> Map<Seq<char>, UploadOptsView> {
    if !before.phase.is_done() && after.phase is Failed {
        persisted(registry, after.opts)
    } else {
        registry
    }
}

/// The registry once an upload has started: the request is kept where the first attempt could
/// not be entered. A request that is turned down for its file path is not kept.
pub open spec fn registry_begun(
    env: Env,
    registry: Map<Seq<char>, UploadOptsView>,
    opts: UploadOptsView,
) -> Map<Seq<char>, UploadOptsView> {
    let request = effective_request(registry, opts);
    if is_ascii_chars(request.file_path) {
        registry_after(registry, initial_state(request), begun(env, registry, opts))
    } else {
        registry
    }
}

/// The action that the state asks for.
pub open spec fn pending(s: UploadStateView) -> UploadActionView {
    match s.phase {
        PhaseView::Sts => UploadActionView::GetSts {
            strategy: s.strategy,
            bucket_source: s.bucket_source,
        },
        PhaseView::Transfer => UploadActionView::Upload {
            strategy: s.strategy,
            bucket_source: s.bucket_source,
        },
        PhaseView::Probe => UploadActionView::CheckDns {
            domain: s.candidates[s.probe].domain.unwrap(),
        },
        PhaseView::Network => UploadActionView::CheckNetwork,
        PhaseView::Succeeded(url) => UploadActionView::Succeed { url },
        PhaseView::Failed(error) => UploadActionView::Fail {
            error,
            retry_count: s.retry_count,
            errors: s.errors,
        },
    }
}

/// The first position from `from` on of a candidate that has a domain.
pub fn first_with_domain(candidates: &Vec<BucketSource>, from: usize) -> (r: Option<usize>)
    ensures
        match r {
            Some(i) => next_probe(candidates.deep_view(), from as int) == Some(i as int) && from
                <= i < candidates.len() && candidates[i as int]@.domain is Some,
            None => next_probe(candidates.deep_view(), from as int) is None,
        },
{
    let mut i: usize = from;
    while i < candidates.len()
        invariant
            from <= i,
            next_probe(candidates.deep_view(), from as int) == next_probe(
                candidates.deep_view(),
                i as int,
            ),
        decreases candidates.len() - i,
    {
        if candidates[i].domain.is_some() {
            return Some(i);
        }
        i += 1;
    }
    None
}

/// The search for a fallback bucket whose domain can be reached.
#[derive(Debug)]
pub struct DomainSwitch {
    candidates: Vec<BucketSource>,
    probe: usize,
    found: bool,
}

pub struct DomainSwitchView {
    /// The fallback buckets, in the order of the walk.
    pub candidates: Seq<BucketSourceView>,
    /// The position of the candidate whose domain is probed; behind the last one where none is
    /// left.
    pub probe: int,
    /// Whether the domain of the candidate at `probe` was reached.
    pub found: bool,
}

/// The position of the next candidate to probe from `from` on; behind the last candidate where
/// none has a domain.
pub open spec fn probe_from(candidates: Seq<BucketSourceView>, from: int) -> int {
    match next_probe(candidates, from) {
        Some(i) => i,
        None => candidates.len() as int,
    }
}

/// What holds of every search that is handed out.
pub open spec fn switch_wf(s: DomainSwitchView) -> bool {
    &&& 0 <= s.probe <= s.candidates.len()
    &&& s.probe < s.candidates.len() ==> s.candidates[s.probe].domain is Some
    &&& s.found ==> s.probe < s.candidates.len()
}

impl DomainSwitchView {
    /// The search at its start.
    pub open spec fn begun(candidates: Seq<BucketSourceView>) -> DomainSwitchView {
        DomainSwitchView { candidates, probe: probe_from(candidates, 0), found: false }
    }

    /// The domain to probe next; none once the search has ended.
    pub open spec fn domain(self) -> Option<Seq<char>> {
        if !self.found && self.probe < self.candidates.len() {
            self.candidates[self.probe].domain
        } else {
            None
        }
    }

    /// How the search ended: with the first candidate whose domain was reached, or with a
    /// network error where no candidate is left. None while the search is under way.
    pub open spec fn outcome(self) -> Option<Result<BucketSourceView, XErrorView>> {
        if self.found {
            Some(Ok(self.candidates[self.probe]))
        } else if self.probe >= self.candidates.len() {
            Some(Err(XErrorView::NetworkError("No available domain"@)))
        } else {
            None
        }
    }

    /// The search after the host's report on the domain probed. A search that has ended stays
    /// as it is.
    pub open spec fn answered(self, report: Result<bool, XErrorView>) -> DomainSwitchView {
        if self.found || self.probe >= self.candidates.len() {
            self
        } else if dns_ok(report) {
            DomainSwitchView { found: true, ..self }
        } else {
            DomainSwitchView { probe: probe_from(self.candidates, self.probe + 1), ..self }
        }
    }
}

impl DomainSwitch {
    #[verifier::type_invariant]
    spec fn inv(self) -> bool {
        switch_wf(self.spec_view())
    }

    spec fn spec_view(self) -> DomainSwitchView {
        DomainSwitchView {
            candidates: self.candidates.deep_view(),
            probe: self.probe as int,
            found: self.found,
        }
    }

    /// The search among `candidates`, at its start.
    pub fn new(candidates: Vec<BucketSource>) -> (r: DomainSwitch)
        ensures
            r@ == DomainSwitchView::begun(candidates.deep_view()),
            switch_wf(r@),
    {
        let probe = match first_with_domain(&candidates, 0) {
            Some(i) => i,
            None => candidates.len(),
        };
        DomainSwitch { candidates, probe, found: false }
    }

    /// The domain to probe next; none once the search has ended.
    pub fn domain(&self) -> (r: Option<&str>)
        ensures
            r.deep_view() == self@.domain(),
    {
        proof {
            use_type_invariant(self);
        }
        if !self.found && self.probe < self.candidates.len() {
            match &self.candidates[self.probe].domain {
                Some(domain) => Some(domain.as_str()),
                None => None,
            }
        } else {
            None
        }
    }

    /// How the search ended; none while it is under way.
    pub fn outcome(&self) -> (r: Option<XResult<BucketSource>>)
        ensures
            match self@.outcome() {
                Some(result) => r matches Some(found) && result_view(found) == result,
                None => r is None,
            },
    {
        proof {
            use_type_invariant(self);
        }
        if self.found {
            Some(Ok(self.candidates[self.probe].replicate()))
        } else if self.probe >= self.candidates.len() {
            Some(Err(XError::NetworkError(String::from_str("No available domain"))))
        } else {
            None
        }
    }

    /// Takes the host's report on the domain probed: the candidate is taken where its domain
    /// resolves, else the search goes on with the next candidate that has a domain.
    pub fn answer(self, report: XResult<bool>) -> (r: DomainSwitch)
        ensures
            r@ == self@.answered(result_view(report)),
            switch_wf(r@),
    {
        proof {
            use_type_invariant(&self);
        }
        if self.found || self.probe >= self.candidates.len() {
            self
        } else if check_dns(report) {
            DomainSwitch { found: true, ..self }
        } else {
            let probe = match first_with_domain(&self.candidates, self.probe + 1) {
                Some(i) => i,
                None => self.candidates.len(),
            };
            DomainSwitch { probe, ..self }
        }
    }
}

impl View for DomainSwitch {
    type V = DomainSwitchView;

    closed spec fn view(&self) -> DomainSwitchView {
        self.spec_view()
    }
}

/// What starts an upload: the request to announce the start with, and the machine's first
/// state and action.
#[derive(Debug)]
pub struct UploadStart {
    /// The request as it was handed in, for the announcement of the start.
    pub announce: UploadOpts,
    pub state: UploadState,
    pub action: UploadAction,
}

/// What the machine waits for, without what it holds.
#[derive(Clone, Copy)]
enum Waiting {
    Sts,
    Transfer,
    Probe,
    Network,
    Nothing,
}

impl UploadState {
    #[verifier::type_invariant]
    spec fn inv(self) -> bool {
        state_wf(self.spec_view())
    }

    spec fn spec_view(self) -> UploadStateView {
        UploadStateView {
            opts: self.opts@,
            bucket_source: self.bucket_source@,
            errors: self.errors.deep_view(),
            retry_count: self.retry_count as nat,
            phase: self.phase.deep_view(),
            strategy: self.strategy,
            candidates: self.candidates.deep_view(),
            probe: self.probe as int,
        }
    }

    fn waiting(&self) -> (r: Waiting)
        ensures
            match r {
                Waiting::Sts => self@.phase is Sts,
                Waiting::Transfer => self@.phase is Transfer,
                Waiting::Probe => self@.phase is Probe,
                Waiting::Network => self@.phase is Network,
                Waiting::Nothing => self@.phase.is_done(),
            },
    {
        match &self.phase {
            Phase::Sts => Waiting::Sts,
            Phase::Transfer => Waiting::Transfer,
            Phase::Probe => Waiting::Probe,
            Phase::Network => Waiting::Network,
            _ => Waiting::Nothing,
        }
    }

    /// The request that is carried out.
    pub fn opts(&self) -> (r: &UploadOpts)
        ensures
            r@ == self@.opts,
    {
        &self.opts
    }

    /// The bucket that the next transfer goes to.
    pub fn bucket_source(&self) -> (r: &BucketSource)
        ensures
            r@ == self@.bucket_source,
    {
        &self.bucket_source
    }

    /// The errors of the attempts so far, in order.
    pub fn errors(&self) -> (r: &Vec<XError>)
        ensures
            r.deep_view() == self@.errors,
    {
        &self.errors
    }

    /// The number of failed transfers that counted against the budget.
    pub fn retry_count(&self) -> (r: u32)
        ensures
            r == self@.retry_count,
            r <= RETRY_BUDGET,
    {
        proof {
            use_type_invariant(self);
        }
        self.retry_count
    }

    /// Whether the upload has ended.
    pub fn is_done(&self) -> (r: bool)
        ensures
            r == self@.phase.is_done(),
            state_wf(self@),
    {
        proof {
            use_type_invariant(self);
        }
        match &self.phase {
            Phase::Succeeded(_) => true,
            Phase::Failed(_) => true,
            _ => false,
        }
    }

    /// The action that the state asks for.
    pub fn action(&self) -> (r: UploadAction)
        ensures
            r@ == pending(self@),
    {
        proof {
            use_type_invariant(self);
        }
        match &self.phase {
            Phase::Sts => UploadAction::GetSts {
                strategy: self.strategy,
                bucket_source: self.bucket_source.replicate(),
            },
            Phase::Transfer => UploadAction::Upload {
                strategy: self.strategy,
                bucket_source: self.bucket_source.replicate(),
            },
            Phase::Probe => {
                let domain = match &self.candidates[self.probe].domain {
                    Some(domain) => domain.clone(),
                    None => String::new(),
                };
                UploadAction::CheckDns { domain }
            },
            Phase::Network => UploadAction::CheckNetwork,
            Phase::Succeeded(url) => UploadAction::Succeed { url: url.clone() },
            Phase::Failed(error) => UploadAction::Fail {
                error: error.clone(),
                retry_count: self.retry_count,
                errors: self.errors.replicate(),
            },
        }
    }

    /// The state with `error` added to the errors of the attempts.
    fn with_error(self, error: XError) -> (r: UploadState)
        ensures
            r@ == (UploadStateView { errors: self@.errors.push(error@), ..self@ }),
    {
        proof {
            use_type_invariant(&self);
        }
        let UploadState {
            opts,
            bucket_source,
            mut errors,
            retry_count,
            phase,
            strategy,
            candidates,
            probe,
        } = self;
        let ghost before = errors.deep_view();
        errors.push(error);
        proof {
            assert(errors.deep_view() =~= before.push(error@));
        }
        UploadState { opts, bucket_source, errors, retry_count, phase, strategy, candidates, probe }
    }

    /// The state with the next candidate's domain to probe, or with the network's state to ask
    /// for.
    fn seek_domain(self, from: usize) -> (r: UploadState)
        requires
            !self@.phase.is_done(),
        ensures
            r@ == domain_sought(self@, from as int),
    {
        proof {
            use_type_invariant(&self);
        }
        match first_with_domain(&self.candidates, from) {
            Some(i) => UploadState { phase: Phase::Probe, probe: i, ..self },
            None => UploadState { phase: Phase::Network, ..self },
        }
    }
}

impl View for UploadState {
    type V = UploadStateView;

    closed spec fn view(&self) -> UploadStateView {
        self.spec_view()
    }
}

impl CloudClient {
    /// What the machine decides by.
    pub open spec fn env(&self) -> Env {
        Env { strategies: self.cloud_strategy_map@, config: self.config.deep_view() }
    }

    /// Whether `other` is this client but for the requests kept for a manual retry.
    pub open spec fn same_but_registry(&self, other: &CloudClient) -> bool {
        &&& self.config == other.config
        &&& self.local_config == other.local_config
        &&& self.cloud_source_map == other.cloud_source_map
        &&& self.cloud_magics_map == other.cloud_magics_map
        &&& self.branch_cloud_source == other.branch_cloud_source
        &&& self.cloud_strategy_map == other.cloud_strategy_map
    }

    /// Ends the upload with `error` after `retry_count` retries, and keeps the request where it
    /// asks for that.
    fn close(&mut self, state: UploadState, retry_count: u32, error: XError) -> (r: UploadState)
        requires
            retry_count <= RETRY_BUDGET,
        ensures
            r@ == closed_with(
                UploadStateView { retry_count: retry_count as nat, ..state@ },
                error@,
            ),
            final(self).manual_retry_map@ == persisted(old(self).manual_retry_map@, state@.opts),
            old(self).same_but_registry(final(self)),
    {
        proof {
            use_type_invariant(&state);
        }
        if state.opts.manual_retry {
            self.manual_retry_map.insert(state.opts.file_path.clone(), state.opts.replicate());
        }
        UploadState { retry_count, phase: Phase::Failed(error), ..state }
    }

    /// Ends the upload for want of success after `retry_count` retries.
    fn give_up(&mut self, state: UploadState, retry_count: u32) -> (r: UploadState)
        requires
            retry_count <= RETRY_BUDGET,
        ensures
            r@ == given_up(UploadStateView { retry_count: retry_count as nat, ..state@ }),
            final(self).manual_retry_map@ == persisted(old(self).manual_retry_map@, state@.opts),
            old(self).same_but_registry(final(self)),
    {
        let text = String::from_str("Upload failed after ").concat(
            decimal(retry_count as u64).as_str(),
        ).concat(" retries");
        self.close(state, retry_count, XError::UploadFailed(text))
    }

    /// Starts an attempt with the current bucket.
    fn enter_attempt(&mut self, state: UploadState) -> (r: UploadState)
        requires
            !state@.phase.is_done(),
        ensures
            r@ == attempt_entered(old(self).env(), state@),
            final(self).manual_retry_map@ == registry_after(
                old(self).manual_retry_map@,
                state@,
                r@,
            ),
            old(self).same_but_registry(final(self)),
    {
        proof {
            use_type_invariant(&state);
        }
        let found = match &state.bucket_source.cloud {
            Some(cloud) => match self.get_cloud_strategy(cloud.as_str()) {
                Ok(handle) => Some(handle),
                Err(_) => None,
            },
            None => None,
        };
        match found {
            Some(handle) => UploadState { phase: Phase::Sts, strategy: handle, ..state },
            None => {
                let retry_count = state.retry_count;
                self.close(state, retry_count, XError::InvalidConfig)
            },
        }
    }

    /// The fallback buckets to switch to from `current`, in the order of the walk.
    pub fn switch_candidates(&self, current: &BucketSource) -> (r: Vec<BucketSource>)
        ensures
            r.deep_view() == fallback_chain(self.config.deep_view(), current@, seq![current@]),
            is_fallback_chain(self.config.deep_view(), current@, seq![current@], r.deep_view()),
    {
        let mut ignore: Vec<&BucketSource> = Vec::new();
        ignore.push(current);
        let ignored = ignore.as_slice();
        proof {
            assert(ignore.deep_view() =~= seq![current@]);
            assert(ignored.deep_view() =~= seq![current@]);
        }
        let mut out: Vec<BucketSource> = Vec::new();
        match self.feedback_bucket_sources(current, ignored) {
            Ok(chain) => {
                let mut i: usize = 0;
                while i < chain.len()
                    invariant
                        i <= chain.len(),
                        out.len() == i,
                        forall|j: int| 0 <= j < i ==> out[j]@ == chain[j]@,
                    decreases chain.len() - i,
                {
                    out.push(chain[i].replicate());
                    i += 1;
                }
                proof {
                    assert(out.deep_view() =~= chain.deep_view());
                    let chosen = fallback_chain(self.config.deep_view(), current@, seq![current@]);
                    lemma_fallback_chain_unique(
                        self.config.deep_view(),
                        current@,
                        seq![current@],
                        chain.deep_view(),
                        chosen,
                    );
                }
            },
            Err(_) => {},
        }
        out
    }

    /// The search for another domain than that of `bucket_source`: among the buckets that the
    /// fallback pointers lead to from it, in the order of the walk, the first whose domain the
    /// host can reach is taken. Where none can be reached the search ends with a network error.
    pub fn try_switch_domain(&self, bucket_source: &BucketSource) -> (r: DomainSwitch)
        ensures
            r@ == DomainSwitchView::begun(
                fallback_chain(self.config.deep_view(), bucket_source@, seq![bucket_source@]),
            ),
            switch_wf(r@),
    {
        DomainSwitch::new(self.switch_candidates(bucket_source))
    }

    /// Looks for another domain: walks the fallback pointers from the current bucket and has
    /// the first candidate's domain probed.
    fn start_switch(&self, state: UploadState) -> (r: UploadState)
        requires
            state@.phase is Transfer,
        ensures
            r@ == domain_sought(
                UploadStateView {
                    candidates: fallback_chain(
                        self.config.deep_view(),
                        state@.bucket_source,
                        seq![state@.bucket_source],
                    ),
                    ..state@
                },
                0,
            ),
    {
        proof {
            use_type_invariant(&state);
        }
        let candidates = self.switch_candidates(&state.bucket_source);
        let searching = UploadState { candidates, ..state };
        searching.seek_domain(0)
    }

    /// Starts an upload. The start is announced with the request as it was handed in. The
    /// request kept for the file path takes the place of `opts` where `opts` asks for a manual
    /// retry and one is kept. A file path that is not ASCII ends the upload at once, and the
    /// request is not kept.
    pub fn upload_begin(&mut self, opts: UploadOpts) -> (r: UploadStart)
        ensures
            r.announce@ == opts@,
            r.state@ == begun(old(self).env(), old(self).manual_retry_map@, opts@),
            r.action@ == pending(r.state@),
            state_wf(r.state@),
            final(self).manual_retry_map@ == registry_begun(
                old(self).env(),
                old(self).manual_retry_map@,
                opts@,
            ),
            old(self).same_but_registry(final(self)),
    {
        let announce = opts.replicate();
        let kept = if opts.manual_retry {
            match self.manual_retry_map.get(opts.file_path.as_str()) {
                Some(stored) => Some(stored.replicate()),
                None => None,
            }
        } else {
            None
        };
        let request = match kept {
            Some(stored) => stored,
            None => opts,
        };
        let ascii = request.file_path.is_ascii();
        let bucket_source = request.bucket_source.replicate();
        let state = UploadState {
            opts: request,
            bucket_source,
            errors: Vec::new(),
            retry_count: 0,
            phase: Phase::Sts,
            strategy: 0,
            candidates: Vec::new(),
            probe: 0,
        };
        proof {
            assert(state@.errors =~= Seq::<XErrorView>::empty());
            assert(state@.candidates =~= Seq::<BucketSourceView>::empty());
            assert(state@ == initial_state(effective_request(old(self).manual_retry_map@, opts@)));
        }
        let state = if ascii {
            self.enter_attempt(state)
        } else {
            UploadState {
                phase: Phase::Failed(XError::UploadFailed(String::from_str("Invalid file path"))),
                ..state
            }
        };
        let action = state.action();
        proof {
            use_type_invariant(&state);
        }
        UploadStart { announce, state, action }
    }

    /// Takes what came of the action handed out last, and hands out the next one.
    ///
    /// A failed transfer is retried while fewer than five have failed, unless the request
    /// forbids it: the fifth failure ends the upload. After the first three failures the
    /// network's state is asked for, and the upload ends where there is no network. After the
    /// fourth another domain is looked for first, and the network is asked for where none is
    /// found.
    /// Credentials that are refused and a bucket without a registered strategy end the upload
    /// at once. When the upload ends in a failure, the request is kept for a manual retry where
    /// it asks for that.
    pub fn upload_step(&mut self, state: UploadState, event: UploadEvent) -> (r: (
        UploadState,
        UploadAction,
    ))
        ensures
            r.0@ == stepped(old(self).env(), state@, event@),
            r.1@ == pending(r.0@),
            state_wf(r.0@),
            final(self).manual_retry_map@ == registry_after(
                old(self).manual_retry_map@,
                state@,
                r.0@,
            ),
            old(self).same_but_registry(final(self)),
    {
        proof {
            use_type_invariant(&state);
        }
        let next = match state.waiting() {
            Waiting::Sts => match event {
                UploadEvent::StsReady => UploadState { phase: Phase::Transfer, ..state },
                UploadEvent::StsFailed(error) => {
                    let recorded = state.with_error(error);
                    let retry_count = recorded.retry_count();
                    self.give_up(recorded, retry_count)
                },
                _ => state,
            },
            Waiting::Transfer => match event {
                UploadEvent::Uploaded(address) => UploadState {
                    phase: Phase::Succeeded(address.to_string()),
                    ..state
                },
                UploadEvent::UploadFailed(error) => {
                    let recorded = state.with_error(error);
                    let retries = recorded.retry_count();
                    if recorded.opts.disable_retry {
                        self.give_up(recorded, retries)
                    } else if retries + 1 >= RETRY_BUDGET {
                        self.give_up(recorded, retries + 1)
                    } else {
                        proof {
                            use_type_invariant(&recorded);
                        }
                        let counted = UploadState { retry_count: retries + 1, ..recorded };
                        if retries + 1 > SWITCH_AFTER {
                            self.start_switch(counted)
                        } else {
                            UploadState { phase: Phase::Network, ..counted }
                        }
                    }
                },
                _ => state,
            },
            Waiting::Probe => match event {
                UploadEvent::Dns(report) => {
                    if check_dns(report) {
                        let target = state.candidates[state.probe].replicate();
                        let moved = UploadState { bucket_source: target, ..state };
                        self.enter_attempt(moved)
                    } else {
                        assert(state.probe < state.candidates.len()) by {
                            assert(state.candidates.deep_view().len() == state.candidates.len());
                        }
                        let from = state.probe + 1;
                        state.seek_domain(from)
                    }
                },
                _ => state,
            },
            Waiting::Network => match event {
                UploadEvent::Network(report) => {
                    let info = check_network(report);
                    if same_text(info.network_type.as_str(), "none") {
                        let retry_count = state.retry_count();
                        self.give_up(state, retry_count)
                    } else {
                        self.enter_attempt(state)
                    }
                },
                _ => state,
            },
            Waiting::Nothing => state,
        };
        let action = next.action();
        proof {
            use_type_invariant(&next);
        }
        (next, action)
    }
}

} // verus!
