//! Worker type classification.
//!
//! A worker is local or external. Only an explicit external runtime or the URL
//! of a known cloud provider makes it external, and then only where the gateway
//! admits external workers. An unspecified runtime at any other URL is probed,
//! and counts as local whatever the probes say: the backend may still be
//! starting.
//!
//! The step is a state machine: each state says which probe the caller makes
//! next, and the method named after that probe takes its answer on.

use crate::json;
use crate::json::Json;
use crate::text;
use vstd::prelude::*;
use vstd::string::*;

verus! {

/// Quick-probe timeout in seconds.
pub const CLASSIFY_PROBE_TIMEOUT_SECS: u64 = 2;

/// Runtime implementation of a worker.
#[derive(Debug, Clone, Copy, PartialEq, Eq, Structural)]
pub enum RuntimeType {
    /// No runtime given: the backend is detected.
    Unspecified,
    Sglang,
    Vllm,
    Trtllm,
    Mlx,
    TokenSpeed,
    /// An OpenAI-compatible backend whose engine is not known.
    Generic,
    /// An external API, not local inference.
    External,
}

impl RuntimeType {
    /// Whether the caller gave an explicit runtime.
    pub fn is_specified(self) -> (specified: bool)
        ensures
            specified == (self != RuntimeType::Unspecified),
    {
        self != RuntimeType::Unspecified
    }
}

/// What a worker is classified as.
#[derive(Debug, Clone, Copy, PartialEq, Eq, Structural)]
pub enum WorkerKind {
    Local,
    External,
}

/// A cloud provider.
#[derive(Debug)]
pub enum Provider {
    OpenAI,
    XAI,
    Anthropic,
    Gemini,
    Custom(String),
}

/// What the step reads of a worker's configuration.
#[derive(Debug)]
pub struct WorkerConfig {
    pub url: String,
    pub runtime_type: RuntimeType,
    pub api_key: Option<String>,
}

/// What the step reads of the gateway's application context.
#[derive(Debug)]
pub struct AppContext {
    pub providers_enabled: bool,
}

/// What the step reads and fills in of a worker's workflow.
#[derive(Debug)]
pub struct WorkerWorkflowData {
    pub config: WorkerConfig,
    pub app_context: Option<AppContext>,
    pub worker_kind: Option<WorkerKind>,
}

/// How a step ends well.
#[derive(Debug, Clone, Copy, PartialEq, Eq, Structural)]
pub enum StepResult {
    Success,
}

/// How a step fails.
#[derive(Debug)]
pub enum WorkflowError {
    StepFailed { step_id: String, message: String },
    ContextValueNotFound(String),
}

/// Where a probe goes, and how long it may take.
#[derive(Debug)]
pub struct Probe {
    pub url: String,
    pub timeout_secs: u64,
}

/// Where a classification stands, and with that which probe it needs next.
#[derive(Debug)]
pub enum Classification {
    /// Probe `/health`.
    ProbeHealth(Probe),
    /// Probe the gRPC health service.
    ProbeGrpc(Probe),
    /// Fetch `/v1/models`, as [`models_probe`] says.
    ProbeModels(Probe),
    /// The worker's kind is filled in, on the given evidence.
    Classified(Basis),
    /// The step has failed.
    Failed(WorkflowError),
}

/// On what evidence a worker is classified.
#[derive(Debug)]
pub enum Basis {
    /// Its explicit runtime.
    Runtime,
    /// The known provider that its URL names.
    ProviderUrl(Provider),
    /// Its `/health` answered.
    Health,
    /// Its gRPC health service answered.
    Grpc,
    /// Its `/v1/models` named this local backend.
    Models(String),
    /// Nothing conclusive.
    Default,
}

/// What a `Basis` says, over character sequences.
pub enum BasisModel {
    Runtime,
    ProviderUrl(ProviderModel),
    Health,
    Grpc,
    Models(Seq<char>),
    Default,
}

impl View for Basis {
    type V = BasisModel;

    open spec fn view(&self) -> BasisModel {
        match self {
            Basis::Runtime => BasisModel::Runtime,
            Basis::ProviderUrl(provider) => BasisModel::ProviderUrl(provider@),
            Basis::Health => BasisModel::Health,
            Basis::Grpc => BasisModel::Grpc,
            Basis::Models(backend) => BasisModel::Models(backend@),
            Basis::Default => BasisModel::Default,
        }
    }
}

/// Whether the gateway admits external workers. Without an application context
/// nothing is admitted.
pub open spec fn admits_external(data: WorkerWorkflowData) -> bool {
    data.app_context matches Some(context) && context.providers_enabled
}

/// Whether `error` refuses the worker at `url` as an external one.
pub open spec fn is_providers_disabled(error: WorkflowError, url: Seq<char>) -> bool {
    match error {
        WorkflowError::StepFailed { step_id, message } => {
            &&& step_id@ == "classify_worker_type"@
            &&& message@ == "worker "@ + url
                + " targets a third-party provider, but provider routing is disabled; start the gateway with --enable-providers to admit external workers"@
        },
        _ => false,
    }
}

/// Whether `error` reports that the application context is missing.
pub open spec fn is_context_missing(error: WorkflowError) -> bool {
    error matches WorkflowError::ContextValueNotFound(name) && name@ == "app_context"@
}

/// `data` with the worker classified as `kind`.
pub open spec fn with_kind(data: WorkerWorkflowData, kind: WorkerKind) -> WorkerWorkflowData {
    WorkerWorkflowData { worker_kind: Some(kind), ..data }
}

/// Whether `after` is `before` with the worker classified as `kind`, and `state`
/// says so on the evidence `basis`.
pub open spec fn is_classified(
    before: WorkerWorkflowData,
    after: WorkerWorkflowData,
    state: Classification,
    kind: WorkerKind,
    basis: BasisModel,
) -> bool {
    &&& state matches Classification::Classified(evidence)
    &&& evidence@ == basis
    &&& after == with_kind(before, kind)
}

/// Whether `after` and `state` are what a worker that is external on the
/// evidence `basis` comes to: it is classified so where external workers are
/// admitted, and otherwise refused and left as it was.
pub open spec fn is_external_outcome(
    before: WorkerWorkflowData,
    after: WorkerWorkflowData,
    state: Classification,
    basis: BasisModel,
) -> bool {
    if admits_external(before) {
        is_classified(before, after, state, WorkerKind::External, basis)
    } else {
        &&& state matches Classification::Failed(error)
        &&& is_providers_disabled(error, before.config.url@)
        &&& after == before
    }
}

/// Whether the gateway admits external workers.
pub fn external_workers_admitted(data: &WorkerWorkflowData) -> (admitted: bool)
    ensures
        admitted == admits_external(*data),
{
    match &data.app_context {
        Some(context) => context.providers_enabled,
        None => false,
    }
}

/// The error that refuses the worker at `url` as an external one.
pub fn providers_disabled(url: &str) -> (error: WorkflowError)
    ensures
        is_providers_disabled(error, url@),
{
    WorkflowError::StepFailed {
        step_id: "classify_worker_type".to_owned(),
        message: "worker ".to_owned().concat(url).concat(
            " targets a third-party provider, but provider routing is disabled; start the gateway with --enable-providers to admit external workers",
        ),
    }
}

/// What a `Provider` stands for, over character sequences.
pub enum ProviderModel {
    OpenAI,
    XAI,
    Anthropic,
    Gemini,
    Custom(Seq<char>),
}

impl View for Provider {
    type V = ProviderModel;

    open spec fn view(&self) -> ProviderModel {
        match self {
            Provider::OpenAI => ProviderModel::OpenAI,
            Provider::XAI => ProviderModel::XAI,
            Provider::Anthropic => ProviderModel::Anthropic,
            Provider::Gemini => ProviderModel::Gemini,
            Provider::Custom(name) => ProviderModel::Custom(name@),
        }
    }
}

/// The known cloud provider whose host `url` names.
pub uninterp spec fn url_provider(url: Seq<char>) -> Option<ProviderModel>;

/// `openai_protocol::worker::ProviderType::from_url`: detects a known provider
/// from the host in a URL. The result depends on the URL alone and is never a
/// custom provider; how a URL is parsed is not spelled out here.
#[verifier::external_body]
pub(crate) fn provider_from_url(url: &str) -> (provider: Option<Provider>)
    ensures
        match provider {
            Some(p) => url_provider(url@) == Some(p@) && !(p is Custom),
            None => url_provider(url@) is None,
        },
{
    match openai_protocol::worker::ProviderType::from_url(url)? {
        openai_protocol::worker::ProviderType::OpenAI => Some(Provider::OpenAI),
        openai_protocol::worker::ProviderType::XAI => Some(Provider::XAI),
        openai_protocol::worker::ProviderType::Anthropic => Some(Provider::Anthropic),
        openai_protocol::worker::ProviderType::Gemini => Some(Provider::Gemini),
        openai_protocol::worker::ProviderType::Custom(name) => Some(Provider::Custom(name)),
    }
}

/// The lower-case form of a text.
pub uninterp spec fn lower_case(text: Seq<char>) -> Seq<char>;

/// The lower-case form of an ASCII character.
pub open spec fn ascii_lower(c: char) -> char {
    if 'A' <= c <= 'Z' {
        (c as int + 32) as char
    } else {
        c
    }
}

/// An ASCII text in small letters.
pub open spec fn small_letters(text: Seq<char>) -> Seq<char> {
    text.map_values(|c: char| ascii_lower(c))
}

/// `str::to_lowercase`: the lower-case form of a string. It depends on the
/// string alone; of an ASCII string it is the string with each capital letter
/// replaced by its small one.
#[verifier::external_body]
fn lowered(text: &str) -> (lower: String)
    ensures
        lower@ == lower_case(text@),
        is_ascii(text) ==> lower@ == small_letters(text@),
{
    text.to_lowercase()
}

/// The `owned_by` values by which a local backend is recognised.
pub open spec fn local_owners() -> Seq<Seq<char>> {
    seq!["sglang"@, "vllm"@, "trtllm"@, "nvidia"@]
}

/// Whether `owned_by` is a known local backend's.
pub fn is_local_owner(owned_by: &str) -> (local: bool)
    ensures
        local == local_owners().contains(owned_by@),
{
    proof {
        let owners = local_owners();
        assert(owners[0] == "sglang"@ && owners[1] == "vllm"@ && owners[2] == "trtllm"@
            && owners[3] == "nvidia"@);
    }
    text::same_text(owned_by, "sglang") || text::same_text(owned_by, "vllm") || text::same_text(
        owned_by,
        "trtllm",
    ) || text::same_text(owned_by, "nvidia")
}

/// The `owned_by` text of the first entry under `data` in a model listing.
pub open spec fn first_owner(listing: json::JsonModel) -> Option<Seq<char>> {
    match json::field(listing, "data"@) {
        Some(json::JsonModel::List(models)) => if models.len() == 0 {
            None
        } else {
            match json::field(models[0], "owned_by"@) {
                Some(json::JsonModel::Text(owner)) => Some(owner),
                _ => None,
            }
        },
        _ => None,
    }
}

/// The `owned_by` text of the first model in a listing.
pub fn first_owned_by(listing: &Json) -> (owner: Option<&str>)
    ensures
        match owner {
            Some(o) => first_owner(listing.model()) == Some(o@),
            None => first_owner(listing.model()) is None,
        },
{
    match listing.get("data") {
        Some(Json::List(models)) => {
            if models.len() == 0 {
                None
            } else {
                match models[0].get("owned_by") {
                    Some(Json::Text(owner)) => Some(owner.as_str()),
                    _ => None,
                }
            }
        },
        _ => None,
    }
}

/// The known local backend that an owner stands for, in lower case.
pub open spec fn backend_of_owner(owner: Option<Seq<char>>) -> Option<Seq<char>> {
    match owner {
        Some(o) => if local_owners().contains(lower_case(o)) {
            Some(lower_case(o))
        } else {
            None
        },
        None => None,
    }
}

/// The known local backend that an owner in ASCII stands for.
pub open spec fn backend_of_ascii(owner: Seq<char>) -> Option<Seq<char>> {
    if local_owners().contains(small_letters(owner)) {
        Some(small_letters(owner))
    } else {
        None
    }
}

/// The characters of a text, where there is one.
pub open spec fn text_of(text: Option<String>) -> Option<Seq<char>> {
    match text {
        Some(t) => Some(t@),
        None => None,
    }
}

/// The known local backend that owns the first model in a listing.
pub fn local_backend(listing: &Json) -> (backend: Option<String>)
    ensures
        text_of(backend) == backend_of_owner(first_owner(listing.model())),
        first_owner(listing.model()) matches Some(owner) ==> vstd::utf8::is_ascii_chars(owner)
            ==> text_of(backend) == backend_of_ascii(owner),
{
    match first_owned_by(listing) {
        Some(owner) => {
            let owned_by = lowered(owner);
            if is_local_owner(owned_by.as_str()) {
                Some(owned_by)
            } else {
                None
            }
        },
        None => None,
    }
}

/// What came of fetching `/v1/models`.
#[derive(Debug)]
pub enum ModelsReply {
    /// The request failed.
    NoAnswer,
    /// An answer with its status, and its body where that could be read.
    Answer { status: u16, body: Option<Vec<u8>> },
}

/// Whether an HTTP status reports an error of the server.
pub fn is_server_error(status: u16) -> (error: bool)
    ensures
        error == (500 <= status <= 599),
{
    500 <= status && status <= 599
}

/// The `owned_by` text of the first model that a reply lists. A failed request,
/// an error of the server and a body that is no JSON document list none.
pub open spec fn owner_in(reply: ModelsReply) -> Option<Seq<char>> {
    match reply {
        ModelsReply::Answer { status, body: Some(body) } => if 500 <= status <= 599 {
            None
        } else {
            match json::document(body@) {
                Some(listing) => first_owner(listing),
                None => None,
            }
        },
        _ => None,
    }
}

/// The known local backend that a reply names.
pub open spec fn backend_in(reply: ModelsReply) -> Option<Seq<char>> {
    backend_of_owner(owner_in(reply))
}

/// The known local backend that the reply to a fetch of `/v1/models` names.
pub fn probe_models_owned_by(reply: &ModelsReply) -> (backend: Option<String>)
    ensures
        text_of(backend) == backend_in(*reply),
        owner_in(*reply) matches Some(owner) ==> vstd::utf8::is_ascii_chars(owner) ==> text_of(
            backend,
        ) == backend_of_ascii(owner),
{
    match reply {
        ModelsReply::Answer { status, body: Some(body) } => {
            if is_server_error(*status) {
                None
            } else {
                match json::parse_json(body.as_slice()) {
                    Some(listing) => local_backend(&listing),
                    None => None,
                }
            }
        },
        _ => None,
    }
}

/// A fetch of `/v1/models`.
#[derive(Debug)]
pub struct ModelsRequest {
    pub url: String,
    pub timeout_secs: u64,
    /// The key to present as a bearer token.
    pub bearer: Option<String>,
}

/// The fetch of `/v1/models` from the server at `base`.
pub fn models_request(base: &str, timeout_secs: u64, api_key: Option<&str>) -> (request:
    ModelsRequest)
    ensures
        request.url@ == base@ + "/v1/models"@,
        request.timeout_secs == timeout_secs,
        match api_key {
            Some(key) => request.bearer matches Some(bearer) && bearer@ == key@,
            None => request.bearer is None,
        },
{
    let bearer: Option<String> = match api_key {
        Some(key) => Some(key.to_owned()),
        None => None,
    };
    ModelsRequest { url: base.to_owned().concat("/v1/models"), timeout_secs, bearer }
}

/// The fetch of `/v1/models` that probes a worker whose server is at `base`: it
/// has the probe's timeout and presents the configured key.
pub fn models_probe(data: &WorkerWorkflowData, base: &str) -> (request: ModelsRequest)
    ensures
        request.url@ == base@ + "/v1/models"@,
        request.timeout_secs == CLASSIFY_PROBE_TIMEOUT_SECS,
        text_of(request.bearer) == text_of(data.config.api_key),
{
    let api_key: Option<&str> = match &data.config.api_key {
        Some(key) => Some(key.as_str()),
        None => None,
    };
    models_request(base, CLASSIFY_PROBE_TIMEOUT_SECS, api_key)
}

/// Whether `probe` goes to the configured URL with the probe's timeout.
pub open spec fn is_probe_of(probe: Probe, data: WorkerWorkflowData) -> bool {
    &&& probe.url@ == data.config.url@
    &&& probe.timeout_secs == CLASSIFY_PROBE_TIMEOUT_SECS
}

/// The probe of a worker's endpoint.
pub fn probe_of(data: &WorkerWorkflowData) -> (probe: Probe)
    ensures
        is_probe_of(probe, *data),
{
    Probe { url: data.config.url.clone(), timeout_secs: CLASSIFY_PROBE_TIMEOUT_SECS }
}

/// What the three probes of an endpoint answered.
#[derive(Debug)]
pub struct ProbeReplies {
    pub health: bool,
    pub grpc: bool,
    pub models: ModelsReply,
}

/// Whether `after` and `state` are what a worker of an unspecified runtime
/// comes to, before any probe, when `provider` is what its URL names.
pub open spec fn is_unspecified_outcome(
    before: WorkerWorkflowData,
    provider: Option<ProviderModel>,
    after: WorkerWorkflowData,
    state: Classification,
) -> bool {
    match provider {
        Some(p) => is_external_outcome(before, after, state, BasisModel::ProviderUrl(p)),
        None => {
            &&& after == before
            &&& match before.app_context {
                Some(_) => state matches Classification::ProbeHealth(probe) && is_probe_of(
                    probe,
                    before,
                ),
                None => state matches Classification::Failed(error) && is_context_missing(error),
            }
        },
    }
}

/// Whether `after` and `state` are what a worker comes to before any probe.
pub open spec fn is_begun(
    before: WorkerWorkflowData,
    after: WorkerWorkflowData,
    state: Classification,
) -> bool {
    match before.config.runtime_type {
        RuntimeType::Unspecified => is_unspecified_outcome(
            before,
            url_provider(before.config.url@),
            after,
            state,
        ),
        RuntimeType::External => is_external_outcome(before, after, state, BasisModel::Runtime),
        _ => is_classified(before, after, state, WorkerKind::Local, BasisModel::Runtime),
    }
}

/// Whether `after` and `state` are what the answer of `/health` leads to.
pub open spec fn is_after_health(
    before: WorkerWorkflowData,
    reachable: bool,
    after: WorkerWorkflowData,
    state: Classification,
) -> bool {
    if reachable {
        is_classified(before, after, state, WorkerKind::Local, BasisModel::Health)
    } else {
        &&& state matches Classification::ProbeGrpc(probe)
        &&& is_probe_of(probe, before)
        &&& after == before
    }
}

/// Whether `after` and `state` are what the answer of the gRPC health service
/// leads to.
pub open spec fn is_after_grpc(
    before: WorkerWorkflowData,
    reachable: bool,
    after: WorkerWorkflowData,
    state: Classification,
) -> bool {
    if reachable {
        is_classified(before, after, state, WorkerKind::Local, BasisModel::Grpc)
    } else {
        &&& state matches Classification::ProbeModels(probe)
        &&& is_probe_of(probe, before)
        &&& after == before
    }
}

/// Whether `after` and `state` are what the answer of `/v1/models` leads to.
pub open spec fn is_after_models(
    before: WorkerWorkflowData,
    reply: ModelsReply,
    after: WorkerWorkflowData,
    state: Classification,
) -> bool {
    is_classified(
        before,
        after,
        state,
        WorkerKind::Local,
        basis_of_backend(backend_in(reply)),
    )
}

/// The evidence that a recognised backend is, and that none leaves.
pub open spec fn basis_of_backend(backend: Option<Seq<char>>) -> BasisModel {
    match backend {
        Some(b) => BasisModel::Models(b),
        None => BasisModel::Default,
    }
}

/// Whether the whole step classifies the worker as external where external
/// workers are admitted, and refuses it where they are not.
pub open spec fn is_external_worker(data: WorkerWorkflowData) -> bool {
    match data.config.runtime_type {
        RuntimeType::Unspecified => url_provider(data.config.url@) is Some,
        RuntimeType::External => true,
        _ => false,
    }
}

/// Whether the whole step has to probe the worker's endpoint.
pub open spec fn needs_probe(data: WorkerWorkflowData) -> bool {
    data.config.runtime_type == RuntimeType::Unspecified && !is_external_worker(data)
}

/// Whether the step can probe the worker's endpoint where it has to.
pub open spec fn can_probe(data: WorkerWorkflowData) -> bool {
    needs_probe(data) && data.app_context is Some
}

/// The evidence that the answers of the probes amount to: the first that
/// succeeds counts.
pub open spec fn basis_of_replies(replies: ProbeReplies) -> BasisModel {
    if replies.health {
        BasisModel::Health
    } else if replies.grpc {
        BasisModel::Grpc
    } else {
        basis_of_backend(backend_in(replies.models))
    }
}

/// Whether `after` and `state` are what the step ends in when the probes that
/// it makes answer as in `replies`.
pub open spec fn is_settled(
    before: WorkerWorkflowData,
    replies: ProbeReplies,
    after: WorkerWorkflowData,
    state: Classification,
) -> bool {
    if can_probe(before) {
        is_classified(before, after, state, WorkerKind::Local, basis_of_replies(replies))
    } else {
        is_begun(before, after, state)
    }
}

/// Whether `after` and `result` are what the whole step gives, whatever the
/// probes answer.
pub open spec fn is_executed(
    before: WorkerWorkflowData,
    after: WorkerWorkflowData,
    result: Result<StepResult, WorkflowError>,
) -> bool {
    if is_external_worker(before) && !admits_external(before) {
        &&& result matches Err(error)
        &&& is_providers_disabled(error, before.config.url@)
        &&& after == before
    } else if needs_probe(before) && before.app_context is None {
        &&& result matches Err(error)
        &&& is_context_missing(error)
        &&& after == before
    } else {
        &&& result matches Ok(StepResult::Success)
        &&& after == with_kind(
            before,
            if is_external_worker(before) {
                WorkerKind::External
            } else {
                WorkerKind::Local
            },
        )
    }
}

/// How many probes a classification may still make.
pub open spec fn probes_left(state: Classification) -> nat {
    match state {
        Classification::ProbeHealth(_) => 3,
        Classification::ProbeGrpc(_) => 2,
        Classification::ProbeModels(_) => 1,
        _ => 0,
    }
}

/// The step that classifies a worker as local or external.
///
/// 1. An explicit runtime decides at once.
/// 2. A URL of a known cloud provider makes the worker external.
/// 3. A `/health` that answers makes it local.
/// 4. A gRPC health service that answers makes it local.
/// 5. A `/v1/models` whose `owned_by` names a local backend makes it local.
/// 6. Otherwise it counts as local.
pub struct ClassifyWorkerTypeStep;

impl ClassifyWorkerTypeStep {
    fn conclude(data: &mut WorkerWorkflowData, kind: WorkerKind, basis: Basis) -> (state:
        Classification)
        ensures
            is_classified(*old(data), *final(data), state, kind, basis@),
    {
        data.worker_kind = Some(kind);
        Classification::Classified(basis)
    }

    fn conclude_external(data: &mut WorkerWorkflowData, basis: Basis) -> (state: Classification)
        ensures
            is_external_outcome(*old(data), *final(data), state, basis@),
    {
        if external_workers_admitted(data) {
            Self::conclude(data, WorkerKind::External, basis)
        } else {
            Classification::Failed(providers_disabled(data.config.url.as_str()))
        }
    }

    /// Classifies a worker of an unspecified runtime as far as can be told
    /// without a probe, given the known provider that its URL names.
    pub fn begin_unspecified(&self, data: &mut WorkerWorkflowData, provider: Option<Provider>) -> (state:
        Classification)
        ensures
            is_unspecified_outcome(
                *old(data),
                match provider {
                    Some(p) => Some(p@),
                    None => None,
                },
                *final(data),
                state,
            ),
    {
        match provider {
            Some(p) => Self::conclude_external(data, Basis::ProviderUrl(p)),
            None => {
                if data.app_context.is_none() {
                    Classification::Failed(
                        WorkflowError::ContextValueNotFound("app_context".to_owned()),
                    )
                } else {
                    Classification::ProbeHealth(probe_of(data))
                }
            },
        }
    }

    /// Classifies a worker as far as can be told without a probe.
    pub fn begin(&self, data: &mut WorkerWorkflowData) -> (state: Classification)
        ensures
            is_begun(*old(data), *final(data), state),
            state matches Classification::Classified(Basis::ProviderUrl(provider)) ==> !(
            provider is Custom),
    {
        if data.config.runtime_type.is_specified() {
            if data.config.runtime_type == RuntimeType::External {
                Self::conclude_external(data, Basis::Runtime)
            } else {
                Self::conclude(data, WorkerKind::Local, Basis::Runtime)
            }
        } else {
            let provider = provider_from_url(data.config.url.as_str());
            self.begin_unspecified(data, provider)
        }
    }

    /// Takes the answer of `/health` on: only local backends expose it.
    pub fn after_health(&self, data: &mut WorkerWorkflowData, reachable: bool) -> (state:
        Classification)
        ensures
            is_after_health(*old(data), reachable, *final(data), state),
    {
        if reachable {
            Self::conclude(data, WorkerKind::Local, Basis::Health)
        } else {
            Classification::ProbeGrpc(probe_of(data))
        }
    }

    /// Takes the answer of the gRPC health service on: external APIs have none.
    pub fn after_grpc(&self, data: &mut WorkerWorkflowData, reachable: bool) -> (state:
        Classification)
        ensures
            is_after_grpc(*old(data), reachable, *final(data), state),
    {
        if reachable {
            Self::conclude(data, WorkerKind::Local, Basis::Grpc)
        } else {
            Classification::ProbeModels(probe_of(data))
        }
    }

    /// Takes the answer of `/v1/models` on: a recognised backend is local, and
    /// an inconclusive answer leaves the default, which is local too.
    pub fn after_models(&self, data: &mut WorkerWorkflowData, reply: &ModelsReply) -> (state:
        Classification)
        ensures
            is_after_models(*old(data), *reply, *final(data), state),
            owner_in(*reply) matches Some(owner) ==> vstd::utf8::is_ascii_chars(owner)
                ==> is_classified(
                *old(data),
                *final(data),
                state,
                WorkerKind::Local,
                basis_of_backend(backend_of_ascii(owner)),
            ),
    {
        match probe_models_owned_by(reply) {
            Some(backend) => Self::conclude(data, WorkerKind::Local, Basis::Models(backend)),
            None => Self::conclude(data, WorkerKind::Local, Basis::Default),
        }
    }

    /// Takes the step to its end on given answers of the probes, and says on
    /// what evidence it ended.
    pub fn settle(&self, data: &mut WorkerWorkflowData, replies: &ProbeReplies) -> (state:
        Classification)
        ensures
            is_settled(*old(data), *replies, *final(data), state),
    {
        let ghost before = *data;
        let mut state = self.begin(data);
        loop
            invariant
                before == *old(data),
                match state {
                    Classification::ProbeHealth(_) => can_probe(before) && *data == before,
                    Classification::ProbeGrpc(_) => can_probe(before) && *data == before
                        && !replies.health,
                    Classification::ProbeModels(_) => can_probe(before) && *data == before
                        && !replies.health && !replies.grpc,
                    _ => is_settled(before, *replies, *data, state),
                },
            decreases probes_left(state),
        {
            match state {
                Classification::ProbeHealth(_) => {
                    state = self.after_health(data, replies.health);
                },
                Classification::ProbeGrpc(_) => {
                    state = self.after_grpc(data, replies.grpc);
                },
                Classification::ProbeModels(_) => {
                    state = self.after_models(data, &replies.models);
                },
                _ => {
                    return state;
                },
            }
        }
    }

    /// Runs the step to its end on given answers of the probes.
    pub fn execute(&self, data: &mut WorkerWorkflowData, replies: &ProbeReplies) -> (result: Result<
        StepResult,
        WorkflowError,
    >)
        ensures
            is_executed(*old(data), *final(data), result),
    {
        match self.settle(data, replies) {
            Classification::Failed(error) => Err(error),
            _ => Ok(StepResult::Success),
        }
    }

    /// No error of this step is worth a retry.
    pub fn is_retryable(&self, _error: &WorkflowError) -> (retryable: bool)
        ensures
            !retryable,
    {
        false
    }
}

} // verus!
