//! What holds of every classification of a worker.

use crate::classify;
use crate::classify::{
    Basis, Classification, ModelsReply, Probe, ProbeReplies, Provider, ProviderModel, RuntimeType,
    StepResult, WorkerKind, WorkerWorkflowData, WorkflowError,
};
use crate::json;
use crate::json::JsonModel;
use crate::json_laws;
use vstd::prelude::*;

verus! {

/// A worker becomes external only where the gateway admits external workers,
/// and only by an explicit external runtime or the URL of a known provider.
pub proof fn law_external_only_when_admitted(
    before: WorkerWorkflowData,
    after: WorkerWorkflowData,
    result: Result<StepResult, WorkflowError>,
)
    requires
        classify::is_executed(before, after, result),
        result is Ok,
        after.worker_kind == Some(WorkerKind::External),
    ensures
        before.app_context matches Some(context) && context.providers_enabled,
        before.config.runtime_type == RuntimeType::External || (before.config.runtime_type
            == RuntimeType::Unspecified && classify::url_provider(before.config.url@) is Some),
{
}

/// Where external workers are not admitted, an explicit external runtime and
/// the URL of a known provider alike fail the step, and the worker is left
/// unclassified as it came.
pub proof fn law_external_refused_when_not_admitted(
    before: WorkerWorkflowData,
    after: WorkerWorkflowData,
    result: Result<StepResult, WorkflowError>,
)
    requires
        classify::is_executed(before, after, result),
        !(before.app_context matches Some(context) && context.providers_enabled),
        before.config.runtime_type == RuntimeType::External || (before.config.runtime_type
            == RuntimeType::Unspecified && classify::url_provider(before.config.url@) is Some),
    ensures
        result matches Err(error) && classify::is_providers_disabled(error, before.config.url@),
        result matches Err(WorkflowError::StepFailed { step_id, message }) && step_id@
            == "classify_worker_type"@ && message@ == "worker "@ + before.config.url@
            + " targets a third-party provider, but provider routing is disabled; start the gateway with --enable-providers to admit external workers"@,
        after == before,
{
}

/// Without an application context the verdict fails closed: no worker is
/// classified as external.
pub proof fn law_no_context_fails_closed(
    before: WorkerWorkflowData,
    after: WorkerWorkflowData,
    result: Result<StepResult, WorkflowError>,
)
    requires
        classify::is_executed(before, after, result),
        before.app_context is None,
        result is Ok,
    ensures
        after.worker_kind == Some(WorkerKind::Local),
{
}

/// A worker of an unspecified runtime whose URL names no known provider is
/// local, whatever its probes answer, as long as there is a context to probe
/// with.
pub proof fn law_unknown_worker_defaults_to_local(
    before: WorkerWorkflowData,
    after: WorkerWorkflowData,
    result: Result<StepResult, WorkflowError>,
)
    requires
        classify::is_executed(before, after, result),
        before.config.runtime_type == RuntimeType::Unspecified,
        classify::url_provider(before.config.url@) is None,
        before.app_context is Some,
    ensures
        result is Ok,
        after.worker_kind == Some(WorkerKind::Local),
{
}

/// An explicit runtime is classified immediately: no probe is asked for.
pub proof fn law_explicit_runtime_needs_no_probe(
    before: WorkerWorkflowData,
    after: WorkerWorkflowData,
    state: Classification,
)
    requires
        classify::is_begun(before, after, state),
        before.config.runtime_type != RuntimeType::Unspecified,
    ensures
        classify::probes_left(state) == 0,
        state is Classified || state is Failed,
{
}

/// A step that fails leaves the worker's workflow as it was, and one that does
/// not changes nothing in it but the worker's kind.
pub proof fn law_step_touches_only_the_kind(
    before: WorkerWorkflowData,
    after: WorkerWorkflowData,
    result: Result<StepResult, WorkflowError>,
)
    requires
        classify::is_executed(before, after, result),
    ensures
        after.config == before.config,
        after.app_context == before.app_context,
        result is Ok ==> after.worker_kind is Some,
        result is Err ==> after == before,
{
}

/// The outcome of the step is settled by what it begins with: two runs on the
/// same workflow, whatever their probes answer, end in the same workflow, and
/// both well or both not.
pub proof fn law_probes_do_not_change_the_outcome(
    before: WorkerWorkflowData,
    after1: WorkerWorkflowData,
    result1: Result<StepResult, WorkflowError>,
    after2: WorkerWorkflowData,
    result2: Result<StepResult, WorkflowError>,
)
    requires
        classify::is_executed(before, after1, result1),
        classify::is_executed(before, after2, result2),
    ensures
        after1 == after2,
        result1 is Ok <==> result2 is Ok,
{
}

/// A step that is taken probe by probe comes to what the whole step gives: it
/// either ends before any probe, or it is untouched until a probe or the
/// default classifies the worker as local.
pub proof fn law_probing_executes_the_step(
    before: WorkerWorkflowData,
    middle: WorkerWorkflowData,
    state: Classification,
)
    requires
        classify::is_begun(before, middle, state),
    ensures
        match state {
            Classification::Classified(_) => classify::is_executed(
                before,
                middle,
                Ok(StepResult::Success),
            ),
            Classification::Failed(error) => classify::is_executed(before, middle, Err(error)),
            _ => state is ProbeHealth && middle == before && classify::is_executed(
                before,
                classify::with_kind(middle, WorkerKind::Local),
                Ok(StepResult::Success),
            ),
        },
{
}

/// The probes of a worker run in order, each to the configured URL with the
/// probe's timeout: `/health` where no explicit runtime and no provider URL
/// decides and there is a context, gRPC health where `/health` fails, and
/// `/v1/models` where both fail. The first that succeeds ends the probing, and
/// the last ends it in any case.
pub proof fn law_probes_run_in_order(
    before: WorkerWorkflowData,
    health: bool,
    grpc: bool,
    models: ModelsReply,
    data0: WorkerWorkflowData,
    state0: Classification,
    data1: WorkerWorkflowData,
    state1: Classification,
    data2: WorkerWorkflowData,
    state2: Classification,
    data3: WorkerWorkflowData,
    state3: Classification,
)
    requires
        classify::is_begun(before, data0, state0),
        state0 is ProbeHealth ==> classify::is_after_health(data0, health, data1, state1),
        state0 is ProbeHealth && state1 is ProbeGrpc ==> classify::is_after_grpc(
            data1,
            grpc,
            data2,
            state2,
        ),
        state0 is ProbeHealth && state1 is ProbeGrpc && state2 is ProbeModels
            ==> classify::is_after_models(data2, models, data3, state3),
    ensures
        state0 is ProbeHealth <==> before.config.runtime_type == RuntimeType::Unspecified
            && classify::url_provider(before.config.url@) is None && before.app_context is Some,
        !(state0 is ProbeHealth) ==> state0 is Classified || state0 is Failed,
        state0 matches Classification::ProbeHealth(probe) ==> classify::is_probe_of(probe, before),
        state0 is ProbeHealth ==> {
            &&& health ==> state1 is Classified
            &&& !health ==> (state1 matches Classification::ProbeGrpc(probe)
                && classify::is_probe_of(probe, before))
            &&& !health && grpc ==> state2 is Classified
            &&& !health && !grpc ==> (state2 matches Classification::ProbeModels(probe)
                && classify::is_probe_of(probe, before))
            &&& !health && !grpc ==> state3 is Classified && data2.config == before.config
        },
{
}

/// An explicit runtime that is not external makes the worker local, whether or
/// not there is a context and whether or not it admits external workers: the
/// step never refuses such a worker.
pub proof fn law_explicit_local_runtime_is_local(
    before: WorkerWorkflowData,
    after: WorkerWorkflowData,
    result: Result<StepResult, WorkflowError>,
)
    requires
        classify::is_executed(before, after, result),
        before.config.runtime_type != RuntimeType::Unspecified,
        before.config.runtime_type != RuntimeType::External,
    ensures
        result matches Ok(StepResult::Success),
        after.worker_kind == Some(WorkerKind::Local),
        after.config == before.config,
        after.app_context == before.app_context,
{
}

/// Where external workers are admitted, an explicit external runtime and the
/// URL of a known provider alike make the worker external.
pub proof fn law_external_admitted_when_enabled(
    before: WorkerWorkflowData,
    after: WorkerWorkflowData,
    result: Result<StepResult, WorkflowError>,
)
    requires
        classify::is_executed(before, after, result),
        before.app_context matches Some(context) && context.providers_enabled,
        before.config.runtime_type == RuntimeType::External || (before.config.runtime_type
            == RuntimeType::Unspecified && classify::url_provider(before.config.url@) is Some),
    ensures
        result matches Ok(StepResult::Success),
        after.worker_kind == Some(WorkerKind::External),
        after.config == before.config,
        after.app_context == before.app_context,
{
}

/// A worker that would have to be probed fails the step where there is no
/// context to probe with.
pub proof fn law_unknown_worker_needs_a_context(
    before: WorkerWorkflowData,
    after: WorkerWorkflowData,
    result: Result<StepResult, WorkflowError>,
)
    requires
        classify::is_executed(before, after, result),
        before.config.runtime_type == RuntimeType::Unspecified,
        classify::url_provider(before.config.url@) is None,
        before.app_context is None,
    ensures
        result matches Err(WorkflowError::ContextValueNotFound(name)) && name@ == "app_context"@,
        after == before,
{
}

/// The switch for external workers decides about external workers alone: two
/// workflows that differ in nothing else come to the same kind wherever neither
/// an external runtime nor the URL of a known provider is involved.
pub proof fn law_switch_leaves_local_workers_alone(
    before1: WorkerWorkflowData,
    after1: WorkerWorkflowData,
    result1: Result<StepResult, WorkflowError>,
    before2: WorkerWorkflowData,
    after2: WorkerWorkflowData,
    result2: Result<StepResult, WorkflowError>,
)
    requires
        classify::is_executed(before1, after1, result1),
        classify::is_executed(before2, after2, result2),
        before1.config == before2.config,
        before1.app_context is Some,
        before2.app_context is Some,
        before1.config.runtime_type != RuntimeType::External,
        before1.config.runtime_type == RuntimeType::Unspecified ==> classify::url_provider(
            before1.config.url@,
        ) is None,
    ensures
        result1 is Ok,
        result2 is Ok,
        after1.worker_kind == after2.worker_kind,
{
}

/// What an explicit runtime is classified as before any probe, with the runtime
/// itself as the evidence.
pub proof fn law_explicit_runtime_decides(
    before: WorkerWorkflowData,
    after: WorkerWorkflowData,
    state: Classification,
)
    requires
        classify::is_begun(before, after, state),
        before.config.runtime_type != RuntimeType::Unspecified,
    ensures
        after.config == before.config,
        after.app_context == before.app_context,
        before.config.runtime_type != RuntimeType::External ==> state
            == Classification::Classified(Basis::Runtime) && after.worker_kind == Some(
            WorkerKind::Local,
        ),
        before.config.runtime_type == RuntimeType::External ==> (if before.app_context matches Some(
            context,
        ) && context.providers_enabled {
            state == Classification::Classified(Basis::Runtime) && after.worker_kind == Some(
                WorkerKind::External,
            )
        } else {
            after == before && (state matches Classification::Failed(WorkflowError::StepFailed {
                step_id,
                message,
            }) && step_id@ == "classify_worker_type"@ && message@ == "worker "@ + before.config.url@
                + " targets a third-party provider, but provider routing is disabled; start the gateway with --enable-providers to admit external workers"@)
        }),
{
}

/// A worker of an unspecified runtime goes by the provider that its URL names,
/// and without one is probed, at the configured URL for at most two seconds,
/// where there is a context. Until a kind is found, nothing changes.
pub proof fn law_unspecified_runtime_goes_by_the_url(
    before: WorkerWorkflowData,
    provider: Option<ProviderModel>,
    after: WorkerWorkflowData,
    state: Classification,
)
    requires
        classify::is_unspecified_outcome(before, provider, after, state) || (
        classify::is_begun(before, after, state) && before.config.runtime_type
            == RuntimeType::Unspecified && provider == classify::url_provider(before.config.url@)),
    ensures
        after.config == before.config,
        after.app_context == before.app_context,
        provider matches Some(p) ==> (if before.app_context matches Some(context)
            && context.providers_enabled {
            (state matches Classification::Classified(Basis::ProviderUrl(named)) && named@ == p)
                && after.worker_kind == Some(WorkerKind::External)
        } else {
            after == before && (state matches Classification::Failed(WorkflowError::StepFailed {
                step_id,
                message,
            }) && step_id@ == "classify_worker_type"@ && message@ == "worker "@ + before.config.url@
                + " targets a third-party provider, but provider routing is disabled; start the gateway with --enable-providers to admit external workers"@)
        }),
        provider is None ==> after == before,
        provider is None && before.app_context is Some ==> (
        state matches Classification::ProbeHealth(probe) && probe.url@ == before.config.url@
            && probe.timeout_secs == 2),
        provider is None && before.app_context is None ==> (state matches Classification::Failed(
            WorkflowError::ContextValueNotFound(name),
        ) && name@ == "app_context"@),
{
}

/// A probe goes to the configured URL and may take two seconds; two probes of
/// one worker are alike.
pub proof fn law_probes_are_alike(probe: Probe, other: Probe, data: WorkerWorkflowData)
    requires
        classify::is_probe_of(probe, data),
    ensures
        probe.url@ == data.config.url@,
        probe.timeout_secs == 2,
        classify::is_probe_of(other, data) <==> other.url@ == probe.url@ && other.timeout_secs
            == probe.timeout_secs,
{
}

/// A probe that answers makes the worker local on its evidence; one that does
/// not leaves the worker as it was and leads on to the next probe, of the same
/// endpoint.
pub proof fn law_probe_answers_decide(
    before: WorkerWorkflowData,
    reachable: bool,
    after: WorkerWorkflowData,
    state: Classification,
)
    ensures
        classify::is_after_health(before, reachable, after, state) && reachable ==> state
            == Classification::Classified(Basis::Health),
        classify::is_after_grpc(before, reachable, after, state) && reachable ==> state
            == Classification::Classified(Basis::Grpc),
        classify::is_after_health(before, reachable, after, state) && !reachable ==> (
        state matches Classification::ProbeGrpc(probe) && probe.url@ == before.config.url@
            && probe.timeout_secs == 2),
        classify::is_after_grpc(before, reachable, after, state) && !reachable ==> (
        state matches Classification::ProbeModels(probe) && probe.url@ == before.config.url@
            && probe.timeout_secs == 2),
        classify::is_after_health(before, reachable, after, state) || classify::is_after_grpc(
            before,
            reachable,
            after,
            state,
        ) ==> {
            &&& after.config == before.config
            &&& after.app_context == before.app_context
            &&& after.worker_kind == if reachable {
                Some(WorkerKind::Local)
            } else {
                before.worker_kind
            }
        },
{
}

/// The answer of `/v1/models` ends the probing: the worker is local, and the
/// evidence is the backend that the answer names, where it names one.
pub proof fn law_models_answer_ends_the_probing(
    before: WorkerWorkflowData,
    reply: ModelsReply,
    after: WorkerWorkflowData,
    state: Classification,
)
    requires
        classify::is_after_models(before, reply, after, state),
    ensures
        after.worker_kind == Some(WorkerKind::Local),
        after.config == before.config,
        after.app_context == before.app_context,
        match classify::backend_in(reply) {
            Some(backend) => state matches Classification::Classified(Basis::Models(named))
                && named@ == backend,
            None => state == Classification::Classified(Basis::Default),
        },
{
}

/// The evidence of a probed worker is the first probe that answered: `/health`,
/// then gRPC health, then the backend that `/v1/models` names; later answers do
/// not count.
pub proof fn law_first_answer_is_the_evidence(
    before: WorkerWorkflowData,
    replies: ProbeReplies,
    after: WorkerWorkflowData,
    state: Classification,
)
    requires
        classify::is_settled(before, replies, after, state),
        before.config.runtime_type == RuntimeType::Unspecified,
        classify::url_provider(before.config.url@) is None,
        before.app_context is Some,
    ensures
        after.worker_kind == Some(WorkerKind::Local),
        after.config == before.config,
        after.app_context == before.app_context,
        replies.health ==> state == Classification::Classified(Basis::Health),
        !replies.health && replies.grpc ==> state == Classification::Classified(Basis::Grpc),
        !replies.health && !replies.grpc ==> match classify::backend_in(replies.models) {
            Some(backend) => state matches Classification::Classified(Basis::Models(named))
                && named@ == backend,
            None => state == Classification::Classified(Basis::Default),
        },
{
}

/// Where the runtime, the URL of a known provider or a missing context decides,
/// the answers of probes change nothing: the step settles on what it began with.
pub proof fn law_decided_worker_is_not_probed(
    before: WorkerWorkflowData,
    replies: ProbeReplies,
    after: WorkerWorkflowData,
    state: Classification,
)
    requires
        classify::is_settled(before, replies, after, state),
        before.config.runtime_type != RuntimeType::Unspecified || classify::url_provider(
            before.config.url@,
        ) is Some || before.app_context is None,
    ensures
        classify::is_begun(before, after, state),
        state is Classified || state is Failed,
{
}

/// The owner read from a listing is the `owned_by` text of the entry that comes
/// first under `data`, whatever else the listing, its first entry or the
/// entries after it hold.
pub proof fn law_owner_is_read_from_the_first_entry(
    listing: Seq<(Seq<char>, JsonModel)>,
    i: int,
    models: Seq<JsonModel>,
    fields: Seq<(Seq<char>, JsonModel)>,
    k: int,
    owner: Seq<char>,
)
    requires
        0 <= i < listing.len(),
        listing[i] == ("data"@, JsonModel::List(models)),
        forall|j: int| 0 <= j < i ==> (#[trigger] listing[j]).0 != "data"@,
        models.len() > 0,
        models[0] == JsonModel::Object(fields),
        0 <= k < fields.len(),
        fields[k] == ("owned_by"@, JsonModel::Text(owner)),
        forall|j: int| 0 <= j < k ==> (#[trigger] fields[j]).0 != "owned_by"@,
    ensures
        classify::first_owner(JsonModel::Object(listing)) == Some(owner),
{
    json_laws::law_field_is_the_first_entry(listing, "data"@, i);
    json_laws::law_field_is_the_first_entry(fields, "owned_by"@, k);
}

/// An owner is read from nowhere else: where one is, the listing has a list
/// that is not empty under `data`, and its first entry has the owner as a text
/// under `owned_by`.
pub proof fn law_owner_has_a_source(listing: JsonModel)
    ensures
        classify::first_owner(listing) matches Some(owner) ==> (json::field(
            listing,
            "data"@,
        ) matches Some(JsonModel::List(models)) && models.len() > 0 && json::field(
            models[0],
            "owned_by"@,
        ) == Some(JsonModel::Text(owner))),
{
}

/// The owner depends on the first entry alone: two listings whose lists begin
/// with the same entry give the same owner and the same backend, however many
/// entries follow.
pub proof fn law_later_entries_do_not_count(listing1: JsonModel, listing2: JsonModel)
    requires
        json::field(listing1, "data"@) matches Some(JsonModel::List(models1)) && models1.len() > 0
            && (json::field(listing2, "data"@) matches Some(JsonModel::List(models2))
            && models2.len() > 0 && models1[0] == models2[0]),
    ensures
        classify::first_owner(listing1) == classify::first_owner(listing2),
        classify::backend_of_owner(classify::first_owner(listing1)) == classify::backend_of_owner(
            classify::first_owner(listing2),
        ),
{
}

/// The owners by which a local backend is recognised are these four.
pub proof fn law_four_owners_are_local(owner: Seq<char>)
    ensures
        classify::local_owners().contains(owner) <==> owner == "sglang"@ || owner == "vllm"@ || owner
            == "trtllm"@ || owner == "nvidia"@,
{
    let owners = classify::local_owners();
    assert(owners[0] == "sglang"@ && owners[1] == "vllm"@ && owners[2] == "trtllm"@ && owners[3]
        == "nvidia"@);
}

/// An owner names a backend if and only if its lower-case form is one of the
/// four, and the backend is that form.
pub proof fn law_backend_is_the_owner_in_lower_case(owner: Seq<char>, lower: Seq<char>)
    requires
        lower == classify::lower_case(owner),
    ensures
        classify::backend_of_owner(Some(owner)) == if lower == "sglang"@ || lower == "vllm"@ || lower
            == "trtllm"@ || lower == "nvidia"@ {
            Some(lower)
        } else {
            None
        },
        classify::backend_of_owner(None) is None,
{
    law_four_owners_are_local(lower);
}

/// Whether `owner` spells `name`, which is in small ASCII letters, with each
/// letter small or capital.
pub open spec fn spells(owner: Seq<char>, name: Seq<char>) -> bool {
    &&& owner.len() == name.len()
    &&& forall|i: int|
        0 <= i < name.len() ==> owner[i] == #[trigger] name[i] || owner[i] as int + 32
            == name[i] as int
}

/// An owner in ASCII names one of the four backends if and only if it spells
/// it, in small letters, capitals or both.
pub proof fn law_ascii_owner_in_any_case_names_the_backend(owner: Seq<char>, name: Seq<char>)
    requires
        name == "sglang"@ || name == "vllm"@ || name == "trtllm"@ || name == "nvidia"@,
    ensures
        classify::backend_of_ascii(owner) == Some(name) <==> spells(owner, name),
{
    law_four_owners_are_local(name);
    reveal_strlit("sglang");
    reveal_strlit("vllm");
    reveal_strlit("trtllm");
    reveal_strlit("nvidia");
    assert forall|i: int| 0 <= i < name.len() implies 'a' <= #[trigger] name[i] <= 'z' by {}
    let small = classify::small_letters(owner);
    if spells(owner, name) {
        assert forall|i: int| 0 <= i < name.len() implies small[i] == name[i] by {
            assert('a' <= name[i] <= 'z');
        }
        assert(small =~= name);
    }
    if small == name {
        assert forall|i: int| 0 <= i < name.len() implies owner[i] == #[trigger] name[i]
            || owner[i] as int + 32 == name[i] as int by {
            assert(small[i] == name[i]);
        }
    }
}

/// An owner in ASCII names no backend but the four.
pub proof fn law_ascii_owner_names_nothing_else(owner: Seq<char>)
    ensures
        classify::backend_of_ascii(owner) matches Some(name) ==> name == "sglang"@ || name
            == "vllm"@ || name == "trtllm"@ || name == "nvidia"@,
{
    law_four_owners_are_local(classify::small_letters(owner));
}

/// An answer names an owner only by the document in its body: any status but an
/// error of the server will do, and a failed request, an error of the server,
/// an unreadable body and a body that is no document name none.
pub proof fn law_owner_comes_from_the_body(status: u16, body: Option<Vec<u8>>)
    ensures
        classify::owner_in(ModelsReply::NoAnswer) is None,
        500 <= status <= 599 ==> classify::owner_in(ModelsReply::Answer { status, body }) is None,
        body is None ==> classify::owner_in(ModelsReply::Answer { status, body }) is None,
        body matches Some(bytes) ==> json::document(bytes@) is None ==> classify::owner_in(
            ModelsReply::Answer { status, body },
        ) is None,
        body matches Some(bytes) ==> json::document(bytes@) matches Some(listing) ==> !(500
            <= status <= 599) ==> classify::owner_in(ModelsReply::Answer { status, body })
            == classify::first_owner(listing),
        classify::backend_in(ModelsReply::Answer { status, body }) == classify::backend_of_owner(
            classify::owner_in(ModelsReply::Answer { status, body }),
        ),
        classify::backend_in(ModelsReply::NoAnswer) is None,
{
}

/// An optional text stands for its characters, and a missing one for none.
pub proof fn law_optional_text_keeps_its_characters(text: Option<String>)
    ensures
        match text {
            Some(t) => classify::text_of(text) == Some(t@),
            None => classify::text_of(text) is None,
        },
{
}

/// A provider stands for itself, and a custom one for its name.
pub proof fn law_provider_stands_for_itself(provider: Provider)
    ensures
        provider is OpenAI <==> provider@ is OpenAI,
        provider is XAI <==> provider@ is XAI,
        provider is Anthropic <==> provider@ is Anthropic,
        provider is Gemini <==> provider@ is Gemini,
        provider matches Provider::Custom(name) ==> provider@ == ProviderModel::Custom(name@),
{
}

} // verus!
