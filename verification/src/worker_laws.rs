//! What the mock worker sends, message by message.

use vstd::prelude::*;

use crate::event_laws::law_member_under_a_key;
use crate::json::member;
use crate::json::JsonView;
use crate::protocol::CapabilityJob;
use crate::protocol::Envelope;
use crate::protocol::InferenceJob;
use crate::protocol::WorkerPayload;
use crate::request_laws::law_form_of_a_message;
use crate::text::joined;
use crate::text::split_behind;
use crate::text::texts;
use crate::text_laws::law_pieces_behind;
use crate::worker::echo_message;
use crate::worker::echo_response;
use crate::worker::is_registration;
use crate::worker::is_telemetry;
use crate::worker::mock_response;
use crate::worker::prompt_of;
use crate::worker::replies_to;
use crate::worker::sends;
use crate::worker::sends_all;
use crate::worker::starts_job;
use crate::worker::worker_step;
use crate::worker::MockWorker;
use crate::worker::Outgoing;
use crate::worker::ReplyView;
use crate::worker::WorkerInput;
use crate::worker::WorkerStep;

verus! {

/// The texts of the pieces of a chat completion in the first `n` messages.
pub open spec fn chat_pieces(outgoing: Seq<Outgoing>, n: int) -> Seq<Seq<char>> {
    Seq::new(n as nat, |i: int| outgoing[i].envelope.payload->JobDelta_0.content@)
}

/// The mock worker answers a chat completion with pieces and then the end: the pieces
/// are cut behind each space, each is sent under the job's id with a pause behind it,
/// and together they are the worker's words and the last message of the chat.
pub proof fn law_mock_answers_a_chat(
    worker_id: Seq<char>,
    job: InferenceJob,
    outgoing: Seq<Outgoing>,
)
    requires
        sends_all(outgoing, replies_to(worker_id, "job.start"@, WorkerPayload::JobStart(job))),
    ensures
        outgoing.len() > 0,
        forall|i: int|
            0 <= i < outgoing.len() ==> (#[trigger] outgoing[i]).envelope.v == 1
                && outgoing[i].envelope.id@.len() == 40 && outgoing[i].envelope.id@.take(4)
                == "msg_"@,
        forall|i: int|
            0 <= i < outgoing.len() - 1 ==> {
                &&& (#[trigger] outgoing[i]).envelope.kind@ == "job.delta"@
                &&& outgoing[i].envelope.payload is JobDelta
                &&& outgoing[i].envelope.payload->JobDelta_0.job_id@ == job.job_id@
                &&& outgoing[i].pause_ms == 120
            },
        ({
            let pieces = chat_pieces(outgoing, outgoing.len() - 1);
            &&& joined(pieces) == "Mock response to: "@ + if job.messages@.len() == 0 {
                Seq::<char>::empty()
            } else {
                job.messages@[job.messages@.len() - 1].content@
            }
            &&& forall|i: int| 0 <= i < pieces.len() ==> (#[trigger] pieces[i]).len() > 0
            &&& forall|i: int, k: int|
                0 <= i < pieces.len() && 0 <= k < pieces[i].len() - 1 ==> #[trigger] pieces[i][k]
                    != ' '
            &&& forall|i: int|
                0 <= i < pieces.len() - 1 ==> (#[trigger] pieces[i]).last() == ' '
        }),
        outgoing.last().envelope.kind@ == "job.finish"@,
        outgoing.last().envelope.payload is JobFinish,
        outgoing.last().envelope.payload->JobFinish_0.job_id@ == job.job_id@,
        outgoing.last().envelope.payload->JobFinish_0.finish_reason@ == "stop"@,
        outgoing.last().pause_ms == 0,
{
    let replies = replies_to(worker_id, "job.start"@, WorkerPayload::JobStart(job));
    let cut = split_behind(mock_response(prompt_of(job)), ' ');
    assert(replies.len() == cut.len() + 1);
    lemma_all_are_messages(outgoing, replies);
    assert forall|i: int| 0 <= i < outgoing.len() - 1 implies {
        &&& (#[trigger] outgoing[i]).envelope.kind@ == "job.delta"@
        &&& outgoing[i].envelope.payload is JobDelta
        &&& outgoing[i].envelope.payload->JobDelta_0.job_id@ == job.job_id@
        &&& outgoing[i].envelope.payload->JobDelta_0.content@ == cut[i]
        &&& outgoing[i].pause_ms == 120
    } by {
        assert(sends(outgoing[i], replies[i]));
    }
    assert(sends(outgoing[outgoing.len() - 1], replies[outgoing.len() - 1]));
    assert(chat_pieces(outgoing, outgoing.len() - 1) =~= cut);
    law_pieces_behind(mock_response(prompt_of(job)), ' ');
}

/// What sends a reply is a message of the worker.
proof fn lemma_all_are_messages(
    outgoing: Seq<Outgoing>,
    replies: Seq<ReplyView>,
)
    requires
        sends_all(outgoing, replies),
    ensures
        outgoing.len() == replies.len(),
        forall|i: int|
            0 <= i < outgoing.len() ==> (#[trigger] outgoing[i]).envelope.v == 1
                && outgoing[i].envelope.id@.len() == 40 && outgoing[i].envelope.id@.take(4)
                == "msg_"@,
{
    assert forall|i: int| 0 <= i < outgoing.len() implies (#[trigger] outgoing[i]).envelope.v == 1
        && outgoing[i].envelope.id@.len() == 40 && outgoing[i].envelope.id@.take(4) == "msg_"@ by {
        assert(sends(outgoing[i], replies[i]));
        law_form_of_a_message(outgoing[i].envelope, outgoing[i].envelope.kind@);
    }
}

/// The texts of the pieces of an echo in the first `n` messages.
pub open spec fn echo_pieces(outgoing: Seq<Outgoing>, n: int) -> Seq<Seq<char>> {
    Seq::new(
        n as nat,
        |i: int| outgoing[i].envelope.payload->CapabilityDelta_0.data@->Object_0[0].1->Text_0,
    )
}

/// The text that the echo is asked for: what stands as a text under `message` in the
/// input, first of all that stand there, and nothing where none does.
pub proof fn law_text_to_echo(members: Seq<(Seq<char>, JsonView)>, i: int, t: Seq<char>)
    ensures
        0 <= i < members.len() && members[i] == ("message"@, JsonView::Text(t)) && (forall|j: int|
            0 <= j < i ==> (#[trigger] members[j]).0 != "message"@) ==> echo_message(
            JsonView::Object(members),
        ) == t,
        (forall|j: int| 0 <= j < members.len() ==> (#[trigger] members[j]).0 != "message"@)
            ==> echo_message(JsonView::Object(members)) == Seq::<char>::empty(),
        0 <= i < members.len() && members[i].0 == "message"@ && !(members[i].1 is Text) && (forall|
            j: int,
        |
            0 <= j < i ==> (#[trigger] members[j]).0 != "message"@) ==> echo_message(
            JsonView::Object(members),
        ) == Seq::<char>::empty(),
        forall|input: JsonView|
            !(input is Object) ==> #[trigger] echo_message(input) == Seq::<char>::empty(),
{
    law_member_under_a_key(members, "message"@, i);
    assert forall|input: JsonView| !(input is Object) implies #[trigger] echo_message(input)
        == Seq::<char>::empty() by {
        assert(member(input, "message"@) == None::<JsonView>);
    }
}

/// The mock worker answers the echo with pieces and then the output: the pieces are
/// cut behind each space, each is sent under `chunk` with a pause behind it, together
/// they are the worker's words and the text to echo, and the output holds these and
/// the worker's id.
pub proof fn law_mock_answers_the_echo(
    worker_id: Seq<char>,
    job: CapabilityJob,
    outgoing: Seq<Outgoing>,
)
    requires
        job.capability@ == "run_echo"@,
        sends_all(
            outgoing,
            replies_to(worker_id, "capability.start"@, WorkerPayload::CapabilityStart(job)),
        ),
    ensures
        outgoing.len() > 0,
        forall|i: int|
            0 <= i < outgoing.len() ==> (#[trigger] outgoing[i]).envelope.v == 1
                && outgoing[i].envelope.id@.len() == 40 && outgoing[i].envelope.id@.take(4)
                == "msg_"@,
        forall|i: int|
            0 <= i < outgoing.len() - 1 ==> {
                &&& (#[trigger] outgoing[i]).envelope.kind@ == "capability.delta"@
                &&& outgoing[i].envelope.payload is CapabilityDelta
                &&& outgoing[i].envelope.payload->CapabilityDelta_0.job_id@ == job.job_id@
                &&& outgoing[i].envelope.payload->CapabilityDelta_0.data@ == JsonView::Object(
                    seq![
                        (
                            "chunk"@,
                            JsonView::Text(echo_pieces(outgoing, outgoing.len() - 1)[i]),
                        ),
                    ],
                )
                &&& outgoing[i].pause_ms == 120
            },
        ({
            let pieces = echo_pieces(outgoing, outgoing.len() - 1);
            &&& joined(pieces) == "private worker echo: "@ + echo_message(job.input@)
            &&& forall|i: int| 0 <= i < pieces.len() ==> (#[trigger] pieces[i]).len() > 0
            &&& forall|i: int, k: int|
                0 <= i < pieces.len() && 0 <= k < pieces[i].len() - 1 ==> #[trigger] pieces[i][k]
                    != ' '
            &&& forall|i: int|
                0 <= i < pieces.len() - 1 ==> (#[trigger] pieces[i]).last() == ' '
        }),
        outgoing.last().envelope.kind@ == "capability.finish"@,
        outgoing.last().envelope.payload is CapabilityFinish,
        outgoing.last().envelope.payload->CapabilityFinish_0.job_id@ == job.job_id@,
        outgoing.last().envelope.payload->CapabilityFinish_0.output@ == JsonView::Object(
            seq![
                (
                    "message"@,
                    JsonView::Text("private worker echo: "@ + echo_message(job.input@)),
                ),
                ("worker"@, JsonView::Text(worker_id)),
            ],
        ),
        outgoing.last().pause_ms == 0,
{
    let payload = WorkerPayload::CapabilityStart(job);
    let replies = replies_to(worker_id, "capability.start"@, payload);
    let response = echo_response(echo_message(job.input@));
    let cut = split_behind(response, ' ');
    assert(replies.len() == cut.len() + 1);
    lemma_all_are_messages(outgoing, replies);
    assert forall|i: int| 0 <= i < outgoing.len() - 1 implies {
        &&& (#[trigger] outgoing[i]).envelope.kind@ == "capability.delta"@
        &&& outgoing[i].envelope.payload is CapabilityDelta
        &&& outgoing[i].envelope.payload->CapabilityDelta_0.job_id@ == job.job_id@
        &&& outgoing[i].envelope.payload->CapabilityDelta_0.data@ == JsonView::Object(
            seq![("chunk"@, JsonView::Text(cut[i]))],
        )
        &&& outgoing[i].pause_ms == 120
    } by {
        assert(sends(outgoing[i], replies[i]));
    }
    assert(sends(outgoing[outgoing.len() - 1], replies[outgoing.len() - 1]));
    assert(echo_pieces(outgoing, outgoing.len() - 1) =~= cut);
    law_pieces_behind(response, ' ');
}

/// The mock worker turns down, each with one message and without a pause, a capability
/// that is not the echo and a chat completion under another type; to every other
/// message it answers nothing.
pub proof fn law_mock_turns_down_the_rest(
    worker_id: Seq<char>,
    kind: Seq<char>,
    payload: WorkerPayload,
    outgoing: Seq<Outgoing>,
)
    requires
        sends_all(outgoing, replies_to(worker_id, kind, payload)),
    ensures
        payload is CapabilityStart && kind == "capability.start"@
            && payload->CapabilityStart_0.capability@ != "run_echo"@ ==> {
            &&& outgoing.len() == 1
            &&& outgoing[0].envelope.kind@ == "capability.error"@
            &&& outgoing[0].envelope.payload is CapabilityError
            &&& outgoing[0].envelope.payload->CapabilityError_0.job_id@
                == payload->CapabilityStart_0.job_id@
            &&& outgoing[0].envelope.payload->CapabilityError_0.message@
                == "unsupported capability"@
            &&& outgoing[0].envelope.v == 1
            &&& outgoing[0].envelope.id@.take(4) == "msg_"@
            &&& outgoing[0].pause_ms == 0
        },
        payload is JobStart && kind != "job.start"@ ==> {
            &&& outgoing.len() == 1
            &&& outgoing[0].envelope.kind@ == "job.error"@
            &&& outgoing[0].envelope.payload is JobError
            &&& outgoing[0].envelope.payload->JobError_0.job_id@ == payload->JobStart_0.job_id@
            &&& outgoing[0].envelope.payload->JobError_0.message@ == "unexpected job envelope"@
            &&& outgoing[0].envelope.v == 1
            &&& outgoing[0].envelope.id@.take(4) == "msg_"@
            &&& outgoing[0].pause_ms == 0
        },
        payload is CapabilityStart && kind != "capability.start"@ ==> outgoing.len() == 0,
        !(payload is JobStart) && !(payload is CapabilityStart) ==> outgoing.len() == 0,
{
    let replies = replies_to(worker_id, kind, payload);
    lemma_all_are_messages(outgoing, replies);
    if replies.len() == 1 {
        assert(sends(outgoing[0], replies[0]));
    }
}

/// What the mock worker does about what its connection brings: at its time one message
/// of telemetry, the answers to a message, nothing for what is no text, and the end
/// of the connection for a failure and for what is no message.
pub proof fn law_steps_of_the_mock_worker(
    worker: MockWorker,
    input: WorkerInput,
    step: WorkerStep,
)
    requires
        worker_step(worker, input, step),
    ensures
        step is Fail <==> input is Failed || input is Invalid,
        input is NotText ==> step->Send_0@.len() == 0,
        input is Tick ==> {
            &&& step->Send_0@.len() == 1
            &&& step->Send_0@[0].envelope.kind@ == "worker.telemetry"@
            &&& step->Send_0@[0].envelope.payload is Telemetry
            &&& step->Send_0@[0].envelope.payload->Telemetry_0.active_jobs == worker.active_jobs
            &&& step->Send_0@[0].pause_ms == 0
        },
        input matches WorkerInput::Message(envelope) ==> sends_all(
            step->Send_0@,
            replies_to(worker.worker_id@, envelope.kind@, envelope.payload),
        ),
{
}

/// Telemetry of the mock worker tells its number of jobs, no queue, 42 tokens per
/// second (by its bit pattern) and that it is healthy.
pub proof fn law_mock_telemetry(envelope: Envelope<WorkerPayload>, active_jobs: usize)
    requires
        is_telemetry(envelope, active_jobs),
    ensures
        envelope.v == 1,
        envelope.kind@ == "worker.telemetry"@,
        envelope.id@.len() == 40,
        envelope.id@.take(4) == "msg_"@,
        envelope.payload is Telemetry,
        envelope.payload->Telemetry_0.active_jobs == active_jobs,
        envelope.payload->Telemetry_0.queued_jobs == 0,
        envelope.payload->Telemetry_0.tokens_per_second is Some,
        envelope.payload->Telemetry_0.tokens_per_second->0.bits == 0x4045_0000_0000_0000,
        envelope.payload->Telemetry_0.healthy,
{
    law_form_of_a_message(envelope, "worker.telemetry"@);
}

/// The mock worker registers under its id, with room for four jobs, one model under
/// its id and two aliases, and the echo with the schema of its input.
pub proof fn law_mock_registration(envelope: Envelope<WorkerPayload>, worker_id: Seq<char>)
    requires
        is_registration(envelope, worker_id),
    ensures
        envelope.v == 1,
        envelope.kind@ == "worker.register"@,
        envelope.id@.len() == 40,
        envelope.id@.take(4) == "msg_"@,
        envelope.payload is Register,
        ({
            let register = envelope.payload->Register_0;
            &&& register.worker_id@ == worker_id
            &&& register.engine@ == "mock"@
            &&& register.max_inflight == 4
            &&& register.models@.len() == 1
            &&& register.models@[0].id@ == "mock-llm"@
            &&& register.models@[0].aliases@.len() == 2
            &&& register.models@[0].aliases@[0]@ == "local-default"@
            &&& register.models@[0].aliases@[1]@ == "fast"@
            &&& register.models@[0].max_context_tokens == 8192
            &&& register.models@[0].supports_streaming
            &&& register.capabilities@.len() == 1
            &&& register.capabilities@[0].name@ == "run_echo"@
            &&& register.capabilities@[0].description@
                == "Echoes the provided input from inside the private worker."@
            &&& register.capabilities@[0].streams
            &&& register.capabilities@[0].input_schema@ == JsonView::Object(
                seq![
                    (
                        "properties"@,
                        JsonView::Object(
                            seq![
                                (
                                    "message"@,
                                    JsonView::Object(seq![("type"@, JsonView::Text("string"@))]),
                                ),
                            ],
                        ),
                    ),
                    ("required"@, JsonView::Array(seq![JsonView::Text("message"@)])),
                    ("type"@, JsonView::Text("object"@)),
                ],
            )
        }),
{
    law_form_of_a_message(envelope, "worker.register"@);
    let aliases = envelope.payload->Register_0.models@[0].aliases@;
    let named = texts(aliases);
    assert(named.len() == 2);
    assert(named[0] == aliases[0]@ && named[1] == aliases[1]@);
}

/// A message starts a job exactly if it is a job under its own type.
pub proof fn law_messages_that_start_jobs(kind: Seq<char>, payload: WorkerPayload)
    ensures
        starts_job(kind, payload) <==> (payload is JobStart && kind == "job.start"@) || (
        payload is CapabilityStart && kind == "capability.start"@),
{
}

} // verus!
