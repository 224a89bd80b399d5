//! What a chat exchange does about each event, and what this comes to over a whole exchange.

use crate::adapter::Protocol;
use crate::json::JsonView;
use crate::server::backends::{
    backend_for, law_how_a_model_is_served, law_key_and_model, law_whose_key, no_prefix_fits,
};
use crate::server::chat::{
    note_views, Answer, AnswerView, ChatEvent, ChatExchange, Command, CommandView, EventView,
    ExchangeView, Note, NoteView, Outbound, OutboundView, Phase, PhaseView, Turn, TurnView,
};
use crate::server::chat_laws::{
    is_run, is_turn, law_completion_from_the_backend, law_every_turn_moves_on,
    law_what_reaches_the_backend, state_at,
};
use crate::server::documents::{error_view, law_error_document};
use crate::server::requests::{
    law_answers_keep_their_fields, law_first_answer_is_trimmed, law_messages_of_the_request,
    law_request_fields_kept, tidy_response, ContextView,
};
use crate::text::{blank_around, lowercase, white_space};
use crate::types::{RequestView, ResponseView};
use vstd::prelude::*;

verus! {

/// Whether an error document has this message and this type, and nothing else.
pub open spec fn is_error(body: JsonView, message: Seq<char>, kind: Seq<char>) -> bool {
    let inner = body->Object_0["error"@];
    &&& body is Object
    &&& body->Object_0.dom() =~= set!["error"@]
    &&& inner is Object
    &&& inner->Object_0.dom() =~= set!["message"@, "type"@]
    &&& inner->Object_0["message"@] == JsonView::Text(message)
    &&& inner->Object_0["type"@] == JsonView::Text(kind)
}

/// Whether a turn answers with a failure of this status, message and type.
pub open spec fn refuses(turn: TurnView, status: int, message: Seq<char>, kind: Seq<char>) -> bool {
    &&& turn.command is Reply
    &&& turn.command->answer is Failure
    &&& turn.command->answer->status == status
    &&& is_error(turn.command->answer->body, message, kind)
}

/// Whether `env_key` is the environment variable with the key of the backend that serves a model
/// whose name in lower case is `lowered`.
pub open spec fn is_key_variable(env_key: Seq<char>, lowered: Seq<char>) -> bool {
    &&& "minimax"@.is_prefix_of(lowered) ==> env_key == "MINIMAX_API_KEY"@
    &&& "deepseek"@.is_prefix_of(lowered) ==> env_key == "DEEPSEEK_API_KEY"@
    &&& "kimi"@.is_prefix_of(lowered) ==> env_key == "KIMI_API_KEY"@
    &&& "mimo"@.is_prefix_of(lowered) ==> env_key == "MIMO_API_KEY"@
    &&& "glm"@.is_prefix_of(lowered) ==> env_key == "ZHIPU_API_KEY"@
    &&& no_prefix_fits(lowered) ==> env_key == "DASHSCOPE_API_KEY"@
}

/// Whether a turn lets the client in: the pipeline is run on the client's request, and the key of
/// the backend that serves its model is read.
pub open spec fn lets_in(turn: TurnView, client: RequestView) -> bool {
    &&& turn.command is RunRequestPipeline
    &&& turn.command->RunRequestPipeline_request == client
    &&& is_key_variable(turn.command->env_key, lowercase(client.model))
}

/// Whether `outbound` is what is to be sent of a client's request once the pipeline has left
/// `left`, the model that it selected and its messages, with the key that was found.
pub open spec fn is_outbound(
    outbound: OutboundView,
    client: RequestView,
    left: RequestView,
    selected_model: Seq<char>,
    modified_messages: Seq<JsonView>,
    api_key: Option<Seq<char>>,
) -> bool {
    let messages = outbound.request.messages;
    &&& outbound.request.model == selected_model
    &&& outbound.request.stream == left.stream
    &&& outbound.request.extra == left.extra
    &&& modified_messages.len() == 0 ==> messages == left.messages
    &&& modified_messages.len() > 0 ==> messages.len() == modified_messages.len()
    &&& forall|i: int|
        0 <= i < modified_messages.len() && modified_messages[i] is Object
            && modified_messages[i]->Object_0.contains_key("content"@) ==> (
        #[trigger] messages[i]).content == modified_messages[i]->Object_0["content"@]
    &&& forall|i: int|
        0 <= i < modified_messages.len() && modified_messages[i] is Object
            && modified_messages[i]->Object_0.contains_key("role"@)
            && modified_messages[i]->Object_0["role"@] is Text ==> (#[trigger] messages[i]).role
            == modified_messages[i]->Object_0["role"@]->Text_0
    &&& outbound.backend.model == selected_model
    &&& outbound.backend.api_key == match api_key {
        Some(key) => key,
        None => Seq::empty(),
    }
    &&& outbound.backend.name == backend_for(client.model, None, None).name
    &&& outbound.backend.url == backend_for(client.model, None, None).url
    &&& outbound.backend.protocol == backend_for(client.model, None, None).protocol
}

/// Whether a turn sends `outbound` on: as a stream where the client asked for one, and else for a
/// completion.
pub open spec fn sends_on(turn: TurnView, client: RequestView, outbound: OutboundView) -> bool {
    if client.stream == Some(true) {
        turn.command == (CommandView::OpenStream { outbound }) && turn.exchange.phase == (
        PhaseView::OpeningStream { outbound })
    } else {
        turn.command == (CommandView::Send { outbound }) && turn.exchange.phase == (
        PhaseView::AwaitingReply { backend: outbound.backend.name })
    }
}

/// Whether a turn goes on to the cache, where there is one, and else sends `outbound` on.
pub open spec fn goes_to_cache(
    turn: TurnView,
    exchange: ExchangeView,
    outbound: OutboundView,
) -> bool {
    if exchange.has_cache {
        turn.command == (CommandView::ReadCache { request: exchange.request })
            && turn.exchange.phase == (PhaseView::ReadingCache { outbound })
    } else {
        sends_on(turn, exchange.request, outbound)
    }
}

proof fn lemma_error(message: Seq<char>, kind: Seq<char>)
    ensures
        is_error(error_view(message, kind), message, kind),
{
    let body = error_view(message, kind);
    law_error_document(message, kind, "error"@);
    assert forall|key: Seq<char>| #[trigger] body->Object_0.dom().contains(key) <==> set![
        "error"@,
    ].contains(key) by {
        law_error_document(message, kind, key);
    }
    let inner = body->Object_0["error"@];
    assert forall|key: Seq<char>| #[trigger] inner->Object_0.dom().contains(key) <==> set![
        "message"@,
        "type"@,
    ].contains(key) by {
        law_error_document(message, kind, key);
    }
}

/// What an exchange is about does not change on the way.
pub proof fn law_exchange_stays_the_same(exchange: ExchangeView, event: EventView)
    requires
        exchange.expects(event),
    ensures
        exchange.turn(event).exchange.request == exchange.request,
        exchange.turn(event).exchange.has_breaker == exchange.has_breaker,
        exchange.turn(event).exchange.has_cache == exchange.has_cache,
{
}

/// After a command the exchange waits for the outcome of that command and for nothing else; a
/// reply is the end.
pub proof fn law_outcomes_are_awaited(exchange: ExchangeView, event: EventView, next: EventView)
    requires
        exchange.expects(event),
    ensures
        ({
            let turn = exchange.turn(event);
            turn.exchange.expects(next) <==> match turn.command {
                CommandView::CheckToken => next is TokenChecked,
                CommandView::RunRequestPipeline { .. } => next is RequestProcessed,
                CommandView::AskBreaker { .. } => next is BreakerAnswered,
                CommandView::ReadCache { .. } => next is CacheMissed || next is CacheHit,
                CommandView::OpenStream { .. } => next is StreamOpened || next is BackendFailed,
                CommandView::Send { .. } => next is ReplyReceived || next is BackendFailed,
                CommandView::RunResponsePipeline { .. } => next is ResponseProcessed,
                CommandView::Reply { .. } => false,
            }
        }),
{
}

/// A request that comes in waits for the configuration. A token is asked for where authentication
/// is on and there are keys, and else the client is let in.
pub proof fn law_arrival(exchange: ExchangeView, event: EventView)
    requires
        exchange.phase is Arrived,
    ensures
        exchange.expects(event) <==> event is ConfigRead,
        event is ConfigRead ==> {
            let turn = exchange.turn(event);
            &&& turn.notes.len() == 0
            &&& event->auth_enabled && event->has_api_keys ==> turn.command is CheckToken
            &&& !(event->auth_enabled && event->has_api_keys) ==> lets_in(turn, exchange.request)
        },
{
    law_whose_key(lowercase(exchange.request.model));
}

/// A client whose token is accepted is let in; another is refused.
pub proof fn law_token(exchange: ExchangeView, accepted: bool)
    requires
        exchange.phase is CheckingToken,
    ensures
        ({
            let turn = exchange.turn(EventView::TokenChecked { accepted });
            &&& exchange.expects(EventView::TokenChecked { accepted })
            &&& turn.notes.len() == 0
            &&& accepted ==> lets_in(turn, exchange.request)
            &&& !accepted ==> refuses(turn, 401, "Unauthorized"@, "auth_error"@)
        }),
{
    law_whose_key(lowercase(exchange.request.model));
    lemma_error("Unauthorized"@, "auth_error"@);
}

/// What the pipeline left goes to the circuit breaker, where there is one, and else to the cache,
/// where there is one, and else to the backend. The breaker is asked about the model that the
/// pipeline selected.
pub proof fn law_after_the_pipeline(
    exchange: ExchangeView,
    left: RequestView,
    selected_model: Seq<char>,
    modified_messages: Seq<JsonView>,
    api_key: Option<Seq<char>>,
) -> (outbound: OutboundView)
    requires
        exchange.phase is InRequestPipeline,
    ensures
        is_outbound(
            outbound,
            exchange.request,
            left,
            selected_model,
            modified_messages,
            api_key,
        ),
        ({
            let event = EventView::RequestProcessed {
                request: left,
                selected_model,
                modified_messages,
                api_key,
            };
            let turn = exchange.turn(event);
            &&& exchange.expects(event)
            &&& turn.notes.len() == 0
            &&& exchange.has_breaker ==> turn.command == (CommandView::AskBreaker {
                model: selected_model,
            }) && turn.exchange.phase == (PhaseView::AskingBreaker { outbound })
            &&& !exchange.has_breaker ==> goes_to_cache(turn, exchange, outbound)
        }),
{
    let ctx = ContextView { request: left, modified_messages, selected_model };
    lemma_outbound(exchange, ctx, api_key);
    exchange.outbound(ctx, api_key)
}

proof fn lemma_outbound(exchange: ExchangeView, ctx: ContextView, api_key: Option<Seq<char>>)
    ensures
        is_outbound(
            exchange.outbound(ctx, api_key),
            exchange.request,
            ctx.request,
            ctx.selected_model,
            ctx.modified_messages,
            api_key,
        ),
{
    let outbound = exchange.outbound(ctx, api_key);
    law_request_fields_kept(ctx);
    law_messages_of_the_request(ctx, 0);
    assert forall|i: int|
        0 <= i < ctx.modified_messages.len() && ctx.modified_messages[i] is Object
            && ctx.modified_messages[i]->Object_0.contains_key("content"@) implies (
    #[trigger] outbound.request.messages[i]).content
        == ctx.modified_messages[i]->Object_0["content"@] by {
        law_messages_of_the_request(ctx, i);
    }
    assert forall|i: int|
        0 <= i < ctx.modified_messages.len() && ctx.modified_messages[i] is Object
            && ctx.modified_messages[i]->Object_0.contains_key("role"@)
            && ctx.modified_messages[i]->Object_0["role"@] is Text implies (
    #[trigger] outbound.request.messages[i]).role
        == ctx.modified_messages[i]->Object_0["role"@]->Text_0 by {
        law_messages_of_the_request(ctx, i);
    }
    if let Some(key) = api_key {
        law_key_and_model(exchange.request.model, None, key);
    } else {
        law_key_and_model(exchange.request.model, None, Seq::empty());
    }
}

/// What the circuit breaker lets pass goes on unchanged; what it does not is refused, and counted
/// as an error.
pub proof fn law_breaker(exchange: ExchangeView, allowed: bool)
    requires
        exchange.phase is AskingBreaker,
    ensures
        ({
            let turn = exchange.turn(EventView::BreakerAnswered { allowed });
            &&& exchange.expects(EventView::BreakerAnswered { allowed })
            &&& allowed ==> turn.notes.len() == 0 && goes_to_cache(
                turn,
                exchange,
                exchange.phase->AskingBreaker_outbound,
            )
            &&& !allowed ==> refuses(turn, 503, "circuit breaker open"@, "server_error"@)
                && turn.notes == seq![NoteView::CountError]
        }),
{
    lemma_error("circuit breaker open"@, "server_error"@);
}

/// A completion from the cache is sent as it stands. Where the cache has none, the request goes on
/// unchanged. A hit is counted, whether or not it is a completion; a miss is not.
pub proof fn law_cache(exchange: ExchangeView, cached: Option<ResponseView>)
    requires
        exchange.phase is ReadingCache,
    ensures
        ({
            let hit = exchange.turn(EventView::CacheHit { cached });
            let missed = exchange.turn(EventView::CacheMissed);
            let outbound = exchange.phase->ReadingCache_outbound;
            &&& exchange.expects(EventView::CacheHit { cached })
            &&& exchange.expects(EventView::CacheMissed)
            &&& hit.notes == seq![NoteView::CountCacheHit]
            &&& cached is Some ==> hit.command == (CommandView::Reply {
                answer: AnswerView::Completion { response: cached->0 },
            })
            &&& cached is None ==> sends_on(hit, exchange.request, outbound)
            &&& missed.notes.len() == 0
            &&& sends_on(missed, exchange.request, outbound)
        }),
{
}

/// A stream that opens is relayed in the protocol and under the model of what was sent; it is
/// counted as a request to that model, and the circuit breaker, where there is one, is told of the
/// success of that backend.
pub proof fn law_stream_opened(exchange: ExchangeView)
    requires
        exchange.phase is OpeningStream,
    ensures
        ({
            let turn = exchange.turn(EventView::StreamOpened);
            let outbound = exchange.phase->OpeningStream_outbound;
            let counted = NoteView::CountRequest {
                model: outbound.request.model,
                tokens_in: 0,
                tokens_out: 0,
                latency_ms: 0,
            };
            &&& exchange.expects(EventView::StreamOpened)
            &&& turn.command == (CommandView::Reply {
                answer: AnswerView::Stream {
                    protocol: outbound.backend.protocol,
                    model: outbound.request.model,
                },
            })
            &&& exchange.has_breaker ==> turn.notes =~= seq![
                counted,
                NoteView::BreakerSuccess { backend: outbound.backend.name },
            ]
            &&& !exchange.has_breaker ==> turn.notes =~= seq![counted]
        }),
{
}

/// A completion that arrives is handed to the response pipeline as it came, with the client's
/// request. It is counted under its own model, with its own tokens and the time that it took, and
/// the circuit breaker, where there is one, is told of the success of the backend.
pub proof fn law_reply_received(exchange: ExchangeView, response: ResponseView, latency_ms: u64)
    requires
        exchange.phase is AwaitingReply,
    ensures
        ({
            let event = EventView::ReplyReceived { response, latency_ms };
            let turn = exchange.turn(event);
            &&& exchange.expects(event)
            &&& turn.command == (CommandView::RunResponsePipeline {
                request: exchange.request,
                response,
            })
            &&& turn.notes.len() == if exchange.has_breaker {
                2int
            } else {
                1
            }
            &&& turn.notes[0] is CountRequest
            &&& turn.notes[0]->model == response.model
            &&& turn.notes[0]->latency_ms == latency_ms
            &&& response.usage is None ==> turn.notes[0]->tokens_in == 0
                && turn.notes[0]->tokens_out == 0
            &&& response.usage matches Some(usage) ==> turn.notes[0]->tokens_in
                == usage.prompt_tokens && turn.notes[0]->tokens_out == usage.completion_tokens
            &&& exchange.has_breaker ==> turn.notes[1] == (NoteView::BreakerSuccess {
                backend: exchange.phase->backend,
            })
        }),
{
}

/// A backend that fails is answered for with its own words.
pub proof fn law_backend_failed(exchange: ExchangeView, error: Seq<char>)
    requires
        exchange.phase is OpeningStream || exchange.phase is AwaitingReply,
    ensures
        ({
            let event = EventView::BackendFailed { error };
            let turn = exchange.turn(event);
            let backend = if exchange.phase is OpeningStream {
                exchange.phase->OpeningStream_outbound.backend.name
            } else {
                exchange.phase->backend
            };
            &&& exchange.expects(event)
            &&& refuses(turn, 502, error, "server_error"@)
            &&& exchange.has_breaker ==> turn.notes =~= seq![
                NoteView::CountError,
                NoteView::BreakerFailure { backend },
            ]
            &&& !exchange.has_breaker ==> turn.notes =~= seq![NoteView::CountError]
        }),
{
    lemma_error(error, "server_error"@);
}

/// Whether `sent` is the completion that the client is to receive of `received`: the same in all
/// but the text of the first answer, which loses the white space at its ends and nothing else.
pub open spec fn is_sent_of(sent: ResponseView, received: ResponseView) -> bool {
    &&& sent.model == received.model
    &&& sent.usage == received.usage
    &&& sent.extra == received.extra
    &&& sent.choices.len() == received.choices.len()
    &&& forall|i: int|
        0 <= i < received.choices.len() ==> (#[trigger] sent.choices[i]).message_extra
            == received.choices[i].message_extra && sent.choices[i].extra
            == received.choices[i].extra && (sent.choices[i].content is Some
            <==> received.choices[i].content is Some)
    &&& forall|i: int|
        0 < i < received.choices.len() ==> (#[trigger] sent.choices[i]).content
            == received.choices[i].content
    &&& received.choices.len() > 0 && received.choices[0].content is Some ==> {
        let before = received.choices[0].content->0;
        let after = sent.choices[0].content->0;
        &&& exists|from: int, to: int| #[trigger]
            blank_around(before, from, to) && after == before.subrange(from, to)
        &&& after.len() > 0 ==> !white_space(after[0]) && !white_space(after.last())
    }
}

proof fn lemma_sent_of(received: ResponseView)
    ensures
        is_sent_of(tidy_response(received), received),
{
    let sent = tidy_response(received);
    law_answers_keep_their_fields(received, 0);
    assert forall|i: int| 0 <= i < received.choices.len() implies (
    #[trigger] sent.choices[i]).message_extra == received.choices[i].message_extra
        && sent.choices[i].extra == received.choices[i].extra && (sent.choices[i].content is Some
        <==> received.choices[i].content is Some) by {
        law_answers_keep_their_fields(received, i);
    }
    assert forall|i: int| 0 < i < received.choices.len() implies (
    #[trigger] sent.choices[i]).content == received.choices[i].content by {
        law_answers_keep_their_fields(received, i);
    }
    if received.choices.len() > 0 && received.choices[0].content is Some {
        law_first_answer_is_trimmed(received);
    }
}

/// Once the response pipeline is done, the client is sent the completion that arrived, and the
/// cache, where there is one, is given what the pipeline left for it, under the client's request.
pub proof fn law_response_processed(exchange: ExchangeView, raw: Option<JsonView>)
    requires
        exchange.phase is InResponsePipeline,
    ensures
        ({
            let event = EventView::ResponseProcessed { raw };
            let turn = exchange.turn(event);
            &&& exchange.expects(event)
            &&& turn.command is Reply
            &&& turn.command->answer is Completion
            &&& is_sent_of(
                turn.command->answer->response,
                exchange.phase->InResponsePipeline_response,
            )
            &&& exchange.has_cache && raw is Some ==> turn.notes =~= seq![
                NoteView::StoreInCache { request: exchange.request, raw: raw->0 },
            ]
            &&& !exchange.has_cache || raw is None ==> turn.notes.len() == 0
        }),
{
    lemma_sent_of(exchange.phase->InResponsePipeline_response);
}

/// In every exchange the environment variable that is read for the key is that of the backend that
/// serves the model which the client named.
pub proof fn law_the_right_key_is_read(
    start: ExchangeView,
    events: Seq<EventView>,
    turns: Seq<TurnView>,
    k: int,
)
    requires
        is_run(start, events, turns),
        0 <= k < turns.len(),
        turns[k].command is RunRequestPipeline,
    ensures
        is_key_variable(turns[k].command->env_key, lowercase(start.request.model)),
{
    lemma_same_exchange(start, events, turns, k);
    assert(is_turn(start, events, turns, k));
    let now = state_at(start, turns, k);
    if now.phase is Arrived {
        law_arrival(now, events[k]);
    } else {
        assert(now.phase is CheckingToken);
        law_token(now, events[k]->accepted);
        assert(events[k] == (EventView::TokenChecked { accepted: events[k]->accepted }));
    }
}

proof fn lemma_same_exchange(
    start: ExchangeView,
    events: Seq<EventView>,
    turns: Seq<TurnView>,
    k: int,
)
    requires
        is_run(start, events, turns),
        0 <= k <= turns.len(),
    ensures
        state_at(start, turns, k).request == start.request,
        state_at(start, turns, k).has_breaker == start.has_breaker,
        state_at(start, turns, k).has_cache == start.has_cache,
    decreases k,
{
    if k > 0 {
        lemma_same_exchange(start, events, turns, k - 1);
        assert(is_turn(start, events, turns, k - 1));
        law_exchange_stays_the_same(state_at(start, turns, k - 1), events[k - 1]);
    }
}

/// Whether event `i` is the pipeline's and `outbound` is what is to be sent of the client's request
/// after it.
pub open spec fn left_by_pipeline(
    client: RequestView,
    events: Seq<EventView>,
    i: int,
    outbound: OutboundView,
) -> bool {
    &&& 0 <= i < events.len()
    &&& events[i] is RequestProcessed
    &&& is_outbound(
        outbound,
        client,
        events[i]->request,
        events[i]->selected_model,
        events[i]->modified_messages,
        events[i]->api_key,
    )
}

/// In every exchange, what is handed to the backend has the model that the pipeline selected, the
/// stream flag and every unread field of the request that the pipeline left, its messages, and the
/// key that was found; and it is handed to the backend that serves the model which the client
/// named, in that backend's protocol and at its endpoint for it.
pub proof fn law_fields_reach_the_backend(
    start: ExchangeView,
    events: Seq<EventView>,
    turns: Seq<TurnView>,
    k: int,
)
    requires
        is_run(start, events, turns),
        0 <= k < turns.len(),
        turns[k].reaches_backend(),
    ensures
        exists|i: int|
            0 <= i <= k && #[trigger] left_by_pipeline(
                start.request,
                events,
                i,
                turns[k].handed_over(),
            ),
{
    law_what_reaches_the_backend(start, events, turns, k);
    let outbound = turns[k].handed_over();
    let i = choose|i: int|
        0 <= i < k + 1 && (#[trigger] events[i] matches EventView::RequestProcessed {
            request,
            selected_model,
            modified_messages,
            api_key,
        } && outbound == start.outbound(
            ContextView { request, modified_messages, selected_model },
            api_key,
        ));
    let event = events[i];
    lemma_outbound(
        start,
        ContextView {
            request: event->request,
            modified_messages: event->modified_messages,
            selected_model: event->selected_model,
        },
        event->api_key,
    );
    assert(left_by_pipeline(start.request, events, i, outbound));
}

/// Every completion that a client receives is one that the cache held, as it stands, or one that
/// the backend sent, in which every answer, the first one too, keeps every field but for the white
/// space at the ends of the first answer's text.
pub proof fn law_completion_fields(
    start: ExchangeView,
    events: Seq<EventView>,
    turns: Seq<TurnView>,
    k: int,
)
    requires
        is_run(start, events, turns),
        0 <= k < turns.len(),
        turns[k].command is Reply,
        turns[k].command->answer is Completion,
    ensures
        events[k] is CacheHit || events[k] is ResponseProcessed,
        events[k] is CacheHit ==> events[k]->cached == Some(turns[k].command->answer->response),
        events[k] is ResponseProcessed ==> k > 0 && events[k - 1] is ReplyReceived && is_sent_of(
            turns[k].command->answer->response,
            events[k - 1]->ReplyReceived_response,
        ),
{
    assert(is_turn(start, events, turns, k));
    let now = state_at(start, turns, k);
    law_every_turn_moves_on(now, events[k]);
    if events[k] is ResponseProcessed {
        law_completion_from_the_backend(start, events, turns, k);
        lemma_sent_of(events[k - 1]->ReplyReceived_response);
    } else {
        assert(now.phase is ReadingCache);
    }
}

/// What goes to a backend goes in the protocol and to the endpoint that how the name of the
/// client's model begins decides.
pub proof fn law_endpoint_of_the_named_model(outbound: OutboundView, client: RequestView)
    requires
        outbound.backend.url == backend_for(client.model, None, None).url,
        outbound.backend.protocol == backend_for(client.model, None, None).protocol,
    ensures
        ({
            let lowered = lowercase(client.model);
            let backend = outbound.backend;
            &&& "minimax"@.is_prefix_of(lowered) ==> backend.protocol == Protocol::OpenAI
                && backend.url == "https://api.minimaxi.com/v1/chat/completions"@
            &&& "deepseek"@.is_prefix_of(lowered) ==> backend.protocol == Protocol::OpenAI
                && backend.url == "https://api.deepseek.com/v1/chat/completions"@
            &&& "kimi"@.is_prefix_of(lowered) ==> backend.protocol == Protocol::Anthropic
                && backend.url == "https://api.kimi.com/coding/v1/messages"@
            &&& "mimo"@.is_prefix_of(lowered) ==> backend.protocol == Protocol::OpenAI
                && backend.url == "https://token-plan-cn.xiaomimimo.com/v1/chat/completions"@
            &&& "glm"@.is_prefix_of(lowered) ==> backend.protocol == Protocol::OpenAI
                && backend.url == "https://open.bigmodel.cn/api/paas/v4/chat/completions"@
            &&& no_prefix_fits(lowered) ==> backend.protocol == Protocol::Anthropic && backend.url
                == "https://coding.dashscope.aliyuncs.com/apps/anthropic/v1/messages"@
        }),
{
    law_how_a_model_is_served(client.model, None, None);
}

/// What a turn says is what stands in its fields.
pub proof fn law_turns_say_what_they_hold(turn: Turn, i: int)
    ensures
        turn@.exchange == turn.exchange@,
        turn@.command == turn.command@,
        turn@.notes.len() == turn.notes@.len(),
        0 <= i < turn.notes@.len() ==> turn@.notes[i] == turn.notes@[i]@,
        note_views(turn.notes@) == turn@.notes,
{
}

/// What an exchange says is what stands in its fields.
pub proof fn law_exchanges_say_what_they_hold(exchange: ChatExchange)
    ensures
        exchange@.request == exchange.request@,
        exchange@.has_breaker == exchange.has_breaker,
        exchange@.has_cache == exchange.has_cache,
        exchange@.phase == exchange.phase@,
        exchange.phase is Arrived <==> exchange@.phase is Arrived,
        exchange.phase is CheckingToken <==> exchange@.phase is CheckingToken,
        exchange.phase is InRequestPipeline <==> exchange@.phase is InRequestPipeline,
        exchange.phase is AskingBreaker <==> exchange@.phase is AskingBreaker,
        exchange.phase is ReadingCache <==> exchange@.phase is ReadingCache,
        exchange.phase is OpeningStream <==> exchange@.phase is OpeningStream,
        exchange.phase is AwaitingReply <==> exchange@.phase is AwaitingReply,
        exchange.phase is InResponsePipeline <==> exchange@.phase is InResponsePipeline,
        exchange.phase is Answered <==> exchange@.phase is Answered,
        exchange.phase matches Phase::AskingBreaker { outbound } ==> exchange@.phase == (
        PhaseView::AskingBreaker { outbound: outbound@ }),
        exchange.phase matches Phase::ReadingCache { outbound } ==> exchange@.phase == (
        PhaseView::ReadingCache { outbound: outbound@ }),
        exchange.phase matches Phase::OpeningStream { outbound } ==> exchange@.phase == (
        PhaseView::OpeningStream { outbound: outbound@ }),
        exchange.phase matches Phase::AwaitingReply { backend } ==> exchange@.phase == (
        PhaseView::AwaitingReply { backend: backend@ }),
        exchange.phase matches Phase::InResponsePipeline { response } ==> exchange@.phase == (
        PhaseView::InResponsePipeline { response: response@ }),
{
}

/// What goes to a backend says what stands in its fields.
pub proof fn law_outbounds_say_what_they_hold(outbound: Outbound)
    ensures
        outbound@.backend == outbound.backend@,
        outbound@.request == outbound.request@,
{
}

/// What an event says is what stands in its fields.
pub proof fn law_events_say_what_they_hold(event: ChatEvent, i: int)
    ensures
        event matches ChatEvent::ConfigRead { auth_enabled, has_api_keys } ==> event@ == (
        EventView::ConfigRead { auth_enabled, has_api_keys }),
        event matches ChatEvent::TokenChecked { accepted } ==> event@ == (EventView::TokenChecked {
            accepted,
        }),
        event matches ChatEvent::RequestProcessed {
            request,
            selected_model,
            modified_messages,
            api_key,
        } ==> {
            &&& event@ is RequestProcessed
            &&& event@->request == request@
            &&& event@->selected_model == selected_model@
            &&& event@->modified_messages.len() == modified_messages@.len()
            &&& 0 <= i < modified_messages@.len() ==> event@->modified_messages[i]
                == modified_messages@[i]@
            &&& event@->api_key is Some <==> api_key is Some
            &&& api_key matches Some(key) ==> event@->api_key == Some(key@)
        },
        event matches ChatEvent::BreakerAnswered { allowed } ==> event@ == (
        EventView::BreakerAnswered { allowed }),
        event is CacheMissed ==> event@ is CacheMissed,
        event matches ChatEvent::CacheHit { cached } ==> {
            &&& event@ is CacheHit
            &&& event@->cached is Some <==> cached is Some
            &&& cached matches Some(response) ==> event@->cached == Some(response@)
        },
        event is StreamOpened ==> event@ is StreamOpened,
        event matches ChatEvent::ReplyReceived { response, latency_ms } ==> event@ == (
        EventView::ReplyReceived { response: response@, latency_ms }),
        event matches ChatEvent::BackendFailed { error } ==> event@ == (EventView::BackendFailed {
            error: error@,
        }),
        event matches ChatEvent::ResponseProcessed { raw } ==> {
            &&& event@ is ResponseProcessed
            &&& event@->raw is Some <==> raw is Some
            &&& raw matches Some(doc) ==> event@->raw == Some(doc@)
        },
{
}

/// What a note says is what stands in its fields.
pub proof fn law_notes_say_what_they_hold(note: Note)
    ensures
        note is CountError ==> note@ is CountError,
        note is CountCacheHit ==> note@ is CountCacheHit,
        note matches Note::CountRequest { model, tokens_in, tokens_out, latency_ms } ==> note@ == (
        NoteView::CountRequest { model: model@, tokens_in, tokens_out, latency_ms }),
        note matches Note::BreakerSuccess { backend } ==> note@ == (NoteView::BreakerSuccess {
            backend: backend@,
        }),
        note matches Note::BreakerFailure { backend } ==> note@ == (NoteView::BreakerFailure {
            backend: backend@,
        }),
        note matches Note::StoreInCache { request, raw } ==> note@ == (NoteView::StoreInCache {
            request: request@,
            raw: raw@,
        }),
{
}

/// What a command says is what stands in its fields, down to the answer of a reply.
pub proof fn law_commands_say_what_they_hold(command: Command)
    ensures
        command is CheckToken ==> command@ is CheckToken,
        command matches Command::RunRequestPipeline { request, env_key } ==> command@ == (
        CommandView::RunRequestPipeline { request: request@, env_key: env_key@ }),
        command matches Command::AskBreaker { model } ==> command@ == (CommandView::AskBreaker {
            model: model@,
        }),
        command matches Command::ReadCache { request } ==> command@ == (CommandView::ReadCache {
            request: request@,
        }),
        command matches Command::OpenStream { outbound } ==> command@ == (CommandView::OpenStream {
            outbound: outbound@,
        }),
        command matches Command::Send { outbound } ==> command@ == (CommandView::Send {
            outbound: outbound@,
        }),
        command matches Command::RunResponsePipeline { request, response } ==> command@ == (
        CommandView::RunResponsePipeline { request: request@, response: response@ }),
        command matches Command::Reply { answer: Answer::Failure { status, body } } ==> command@
            == (CommandView::Reply { answer: AnswerView::Failure { status, body: body@ } }),
        command matches Command::Reply { answer: Answer::Completion { response } } ==> command@ == (
        CommandView::Reply { answer: AnswerView::Completion { response: response@ } }),
        command matches Command::Reply { answer: Answer::Stream { protocol, model } } ==> command@
            == (CommandView::Reply { answer: AnswerView::Stream { protocol, model: model@ } }),
{
}

} // verus!
