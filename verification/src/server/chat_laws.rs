//! What holds of every chat exchange, from the request to the answer.

use crate::server::backends::profile_for;
use crate::server::chat::{
    AnswerView, CommandView, EventView, ExchangeView, NoteView, OutboundView, PhaseView, TurnView,
    BAD_GATEWAY, SERVICE_UNAVAILABLE, UNAUTHORIZED,
};
use crate::server::documents::error_view;
use crate::server::requests::{tidy_response, ContextView};
use crate::text::lowercase;
use vstd::prelude::*;

verus! {

/// The exchange as it stands before turn `k` of a run.
pub open spec fn state_at(start: ExchangeView, turns: Seq<TurnView>, k: int) -> ExchangeView {
    if k <= 0 {
        start
    } else {
        turns[k - 1].exchange
    }
}

/// Whether turn `k` is the one that the exchange takes on event `k`, and the event is the one
/// that it waits for.
pub open spec fn is_turn(
    start: ExchangeView,
    events: Seq<EventView>,
    turns: Seq<TurnView>,
    k: int,
) -> bool {
    let now = state_at(start, turns, k);
    now.expects(events[k]) && turns[k] == now.turn(events[k])
}

/// Whether `turns` are the turns that an exchange takes on `events`, from the moment that its
/// request comes in.
pub open spec fn is_run(
    start: ExchangeView,
    events: Seq<EventView>,
    turns: Seq<TurnView>,
) -> bool {
    &&& start.phase is Arrived
    &&& turns.len() == events.len()
    &&& forall|k: int| 0 <= k < turns.len() ==> #[trigger] is_turn(start, events, turns, k)
}

impl TurnView {
    /// Whether the turn hands a request to the backend.
    pub open spec fn reaches_backend(self) -> bool {
        self.command is Send || self.command is OpenStream
    }

    /// What the turn hands to the backend.
    pub open spec fn handed_over(self) -> OutboundView {
        match self.command {
            CommandView::Send { outbound } => outbound,
            CommandView::OpenStream { outbound } => outbound,
            _ => arbitrary(),
        }
    }
}

/// How many turns may still come, at most.
pub open spec fn turns_left(phase: PhaseView) -> nat {
    match phase {
        PhaseView::Arrived => 7,
        PhaseView::CheckingToken => 6,
        PhaseView::InRequestPipeline => 5,
        PhaseView::AskingBreaker { .. } => 4,
        PhaseView::ReadingCache { .. } => 3,
        PhaseView::OpeningStream { .. } => 2,
        PhaseView::AwaitingReply { .. } => 2,
        PhaseView::InResponsePipeline { .. } => 1,
        PhaseView::Answered => 0,
    }
}

/// Every turn brings the exchange nearer to its end, and it ends in an answer and nowhere else.
pub proof fn law_every_turn_moves_on(exchange: ExchangeView, event: EventView)
    requires
        exchange.expects(event),
    ensures
        turns_left(exchange.turn(event).exchange.phase) < turns_left(exchange.phase),
        exchange.turn(event).exchange.phase is Answered <==> exchange.turn(event).command is Reply,
{
}

proof fn lemma_turns_left_falls(
    start: ExchangeView,
    events: Seq<EventView>,
    turns: Seq<TurnView>,
    i: int,
    j: int,
)
    requires
        is_run(start, events, turns),
        0 <= i <= j <= turns.len(),
    ensures
        turns_left(state_at(start, turns, j).phase) + (j - i) <= turns_left(
            state_at(start, turns, i).phase,
        ),
    decreases j - i,
{
    if i < j {
        lemma_turns_left_falls(start, events, turns, i, j - 1);
        assert(is_turn(start, events, turns, j - 1));
        law_every_turn_moves_on(state_at(start, turns, j - 1), events[j - 1]);
    }
}

/// An exchange is over after seven turns at the latest.
pub proof fn law_exchanges_are_short(
    start: ExchangeView,
    events: Seq<EventView>,
    turns: Seq<TurnView>,
)
    requires
        is_run(start, events, turns),
    ensures
        turns.len() <= 7,
{
    lemma_turns_left_falls(start, events, turns, 0, turns.len() as int);
}

/// Nothing comes after the answer.
pub proof fn law_one_answer(
    start: ExchangeView,
    events: Seq<EventView>,
    turns: Seq<TurnView>,
    k: int,
)
    requires
        is_run(start, events, turns),
        0 <= k < turns.len(),
        turns[k].command is Reply,
    ensures
        k == turns.len() - 1,
{
    assert(is_turn(start, events, turns, k));
    law_every_turn_moves_on(state_at(start, turns, k), events[k]);
    lemma_turns_left_falls(start, events, turns, k + 1, turns.len() as int);
}

/// Whether the client was let in by one of the first `k` events: no key is asked for, or the
/// client's token was accepted.
pub open spec fn let_in(events: Seq<EventView>, k: int) -> bool {
    ||| exists|i: int|
        0 <= i < k && (#[trigger] events[i] matches EventView::ConfigRead { auth_enabled, has_api_keys }
            && !(auth_enabled && has_api_keys))
    ||| exists|i: int| 0 <= i < k && #[trigger] events[i] == (EventView::TokenChecked { accepted: true })
}

/// Whether one of the first `k` events is the pipeline's, and `outbound` is the request as the
/// pipeline left it.
pub open spec fn prepared(
    start: ExchangeView,
    events: Seq<EventView>,
    k: int,
    outbound: OutboundView,
) -> bool {
    exists|i: int|
        0 <= i < k && (#[trigger] events[i] matches EventView::RequestProcessed {
            request,
            selected_model,
            modified_messages,
            api_key,
        } && outbound == start.outbound(
            ContextView { request, modified_messages, selected_model },
            api_key,
        ))
}

/// Whether the circuit breaker let the request pass in one of the first `k` events.
pub open spec fn breaker_passed(events: Seq<EventView>, k: int) -> bool {
    exists|i: int| 0 <= i < k && #[trigger] events[i] == (EventView::BreakerAnswered { allowed: true })
}

/// Whether one of the first `k` events said that the cache has no completion.
pub open spec fn not_cached(events: Seq<EventView>, k: int) -> bool {
    exists|i: int|
        0 <= i < k && ((#[trigger] events[i]) is CacheMissed || events[i] == (EventView::CacheHit {
            cached: None,
        }))
}

/// The name of the backend that serves the model that the client named.
pub open spec fn backend_name(start: ExchangeView) -> Seq<char> {
    profile_for(lowercase(start.request.model)).name
}

/// What an exchange must have gone through before turn `k`.
spec fn explained(start: ExchangeView, events: Seq<EventView>, k: int, now: ExchangeView) -> bool {
    &&& now == (ExchangeView { phase: now.phase, ..start })
    &&& match now.phase {
        PhaseView::InRequestPipeline => let_in(events, k),
        PhaseView::AskingBreaker { outbound } => let_in(events, k) && prepared(
            start,
            events,
            k,
            outbound,
        ),
        PhaseView::ReadingCache { outbound } => let_in(events, k) && prepared(
            start,
            events,
            k,
            outbound,
        ) && (start.has_breaker ==> breaker_passed(events, k)),
        PhaseView::OpeningStream { outbound } => outbound.backend.name == backend_name(start),
        PhaseView::AwaitingReply { backend } => backend == backend_name(start),
        PhaseView::InResponsePipeline { response } => k > 0 && (events[k - 1] matches EventView::ReplyReceived {
            response: received,
            ..
        } && response == received),
        _ => true,
    }
}

proof fn lemma_explained(
    start: ExchangeView,
    events: Seq<EventView>,
    turns: Seq<TurnView>,
    k: int,
)
    requires
        is_run(start, events, turns),
        0 <= k <= turns.len(),
    ensures
        explained(start, events, k, state_at(start, turns, k)),
    decreases k,
{
    if k > 0 {
        lemma_explained(start, events, turns, k - 1);
        lemma_step_explained(start, events, turns, k - 1);
    }
}

proof fn lemma_later(start: ExchangeView, events: Seq<EventView>, k: int)
    ensures
        let_in(events, k) ==> let_in(events, k + 1),
        forall|outbound: OutboundView|
            prepared(start, events, k, outbound) ==> #[trigger] prepared(
                start,
                events,
                k + 1,
                outbound,
            ),
        breaker_passed(events, k) ==> breaker_passed(events, k + 1),
        not_cached(events, k) ==> not_cached(events, k + 1),
{
    assert forall|outbound: OutboundView| prepared(start, events, k, outbound) implies #[trigger] prepared(
        start,
        events,
        k + 1,
        outbound,
    ) by {
        let i = choose|i: int|
            0 <= i < k && (#[trigger] events[i] matches EventView::RequestProcessed {
                request,
                selected_model,
                modified_messages,
                api_key,
            } && outbound == start.outbound(
                ContextView { request, modified_messages, selected_model },
                api_key,
            ));
        assert(0 <= i < k + 1 && events[i] is RequestProcessed);
    }
}

proof fn lemma_step_explained(
    start: ExchangeView,
    events: Seq<EventView>,
    turns: Seq<TurnView>,
    k: int,
)
    requires
        is_run(start, events, turns),
        0 <= k < turns.len(),
        explained(start, events, k, state_at(start, turns, k)),
    ensures
        explained(start, events, k + 1, turns[k].exchange),
        turns[k].reaches_backend() ==> {
            &&& let_in(events, k + 1)
            &&& prepared(start, events, k + 1, turns[k].handed_over())
            &&& start.has_breaker ==> breaker_passed(events, k + 1)
            &&& start.has_cache ==> not_cached(events, k + 1)
            &&& turns[k].command is OpenStream <==> start.wants_stream()
        },
{
    lemma_later(start, events, k);
    let now = state_at(start, turns, k);
    let event = events[k];
    assert(is_turn(start, events, turns, k));
    assert(now.phase is InRequestPipeline ==> prepared(
        start,
        events,
        k + 1,
        start.outbound(
            ContextView {
                request: event->request,
                modified_messages: event->modified_messages,
                selected_model: event->selected_model,
            },
            event->api_key,
        ),
    )) by {
        assert(events[k] == event);
    }
}

/// A request reaches the backend only after the client was let in, the circuit breaker, where
/// there is one, let it pass, and the cache, where there is one, had no completion for it. What
/// reaches the backend is the request as the pipeline left it. A stream is opened where the client
/// asked for one, whatever the pipeline left, and a completion is asked for where it did not.
pub proof fn law_what_reaches_the_backend(
    start: ExchangeView,
    events: Seq<EventView>,
    turns: Seq<TurnView>,
    k: int,
)
    requires
        is_run(start, events, turns),
        0 <= k < turns.len(),
        turns[k].reaches_backend(),
    ensures
        let_in(events, k + 1),
        prepared(start, events, k + 1, turns[k].handed_over()),
        start.has_breaker ==> breaker_passed(events, k + 1),
        start.has_cache ==> not_cached(events, k + 1),
        turns[k].command is OpenStream <==> start.wants_stream(),
{
    lemma_explained(start, events, turns, k);
    lemma_step_explained(start, events, turns, k);
}

proof fn lemma_backend_not_reached_before(
    start: ExchangeView,
    events: Seq<EventView>,
    turns: Seq<TurnView>,
    k: int,
)
    requires
        is_run(start, events, turns),
        0 <= k < turns.len(),
        turns_left(state_at(start, turns, k).phase) > 2,
    ensures
        forall|j: int| 0 <= j < k ==> !(#[trigger] turns[j]).reaches_backend(),
{
    assert forall|j: int| 0 <= j < k implies !(#[trigger] turns[j]).reaches_backend() by {
        lemma_turns_left_falls(start, events, turns, j + 1, k);
        assert(is_turn(start, events, turns, j));
    }
}

/// A client whose token is refused is told so with status 401; nothing is noted, nothing more
/// happens, and no backend hears of the request.
pub proof fn law_refused_client(
    start: ExchangeView,
    events: Seq<EventView>,
    turns: Seq<TurnView>,
    k: int,
)
    requires
        is_run(start, events, turns),
        0 <= k < turns.len(),
        events[k] == (EventView::TokenChecked { accepted: false }),
    ensures
        k == turns.len() - 1,
        turns[k].command == (CommandView::Reply {
            answer: AnswerView::Failure {
                status: UNAUTHORIZED,
                body: error_view("Unauthorized"@, "auth_error"@),
            },
        }),
        turns[k].notes == Seq::<NoteView>::empty(),
        forall|j: int| 0 <= j < turns.len() ==> !(#[trigger] turns[j]).reaches_backend(),
{
    let now = state_at(start, turns, k);
    assert(is_turn(start, events, turns, k));
    assert(now.phase is CheckingToken);
    law_one_answer(start, events, turns, k);
    lemma_backend_not_reached_before(start, events, turns, k);
}

/// While the circuit breaker is open, the client is told so with status 503, an error is
/// counted, and no backend hears of the request.
pub proof fn law_open_breaker(
    start: ExchangeView,
    events: Seq<EventView>,
    turns: Seq<TurnView>,
    k: int,
)
    requires
        is_run(start, events, turns),
        0 <= k < turns.len(),
        events[k] == (EventView::BreakerAnswered { allowed: false }),
    ensures
        k == turns.len() - 1,
        turns[k].command == (CommandView::Reply {
            answer: AnswerView::Failure {
                status: SERVICE_UNAVAILABLE,
                body: error_view("circuit breaker open"@, "server_error"@),
            },
        }),
        turns[k].notes == seq![NoteView::CountError],
        forall|j: int| 0 <= j < turns.len() ==> !(#[trigger] turns[j]).reaches_backend(),
{
    let now = state_at(start, turns, k);
    assert(is_turn(start, events, turns, k));
    assert(now.phase is AskingBreaker);
    law_one_answer(start, events, turns, k);
    lemma_backend_not_reached_before(start, events, turns, k);
}

/// A completion that the cache holds is sent as it stands, and no backend hears of the request.
pub proof fn law_cached_completion(
    start: ExchangeView,
    events: Seq<EventView>,
    turns: Seq<TurnView>,
    k: int,
)
    requires
        is_run(start, events, turns),
        0 <= k < turns.len(),
        events[k] matches EventView::CacheHit { cached } && cached is Some,
    ensures
        k == turns.len() - 1,
        turns[k].command == (CommandView::Reply {
            answer: AnswerView::Completion { response: events[k]->cached->0 },
        }),
        forall|j: int| 0 <= j < turns.len() ==> !(#[trigger] turns[j]).reaches_backend(),
{
    let now = state_at(start, turns, k);
    assert(is_turn(start, events, turns, k));
    assert(now.phase is ReadingCache);
    law_one_answer(start, events, turns, k);
    lemma_backend_not_reached_before(start, events, turns, k);
}

/// A backend that fails is answered for with status 502 and the words of its error; an error is
/// counted, and the circuit breaker, where there is one, is told.
pub proof fn law_failed_backend(
    start: ExchangeView,
    events: Seq<EventView>,
    turns: Seq<TurnView>,
    k: int,
)
    requires
        is_run(start, events, turns),
        0 <= k < turns.len(),
        events[k] is BackendFailed,
    ensures
        k == turns.len() - 1,
        turns[k].command == (CommandView::Reply {
            answer: AnswerView::Failure {
                status: BAD_GATEWAY,
                body: error_view(events[k]->error, "server_error"@),
            },
        }),
        turns[k].notes == if start.has_breaker {
            seq![NoteView::CountError, NoteView::BreakerFailure { backend: backend_name(start) }]
        } else {
            seq![NoteView::CountError]
        },
{
    lemma_explained(start, events, turns, k);
    assert(is_turn(start, events, turns, k));
    law_one_answer(start, events, turns, k);
}

/// A completion that comes from the backend reaches the client as it came, but for the white
/// space at the ends of its first answer. The cache, where there is one, is given what the
/// response pipeline left for it, under the client's own request.
pub proof fn law_completion_from_the_backend(
    start: ExchangeView,
    events: Seq<EventView>,
    turns: Seq<TurnView>,
    k: int,
)
    requires
        is_run(start, events, turns),
        0 <= k < turns.len(),
        events[k] is ResponseProcessed,
    ensures
        k == turns.len() - 1,
        k > 0,
        events[k - 1] is ReplyReceived,
        turns[k].command == (CommandView::Reply {
            answer: AnswerView::Completion {
                response: tidy_response(events[k - 1]->ReplyReceived_response),
            },
        }),
        turns[k].notes == match events[k]->raw {
            Some(raw) if start.has_cache => seq![
                NoteView::StoreInCache { request: start.request, raw },
            ],
            _ => Seq::<NoteView>::empty(),
        },
{
    lemma_explained(start, events, turns, k);
    assert(is_turn(start, events, turns, k));
    law_one_answer(start, events, turns, k);
}

/// The pipelines and the cache are handed the client's own request, whatever the request pipeline
/// makes of it.
pub proof fn law_whose_request(
    start: ExchangeView,
    events: Seq<EventView>,
    turns: Seq<TurnView>,
    k: int,
    i: int,
)
    requires
        is_run(start, events, turns),
        0 <= k < turns.len(),
    ensures
        turns[k].command matches CommandView::RunRequestPipeline { request, .. } ==> request
            == start.request,
        turns[k].command matches CommandView::ReadCache { request } ==> request == start.request,
        turns[k].command matches CommandView::RunResponsePipeline { request, .. } ==> request
            == start.request,
        0 <= i < turns[k].notes.len() ==> (turns[k].notes[i] matches NoteView::StoreInCache {
            request,
            ..
        } ==> request == start.request),
{
    lemma_explained(start, events, turns, k);
    assert(is_turn(start, events, turns, k));
}

/// The circuit breaker is told of the backend that serves the model that the client named, and
/// of no other.
pub proof fn law_breaker_hears_of_the_backend(
    start: ExchangeView,
    events: Seq<EventView>,
    turns: Seq<TurnView>,
    k: int,
    i: int,
)
    requires
        is_run(start, events, turns),
        0 <= k < turns.len(),
        0 <= i < turns[k].notes.len(),
    ensures
        turns[k].notes[i] matches NoteView::BreakerSuccess { backend } ==> start.has_breaker && backend
            == backend_name(start),
        turns[k].notes[i] matches NoteView::BreakerFailure { backend } ==> start.has_breaker && backend
            == backend_name(start),
{
    lemma_explained(start, events, turns, k);
    assert(is_turn(start, events, turns, k));
}

/// How many of the notes count a request or an error.
pub open spec fn counted(notes: Seq<NoteView>) -> nat
    decreases notes.len(),
{
    if notes.len() == 0 {
        0
    } else {
        counted(notes.drop_last()) + if notes.last() is CountError || notes.last() is CountRequest {
            1nat
        } else {
            0nat
        }
    }
}

/// How many of the notes of all turns count a request or an error.
pub open spec fn counted_in_all(turns: Seq<TurnView>) -> nat
    decreases turns.len(),
{
    if turns.len() == 0 {
        0
    } else {
        counted_in_all(turns.drop_last()) + counted(turns.last().notes)
    }
}

proof fn lemma_counted_few(a: NoteView, b: NoteView)
    ensures
        counted(Seq::<NoteView>::empty()) == 0,
        counted(seq![a]) == if a is CountError || a is CountRequest {
            1nat
        } else {
            0nat
        },
        counted(seq![a] + Seq::<NoteView>::empty()) == counted(seq![a]),
        counted(seq![a] + seq![b]) == counted(seq![a]) + counted(seq![b]),
{
    assert(seq![a].drop_last() =~= Seq::<NoteView>::empty());
    assert(seq![b].drop_last() =~= Seq::<NoteView>::empty());
    assert(seq![a] + Seq::<NoteView>::empty() =~= seq![a]);
    assert((seq![a] + seq![b]).drop_last() =~= seq![a]);
    reveal_with_fuel(counted, 2);
}

proof fn lemma_counted_by_turn(exchange: ExchangeView, event: EventView)
    requires
        exchange.expects(event),
    ensures
        counted(exchange.turn(event).notes) == match exchange.phase {
            PhaseView::AskingBreaker { .. } => if event->allowed {
                0nat
            } else {
                1nat
            },
            PhaseView::OpeningStream { .. } => 1,
            PhaseView::AwaitingReply { .. } => 1,
            _ => 0,
        },
{
    let notes = exchange.turn(event).notes;
    if notes.len() > 0 {
        let last = notes.last();
        lemma_counted_few(notes[0], last);
        if notes.len() == 1 {
            assert(notes =~= seq![notes[0]]);
        } else {
            assert(notes =~= seq![notes[0]] + seq![last]);
        }
        lemma_counted_few(last, last);
    } else {
        assert(notes =~= Seq::<NoteView>::empty());
    }
}

proof fn lemma_counted_so_far(
    start: ExchangeView,
    events: Seq<EventView>,
    turns: Seq<TurnView>,
    k: int,
)
    requires
        is_run(start, events, turns),
        0 <= k <= turns.len(),
    ensures
        ({
            let phase = state_at(start, turns, k).phase;
            &&& phase is InResponsePipeline ==> counted_in_all(turns.take(k)) == 1
            &&& !(phase is InResponsePipeline) && !(phase is Answered) ==> counted_in_all(
                turns.take(k),
            ) == 0
            &&& phase is Answered ==> counted_in_all(turns.take(k)) == if events[k - 1]
                == (EventView::TokenChecked { accepted: false }) || events[k - 1] is CacheHit {
                0nat
            } else {
                1nat
            }
        }),
    decreases k,
{
    if k == 0 {
        assert(turns.take(0) =~= Seq::<TurnView>::empty());
    } else {
        lemma_counted_so_far(start, events, turns, k - 1);
        assert(is_turn(start, events, turns, k - 1));
        assert(turns.take(k).drop_last() =~= turns.take(k - 1));
        assert(turns.take(k).last() == turns[k - 1]);
        lemma_counted_by_turn(state_at(start, turns, k - 1), events[k - 1]);
    }
}

/// An answered exchange is counted once, as a request or as an error. Not counted are refused
/// clients and answers from the cache.
pub proof fn law_counted_once(start: ExchangeView, events: Seq<EventView>, turns: Seq<TurnView>)
    requires
        is_run(start, events, turns),
        turns.len() > 0,
        turns.last().command is Reply,
    ensures
        counted_in_all(turns) == if events.last() == (EventView::TokenChecked { accepted: false })
            || events.last() is CacheHit {
            0nat
        } else {
            1nat
        },
{
    let n = turns.len() as int;
    assert(is_turn(start, events, turns, n - 1));
    law_every_turn_moves_on(state_at(start, turns, n - 1), events[n - 1]);
    lemma_counted_so_far(start, events, turns, n);
    assert(turns.take(n) =~= turns);
}

/// The backend is the one that serves the model that the client named, whatever model the
/// pipeline selects; the selected model is what the backend is asked for.
pub proof fn law_backend_of_the_named_model(
    start: ExchangeView,
    events: Seq<EventView>,
    turns: Seq<TurnView>,
    k: int,
)
    requires
        is_run(start, events, turns),
        0 <= k < turns.len(),
        turns[k].reaches_backend(),
    ensures
        ({
            let handed = turns[k].handed_over();
            let profile = profile_for(lowercase(start.request.model));
            &&& handed.backend.name == profile.name
            &&& handed.backend.url == profile.endpoint(profile.protocol)
            &&& handed.backend.protocol == profile.protocol
            &&& handed.backend.model == handed.request.model
        }),
{
    law_what_reaches_the_backend(start, events, turns, k);
}

} // verus!
