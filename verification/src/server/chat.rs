//! How a chat completion request is answered.
//!
//! The decisions are here; the work between them is not. A [`ChatExchange`] takes what has
//! happened as a [`ChatEvent`] and says what to do about it: notes to leave with the metrics,
//! the circuit breaker and the cache, and one command, whose outcome is the next event.

use crate::adapter::{BackendConfig, BackendView, Protocol};
use crate::json::{views, Json, JsonView};
use crate::server::backends::{backend_for, backend_profile, profile_for, select_backend_by_model};
use crate::server::documents::{error_document, error_view};
use crate::server::requests::{
    backend_request, build_backend_request, tidy, tidy_response, ContextView, RequestContext,
};
use crate::text::lowercase;
use crate::types::{text_view, OpenAIRequest, OpenAIResponse, RequestView, ResponseView};
use vstd::prelude::*;

verus! {

/// The status of an answer to a client without a valid key.
pub const UNAUTHORIZED: u16 = 401;

/// The status of an answer that the backend's failure forces.
pub const BAD_GATEWAY: u16 = 502;

/// The status of an answer while the circuit breaker is open.
pub const SERVICE_UNAVAILABLE: u16 = 503;

/// Whether a client may ask, from what was found of its bearer token: `None` where it sent none,
/// and else whether the token is one of the keys.
pub fn token_accepted(verified: Option<bool>) -> (accepted: bool)
    ensures
        accepted == (verified == Some(true)),
{
    match verified {
        Some(known) => known,
        None => false,
    }
}

/// A request on its way to a backend.
pub struct Outbound {
    pub backend: BackendConfig,
    pub request: OpenAIRequest,
}

pub struct OutboundView {
    pub backend: BackendView,
    pub request: RequestView,
}

impl Outbound {
    pub open spec fn view(&self) -> OutboundView {
        OutboundView { backend: self.backend@, request: self.request@ }
    }
}

/// What an exchange waits for.
pub enum Phase {
    /// The configuration.
    Arrived,
    /// The check of the client's bearer token.
    CheckingToken,
    /// The request pipeline, and the key of the backend.
    InRequestPipeline,
    /// The word of the circuit breaker.
    AskingBreaker { outbound: Outbound },
    /// The response cache.
    ReadingCache { outbound: Outbound },
    /// A backend that is asked for a stream.
    OpeningStream { outbound: Outbound },
    /// A backend that is asked for a completion.
    AwaitingReply { backend: String },
    /// The response pipeline.
    InResponsePipeline { response: OpenAIResponse },
    /// Nothing more.
    Answered,
}

pub enum PhaseView {
    Arrived,
    CheckingToken,
    InRequestPipeline,
    AskingBreaker { outbound: OutboundView },
    ReadingCache { outbound: OutboundView },
    OpeningStream { outbound: OutboundView },
    AwaitingReply { backend: Seq<char> },
    InResponsePipeline { response: ResponseView },
    Answered,
}

impl Phase {
    pub open spec fn view(&self) -> PhaseView {
        match self {
            Phase::Arrived => PhaseView::Arrived,
            Phase::CheckingToken => PhaseView::CheckingToken,
            Phase::InRequestPipeline => PhaseView::InRequestPipeline,
            Phase::AskingBreaker { outbound } => PhaseView::AskingBreaker { outbound: outbound@ },
            Phase::ReadingCache { outbound } => PhaseView::ReadingCache { outbound: outbound@ },
            Phase::OpeningStream { outbound } => PhaseView::OpeningStream { outbound: outbound@ },
            Phase::AwaitingReply { backend } => PhaseView::AwaitingReply { backend: backend@ },
            Phase::InResponsePipeline { response } => PhaseView::InResponsePipeline {
                response: response@,
            },
            Phase::Answered => PhaseView::Answered,
        }
    }
}

/// One chat completion request and how far it has come.
pub struct ChatExchange {
    pub request: OpenAIRequest,
    /// Whether there is a circuit breaker.
    pub has_breaker: bool,
    /// Whether there is a response cache.
    pub has_cache: bool,
    pub phase: Phase,
}

pub struct ExchangeView {
    pub request: RequestView,
    pub has_breaker: bool,
    pub has_cache: bool,
    pub phase: PhaseView,
}

/// What has happened.
pub enum ChatEvent {
    ConfigRead { auth_enabled: bool, has_api_keys: bool },
    TokenChecked { accepted: bool },
    /// What the request pipeline leaves: the request, the model that it selects, and the messages
    /// that take the place of the request's, where there are any.
    RequestProcessed {
        request: OpenAIRequest,
        selected_model: String,
        modified_messages: Vec<Json>,
        /// What the environment variable of the backend's key holds.
        api_key: Option<String>,
    },
    BreakerAnswered { allowed: bool },
    CacheMissed,
    /// The cache holds a document; `None` where it is no completion.
    CacheHit { cached: Option<OpenAIResponse> },
    StreamOpened,
    ReplyReceived { response: OpenAIResponse, latency_ms: u64 },
    BackendFailed { error: String },
    /// The raw document is what the response pipeline leaves for the cache.
    ResponseProcessed { raw: Option<Json> },
}

pub enum EventView {
    ConfigRead { auth_enabled: bool, has_api_keys: bool },
    TokenChecked { accepted: bool },
    RequestProcessed {
        request: RequestView,
        selected_model: Seq<char>,
        modified_messages: Seq<JsonView>,
        api_key: Option<Seq<char>>,
    },
    BreakerAnswered { allowed: bool },
    CacheMissed,
    CacheHit { cached: Option<ResponseView> },
    StreamOpened,
    ReplyReceived { response: ResponseView, latency_ms: u64 },
    BackendFailed { error: Seq<char> },
    ResponseProcessed { raw: Option<JsonView> },
}

impl ChatEvent {
    pub open spec fn view(&self) -> EventView {
        match self {
            ChatEvent::ConfigRead { auth_enabled, has_api_keys } => EventView::ConfigRead {
                auth_enabled: *auth_enabled,
                has_api_keys: *has_api_keys,
            },
            ChatEvent::TokenChecked { accepted } => EventView::TokenChecked { accepted: *accepted },
            ChatEvent::RequestProcessed { request, selected_model, modified_messages, api_key } =>
                EventView::RequestProcessed {
                request: request@,
                selected_model: selected_model@,
                modified_messages: views(modified_messages@),
                api_key: text_view(*api_key),
            },
            ChatEvent::BreakerAnswered { allowed } => EventView::BreakerAnswered {
                allowed: *allowed,
            },
            ChatEvent::CacheMissed => EventView::CacheMissed,
            ChatEvent::CacheHit { cached } => EventView::CacheHit {
                cached: match cached {
                    Some(completion) => Some(completion@),
                    None => None,
                },
            },
            ChatEvent::StreamOpened => EventView::StreamOpened,
            ChatEvent::ReplyReceived { response, latency_ms } => EventView::ReplyReceived {
                response: response@,
                latency_ms: *latency_ms,
            },
            ChatEvent::BackendFailed { error } => EventView::BackendFailed { error: error@ },
            ChatEvent::ResponseProcessed { raw } => EventView::ResponseProcessed {
                raw: match raw {
                    Some(doc) => Some(doc@),
                    None => None,
                },
            },
        }
    }
}

/// A note to leave on the way.
pub enum Note {
    CountError,
    CountCacheHit,
    CountRequest { model: String, tokens_in: u64, tokens_out: u64, latency_ms: u64 },
    BreakerSuccess { backend: String },
    BreakerFailure { backend: String },
    /// Store a document as the answer to the request.
    StoreInCache { request: OpenAIRequest, raw: Json },
}

pub enum NoteView {
    CountError,
    CountCacheHit,
    CountRequest { model: Seq<char>, tokens_in: u64, tokens_out: u64, latency_ms: u64 },
    BreakerSuccess { backend: Seq<char> },
    BreakerFailure { backend: Seq<char> },
    StoreInCache { request: RequestView, raw: JsonView },
}

impl Note {
    pub open spec fn view(&self) -> NoteView {
        match self {
            Note::CountError => NoteView::CountError,
            Note::CountCacheHit => NoteView::CountCacheHit,
            Note::CountRequest { model, tokens_in, tokens_out, latency_ms } =>
                NoteView::CountRequest {
                model: model@,
                tokens_in: *tokens_in,
                tokens_out: *tokens_out,
                latency_ms: *latency_ms,
            },
            Note::BreakerSuccess { backend } => NoteView::BreakerSuccess { backend: backend@ },
            Note::BreakerFailure { backend } => NoteView::BreakerFailure { backend: backend@ },
            Note::StoreInCache { request, raw } => NoteView::StoreInCache {
                request: request@,
                raw: raw@,
            },
        }
    }
}

/// What a list of notes says.
pub open spec fn note_views(notes: Seq<Note>) -> Seq<NoteView> {
    notes.map_values(|n: Note| n@)
}

/// What the client is sent.
pub enum Answer {
    Failure { status: u16, body: Json },
    Completion { response: OpenAIResponse },
    /// The events of the backend's stream, which speaks `protocol`.
    Stream { protocol: Protocol, model: String },
}

pub enum AnswerView {
    Failure { status: u16, body: JsonView },
    Completion { response: ResponseView },
    Stream { protocol: Protocol, model: Seq<char> },
}

impl Answer {
    pub open spec fn view(&self) -> AnswerView {
        match self {
            Answer::Failure { status, body } => AnswerView::Failure { status: *status, body: body@ },
            Answer::Completion { response } => AnswerView::Completion { response: response@ },
            Answer::Stream { protocol, model } => AnswerView::Stream {
                protocol: *protocol,
                model: model@,
            },
        }
    }
}

/// What to do next.
pub enum Command {
    CheckToken,
    /// Run the request pipeline on the request and read the environment variable `env_key`.
    RunRequestPipeline { request: OpenAIRequest, env_key: &'static str },
    AskBreaker { model: String },
    /// Look for the answer to the request.
    ReadCache { request: OpenAIRequest },
    OpenStream { outbound: Outbound },
    Send { outbound: Outbound },
    /// Run the response pipeline on the answer to the request.
    RunResponsePipeline { request: OpenAIRequest, response: OpenAIResponse },
    Reply { answer: Answer },
}

pub enum CommandView {
    CheckToken,
    RunRequestPipeline { request: RequestView, env_key: Seq<char> },
    AskBreaker { model: Seq<char> },
    ReadCache { request: RequestView },
    OpenStream { outbound: OutboundView },
    Send { outbound: OutboundView },
    RunResponsePipeline { request: RequestView, response: ResponseView },
    Reply { answer: AnswerView },
}

impl Command {
    pub open spec fn view(&self) -> CommandView {
        match self {
            Command::CheckToken => CommandView::CheckToken,
            Command::RunRequestPipeline { request, env_key } => CommandView::RunRequestPipeline {
                request: request@,
                env_key: env_key@,
            },
            Command::AskBreaker { model } => CommandView::AskBreaker { model: model@ },
            Command::ReadCache { request } => CommandView::ReadCache { request: request@ },
            Command::OpenStream { outbound } => CommandView::OpenStream { outbound: outbound@ },
            Command::Send { outbound } => CommandView::Send { outbound: outbound@ },
            Command::RunResponsePipeline { request, response } => CommandView::RunResponsePipeline {
                request: request@,
                response: response@,
            },
            Command::Reply { answer } => CommandView::Reply { answer: answer@ },
        }
    }
}

/// What an exchange makes of an event.
pub struct Turn {
    pub exchange: ChatExchange,
    pub notes: Vec<Note>,
    pub command: Command,
}

pub struct TurnView {
    pub exchange: ExchangeView,
    pub notes: Seq<NoteView>,
    pub command: CommandView,
}

impl Turn {
    pub open spec fn view(&self) -> TurnView {
        TurnView {
            exchange: self.exchange@,
            notes: note_views(self.notes@),
            command: self.command@,
        }
    }
}

impl ExchangeView {
    /// Whether this is the event that the exchange waits for.
    pub open spec fn expects(self, event: EventView) -> bool {
        match self.phase {
            PhaseView::Arrived => event is ConfigRead,
            PhaseView::CheckingToken => event is TokenChecked,
            PhaseView::InRequestPipeline => event is RequestProcessed,
            PhaseView::AskingBreaker { .. } => event is BreakerAnswered,
            PhaseView::ReadingCache { .. } => event is CacheMissed || event is CacheHit,
            PhaseView::OpeningStream { .. } => event is StreamOpened || event is BackendFailed,
            PhaseView::AwaitingReply { .. } => event is ReplyReceived || event is BackendFailed,
            PhaseView::InResponsePipeline { .. } => event is ResponseProcessed,
            PhaseView::Answered => false,
        }
    }

    /// The turn that waits in `phase` for the outcome of `command`.
    pub open spec fn goes_on(
        self,
        notes: Seq<NoteView>,
        phase: PhaseView,
        command: CommandView,
    ) -> TurnView {
        TurnView { exchange: ExchangeView { phase, ..self }, notes, command }
    }

    /// The turn that ends the exchange.
    pub open spec fn answers(self, notes: Seq<NoteView>, answer: AnswerView) -> TurnView {
        self.goes_on(notes, PhaseView::Answered, CommandView::Reply { answer })
    }

    /// The turn that ends the exchange with an error.
    pub open spec fn fails(
        self,
        notes: Seq<NoteView>,
        status: u16,
        message: Seq<char>,
        kind: Seq<char>,
    ) -> TurnView {
        self.answers(notes, AnswerView::Failure { status, body: error_view(message, kind) })
    }

    /// The client may ask: the pipeline comes next.
    pub open spec fn admits(self) -> TurnView {
        self.goes_on(
            seq![],
            PhaseView::InRequestPipeline,
            CommandView::RunRequestPipeline {
                request: self.request,
                env_key: profile_for(lowercase(self.request.model)).env_key,
            },
        )
    }

    /// Whether the client asks for a stream.
    pub open spec fn wants_stream(self) -> bool {
        self.request.stream == Some(true)
    }

    /// The request goes to the backend.
    pub open spec fn sends(self, notes: Seq<NoteView>, outbound: OutboundView) -> TurnView {
        if self.wants_stream() {
            self.goes_on(
                notes,
                PhaseView::OpeningStream { outbound },
                CommandView::OpenStream { outbound },
            )
        } else {
            self.goes_on(
                notes,
                PhaseView::AwaitingReply { backend: outbound.backend.name },
                CommandView::Send { outbound },
            )
        }
    }

    /// The cache is read, where there is one.
    pub open spec fn tries_cache(self, outbound: OutboundView) -> TurnView {
        if self.has_cache {
            self.goes_on(
                seq![],
                PhaseView::ReadingCache { outbound },
                CommandView::ReadCache { request: self.request },
            )
        } else {
            self.sends(seq![], outbound)
        }
    }

    /// The circuit breaker is asked, where there is one.
    pub open spec fn tries_breaker(self, outbound: OutboundView) -> TurnView {
        if self.has_breaker {
            self.goes_on(
                seq![],
                PhaseView::AskingBreaker { outbound },
                CommandView::AskBreaker { model: outbound.request.model },
            )
        } else {
            self.tries_cache(outbound)
        }
    }

    /// What goes to the backend: the request as the pipeline left it in `ctx`, to the backend
    /// that serves the model that the client named.
    pub open spec fn outbound(self, ctx: ContextView, api_key: Option<Seq<char>>) -> OutboundView {
        OutboundView {
            backend: BackendView {
                model: ctx.selected_model,
                ..backend_for(self.request.model, None, api_key)
            },
            request: backend_request(ctx),
        }
    }

    /// A note for the circuit breaker, where there is one.
    pub open spec fn breaker_note(self, note: NoteView) -> Seq<NoteView> {
        if self.has_breaker {
            seq![note]
        } else {
            seq![]
        }
    }

    /// The backend has failed: the error is counted, the breaker told and the client answered.
    pub open spec fn gateway_fails(self, backend: Seq<char>, error: Seq<char>) -> TurnView {
        self.fails(
            seq![NoteView::CountError] + self.breaker_note(NoteView::BreakerFailure { backend }),
            BAD_GATEWAY,
            error,
            "server_error"@,
        )
    }

    /// What the exchange makes of an event that it expects.
    pub open spec fn turn(self, event: EventView) -> TurnView {
        match (self.phase, event) {
            (PhaseView::Arrived, EventView::ConfigRead { auth_enabled, has_api_keys }) => {
                if auth_enabled && has_api_keys {
                    self.goes_on(seq![], PhaseView::CheckingToken, CommandView::CheckToken)
                } else {
                    self.admits()
                }
            },
            (PhaseView::CheckingToken, EventView::TokenChecked { accepted }) => {
                if accepted {
                    self.admits()
                } else {
                    self.fails(seq![], UNAUTHORIZED, "Unauthorized"@, "auth_error"@)
                }
            },
            (
                PhaseView::InRequestPipeline,
                EventView::RequestProcessed { request, selected_model, modified_messages, api_key },
            ) => self.tries_breaker(
                self.outbound(ContextView { request, modified_messages, selected_model }, api_key),
            ),
            (PhaseView::AskingBreaker { outbound }, EventView::BreakerAnswered { allowed }) => {
                if allowed {
                    self.tries_cache(outbound)
                } else {
                    self.fails(
                        seq![NoteView::CountError],
                        SERVICE_UNAVAILABLE,
                        "circuit breaker open"@,
                        "server_error"@,
                    )
                }
            },
            (PhaseView::ReadingCache { outbound }, EventView::CacheHit { cached }) => {
                match cached {
                    Some(completion) => self.answers(
                        seq![NoteView::CountCacheHit],
                        AnswerView::Completion { response: completion },
                    ),
                    None => self.sends(seq![NoteView::CountCacheHit], outbound),
                }
            },
            (PhaseView::ReadingCache { outbound }, EventView::CacheMissed) => self.sends(seq![], outbound),
            (PhaseView::OpeningStream { outbound }, EventView::BackendFailed { error }) =>
                self.gateway_fails(outbound.backend.name, error),
            (PhaseView::OpeningStream { outbound }, EventView::StreamOpened) => self.answers(
                seq![
                    NoteView::CountRequest {
                        model: outbound.request.model,
                        tokens_in: 0,
                        tokens_out: 0,
                        latency_ms: 0,
                    },
                ] + self.breaker_note(NoteView::BreakerSuccess { backend: outbound.backend.name }),
                AnswerView::Stream {
                    protocol: outbound.backend.protocol,
                    model: outbound.request.model,
                },
            ),
            (PhaseView::AwaitingReply { backend }, EventView::BackendFailed { error }) =>
                self.gateway_fails(backend, error),
            (
                PhaseView::AwaitingReply { backend },
                EventView::ReplyReceived { response, latency_ms },
            ) => self.goes_on(
                seq![
                    NoteView::CountRequest {
                        model: response.model,
                        tokens_in: match response.usage {
                            Some(usage) => usage.prompt_tokens,
                            None => 0,
                        },
                        tokens_out: match response.usage {
                            Some(usage) => usage.completion_tokens,
                            None => 0,
                        },
                        latency_ms,
                    },
                ] + self.breaker_note(NoteView::BreakerSuccess { backend }),
                PhaseView::InResponsePipeline { response },
                CommandView::RunResponsePipeline { request: self.request, response },
            ),
            (
                PhaseView::InResponsePipeline { response },
                EventView::ResponseProcessed { raw },
            ) => self.answers(
                match raw {
                    Some(doc) => if self.has_cache {
                        seq![NoteView::StoreInCache { request: self.request, raw: doc }]
                    } else {
                        seq![]
                    },
                    None => seq![],
                },
                AnswerView::Completion { response: tidy_response(response) },
            ),
            _ => arbitrary(),
        }
    }
}

impl ChatExchange {
    pub open spec fn view(&self) -> ExchangeView {
        ExchangeView {
            request: self.request@,
            has_breaker: self.has_breaker,
            has_cache: self.has_cache,
            phase: self.phase@,
        }
    }

    /// A request that has just come in.
    pub fn new(request: OpenAIRequest, has_breaker: bool, has_cache: bool) -> (exchange: ChatExchange)
        ensures
            exchange@ == (ExchangeView {
                request: request@,
                has_breaker,
                has_cache,
                phase: PhaseView::Arrived,
            }),
    {
        ChatExchange { request, has_breaker, has_cache, phase: Phase::Arrived }
    }

    fn goes_on(self, notes: Vec<Note>, phase: Phase, command: Command) -> (turn: Turn)
        ensures
            turn@ == self@.goes_on(note_views(notes@), phase@, command@),
    {
        Turn {
            exchange: ChatExchange {
                request: self.request,
                has_breaker: self.has_breaker,
                has_cache: self.has_cache,
                phase,
            },
            notes,
            command,
        }
    }

    fn fails(self, notes: Vec<Note>, status: u16, message: &str, kind: &str) -> (turn: Turn)
        ensures
            turn@ == self@.fails(note_views(notes@), status, message@, kind@),
    {
        let body = error_document(message, kind);
        self.goes_on(
            notes,
            Phase::Answered,
            Command::Reply { answer: Answer::Failure { status, body } },
        )
    }

    fn admits(self) -> (turn: Turn)
        ensures
            turn@ == self@.admits(),
    {
        let profile = backend_profile(self.request.model.as_str());
        let request = self.request.clone();
        let notes: Vec<Note> = Vec::new();
        assert(note_views(notes@) =~= seq![]);
        self.goes_on(
            notes,
            Phase::InRequestPipeline,
            Command::RunRequestPipeline { request, env_key: profile.env_key },
        )
    }

    fn sends(self, notes: Vec<Note>, outbound: Outbound) -> (turn: Turn)
        ensures
            turn@ == self@.sends(note_views(notes@), outbound@),
    {
        let wants_stream = match self.request.stream {
            Some(stream) => stream,
            None => false,
        };
        if wants_stream {
            let sent = Outbound {
                backend: outbound.backend.clone(),
                request: outbound.request.clone(),
            };
            self.goes_on(
                notes,
                Phase::OpeningStream { outbound },
                Command::OpenStream { outbound: sent },
            )
        } else {
            let backend = outbound.backend.name.clone();
            self.goes_on(notes, Phase::AwaitingReply { backend }, Command::Send { outbound })
        }
    }

    fn tries_cache(self, outbound: Outbound) -> (turn: Turn)
        ensures
            turn@ == self@.tries_cache(outbound@),
    {
        let notes: Vec<Note> = Vec::new();
        assert(note_views(notes@) =~= seq![]);
        if self.has_cache {
            let request = self.request.clone();
            self.goes_on(notes, Phase::ReadingCache { outbound }, Command::ReadCache { request })
        } else {
            self.sends(notes, outbound)
        }
    }

    fn tries_breaker(self, outbound: Outbound) -> (turn: Turn)
        ensures
            turn@ == self@.tries_breaker(outbound@),
    {
        if self.has_breaker {
            let notes: Vec<Note> = Vec::new();
            assert(note_views(notes@) =~= seq![]);
            let model = outbound.request.model.clone();
            self.goes_on(notes, Phase::AskingBreaker { outbound }, Command::AskBreaker { model })
        } else {
            self.tries_cache(outbound)
        }
    }

    fn outbound(&self, ctx: &RequestContext, api_key: Option<String>) -> (outbound: Outbound)
        ensures
            outbound@ == self@.outbound(ctx@, text_view(api_key)),
    {
        let mut backend = select_backend_by_model(self.request.model.as_str(), None, api_key);
        backend.model = ctx.selected_model.clone();
        Outbound { backend, request: build_backend_request(ctx) }
    }

    fn gateway_fails(self, backend: String, error: &str) -> (turn: Turn)
        ensures
            turn@ == self@.gateway_fails(backend@, error@),
    {
        let mut notes: Vec<Note> = Vec::new();
        notes.push(Note::CountError);
        if self.has_breaker {
            notes.push(Note::BreakerFailure { backend });
        }
        assert(note_views(notes@) =~= seq![NoteView::CountError] + self@.breaker_note(
            NoteView::BreakerFailure { backend: backend@ },
        ));
        self.fails(notes, BAD_GATEWAY, error, "server_error")
    }

    fn served(&self, counted: Note, backend: String) -> (notes: Vec<Note>)
        ensures
            note_views(notes@) == seq![counted@] + self@.breaker_note(
                NoteView::BreakerSuccess { backend: backend@ },
            ),
    {
        let mut notes: Vec<Note> = Vec::new();
        notes.push(counted);
        if self.has_breaker {
            notes.push(Note::BreakerSuccess { backend });
        }
        assert(note_views(notes@) =~= seq![counted@] + self@.breaker_note(
            NoteView::BreakerSuccess { backend: backend@ },
        ));
        notes
    }

    /// Whether this is the event that the exchange waits for.
    pub fn expects(&self, event: &ChatEvent) -> (yes: bool)
        ensures
            yes == self@.expects(event@),
    {
        match (&self.phase, event) {
            (Phase::Arrived, ChatEvent::ConfigRead { .. }) => true,
            (Phase::CheckingToken, ChatEvent::TokenChecked { .. }) => true,
            (Phase::InRequestPipeline, ChatEvent::RequestProcessed { .. }) => true,
            (Phase::AskingBreaker { .. }, ChatEvent::BreakerAnswered { .. }) => true,
            (Phase::ReadingCache { .. }, ChatEvent::CacheMissed) => true,
            (Phase::ReadingCache { .. }, ChatEvent::CacheHit { .. }) => true,
            (Phase::OpeningStream { .. }, ChatEvent::StreamOpened) => true,
            (Phase::OpeningStream { .. }, ChatEvent::BackendFailed { .. }) => true,
            (Phase::AwaitingReply { .. }, ChatEvent::ReplyReceived { .. }) => true,
            (Phase::AwaitingReply { .. }, ChatEvent::BackendFailed { .. }) => true,
            (Phase::InResponsePipeline { .. }, ChatEvent::ResponseProcessed { .. }) => true,
            _ => false,
        }
    }

    /// Takes the event that the exchange waits for and says what to do about it.
    pub fn turn(self, event: ChatEvent) -> (turn: Turn)
        requires
            self@.expects(event@),
        ensures
            turn@ == self@.turn(event@),
    {
        let ChatExchange { request, has_breaker, has_cache, phase } = self;
        let rest = ChatExchange { request, has_breaker, has_cache, phase: Phase::Answered };
        let mut notes: Vec<Note> = Vec::new();
        assert(note_views(notes@) =~= seq![]);
        match (phase, event) {
            (Phase::Arrived, ChatEvent::ConfigRead { auth_enabled, has_api_keys }) => {
                if auth_enabled && has_api_keys {
                    rest.goes_on(notes, Phase::CheckingToken, Command::CheckToken)
                } else {
                    rest.admits()
                }
            },
            (Phase::CheckingToken, ChatEvent::TokenChecked { accepted }) => {
                if accepted {
                    rest.admits()
                } else {
                    rest.fails(notes, UNAUTHORIZED, "Unauthorized", "auth_error")
                }
            },
            (
                Phase::InRequestPipeline,
                ChatEvent::RequestProcessed { request, selected_model, modified_messages, api_key },
            ) => {
                let ctx = RequestContext { request, modified_messages, selected_model };
                let outbound = rest.outbound(&ctx, api_key);
                rest.tries_breaker(outbound)
            },
            (Phase::AskingBreaker { outbound }, ChatEvent::BreakerAnswered { allowed }) => {
                if allowed {
                    rest.tries_cache(outbound)
                } else {
                    notes.push(Note::CountError);
                    assert(note_views(notes@) =~= seq![NoteView::CountError]);
                    rest.fails(
                        notes,
                        SERVICE_UNAVAILABLE,
                        "circuit breaker open",
                        "server_error",
                    )
                }
            },
            (Phase::ReadingCache { outbound }, ChatEvent::CacheHit { cached }) => {
                notes.push(Note::CountCacheHit);
                assert(note_views(notes@) =~= seq![NoteView::CountCacheHit]);
                match cached {
                    Some(response) => rest.goes_on(
                        notes,
                        Phase::Answered,
                        Command::Reply { answer: Answer::Completion { response } },
                    ),
                    None => rest.sends(notes, outbound),
                }
            },
            (Phase::ReadingCache { outbound }, ChatEvent::CacheMissed) => rest.sends(
                notes,
                outbound,
            ),
            (Phase::OpeningStream { outbound }, ChatEvent::BackendFailed { error }) =>
                rest.gateway_fails(outbound.backend.name, error.as_str()),
            (Phase::OpeningStream { outbound }, ChatEvent::StreamOpened) => {
                let model = outbound.request.model;
                let counted = Note::CountRequest {
                    model: model.clone(),
                    tokens_in: 0,
                    tokens_out: 0,
                    latency_ms: 0,
                };
                let served = rest.served(counted, outbound.backend.name);
                let protocol = outbound.backend.protocol;
                rest.goes_on(
                    served,
                    Phase::Answered,
                    Command::Reply { answer: Answer::Stream { protocol, model } },
                )
            },
            (Phase::AwaitingReply { backend }, ChatEvent::BackendFailed { error }) =>
                rest.gateway_fails(backend, error.as_str()),
            (
                Phase::AwaitingReply { backend },
                ChatEvent::ReplyReceived { response, latency_ms },
            ) => {
                let (tokens_in, tokens_out): (u64, u64) = match &response.usage {
                    Some(usage) => (usage.prompt_tokens, usage.completion_tokens),
                    None => (0, 0),
                };
                let counted = Note::CountRequest {
                    model: response.model.clone(),
                    tokens_in,
                    tokens_out,
                    latency_ms,
                };
                let served = rest.served(counted, backend);
                let request = rest.request.clone();
                let processed = response.clone();
                rest.goes_on(
                    served,
                    Phase::InResponsePipeline { response },
                    Command::RunResponsePipeline { request, response: processed },
                )
            },
            (Phase::InResponsePipeline { response }, ChatEvent::ResponseProcessed { raw }) => {
                if let Some(doc) = raw {
                    if has_cache {
                        let request = rest.request.clone();
                        notes.push(Note::StoreInCache { request, raw: doc });
                        assert(note_views(notes@) =~= seq![
                            NoteView::StoreInCache { request: rest@.request, raw: doc@ },
                        ]);
                    }
                }
                rest.goes_on(
                    notes,
                    Phase::Answered,
                    Command::Reply { answer: Answer::Completion { response: tidy(response) } },
                )
            },
            _ => vstd::pervasive::unreached(),
        }
    }
}

} // verus!
