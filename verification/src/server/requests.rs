//! The request that goes to the backend, and the answer that comes back.

use crate::json::{views, Json, JsonView};
use crate::text::{
    blank_around, law_trimmed_ends, law_trimmed_is_the_middle, trimmed, white_space,
};
use crate::types::{
    choice_views, message_views, ChoiceView, Message, MessageView, OpenAIRequest, OpenAIResponse,
    RequestView, ResponseView,
};
use vstd::prelude::*;

verus! {

/// A request with what the pipeline has decided about it.
pub struct RequestContext {
    pub request: OpenAIRequest,
    /// The messages that replace those of the request, where there are any.
    pub modified_messages: Vec<Json>,
    pub selected_model: String,
}

/// What a request context says.
pub struct ContextView {
    pub request: RequestView,
    pub modified_messages: Seq<JsonView>,
    pub selected_model: Seq<char>,
}

impl RequestContext {
    pub open spec fn view(&self) -> ContextView {
        ContextView {
            request: self.request@,
            modified_messages: views(self.modified_messages@),
            selected_model: self.selected_model@,
        }
    }
}

/// The message that a document describes. Without a textual role it is the user's; without
/// content it is empty.
pub open spec fn message_in(doc: JsonView) -> MessageView {
    MessageView {
        role: match doc.field("role"@) {
            Some(JsonView::Text(role)) => role,
            _ => "user"@,
        },
        content: match doc.field("content"@) {
            Some(content) => content,
            None => JsonView::Text(Seq::empty()),
        },
    }
}

/// The request for the backend: the client's, with the modified messages, where there are any,
/// and with the selected model.
pub open spec fn backend_request(ctx: ContextView) -> RequestView {
    RequestView {
        model: ctx.selected_model,
        messages: if ctx.modified_messages.len() > 0 {
            ctx.modified_messages.map_values(|doc: JsonView| message_in(doc))
        } else {
            ctx.request.messages
        },
        ..ctx.request
    }
}

/// Reads a message from a document.
fn read_message(doc: &Json) -> (message: Message)
    ensures
        message@ == message_in(doc@),
{
    let role = match doc.get("role") {
        Some(value) => match value.as_str() {
            Some(role) => role.to_string(),
            None => "user".to_string(),
        },
        None => "user".to_string(),
    };
    let content = match doc.get("content") {
        Some(content) => content.clone(),
        None => Json::Text(String::new()),
    };
    Message { role, content }
}

/// Builds the request for the backend.
pub fn build_backend_request(ctx: &RequestContext) -> (request: OpenAIRequest)
    ensures
        request@ == backend_request(ctx@),
        request@.extra == ctx@.request.extra,
        request@.stream == ctx@.request.stream,
        request@.model == ctx@.selected_model,
        ctx.modified_messages@.len() == 0 ==> request@.messages == ctx@.request.messages,
        ctx.modified_messages@.len() > 0 ==> request.messages@.len()
            == ctx.modified_messages@.len(),
{
    let mut request = ctx.request.clone();
    if ctx.modified_messages.len() > 0 {
        let mut messages: Vec<Message> = Vec::new();
        for i in 0..ctx.modified_messages.len()
            invariant
                messages@.len() == i,
                forall|j: int|
                    0 <= j < i ==> (#[trigger] messages@[j])@ == message_in(
                        ctx.modified_messages@[j]@,
                    ),
        {
            messages.push(read_message(&ctx.modified_messages[i]));
        }
        assert(message_views(messages@) =~= ctx@.modified_messages.map_values(
            |doc: JsonView| message_in(doc),
        ));
        request.messages = messages;
    }
    request.model = ctx.selected_model.clone();
    request
}

/// An answer without the white space at the ends of its text.
pub open spec fn tidy_choice(choice: ChoiceView) -> ChoiceView {
    ChoiceView {
        content: match choice.content {
            Some(text) => Some(trimmed(text)),
            None => None,
        },
        ..choice
    }
}

/// A completion whose first answer is tidied.
pub open spec fn tidy_response(response: ResponseView) -> ResponseView {
    if response.choices.len() > 0 {
        ResponseView {
            choices: response.choices.update(0, tidy_choice(response.choices[0])),
            ..response
        }
    } else {
        response
    }
}

/// Drops the white space at the ends of the first answer.
pub fn tidy(response: OpenAIResponse) -> (tidied: OpenAIResponse)
    ensures
        tidied@ == tidy_response(response@),
        tidied@.model == response@.model,
        tidied@.usage == response@.usage,
        tidied@.extra == response@.extra,
        tidied@.choices.len() == response@.choices.len(),
        forall|i: int|
            0 <= i < response@.choices.len() ==> (#[trigger] tidied@.choices[i]).message_extra
                == response@.choices[i].message_extra && tidied@.choices[i].extra
                == response@.choices[i].extra,
        forall|i: int|
            0 < i < response@.choices.len() ==> #[trigger] tidied@.choices[i]
                == response@.choices[i],
{
    let mut tidied = response;
    if tidied.choices.len() > 0 {
        let mut first = tidied.choices[0].clone();
        first.content = match &first.content {
            Some(text) => Some(text.as_str().trim().to_string()),
            None => None,
        };
        tidied.choices.set(0, first);
        assert(choice_views(tidied.choices@) =~= response@.choices.update(
            0,
            tidy_choice(response@.choices[0]),
        ));
    }
    tidied
}

/// Whatever the pipeline decides, the request for the backend has the stream flag and all unread
/// fields of the request that the pipeline left, and the selected model.
pub proof fn law_request_fields_kept(ctx: ContextView)
    ensures
        backend_request(ctx).extra == ctx.request.extra,
        backend_request(ctx).stream == ctx.request.stream,
        backend_request(ctx).model == ctx.selected_model,
{
}

/// Without modified messages the request keeps its own. With them it has these and no others, in
/// their order: each with its textual role, or else the user's, and with its content, or else an
/// empty text.
pub proof fn law_messages_of_the_request(ctx: ContextView, i: int)
    ensures
        ctx.modified_messages.len() == 0 ==> backend_request(ctx).messages == ctx.request.messages,
        ctx.modified_messages.len() > 0 ==> backend_request(ctx).messages.len()
            == ctx.modified_messages.len(),
        0 <= i < ctx.modified_messages.len() ==> ({
            let doc = ctx.modified_messages[i];
            let message = backend_request(ctx).messages[i];
            let members = doc->Object_0;
            let has_role = doc is Object && members.contains_key("role"@);
            let has_content = doc is Object && members.contains_key("content"@);
            &&& has_role && members["role"@] is Text ==> message.role == members["role"@]->Text_0
            &&& !(has_role && members["role"@] is Text) ==> message.role == "user"@
            &&& has_content ==> message.content == members["content"@]
            &&& !has_content ==> message.content == JsonView::Text(Seq::empty())
        }),
{
}

/// Tidying changes the text of the first answer and nothing else: the completion keeps its model,
/// its usage and all unread fields, and every answer, the first one too, keeps all that is not its
/// text.
pub proof fn law_answers_keep_their_fields(response: ResponseView, i: int)
    ensures
        tidy_response(response).model == response.model,
        tidy_response(response).usage == response.usage,
        tidy_response(response).extra == response.extra,
        tidy_response(response).choices.len() == response.choices.len(),
        0 <= i < response.choices.len() ==> ({
            let before = response.choices[i];
            let after = tidy_response(response).choices[i];
            &&& after.message_extra == before.message_extra
            &&& after.extra == before.extra
            &&& after.content is Some <==> before.content is Some
            &&& i > 0 ==> after.content == before.content
        }),
{
}

/// The text of the first answer loses the white space at its ends, and nothing else.
pub proof fn law_first_answer_is_trimmed(response: ResponseView)
    requires
        response.choices.len() > 0,
        response.choices[0].content is Some,
    ensures
        ({
            let before = response.choices[0].content->0;
            let after = tidy_response(response).choices[0].content->0;
            &&& exists|from: int, to: int| #[trigger]
                blank_around(before, from, to) && after == before.subrange(from, to)
            &&& after.len() > 0 ==> !white_space(after[0]) && !white_space(after.last())
        }),
{
    let text = response.choices[0].content->0;
    law_trimmed_is_the_middle(text);
    law_trimmed_ends(text);
}

/// What a request context says is what stands in its fields.
pub proof fn law_contexts_say_what_they_hold(ctx: RequestContext, i: int)
    ensures
        ctx@.request == ctx.request@,
        ctx@.selected_model == ctx.selected_model@,
        ctx@.modified_messages.len() == ctx.modified_messages@.len(),
        0 <= i < ctx.modified_messages@.len() ==> ctx@.modified_messages[i]
            == ctx.modified_messages@[i]@,
{
}

} // verus!
