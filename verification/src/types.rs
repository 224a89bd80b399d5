//! The OpenAI request and response, as far as the proxy reads them.

use crate::json::{members_view, Json, JsonView, Member};
use vstd::prelude::*;

verus! {

/// One message of a conversation.
pub struct Message {
    pub role: String,
    pub content: Json,
}

/// What a message says.
pub struct MessageView {
    pub role: Seq<char>,
    pub content: JsonView,
}

impl Message {
    pub open spec fn view(&self) -> MessageView {
        MessageView { role: self.role@, content: self.content@ }
    }
}

/// What a list of messages says.
pub open spec fn message_views(messages: Seq<Message>) -> Seq<MessageView> {
    messages.map_values(|m: Message| m@)
}

/// A chat completion request.
pub struct OpenAIRequest {
    pub model: String,
    pub messages: Vec<Message>,
    pub stream: Option<bool>,
    /// The fields that the proxy hands on unread.
    pub extra: Vec<Member>,
}

/// What a request says.
pub struct RequestView {
    pub model: Seq<char>,
    pub messages: Seq<MessageView>,
    pub stream: Option<bool>,
    pub extra: Map<Seq<char>, JsonView>,
}

impl OpenAIRequest {
    pub open spec fn view(&self) -> RequestView {
        RequestView {
            model: self.model@,
            messages: message_views(self.messages@),
            stream: self.stream,
            extra: members_view(self.extra@),
        }
    }
}

/// The tokens that a completion took.
pub struct Usage {
    pub prompt_tokens: u64,
    pub completion_tokens: u64,
    /// The fields that the proxy hands on unread.
    pub extra: Vec<Member>,
}

/// What a count of tokens says.
pub struct UsageView {
    pub prompt_tokens: u64,
    pub completion_tokens: u64,
    pub extra: Map<Seq<char>, JsonView>,
}

impl Usage {
    pub open spec fn view(&self) -> UsageView {
        UsageView {
            prompt_tokens: self.prompt_tokens,
            completion_tokens: self.completion_tokens,
            extra: members_view(self.extra@),
        }
    }
}

/// A count of tokens that may be missing.
pub open spec fn usage_view(usage: Option<Usage>) -> Option<UsageView> {
    match usage {
        Some(counts) => Some(counts@),
        None => None,
    }
}

/// One of the answers of a completion.
pub struct Choice {
    pub content: Option<String>,
    /// The fields of the answer's message that the proxy hands on unread.
    pub message_extra: Vec<Member>,
    /// The fields of the answer that the proxy hands on unread.
    pub extra: Vec<Member>,
}

/// What an answer says.
pub struct ChoiceView {
    pub content: Option<Seq<char>>,
    pub message_extra: Map<Seq<char>, JsonView>,
    pub extra: Map<Seq<char>, JsonView>,
}

/// A text that may be missing.
pub open spec fn text_view(text: Option<String>) -> Option<Seq<char>> {
    match text {
        Some(s) => Some(s@),
        None => None,
    }
}

impl Choice {
    pub open spec fn view(&self) -> ChoiceView {
        ChoiceView {
            content: text_view(self.content),
            message_extra: members_view(self.message_extra@),
            extra: members_view(self.extra@),
        }
    }
}

/// What a list of answers says.
pub open spec fn choice_views(choices: Seq<Choice>) -> Seq<ChoiceView> {
    choices.map_values(|c: Choice| c@)
}

/// A chat completion.
pub struct OpenAIResponse {
    pub model: String,
    pub choices: Vec<Choice>,
    pub usage: Option<Usage>,
    /// The fields that the proxy hands on unread.
    pub extra: Vec<Member>,
}

/// What a completion says.
pub struct ResponseView {
    pub model: Seq<char>,
    pub choices: Seq<ChoiceView>,
    pub usage: Option<UsageView>,
    pub extra: Map<Seq<char>, JsonView>,
}

impl OpenAIResponse {
    pub open spec fn view(&self) -> ResponseView {
        ResponseView {
            model: self.model@,
            choices: choice_views(self.choices@),
            usage: usage_view(self.usage),
            extra: members_view(self.extra@),
        }
    }
}

/// Copies the members of an object.
fn copy_members(members: &Vec<Member>) -> (copies: Vec<Member>)
    ensures
        members_view(copies@) == members_view(members@),
{
    let mut copies: Vec<Member> = Vec::new();
    assert(members@.subrange(0, 0) =~= Seq::<Member>::empty());
    for i in 0..members.len()
        invariant
            members_view(copies@) == members_view(members@.subrange(0, i as int)),
    {
        let ghost before = copies@;
        copies.push(members[i].clone());
        assert(copies@.subrange(0, copies@.len() - 1) =~= before);
        assert(members@.subrange(0, i + 1).subrange(0, i as int) =~= members@.subrange(0, i as int));
    }
    assert(members@.subrange(0, members@.len() as int) =~= members@);
    copies
}

impl Clone for Message {
    fn clone(&self) -> (copy: Self)
        ensures
            copy@ == self@,
    {
        Message { role: self.role.clone(), content: self.content.clone() }
    }
}

impl Clone for OpenAIRequest {
    fn clone(&self) -> (copy: Self)
        ensures
            copy@ == self@,
    {
        let mut messages: Vec<Message> = Vec::new();
        for i in 0..self.messages.len()
            invariant
                messages@.len() == i,
                forall|j: int| 0 <= j < i ==> (#[trigger] messages@[j])@ == self.messages@[j]@,
        {
            messages.push(self.messages[i].clone());
        }
        assert(message_views(messages@) =~= message_views(self.messages@));
        OpenAIRequest {
            model: self.model.clone(),
            messages,
            stream: self.stream,
            extra: copy_members(&self.extra),
        }
    }
}

impl Clone for Usage {
    fn clone(&self) -> (copy: Self)
        ensures
            copy@ == self@,
    {
        Usage {
            prompt_tokens: self.prompt_tokens,
            completion_tokens: self.completion_tokens,
            extra: copy_members(&self.extra),
        }
    }
}

impl Clone for Choice {
    fn clone(&self) -> (copy: Self)
        ensures
            copy@ == self@,
    {
        let content = match &self.content {
            Some(text) => Some(text.clone()),
            None => None,
        };
        Choice {
            content,
            message_extra: copy_members(&self.message_extra),
            extra: copy_members(&self.extra),
        }
    }
}

impl Clone for OpenAIResponse {
    fn clone(&self) -> (copy: Self)
        ensures
            copy@ == self@,
    {
        let mut choices: Vec<Choice> = Vec::new();
        for i in 0..self.choices.len()
            invariant
                choices@.len() == i,
                forall|j: int| 0 <= j < i ==> (#[trigger] choices@[j])@ == self.choices@[j]@,
        {
            choices.push(self.choices[i].clone());
        }
        assert(choice_views(choices@) =~= choice_views(self.choices@));
        let usage = match &self.usage {
            Some(counts) => Some(counts.clone()),
            None => None,
        };
        OpenAIResponse {
            model: self.model.clone(),
            choices,
            usage,
            extra: copy_members(&self.extra),
        }
    }
}

/// What a request says is what stands in its fields.
pub proof fn law_requests_say_what_they_hold(request: OpenAIRequest, i: int)
    ensures
        request@.model == request.model@,
        request@.stream == request.stream,
        request@.extra == members_view(request.extra@),
        request@.messages.len() == request.messages@.len(),
        0 <= i < request.messages@.len() ==> request@.messages[i].role == request.messages@[i].role@
            && request@.messages[i].content == request.messages@[i].content@,
{
}

/// What a completion says is what stands in its fields.
pub proof fn law_responses_say_what_they_hold(response: OpenAIResponse, i: int)
    ensures
        response@.model == response.model@,
        response@.extra == members_view(response.extra@),
        response@.usage is Some <==> response.usage is Some,
        response.usage matches Some(usage) ==> {
            &&& response@.usage->0.prompt_tokens == usage.prompt_tokens
            &&& response@.usage->0.completion_tokens == usage.completion_tokens
            &&& response@.usage->0.extra == members_view(usage.extra@)
        },
        response@.choices.len() == response.choices@.len(),
        0 <= i < response.choices@.len() ==> {
            let said = response@.choices[i];
            let held = response.choices@[i];
            &&& said.message_extra == members_view(held.message_extra@)
            &&& said.extra == members_view(held.extra@)
            &&& said.content is Some <==> held.content is Some
            &&& held.content matches Some(text) ==> said.content == Some(text@)
        },
{
}

/// A text that may be missing is there where it was given, and is the one that was given.
pub proof fn law_text_view(text: String)
    ensures
        text_view(Some(text)) == Some(text@),
        text_view(None) is None,
{
}

} // verus!
