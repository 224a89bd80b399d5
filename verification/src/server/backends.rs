//! Which backend serves a model.

use crate::adapter::{BackendConfig, BackendView, Protocol};
use crate::text::{ascii_lowercase, lowercase, starts_with};
use crate::types::text_view;
use vstd::prelude::*;
use vstd::utf8::is_ascii_chars;

verus! {

/// What is known of a backend before a request comes.
pub struct BackendProfile {
    pub name: &'static str,
    /// Where the backend speaks the OpenAI protocol.
    pub openai_url: &'static str,
    /// Where the backend speaks the Anthropic protocol.
    pub anthropic_url: &'static str,
    /// The protocol that the backend is spoken to in where none is asked for.
    pub protocol: Protocol,
    /// The environment variable that holds the API key.
    pub env_key: &'static str,
}

/// What a profile says.
pub struct ProfileView {
    pub name: Seq<char>,
    pub openai_url: Seq<char>,
    pub anthropic_url: Seq<char>,
    pub protocol: Protocol,
    pub env_key: Seq<char>,
}

impl ProfileView {
    /// Where the backend is spoken to in `protocol`.
    pub open spec fn endpoint(self, protocol: Protocol) -> Seq<char> {
        match protocol {
            Protocol::OpenAI => self.openai_url,
            Protocol::Anthropic => self.anthropic_url,
        }
    }
}

impl BackendProfile {
    pub open spec fn view(&self) -> ProfileView {
        ProfileView {
            name: self.name@,
            openai_url: self.openai_url@,
            anthropic_url: self.anthropic_url@,
            protocol: self.protocol,
            env_key: self.env_key@,
        }
    }

    /// Where the backend is spoken to in `protocol`.
    pub fn endpoint(&self, protocol: Protocol) -> (url: &'static str)
        ensures
            url@ == self@.endpoint(protocol),
    {
        match protocol {
            Protocol::OpenAI => self.openai_url,
            Protocol::Anthropic => self.anthropic_url,
        }
    }
}

/// The profiles, each with the prefix of the model names that it serves. Two of the backends have
/// one endpoint for both protocols.
pub open spec fn backend_table() -> Seq<(Seq<char>, ProfileView)> {
    seq![
        (
            "minimax"@,
            ProfileView {
                name: "MiniMax"@,
                openai_url: "https://api.minimaxi.com/v1/chat/completions"@,
                anthropic_url: "https://api.minimaxi.com/anthropic/v1/messages"@,
                protocol: Protocol::OpenAI,
                env_key: "MINIMAX_API_KEY"@,
            },
        ),
        (
            "deepseek"@,
            ProfileView {
                name: "deepseek"@,
                openai_url: "https://api.deepseek.com/v1/chat/completions"@,
                anthropic_url: "https://api.deepseek.com/anthropic/v1/messages"@,
                protocol: Protocol::OpenAI,
                env_key: "DEEPSEEK_API_KEY"@,
            },
        ),
        (
            "kimi"@,
            ProfileView {
                name: "kimi"@,
                openai_url: "https://api.kimi.com/coding/v1/messages"@,
                anthropic_url: "https://api.kimi.com/coding/v1/messages"@,
                protocol: Protocol::Anthropic,
                env_key: "KIMI_API_KEY"@,
            },
        ),
        (
            "mimo"@,
            ProfileView {
                name: "xiaomi"@,
                openai_url: "https://token-plan-cn.xiaomimimo.com/v1/chat/completions"@,
                anthropic_url: "https://token-plan-cn.xiaomimimo.com/v1/chat/completions"@,
                protocol: Protocol::OpenAI,
                env_key: "MIMO_API_KEY"@,
            },
        ),
        (
            "glm"@,
            ProfileView {
                name: "zhipu"@,
                openai_url: "https://open.bigmodel.cn/api/paas/v4/chat/completions"@,
                anthropic_url: "https://open.bigmodel.cn/api/anthropic/v1/messages"@,
                protocol: Protocol::OpenAI,
                env_key: "ZHIPU_API_KEY"@,
            },
        ),
    ]
}

/// The profile of the models that no prefix of the table fits.
pub open spec fn fallback_profile() -> ProfileView {
    ProfileView {
        name: "bailian"@,
        openai_url: "https://coding.dashscope.aliyuncs.com/v1/chat/completions"@,
        anthropic_url: "https://coding.dashscope.aliyuncs.com/apps/anthropic/v1/messages"@,
        protocol: Protocol::Anthropic,
        env_key: "DASHSCOPE_API_KEY"@,
    }
}

/// The first profile from row `i` on whose prefix fits a model name in lower case, or the
/// fallback where none does.
pub open spec fn profile_from(lowered: Seq<char>, i: int) -> ProfileView
    decreases backend_table().len() - i,
{
    if i < 0 || i >= backend_table().len() {
        fallback_profile()
    } else if backend_table()[i].0.is_prefix_of(lowered) {
        backend_table()[i].1
    } else {
        profile_from(lowered, i + 1)
    }
}

/// The profile that serves a model whose name in lower case is `lowered`.
pub open spec fn profile_for(lowered: Seq<char>) -> ProfileView {
    profile_from(lowered, 0)
}

/// The backend that serves `model`: its profile, with the protocol that is asked for, or else
/// the profile's own, at the endpoint for that protocol, and with the key that is given, or else
/// an empty one.
pub open spec fn backend_for(
    model: Seq<char>,
    protocol_override: Option<Protocol>,
    api_key: Option<Seq<char>>,
) -> BackendView {
    let profile = profile_for(lowercase(model));
    let protocol = match protocol_override {
        Some(asked) => asked,
        None => profile.protocol,
    };
    BackendView {
        name: profile.name,
        url: profile.endpoint(protocol),
        protocol,
        api_key: match api_key {
            Some(key) => key,
            None => Seq::empty(),
        },
        model,
    }
}

/// The row at `i` of the table.
fn table_row(i: usize) -> (row: (&'static str, BackendProfile))
    requires
        i < 5,
    ensures
        (row.0@, row.1@) == backend_table()[i as int],
{
    if i == 0 {
        (
            "minimax",
            BackendProfile {
                name: "MiniMax",
                openai_url: "https://api.minimaxi.com/v1/chat/completions",
                anthropic_url: "https://api.minimaxi.com/anthropic/v1/messages",
                protocol: Protocol::OpenAI,
                env_key: "MINIMAX_API_KEY",
            },
        )
    } else if i == 1 {
        (
            "deepseek",
            BackendProfile {
                name: "deepseek",
                openai_url: "https://api.deepseek.com/v1/chat/completions",
                anthropic_url: "https://api.deepseek.com/anthropic/v1/messages",
                protocol: Protocol::OpenAI,
                env_key: "DEEPSEEK_API_KEY",
            },
        )
    } else if i == 2 {
        (
            "kimi",
            BackendProfile {
                name: "kimi",
                openai_url: "https://api.kimi.com/coding/v1/messages",
                anthropic_url: "https://api.kimi.com/coding/v1/messages",
                protocol: Protocol::Anthropic,
                env_key: "KIMI_API_KEY",
            },
        )
    } else if i == 3 {
        (
            "mimo",
            BackendProfile {
                name: "xiaomi",
                openai_url: "https://token-plan-cn.xiaomimimo.com/v1/chat/completions",
                anthropic_url: "https://token-plan-cn.xiaomimimo.com/v1/chat/completions",
                protocol: Protocol::OpenAI,
                env_key: "MIMO_API_KEY",
            },
        )
    } else {
        (
            "glm",
            BackendProfile {
                name: "zhipu",
                openai_url: "https://open.bigmodel.cn/api/paas/v4/chat/completions",
                anthropic_url: "https://open.bigmodel.cn/api/anthropic/v1/messages",
                protocol: Protocol::OpenAI,
                env_key: "ZHIPU_API_KEY",
            },
        )
    }
}

/// The profile that serves a model whose name in lower case is `lowered`.
pub fn match_backend(lowered: &str) -> (profile: BackendProfile)
    ensures
        profile@ == profile_for(lowered@),
{
    let mut i: usize = 0;
    while i < 5
        invariant
            i <= 5,
            profile_for(lowered@) == profile_from(lowered@, i as int),
        decreases 5 - i,
    {
        let (prefix, profile) = table_row(i);
        if starts_with(lowered, prefix) {
            return profile;
        }
        i = i + 1;
    }
    BackendProfile {
        name: "bailian",
        openai_url: "https://coding.dashscope.aliyuncs.com/v1/chat/completions",
        anthropic_url: "https://coding.dashscope.aliyuncs.com/apps/anthropic/v1/messages",
        protocol: Protocol::Anthropic,
        env_key: "DASHSCOPE_API_KEY",
    }
}

/// The profile that serves `model`, in whatever case it is written.
pub fn backend_profile(model: &str) -> (profile: BackendProfile)
    ensures
        profile@ == profile_for(lowercase(model@)),
        is_ascii_chars(model@) ==> profile@ == profile_for(ascii_lowercase(model@)),
{
    match_backend(model.to_lowercase().as_str())
}

/// The backend that serves `model`. `api_key` is what the environment variable of
/// [`backend_profile`] holds; without it the key is empty.
pub fn select_backend_by_model(
    model: &str,
    protocol_override: Option<Protocol>,
    api_key: Option<String>,
) -> (backend: BackendConfig)
    ensures
        backend@ == backend_for(model@, protocol_override, text_view(api_key)),
        is_ascii_chars(model@) ==> profile_for(lowercase(model@)) == profile_for(
            ascii_lowercase(model@),
        ),
{
    let profile = backend_profile(model);
    let protocol = match protocol_override {
        Some(protocol) => protocol,
        None => profile.protocol,
    };
    let key = match api_key {
        Some(key) => key,
        None => String::new(),
    };
    BackendConfig {
        name: profile.name.to_string(),
        url: profile.endpoint(protocol).to_string(),
        protocol,
        api_key: key,
        model: model.to_string(),
    }
}

/// No two prefixes of the table fit one model, so the order of the rows does not matter.
pub proof fn law_at_most_one_prefix_fits(lowered: Seq<char>, i: int, j: int)
    requires
        0 <= i < backend_table().len(),
        0 <= j < backend_table().len(),
        backend_table()[i].0.is_prefix_of(lowered),
        backend_table()[j].0.is_prefix_of(lowered),
    ensures
        i == j,
{
    reveal_strlit("minimax");
    reveal_strlit("deepseek");
    reveal_strlit("kimi");
    reveal_strlit("mimo");
    reveal_strlit("glm");
    let a = backend_table()[i].0;
    let b = backend_table()[j].0;
    assert(forall|k: int| 0 <= k < a.len() ==> a[k] == lowered[k]);
    assert(forall|k: int| 0 <= k < b.len() ==> b[k] == lowered[k]);
    assert(a[0] == b[0]);
    assert(a[1] == b[1]);
    assert(a[2] == b[2]);
}

/// A model whose name begins, in lower case, with the prefix of a row is served by that row.
pub proof fn law_prefix_decides(lowered: Seq<char>, i: int)
    requires
        0 <= i < backend_table().len(),
        backend_table()[i].0.is_prefix_of(lowered),
    ensures
        profile_for(lowered) == backend_table()[i].1,
{
    lemma_first_fit(lowered, i, 0);
}

proof fn lemma_first_fit(lowered: Seq<char>, i: int, from: int)
    requires
        0 <= from <= i < backend_table().len(),
        backend_table()[i].0.is_prefix_of(lowered),
    ensures
        profile_from(lowered, from) == backend_table()[i].1,
    decreases i - from,
{
    if backend_table()[from].0.is_prefix_of(lowered) {
        law_at_most_one_prefix_fits(lowered, i, from);
    } else {
        lemma_first_fit(lowered, i, from + 1);
    }
}

/// The case in which a model is written does not matter: names with one lower-case form are
/// served by one backend.
pub proof fn law_case_does_not_matter(
    one: Seq<char>,
    other: Seq<char>,
    protocol_override: Option<Protocol>,
    api_key: Option<Seq<char>>,
)
    requires
        lowercase(one) == lowercase(other),
    ensures
        backend_for(one, protocol_override, api_key) == (BackendView {
            model: one,
            ..backend_for(other, protocol_override, api_key)
        }),
{
}

/// To ask for the protocol that a backend is spoken to in anyway changes nothing; to ask for
/// another changes the protocol and the endpoint, and nothing else.
pub proof fn law_override(model: Seq<char>, protocol: Protocol, api_key: Option<Seq<char>>)
    ensures
        protocol == profile_for(lowercase(model)).protocol ==> backend_for(
            model,
            Some(protocol),
            api_key,
        ) == backend_for(model, None, api_key),
        backend_for(model, Some(protocol), api_key) == (BackendView {
            url: profile_for(lowercase(model)).endpoint(protocol),
            protocol,
            ..backend_for(model, None, api_key)
        }),
{
}

/// Whether a model name in lower case begins like none of those that have a backend of their own.
pub open spec fn no_prefix_fits(lowered: Seq<char>) -> bool {
    &&& !"minimax"@.is_prefix_of(lowered)
    &&& !"deepseek"@.is_prefix_of(lowered)
    &&& !"kimi"@.is_prefix_of(lowered)
    &&& !"mimo"@.is_prefix_of(lowered)
    &&& !"glm"@.is_prefix_of(lowered)
}

proof fn lemma_profile(lowered: Seq<char>)
    ensures
        forall|i: int|
            #![trigger backend_table()[i]]
            0 <= i < 5 && backend_table()[i].0.is_prefix_of(lowered) ==> profile_for(lowered)
                == backend_table()[i].1,
        no_prefix_fits(lowered) ==> profile_for(lowered) == fallback_profile(),
{
    assert forall|i: int|
        #![trigger backend_table()[i]]
        0 <= i < 5 && backend_table()[i].0.is_prefix_of(lowered) implies profile_for(lowered)
        == backend_table()[i].1 by {
        law_prefix_decides(lowered, i);
    }
    if no_prefix_fits(lowered) {
        assert(forall|i: int| 0 <= i < 5 ==> !(#[trigger] backend_table()[i]).0.is_prefix_of(lowered));
        reveal_with_fuel(profile_from, 6);
    }
}

/// How a model is served: by which backend, in which protocol, and where. It goes by how the name
/// of the model begins, whatever follows, and by the protocol that is asked for; without one the
/// backend has its own.
pub proof fn law_how_a_model_is_served(
    model: Seq<char>,
    protocol_override: Option<Protocol>,
    api_key: Option<Seq<char>>,
)
    ensures
        "minimax"@.is_prefix_of(lowercase(model)) ==> ({
            let backend = backend_for(model, protocol_override, api_key);
            &&& backend.name == "MiniMax"@
            &&& backend.protocol == match protocol_override {
                Some(asked) => asked,
                None => Protocol::OpenAI,
            }
            &&& backend.protocol is OpenAI ==> backend.url
                == "https://api.minimaxi.com/v1/chat/completions"@
            &&& backend.protocol is Anthropic ==> backend.url
                == "https://api.minimaxi.com/anthropic/v1/messages"@
        }),
        "deepseek"@.is_prefix_of(lowercase(model)) ==> ({
            let backend = backend_for(model, protocol_override, api_key);
            &&& backend.name == "deepseek"@
            &&& backend.protocol == match protocol_override {
                Some(asked) => asked,
                None => Protocol::OpenAI,
            }
            &&& backend.protocol is OpenAI ==> backend.url
                == "https://api.deepseek.com/v1/chat/completions"@
            &&& backend.protocol is Anthropic ==> backend.url
                == "https://api.deepseek.com/anthropic/v1/messages"@
        }),
        "kimi"@.is_prefix_of(lowercase(model)) ==> ({
            let backend = backend_for(model, protocol_override, api_key);
            &&& backend.name == "kimi"@
            &&& backend.protocol == match protocol_override {
                Some(asked) => asked,
                None => Protocol::Anthropic,
            }
            &&& backend.protocol is OpenAI ==> backend.url
                == "https://api.kimi.com/coding/v1/messages"@
            &&& backend.protocol is Anthropic ==> backend.url
                == "https://api.kimi.com/coding/v1/messages"@
        }),
        "mimo"@.is_prefix_of(lowercase(model)) ==> ({
            let backend = backend_for(model, protocol_override, api_key);
            &&& backend.name == "xiaomi"@
            &&& backend.protocol == match protocol_override {
                Some(asked) => asked,
                None => Protocol::OpenAI,
            }
            &&& backend.protocol is OpenAI ==> backend.url
                == "https://token-plan-cn.xiaomimimo.com/v1/chat/completions"@
            &&& backend.protocol is Anthropic ==> backend.url
                == "https://token-plan-cn.xiaomimimo.com/v1/chat/completions"@
        }),
        "glm"@.is_prefix_of(lowercase(model)) ==> ({
            let backend = backend_for(model, protocol_override, api_key);
            &&& backend.name == "zhipu"@
            &&& backend.protocol == match protocol_override {
                Some(asked) => asked,
                None => Protocol::OpenAI,
            }
            &&& backend.protocol is OpenAI ==> backend.url
                == "https://open.bigmodel.cn/api/paas/v4/chat/completions"@
            &&& backend.protocol is Anthropic ==> backend.url
                == "https://open.bigmodel.cn/api/anthropic/v1/messages"@
        }),
        no_prefix_fits(lowercase(model)) ==> ({
            let backend = backend_for(model, protocol_override, api_key);
            &&& backend.name == "bailian"@
            &&& backend.protocol == match protocol_override {
                Some(asked) => asked,
                None => Protocol::Anthropic,
            }
            &&& backend.protocol is OpenAI ==> backend.url
                == "https://coding.dashscope.aliyuncs.com/v1/chat/completions"@
            &&& backend.protocol is Anthropic ==> backend.url
                == "https://coding.dashscope.aliyuncs.com/apps/anthropic/v1/messages"@
        }),
{
    let lowered = lowercase(model);
    lemma_profile(lowered);
    assert(backend_table()[0].0 == "minimax"@);
    assert(backend_table()[1].0 == "deepseek"@);
    assert(backend_table()[2].0 == "kimi"@);
    assert(backend_table()[3].0 == "mimo"@);
    assert(backend_table()[4].0 == "glm"@);
}

/// Which environment variable holds the key for a model goes by how the name of the model begins.
pub proof fn law_whose_key(lowered: Seq<char>)
    ensures
        "minimax"@.is_prefix_of(lowered) ==> profile_for(lowered).env_key == "MINIMAX_API_KEY"@,
        "deepseek"@.is_prefix_of(lowered) ==> profile_for(lowered).env_key == "DEEPSEEK_API_KEY"@,
        "kimi"@.is_prefix_of(lowered) ==> profile_for(lowered).env_key == "KIMI_API_KEY"@,
        "mimo"@.is_prefix_of(lowered) ==> profile_for(lowered).env_key == "MIMO_API_KEY"@,
        "glm"@.is_prefix_of(lowered) ==> profile_for(lowered).env_key == "ZHIPU_API_KEY"@,
        no_prefix_fits(lowered) ==> profile_for(lowered).env_key == "DASHSCOPE_API_KEY"@,
{
    lemma_profile(lowered);
    assert(backend_table()[0].0 == "minimax"@);
    assert(backend_table()[1].0 == "deepseek"@);
    assert(backend_table()[2].0 == "kimi"@);
    assert(backend_table()[3].0 == "mimo"@);
    assert(backend_table()[4].0 == "glm"@);
}

/// A backend is given the key that was found, and an empty one where none was, and the name of the
/// model as it was asked for. The key changes nothing else.
pub proof fn law_key_and_model(
    model: Seq<char>,
    protocol_override: Option<Protocol>,
    key: Seq<char>,
)
    ensures
        backend_for(model, protocol_override, Some(key)).api_key == key,
        backend_for(model, protocol_override, None).api_key == Seq::<char>::empty(),
        backend_for(model, protocol_override, Some(key)).model == model,
        backend_for(model, protocol_override, None).model == model,
        backend_for(model, protocol_override, Some(key)).name == backend_for(
            model,
            protocol_override,
            None,
        ).name,
        backend_for(model, protocol_override, Some(key)).url == backend_for(
            model,
            protocol_override,
            None,
        ).url,
        backend_for(model, protocol_override, Some(key)).protocol == backend_for(
            model,
            protocol_override,
            None,
        ).protocol,
{
}

/// What a profile says is what stands in its fields.
pub proof fn law_profiles_say_what_they_hold(profile: BackendProfile)
    ensures
        profile@.name == profile.name@,
        profile@.openai_url == profile.openai_url@,
        profile@.anthropic_url == profile.anthropic_url@,
        profile@.protocol == profile.protocol,
        profile@.env_key == profile.env_key@,
        profile@.endpoint(Protocol::OpenAI) == profile.openai_url@,
        profile@.endpoint(Protocol::Anthropic) == profile.anthropic_url@,
{
}

} // verus!
