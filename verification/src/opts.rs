//! Options a caller passes when opening, appending to, generating from and
//! embedding with a sequence.
use std::collections::HashMap;

use vstd::prelude::*;
use vstd::std_specs::convert::FromSpec;

use crate::protocol::SeqGenReq;

verus! {

/// Options for appending text to a sequence.
#[derive(Debug, Clone)]
pub struct AppendOpts {
    pub role: Option<String>,
}

impl Default for AppendOpts {
    fn default() -> (r: Self)
        ensures
            r.role is None,
    {
        AppendOpts { role: None }
    }
}

impl AppendOpts {
    /// Append as the assistant.
    pub fn assistant() -> (r: Self)
        ensures
            r.role matches Some(s) && s@ == "assistant"@,
    {
        AppendOpts { role: Some("assistant".to_string()) }
    }

    /// Append as the user.
    pub fn user() -> (r: Self)
        ensures
            r.role matches Some(s) && s@ == "user"@,
    {
        AppendOpts { role: Some("user".to_string()) }
    }

    /// Append as the system.
    pub fn system() -> (r: Self)
        ensures
            r.role matches Some(s) && s@ == "system"@,
    {
        AppendOpts { role: Some("system".to_string()) }
    }
}

/// Options for a generation.
///
/// `temperature`, `top_p`, `repeat_penalty`, `frequency_penalty` and
/// `presence_penalty` hold `f32` bit patterns.
#[derive(Debug, Clone)]
pub struct GenOpts {
    pub role: Option<String>,
    pub stop_strings: Option<Vec<String>>,
    pub max_length: Option<u32>,
    pub max_tokens: Option<u32>,
    pub hidden: Option<bool>,
    pub temperature: Option<u32>,
    pub top_p: Option<u32>,
    pub top_k: Option<i32>,
    pub repeat_penalty: Option<u32>,
    pub seed: Option<u64>,
    pub frequency_penalty: Option<u32>,
    pub presence_penalty: Option<u32>,
}

impl GenOpts {
    /// Generation options with nothing set but the role.
    pub open spec fn with_role(role: Option<String>) -> GenOpts {
        GenOpts {
            role,
            stop_strings: None,
            max_length: None,
            max_tokens: None,
            hidden: None,
            temperature: None,
            top_p: None,
            top_k: None,
            repeat_penalty: None,
            seed: None,
            frequency_penalty: None,
            presence_penalty: None,
        }
    }

    fn role_only(role: String) -> (r: Self)
        ensures
            r == GenOpts::with_role(Some(role)),
    {
        GenOpts {
            role: Some(role),
            stop_strings: None,
            max_length: None,
            max_tokens: None,
            hidden: None,
            temperature: None,
            top_p: None,
            top_k: None,
            repeat_penalty: None,
            seed: None,
            frequency_penalty: None,
            presence_penalty: None,
        }
    }

    /// Generate as the assistant.
    pub fn assistant() -> (r: Self)
        ensures
            r == GenOpts::with_role(r.role),
            r.role matches Some(s) && s@ == "assistant"@,
    {
        GenOpts::role_only("assistant".to_string())
    }

    /// Generate as the user.
    pub fn user() -> (r: Self)
        ensures
            r == GenOpts::with_role(r.role),
            r.role matches Some(s) && s@ == "user"@,
    {
        GenOpts::role_only("user".to_string())
    }

    /// Generate as the system.
    pub fn system() -> (r: Self)
        ensures
            r == GenOpts::with_role(r.role),
            r.role matches Some(s) && s@ == "system"@,
    {
        GenOpts::role_only("system".to_string())
    }
}

impl Default for GenOpts {
    fn default() -> (r: Self)
        ensures
            r == GenOpts::with_role(None),
    {
        GenOpts {
            role: None,
            stop_strings: None,
            max_length: None,
            max_tokens: None,
            hidden: None,
            temperature: None,
            top_p: None,
            top_k: None,
            repeat_penalty: None,
            seed: None,
            frequency_penalty: None,
            presence_penalty: None,
        }
    }
}

/// The generation request that these options ask for: every option carried
/// over, `hidden` defaulting to `false`, the rest of the request unset.
pub open spec fn gen_request_of(o: GenOpts) -> SeqGenReq {
    SeqGenReq {
        role: o.role,
        stop_strings: o.stop_strings,
        max_length: o.max_length,
        max_tokens: o.max_tokens,
        hidden: match o.hidden {
            Some(h) => h,
            None => false,
        },
        temperature: o.temperature,
        top_p: o.top_p,
        top_k: o.top_k,
        repeat_penalty: o.repeat_penalty,
        seed: o.seed,
        frequency_penalty: o.frequency_penalty,
        presence_penalty: o.presence_penalty,
        ..SeqGenReq::unset()
    }
}

impl vstd::std_specs::convert::FromSpecImpl<GenOpts> for SeqGenReq {
    open spec fn obeys_from_spec() -> bool {
        true
    }

    open spec fn from_spec(v: GenOpts) -> SeqGenReq {
        gen_request_of(v)
    }
}

impl From<GenOpts> for SeqGenReq {
    fn from(o: GenOpts) -> (r: SeqGenReq) {
        let hidden = match o.hidden {
            Some(h) => h,
            None => false,
        };
        SeqGenReq {
            role: o.role,
            stop_strings: o.stop_strings,
            max_length: o.max_length,
            max_tokens: o.max_tokens,
            hidden,
            temperature: o.temperature,
            top_p: o.top_p,
            top_k: o.top_k,
            repeat_penalty: o.repeat_penalty,
            seed: o.seed,
            frequency_penalty: o.frequency_penalty,
            presence_penalty: o.presence_penalty,
            regex_mask: None,
            return_tokens: None,
            prefill_text: None,
            json_schema: None,
            json_schema_strict: None,
        }
    }
}

/// Options for an embedding command.
#[derive(Debug, Clone)]
pub struct EmbedOpts {
    pub input_type: Option<String>,
    pub dimensions: Option<u32>,
    pub normalize: Option<bool>,
    pub truncate: Option<bool>,
}

impl Default for EmbedOpts {
    fn default() -> (r: Self)
        ensures
            r.input_type is None,
            r.dimensions is None,
            r.normalize is None,
            r.truncate is None,
    {
        EmbedOpts { input_type: None, dimensions: None, normalize: None, truncate: None }
    }
}

/// Options for opening a sequence.
///
/// The event listener and the toolbox themselves stay with the caller; these
/// options record whether the new sequence has them.
#[derive(Debug, Clone)]
pub struct OpenOpts {
    /// Optional system prompt to use when tools are enabled
    pub tool_prompt: Option<String>,
    /// Skips system prompt prescribed by model authors
    pub skip_prelude: bool,
    /// Optional map of tool names to JSON Schema fragments used for tool arg typing.
    pub tool_schemas: Option<HashMap<String, serde_json::Value>>,
    /// Whether a listener receives every event of this sequence
    pub event_sink: bool,
    /// Whether tools are available on this sequence
    pub toolbox: bool,
}

impl Default for OpenOpts {
    fn default() -> (r: Self)
        ensures
            r.tool_prompt is None,
            !r.skip_prelude,
            r.tool_schemas is None,
            !r.event_sink,
            !r.toolbox,
    {
        OpenOpts {
            tool_prompt: None,
            skip_prelude: false,
            tool_schemas: None,
            event_sink: false,
            toolbox: false,
        }
    }
}


/// Turning generation options into a request carries every option over
/// unchanged (`hidden` is false unless set), and leaves the settings that
/// options cannot express unset.
pub proof fn law_gen_options_carried_over(o: GenOpts)
    ensures
        ({
            let r = <SeqGenReq as FromSpec<GenOpts>>::from_spec(o);
            &&& r.role == o.role
            &&& r.stop_strings == o.stop_strings
            &&& r.max_length == o.max_length
            &&& r.max_tokens == o.max_tokens
            &&& r.hidden == (o.hidden == Some(true))
            &&& r.temperature == o.temperature
            &&& r.top_p == o.top_p
            &&& r.top_k == o.top_k
            &&& r.repeat_penalty == o.repeat_penalty
            &&& r.seed == o.seed
            &&& r.frequency_penalty == o.frequency_penalty
            &&& r.presence_penalty == o.presence_penalty
            &&& r.regex_mask is None
            &&& r.return_tokens is None
            &&& r.prefill_text is None
            &&& r.json_schema is None
            &&& r.json_schema_strict is None
        }),
{
}

} // verus!
