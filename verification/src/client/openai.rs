//! Data exchanged with OpenAI-compatible chat completion endpoints.
use vstd::prelude::*;

use crate::text::{decimal, push_decimal, push_str, string_of};

verus! {

#[derive(Debug, Clone)]
pub struct Message {
    pub role: String,
    pub content: String,
}

#[derive(Debug, Clone)]
pub struct ChatCompletionResponse {
    pub id: String,
    pub choices: Vec<Choice>,
    pub usage: Option<Usage>,
}

#[derive(Debug, Clone)]
pub struct Choice {
    pub index: u32,
    pub message: Message,
    pub finish_reason: Option<String>,
}

#[derive(Debug, Clone, Copy)]
pub struct Usage {
    pub prompt_tokens: u32,
    pub completion_tokens: u32,
    pub total_tokens: u32,
}

#[derive(Debug)]
pub enum ClientError {
    Http(String),
    Parse(String),
    Api { status: u16, message: String },
}

/// The content of the first choice of a response, or empty text when there is none.
pub open spec fn first_content(resp: ChatCompletionResponse) -> Seq<char> {
    if resp.choices@.len() > 0 {
        resp.choices@[0].message.content@
    } else {
        Seq::empty()
    }
}

impl ChatCompletionResponse {
    /// The content of the first choice, or empty text when there is none.
    pub fn first_choice_content(&self) -> (s: String)
        ensures
            s@ == first_content(*self),
    {
        if self.choices.len() > 0 {
            self.choices[0].message.content.clone()
        } else {
            String::new()
        }
    }
}

/// The text a client error reads as.
pub open spec fn client_error_text(e: ClientError) -> Seq<char> {
    match e {
        ClientError::Http(m) => "HTTP error: "@ + m@,
        ClientError::Parse(m) => "JSON parse error: "@ + m@,
        ClientError::Api { status, message } => "API error: "@ + decimal(status as nat) + " - "@ + message@,
    }
}

impl ClientError {
    /// The text this error reads as.
    pub fn message(&self) -> (s: String)
        ensures
            s@ == client_error_text(*self),
    {
        let mut v: Vec<char> = Vec::new();
        match self {
            ClientError::Http(m) => {
                push_str(&mut v, "HTTP error: ");
                push_str(&mut v, m.as_str());
            },
            ClientError::Parse(m) => {
                push_str(&mut v, "JSON parse error: ");
                push_str(&mut v, m.as_str());
            },
            ClientError::Api { status, message } => {
                push_str(&mut v, "API error: ");
                push_decimal(&mut v, *status as u64);
                push_str(&mut v, " - ");
                push_str(&mut v, message.as_str());
            },
        }
        assert(v@ =~= client_error_text(*self));
        string_of(&v)
    }
}

} // verus!
