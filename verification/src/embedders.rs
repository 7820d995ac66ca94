//! Embedding providers: the models they offer, and the requests sent to them.

use crate::image::{find_from, find_pattern};
use crate::text::{chars_of, push_str};
use vstd::prelude::*;

verus! {

/// A model that an embedding provider offers.
#[derive(Debug, Clone)]
pub struct EmbeddingModel {
    pub name: String,
    /// The dimensions of the model's embedding space.
    pub size: usize,
    pub provider: String,
    pub multimodal: bool,
    pub max_input_tokens: usize,
}

/// Why an embedding provider could not embed.
#[derive(Debug)]
pub enum EmbeddingError {
    InvalidModel(String),
    InvalidInput(String),
    /// Contains the error response text in case of OpenAI errors.
    OpenAI(OpenAIError),
    /// Contains an error message in case of unexpected responses from downstream services,
    /// such as no content type headers.
    Response(String),
}

#[derive(Debug)]
pub struct Usage {
    pub prompt_tokens: usize,
    pub total_tokens: usize,
}

#[derive(Debug)]
pub struct OpenAIErrorParams {
    pub message: String,
    /// The error's `type`.
    pub error_type: String,
    pub param: Option<String>,
    pub code: Option<usize>,
}

#[derive(Debug)]
pub struct OpenAIError {
    pub error: OpenAIErrorParams,
}

#[derive(Debug)]
pub struct EmbeddingRequest<'i> {
    pub input: &'i [&'i str],
}

/// The models OpenAI offers for text: their names and sizes.
pub open spec fn openai_model_table() -> Seq<(Seq<char>, usize)> {
    seq![
        ("text-embedding-3-large"@, 3072usize),
        ("text-embedding-3-small"@, 1536usize),
        ("text-embedding-ada-002"@, 1536usize),
    ]
}

/// The models OpenAI offers: text only, each taking up to 8192 input tokens.
pub fn openai_models() -> (res: Vec<EmbeddingModel>)
    ensures
        res@.len() == openai_model_table().len(),
        forall|i: int|
            0 <= i < res@.len() ==> {
                let m = #[trigger] res@[i];
                &&& m.name@ == openai_model_table()[i].0
                &&& m.size == openai_model_table()[i].1
                &&& m.provider@ == "openai"@
                &&& !m.multimodal
                &&& m.max_input_tokens == 8192
            },
{
    let table: [(&str, usize); 3] = [
        ("text-embedding-3-large", 3072),
        ("text-embedding-3-small", 1536),
        ("text-embedding-ada-002", 1536),
    ];
    let mut res: Vec<EmbeddingModel> = Vec::new();
    for i in 0..3
        invariant
            res@.len() == i,
            table@ == seq![
                ("text-embedding-3-large", 3072usize),
                ("text-embedding-3-small", 1536usize),
                ("text-embedding-ada-002", 1536usize),
            ],
            forall|k: int|
                0 <= k < i ==> {
                    let m = #[trigger] res@[k];
                    &&& m.name@ == table@[k].0@
                    &&& m.size == table@[k].1
                    &&& m.provider@ == "openai"@
                    &&& !m.multimodal
                    &&& m.max_input_tokens == 8192
                },
    {
        let (name, size) = table[i];
        res.push(
            EmbeddingModel {
                name: name.to_owned(),
                size,
                provider: "openai".to_owned(),
                multimodal: false,
                max_input_tokens: 8192,
            },
        );
    }
    res
}

/// The input to embed must not be empty.
pub fn check_embedding_input(input: &[&str]) -> (res: Result<(), EmbeddingError>)
    ensures
        input@.len() == 0 <==> (res matches Err(EmbeddingError::InvalidInput(m)) && m@
            == "cannot be empty (len = 0)"@),
        input@.len() > 0 <==> res is Ok,
{
    if input.len() == 0 {
        return Err(EmbeddingError::InvalidInput("cannot be empty (len = 0)".to_owned()));
    }
    Ok(())
}

/// The URL of the embeddings endpoint of a model that a vLLM server hosts.
pub fn model_embeddings_url(endpoint: &str, model: &str) -> (res: String)
    ensures
        res@ == endpoint@ + "/"@ + model@ + "/v1/embeddings"@,
{
    let mut url = endpoint.to_owned();
    push_str(&mut url, "/");
    push_str(&mut url, model);
    push_str(&mut url, "/v1/embeddings");
    url
}

/// A part of what a user asks a multimodal model to embed.
#[derive(Debug)]
pub enum EmbeddingInput<'a> {
    /// A text, with its type, `text`.
    Text { input_type: &'static str, text: &'a str },
    /// An image given by its URL, with its type, `image_url`.
    Image { input_type: &'static str, url: &'a str },
}

#[derive(Debug)]
pub enum EmbeddingMessage<'a> {
    System(&'a str),
    User(Vec<EmbeddingInput<'a>>),
}

#[derive(Debug)]
pub struct Message<'a> {
    pub role: &'static str,
    pub content: EmbeddingMessage<'a>,
}

#[derive(Debug)]
pub struct MultimodalRequest<'a> {
    pub messages: Vec<Message<'a>>,
}

/// Whether `m` is the user's message that asks to embed `image` with the instruction `text`.
pub open spec fn user_message(m: Message, image: Seq<char>, text: Seq<char>) -> bool {
    &&& m.role@ == "user"@
    &&& match m.content {
        EmbeddingMessage::User(parts) => {
            &&& parts@.len() == 2
            &&& parts@[0] matches EmbeddingInput::Image { input_type, url } && input_type@
                == "image_url"@ && url@ == image
            &&& parts@[1] matches EmbeddingInput::Text { input_type, text: t } && input_type@
                == "text"@ && t@ == text
        },
        _ => false,
    }
}

/// The request to embed an image with a multimodal model: a system message when `system` is
/// given, then the user's message with the image and the text, `Represent the image.` when
/// none is given.
pub fn multimodal_request<'a>(system: Option<&'a str>, text: Option<&'a str>, image: &'a str) -> (res:
    MultimodalRequest<'a>)
    ensures
        ({
            let t = match text {
                Some(t) => t@,
                None => "Represent the image."@,
            };
            match system {
                Some(s) => {
                    &&& res.messages@.len() == 2
                    &&& res.messages@[0].role@ == "system"@
                    &&& res.messages@[0].content matches EmbeddingMessage::System(c) && c@ == s@
                    &&& user_message(res.messages@[1], image@, t)
                },
                None => res.messages@.len() == 1 && user_message(res.messages@[0], image@, t),
            }
        }),
{
    let mut request = MultimodalRequest { messages: Vec::new() };
    match system {
        Some(system) => {
            request.messages.push(Message { role: "system", content: EmbeddingMessage::System(system) });
        },
        None => {},
    }
    let text = match text {
        Some(t) => t,
        None => "Represent the image.",
    };
    let content = vec![
        EmbeddingInput::Image { input_type: "image_url", url: image },
        EmbeddingInput::Text { input_type: "text", text },
    ];
    request.messages.push(Message { role: "user", content: EmbeddingMessage::User(content) });
    request
}

/// How the body of a failed response from an OpenAI style API is read.
#[derive(Debug, Clone, Copy, PartialEq, Eq, Structural)]
pub enum ErrorBody {
    /// As the API's JSON error object.
    Json,
    /// As text.
    Text,
}

/// `s` contains `pat`.
pub open spec fn contains_text(s: Seq<char>, pat: Seq<char>) -> bool {
    find_from(s, pat, 0) >= 0
}

/// How to read the body of a failed response, by its content type: `None` where the response
/// has no content type, `Some(None)` where its value is not readable text. A JSON body is read
/// as the API's error object, any other as text.
pub fn error_body_kind(content_type: Option<Option<&str>>) -> (res: Result<ErrorBody, EmbeddingError>)
    ensures
        match content_type {
            None => res matches Err(EmbeddingError::Response(m)) && m@
                == "missing content-type header in response"@,
            Some(None) => res matches Err(EmbeddingError::Response(m)) && m@
                == "malformed content-type header"@,
            Some(Some(ct)) => if contains_text(ct@, "application/json"@) {
                res == Ok::<ErrorBody, EmbeddingError>(ErrorBody::Json)
            } else {
                res == Ok::<ErrorBody, EmbeddingError>(ErrorBody::Text)
            },
        },
{
    match content_type {
        None => Err(EmbeddingError::Response("missing content-type header in response".to_owned())),
        Some(None) => Err(EmbeddingError::Response("malformed content-type header".to_owned())),
        Some(Some(ct)) => {
            let s = chars_of(ct);
            let pat = chars_of("application/json");
            match find_pattern(&s, &pat, 0) {
                Some(_) => Ok(ErrorBody::Json),
                None => Ok(ErrorBody::Text),
            }
        },
    }
}

/// The first model named `name` in a provider's list, if any.
pub fn model_details(models: Vec<EmbeddingModel>, name: &str) -> (res: Option<EmbeddingModel>)
    ensures
        match res {
            Some(m) => exists|k: int|
                0 <= k < models@.len() && models@[k] == m && m.name@ == name@ && forall|j: int|
                    0 <= j < k ==> #[trigger] models@[j].name@ != name@,
            None => forall|j: int| 0 <= j < models@.len() ==> #[trigger] models@[j].name@ != name@,
        },
{
    let ghost all = models@;
    for m in it: models.into_iter()
        invariant
            it.seq() == all,
            forall|j: int| 0 <= j < it.index() ==> #[trigger] all[j].name@ != name@,
    {
        if crate::text::str_eq(m.name.as_str(), name) {
            return Some(m);
        }
    }
    None
}

/// The URL of the embeddings endpoint of the OpenAI API at `endpoint`.
pub fn openai_embeddings_url(endpoint: &str) -> (res: String)
    ensures
        res@ == endpoint@ + "/v1/embeddings"@,
{
    let mut url = endpoint.to_owned();
    push_str(&mut url, "/v1/embeddings");
    url
}

/// The URL of the embeddings endpoint of a deployment on an Azure OpenAI endpoint.
pub fn azure_embeddings_url(endpoint: &str, deployment: &str) -> (res: String)
    ensures
        res@ == endpoint@ + "/openai/deployments/"@ + deployment@ + "/embeddings"@,
{
    let mut url = endpoint.to_owned();
    push_str(&mut url, "/openai/deployments/");
    push_str(&mut url, deployment);
    push_str(&mut url, "/embeddings");
    url
}

} // verus!
