use vstd::prelude::*;
use crate::json::{
    Json, JsonV, json_view, view_items, view_entries, lookup, find_entry, lemma_view_items_index,
    lemma_view_entries_index,
};
use crate::schema::Schema;

verus! {

broadcast use vstd::string::group_string_axioms, vstd::std_specs::vec::group_vec_axioms;

/// Who wrote a message of the conversation.
#[derive(Debug, Clone, Copy, PartialEq, Eq)]
pub enum Role {
    Developer,
    User,
    Assistant,
}

pub open spec fn role_name(r: Role) -> Seq<char> {
    match r {
        Role::Developer => "developer"@,
        Role::User => "user"@,
        Role::Assistant => "assistant"@,
    }
}

impl Role {
    /// The role as the provider spells it.
    pub fn as_str(&self) -> (r: &'static str)
        ensures
            r@ == role_name(*self),
    {
        match self {
            Role::Developer => "developer",
            Role::User => "user",
            Role::Assistant => "assistant",
        }
    }
}

/// One message of a conversation.
#[derive(Debug)]
pub struct Message {
    pub role: Role,
    pub content: String,
}

impl Message {
    pub fn new(role: Role, content: String) -> (r: Message)
        ensures
            r.role == role,
            r.content == content,
    {
        Message { role, content }
    }
}

/// A message as it stands in a request body.
pub open spec fn message_json(m: Message) -> JsonV {
    JsonV::Object(
        seq![("role"@, JsonV::Str(role_name(m.role))), ("content"@, JsonV::Str(m.content@))],
    )
}

/// The `response_format` object of a request, carrying the schema.
pub open spec fn response_format_json(s: Schema) -> JsonV {
    JsonV::Object(
        seq![
            ("type"@, JsonV::Str("json_schema"@)),
            ("json_schema"@, JsonV::Object(
                seq![
                    ("name"@, JsonV::Str(s.name@)),
                    ("schema"@, json_view(s.schema)),
                    ("strict"@, JsonV::Bool(s.strict)),
                ],
            )),
        ],
    )
}

/// The body of a chat-completion request.
pub open spec fn request_json(model: Seq<char>, messages: Seq<Message>, s: Schema) -> JsonV {
    JsonV::Object(
        seq![
            ("model"@, JsonV::Str(model)),
            ("messages"@, JsonV::Array(messages.map_values(|m: Message| message_json(m)))),
            ("response_format"@, response_format_json(s)),
        ],
    )
}

fn text(s: &str) -> (r: String)
    ensures
        r@ == s@,
{
    s.to_string()
}

fn message_to_json(m: &Message) -> (r: Json)
    ensures
        json_view(r) == message_json(*m),
{
    let mut es: Vec<(String, Json)> = Vec::new();
    es.push((text("role"), Json::Str(text(m.role.as_str()))));
    es.push((text("content"), Json::Str(m.content.clone())));
    proof {
        lemma_view_entries_index(es@);
        assert(view_entries(es@) =~= message_json(*m)->Object_0);
    }
    Json::Object(es)
}

/// Builds the JSON body of a chat-completion request for `model`, the
/// conversation and the schema that the answer must follow.
pub fn request_body(model: String, messages: &Vec<Message>, schema: Schema) -> (r: Json)
    ensures
        json_view(r) == request_json(model@, messages@, schema),
{
    let ghost sch = schema;
    let mut items: Vec<Json> = Vec::new();
    let mut i: usize = 0;
    while i < messages.len()
        invariant
            i <= messages.len(),
            items@.len() == i,
            forall|j: int| 0 <= j < i ==> json_view(#[trigger] items@[j]) == message_json(messages@[j]),
        decreases messages.len() - i,
    {
        items.push(message_to_json(&messages[i]));
        i += 1;
    }
    proof {
        lemma_view_items_index(items@);
        assert(view_items(items@) =~= messages@.map_values(|m: Message| message_json(m)));
    }
    let mut inner: Vec<(String, Json)> = Vec::new();
    inner.push((text("name"), Json::Str(schema.name)));
    inner.push((text("schema"), schema.schema));
    inner.push((text("strict"), Json::Bool(schema.strict)));
    let mut format: Vec<(String, Json)> = Vec::new();
    format.push((text("type"), Json::Str(text("json_schema"))));
    format.push((text("json_schema"), Json::Object(inner)));
    let mut top: Vec<(String, Json)> = Vec::new();
    top.push((text("model"), Json::Str(model)));
    top.push((text("messages"), Json::Array(items)));
    top.push((text("response_format"), Json::Object(format)));
    proof {
        lemma_view_entries_index(inner@);
        lemma_view_entries_index(format@);
        lemma_view_entries_index(top@);
        assert(view_entries(inner@) =~= response_format_json(sch)->Object_0[1].1->Object_0);
        assert(view_entries(format@) =~= response_format_json(sch)->Object_0);
        assert(view_entries(top@) =~= request_json(model@, messages@, sch)->Object_0);
    }
    Json::Object(top)
}


/// Why a successful response carried no usable completion.
#[derive(Debug, Clone, Copy, PartialEq, Eq)]
pub enum ProtocolFault {
    /// The envelope's `choices` list is empty.
    NoCompletion,
    /// The body is not an envelope of the expected shape.
    MalformedEnvelope,
}

/// The failures of one request/response cycle.
#[derive(Debug)]
pub enum ClientError {
    /// The request could not be sent or the response not read.
    Transport(String),
    /// The provider answered with a status other than success; the body is kept verbatim.
    Upstream { status: u16, body: String },
    /// The provider answered with success but without a usable completion.
    Protocol(ProtocolFault),
    /// The completion text does not decode into the requested type.
    Decode(String),
}

/// A status in the success range `200..300`.
pub open spec fn is_success(status: u16) -> bool {
    200 <= status < 300
}

/// The text of the message of one choice.
pub open spec fn choice_content(c: JsonV) -> Result<Seq<char>, ProtocolFault> {
    match c {
        JsonV::Object(ces) => match lookup(ces, "message"@) {
            Some(JsonV::Object(mes)) => match lookup(mes, "content"@) {
                Some(JsonV::Str(t)) => Ok(t),
                _ => Err(ProtocolFault::MalformedEnvelope),
            },
            _ => Err(ProtocolFault::MalformedEnvelope),
        },
        _ => Err(ProtocolFault::MalformedEnvelope),
    }
}

/// The text of the first choice of a response envelope; later choices are ignored.
pub open spec fn content_of(envelope: JsonV) -> Result<Seq<char>, ProtocolFault> {
    match envelope {
        JsonV::Object(es) => match lookup(es, "choices"@) {
            Some(JsonV::Array(cs)) => if cs.len() == 0 {
                Err(ProtocolFault::NoCompletion)
            } else {
                choice_content(cs[0])
            },
            _ => Err(ProtocolFault::MalformedEnvelope),
        },
        _ => Err(ProtocolFault::MalformedEnvelope),
    }
}

fn first_choice_content(choice: &Json) -> (r: Result<String, ProtocolFault>)
    ensures
        match r {
            Ok(t) => choice_content(json_view(*choice)) == Ok::<Seq<char>, ProtocolFault>(t@),
            Err(f) => choice_content(json_view(*choice)) == Err::<Seq<char>, ProtocolFault>(f),
        },
{
    match choice {
        Json::Object(ces) => match find_entry(ces, &text("message")) {
            Some(Json::Object(mes)) => match find_entry(mes, &text("content")) {
                Some(Json::Str(t)) => Ok(t.clone()),
                _ => Err(ProtocolFault::MalformedEnvelope),
            },
            _ => Err(ProtocolFault::MalformedEnvelope),
        },
        _ => Err(ProtocolFault::MalformedEnvelope),
    }
}

/// Takes the assistant's text out of a response envelope, unparsed.
pub fn completion_content(envelope: &Json) -> (r: Result<String, ProtocolFault>)
    ensures
        match r {
            Ok(t) => content_of(json_view(*envelope)) == Ok::<Seq<char>, ProtocolFault>(t@),
            Err(f) => content_of(json_view(*envelope)) == Err::<Seq<char>, ProtocolFault>(f),
        },
{
    match envelope {
        Json::Object(es) => match find_entry(es, &text("choices")) {
            Some(Json::Array(cs)) => {
                proof {
                    lemma_view_items_index(cs@);
                }
                if cs.len() == 0 {
                    Err(ProtocolFault::NoCompletion)
                } else {
                    first_choice_content(&cs[0])
                }
            },
            _ => Err(ProtocolFault::MalformedEnvelope),
        },
        _ => Err(ProtocolFault::MalformedEnvelope),
    }
}

/// Decides the outcome of one request from the response's status, its raw
/// body, and the body read as JSON (`None` where it is not JSON).
pub fn handle_response(status: u16, body: String, envelope: Option<Json>) -> (r: Result<
    String,
    ClientError,
>)
    ensures
        !is_success(status) ==> r == Err::<String, ClientError>(
            ClientError::Upstream { status, body },
        ),
        is_success(status) && envelope is None ==> r == Err::<String, ClientError>(
            ClientError::Protocol(ProtocolFault::MalformedEnvelope),
        ),
        is_success(status) && envelope is Some ==> match content_of(json_view(envelope->0)) {
            Ok(t) => r is Ok && r->Ok_0@ == t,
            Err(f) => r == Err::<String, ClientError>(ClientError::Protocol(f)),
        },
{
    if !(200 <= status && status < 300) {
        return Err(ClientError::Upstream { status, body });
    }
    match envelope {
        None => Err(ClientError::Protocol(ProtocolFault::MalformedEnvelope)),
        Some(e) => match completion_content(&e) {
            Ok(t) => Ok(t),
            Err(f) => Err(ClientError::Protocol(f)),
        },
    }
}

} // verus!
