//! Translating a screenshot with a vision model behind an OpenAI-compatible endpoint: one
//! request reads the text in the picture and translates it into English.

use vstd::prelude::*;
use vstd::utf8::encode_utf8;
use base64::Engine;
use crate::json;
use crate::json::{item_of, json_document, json_pretty, member_of, object_of, text_of, Json};
use crate::remote::{join, outcome, Reply, Request};
use crate::text::{trim, trim_end_slashes, trimmed, without_end_slashes};

verus! {

/// What the model is asked to do.
pub const PROMPT: &'static str =
    "Read all text in this image and translate it into English. Output only the translation — no preamble, notes, or commentary. If there is no readable text, reply exactly: (no text found)";

/// Where translations come from, as far as it was configured.
pub struct Translator {
    pub base_url: Option<String>,
    pub model: Option<String>,
    pub api_key: Option<String>,
}

/// The character for six bits in the standard base64 alphabet.
pub open spec fn base64_char(n: int) -> char {
    if n < 26 {
        (0x41 + n) as char
    } else if n < 52 {
        (0x61 + n - 26) as char
    } else if n < 62 {
        (0x30 + n - 52) as char
    } else if n == 62 {
        '+'
    } else {
        '/'
    }
}

/// The byte at `i`; zero past the end.
pub open spec fn byte_or_zero(bytes: Seq<u8>, i: int) -> int {
    if 0 <= i < bytes.len() {
        bytes[i] as int
    } else {
        0
    }
}

/// The six bits that follow the first `6 * i` bits.
pub open spec fn sextet(bytes: Seq<u8>, i: int) -> int {
    let three = byte_or_zero(bytes, i / 4 * 3) * 65536 + byte_or_zero(bytes, i / 4 * 3 + 1) * 256
        + byte_or_zero(bytes, i / 4 * 3 + 2);
    if i % 4 == 0 {
        three / 262144
    } else if i % 4 == 1 {
        three / 4096 % 64
    } else if i % 4 == 2 {
        three / 64 % 64
    } else {
        three % 64
    }
}

/// How long the base64 text for `n` bytes is.
pub open spec fn base64_len(n: int) -> int {
    (n + 2) / 3 * 4
}

/// The bytes in base64: a character for each six bits, and `=` to fill the last four.
pub open spec fn base64_of(bytes: Seq<u8>) -> Seq<char> {
    Seq::new(
        base64_len(bytes.len() as int) as nat,
        |i: int|
            if 6 * i < 8 * bytes.len() {
                base64_char(sextet(bytes, i))
            } else {
                '='
            },
    )
}

/// `base64::engine::general_purpose::STANDARD` and its `encode`: the bytes in base64 with
/// the standard alphabet and padding. The length has to be one that a string can have.
#[verifier::external_body]
fn encode_base64(bytes: &[u8]) -> (r: String)
    requires
        base64_len(bytes@.len() as int) <= isize::MAX,
    ensures
        r@ == base64_of(bytes@),
{
    base64::engine::general_purpose::STANDARD.encode(bytes)
}

/// Whether an endpoint and a model are known.
pub fn configured(t: &Translator) -> (r: bool)
    ensures
        r == (t.base_url is Some && t.model is Some),
{
    t.base_url.is_some() && t.model.is_some()
}

/// The part of the message that is the instruction.
pub open spec fn instruction_part() -> Json {
    Json::Object(object_of(seq![("type"@, Json::Text("text"@)), ("text"@, Json::Text(PROMPT@))]))
}

/// The part of the message that is the picture.
pub open spec fn picture_part(image: Seq<u8>) -> Json {
    Json::Object(
        object_of(
            seq![
                ("type"@, Json::Text("image_url"@)),
                (
                    "image_url"@,
                    Json::Object(
                        object_of(
                            seq![
                                (
                                    "url"@,
                                    Json::Text("data:image/png;base64,"@ + base64_of(image)),
                                ),
                            ],
                        ),
                    ),
                ),
            ],
        ),
    )
}

/// The chat request: one user message that holds the instruction and the picture.
pub open spec fn chat_document(model: Seq<char>, image: Seq<u8>) -> Json {
    Json::Object(
        object_of(
            seq![
                ("model"@, Json::Text(model)),
                ("stream"@, Json::Bool(false)),
                (
                    "messages"@,
                    Json::List(
                        seq![
                            Json::Object(
                                object_of(
                                    seq![
                                        ("role"@, Json::Text("user"@)),
                                        (
                                            "content"@,
                                            Json::List(
                                                seq![instruction_part(), picture_part(image)],
                                            ),
                                        ),
                                    ],
                                ),
                            ),
                        ],
                    ),
                ),
            ],
        ),
    )
}

/// The key that is sent: the configured one, else `ollama`.
pub open spec fn key_of(t: &Translator) -> Seq<char> {
    match t.api_key {
        Some(k) => k@,
        None => "ollama"@,
    }
}

/// Whether `q` asks the configured model to translate the picture.
pub open spec fn asks(q: Request, t: &Translator, image: Seq<u8>) -> bool {
    &&& t.base_url is Some && t.model is Some
    &&& q.url@ == without_end_slashes(t.base_url->0@) + "/chat/completions"@
    &&& q.authorization@ == "Bearer "@ + key_of(t)
    &&& q.content_type@ == "application/json; charset=utf-8"@
    &&& q.body@ == encode_utf8(json_pretty(chat_document(t.model->0@, image)))
    &&& json_document(q.body@) == Ok::<Json, Seq<char>>(chat_document(t.model->0@, image))
}

fn field(key: &str, v: serde_json::Value) -> (r: (String, serde_json::Value))
    ensures
        r.0@ == key@,
        r.1 == v,
{
    (String::from_str(key), v)
}

fn text_value(s: &str) -> (r: serde_json::Value)
    ensures
        json::json_of(r) == Json::Text(s@),
{
    json::string(String::from_str(s))
}

fn object2(k1: &str, v1: serde_json::Value, k2: &str, v2: serde_json::Value) -> (r: serde_json::Value)
    requires
        k1@ != k2@,
    ensures
        json::json_of(r) == Json::Object(
            object_of(seq![(k1@, json::json_of(v1)), (k2@, json::json_of(v2))]),
        ),
{
    let mut fields: Vec<(String, serde_json::Value)> = Vec::new();
    fields.push(field(k1, v1));
    fields.push(field(k2, v2));
    assert(json::fields_view(fields@) =~= seq![
        (k1@, json::json_of(v1)),
        (k2@, json::json_of(v2)),
    ]);
    json::object(fields)
}

fn instruction() -> (r: serde_json::Value)
    ensures
        json::json_of(r) == instruction_part(),
{
    proof {
        reveal_strlit("type");
        reveal_strlit("text");
        assert("type"@[1] != "text"@[1]);
    }
    object2("type", text_value("text"), "text", text_value(PROMPT))
}

fn picture(image: &[u8]) -> (r: serde_json::Value)
    requires
        base64_len(image@.len() as int) <= isize::MAX,
    ensures
        json::json_of(r) == picture_part(image@),
{
    let url = join("data:image/png;base64,", encode_base64(image).as_str());
    let mut fields: Vec<(String, serde_json::Value)> = Vec::new();
    fields.push(field("url", json::string(url)));
    assert(json::fields_view(fields@) =~= seq![
        ("url"@, Json::Text("data:image/png;base64,"@ + base64_of(image@))),
    ]);
    proof {
        reveal_strlit("type");
        reveal_strlit("image_url");
        assert("type"@.len() != "image_url"@.len());
    }
    object2("type", text_value("image_url"), "image_url", json::object(fields))
}

fn chat(model: &str, image: &[u8]) -> (r: serde_json::Value)
    requires
        base64_len(image@.len() as int) <= isize::MAX,
    ensures
        json::json_of(r) == chat_document(model@, image@),
{
    let mut content: Vec<serde_json::Value> = Vec::new();
    content.push(instruction());
    content.push(picture(image));
    assert(content@.map_values(|v: serde_json::Value| json::json_of(v)) =~= seq![
        instruction_part(),
        picture_part(image@),
    ]);
    proof {
        reveal_strlit("role");
        reveal_strlit("content");
        assert("role"@.len() != "content"@.len());
    }
    let message = object2("role", text_value("user"), "content", json::list(content));
    let mut messages: Vec<serde_json::Value> = Vec::new();
    messages.push(message);
    assert(messages@.map_values(|v: serde_json::Value| json::json_of(v)) =~= seq![
        json::json_of(message),
    ]);
    let mut fields: Vec<(String, serde_json::Value)> = Vec::new();
    fields.push(field("model", text_value(model)));
    fields.push(field("stream", json::boolean(false)));
    fields.push(field("messages", json::list(messages)));
    proof {
        reveal_strlit("model");
        reveal_strlit("stream");
        reveal_strlit("messages");
        assert("model"@.len() != "stream"@.len());
        assert("model"@.len() != "messages"@.len());
        assert("stream"@.len() != "messages"@.len());
    }
    assert(json::fields_view(fields@) =~= seq![
        ("model"@, Json::Text(model@)),
        ("stream"@, Json::Bool(false)),
        ("messages"@, Json::List(seq![json::json_of(message)])),
    ]);
    json::object(fields)
}

/// The request that has a screenshot translated, from the bytes of its file or the reason
/// why it could not be read.
pub fn translate_request(t: &Translator, image: &Result<Vec<u8>, String>) -> (r: Result<
    Request,
    String,
>)
    requires
        image matches Ok(bytes) ==> base64_len(bytes@.len() as int) <= isize::MAX,
    ensures
        match r {
            Ok(q) => image matches Ok(bytes) && asks(q, t, bytes@),
            Err(e) => if t.base_url is None || t.model is None {
                e@ == "translation is not configured"@
            } else {
                image matches Err(why) && e@ == "read image: "@ + why@
            },
        },
{
    match (&t.base_url, &t.model) {
        (Some(base), Some(model)) => match image {
            Ok(bytes) => {
                let key = match &t.api_key {
                    Some(k) => k.as_str(),
                    None => "ollama",
                };
                proof {
                    lemma_chat_plain(model@, bytes@);
                }
                let body = json::write_pretty(&chat(model.as_str(), bytes.as_slice())).unwrap();
                Ok(
                    Request {
                        url: join(trim_end_slashes(base.as_str()), "/chat/completions"),
                        authorization: join("Bearer ", key),
                        content_type: String::from_str("application/json; charset=utf-8"),
                        body: body.as_str().as_bytes_vec(),
                    },
                )
            },
            Err(why) => Err(join("read image: ", why.as_str())),
        },
        _ => Err(String::from_str("translation is not configured")),
    }
}

proof fn lemma_object_values(fields: Seq<(Seq<char>, Json)>, key: Seq<char>)
    requires
        object_of(fields).contains_key(key),
    ensures
        exists|i: int| 0 <= i < fields.len() && (#[trigger] fields[i]).1 == object_of(fields)[key],
    decreases fields.len(),
{
    let last = fields[fields.len() - 1];
    if key == last.0 {
        assert(last.1 == object_of(fields)[key]);
    } else {
        let front = fields.drop_last();
        lemma_object_values(front, key);
        let i = choose|i: int|
            0 <= i < front.len() && (#[trigger] front[i]).1 == object_of(front)[key];
        assert(fields[i].1 == object_of(fields)[key]);
    }
}

proof fn lemma_object_plain(fields: Seq<(Seq<char>, Json)>, depth: nat)
    requires
        forall|i: int| 0 <= i < fields.len() ==> json::plain_within((#[trigger] fields[i]).1, depth),
    ensures
        json::plain_within(Json::Object(object_of(fields)), depth + 1),
{
    let all = object_of(fields);
    assert forall|k: Seq<char>| all.contains_key(k) implies json::plain_within(
        #[trigger] all[k],
        ((depth + 1) - 1) as nat,
    ) by {
        lemma_object_values(fields, k);
    }
}

proof fn lemma_list_plain(items: Seq<Json>, depth: nat)
    requires
        forall|i: int| 0 <= i < items.len() ==> json::plain_within(#[trigger] items[i], depth),
    ensures
        json::plain_within(Json::List(items), depth + 1),
{
}

/// The chat request can be written and read.
proof fn lemma_chat_plain(model: Seq<char>, image: Seq<u8>)
    ensures
        json::plain_within(chat_document(model, image), json::depth_limit()),
{
    let url = seq![("url"@, Json::Text("data:image/png;base64,"@ + base64_of(image)))];
    lemma_object_plain(url, 121);
    lemma_object_plain(
        seq![
            ("type"@, Json::Text("image_url"@)),
            ("image_url"@, Json::Object(object_of(url))),
        ],
        122,
    );
    lemma_object_plain(seq![("type"@, Json::Text("text"@)), ("text"@, Json::Text(PROMPT@))], 122);
    let content = Json::List(seq![instruction_part(), picture_part(image)]);
    lemma_list_plain(seq![instruction_part(), picture_part(image)], 123);
    let message = seq![("role"@, Json::Text("user"@)), ("content"@, content)];
    lemma_object_plain(message, 124);
    lemma_list_plain(seq![Json::Object(object_of(message))], 125);
    lemma_object_plain(
        seq![
            ("model"@, Json::Text(model)),
            ("stream"@, Json::Bool(false)),
            ("messages"@, Json::List(seq![Json::Object(object_of(message))])),
        ],
        126,
    );
}

/// The text that the model answered with.
pub open spec fn answer_in(j: Json) -> Option<Seq<char>> {
    text_of(
        member_of(member_of(item_of(member_of(j, "choices"@), 0), "message"@), "content"@),
    )
}

/// The translation that a document holds, or what is wrong with it.
pub open spec fn translation_in(j: Json) -> Result<Seq<char>, Seq<char>> {
    match answer_in(j) {
        Some(text) => if trimmed(text).len() > 0 {
            Ok(trimmed(text))
        } else {
            Err("empty translation"@)
        },
        None => Err("no content in response"@),
    }
}

/// The translation that a reply holds, or what went wrong.
pub open spec fn translation_of(reply: Reply) -> Result<Seq<char>, Seq<char>> {
    match reply {
        Reply::Failed(why) => Err("request failed: "@ + why@),
        Reply::Unread(why) => Err("bad response: "@ + why@),
        Reply::Body(bytes) => match json_document(bytes@) {
            Ok(j) => translation_in(j),
            Err(why) => Err("bad response: json: "@ + why),
        },
    }
}

/// The translation that a document holds, or what is wrong with it, in words.
pub fn read_translation(v: &serde_json::Value) -> (r: Result<String, String>)
    ensures
        outcome(r, translation_in(json::json_of(*v))),
{
    let choice = json::item(json::member(v, "choices"), 0);
    match json::as_text(json::member(json::member(choice, "message"), "content")) {
        Some(text) => {
            let text = trim(text);
            if text.is_empty() {
                Err(String::from_str("empty translation"))
            } else {
                Ok(String::from_str(text))
            }
        },
        None => Err(String::from_str("no content in response")),
    }
}

/// The translation that a reply holds, or what went wrong, in words.
pub fn translate_reply(reply: &Reply) -> (r: Result<String, String>)
    ensures
        outcome(r, translation_of(*reply)),
{
    match reply {
        Reply::Failed(why) => Err(join("request failed: ", why.as_str())),
        Reply::Unread(why) => Err(join("bad response: ", why.as_str())),
        Reply::Body(bytes) => match json::parse(bytes.as_slice()) {
            Ok(v) => read_translation(&v),
            Err(why) => Err(join("bad response: json: ", why.as_str())),
        },
    }
}

// ---------------------------------------------------------------------------
// What is asked for, and what answers mean
// ---------------------------------------------------------------------------

proof fn lemma_two_fields(k1: Seq<char>, v1: Json, k2: Seq<char>, v2: Json)
    requires
        k1 != k2,
    ensures
        member_of(Json::Object(object_of(seq![(k1, v1), (k2, v2)])), k1) == v1,
        member_of(Json::Object(object_of(seq![(k1, v1), (k2, v2)])), k2) == v2,
{
    let all = seq![(k1, v1), (k2, v2)];
    assert(all.drop_last() =~= seq![(k1, v1)]);
    assert(all.drop_last().drop_last() =~= Seq::empty());
    reveal_with_fuel(object_of, 3);
}

/// A request asks the configured model, without streaming, in one message of the user that
/// first says what to do and then holds the picture, whole, as a data URL.
pub proof fn law_request_document(model: Seq<char>, image: Seq<u8>)
    ensures
        ({
            let doc = chat_document(model, image);
            let messages = member_of(doc, "messages"@);
            let message = item_of(messages, 0);
            let content = member_of(message, "content"@);
            &&& member_of(doc, "model"@) == Json::Text(model)
            &&& member_of(doc, "stream"@) == Json::Bool(false)
            &&& messages is List && messages->List_0.len() == 1
            &&& member_of(message, "role"@) == Json::Text("user"@)
            &&& content is List && content->List_0.len() == 2
            &&& member_of(item_of(content, 0), "type"@) == Json::Text("text"@)
            &&& member_of(item_of(content, 0), "text"@) == Json::Text(
                "Read all text in this image and translate it into English. Output only the translation — no preamble, notes, or commentary. If there is no readable text, reply exactly: (no text found)"@,
            )
            &&& member_of(item_of(content, 1), "type"@) == Json::Text("image_url"@)
            &&& member_of(member_of(item_of(content, 1), "image_url"@), "url"@) == Json::Text(
                "data:image/png;base64,"@ + base64_of(image),
            )
        }),
{
    reveal_strlit("type");
    reveal_strlit("text");
    reveal_strlit("image_url");
    reveal_strlit("role");
    reveal_strlit("content");
    reveal_strlit("model");
    reveal_strlit("stream");
    reveal_strlit("messages");
    assert("type"@[1] != "text"@[1]);
    assert("type"@.len() != "image_url"@.len());
    assert("role"@.len() != "content"@.len());
    assert("model"@.len() != "stream"@.len());
    assert("model"@.len() != "messages"@.len());
    assert("stream"@.len() != "messages"@.len());
    lemma_two_fields("type"@, Json::Text("text"@), "text"@, Json::Text(PROMPT@));
    let url = seq![("url"@, Json::Text("data:image/png;base64,"@ + base64_of(image)))];
    assert(url.drop_last() =~= Seq::empty());
    lemma_two_fields(
        "type"@,
        Json::Text("image_url"@),
        "image_url"@,
        Json::Object(object_of(url)),
    );
    let content = Json::List(seq![instruction_part(), picture_part(image)]);
    lemma_two_fields("role"@, Json::Text("user"@), "content"@, content);
    let message = Json::Object(
        object_of(seq![("role"@, Json::Text("user"@)), ("content"@, content)]),
    );
    let all = seq![
        ("model"@, Json::Text(model)),
        ("stream"@, Json::Bool(false)),
        ("messages"@, Json::List(seq![message])),
    ];
    assert(all.drop_last() =~= seq![
        ("model"@, Json::Text(model)),
        ("stream"@, Json::Bool(false)),
    ]);
    assert(all.drop_last().drop_last() =~= seq![("model"@, Json::Text(model))]);
    assert(all.drop_last().drop_last().drop_last() =~= Seq::empty());
    reveal_with_fuel(object_of, 4);
}

/// A request goes to the configured endpoint with the configured key, or `ollama` where there
/// is none, and its body reads as the chat request for the picture.
pub proof fn law_request_sent(q: Request, t: Translator, image: Seq<u8>)
    requires
        asks(q, &t, image),
    ensures
        t.base_url is Some && t.model is Some,
        q.url@ == without_end_slashes(t.base_url->0@) + "/chat/completions"@,
        t.api_key is Some ==> q.authorization@ == "Bearer "@ + t.api_key->0@,
        t.api_key is None ==> q.authorization@ == "Bearer "@ + "ollama"@,
        q.content_type@ == "application/json; charset=utf-8"@,
        json_document(q.body@) == Ok::<Json, Seq<char>>(chat_document(t.model->0@, image)),
{
}

/// The answer is the text at `choices[0].message.content`, without the white space around it,
/// whatever else the document and the other choices hold; an answer that is blank is none.
pub proof fn law_answer_read(
    doc: Map<Seq<char>, Json>,
    choices: Seq<Json>,
    choice: Map<Seq<char>, Json>,
    message: Map<Seq<char>, Json>,
    text: Seq<char>,
)
    requires
        doc.contains_key("choices"@) && doc["choices"@] == Json::List(choices),
        choices.len() > 0 && choices[0] == Json::Object(choice),
        choice.contains_key("message"@) && choice["message"@] == Json::Object(message),
        message.contains_key("content"@) && message["content"@] == Json::Text(text),
    ensures
        translation_in(Json::Object(doc)) == (if forall|i: int|
            0 <= i < text.len() ==> crate::text::is_space(#[trigger] text[i]) {
            Err::<Seq<char>, Seq<char>>("empty translation"@)
        } else {
            Ok(trimmed(text))
        }),
{
    crate::text::law_trim(text);
    let (a, b) = choose|a: int, b: int|
        {
            &&& 0 <= a <= b <= text.len()
            &&& trimmed(text) == #[trigger] text.subrange(a, b)
            &&& forall|i: int| 0 <= i < a ==> crate::text::is_space(#[trigger] text[i])
            &&& forall|i: int| b <= i < text.len() ==> crate::text::is_space(#[trigger] text[i])
        };
    if trimmed(text).len() > 0 {
        assert(trimmed(text)[0] == text[a]);
    }
}

/// Where there is no such text, there is no content, whatever else the document holds.
pub proof fn law_no_answer(j: Json)
    requires
        !(member_of(
            member_of(item_of(member_of(j, "choices"@), 0), "message"@),
            "content"@,
        ) is Text),
    ensures
        translation_in(j) == Err::<Seq<char>, Seq<char>>("no content in response"@),
{
}

/// What went wrong on the way is told with its reason; an answer that could be read is judged
/// by its document.
pub proof fn law_reply_told(why: String, body: Vec<u8>, j: Json, fault: Seq<char>)
    ensures
        translation_of(Reply::Failed(why)) == Err::<Seq<char>, Seq<char>>(
            "request failed: "@ + why@,
        ),
        translation_of(Reply::Unread(why)) == Err::<Seq<char>, Seq<char>>("bad response: "@ + why@),
        json_document(body@) == Err::<Json, Seq<char>>(fault) ==> translation_of(Reply::Body(body))
            == Err::<Seq<char>, Seq<char>>("bad response: json: "@ + fault),
        json_document(body@) == Ok::<Json, Seq<char>>(j) ==> translation_of(Reply::Body(body))
            == translation_in(j),
{
}

} // verus!
