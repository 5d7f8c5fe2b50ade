//! Sharing a screenshot on a Picsur instance.

use vstd::prelude::*;
use vstd::utf8::{decode_utf8, encode_utf8, valid_utf8};
use crate::json;
use crate::json::{bool_of, json_document, member_of, text_of, Json};
use crate::remote::{join, outcome, Reply, Request};
use crate::text::{trim_end_slashes, utf8_text, without_end_slashes};

verus! {

/// The line between the parts of an upload.
pub const BOUNDARY: &'static str = "----monadoframeKZ7sQ2x9bnd";

/// Where screenshots are shared, as far as it was configured.
pub struct Instance {
    pub base_url: Option<String>,
    pub api_key: Option<String>,
}

/// Whether an instance and a key are known.
pub fn configured(p: &Instance) -> (r: bool)
    ensures
        r == (p.base_url is Some && p.api_key is Some),
{
    p.base_url.is_some() && p.api_key.is_some()
}

/// The file name told to the instance.
pub open spec fn told_name(name: Seq<u8>) -> Seq<char> {
    if valid_utf8(name) {
        decode_utf8(name)
    } else {
        "screenshot.png"@
    }
}

/// What stands before the file in an upload.
pub open spec fn upload_head(name: Seq<u8>) -> Seq<char> {
    "--"@ + BOUNDARY@ + "\r\nContent-Disposition: form-data; name=\"image\"; filename=\""@
        + told_name(name) + "\"\r\nContent-Type: image/png\r\n\r\n"@
}

/// What stands behind the file in an upload.
pub open spec fn upload_tail() -> Seq<char> {
    "\r\n--"@ + BOUNDARY@ + "--\r\n"@
}

/// A form of one field, `image`, that holds the file.
pub open spec fn upload_body(name: Seq<u8>, image: Seq<u8>) -> Seq<u8> {
    encode_utf8(upload_head(name)) + image + encode_utf8(upload_tail())
}

/// Whether `q` uploads the file to the configured instance.
pub open spec fn uploads(q: Request, p: &Instance, name: Seq<u8>, image: Seq<u8>) -> bool {
    &&& p.base_url is Some && p.api_key is Some
    &&& q.url@ == without_end_slashes(p.base_url->0@) + "/api/image/upload"@
    &&& q.authorization@ == "Api-Key "@ + p.api_key->0@
    &&& q.content_type@ == "multipart/form-data; boundary="@ + BOUNDARY@
    &&& q.body@ == upload_body(name, image)
}

fn form_head(name: &Vec<u8>) -> (r: String)
    ensures
        r@ == upload_head(name@),
{
    let mut head = join("--", BOUNDARY);
    head.append("\r\nContent-Disposition: form-data; name=\"image\"; filename=\"");
    match utf8_text(name.as_slice()) {
        Some(text) => head.append(text),
        None => head.append("screenshot.png"),
    }
    head.append("\"\r\nContent-Type: image/png\r\n\r\n");
    head
}

fn form_body(name: &Vec<u8>, image: &Vec<u8>) -> (r: Vec<u8>)
    ensures
        r@ == upload_body(name@, image@),
{
    let head = form_head(name);
    let mut tail = join("\r\n--", BOUNDARY);
    tail.append("--\r\n");
    let mut body: Vec<u8> = head.as_str().as_bytes_vec();
    body.extend_from_slice(image.as_slice());
    body.extend_from_slice(tail.as_str().as_bytes());
    assert(body@ =~= upload_body(name@, image@));
    body
}

/// The request that uploads a screenshot, from its file name and the bytes of the file or
/// the reason why it could not be read.
pub fn upload_request(p: &Instance, name: &Vec<u8>, image: &Result<Vec<u8>, String>) -> (r: Result<
    Request,
    String,
>)
    ensures
        match r {
            Ok(q) => image matches Ok(bytes) && uploads(q, p, name@, bytes@),
            Err(e) => if p.base_url is None || p.api_key is None {
                e@ == "picsur is not configured"@
            } else {
                image matches Err(why) && e@ == "read image: "@ + why@
            },
        },
{
    match (&p.base_url, &p.api_key) {
        (Some(base), Some(key)) => match image {
            Ok(bytes) => Ok(
                Request {
                    url: join(trim_end_slashes(base.as_str()), "/api/image/upload"),
                    authorization: join("Api-Key ", key.as_str()),
                    content_type: join("multipart/form-data; boundary=", BOUNDARY),
                    body: form_body(name, bytes),
                },
            ),
            Err(why) => Err(join("read image: ", why.as_str())),
        },
        _ => Err(String::from_str("picsur is not configured")),
    }
}

/// The link under which an instance shows the picture `id`.
pub open spec fn share_link(base_url: Seq<char>, id: Seq<char>) -> Seq<char> {
    without_end_slashes(base_url) + "/i/"@ + id + ".png"@
}

/// For a base address without a slash at its end, the link is that address, `/i/`, the
/// picture and `.png`; slashes at its end make no difference.
pub proof fn law_share_link(base_url: Seq<char>, id: Seq<char>)
    ensures
        base_url.len() == 0 || base_url.last() != '/' ==> share_link(base_url, id) == base_url
            + "/i/"@ + id + ".png"@,
        share_link(base_url.push('/'), id) == share_link(base_url, id),
{
    assert(base_url.push('/').drop_last() =~= base_url);
}

/// The link that a document of the instance leads to, or why it refused the picture.
pub open spec fn link_in(j: Json, base_url: Seq<char>) -> Result<Seq<char>, Seq<char>> {
    let data = member_of(j, "data"@);
    if bool_of(member_of(j, "success"@)) != Some(true) {
        match text_of(member_of(data, "message"@)) {
            Some(why) => Err(why),
            None => Err("upload rejected"@),
        }
    } else {
        match text_of(member_of(data, "id"@)) {
            Some(id) => Ok(share_link(base_url, id)),
            None => Err("no id in response"@),
        }
    }
}

/// The link that a reply of the instance leads to, or what went wrong.
pub open spec fn link_of(reply: Reply, base_url: Seq<char>) -> Result<Seq<char>, Seq<char>> {
    match reply {
        Reply::Failed(why) => Err("upload failed: "@ + why@),
        Reply::Unread(why) => Err("bad response: "@ + why@),
        Reply::Body(bytes) => match json_document(bytes@) {
            Ok(j) => link_in(j, base_url),
            Err(why) => Err("bad response: json: "@ + why),
        },
    }
}

/// The link that a document of the instance leads to, or why it refused the picture, in
/// words.
pub fn read_link(v: &serde_json::Value, base_url: &str) -> (r: Result<String, String>)
    ensures
        outcome(r, link_in(json::json_of(*v), base_url@)),
{
    let data = json::member(v, "data");
    let accepted = match json::as_bool(json::member(v, "success")) {
        Some(b) => b,
        None => false,
    };
    if !accepted {
        match json::as_text(json::member(data, "message")) {
            Some(why) => Err(String::from_str(why)),
            None => Err(String::from_str("upload rejected")),
        }
    } else {
        match json::as_text(json::member(data, "id")) {
            Some(id) => {
                let mut link = join(trim_end_slashes(base_url), "/i/");
                link.append(id);
                link.append(".png");
                Ok(link)
            },
            None => Err(String::from_str("no id in response")),
        }
    }
}

/// The link that a reply of the instance at `base_url` leads to, or what went wrong, in
/// words.
pub fn upload_reply(reply: &Reply, base_url: &str) -> (r: Result<String, String>)
    ensures
        outcome(r, link_of(*reply, base_url@)),
{
    match reply {
        Reply::Failed(why) => Err(join("upload failed: ", why.as_str())),
        Reply::Unread(why) => Err(join("bad response: ", why.as_str())),
        Reply::Body(bytes) => match json::parse(bytes.as_slice()) {
            Ok(v) => read_link(&v, base_url),
            Err(why) => Err(join("bad response: json: ", why.as_str())),
        },
    }
}

// ---------------------------------------------------------------------------
// What is sent, and what answers mean
// ---------------------------------------------------------------------------

/// An upload goes to the configured instance with the configured key, as a form whose parts
/// the boundary that it names separates.
pub proof fn law_upload_sent(q: Request, p: Instance, name: Seq<u8>, image: Seq<u8>)
    requires
        uploads(q, &p, name, image),
    ensures
        p.base_url is Some && p.api_key is Some,
        q.url@ == without_end_slashes(p.base_url->0@) + "/api/image/upload"@,
        q.authorization@ == "Api-Key "@ + p.api_key->0@,
        q.content_type@ == "multipart/form-data; boundary="@ + BOUNDARY@,
        q.body@ == upload_body(name, image),
{
}

/// The file is in the upload whole and unchanged, whatever its bytes are, between a head that
/// depends on the name alone and a tail that depends on nothing.
pub proof fn law_upload_holds_file(name: Seq<u8>, image: Seq<u8>, other: Seq<u8>)
    ensures
        ({
            let body = upload_body(name, image);
            let start = encode_utf8(upload_head(name)).len() as int;
            &&& body.len() == start + image.len() + encode_utf8(upload_tail()).len()
            &&& body.subrange(start, start + image.len()) == image
            &&& body.take(start) == upload_body(name, other).take(start)
            &&& body.skip(start + image.len()) == upload_body(name, other).skip(
                start + other.len(),
            )
        }),
{
    let head = encode_utf8(upload_head(name));
    let tail = encode_utf8(upload_tail());
    let start = head.len() as int;
    assert(upload_body(name, image).subrange(start, start + image.len()) =~= image);
    assert(upload_body(name, image).take(start) =~= head);
    assert(upload_body(name, other).take(start) =~= head);
    assert(upload_body(name, image).skip(start + image.len()) =~= tail);
    assert(upload_body(name, other).skip(start + other.len()) =~= tail);
}

/// The head opens a part of the form, `image`, for a PNG under the name of the file, or
/// `screenshot.png` where that is no text; the tail ends the form. Both are marked by the
/// boundary.
pub proof fn law_upload_form(name: Seq<u8>, text: Seq<char>)
    ensures
        valid_utf8(name) && decode_utf8(name) == text ==> upload_head(name) == "--"@ + BOUNDARY@
            + "\r\nContent-Disposition: form-data; name=\"image\"; filename=\""@ + text
            + "\"\r\nContent-Type: image/png\r\n\r\n"@,
        !valid_utf8(name) ==> upload_head(name) == "--"@ + BOUNDARY@
            + "\r\nContent-Disposition: form-data; name=\"image\"; filename=\""@
            + "screenshot.png"@ + "\"\r\nContent-Type: image/png\r\n\r\n"@,
        upload_tail() == "\r\n--"@ + BOUNDARY@ + "--\r\n"@,
{
}

/// A picture that the instance accepted is linked by its number there, whatever else the
/// document holds.
pub proof fn law_accepted_is_linked(
    doc: Map<Seq<char>, Json>,
    data: Map<Seq<char>, Json>,
    id: Seq<char>,
    base_url: Seq<char>,
)
    requires
        doc.contains_key("success"@) && doc["success"@] == Json::Bool(true),
        doc.contains_key("data"@) && doc["data"@] == Json::Object(data),
    ensures
        data.contains_key("id"@) && data["id"@] == Json::Text(id) ==> link_in(
            Json::Object(doc),
            base_url,
        ) == Ok::<Seq<char>, Seq<char>>(without_end_slashes(base_url) + "/i/"@ + id + ".png"@),
        !data.contains_key("id"@) || !(data["id"@] is Text) ==> link_in(Json::Object(doc), base_url)
            == Err::<Seq<char>, Seq<char>>("no id in response"@),
{
}

/// A picture that the instance did not accept has no link: it is told why, where the document
/// says so in words, and otherwise that it was rejected.
pub proof fn law_refused_is_told(j: Json, base_url: Seq<char>, why: Seq<char>)
    requires
        member_of(j, "success"@) != Json::Bool(true),
    ensures
        member_of(member_of(j, "data"@), "message"@) == Json::Text(why) ==> link_in(j, base_url)
            == Err::<Seq<char>, Seq<char>>(why),
        !(member_of(member_of(j, "data"@), "message"@) is Text) ==> link_in(j, base_url) == Err::<
            Seq<char>,
            Seq<char>,
        >("upload rejected"@),
{
}

/// What went wrong on the way is told with its reason; an answer that could be read is judged
/// by its document.
pub proof fn law_upload_reply_told(
    why: String,
    body: Vec<u8>,
    j: Json,
    fault: Seq<char>,
    base_url: Seq<char>,
)
    ensures
        link_of(Reply::Failed(why), base_url) == Err::<Seq<char>, Seq<char>>(
            "upload failed: "@ + why@,
        ),
        link_of(Reply::Unread(why), base_url) == Err::<Seq<char>, Seq<char>>(
            "bad response: "@ + why@,
        ),
        json_document(body@) == Err::<Json, Seq<char>>(fault) ==> link_of(
            Reply::Body(body),
            base_url,
        ) == Err::<Seq<char>, Seq<char>>("bad response: json: "@ + fault),
        json_document(body@) == Ok::<Json, Seq<char>>(j) ==> link_of(Reply::Body(body), base_url)
            == link_in(j, base_url),
{
}

} // verus!
