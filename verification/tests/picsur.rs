use monado_frame::picsur::{configured, read_link, upload_reply, upload_request, Instance, BOUNDARY};
use monado_frame::remote::Reply;

fn instance() -> Instance {
    Instance { base_url: Some(String::from("https://pics.example/")), api_key: Some(String::from("k")) }
}

fn body(text: &str) -> Reply {
    Reply::Body(text.as_bytes().to_vec())
}

#[test]
fn picsur_needs_address_and_key() {
    let mut p = instance();
    assert!(configured(&p));
    p.api_key = None;
    assert!(!configured(&p));
    match upload_request(&p, &b"a.png".to_vec(), &Ok(vec![1])) {
        Err(e) => assert_eq!(e, "picsur is not configured"),
        Ok(_) => panic!("configured"),
    }
}

#[test]
fn upload_request_is_complete() {
    let q = upload_request(&instance(), &b"a.png".to_vec(), &Ok(vec![1, 2, 3])).unwrap_or_else(|e| panic!("{e}"));
    assert_eq!(q.url, "https://pics.example/api/image/upload");
    assert_eq!(q.authorization, "Api-Key k");
    assert_eq!(q.content_type, format!("multipart/form-data; boundary={BOUNDARY}"));
    let mut expected = format!(
        "--{BOUNDARY}\r\nContent-Disposition: form-data; name=\"image\"; filename=\"a.png\"\r\nContent-Type: image/png\r\n\r\n"
    )
    .into_bytes();
    expected.extend_from_slice(&[1, 2, 3]);
    expected.extend_from_slice(format!("\r\n--{BOUNDARY}--\r\n").as_bytes());
    assert_eq!(q.body, expected);
}

#[test]
fn upload_names_what_has_no_text_name() {
    let q = upload_request(&instance(), &vec![0xff], &Ok(Vec::new())).unwrap_or_else(|e| panic!("{e}"));
    let text = String::from_utf8(q.body).unwrap();
    assert!(text.contains("filename=\"screenshot.png\""));
    match upload_request(&instance(), &vec![0xff], &Err(String::from("gone"))) {
        Err(e) => assert_eq!(e, "read image: gone"),
        Ok(_) => panic!("nothing to send"),
    }
}

#[test]
fn links_lead_to_the_picture() {
    let reply = body("{\"success\": true, \"data\": {\"id\": \"42\"}}");
    assert_eq!(upload_reply(&reply, "https://picsur.example.com"), Ok(String::from("https://picsur.example.com/i/42.png")));
    assert_eq!(upload_reply(&reply, "https://picsur.example.com//"), Ok(String::from("https://picsur.example.com/i/42.png")));
}

#[test]
fn upload_faults() {
    let fault = |r: Reply| upload_reply(&r, "b").unwrap_err();
    assert_eq!(fault(Reply::Failed(String::from("x"))), "upload failed: x");
    assert_eq!(fault(Reply::Unread(String::from("x"))), "bad response: x");
    assert!(fault(body("")).starts_with("bad response: json: EOF"));
    assert_eq!(fault(body("{\"success\": false, \"data\": {\"message\": \"too big\"}}")), "too big");
    assert_eq!(fault(body("{\"success\": \"true\"}")), "upload rejected");
    assert_eq!(fault(body("{\"success\": true, \"data\": {\"id\": 42}}")), "no id in response");
}

#[test]
fn link_from_a_document() {
    let v: serde_json::Value = serde_json::from_str("{\"success\": true, \"data\": {\"id\": \"a\"}}").unwrap();
    assert_eq!(read_link(&v, "b/"), Ok(String::from("b/i/a.png")));
}
