use monado_frame::remote::Reply;
use monado_frame::translate::{configured, read_translation, translate_reply, translate_request, Translator, PROMPT};

fn translator() -> Translator {
    Translator {
        base_url: Some(String::from("http://host:11434/v1//")),
        model: Some(String::from("qwen")),
        api_key: None,
    }
}

fn body(text: &str) -> Reply {
    Reply::Body(text.as_bytes().to_vec())
}

#[test]
fn translate_needs_address_and_model() {
    let mut t = translator();
    assert!(configured(&t));
    t.model = None;
    assert!(!configured(&t));
    let mut t = translator();
    t.base_url = None;
    assert!(!configured(&t));
    match translate_request(&t, &Ok(vec![1])) {
        Err(e) => assert_eq!(e, "translation is not configured"),
        Ok(_) => panic!("configured"),
    }
}

#[test]
fn translate_request_is_complete() {
    let q = translate_request(&translator(), &Ok(b"Man".to_vec())).unwrap_or_else(|e| panic!("{e}"));
    assert_eq!(q.url, "http://host:11434/v1/chat/completions");
    assert_eq!(q.authorization, "Bearer ollama");
    assert_eq!(q.content_type, "application/json; charset=utf-8");
    let v: serde_json::Value = serde_json::from_slice(&q.body).unwrap();
    assert_eq!(v["model"], "qwen");
    assert_eq!(v["stream"], false);
    assert_eq!(v["messages"].as_array().unwrap().len(), 1);
    assert_eq!(v["messages"][0]["role"], "user");
    let content = &v["messages"][0]["content"];
    assert_eq!(content.as_array().unwrap().len(), 2);
    assert_eq!(content[0]["type"], "text");
    assert_eq!(content[0]["text"], PROMPT);
    assert_eq!(content[1]["type"], "image_url");
    assert_eq!(content[1]["image_url"]["url"], "data:image/png;base64,TWFu");
    assert_eq!(v.as_object().unwrap().len(), 3);
}

#[test]
fn translate_request_pads_base64_and_sends_the_key() {
    let mut t = translator();
    t.api_key = Some(String::from("secret"));
    for (bytes, expected) in [(vec![], ""), (vec![255u8], "/w=="), (vec![0, 16], "ABA="), (vec![251, 255], "+/8=")] {
        let q = translate_request(&t, &Ok(bytes)).unwrap_or_else(|e| panic!("{e}"));
        assert_eq!(q.authorization, "Bearer secret");
        let v: serde_json::Value = serde_json::from_slice(&q.body).unwrap();
        let url = v["messages"][0]["content"][1]["image_url"]["url"].as_str().unwrap().to_string();
        assert_eq!(url, format!("data:image/png;base64,{expected}"));
    }
}

#[test]
fn translate_request_tells_why_a_file_was_not_read() {
    match translate_request(&translator(), &Err(String::from("gone"))) {
        Err(e) => assert_eq!(e, "read image: gone"),
        Ok(_) => panic!("nothing to send"),
    }
}

#[test]
fn translations_are_trimmed() {
    let reply = body("{\"choices\": [{\"message\": {\"content\": \" \\u00a0Hello\\nthere \\t\"}}]}");
    assert_eq!(translate_reply(&reply), Ok(String::from("Hello\nthere")));
}

#[test]
fn translation_faults() {
    let fault = |r: Reply| translate_reply(&r).unwrap_err();
    assert_eq!(fault(Reply::Failed(String::from("timeout"))), "request failed: timeout");
    assert_eq!(fault(Reply::Unread(String::from("io"))), "bad response: io");
    assert!(fault(body("nope")).starts_with("bad response: json: expected ident"));
    assert_eq!(fault(body("{}")), "no content in response");
    assert_eq!(fault(body("{\"choices\": {\"0\": {\"message\": {\"content\": \"x\"}}}}")), "no content in response");
    assert_eq!(fault(body("{\"choices\": [{\"message\": {\"content\": 3}}]}")), "no content in response");
    assert_eq!(fault(body("{\"choices\": [{\"message\": {\"content\": \"  \"}}]}")), "empty translation");
}

#[test]
fn translation_from_a_document() {
    let v: serde_json::Value = serde_json::from_str("{\"choices\": [{\"message\": {\"content\": \"ok\"}}, 1]}").unwrap();
    assert_eq!(read_translation(&v), Ok(String::from("ok")));
}
