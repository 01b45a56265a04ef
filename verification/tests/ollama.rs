use pj::chat::OllamaChatMessage;
use pj::ollama::{
    chat_url, chat_with_ollama, chunks_text, clean_response, connect_error, generate_url,
    learn_vision, model_supports_vision, parsed_reply, resume_exchange, show_url, stream_error,
    stream_lines, stream_pieces, Answer, AnswerOf, Exchange, ExchangeStep, OllamaChatResponse,
    OllamaChunk, OllamaRequest, VisionCache, VisionStep,
};
use pj::tools::get_tool_definitions;

fn said(content: &str) -> OllamaChatMessage {
    OllamaChatMessage {
        role: "assistant".to_string(),
        content: content.to_string(),
        tool_calls: None,
        name: None,
        images: None,
    }
}

fn exchange(with_tools: bool) -> Exchange {
    let tools = if with_tools { Some(get_tool_definitions()) } else { None };
    chat_with_ollama("http://host", "model", vec![said("hi")], tools)
}

fn received(success: bool, status: &str, text: &str) -> Answer {
    AnswerOf::Received { success, status: status.to_string(), text: text.to_string() }
}

fn chunk(response: &str) -> OllamaChunk {
    OllamaChunk { response: response.to_string(), done: false }
}

#[test]
fn addresses_are_built() {
    assert_eq!(generate_url("http://h:1"), "http://h:1/api/generate");
    assert_eq!(chat_url("http://h:1"), "http://h:1/api/chat");
    assert_eq!(show_url("http://h:1"), "http://h:1/api/show");
}

#[test]
fn lines_of_a_stream_are_kept_unless_blank() {
    assert_eq!(stream_lines("a\r\n\n \nb\n"), vec!["a".to_string(), "b".to_string()]);
    assert_eq!(stream_pieces("a\r\n\n \nb\n"), vec!["a\r".to_string(), "b".to_string()]);
}

#[test]
fn tags_are_taken_out_of_a_stream() {
    assert_eq!(clean_response("<think>so</think>yes"), "soyes");
    assert_eq!(clean_response("plain"), "plain");
    assert_eq!(chunks_text(&vec![chunk("a<think>"), chunk("b"), chunk("</think>c")]), "abc");
    assert_eq!(chunks_text(&Vec::new()), "");
}

#[test]
fn parts_make_up_the_reply() {
    let whole = chunks_text(&vec![chunk("a"), chunk("b<think>"), chunk("c")]);
    let parts = chunks_text(&vec![chunk("a")]) + &chunks_text(&vec![chunk("b<think>"), chunk("c")]);
    assert_eq!(whole, parts);
}

#[test]
fn errors_are_put_in_words() {
    assert_eq!(connect_error("refused"), "Failed to connect to Ollama: refused");
    assert_eq!(stream_error("eof"), "Stream error: eof");
}

#[test]
fn the_first_request_carries_everything() {
    let first = exchange(true);
    assert_eq!(first.url, "http://host/api/chat");
    assert_eq!(first.request.model, "model");
    assert!(!first.request.stream);
    assert_eq!(first.request.messages.len(), 1);
    assert_eq!(first.request.tools.as_ref().map(|t| t.len()), Some(7));
}

#[test]
fn a_model_without_tools_is_asked_again_without() {
    for text in ["model does not support tools", "feature not supported"] {
        match resume_exchange(exchange(true), &received(false, "400 Bad Request", text)) {
            ExchangeStep::Send(again) => {
                assert!(again.request.tools.is_none());
                assert_eq!(again.request.messages[0].content, "hi");
                assert_eq!(again.url, "http://host/api/chat");
                match resume_exchange(again, &received(false, "400 Bad Request", text)) {
                    ExchangeStep::Failed(error) => {
                        assert_eq!(error, format!("Ollama returned error 400 Bad Request: {text}"));
                    }
                    other => panic!("{other:?}"),
                }
            }
            other => panic!("{other:?}"),
        }
    }
}

#[test]
fn other_errors_end_the_exchange() {
    match resume_exchange(exchange(true), &received(false, "500", "boom")) {
        ExchangeStep::Failed(error) => assert_eq!(error, "Ollama returned error 500: boom"),
        other => panic!("{other:?}"),
    }
    match resume_exchange(exchange(true), &AnswerOf::NotSent { reason: "x".to_string() }) {
        ExchangeStep::Failed(error) => assert_eq!(error, "Failed to connect to Ollama: x"),
        other => panic!("{other:?}"),
    }
    match resume_exchange(exchange(false), &AnswerOf::NotRead { reason: "x".to_string() }) {
        ExchangeStep::Failed(error) => assert_eq!(error, "Failed to read Ollama response body: x"),
        other => panic!("{other:?}"),
    }
}

#[test]
fn a_success_is_parsed() {
    match resume_exchange(exchange(true), &received(true, "200 OK", "{}")) {
        ExchangeStep::Parse(text) => assert_eq!(text, "{}"),
        other => panic!("{other:?}"),
    }
    let response = OllamaChatResponse { message: said("yes"), done: true };
    assert_eq!(parsed_reply("{}", Ok(response)).unwrap().message.content, "yes");
    let long = "x".repeat(600);
    match parsed_reply(&long, Err("bad".to_string())) {
        Err(error) => {
            assert_eq!(error, format!("Failed to parse Ollama response (bad): {}", "x".repeat(500)));
        }
        Ok(_) => panic!("parsed"),
    }
}

#[test]
fn what_is_known_of_a_model_is_remembered() {
    let mut cache = VisionCache::new();
    match model_supports_vision(&cache, "http://h", "llava") {
        VisionStep::Ask(url) => assert_eq!(url, "http://h/api/show"),
        VisionStep::Known(_) => panic!("known"),
    }
    let listed = Some(vec!["completion".to_string(), "vision".to_string()]);
    assert!(learn_vision(&mut cache, "llava", &listed));
    assert!(!learn_vision(&mut cache, "qwen", &Some(vec!["tools".to_string()])));
    assert!(!learn_vision(&mut cache, "other", &None));
    assert!(matches!(model_supports_vision(&cache, "http://h", "llava"), VisionStep::Known(true)));
    assert!(matches!(model_supports_vision(&cache, "http://h", "qwen"), VisionStep::Known(false)));
    assert_eq!(cache.get("other"), Some(false));
    assert_eq!(cache.get("none"), None);
    cache.insert("qwen", true);
    assert_eq!(cache.get("qwen"), Some(true));
    assert_eq!(cache.get("llava"), Some(true));
}

#[test]
fn a_prompt_is_a_request() {
    let request = OllamaRequest { model: "m".to_string(), prompt: "p".to_string() };
    assert_eq!(request.prompt, "p");
}
