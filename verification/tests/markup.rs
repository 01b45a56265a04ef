use pj::markup::{
    code_fences_ended, extract_code_blocks, strip_code_blocks, strip_think_tags,
    strip_tool_calls_from_text, tool_call_payloads,
};

#[test]
fn tool_calls_are_found_in_order() {
    let text = "one <tool_call> {\"a\":1} </tool_call> two <tool_call>x</tool_call>";
    assert_eq!(tool_call_payloads(text), vec!["{\"a\":1}".to_string(), "x".to_string()]);
    assert_eq!(strip_tool_calls_from_text(text), "one  two");
}

#[test]
fn a_tool_call_without_an_end_is_not_read() {
    let text = "a <tool_call>x</tool_call> b <tool_call>y";
    assert_eq!(tool_call_payloads(text), vec!["x".to_string()]);
    assert_eq!(strip_tool_calls_from_text(text), "a  b  b <tool_call>y");
}

#[test]
fn plain_text_is_only_trimmed() {
    assert_eq!(strip_tool_calls_from_text("  hello \n"), "hello");
    assert!(tool_call_payloads("  hello \n").is_empty());
}

#[test]
fn thoughts_are_cut_out() {
    assert_eq!(strip_think_tags("<think>hm</think> yes"), "yes");
    assert_eq!(strip_think_tags("a<think>b</think>c<think>d</think>e"), "ace");
    assert_eq!(strip_think_tags("before <think>never ends"), "before");
    assert_eq!(strip_tool_calls_from_text("<think>x</think>ok<tool_call>{}</tool_call>"), "ok");
}

#[test]
fn code_blocks_are_extracted() {
    let text = "see:\n```rust \nfn main() {}\n```\nand\n```\nplain\n```";
    let blocks = extract_code_blocks(text);
    assert_eq!(blocks.len(), 2);
    assert_eq!(blocks[0].language, "rust");
    assert_eq!(blocks[0].code, "fn main() {}\n");
    assert_eq!(blocks[1].language, "");
    assert_eq!(blocks[1].code, "plain\n");
    assert_eq!(blocks[1].clone().code, "plain\n");
    assert_eq!(strip_code_blocks(text), "see:\nfn main() {}\n\nand\nplain\n");
}

#[test]
fn an_open_fence_ends_the_search() {
    let text = "a ```x\ncode";
    assert!(code_fences_ended(text));
    assert!(extract_code_blocks(text).is_empty());
    assert_eq!(strip_code_blocks(text), "a a ```x\ncode");
}

#[test]
fn text_without_fences_is_kept() {
    assert!(code_fences_ended("no code"));
    assert_eq!(strip_code_blocks("no code"), "no code");
    assert!(extract_code_blocks("").is_empty());
    assert_eq!(strip_code_blocks(""), "");
}

#[test]
fn a_fence_at_the_very_end_is_told() {
    assert!(!code_fences_ended("look: ```rust"));
    assert!(!code_fences_ended("```\na\n``` and ```"));
    assert!(code_fences_ended("```\na\n```"));
}

#[test]
fn single_backticks_do_not_open_a_block() {
    let blocks = extract_code_blocks("use `x` and\n```\na `b` c\n```");
    assert_eq!(blocks.len(), 1);
    assert_eq!(blocks[0].code, "a `b` c\n");
}

#[test]
fn blocks_stand_in_the_order_of_the_text() {
    let text = "``` a \n1\n```x```b\n2``````\n3\n```";
    let blocks = extract_code_blocks(text);
    let found: Vec<(&str, &str)> =
        blocks.iter().map(|b| (b.language.as_str(), b.code.as_str())).collect();
    assert_eq!(found, vec![("a", "1\n"), ("b", "2"), ("", "3\n")]);
}
