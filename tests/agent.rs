use ollama_agent::chatbot::{ChatBot, TurnStep, DEFAULT_MAX_TOOL_ROUNDS};
use ollama_agent::conversation::{Conversation, Message, Role};
use ollama_agent::error::{CustomError, MyError};
use ollama_agent::html::{extract_base64_from_html, html_image_to_base64_png};
use ollama_agent::inference::{check_embeddings, Ollama};
use ollama_agent::store::{build_points, ensure_collection_plan, question_field, ReusePolicy, StoreAction};
use ollama_agent::text::{find_from, same_text, split_commas_trimmed};
use ollama_agent::tools::{
    check_call, find_tool, inspect, parse_and_call, validate, weather_function, ArgValue,
    FunctionCall, Param, ParamKind, ToolCall, ToolDecision,
};

use base64::Engine;
use std::collections::HashMap;

fn s(t: &str) -> String {
    t.to_string()
}

fn weather_call(location: &str, time: &str) -> ToolCall {
    ToolCall::FunctionCall(FunctionCall {
        name: s("get_weather"),
        arguments: vec![
            (s("location"), ArgValue::Text(s(location))),
            (s("time"), ArgValue::Text(s(time))),
        ],
    })
}

fn bot() -> ChatBot {
    ChatBot::new(Ollama::default(), vec![weather_function()])
}

#[test]
fn extract_finds_payload_up_to_quote() {
    let html = "<html><img src='data:image/png;base64,iVBORw0KGgo='></html>";
    assert_eq!(extract_base64_from_html(html).unwrap(), "iVBORw0KGgo=");
}

#[test]
fn extract_takes_first_data_uri() {
    let html = "<img src='data:image/png;base64,AAA'><img src='data:image/png;base64,BBB'>";
    assert_eq!(extract_base64_from_html(html).unwrap(), "AAA");
}

#[test]
fn extract_without_marker_fails() {
    let e = extract_base64_from_html("<img src='pic.png'>").unwrap_err();
    assert_eq!(e.message(), "Base64 string not found");
}

#[test]
fn extract_without_closing_quote_fails() {
    let e = extract_base64_from_html("<img src='data:image/png;base64,AAAA").unwrap_err();
    assert_eq!(e.message(), "End of base64 string not found");
}

fn tiny_png() -> Vec<u8> {
    let img = image::DynamicImage::ImageRgb8(image::RgbImage::from_pixel(2, 1, image::Rgb([10, 20, 30])));
    let mut buf = Vec::new();
    img.write_to(&mut std::io::Cursor::new(&mut buf), image::ImageFormat::Png).unwrap();
    buf
}

#[test]
fn page_image_comes_back_as_png_base64() {
    let b64 = base64::engine::general_purpose::STANDARD.encode(tiny_png());
    let html = format!("<p>x</p><img src='data:image/png;base64,{}'>", b64);
    let out = html_image_to_base64_png(&html).unwrap();
    let bytes = base64::engine::general_purpose::STANDARD.decode(out.as_bytes()).unwrap();
    let img = image::load_from_memory(&bytes).unwrap();
    assert_eq!((img.width(), img.height()), (2, 1));
    assert_eq!(img.to_rgb8().get_pixel(1, 0).0, [10, 20, 30]);
}

#[test]
fn page_image_that_is_not_base64_is_a_decode_error() {
    let r = html_image_to_base64_png("<img src='data:image/png;base64,@@@@'>");
    assert!(matches!(r, Err(MyError::Decode(_))));
}

#[test]
fn page_image_that_is_not_an_image_is_a_decode_error() {
    let r = html_image_to_base64_png("<img src='data:image/png;base64,aGVsbG8='>");
    assert!(matches!(r, Err(MyError::Decode(_))));
}

#[test]
fn page_without_image_is_a_custom_error() {
    let r = html_image_to_base64_png("<p>nothing</p>");
    assert!(matches!(r, Err(MyError::Custom(_))));
    assert_eq!(r.unwrap_err().message(), "Custom error look closer: Base64 string not found");
}

#[test]
fn ollama_default_and_new() {
    let o = Ollama::default();
    assert_eq!(o.host, "http://localhost:11434/api");
    assert_eq!(o.model, "llama3.1");
    let o = Ollama::new(s("http://gpu:8080"), s("bge-large"));
    assert_eq!(o.host, "http://gpu:8080/api");
    assert_eq!(o.model, "bge-large");
    assert_eq!(o.generate_url(), "http://gpu:8080/api/generate");
    assert_eq!(o.chat_url(), "http://gpu:8080/api/chat");
    assert_eq!(o.embed_url(), "http://gpu:8080/api/embed");
}

#[test]
fn generate_body_escapes_prompt() {
    let o = Ollama::default();
    let body = o.generate_body("say \"hi\"\n");
    assert_eq!(body, "{\"model\":\"llama3.1\",\"prompt\":\"say \\\"hi\\\"\\n\",\"stream\":false}");
    let v: serde_json::Value = serde_json::from_str(&body).unwrap();
    assert_eq!(v["prompt"], "say \"hi\"\n");
}

#[test]
fn chat_body_sends_roles_and_contents_in_order() {
    let o = Ollama::new(s("http://h"), s("m"));
    let msgs = vec![
        Message::system(s("be brief")),
        Message::user(s("hi")),
        Message::assistant(s("hello"), vec![weather_call("Paris", "2024-08-28T14:00:00Z")]),
    ];
    let body = o.chat_body(&msgs);
    assert_eq!(
        body,
        "{\"model\":\"m\",\"messages\":[{\"role\":\"system\",\"content\":\"be brief\"},{\"role\":\"user\",\"content\":\"hi\"},{\"role\":\"assistant\",\"content\":\"hello\"}],\"stream\":false}"
    );
}

#[test]
fn chat_body_of_empty_transcript() {
    let o = Ollama::new(s("http://h"), s("m"));
    assert_eq!(o.chat_body(&vec![]), "{\"model\":\"m\",\"messages\":[],\"stream\":false}");
}

#[test]
fn embed_body_lists_inputs() {
    let o = Ollama::new(s("http://h"), s("bge"));
    let body = o.embed_body(&vec![s("small dog"), s("big wild dog")]);
    assert_eq!(body, "{\"model\":\"bge\",\"input\":[\"small dog\",\"big wild dog\"],\"stream\":false}");
}

#[test]
fn embeddings_of_matching_size_keep_order() {
    let batch: Vec<Vec<f32>> = vec![vec![1.0, 0.0], vec![0.0, 1.0], vec![0.5, 0.5]];
    let out = check_embeddings(3, batch.clone()).unwrap();
    assert_eq!(out, batch);
}

#[test]
fn embeddings_of_wrong_size_are_a_shape_error() {
    let batch: Vec<Vec<f32>> = vec![vec![1.0, 0.0]];
    match check_embeddings(2, batch) {
        Err(MyError::Shape { expected, actual }) => assert_eq!((expected, actual), (2, 1)),
        other => panic!("unexpected {:?}", other),
    }
}

#[test]
fn conversation_appends_in_order() {
    let mut c = Conversation::new();
    assert!(c.last().is_none());
    c.append(Message::user(s("a")));
    c.append(Message::assistant(s("b"), vec![]));
    assert_eq!(c.len(), 2);
    assert_eq!(c.all()[0].content, "a");
    assert_eq!(c.last().unwrap().content, "b");
    assert_eq!(c.last().unwrap().role, Role::Assistant);
}

#[test]
fn role_names() {
    assert_eq!(Role::System.as_str(), "system");
    assert_eq!(Role::User.as_str(), "user");
    assert_eq!(Role::Assistant.as_str(), "assistant");
    assert_eq!(Role::Tool.as_str(), "tool");
}

#[test]
fn text_helpers() {
    let h: Vec<char> = "abcabc".chars().collect();
    let p: Vec<char> = "ca".chars().collect();
    assert_eq!(find_from(&h, &p, 0), Some(2));
    assert_eq!(find_from(&h, &p, 3), None);
    assert!(same_text("dog", "dog"));
    assert!(!same_text("dog", "dogs"));
    assert_eq!(split_commas_trimmed(" a , b,,c "), vec![s("a"), s("b"), s(""), s("c")]);
    assert_eq!(split_commas_trimmed(""), vec![s("")]);
}

#[test]
fn parse_text_call_of_weather() {
    let tools = vec![weather_function()];
    let call = parse_and_call(&tools, "get_weather(  London , 2024-08-28T14:00:00Z)").unwrap();
    let ToolCall::FunctionCall(c) = call;
    assert_eq!(c.name, "get_weather");
    assert_eq!(c.arguments.len(), 2);
    assert_eq!(c.arguments[0].0, "location");
    assert!(matches!(&c.arguments[0].1, ArgValue::Text(t) if t == "London"));
    assert_eq!(c.arguments[1].0, "time");
    assert!(matches!(&c.arguments[1].1, ArgValue::Text(t) if t == "2024-08-28T14:00:00Z"));
}

#[test]
fn parse_text_call_errors() {
    let tools = vec![weather_function()];
    assert!(matches!(parse_and_call(&tools, "get_weather(London)"), Err(MyError::Argument(_))));
    assert!(matches!(parse_and_call(&tools, "get_weather(London, yesterday)"), Err(MyError::Argument(_))));
    assert!(matches!(parse_and_call(&tools, "get_weather London"), Err(MyError::Argument(_))));
    assert!(matches!(parse_and_call(&tools, "get_weather)London("), Err(MyError::Argument(_))));
    match parse_and_call(&tools, "get_time(London)") {
        Err(MyError::UnknownTool(n)) => assert_eq!(n, "get_time"),
        other => panic!("unexpected {:?}", other),
    }
}

#[test]
fn validate_against_schema() {
    let params = vec![
        Param { name: s("city"), kind: ParamKind::Text, required: true },
        Param { name: s("days"), kind: ParamKind::Integer, required: false },
        Param { name: s("metric"), kind: ParamKind::Boolean, required: false },
        Param { name: s("at"), kind: ParamKind::Timestamp, required: false },
    ];
    assert!(validate(&params, &vec![(s("city"), ArgValue::Text(s("Oslo")))]));
    assert!(validate(&params, &vec![(s("city"), ArgValue::Text(s("Oslo"))), (s("days"), ArgValue::Int(3)), (s("extra"), ArgValue::Null)]));
    assert!(!validate(&params, &vec![(s("days"), ArgValue::Int(3))]));
    assert!(!validate(&params, &vec![(s("city"), ArgValue::Int(1))]));
    assert!(!validate(&params, &vec![(s("city"), ArgValue::Text(s("Oslo"))), (s("metric"), ArgValue::Text(s("yes")))]));
    assert!(validate(&params, &vec![(s("city"), ArgValue::Text(s("Oslo"))), (s("at"), ArgValue::Text(s("2024-01-02T03:04:05Z")))]));
    assert!(!validate(&params, &vec![(s("city"), ArgValue::Text(s("Oslo"))), (s("at"), ArgValue::Text(s("noon")))]));
}

#[test]
fn check_call_verdicts() {
    let tools = vec![weather_function()];
    assert_eq!(find_tool(&tools, "get_weather"), Some(0));
    assert_eq!(find_tool(&tools, "nope"), None);
    let ok = weather_call("Rome", "2024-08-28T14:00:00Z");
    assert_eq!(check_call(&tools, ok.call()).unwrap(), 0);
    let bad = weather_call("Rome", "tomorrow");
    assert!(matches!(check_call(&tools, bad.call()), Err(MyError::Argument(_))));
    let unknown = FunctionCall { name: s("fly"), arguments: vec![] };
    assert!(matches!(check_call(&tools, &unknown), Err(MyError::UnknownTool(n)) if n == "fly"));
}

#[test]
fn inspect_only_assistant_calls() {
    let m = Message::assistant(s(""), vec![weather_call("a", "b"), weather_call("c", "d")]);
    assert_eq!(inspect(&m), ToolDecision::ToolCallDetected { count: 2 });
    assert!(m.is_tool_call());
    assert_eq!(inspect(&Message::assistant(s("done"), vec![])), ToolDecision::NoToolCall);
    assert_eq!(inspect(&Message::user(s("hi"))), ToolDecision::NoToolCall);
}

#[test]
fn plain_turns_alternate_user_and_assistant() {
    let mut b = bot();
    for n in 0..3 {
        b.start_turn(format!("question {}", n));
        match b.receive_reply(format!("answer {}", n), vec![]).unwrap() {
            TurnStep::Finished(a) => assert_eq!(a, format!("answer {}", n)),
            other => panic!("unexpected {:?}", other),
        }
    }
    let all = b.conversation.all();
    assert_eq!(all.len(), 6);
    for (k, m) in all.iter().enumerate() {
        let want = if k % 2 == 0 { Role::User } else { Role::Assistant };
        assert_eq!(m.role, want);
    }
    assert_eq!(all[4].content, "question 2");
}

#[test]
fn endless_tool_calls_hit_the_bound() {
    let mut b = bot().with_tool_limit(2);
    b.start_turn(s("weather?"));
    for _ in 0..2 {
        let step = b.receive_reply(s(""), vec![weather_call("Oslo", "2024-08-28T14:00:00Z")]).unwrap();
        assert!(matches!(step, TurnStep::RunTools(1)));
        assert_eq!(b.check_pending_call(0).unwrap(), 0);
        b.record_tool_outcome(Ok(s("sunny")));
    }
    let r = b.receive_reply(s(""), vec![weather_call("Oslo", "2024-08-28T14:00:00Z")]);
    assert!(matches!(r, Err(MyError::ToolLoopExceeded { limit: 2 })));
    assert_eq!(b.conversation.len(), 1 + 2 * 2 + 1);
}

#[test]
fn default_bound_is_used_by_new() {
    let mut b = bot();
    assert_eq!(b.max_tool_rounds, DEFAULT_MAX_TOOL_ROUNDS);
    b.start_turn(s("go"));
    let mut rounds = 0;
    loop {
        match b.receive_reply(s(""), vec![weather_call("a", "b")]) {
            Ok(TurnStep::RunTools(_)) => rounds += 1,
            Err(MyError::ToolLoopExceeded { .. }) => break,
            other => panic!("unexpected {:?}", other),
        }
    }
    assert_eq!(rounds, DEFAULT_MAX_TOOL_ROUNDS);
}

#[test]
fn tool_failures_are_recorded_for_the_model() {
    let mut b = bot();
    b.start_turn(s("weather?"));
    b.receive_reply(s(""), vec![weather_call("Oslo", "never")]).unwrap();
    let verdict = b.check_pending_call(0);
    assert!(matches!(verdict, Err(MyError::Argument(_))));
    b.record_handler_result(Err(s("no network")));
    let last = b.conversation.last().unwrap();
    assert_eq!(last.role, Role::Tool);
    assert_eq!(last.content, "tool failed: no network");
}

#[test]
fn retrieved_context_is_added_or_skipped() {
    let mut b = bot();
    b.add_retrieved_context(Ok(vec![s("dogs bark"), s("cats meow")]));
    assert_eq!(b.conversation.len(), 2);
    assert_eq!(b.conversation.all()[1].role, Role::System);
    assert_eq!(b.conversation.all()[1].content, "cats meow");
    b.add_retrieved_context(Err(MyError::Store(s("no collection"))));
    assert_eq!(b.conversation.len(), 2);
}

#[test]
fn chat_request_carries_transcript() {
    let mut b = ChatBot::new(Ollama::new(s("http://h"), s("m")), vec![]);
    b.start_turn(s("hi"));
    assert_eq!(
        b.chat_request(),
        "{\"model\":\"m\",\"messages\":[{\"role\":\"user\",\"content\":\"hi\"}],\"stream\":false}"
    );
}

#[test]
fn collection_plans() {
    match ensure_collection_plan("docs", 1024, false, ReusePolicy::Reset).as_slice() {
        [StoreAction::Create { name, dimensions: 1024, quantized: false }] => assert_eq!(name, "docs"),
        other => panic!("unexpected {:?}", other),
    }
    match ensure_collection_plan("docs", 8, true, ReusePolicy::Reset).as_slice() {
        [StoreAction::Delete { name: a }, StoreAction::Create { name: b, dimensions: 8, quantized: true }] => {
            assert_eq!((a.as_str(), b.as_str()), ("docs", "docs"))
        }
        other => panic!("unexpected {:?}", other),
    }
    assert!(ensure_collection_plan("docs", 8, true, ReusePolicy::Append).is_empty());
}

fn apply(store: &mut HashMap<String, (u64, Vec<u64>)>, actions: Vec<StoreAction>) {
    for a in actions {
        match a {
            StoreAction::Delete { name } => {
                store.remove(&name);
            }
            StoreAction::Create { name, dimensions, .. } => {
                store.entry(name).or_insert((dimensions, vec![]));
            }
        }
    }
}

#[test]
fn ensure_twice_leaves_an_empty_collection() {
    let mut store: HashMap<String, (u64, Vec<u64>)> = HashMap::new();
    store.insert(s("c"), (3, vec![0, 1, 2]));
    for _ in 0..2 {
        let exists = store.contains_key("c");
        apply(&mut store, ensure_collection_plan("c", 4, exists, ReusePolicy::Reset));
    }
    assert_eq!(store.get("c"), Some(&(4, vec![])));
}

#[test]
fn points_get_positions_as_ids() {
    let texts = vec![s("small dog"), s("big wild dog")];
    let vectors: Vec<Vec<f32>> = vec![vec![0.1, 0.9], vec![0.8, 0.2]];
    let ps = build_points(vectors.clone(), &texts).unwrap();
    assert_eq!(ps.len(), 2);
    assert_eq!((ps[0].id, ps[1].id), (0, 1));
    assert_eq!(ps[1].vector, vectors[1]);
    assert_eq!(ps[0].question, "small dog");
    assert_eq!(question_field(), "question");
}

#[test]
fn points_need_one_text_each() {
    let r = build_points(vec![vec![0.5f32]], &vec![s("a"), s("b")]);
    assert!(matches!(r, Err(MyError::Shape { expected: 2, actual: 1 })));
}

#[test]
fn error_messages() {
    assert_eq!(CustomError::new("boom").message(), "boom");
    assert_eq!(MyError::UnknownTool(s("x")).message(), "unknown tool: x");
    assert_eq!(MyError::ToolLoopExceeded { limit: 3 }.message(), "too many tool calls in a row");
    assert_eq!(MyError::Transport(s("timeout")).message(), "Request error: timeout");
    assert_eq!(MyError::Decode(s("eof")).message(), "Serialization error: eof");
    assert_eq!(MyError::Custom(CustomError::new("boom")).message(), "Custom error look closer: boom");
}

#[test]
fn embeddings_of_differing_length_are_a_shape_error() {
    let batch: Vec<Vec<f32>> = vec![vec![1.0, 0.0], vec![0.0, 1.0], vec![0.5, 0.5, 0.5]];
    match check_embeddings(3, batch) {
        Err(MyError::Shape { expected, actual }) => assert_eq!((expected, actual), (2, 3)),
        other => panic!("unexpected {:?}", other),
    }
    let empty: Vec<Vec<f32>> = vec![];
    assert!(check_embeddings(0, empty).unwrap().is_empty());
}

#[test]
fn every_call_of_a_reply_is_checked_after_outcomes_are_recorded() {
    let mut b = bot();
    b.start_turn(s("weather in two places?"));
    let calls = vec![
        weather_call("Oslo", "2024-08-28T14:00:00Z"),
        ToolCall::FunctionCall(FunctionCall { name: s("fly"), arguments: vec![] }),
        weather_call("Rome", "later"),
    ];
    assert!(matches!(b.receive_reply(s(""), calls).unwrap(), TurnStep::RunTools(3)));
    assert_eq!(b.last_reply, 1);
    assert_eq!(b.check_pending_call(0).unwrap(), 0);
    b.record_handler_result(Ok(s("sunny")));
    assert!(matches!(b.check_pending_call(1), Err(MyError::UnknownTool(n)) if n == "fly"));
    assert_eq!(b.pending_call(1).name, "fly");
    b.record_tool_outcome(Err(MyError::UnknownTool(s("fly"))));
    assert!(matches!(b.check_pending_call(2), Err(MyError::Argument(_))));
    b.record_handler_result(Err(s("no network")));
    let all = b.conversation.all();
    assert_eq!(all.len(), 5);
    assert_eq!(all[2].content, "sunny");
    assert_eq!(all[3].content, "unknown tool: fly");
    assert_eq!(all[4].content, "tool failed: no network");
    assert_eq!(all[4].role, Role::Tool);
}

#[test]
fn page_with_jpeg_image_comes_back_as_png() {
    let img = image::DynamicImage::ImageRgb8(image::RgbImage::from_pixel(3, 2, image::Rgb([200, 100, 50])));
    let mut jpeg = Vec::new();
    img.write_to(&mut std::io::Cursor::new(&mut jpeg), image::ImageFormat::Jpeg).unwrap();
    let b64 = base64::engine::general_purpose::STANDARD.encode(jpeg);
    let html = format!("<img src='data:image/jpeg;base64,{}'>", b64);
    let out = html_image_to_base64_png(&html).unwrap();
    let bytes = base64::engine::general_purpose::STANDARD.decode(out.as_bytes()).unwrap();
    assert_eq!(image::guess_format(&bytes).unwrap(), image::ImageFormat::Png);
    let back = image::load_from_memory(&bytes).unwrap();
    assert_eq!((back.width(), back.height()), (3, 2));
}

#[test]
fn request_bodies_escape_control_characters() {
    let o = Ollama::new(s("http://h"), s("m\\x"));
    assert_eq!(
        o.generate_body("\u{1}\t\u{8}\u{c}\r\u{1f}é"),
        "{\"model\":\"m\\\\x\",\"prompt\":\"\\u0001\\t\\b\\f\\r\\u001fé\",\"stream\":false}"
    );
}
