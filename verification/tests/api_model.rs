//! Tests of the request builder, the schema bridge, the response
//! decoder, the streamed-chunk decoder and the error taxonomy.

use gemini_rust::client::{interpret_response, request_url, ContentBuilder};
use gemini_rust::codec::{decode_generation_config, encode_generation_config};
use gemini_rust::error::Error;
use gemini_rust::json::{JsonNumber, JsonValue};
use gemini_rust::json_text::{parse_json_text, write_json_text};
use gemini_rust::models::{FunctionCallingMode, GenerationConfig, Part, Role};
use gemini_rust::stream::{decode_chunk, decode_chunk_text, StreamDecoder};
use gemini_rust::tools::{
    value_to_function_parameters, FunctionCall, FunctionDeclaration, FunctionParameters,
    PropertyDetails, Tool,
};
use gemini_rust::Message;

#[test]
fn builder_preserves_call_order() {
    let b = ContentBuilder::new()
        .with_system_prompt("be brief")
        .with_user_message("hi")
        .with_model_message("hello")
        .with_message(Message::user("again"));
    let req = b.build();
    assert_eq!(req.contents.len(), 4);
    let texts: Vec<&str> = req
        .contents
        .iter()
        .map(|c| match &c.parts[0] {
            Part::Text { text } => text.as_str(),
            other => panic!("unexpected part: {:?}", other),
        })
        .collect();
    assert_eq!(texts, vec!["be brief", "hi", "hello", "again"]);
    assert_eq!(req.contents[0].role, Some(Role::System));
    assert_eq!(req.contents[1].role, Some(Role::User));
    assert_eq!(req.contents[2].role, Some(Role::Model));
    assert_eq!(req.contents[3].role, Some(Role::User));
}

#[test]
fn builder_batch_appends_in_argument_order() {
    let b = ContentBuilder::new().with_messages(vec![
        Message::user("one"),
        Message::model("two"),
    ]);
    let req = b.build();
    assert_eq!(req.contents.len(), 2);
    assert_eq!(req.contents[0].role, Some(Role::User));
    assert_eq!(req.contents[1].role, Some(Role::Model));
}

#[test]
fn config_round_trips_with_all_fields_set() {
    let cfg = GenerationConfig {
        temperature: Some(JsonNumber { text: "0.7".to_string() }),
        top_p: Some(JsonNumber { text: "0.95".to_string() }),
        top_k: Some(40),
        max_output_tokens: Some(1024),
        candidate_count: Some(1),
        stop_sequences: Some(vec!["STOP".to_string(), "END".to_string()]),
        response_mime_type: Some("application/json".to_string()),
        response_schema: Some(
            parse_json_text("{\"type\":\"object\"}").expect("schema parses"),
        ),
    };
    let wire = write_json_text(&encode_generation_config(&cfg));
    let back = decode_generation_config(&parse_json_text(&wire).expect("wire parses"))
        .expect("wire decodes");
    assert_eq!(back.temperature.unwrap().text, "0.7");
    assert_eq!(back.top_p.unwrap().text, "0.95");
    assert_eq!(back.top_k, Some(40));
    assert_eq!(back.max_output_tokens, Some(1024));
    assert_eq!(back.candidate_count, Some(1));
    assert_eq!(
        back.stop_sequences.unwrap(),
        vec!["STOP".to_string(), "END".to_string()]
    );
    assert_eq!(back.response_mime_type.unwrap(), "application/json");
    assert_eq!(
        write_json_text(&back.response_schema.unwrap()),
        "{\"type\":\"object\"}"
    );
}

#[test]
fn config_omits_unset_fields_from_wire_form() {
    let cfg = GenerationConfig {
        temperature: None,
        top_p: None,
        top_k: Some(40),
        max_output_tokens: None,
        candidate_count: None,
        stop_sequences: None,
        response_mime_type: None,
        response_schema: None,
    };
    let wire = write_json_text(&encode_generation_config(&cfg));
    assert_eq!(wire, "{\"top_k\":40}");
}

#[test]
fn schema_with_property_records_name_and_requiredness() {
    let params = FunctionParameters::object().with_property(
        "a",
        PropertyDetails::number("amount"),
        true,
    );
    assert_eq!(params.param_type, "OBJECT");
    let props = params.properties.expect("properties present");
    assert_eq!(props.len(), 1);
    assert_eq!(props[0].0, "a");
    assert_eq!(props[0].1.property_type, "NUMBER");
    assert_eq!(params.required.expect("required present"), vec!["a".to_string()]);
}

#[test]
fn schema_duplicate_required_is_kept_verbatim() {
    let params = FunctionParameters::object()
        .with_property("a", PropertyDetails::string("first"), true)
        .with_property("a", PropertyDetails::number("second"), true);
    let props = params.properties.expect("properties present");
    assert_eq!(props.len(), 1);
    assert_eq!(props[0].1.property_type, "NUMBER");
    assert_eq!(
        params.required.expect("required present"),
        vec!["a".to_string(), "a".to_string()]
    );
}

#[test]
fn value_to_function_parameters_reads_schema_shape() {
    let doc = parse_json_text(
        "{\"type\":\"object\",\"required\":[\"x\"],\"properties\":{\"x\":{\"type\":\"integer\",\"description\":\"d\"}}}",
    )
    .expect("schema parses");
    let params = value_to_function_parameters(doc);
    assert_eq!(params.param_type, "OBJECT");
    assert_eq!(params.required.expect("required present"), vec!["x".to_string()]);
    let props = params.properties.expect("properties present");
    assert_eq!(props.len(), 1);
    assert_eq!(props[0].0, "x");
    assert_eq!(props[0].1.property_type, "INTEGER");
    assert_eq!(props[0].1.description, "d");
}

#[test]
fn value_to_function_parameters_defaults_on_non_object() {
    let params = value_to_function_parameters(JsonValue::Bool(true));
    assert_eq!(params.param_type, "OBJECT");
    assert!(params.properties.expect("properties present").is_empty());
    assert!(params.required.expect("required present").is_empty());
}

#[test]
fn streamed_chunks_yield_messages_then_sentinel_silence() {
    let first: Vec<u8> = b"data: {\"candidates\":[]}\n".to_vec();
    let second: Vec<u8> = b"data: [DONE]\n".to_vec();
    let r1 = decode_chunk(&first);
    assert_eq!(r1.len(), 1);
    match &r1[0] {
        Ok(resp) => assert!(resp.candidates.is_empty()),
        Err(e) => panic!("unexpected error: {}", e.message()),
    }
    let r2 = decode_chunk(&second);
    assert!(r2.is_empty());
}

#[test]
fn streamed_chunk_isolates_a_bad_line() {
    let text = "data: not json\ndata: {\"candidates\":[]}\nnoise\n";
    let rs = decode_chunk_text(text);
    assert_eq!(rs.len(), 2);
    assert!(matches!(&rs[0], Err(Error::JsonError(_))));
    assert!(matches!(&rs[1], Ok(_)));
}

#[test]
fn function_call_argument_extraction_fails_typed() {
    let args = parse_json_text("{\"a\":1}").expect("args parse");
    let call = FunctionCall::new("f", args);
    match call.get_i64("b") {
        Err(Error::FunctionCallError(m)) => assert_eq!(m, "Missing parameter: b"),
        other => panic!("unexpected result: {:?}", other),
    }
    match call.get_string("a") {
        Err(Error::FunctionCallError(m)) => {
            assert_eq!(m, "Error deserializing parameter: a")
        }
        other => panic!("unexpected result: {:?}", other),
    }
    assert_eq!(call.get_i64("a").expect("integer argument"), 1);
    let not_object = FunctionCall::new("g", JsonValue::Null);
    match not_object.get("a") {
        Err(Error::FunctionCallError(m)) => assert_eq!(m, "Arguments are not an object"),
        other => panic!("unexpected result: {:?}", other),
    }
}

#[test]
fn non_success_status_surfaces_one_api_error() {
    match interpret_response(404, "model not found") {
        Err(Error::ApiError { status_code, message }) => {
            assert_eq!(status_code, 404);
            assert_eq!(message, "model not found");
        }
        other => panic!("unexpected result: {:?}", other),
    }
    match interpret_response(500, "") {
        Err(Error::ApiError { status_code, .. }) => assert_eq!(status_code, 500),
        other => panic!("unexpected result: {:?}", other),
    }
}

#[test]
fn success_status_decodes_the_body() {
    let body = "{\"candidates\":[{\"content\":{\"parts\":[{\"text\":\"hi there\"}],\"role\":\"model\"}}]}";
    let resp = interpret_response(200, body).expect("body decodes");
    assert_eq!(resp.text(), "hi there");
    assert!(resp.function_calls().is_empty());
}

#[test]
fn response_reports_function_calls_in_order() {
    let body = "{\"candidates\":[{\"content\":{\"parts\":[\
{\"functionCall\":{\"name\":\"first\",\"args\":{\"x\":1}}},\
{\"text\":\"aside\"},\
{\"functionCall\":{\"name\":\"second\",\"args\":{}}}]}}]}";
    let resp = interpret_response(200, body).expect("body decodes");
    let calls = resp.function_calls();
    assert_eq!(calls.len(), 2);
    assert_eq!(calls[0].name, "first");
    assert_eq!(calls[1].name, "second");
    assert_eq!(resp.text(), "");
}

#[test]
fn malformed_success_body_is_a_json_error() {
    assert!(matches!(interpret_response(200, "not json"), Err(Error::JsonError(_))));
    assert!(matches!(interpret_response(200, "{}"), Err(Error::JsonError(_))));
}

#[test]
fn message_from_bad_json_string_fails() {
    assert!(matches!(
        Message::function_str("f", "{broken"),
        Err(Error::JsonError(_))
    ));
    let m = Message::function_str("f", "{\"ok\":true}").expect("well-formed response");
    assert_eq!(m.role, Role::Function);
}

#[test]
fn error_messages_carry_their_detail() {
    let e = Error::ApiError { status_code: 404, message: "gone".to_string() };
    assert_eq!(e.message(), "Gemini API error: 404 - gone");
    assert_eq!(Error::MissingApiKey.message(), "Missing API key");
    assert_eq!(
        Error::JsonError("bad".to_string()).message(),
        "JSON error: bad"
    );
}

#[test]
fn request_url_embeds_model_endpoint_and_key() {
    assert_eq!(
        request_url("models/gemini-2.0-flash", "generateContent", "k123"),
        "https://generativelanguage.googleapis.com/v1beta/models/gemini-2.0-flash:generateContent?key=k123"
    );
}

#[test]
fn request_wire_form_holds_contents_and_config() {
    let wire = ContentBuilder::new()
        .with_user_message("hi")
        .with_top_k(40)
        .build_json_text();
    assert_eq!(
        wire,
        "{\"contents\":[{\"parts\":[{\"text\":\"hi\"}],\"role\":\"user\"}],\
\"generation_config\":{\"temperature\":0.7,\"top_p\":0.95,\"top_k\":40,\
\"max_output_tokens\":1024,\"candidate_count\":1}}"
    );
}

#[test]
fn carrying_decoder_survives_a_split_document() {
    // the chunk-at-a-time decoder drops a document cut in two: the
    // first half fails to parse and the second half has no marker
    let r1 = decode_chunk_text("data: {\"candi");
    let r2 = decode_chunk_text("dates\":[]}\n");
    assert_eq!(r1.len(), 1);
    assert!(matches!(&r1[0], Err(Error::JsonError(_))));
    assert!(r2.is_empty());
    // ...while the carrying decoder puts it back together
    let mut d = StreamDecoder::new();
    assert!(d.push_text("data: {\"candi").is_empty());
    let rs = d.push_text("dates\":[]}\ndata: [DO");
    assert_eq!(rs.len(), 1);
    assert!(matches!(&rs[0], Ok(resp) if resp.candidates.is_empty()));
    assert!(d.push_text("NE]\n").is_empty());
    assert!(d.finish().is_empty());
}

#[test]
fn carrying_decoder_flushes_an_unfinished_line_at_the_end() {
    let mut d = StreamDecoder::new();
    assert!(d.push_text("data: {\"candidates\":[]}").is_empty());
    let rs = d.finish();
    assert_eq!(rs.len(), 1);
    assert!(matches!(&rs[0], Ok(resp) if resp.candidates.is_empty()));
}

#[test]
fn full_response_metadata_is_decoded() {
    let body = "{\"candidates\":[{\"content\":{\"parts\":[{\"text\":\"ok\"}],\"role\":\"model\"},\
\"safety_ratings\":[{\"category\":\"HARM\",\"probability\":\"LOW\"}],\
\"citation_metadata\":{\"citation_sources\":[{\"uri\":\"https://example.org\",\"start_index\":0,\"end_index\":2}]},\
\"finish_reason\":\"STOP\",\
\"usage_metadata\":{\"prompt_token_count\":3,\"candidates_token_count\":5,\"total_token_count\":8}}],\
\"prompt_feedback\":{\"safety_ratings\":[],\"block_reason\":null},\
\"usage_metadata\":{\"prompt_token_count\":3,\"candidates_token_count\":5,\"total_token_count\":8}}";
    let resp = interpret_response(200, body).expect("body decodes");
    let c = &resp.candidates[0];
    let sr = c.safety_ratings.as_ref().expect("ratings present");
    assert_eq!(sr[0].category, "HARM");
    assert_eq!(sr[0].probability, "LOW");
    let cm = c.citation_metadata.as_ref().expect("citations present");
    assert_eq!(cm.citation_sources[0].uri.as_deref(), Some("https://example.org"));
    assert_eq!(cm.citation_sources[0].start_index, Some(0));
    assert_eq!(cm.citation_sources[0].end_index, Some(2));
    assert_eq!(cm.citation_sources[0].title, None);
    assert_eq!(c.finish_reason.as_deref(), Some("STOP"));
    let um = c.usage_metadata.expect("usage present");
    assert_eq!(um.total_token_count, 8);
    let pf = resp.prompt_feedback.as_ref().expect("feedback present");
    assert!(pf.safety_ratings.is_empty());
    assert_eq!(pf.block_reason, None);
}

#[test]
fn request_with_tools_has_the_expected_wire_form() {
    let params = FunctionParameters::object().with_property(
        "x",
        PropertyDetails::string("what to look up"),
        true,
    );
    let wire = ContentBuilder::new()
        .with_user_message("go")
        .with_function(FunctionDeclaration::new("f", "does f", params))
        .with_function_calling_mode(FunctionCallingMode::Any)
        .build_json_text();
    assert_eq!(
        wire,
        "{\"contents\":[{\"parts\":[{\"text\":\"go\"}],\"role\":\"user\"}],\
\"tools\":[{\"function_declarations\":[{\"name\":\"f\",\"description\":\"does f\",\
\"parameters\":{\"type\":\"OBJECT\",\"properties\":{\"x\":{\"type\":\"STRING\",\
\"description\":\"what to look up\"}},\"required\":[\"x\"]}}]}],\
\"tool_config\":{\"function_calling_config\":{\"mode\":\"ANY\"}}}"
    );
}

#[test]
fn search_tool_has_the_expected_wire_form() {
    let wire = ContentBuilder::new()
        .with_user_message("go")
        .with_tool(Tool::google_search())
        .build_json_text();
    assert_eq!(
        wire,
        "{\"contents\":[{\"parts\":[{\"text\":\"go\"}],\"role\":\"user\"}],\
\"tools\":[{\"google_search\":{}}]}"
    );
}

#[test]
fn enum_and_array_properties_have_the_expected_wire_form() {
    let params = FunctionParameters::object()
        .with_property("kind", PropertyDetails::enum_type(
            "one of a fixed set",
            vec!["A".to_string(), "B".to_string()],
        ), false)
        .with_property("items", PropertyDetails::array(
            "several numbers",
            PropertyDetails::number("one number"),
        ), false);
    let wire = write_json_text(&gemini_rust::codec::encode_request(
        &ContentBuilder::new()
            .with_function(FunctionDeclaration::new("g", "", params))
            .build(),
    ));
    assert!(wire.contains(
        "\"kind\":{\"type\":\"STRING\",\"description\":\"one of a fixed set\",\"enum\":[\"A\",\"B\"]}"
    ));
    assert!(wire.contains(
        "\"items\":{\"type\":\"ARRAY\",\"description\":\"several numbers\",\
\"items\":{\"type\":\"NUMBER\",\"description\":\"one number\"}}"
    ));
}

#[test]
fn nested_schema_values_convert_recursively() {
    let doc = parse_json_text(
        "{\"properties\":{\"xs\":{\"type\":\"array\",\"items\":{\"type\":\"integer\"},\"enum\":[\"a\",1,\"b\"]}}}",
    )
    .expect("schema parses");
    let params = value_to_function_parameters(doc);
    let props = params.properties.expect("properties present");
    assert_eq!(props[0].0, "xs");
    assert_eq!(props[0].1.property_type, "ARRAY");
    // non-string enum entries are silently dropped
    assert_eq!(
        props[0].1.enum_values.as_ref().expect("enum present"),
        &vec!["a".to_string(), "b".to_string()]
    );
    let items = props[0].1.items.as_ref().expect("items present");
    assert_eq!(items.property_type, "INTEGER");
    assert_eq!(items.description, "");
}

#[test]
fn constructors_shape_contents_and_tools() {
    let fc_args = parse_json_text("{\"q\":true}").expect("args parse");
    let content = gemini_rust::Content::function_call(FunctionCall::new("f", fc_args));
    assert!(matches!(&content.parts[0], Part::FunctionCall { function_call } if function_call.name == "f"));
    assert_eq!(content.role, None);
    let m = gemini_rust::Message::function("f", JsonValue::Null);
    assert_eq!(m.role, Role::Function);
    match Tool::with_functions(vec![
        FunctionDeclaration::new("a", "", FunctionParameters::object()),
        FunctionDeclaration::new("b", "", FunctionParameters::object()),
    ]) {
        Tool::Function { function_declarations } => {
            assert_eq!(function_declarations.len(), 2);
            assert_eq!(function_declarations[0].name, "a");
            assert_eq!(function_declarations[1].name, "b");
        }
        other => panic!("unexpected tool: {:?}", other),
    }
}

#[test]
fn function_call_boolean_argument_extraction() {
    let args = parse_json_text("{\"flag\":true,\"n\":null}").expect("args parse");
    let call = FunctionCall::new("f", args);
    assert_eq!(call.get_bool("flag").expect("boolean argument"), true);
    assert!(matches!(call.get_bool("n"), Err(Error::FunctionCallError(_))));
    assert!(matches!(call.get("n"), Ok(JsonValue::Null)));
}

#[test]
fn function_response_from_str_parses_or_fails() {
    let fr = gemini_rust::tools::FunctionResponse::from_str("f", "{\"ok\":1}")
        .expect("well-formed response");
    assert_eq!(fr.name, "f");
    assert!(fr.response.is_some());
    assert!(matches!(
        gemini_rust::tools::FunctionResponse::from_str("f", "nope"),
        Err(Error::JsonError(_))
    ));
}

#[test]
fn stream_lines_tolerate_carriage_returns() {
    let rs = decode_chunk_text("data: {\"candidates\":[]}\r\ndata: [DONE]\r\n");
    assert_eq!(rs.len(), 1);
    assert!(matches!(&rs[0], Ok(_)));
}

#[test]
fn decoded_role_round_trips_through_content() {
    let body = "{\"candidates\":[{\"content\":{\"parts\":[{\"text\":\"x\"}],\"role\":\"function\"}}]}";
    let resp = interpret_response(200, body).expect("body decodes");
    assert_eq!(resp.candidates[0].content.role, Some(Role::Function));
    // an unknown role name does not fit the expected shape
    let bad = "{\"candidates\":[{\"content\":{\"parts\":[],\"role\":\"oracle\"}}]}";
    assert!(matches!(interpret_response(200, bad), Err(Error::JsonError(_))));
}
