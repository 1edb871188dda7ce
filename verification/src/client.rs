//! Building requests and interpreting what comes back.
//!
//! A [`ContentBuilder`] accumulates conversation turns, generation
//! parameters and tools monotonically, in call order, and then turns
//! into one [`GenerateContentRequest`].  The URL a request goes to is
//! assembled here, and a raw HTTP answer (a status code and a body
//! text) is interpreted into a typed response or a typed error.  The
//! transport itself lives outside the library: whatever sends the
//! request hands back the status and body, and everything decided about
//! them is decided here, verified.

use vstd::prelude::*;

use crate::codec::{dec_response, enc_request};
use crate::error::{Error, ErrorV};
use crate::json::{JsonNumber, JsonValue};
use crate::json_text::json_doc;
use crate::models::{
    Content, ContentView, FunctionCallingConfig, FunctionCallingMode, GenerateContentRequest,
    GenerateContentRequestView, GenerationConfig, GenerationConfigView, GenerationResponse,
    GenerationResponseView, Message, MessageView, PartView, Role, ToolConfig, default_config,
};
use crate::text::{push_str_chars, string_from_chars, views_of};
use crate::tools::{FunctionDeclaration, Tool, ToolView};

verus! {

/// A builder for one content generation request.  Every call appends or
/// sets exactly what it names and touches nothing else, so the contents
/// keep call order.
#[derive(Debug)]
pub struct ContentBuilder {
    /// The conversation so far, in call order.
    pub contents: Vec<Content>,
    /// The generation parameters, once one is set.
    pub generation_config: Option<GenerationConfig>,
    /// The tools, once one is added.
    pub tools: Option<Vec<Tool>>,
    /// The tool configuration, once set.
    pub tool_config: Option<ToolConfig>,
}

/// The ghost model of a builder.
#[verifier::ext_equal]
pub struct ContentBuilderView {
    /// The conversation, in call order.
    pub contents: Seq<ContentView>,
    /// The generation parameters.
    pub generation_config: Option<GenerationConfigView>,
    /// The tools.
    pub tools: Option<Seq<ToolView>>,
    /// The tool configuration.
    pub tool_config: Option<ToolConfig>,
}

impl View for ContentBuilder {
    type V = ContentBuilderView;

    open spec fn view(&self) -> ContentBuilderView {
        ContentBuilderView {
            contents: views_of(self.contents@),
            generation_config: match self.generation_config {
                Some(c) => Some(c@),
                None => None,
            },
            tools: match self.tools {
                Some(ts) => Some(views_of(ts@)),
                None => None,
            },
            tool_config: self.tool_config,
        }
    }
}

/// A content item with one text part and the given role.
pub open spec fn text_content(text: Seq<char>, role: Role) -> ContentView {
    ContentView { parts: seq![PartView::Text(text)], role: Some(role) }
}

/// The content a message stands for when it joins a request: the
/// message's own content, under the content's role where it has one and
/// the message's role where it has none.
pub open spec fn message_content(m: MessageView) -> ContentView {
    ContentView {
        parts: m.content.parts,
        role: Some(
            match m.content.role {
                Some(r) => r,
                None => m.role,
            },
        ),
    }
}

/// The configuration a setter starts from: the one already set, or the
/// default one.
pub open spec fn base_config(b: ContentBuilderView) -> GenerationConfigView {
    match b.generation_config {
        Some(c) => c,
        None => default_config(),
    }
}

impl ContentBuilder {
    /// An empty builder: no contents, nothing set.
    pub fn new() -> (r: ContentBuilder)
        ensures
            r@ == (ContentBuilderView {
                contents: Seq::<ContentView>::empty(),
                generation_config: None::<GenerationConfigView>,
                tools: None::<Seq<ToolView>>,
                tool_config: None::<ToolConfig>,
            }),
    {
        let r = ContentBuilder {
            contents: Vec::new(),
            generation_config: None,
            tools: None,
            tool_config: None,
        };
        proof {
            assert(r@ =~~= (ContentBuilderView {
                contents: Seq::<ContentView>::empty(),
                generation_config: None::<GenerationConfigView>,
                tools: None::<Seq<ToolView>>,
                tool_config: None::<ToolConfig>,
            }));
        }
        r
    }

    /// Appends a system prompt to the conversation.
    pub fn with_system_prompt(self, text: &str) -> (r: ContentBuilder)
        ensures
            r@ == (ContentBuilderView {
                contents: self@.contents.push(text_content(text@, Role::System)),
                ..self@
            }),
    {
        self.push_text(text, Role::System)
    }

    /// Appends a user message to the conversation.
    pub fn with_user_message(self, text: &str) -> (r: ContentBuilder)
        ensures
            r@ == (ContentBuilderView {
                contents: self@.contents.push(text_content(text@, Role::User)),
                ..self@
            }),
    {
        self.push_text(text, Role::User)
    }

    /// Appends a model message to the conversation.
    pub fn with_model_message(self, text: &str) -> (r: ContentBuilder)
        ensures
            r@ == (ContentBuilderView {
                contents: self@.contents.push(text_content(text@, Role::Model)),
                ..self@
            }),
    {
        self.push_text(text, Role::Model)
    }

    /// Appends one text content item under a role.
    fn push_text(self, text: &str, role: Role) -> (r: ContentBuilder)
        ensures
            r@ == (ContentBuilderView {
                contents: self@.contents.push(text_content(text@, role)),
                ..self@
            }),
    {
        let ghost sv = self@;
        let content = Content::text(text).with_role(role);
        let ContentBuilder { mut contents, generation_config, tools, tool_config } = self;
        contents.push(content);
        let r = ContentBuilder { contents, generation_config, tools, tool_config };
        proof {
            assert(views_of(r.contents@) =~= sv.contents.push(text_content(text@, role)));
            assert(r@ =~~= (ContentBuilderView {
                contents: sv.contents.push(text_content(text@, role)),
                ..sv
            }));
        }
        r
    }

    /// Appends a function response, under the function role, from a name
    /// and a response document.
    pub fn with_function_response(self, name: &str, response: JsonValue) -> (r: ContentBuilder)
        ensures
            r@ == (ContentBuilderView {
                contents: self@.contents.push(
                    ContentView {
                        parts: seq![
                            PartView::FunctionResponse(
                                crate::tools::FunctionResponseView {
                                    name: name@,
                                    response: Some(response@),
                                },
                            ),
                        ],
                        role: Some(Role::Function),
                    },
                ),
                ..self@
            }),
    {
        let ghost sv = self@;
        let ghost rv = response@;
        let content = Content::function_response_json(name, response).with_role(Role::Function);
        let ContentBuilder { mut contents, generation_config, tools, tool_config } = self;
        contents.push(content);
        let r = ContentBuilder { contents, generation_config, tools, tool_config };
        proof {
            let cv = ContentView {
                parts: seq![
                    PartView::FunctionResponse(
                        crate::tools::FunctionResponseView { name: name@, response: Some(rv) },
                    ),
                ],
                role: Some(Role::Function),
            };
            assert(views_of(r.contents@) =~= sv.contents.push(cv));
            assert(r@ =~~= (ContentBuilderView { contents: sv.contents.push(cv), ..sv }));
        }
        r
    }

    /// Appends a function response read from a JSON text, which must
    /// denote a document; the builder is consumed either way.
    pub fn with_function_response_str(self, name: &str, response: &str) -> (r: Result<
        ContentBuilder,
        Error,
    >)
        ensures
            match r {
                Ok(b) => {
                    &&& json_doc(response@) matches Some(v)
                    &&& b@ == (ContentBuilderView {
                        contents: self@.contents.push(
                            ContentView {
                                parts: seq![
                                    PartView::FunctionResponse(
                                        crate::tools::FunctionResponseView {
                                            name: name@,
                                            response: Some(v),
                                        },
                                    ),
                                ],
                                role: Some(Role::Function),
                            },
                        ),
                        ..self@
                    })
                },
                Err(e) => json_doc(response@) is None && e@ == ErrorV::Json(
                    "invalid JSON in function response"@,
                ),
            },
    {
        match crate::json_text::parse_json_text(response) {
            Some(v) => Ok(self.with_function_response(name, v)),
            None => Err(Error::JsonError("invalid JSON in function response".to_owned())),
        }
    }

    /// Appends a message: its content joins the conversation under the
    /// content's own role where it has one, and the message's role where
    /// it has none.
    pub fn with_message(self, message: Message) -> (r: ContentBuilder)
        ensures
            r@ == (ContentBuilderView {
                contents: self@.contents.push(message_content(message@)),
                ..self@
            }),
    {
        let ghost sv = self@;
        let ghost mv = message@;
        let Message { content, role } = message;
        let role = match content.role {
            Some(r) => r,
            None => role,
        };
        let content = content.with_role(role);
        let ContentBuilder { mut contents, generation_config, tools, tool_config } = self;
        contents.push(content);
        let r = ContentBuilder { contents, generation_config, tools, tool_config };
        proof {
            assert(views_of(r.contents@) =~= sv.contents.push(message_content(mv)));
            assert(r@ =~~= (ContentBuilderView {
                contents: sv.contents.push(message_content(mv)),
                ..sv
            }));
        }
        r
    }

    /// Appends several messages, in argument order.
    #[verifier::loop_isolation(false)]
    pub fn with_messages(self, messages: Vec<Message>) -> (r: ContentBuilder)
        ensures
            r@ == (ContentBuilderView {
                contents: self@.contents + Seq::new(
                    messages@.len(),
                    |i: int| message_content(messages@[i]@),
                ),
                ..self@
            }),
    {
        let ghost sv = self@;
        let ghost mm = Seq::new(messages@.len(), |i: int| message_content(messages@[i]@));
        let mut b = self;
        let mut i: usize = 0;
        proof {
            assert(sv.contents + mm.take(0) =~= sv.contents);
            assert(b@ =~~= (ContentBuilderView { contents: sv.contents + mm.take(0), ..sv }));
        }
        while i < messages.len()
            invariant
                i <= messages@.len(),
                b@ == (ContentBuilderView { contents: sv.contents + mm.take(i as int), ..sv }),
            decreases messages@.len() - i,
        {
            let m = messages[i].clone();
            proof {
                assert(m@ == messages@[i as int]@);
            }
            b = b.with_message(m);
            proof {
                assert(mm[i as int] == message_content(messages@[i as int]@));
                assert((sv.contents + mm.take(i as int)).push(mm[i as int])
                    =~= sv.contents + mm.take(i as int + 1));
                assert(b@ =~~= (ContentBuilderView {
                    contents: sv.contents + mm.take(i as int + 1),
                    ..sv
                }));
            }
            i += 1;
        }
        proof {
            assert(mm.take(messages@.len() as int) =~= mm);
        }
        b
    }

    /// Sets the generation configuration.
    pub fn with_generation_config(self, config: GenerationConfig) -> (r: ContentBuilder)
        ensures
            r@ == (ContentBuilderView { generation_config: Some(config@), ..self@ }),
    {
        let ghost sv = self@;
        let ghost cv = config@;
        let ContentBuilder { contents, generation_config: _, tools, tool_config } = self;
        let r = ContentBuilder { contents, generation_config: Some(config), tools, tool_config };
        proof {
            assert(r@ =~~= (ContentBuilderView { generation_config: Some(cv), ..sv }));
        }
        r
    }

    /// Sets the sampling temperature, starting from the default
    /// configuration where none is set yet.
    pub fn with_temperature(self, temperature: JsonNumber) -> (r: ContentBuilder)
        ensures
            r@ == (ContentBuilderView {
                generation_config: Some(
                    GenerationConfigView { temperature: Some(temperature@), ..base_config(self@) },
                ),
                ..self@
            }),
    {
        let ghost sv = self@;
        let ghost tv = temperature@;
        let ContentBuilder { contents, generation_config, tools, tool_config } = self;
        let mut config = match generation_config {
            Some(c) => c,
            None => GenerationConfig::default(),
        };
        config.temperature = Some(temperature);
        let r = ContentBuilder { contents, generation_config: Some(config), tools, tool_config };
        proof {
            assert(r@ =~~= (ContentBuilderView {
                generation_config: Some(
                    GenerationConfigView { temperature: Some(tv), ..base_config(sv) },
                ),
                ..sv
            }));
        }
        r
    }

    /// Sets the nucleus-sampling bound, starting from the default
    /// configuration where none is set yet.
    pub fn with_top_p(self, top_p: JsonNumber) -> (r: ContentBuilder)
        ensures
            r@ == (ContentBuilderView {
                generation_config: Some(
                    GenerationConfigView { top_p: Some(top_p@), ..base_config(self@) },
                ),
                ..self@
            }),
    {
        let ghost sv = self@;
        let ghost tv = top_p@;
        let ContentBuilder { contents, generation_config, tools, tool_config } = self;
        let mut config = match generation_config {
            Some(c) => c,
            None => GenerationConfig::default(),
        };
        config.top_p = Some(top_p);
        let r = ContentBuilder { contents, generation_config: Some(config), tools, tool_config };
        proof {
            assert(r@ =~~= (ContentBuilderView {
                generation_config: Some(GenerationConfigView { top_p: Some(tv), ..base_config(sv) }),
                ..sv
            }));
        }
        r
    }

    /// Sets how many most-likely tokens are considered, starting from
    /// the default configuration where none is set yet.
    pub fn with_top_k(self, top_k: i32) -> (r: ContentBuilder)
        ensures
            r@ == (ContentBuilderView {
                generation_config: Some(
                    GenerationConfigView { top_k: Some(top_k), ..base_config(self@) },
                ),
                ..self@
            }),
    {
        let ghost sv = self@;
        let ContentBuilder { contents, generation_config, tools, tool_config } = self;
        let mut config = match generation_config {
            Some(c) => c,
            None => GenerationConfig::default(),
        };
        config.top_k = Some(top_k);
        let r = ContentBuilder { contents, generation_config: Some(config), tools, tool_config };
        proof {
            assert(r@ =~~= (ContentBuilderView {
                generation_config: Some(GenerationConfigView { top_k: Some(top_k), ..base_config(sv) }),
                ..sv
            }));
        }
        r
    }

    /// Sets the output-token bound, starting from the default
    /// configuration where none is set yet.
    pub fn with_max_output_tokens(self, max_output_tokens: i32) -> (r: ContentBuilder)
        ensures
            r@ == (ContentBuilderView {
                generation_config: Some(
                    GenerationConfigView {
                        max_output_tokens: Some(max_output_tokens),
                        ..base_config(self@)
                    },
                ),
                ..self@
            }),
    {
        let ghost sv = self@;
        let ContentBuilder { contents, generation_config, tools, tool_config } = self;
        let mut config = match generation_config {
            Some(c) => c,
            None => GenerationConfig::default(),
        };
        config.max_output_tokens = Some(max_output_tokens);
        let r = ContentBuilder { contents, generation_config: Some(config), tools, tool_config };
        proof {
            assert(r@ =~~= (ContentBuilderView {
                generation_config: Some(
                    GenerationConfigView {
                        max_output_tokens: Some(max_output_tokens),
                        ..base_config(sv)
                    },
                ),
                ..sv
            }));
        }
        r
    }

    /// Sets the candidate count, starting from the default configuration
    /// where none is set yet.
    pub fn with_candidate_count(self, candidate_count: i32) -> (r: ContentBuilder)
        ensures
            r@ == (ContentBuilderView {
                generation_config: Some(
                    GenerationConfigView {
                        candidate_count: Some(candidate_count),
                        ..base_config(self@)
                    },
                ),
                ..self@
            }),
    {
        let ghost sv = self@;
        let ContentBuilder { contents, generation_config, tools, tool_config } = self;
        let mut config = match generation_config {
            Some(c) => c,
            None => GenerationConfig::default(),
        };
        config.candidate_count = Some(candidate_count);
        let r = ContentBuilder { contents, generation_config: Some(config), tools, tool_config };
        proof {
            assert(r@ =~~= (ContentBuilderView {
                generation_config: Some(
                    GenerationConfigView { candidate_count: Some(candidate_count), ..base_config(sv) },
                ),
                ..sv
            }));
        }
        r
    }

    /// Sets the stop sequences, starting from the default configuration
    /// where none is set yet.
    pub fn with_stop_sequences(self, stop_sequences: Vec<String>) -> (r: ContentBuilder)
        ensures
            r@ == (ContentBuilderView {
                generation_config: Some(
                    GenerationConfigView {
                        stop_sequences: Some(views_of(stop_sequences@)),
                        ..base_config(self@)
                    },
                ),
                ..self@
            }),
    {
        let ghost sv = self@;
        let ghost ssv = views_of(stop_sequences@);
        let ContentBuilder { contents, generation_config, tools, tool_config } = self;
        let mut config = match generation_config {
            Some(c) => c,
            None => GenerationConfig::default(),
        };
        config.stop_sequences = Some(stop_sequences);
        let r = ContentBuilder { contents, generation_config: Some(config), tools, tool_config };
        proof {
            assert(r@ =~~= (ContentBuilderView {
                generation_config: Some(
                    GenerationConfigView { stop_sequences: Some(ssv), ..base_config(sv) },
                ),
                ..sv
            }));
        }
        r
    }

    /// Sets the response format, starting from the default configuration
    /// where none is set yet.
    pub fn with_response_mime_type(self, mime_type: &str) -> (r: ContentBuilder)
        ensures
            r@ == (ContentBuilderView {
                generation_config: Some(
                    GenerationConfigView {
                        response_mime_type: Some(mime_type@),
                        ..base_config(self@)
                    },
                ),
                ..self@
            }),
    {
        let ghost sv = self@;
        let ContentBuilder { contents, generation_config, tools, tool_config } = self;
        let mut config = match generation_config {
            Some(c) => c,
            None => GenerationConfig::default(),
        };
        config.response_mime_type = Some(mime_type.to_owned());
        let r = ContentBuilder { contents, generation_config: Some(config), tools, tool_config };
        proof {
            assert(r@ =~~= (ContentBuilderView {
                generation_config: Some(
                    GenerationConfigView { response_mime_type: Some(mime_type@), ..base_config(sv) },
                ),
                ..sv
            }));
        }
        r
    }

    /// Sets the response schema, starting from the default configuration
    /// where none is set yet.
    pub fn with_response_schema(self, schema: JsonValue) -> (r: ContentBuilder)
        ensures
            r@ == (ContentBuilderView {
                generation_config: Some(
                    GenerationConfigView { response_schema: Some(schema@), ..base_config(self@) },
                ),
                ..self@
            }),
    {
        let ghost sv = self@;
        let ghost scv = schema@;
        let ContentBuilder { contents, generation_config, tools, tool_config } = self;
        let mut config = match generation_config {
            Some(c) => c,
            None => GenerationConfig::default(),
        };
        config.response_schema = Some(schema);
        let r = ContentBuilder { contents, generation_config: Some(config), tools, tool_config };
        proof {
            assert(r@ =~~= (ContentBuilderView {
                generation_config: Some(
                    GenerationConfigView { response_schema: Some(scv), ..base_config(sv) },
                ),
                ..sv
            }));
        }
        r
    }

    /// Appends a tool, starting a tool list where none is yet.
    pub fn with_tool(self, tool: Tool) -> (r: ContentBuilder)
        ensures
            r@ == (ContentBuilderView {
                tools: Some(
                    match self@.tools {
                        Some(ts) => ts.push(tool@),
                        None => seq![tool@],
                    },
                ),
                ..self@
            }),
    {
        let ghost sv = self@;
        let ghost tv = tool@;
        let ContentBuilder { contents, generation_config, tools, tool_config } = self;
        let mut ts = match tools {
            Some(ts) => ts,
            None => Vec::new(),
        };
        let ghost tsv = views_of(ts@);
        ts.push(tool);
        let r = ContentBuilder { contents, generation_config, tools: Some(ts), tool_config };
        proof {
            assert(views_of(ts@) =~= tsv.push(tv));
            if sv.tools is None {
                assert(tsv =~= Seq::<ToolView>::empty());
                assert(tsv.push(tv) =~= seq![tv]);
            }
            assert(r@ =~~= (ContentBuilderView {
                tools: Some(
                    match sv.tools {
                        Some(ts0) => ts0.push(tv),
                        None => seq![tv],
                    },
                ),
                ..sv
            }));
        }
        r
    }

    /// Appends a function declaration as a single-function tool.
    pub fn with_function(self, function: FunctionDeclaration) -> (r: ContentBuilder)
        ensures
            r@ == (ContentBuilderView {
                tools: Some(
                    match self@.tools {
                        Some(ts) => ts.push(ToolView::Function(seq![function@])),
                        None => seq![ToolView::Function(seq![function@])],
                    },
                ),
                ..self@
            }),
    {
        let tool = Tool::new(function);
        self.with_tool(tool)
    }

    /// Sets the function calling mode.
    pub fn with_function_calling_mode(self, mode: FunctionCallingMode) -> (r: ContentBuilder)
        ensures
            r@ == (ContentBuilderView {
                tool_config: Some(
                    ToolConfig {
                        function_calling_config: Some(FunctionCallingConfig { mode }),
                    },
                ),
                ..self@
            }),
    {
        let ghost sv = self@;
        let ContentBuilder { contents, generation_config, tools, tool_config: _ } = self;
        let r = ContentBuilder {
            contents,
            generation_config,
            tools,
            tool_config: Some(
                ToolConfig { function_calling_config: Some(FunctionCallingConfig { mode }) },
            ),
        };
        proof {
            assert(r@ =~~= (ContentBuilderView {
                tool_config: Some(
                    ToolConfig {
                        function_calling_config: Some(FunctionCallingConfig { mode }),
                    },
                ),
                ..sv
            }));
        }
        r
    }

    /// The request this builder stands for: its contents and sections,
    /// with no safety settings and no system instruction section.
    pub fn build(self) -> (r: GenerateContentRequest)
        ensures
            r@ == (GenerateContentRequestView {
                contents: self@.contents,
                generation_config: self@.generation_config,
                safety_settings: None::<Seq<crate::models::SafetySetting>>,
                tools: self@.tools,
                tool_config: self@.tool_config,
                system_instruction: None::<ContentView>,
            }),
    {
        let ghost sv = self@;
        let ContentBuilder { contents, generation_config, tools, tool_config } = self;
        let r = GenerateContentRequest {
            contents,
            generation_config,
            safety_settings: None,
            tools,
            tool_config,
            system_instruction: None,
        };
        proof {
            assert(r@ =~~= (GenerateContentRequestView {
                contents: sv.contents,
                generation_config: sv.generation_config,
                safety_settings: None::<Seq<crate::models::SafetySetting>>,
                tools: sv.tools,
                tool_config: sv.tool_config,
                system_instruction: None::<ContentView>,
            }));
        }
        r
    }

    /// The wire text of the request this builder stands for.
    pub fn build_json_text(self) -> (r: String)
        ensures
            r@ == crate::json_text::ser(
                enc_request(
                    GenerateContentRequestView {
                        contents: self@.contents,
                        generation_config: self@.generation_config,
                        safety_settings: None::<Seq<crate::models::SafetySetting>>,
                        tools: self@.tools,
                        tool_config: self@.tool_config,
                        system_instruction: None::<ContentView>,
                    },
                ),
            ),
    {
        let req = self.build();
        let doc = crate::codec::encode_request(&req);
        crate::json_text::write_json_text(&doc)
    }
}

/// The URL a request goes to: the fixed API base, the model, a colon,
/// the endpoint, and the API key as the one query parameter.
pub fn request_url(model: &str, endpoint: &str, api_key: &str) -> (r: String)
    ensures
        r@ == "https://generativelanguage.googleapis.com/v1beta/"@ + model@ + ":"@ + endpoint@
            + "?key="@ + api_key@,
{
    let mut out: Vec<char> = Vec::new();
    push_str_chars(&mut out, "https://generativelanguage.googleapis.com/v1beta/");
    push_str_chars(&mut out, model);
    push_str_chars(&mut out, ":");
    push_str_chars(&mut out, endpoint);
    push_str_chars(&mut out, "?key=");
    push_str_chars(&mut out, api_key);
    proof {
        assert(out@ =~= "https://generativelanguage.googleapis.com/v1beta/"@ + model@ + ":"@
            + endpoint@ + "?key="@ + api_key@);
    }
    string_from_chars(&out)
}

/// What an HTTP answer means: a response decoded from the body on a
/// success status, and an error carrying the status code and the raw
/// body on any other status, with nothing retried.
pub open spec fn interpret_model(status: u16, body: Seq<char>) -> Result<
    GenerationResponseView,
    ErrorV,
> {
    if !(200 <= status < 300) {
        Err(ErrorV::Api { status_code: status, message: body })
    } else {
        match json_doc(body) {
            Some(j) => match dec_response(j) {
                Some(g) => Ok(g),
                None => Err(ErrorV::Json("response does not fit the expected shape"@)),
            },
            None => Err(ErrorV::Json("invalid JSON in response"@)),
        }
    }
}

/// Interprets an HTTP answer, exactly as [`interpret_model`] says: a
/// non-success status surfaces one API error with the original status
/// code and raw body text; a success status has its body read as one
/// JSON document and decoded.
pub fn interpret_response(status: u16, body: &str) -> (r: Result<GenerationResponse, Error>)
    ensures
        match r {
            Ok(g) => interpret_model(status, body@) == Ok::<GenerationResponseView, ErrorV>(g@),
            Err(e) => interpret_model(status, body@) == Err::<GenerationResponseView, ErrorV>(e@),
        },
{
    if !(200 <= status && status < 300) {
        return Err(Error::ApiError { status_code: status, message: body.to_owned() });
    }
    match crate::json_text::parse_json_text(body) {
        Some(j) => match crate::codec::decode_response(&j) {
            Some(g) => Ok(g),
            None => Err(Error::JsonError("response does not fit the expected shape".to_owned())),
        },
        None => Err(Error::JsonError("invalid JSON in response".to_owned())),
    }
}

} // verus!