//! The typed request and response model: conversation turns, generation
//! parameters, and everything a response carries back.

use vstd::prelude::*;

use crate::error::{Error, ErrorV};
use crate::json::{JsonNumber, JsonV, JsonValue};
use crate::text::views_of;
use crate::tools::{FunctionCall, FunctionCallView, FunctionResponse, FunctionResponseView, Tool, ToolView};

verus! {

/// The role a message or content item belongs to.
#[derive(Debug, Clone, Copy, PartialEq, Eq, Structural)]
pub enum Role {
    /// A message from the user.
    User,
    /// A message from the model.
    Model,
    /// A function response.
    Function,
    /// A system instruction.
    System,
}

/// One part of a content item: exactly one of a text, a function call,
/// or a function response.
#[derive(Debug)]
pub enum Part {
    /// Text content.
    Text {
        /// The text.
        text: String,
    },
    /// A function call issued by the model.
    FunctionCall {
        /// The call.
        function_call: FunctionCall,
    },
    /// A function response fed back to the model.
    FunctionResponse {
        /// The response.
        function_response: FunctionResponse,
    },
}

/// The ghost model of a part.
pub enum PartView {
    /// Text content.
    Text(Seq<char>),
    /// A function call.
    FunctionCall(FunctionCallView),
    /// A function response.
    FunctionResponse(FunctionResponseView),
}

impl View for Part {
    type V = PartView;

    open spec fn view(&self) -> PartView {
        match self {
            Part::Text { text } => PartView::Text(text@),
            Part::FunctionCall { function_call } => PartView::FunctionCall(function_call@),
            Part::FunctionResponse { function_response } => PartView::FunctionResponse(
                function_response@,
            ),
        }
    }
}

impl Clone for Part {
    fn clone(&self) -> (res: Self)
        ensures
            res@ == self@,
    {
        match self {
            Part::Text { text } => Part::Text { text: text.clone() },
            Part::FunctionCall { function_call } => Part::FunctionCall {
                function_call: function_call.clone(),
            },
            Part::FunctionResponse { function_response } => Part::FunctionResponse {
                function_response: function_response.clone(),
            },
        }
    }
}

/// The content of a message: ordered parts, and the role they belong to.
#[derive(Debug)]
pub struct Content {
    /// The parts, in order.
    pub parts: Vec<Part>,
    /// The role, where one is set.
    pub role: Option<Role>,
}

/// The ghost model of a content item.
#[verifier::ext_equal]
pub struct ContentView {
    /// The parts, in order.
    pub parts: Seq<PartView>,
    /// The role, where one is set.
    pub role: Option<Role>,
}

impl View for Content {
    type V = ContentView;

    open spec fn view(&self) -> ContentView {
        ContentView { parts: views_of(self.parts@), role: self.role }
    }
}

impl Clone for Content {
    fn clone(&self) -> (res: Self)
        ensures
            res@ == self@,
    {
        let mut parts: Vec<Part> = Vec::new();
        let mut i: usize = 0;
        while i < self.parts.len()
            invariant
                i <= self.parts@.len(),
                parts@.len() == i,
                forall|k: int| 0 <= k < i ==> parts@[k]@ == self.parts@[k]@,
            decreases self.parts@.len() - i,
        {
            parts.push(self.parts[i].clone());
            i += 1;
        }
        let res = Content { parts, role: self.role };
        proof {
            assert(views_of(res.parts@) =~= views_of(self.parts@));
            assert(res@ =~~= self@);
        }
        res
    }
}

impl Content {
    /// A content item holding one text part and no role.
    pub fn text(text: &str) -> (r: Content)
        ensures
            r@ == (ContentView { parts: seq![PartView::Text(text@)], role: None::<Role> }),
    {
        let mut parts: Vec<Part> = Vec::new();
        parts.push(Part::Text { text: text.to_owned() });
        let r = Content { parts, role: None };
        proof {
            assert(views_of(r.parts@) =~= seq![PartView::Text(text@)]);
            assert(r@ =~~= (ContentView { parts: seq![PartView::Text(text@)], role: None::<Role> }));
        }
        r
    }

    /// A content item holding one function-call part and no role.
    pub fn function_call(function_call: FunctionCall) -> (r: Content)
        ensures
            r@ == (ContentView {
                parts: seq![PartView::FunctionCall(function_call@)],
                role: None::<Role>,
            }),
    {
        let ghost fv = function_call@;
        let mut parts: Vec<Part> = Vec::new();
        parts.push(Part::FunctionCall { function_call });
        let r = Content { parts, role: None };
        proof {
            assert(views_of(r.parts@) =~= seq![PartView::FunctionCall(fv)]);
            assert(r@ =~~= (ContentView { parts: seq![PartView::FunctionCall(fv)], role: None::<Role> }));
        }
        r
    }

    /// A content item holding one function-response part and no role.
    pub fn function_response(function_response: FunctionResponse) -> (r: Content)
        ensures
            r@ == (ContentView {
                parts: seq![PartView::FunctionResponse(function_response@)],
                role: None::<Role>,
            }),
    {
        let ghost fv = function_response@;
        let mut parts: Vec<Part> = Vec::new();
        parts.push(Part::FunctionResponse { function_response });
        let r = Content { parts, role: None };
        proof {
            assert(views_of(r.parts@) =~= seq![PartView::FunctionResponse(fv)]);
            assert(r@ =~~= (ContentView {
                parts: seq![PartView::FunctionResponse(fv)],
                role: None::<Role>,
            }));
        }
        r
    }

    /// A content item holding one function-response part built from a
    /// name and a response document, and no role.
    pub fn function_response_json(name: &str, response: JsonValue) -> (r: Content)
        ensures
            r@ == (ContentView {
                parts: seq![
                    PartView::FunctionResponse(
                        FunctionResponseView { name: name@, response: Some(response@) },
                    ),
                ],
                role: None::<Role>,
            }),
    {
        Content::function_response(FunctionResponse::new(name, response))
    }

    /// The same content item, with its role set.
    pub fn with_role(self, role: Role) -> (r: Content)
        ensures
            r@ == (ContentView { parts: self@.parts, role: Some(role) }),
    {
        let r = Content { parts: self.parts, role: Some(role) };
        proof {
            assert(r@ =~~= (ContentView { parts: self@.parts, role: Some(role) }));
        }
        r
    }
}

/// A message in a conversation: content, and the role it is from.
#[derive(Debug)]
pub struct Message {
    /// The content of the message.
    pub content: Content,
    /// The role of the message.
    pub role: Role,
}

/// The ghost model of a message.
#[verifier::ext_equal]
pub struct MessageView {
    /// The content of the message.
    pub content: ContentView,
    /// The role of the message.
    pub role: Role,
}

impl View for Message {
    type V = MessageView;

    open spec fn view(&self) -> MessageView {
        MessageView { content: self.content@, role: self.role }
    }
}

impl Clone for Message {
    fn clone(&self) -> (res: Self)
        ensures
            res@ == self@,
    {
        let res = Message { content: self.content.clone(), role: self.role };
        proof {
            assert(res@ =~~= self@);
        }
        res
    }
}

impl Message {
    /// A user message with text content.
    pub fn user(text: &str) -> (r: Message)
        ensures
            r@ == (MessageView {
                content: ContentView { parts: seq![PartView::Text(text@)], role: None::<Role> },
                role: Role::User,
            }),
    {
        Message { content: Content::text(text), role: Role::User }
    }

    /// A model message with text content.
    pub fn model(text: &str) -> (r: Message)
        ensures
            r@ == (MessageView {
                content: ContentView { parts: seq![PartView::Text(text@)], role: None::<Role> },
                role: Role::Model,
            }),
    {
        Message { content: Content::text(text), role: Role::Model }
    }

    /// A function message with a function response built from a name and
    /// a response document.
    pub fn function(name: &str, response: JsonValue) -> (r: Message)
        ensures
            r@ == (MessageView {
                content: ContentView {
                    parts: seq![
                        PartView::FunctionResponse(
                            FunctionResponseView { name: name@, response: Some(response@) },
                        ),
                    ],
                    role: None::<Role>,
                },
                role: Role::Function,
            }),
    {
        Message { content: Content::function_response_json(name, response), role: Role::Function }
    }

    /// A function message with a function response read from a JSON
    /// text, which must denote a document.
    pub fn function_str(name: &str, response: &str) -> (r: Result<Message, Error>)
        ensures
            match r {
                Ok(m) => {
                    &&& crate::json_text::json_doc(response@) matches Some(v)
                    &&& m@ == (MessageView {
                        content: ContentView {
                            parts: seq![
                                PartView::FunctionResponse(
                                    FunctionResponseView { name: name@, response: Some(v) },
                                ),
                            ],
                            role: None::<Role>,
                        },
                        role: Role::Function,
                    })
                },
                Err(e) => crate::json_text::json_doc(response@) is None && e@ == ErrorV::Json(
                    "invalid JSON in function response"@,
                ),
            },
    {
        match crate::json_text::parse_json_text(response) {
            Some(v) => Ok(
                Message {
                    content: Content::function_response_json(name, v),
                    role: Role::Function,
                },
            ),
            None => Err(Error::JsonError("invalid JSON in function response".to_owned())),
        }
    }
}

/// A safety rating attached to content.
#[derive(Debug)]
pub struct SafetyRating {
    /// The category rated.
    pub category: String,
    /// The probability that the content is harmful.
    pub probability: String,
}

/// The ghost model of a safety rating.
#[verifier::ext_equal]
pub struct SafetyRatingView {
    /// The category rated.
    pub category: Seq<char>,
    /// The probability that the content is harmful.
    pub probability: Seq<char>,
}

impl View for SafetyRating {
    type V = SafetyRatingView;

    open spec fn view(&self) -> SafetyRatingView {
        SafetyRatingView { category: self.category@, probability: self.probability@ }
    }
}

/// Citation metadata attached to content.
#[derive(Debug)]
pub struct CitationMetadata {
    /// The citation sources.
    pub citation_sources: Vec<CitationSource>,
}

/// The ghost model of citation metadata.
#[verifier::ext_equal]
pub struct CitationMetadataView {
    /// The citation sources.
    pub citation_sources: Seq<CitationSourceView>,
}

impl View for CitationMetadata {
    type V = CitationMetadataView;

    open spec fn view(&self) -> CitationMetadataView {
        CitationMetadataView { citation_sources: views_of(self.citation_sources@) }
    }
}

/// One citation source.
#[derive(Debug)]
pub struct CitationSource {
    /// The URI of the source.
    pub uri: Option<String>,
    /// The title of the source.
    pub title: Option<String>,
    /// Where the citation starts in the response.
    pub start_index: Option<i32>,
    /// Where the citation ends in the response.
    pub end_index: Option<i32>,
    /// The license of the source.
    pub license: Option<String>,
    /// The publication date of the source.
    pub publication_date: Option<String>,
}

/// The ghost model of a citation source.
#[verifier::ext_equal]
pub struct CitationSourceView {
    /// The URI of the source.
    pub uri: Option<Seq<char>>,
    /// The title of the source.
    pub title: Option<Seq<char>>,
    /// Where the citation starts.
    pub start_index: Option<i32>,
    /// Where the citation ends.
    pub end_index: Option<i32>,
    /// The license of the source.
    pub license: Option<Seq<char>>,
    /// The publication date of the source.
    pub publication_date: Option<Seq<char>>,
}

/// The model of an optional string.
pub open spec fn opt_str(v: Option<String>) -> Option<Seq<char>> {
    match v {
        Some(s) => Some(s@),
        None => None,
    }
}

impl View for CitationSource {
    type V = CitationSourceView;

    open spec fn view(&self) -> CitationSourceView {
        CitationSourceView {
            uri: opt_str(self.uri),
            title: opt_str(self.title),
            start_index: self.start_index,
            end_index: self.end_index,
            license: opt_str(self.license),
            publication_date: opt_str(self.publication_date),
        }
    }
}

/// Metadata about token usage.
#[derive(Debug, Clone, Copy, PartialEq, Eq, Structural)]
pub struct UsageMetadata {
    /// The number of prompt tokens.
    pub prompt_token_count: i32,
    /// The number of response tokens.
    pub candidates_token_count: i32,
    /// The total number of tokens.
    pub total_token_count: i32,
}

/// One candidate response.
#[derive(Debug)]
pub struct Candidate {
    /// The candidate's content.
    pub content: Content,
    /// The safety ratings for the candidate.
    pub safety_ratings: Option<Vec<SafetyRating>>,
    /// The citation metadata for the candidate.
    pub citation_metadata: Option<CitationMetadata>,
    /// Why generation finished.
    pub finish_reason: Option<String>,
    /// The tokens used for the candidate.
    pub usage_metadata: Option<UsageMetadata>,
}

/// The ghost model of a candidate.
#[verifier::ext_equal]
pub struct CandidateView {
    /// The candidate's content.
    pub content: ContentView,
    /// The safety ratings.
    pub safety_ratings: Option<Seq<SafetyRatingView>>,
    /// The citation metadata.
    pub citation_metadata: Option<CitationMetadataView>,
    /// Why generation finished.
    pub finish_reason: Option<Seq<char>>,
    /// The tokens used.
    pub usage_metadata: Option<UsageMetadata>,
}

impl View for Candidate {
    type V = CandidateView;

    open spec fn view(&self) -> CandidateView {
        CandidateView {
            content: self.content@,
            safety_ratings: match self.safety_ratings {
                Some(v) => Some(views_of(v@)),
                None => None,
            },
            citation_metadata: match self.citation_metadata {
                Some(m) => Some(m@),
                None => None,
            },
            finish_reason: opt_str(self.finish_reason),
            usage_metadata: self.usage_metadata,
        }
    }
}

/// A response to a content generation request.
#[derive(Debug)]
pub struct GenerationResponse {
    /// The candidates generated, in order.
    pub candidates: Vec<Candidate>,
    /// Feedback about the prompt.
    pub prompt_feedback: Option<PromptFeedback>,
    /// The tokens used.
    pub usage_metadata: Option<UsageMetadata>,
}

/// The ghost model of a generation response.
#[verifier::ext_equal]
pub struct GenerationResponseView {
    /// The candidates, in order.
    pub candidates: Seq<CandidateView>,
    /// Feedback about the prompt.
    pub prompt_feedback: Option<PromptFeedbackView>,
    /// The tokens used.
    pub usage_metadata: Option<UsageMetadata>,
}

impl View for GenerationResponse {
    type V = GenerationResponseView;

    open spec fn view(&self) -> GenerationResponseView {
        GenerationResponseView {
            candidates: views_of(self.candidates@),
            prompt_feedback: match self.prompt_feedback {
                Some(f) => Some(f@),
                None => None,
            },
            usage_metadata: self.usage_metadata,
        }
    }
}

/// Feedback about the prompt.
#[derive(Debug)]
pub struct PromptFeedback {
    /// The safety ratings for the prompt.
    pub safety_ratings: Vec<SafetyRating>,
    /// Why the prompt was blocked, where it was.
    pub block_reason: Option<String>,
}

/// The ghost model of prompt feedback.
#[verifier::ext_equal]
pub struct PromptFeedbackView {
    /// The safety ratings for the prompt.
    pub safety_ratings: Seq<SafetyRatingView>,
    /// Why the prompt was blocked.
    pub block_reason: Option<Seq<char>>,
}

impl View for PromptFeedback {
    type V = PromptFeedbackView;

    open spec fn view(&self) -> PromptFeedbackView {
        PromptFeedbackView {
            safety_ratings: views_of(self.safety_ratings@),
            block_reason: opt_str(self.block_reason),
        }
    }
}

/// The text of a response: the first part of the first candidate, where
/// that part is text, and the empty string otherwise.
pub open spec fn response_text(r: GenerationResponseView) -> Seq<char> {
    if r.candidates.len() > 0 && r.candidates[0].content.parts.len() > 0 {
        match r.candidates[0].content.parts[0] {
            PartView::Text(t) => t,
            _ => Seq::empty(),
        }
    } else {
        Seq::empty()
    }
}

/// The function calls among a part list, in order.
pub open spec fn calls_in_parts(parts: Seq<PartView>) -> Seq<FunctionCallView>
    decreases parts.len(),
{
    if parts.len() == 0 {
        Seq::empty()
    } else {
        let pre = calls_in_parts(parts.drop_last());
        match parts.last() {
            PartView::FunctionCall(fc) => pre.push(fc),
            _ => pre,
        }
    }
}

/// The function calls among a candidate list, in order of candidate and
/// part.
pub open spec fn calls_in_candidates(cands: Seq<CandidateView>) -> Seq<FunctionCallView>
    decreases cands.len(),
{
    if cands.len() == 0 {
        Seq::empty()
    } else {
        calls_in_candidates(cands.drop_last()) + calls_in_parts(cands.last().content.parts)
    }
}

/// The models of referenced function calls.
pub open spec fn call_refs_model(v: Seq<&FunctionCall>) -> Seq<FunctionCallView> {
    Seq::new(v.len(), |i: int| v[i]@)
}

impl GenerationResponse {
    /// The text of the first candidate's first part, or the empty string
    /// where there is none or it is not text.
    pub fn text(&self) -> (r: String)
        ensures
            r@ == response_text(self@),
    {
        if self.candidates.len() > 0 {
            let c = &self.candidates[0];
            if c.content.parts.len() > 0 {
                match &c.content.parts[0] {
                    Part::Text { text } => {
                        return text.clone();
                    }
                    _ => {}
                }
            }
        }
        String::new()
    }

    /// The function calls in the response, in order of candidate and
    /// part.
    #[verifier::loop_isolation(false)]
    pub fn function_calls<'a>(&'a self) -> (r: Vec<&'a FunctionCall>)
        ensures
            call_refs_model(r@) == calls_in_candidates(self@.candidates),
    {
        let ghost cm = views_of(self.candidates@);
        let mut out: Vec<&FunctionCall> = Vec::new();
        let mut i: usize = 0;
        proof {
            assert(cm.take(0) =~= Seq::<CandidateView>::empty());
            assert(call_refs_model(out@) =~= calls_in_candidates(cm.take(0)));
        }
        while i < self.candidates.len()
            invariant
                i <= self.candidates@.len(),
                call_refs_model(out@) == calls_in_candidates(cm.take(i as int)),
            decreases self.candidates@.len() - i,
        {
            let c = &self.candidates[i];
            let ghost pm = c@.content.parts;
            let mut j: usize = 0;
            proof {
                assert(pm.take(0) =~= Seq::<PartView>::empty());
                assert(calls_in_parts(pm.take(0)) =~= Seq::<FunctionCallView>::empty());
                assert(call_refs_model(out@) =~= calls_in_candidates(cm.take(i as int))
                    + calls_in_parts(pm.take(0)));
            }
            while j < c.content.parts.len()
                invariant
                    j <= c.content.parts@.len(),
                    pm == c@.content.parts,
                    c == &self.candidates[i as int],
                    i < self.candidates@.len(),
                    call_refs_model(out@) == calls_in_candidates(cm.take(i as int))
                        + calls_in_parts(pm.take(j as int)),
                decreases c.content.parts@.len() - j,
            {
                let ghost om = call_refs_model(out@);
                match &c.content.parts[j] {
                    Part::FunctionCall { function_call } => {
                        out.push(function_call);
                        proof {
                            assert(call_refs_model(out@) =~= om.push(function_call@));
                        }
                    }
                    _ => {}
                }
                proof {
                    assert(pm.take(j as int + 1).drop_last() =~= pm.take(j as int));
                    assert(pm.take(j as int + 1).last() == pm[j as int]);
                    assert(pm[j as int] == c.content.parts@[j as int]@);
                    assert(call_refs_model(out@) =~= calls_in_candidates(cm.take(i as int))
                        + calls_in_parts(pm.take(j as int + 1)));
                }
                j += 1;
            }
            proof {
                assert(pm.take(c.content.parts@.len() as int) =~= pm);
                assert(cm.take(i as int + 1).drop_last() =~= cm.take(i as int));
                assert(cm.take(i as int + 1).last() == cm[i as int]);
                assert(cm[i as int] == self.candidates@[i as int]@);
                assert(cm[i as int].content.parts == pm);
                assert(call_refs_model(out@) =~= calls_in_candidates(cm.take(i as int + 1)));
            }
            i += 1;
        }
        proof {
            assert(cm.take(self.candidates@.len() as int) =~= cm);
        }
        out
    }
}

/// A request to generate content.
#[derive(Debug)]
pub struct GenerateContentRequest {
    /// The conversation so far, in order.
    pub contents: Vec<Content>,
    /// The generation parameters, where set.
    pub generation_config: Option<GenerationConfig>,
    /// The safety settings, where set.
    pub safety_settings: Option<Vec<SafetySetting>>,
    /// The tools the model can use, where set.
    pub tools: Option<Vec<Tool>>,
    /// The tool configuration, where set.
    pub tool_config: Option<ToolConfig>,
    /// The system instruction, where set.
    pub system_instruction: Option<Content>,
}

/// The ghost model of a request.
#[verifier::ext_equal]
pub struct GenerateContentRequestView {
    /// The conversation, in order.
    pub contents: Seq<ContentView>,
    /// The generation parameters.
    pub generation_config: Option<GenerationConfigView>,
    /// The safety settings.
    pub safety_settings: Option<Seq<SafetySetting>>,
    /// The tools.
    pub tools: Option<Seq<ToolView>>,
    /// The tool configuration.
    pub tool_config: Option<ToolConfig>,
    /// The system instruction.
    pub system_instruction: Option<ContentView>,
}

impl View for GenerateContentRequest {
    type V = GenerateContentRequestView;

    open spec fn view(&self) -> GenerateContentRequestView {
        GenerateContentRequestView {
            contents: views_of(self.contents@),
            generation_config: match self.generation_config {
                Some(c) => Some(c@),
                None => None,
            },
            safety_settings: match self.safety_settings {
                Some(v) => Some(v@),
                None => None,
            },
            tools: match self.tools {
                Some(v) => Some(views_of(v@)),
                None => None,
            },
            tool_config: self.tool_config,
            system_instruction: match self.system_instruction {
                Some(c) => Some(c@),
                None => None,
            },
        }
    }
}

/// The generation parameters.  A sampling parameter that the wire form
/// carries as a decimal number is held as a JSON number, so that it
/// round-trips exactly.
#[derive(Debug)]
pub struct GenerationConfig {
    /// The sampling temperature, where set.
    pub temperature: Option<JsonNumber>,
    /// The nucleus-sampling bound, where set.
    pub top_p: Option<JsonNumber>,
    /// How many most-likely tokens are considered, where set.
    pub top_k: Option<i32>,
    /// The most tokens the model may generate, where set.
    pub max_output_tokens: Option<i32>,
    /// How many alternative responses to generate, where set.
    pub candidate_count: Option<i32>,
    /// The sequences generation stops at, where set.
    pub stop_sequences: Option<Vec<String>>,
    /// The response format asked of the model, where set.
    pub response_mime_type: Option<String>,
    /// The schema asked of structured responses, where set.
    pub response_schema: Option<JsonValue>,
}

/// The ghost model of the generation parameters.
#[verifier::ext_equal]
pub struct GenerationConfigView {
    /// The sampling temperature: the number's literal text.
    pub temperature: Option<Seq<char>>,
    /// The nucleus-sampling bound: the number's literal text.
    pub top_p: Option<Seq<char>>,
    /// How many most-likely tokens are considered.
    pub top_k: Option<i32>,
    /// The most tokens the model may generate.
    pub max_output_tokens: Option<i32>,
    /// How many alternative responses to generate.
    pub candidate_count: Option<i32>,
    /// The sequences generation stops at.
    pub stop_sequences: Option<Seq<Seq<char>>>,
    /// The response format asked of the model.
    pub response_mime_type: Option<Seq<char>>,
    /// The schema asked of structured responses.
    pub response_schema: Option<JsonV>,
}

impl View for GenerationConfig {
    type V = GenerationConfigView;

    open spec fn view(&self) -> GenerationConfigView {
        GenerationConfigView {
            temperature: match self.temperature {
                Some(n) => Some(n@),
                None => None,
            },
            top_p: match self.top_p {
                Some(n) => Some(n@),
                None => None,
            },
            top_k: self.top_k,
            max_output_tokens: self.max_output_tokens,
            candidate_count: self.candidate_count,
            stop_sequences: match self.stop_sequences {
                Some(v) => Some(views_of(v@)),
                None => None,
            },
            response_mime_type: opt_str(self.response_mime_type),
            response_schema: match self.response_schema {
                Some(v) => Some(v@),
                None => None,
            },
        }
    }
}

/// The generation parameters a fresh configuration starts from.
pub open spec fn default_config() -> GenerationConfigView {
    GenerationConfigView {
        temperature: Some("0.7"@),
        top_p: Some("0.95"@),
        top_k: Some(40i32),
        max_output_tokens: Some(1024i32),
        candidate_count: Some(1i32),
        stop_sequences: None,
        response_mime_type: None,
        response_schema: None,
    }
}

impl Default for GenerationConfig {
    /// The configuration every unset request starts from: a temperature
    /// of 0.7, a nucleus bound of 0.95, the 40 most likely tokens, at
    /// most 1024 output tokens, one candidate, and nothing else set.
    fn default() -> (r: GenerationConfig)
        ensures
            r@ == default_config(),
    {
        let r = GenerationConfig {
            temperature: Some(JsonNumber { text: "0.7".to_owned() }),
            top_p: Some(JsonNumber { text: "0.95".to_owned() }),
            top_k: Some(40),
            max_output_tokens: Some(1024),
            candidate_count: Some(1),
            stop_sequences: None,
            response_mime_type: None,
            response_schema: None,
        };
        proof {
            assert(r@ =~~= default_config());
        }
        r
    }
}

impl Clone for GenerationConfig {
    fn clone(&self) -> (res: Self)
        ensures
            res@ == self@,
    {
        let stop_sequences = match &self.stop_sequences {
            Some(v) => {
                let mut out: Vec<String> = Vec::new();
                let mut i: usize = 0;
                while i < v.len()
                    invariant
                        i <= v@.len(),
                        out@.len() == i,
                        forall|k: int| 0 <= k < i ==> out@[k]@ == v@[k]@,
                    decreases v@.len() - i,
                {
                    out.push(v[i].clone());
                    i += 1;
                }
                proof {
                    assert(views_of(out@) =~= views_of(v@));
                }
                Some(out)
            }
            None => None,
        };
        let res = GenerationConfig {
            temperature: match &self.temperature {
                Some(n) => Some(n.clone()),
                None => None,
            },
            top_p: match &self.top_p {
                Some(n) => Some(n.clone()),
                None => None,
            },
            top_k: self.top_k,
            max_output_tokens: self.max_output_tokens,
            candidate_count: self.candidate_count,
            stop_sequences,
            response_mime_type: match &self.response_mime_type {
                Some(s) => Some(s.clone()),
                None => None,
            },
            response_schema: match &self.response_schema {
                Some(v) => Some(v.clone()),
                None => None,
            },
        };
        proof {
            assert(res@ =~~= self@);
        }
        res
    }
}

/// The configuration of the tools handed to the model.
#[derive(Debug, Clone, Copy)]
pub struct ToolConfig {
    /// The function-calling configuration, where set.
    pub function_calling_config: Option<FunctionCallingConfig>,
}

/// The configuration of function calling.
#[derive(Debug, Clone, Copy)]
pub struct FunctionCallingConfig {
    /// The mode for function calling.
    pub mode: FunctionCallingMode,
}

/// How the model may use function calling.
#[derive(Debug, Clone, Copy, PartialEq, Eq, Structural)]
pub enum FunctionCallingMode {
    /// The model may call functions.
    Auto,
    /// The model must call a function.
    Any,
    /// The model must not call functions.
    Disabled,
}

/// One safety setting: a category and the threshold for blocking it.
#[derive(Debug, Clone, Copy)]
pub struct SafetySetting {
    /// The category of content to filter.
    pub category: HarmCategory,
    /// The threshold for filtering.
    pub threshold: HarmBlockThreshold,
}

/// A category of harmful content.
#[derive(Debug, Clone, Copy, PartialEq, Eq, Structural)]
pub enum HarmCategory {
    /// Dangerous content.
    Dangerous,
    /// Harassment.
    Harassment,
    /// Hate speech.
    HateSpeech,
    /// Sexually explicit content.
    SexuallyExplicit,
}

/// A threshold for blocking harmful content.
#[derive(Debug, Clone, Copy, PartialEq, Eq, Structural)]
pub enum HarmBlockThreshold {
    /// Block content with a low or higher probability of harm.
    BlockLowAndAbove,
    /// Block content with a medium or higher probability of harm.
    BlockMediumAndAbove,
    /// Block content with a high probability of harm.
    BlockHighAndAbove,
    /// Block only content with a high probability of harm.
    BlockOnlyHigh,
    /// Never block content.
    BlockNone,
}

} // verus!
