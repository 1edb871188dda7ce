//! The wire mapping between the typed model and JSON documents.
//!
//! Requests are encoded field by field, with every unset field left out
//! of the wire form; responses are decoded back, permissive about
//! unknown names and strict about the shape of the names it reads, the
//! way the typed model demands.  Both directions are stated as spec
//! functions over the ghost models and proved of the executable code,
//! and decoding an encoded configuration is proved to give the
//! configuration back.

use vstd::prelude::*;

use crate::json::{dec_int_str, num_as_int, obj_get, JsonV, JsonValue};
use crate::models::{
    Candidate, CandidateView, CitationMetadata, CitationMetadataView, CitationSource,
    CitationSourceView, Content, ContentView, FunctionCallingMode, GenerationConfigView,
    GenerationResponse, GenerationResponseView, HarmBlockThreshold, HarmCategory, Part, PartView,
    PromptFeedback, PromptFeedbackView, Role, SafetyRating, SafetyRatingView, UsageMetadata,
};
use crate::tools::{FunctionCall, FunctionCallView, FunctionResponse, FunctionResponseView};

verus! {

/// Decodes every document of a sequence, failing when any one fails.
pub open spec fn dec_all<A>(elems: Seq<JsonV>, f: spec_fn(JsonV) -> Option<A>) -> Option<Seq<A>>
    decreases elems.len(),
{
    if elems.len() == 0 {
        Some(Seq::empty())
    } else {
        match dec_all(elems.drop_last(), f) {
            Some(pre) => match f(elems.last()) {
                Some(x) => Some(pre.push(x)),
                None => None,
            },
            None => None,
        }
    }
}

/// Once a prefix fails to decode, every longer prefix fails too.
pub proof fn lemma_dec_all_none_mono<A>(
    elems: Seq<JsonV>,
    f: spec_fn(JsonV) -> Option<A>,
    i: int,
    j: int,
)
    requires
        0 <= i <= j <= elems.len(),
        dec_all(elems.take(i), f) is None,
    ensures
        dec_all(elems.take(j), f) is None,
    decreases j - i,
{
    if j > i {
        lemma_dec_all_none_mono(elems, f, i, j - 1);
        assert(elems.take(j).drop_last() =~= elems.take(j - 1));
    }
}

/// What an optional field of an object decodes to: absent or `null`
/// stands for nothing, a present value must decode, and the outer
/// failure is the whole object's.
pub open spec fn opt_field<A>(
    pairs: Seq<(Seq<char>, JsonV)>,
    name: Seq<char>,
    f: spec_fn(JsonV) -> Option<A>,
) -> Option<Option<A>> {
    match obj_get(pairs, name) {
        None => Some(None),
        Some(JsonV::Null) => Some(None),
        Some(v) => match f(v) {
            Some(x) => Some(Some(x)),
            None => None,
        },
    }
}

/// A document that is a string.
pub open spec fn dec_str(j: JsonV) -> Option<Seq<char>> {
    match j {
        JsonV::Str(t) => Some(t),
        _ => None,
    }
}

/// A document that is a number naming an integer that fits in an `i32`.
pub open spec fn dec_i32(j: JsonV) -> Option<i32> {
    match j {
        JsonV::Num(t) => match num_as_int(t) {
            Some(v) => if i32::MIN <= v <= i32::MAX {
                Some(v as i32)
            } else {
                None
            },
            None => None,
        },
        _ => None,
    }
}

/// The role a wire name denotes.
pub open spec fn dec_role(t: Seq<char>) -> Option<Role> {
    if t == "user"@ {
        Some(Role::User)
    } else if t == "model"@ {
        Some(Role::Model)
    } else if t == "function"@ {
        Some(Role::Function)
    } else if t == "system"@ {
        Some(Role::System)
    } else {
        None
    }
}

/// What a document says as one part.  The shapes are tried in a fixed
/// priority order: a `text` string first, then a `functionCall`, then a
/// `functionResponse`; the first that fits wins.
pub open spec fn dec_part(j: JsonV) -> Option<PartView> {
    match j {
        JsonV::Obj(pairs) => {
            if obj_get(pairs, "text"@) matches Some(JsonV::Str(t)) {
                Some(PartView::Text(obj_get(pairs, "text"@)->Some_0->Str_0))
            } else if obj_get(pairs, "functionCall"@) matches Some(JsonV::Obj(fc)) {
                let fc = obj_get(pairs, "functionCall"@)->Some_0->Obj_0;
                match (obj_get(fc, "name"@), obj_get(fc, "args"@)) {
                    (Some(JsonV::Str(n)), Some(a)) => Some(
                        PartView::FunctionCall(FunctionCallView { name: n, args: a }),
                    ),
                    _ => None,
                }
            } else if obj_get(pairs, "functionResponse"@) matches Some(JsonV::Obj(fr)) {
                let fr = obj_get(pairs, "functionResponse"@)->Some_0->Obj_0;
                match obj_get(fr, "name"@) {
                    Some(JsonV::Str(n)) => Some(
                        PartView::FunctionResponse(
                            FunctionResponseView {
                                name: n,
                                response: match obj_get(fr, "response"@) {
                                    Some(JsonV::Null) => None,
                                    other => other,
                                },
                            },
                        ),
                    ),
                    _ => None,
                }
            } else {
                None
            }
        }
        _ => None,
    }
}


/// The part decoder, as a function value.
pub open spec fn dec_part_f() -> spec_fn(JsonV) -> Option<PartView> {
    |x: JsonV| dec_part(x)
}

/// The safety-rating decoder, as a function value.
pub open spec fn dec_safety_rating_f() -> spec_fn(JsonV) -> Option<SafetyRatingView> {
    |x: JsonV| dec_safety_rating(x)
}

/// The citation-source decoder, as a function value.
pub open spec fn dec_citation_source_f() -> spec_fn(JsonV) -> Option<CitationSourceView> {
    |x: JsonV| dec_citation_source(x)
}

/// The candidate decoder, as a function value.
pub open spec fn dec_candidate_f() -> spec_fn(JsonV) -> Option<CandidateView> {
    |x: JsonV| dec_candidate(x)
}

/// The string decoder, as a function value.
pub open spec fn dec_str_f() -> spec_fn(JsonV) -> Option<Seq<char>> {
    |x: JsonV| dec_str(x)
}

/// The integer decoder, as a function value.
pub open spec fn dec_i32_f() -> spec_fn(JsonV) -> Option<i32> {
    |x: JsonV| dec_i32(x)
}

/// The role decoder over documents, as a function value.
pub open spec fn dec_role_f() -> spec_fn(JsonV) -> Option<Role> {
    |x: JsonV|
        match x {
            JsonV::Str(t) => dec_role(t),
            _ => None,
        }
}

/// The safety-rating-list decoder over documents, as a function value.
pub open spec fn dec_ratings_arr_f() -> spec_fn(JsonV) -> Option<Seq<SafetyRatingView>> {
    |x: JsonV|
        match x {
            JsonV::Arr(elems) => dec_all(elems, dec_safety_rating_f()),
            _ => None,
        }
}

/// The citation-metadata decoder, as a function value.
pub open spec fn dec_citation_metadata_f() -> spec_fn(JsonV) -> Option<CitationMetadataView> {
    |x: JsonV| dec_citation_metadata(x)
}

/// The usage decoder, as a function value.
pub open spec fn dec_usage_f() -> spec_fn(JsonV) -> Option<UsageMetadata> {
    |x: JsonV| dec_usage(x)
}

/// The prompt-feedback decoder, as a function value.
pub open spec fn dec_prompt_feedback_f() -> spec_fn(JsonV) -> Option<PromptFeedbackView> {
    |x: JsonV| dec_prompt_feedback(x)
}

/// What a document says as a content item: required ordered parts, and
/// an optional role.
pub open spec fn dec_content(j: JsonV) -> Option<ContentView> {
    match j {
        JsonV::Obj(pairs) => match obj_get(pairs, "parts"@) {
            Some(JsonV::Arr(elems)) => match dec_all(elems, dec_part_f()) {
                Some(parts) => match opt_field(pairs, "role"@, dec_role_f()) {
                    Some(role) => Some(ContentView { parts, role }),
                    None => None,
                },
                None => None,
            },
            _ => None,
        },
        _ => None,
    }
}

/// What a document says as a safety rating: a required category and a
/// required probability, both strings.
pub open spec fn dec_safety_rating(j: JsonV) -> Option<SafetyRatingView> {
    match j {
        JsonV::Obj(pairs) => match (obj_get(pairs, "category"@), obj_get(pairs, "probability"@)) {
            (Some(JsonV::Str(c)), Some(JsonV::Str(p))) => Some(
                SafetyRatingView { category: c, probability: p },
            ),
            _ => None,
        },
        _ => None,
    }
}

/// What a document says as a citation source: every field optional.
pub open spec fn dec_citation_source(j: JsonV) -> Option<CitationSourceView> {
    match j {
        JsonV::Obj(pairs) => {
            let uri = opt_field(pairs, "uri"@, dec_str_f());
            let title = opt_field(pairs, "title"@, dec_str_f());
            let start_index = opt_field(pairs, "start_index"@, dec_i32_f());
            let end_index = opt_field(pairs, "end_index"@, dec_i32_f());
            let license = opt_field(pairs, "license"@, dec_str_f());
            let publication_date = opt_field(pairs, "publication_date"@, dec_str_f());
            match (uri, title, start_index, end_index, license, publication_date) {
                (Some(u), Some(t), Some(si), Some(ei), Some(l), Some(pd)) => Some(
                    CitationSourceView {
                        uri: u,
                        title: t,
                        start_index: si,
                        end_index: ei,
                        license: l,
                        publication_date: pd,
                    },
                ),
                _ => None,
            }
        }
        _ => None,
    }
}

/// What a document says as citation metadata: a required list of
/// citation sources.
pub open spec fn dec_citation_metadata(j: JsonV) -> Option<CitationMetadataView> {
    match j {
        JsonV::Obj(pairs) => match obj_get(pairs, "citation_sources"@) {
            Some(JsonV::Arr(elems)) => match dec_all(elems, dec_citation_source_f()) {
                Some(cs) => Some(CitationMetadataView { citation_sources: cs }),
                None => None,
            },
            _ => None,
        },
        _ => None,
    }
}

/// What a document says as usage metadata: three required counters.
pub open spec fn dec_usage(j: JsonV) -> Option<UsageMetadata> {
    match j {
        JsonV::Obj(pairs) => {
            let p = match obj_get(pairs, "prompt_token_count"@) {
                Some(v) => dec_i32(v),
                None => None,
            };
            let c = match obj_get(pairs, "candidates_token_count"@) {
                Some(v) => dec_i32(v),
                None => None,
            };
            let t = match obj_get(pairs, "total_token_count"@) {
                Some(v) => dec_i32(v),
                None => None,
            };
            match (p, c, t) {
                (Some(p), Some(c), Some(t)) => Some(
                    UsageMetadata {
                        prompt_token_count: p,
                        candidates_token_count: c,
                        total_token_count: t,
                    },
                ),
                _ => None,
            }
        }
        _ => None,
    }
}

/// What a document says as one candidate: required content, and
/// optional ratings, citations, finish reason and usage.
pub open spec fn dec_candidate(j: JsonV) -> Option<CandidateView> {
    match j {
        JsonV::Obj(pairs) => match obj_get(pairs, "content"@) {
            Some(cj) => match dec_content(cj) {
                Some(content) => {
                    let sr = opt_field(pairs, "safety_ratings"@, dec_ratings_arr_f());
                    let cm = opt_field(pairs, "citation_metadata"@, dec_citation_metadata_f());
                    let fr = opt_field(pairs, "finish_reason"@, dec_str_f());
                    let um = opt_field(pairs, "usage_metadata"@, dec_usage_f());
                    match (sr, cm, fr, um) {
                        (Some(sr), Some(cm), Some(fr), Some(um)) => Some(
                            CandidateView {
                                content,
                                safety_ratings: sr,
                                citation_metadata: cm,
                                finish_reason: fr,
                                usage_metadata: um,
                            },
                        ),
                        _ => None,
                    }
                }
                None => None,
            },
            None => None,
        },
        _ => None,
    }
}

/// What a document says as prompt feedback: required safety ratings and
/// an optional block reason.
pub open spec fn dec_prompt_feedback(j: JsonV) -> Option<PromptFeedbackView> {
    match j {
        JsonV::Obj(pairs) => match obj_get(pairs, "safety_ratings"@) {
            Some(JsonV::Arr(elems)) => match dec_all(elems, dec_safety_rating_f()) {
                Some(sr) => match opt_field(pairs, "block_reason"@, dec_str_f()) {
                    Some(br) => Some(PromptFeedbackView { safety_ratings: sr, block_reason: br }),
                    None => None,
                },
                None => None,
            },
            _ => None,
        },
        _ => None,
    }
}

/// What a document says as a whole generation response: required
/// candidates, optional prompt feedback and usage.
pub open spec fn dec_response(j: JsonV) -> Option<GenerationResponseView> {
    match j {
        JsonV::Obj(pairs) => match obj_get(pairs, "candidates"@) {
            Some(JsonV::Arr(elems)) => match dec_all(elems, dec_candidate_f()) {
                Some(cands) => {
                    let pf = opt_field(pairs, "prompt_feedback"@, dec_prompt_feedback_f());
                    let um = opt_field(pairs, "usage_metadata"@, dec_usage_f());
                    match (pf, um) {
                        (Some(pf), Some(um)) => Some(
                            GenerationResponseView {
                                candidates: cands,
                                prompt_feedback: pf,
                                usage_metadata: um,
                            },
                        ),
                        _ => None,
                    }
                }
                None => None,
            },
            _ => None,
        },
        _ => None,
    }
}

/// An optional object entry: one pair where the value is set, nothing
/// where it is not.
pub open spec fn opt_entry(name: Seq<char>, v: Option<JsonV>) -> Seq<(Seq<char>, JsonV)> {
    match v {
        Some(x) => seq![(name, x)],
        None => Seq::empty(),
    }
}

/// A number document from an optional literal text.
pub open spec fn onum(t: Option<Seq<char>>) -> Option<JsonV> {
    match t {
        Some(x) => Some(JsonV::Num(x)),
        None => None,
    }
}

/// A number document from an optional integer.
pub open spec fn oint(v: Option<i32>) -> Option<JsonV> {
    match v {
        Some(x) => Some(JsonV::Num(dec_int_str(x as int))),
        None => None,
    }
}

/// A string document from an optional text.
pub open spec fn ostr(t: Option<Seq<char>>) -> Option<JsonV> {
    match t {
        Some(x) => Some(JsonV::Str(x)),
        None => None,
    }
}

/// String documents from texts.
pub open spec fn strs_to_json(ss: Seq<Seq<char>>) -> Seq<JsonV> {
    Seq::new(ss.len(), |i: int| JsonV::Str(ss[i]))
}

/// The wire name of a role.
pub open spec fn enc_role(r: Role) -> Seq<char> {
    match r {
        Role::User => "user"@,
        Role::Model => "model"@,
        Role::Function => "function"@,
        Role::System => "system"@,
    }
}

/// How one part is written: an object with exactly one name, telling
/// the part's kind by its shape.
pub open spec fn enc_part(p: PartView) -> JsonV {
    match p {
        PartView::Text(t) => JsonV::Obj(seq![("text"@, JsonV::Str(t))]),
        PartView::FunctionCall(fc) => JsonV::Obj(
            seq![
                (
                    "functionCall"@,
                    JsonV::Obj(
                        seq![("name"@, JsonV::Str(fc.name)), ("args"@, fc.args)],
                    ),
                ),
            ],
        ),
        PartView::FunctionResponse(fr) => JsonV::Obj(
            seq![
                (
                    "functionResponse"@,
                    JsonV::Obj(
                        seq![("name"@, JsonV::Str(fr.name))] + opt_entry("response"@, fr.response),
                    ),
                ),
            ],
        ),
    }
}

/// How a part list is written.
pub open spec fn enc_parts(ps: Seq<PartView>) -> Seq<JsonV> {
    Seq::new(ps.len(), |i: int| enc_part(ps[i]))
}

/// How a content item is written: its parts, then its role where one is
/// set.
pub open spec fn enc_content(c: ContentView) -> JsonV {
    JsonV::Obj(
        seq![("parts"@, JsonV::Arr(enc_parts(c.parts)))] + opt_entry(
            "role"@,
            match c.role {
                Some(r) => Some(JsonV::Str(enc_role(r))),
                None => None,
            },
        ),
    )
}

/// How the generation parameters are written: each set field under its
/// name, in a fixed order, and every unset field left out.
pub open spec fn enc_config(c: GenerationConfigView) -> JsonV {
    JsonV::Obj(
        opt_entry("temperature"@, onum(c.temperature)) + opt_entry("top_p"@, onum(c.top_p))
            + opt_entry("top_k"@, oint(c.top_k)) + opt_entry(
            "max_output_tokens"@,
            oint(c.max_output_tokens),
        ) + opt_entry("candidate_count"@, oint(c.candidate_count)) + opt_entry(
            "stop_sequences"@,
            match c.stop_sequences {
                Some(ss) => Some(JsonV::Arr(strs_to_json(ss))),
                None => None,
            },
        ) + opt_entry("response_mime_type"@, ostr(c.response_mime_type)) + opt_entry(
            "response_schema"@,
            c.response_schema,
        ),
    )
}

/// The wire name of a function-calling mode.
pub open spec fn enc_mode(m: FunctionCallingMode) -> Seq<char> {
    match m {
        FunctionCallingMode::Auto => "AUTO"@,
        FunctionCallingMode::Any => "ANY"@,
        FunctionCallingMode::Disabled => "NONE"@,
    }
}

/// The wire name of a harm category.
pub open spec fn enc_category(c: HarmCategory) -> Seq<char> {
    match c {
        HarmCategory::Dangerous => "DANGEROUS"@,
        HarmCategory::Harassment => "HARASSMENT"@,
        HarmCategory::HateSpeech => "HATE_SPEECH"@,
        HarmCategory::SexuallyExplicit => "SEXUALLY_EXPLICIT"@,
    }
}

/// The wire name of a harm-block threshold.
pub open spec fn enc_threshold(t: HarmBlockThreshold) -> Seq<char> {
    match t {
        HarmBlockThreshold::BlockLowAndAbove => "BLOCK_LOW_AND_ABOVE"@,
        HarmBlockThreshold::BlockMediumAndAbove => "BLOCK_MEDIUM_AND_ABOVE"@,
        HarmBlockThreshold::BlockHighAndAbove => "BLOCK_HIGH_AND_ABOVE"@,
        HarmBlockThreshold::BlockOnlyHigh => "BLOCK_ONLY_HIGH"@,
        HarmBlockThreshold::BlockNone => "BLOCK_NONE"@,
    }
}

/// How one safety setting is written.
pub open spec fn enc_safety_setting(s: crate::models::SafetySetting) -> JsonV {
    JsonV::Obj(
        seq![
            ("category"@, JsonV::Str(enc_category(s.category))),
            ("threshold"@, JsonV::Str(enc_threshold(s.threshold))),
        ],
    )
}

/// How safety settings are written.
pub open spec fn enc_safety_settings(ss: Seq<crate::models::SafetySetting>) -> Seq<JsonV> {
    Seq::new(ss.len(), |i: int| enc_safety_setting(ss[i]))
}

/// How one property's details are written: its type and description,
/// then its permitted values and item schema where set.
pub open spec fn enc_prop(p: crate::tools::PropertyDetailsView) -> JsonV
    decreases p,
{
    JsonV::Obj(
        seq![
            ("type"@, JsonV::Str(p.property_type)),
            ("description"@, JsonV::Str(p.description)),
        ] + opt_entry(
            "enum"@,
            match p.enum_values {
                Some(vs) => Some(JsonV::Arr(strs_to_json(vs))),
                None => None,
            },
        ) + opt_entry(
            "items"@,
            match p.items {
                Some(b) => {
                    proof {
                        assert(decreases_to!(p => p.items));
                        assert(decreases_to!(p.items => p.items->0));
                        assert(decreases_to!(p => p.items->0));
                    }
                    Some(enc_prop(*b))
                }
                None => None,
            },
        ),
    )
}

/// How a schema's properties are written, each under its name.
pub open spec fn enc_prop_pairs(
    ps: Seq<(Seq<char>, crate::tools::PropertyDetailsView)>,
) -> Seq<(Seq<char>, JsonV)> {
    Seq::new(ps.len(), |i: int| (ps[i].0, enc_prop(ps[i].1)))
}

/// How a parameter schema is written: its type, then its properties and
/// required names where set.
pub open spec fn enc_params(fp: crate::tools::FunctionParametersView) -> JsonV {
    JsonV::Obj(
        seq![("type"@, JsonV::Str(fp.param_type))] + opt_entry(
            "properties"@,
            match fp.properties {
                Some(ps) => Some(JsonV::Obj(enc_prop_pairs(ps))),
                None => None,
            },
        ) + opt_entry(
            "required"@,
            match fp.required {
                Some(rs) => Some(JsonV::Arr(strs_to_json(rs))),
                None => None,
            },
        ),
    )
}

/// How one function declaration is written.
pub open spec fn enc_fn_decl(d: crate::tools::FunctionDeclarationView) -> JsonV {
    JsonV::Obj(
        seq![
            ("name"@, JsonV::Str(d.name)),
            ("description"@, JsonV::Str(d.description)),
            ("parameters"@, enc_params(d.parameters)),
        ],
    )
}

/// How function declarations are written.
pub open spec fn enc_fn_decls(ds: Seq<crate::tools::FunctionDeclarationView>) -> Seq<JsonV> {
    Seq::new(ds.len(), |i: int| enc_fn_decl(ds[i]))
}

/// How one tool is written: its shape tells its kind.
pub open spec fn enc_tool(t: crate::tools::ToolView) -> JsonV {
    match t {
        crate::tools::ToolView::Function(ds) => JsonV::Obj(
            seq![("function_declarations"@, JsonV::Arr(enc_fn_decls(ds)))],
        ),
        crate::tools::ToolView::GoogleSearch => JsonV::Obj(
            seq![("google_search"@, JsonV::Obj(Seq::empty()))],
        ),
    }
}

/// How tools are written.
pub open spec fn enc_tools(ts: Seq<crate::tools::ToolView>) -> Seq<JsonV> {
    Seq::new(ts.len(), |i: int| enc_tool(ts[i]))
}

/// How the tool configuration is written.
pub open spec fn enc_tool_config(tc: crate::models::ToolConfig) -> JsonV {
    JsonV::Obj(
        opt_entry(
            "function_calling_config"@,
            match tc.function_calling_config {
                Some(fcc) => Some(JsonV::Obj(seq![("mode"@, JsonV::Str(enc_mode(fcc.mode)))])),
                None => None,
            },
        ),
    )
}

/// How content items are written.
pub open spec fn enc_contents(cs: Seq<ContentView>) -> Seq<JsonV> {
    Seq::new(cs.len(), |i: int| enc_content(cs[i]))
}

/// How a whole request is written: the contents, then each optional
/// section where set, and every unset section left out.
pub open spec fn enc_request(r: crate::models::GenerateContentRequestView) -> JsonV {
    JsonV::Obj(
        seq![("contents"@, JsonV::Arr(enc_contents(r.contents)))] + opt_entry(
            "generation_config"@,
            match r.generation_config {
                Some(c) => Some(enc_config(c)),
                None => None,
            },
        ) + opt_entry(
            "safety_settings"@,
            match r.safety_settings {
                Some(ss) => Some(JsonV::Arr(enc_safety_settings(ss))),
                None => None,
            },
        ) + opt_entry(
            "tools"@,
            match r.tools {
                Some(ts) => Some(JsonV::Arr(enc_tools(ts))),
                None => None,
            },
        ) + opt_entry(
            "tool_config"@,
            match r.tool_config {
                Some(tc) => Some(enc_tool_config(tc)),
                None => None,
            },
        ) + opt_entry(
            "system_instruction"@,
            match r.system_instruction {
                Some(c) => Some(enc_content(c)),
                None => None,
            },
        ),
    )
}

/// The number decoder over documents, as a function value.
pub open spec fn dec_num_f() -> spec_fn(JsonV) -> Option<Seq<char>> {
    |x: JsonV|
        match x {
            JsonV::Num(t) => Some(t),
            _ => None,
        }
}

/// The string-list decoder over documents, as a function value.
pub open spec fn dec_strs_arr_f() -> spec_fn(JsonV) -> Option<Seq<Seq<char>>> {
    |x: JsonV|
        match x {
            JsonV::Arr(elems) => dec_all(elems, dec_str_f()),
            _ => None,
        }
}

/// The decoder that takes any document, as a function value.
pub open spec fn dec_any_f() -> spec_fn(JsonV) -> Option<JsonV> {
    |x: JsonV| Some(x)
}

/// What a document says as generation parameters: every field optional,
/// each of its fixed shape, unknown names passed over.
pub open spec fn dec_config(j: JsonV) -> Option<GenerationConfigView> {
    match j {
        JsonV::Obj(pairs) => {
            let temperature = opt_field(pairs, "temperature"@, dec_num_f());
            let top_p = opt_field(pairs, "top_p"@, dec_num_f());
            let top_k = opt_field(pairs, "top_k"@, dec_i32_f());
            let max_output_tokens = opt_field(pairs, "max_output_tokens"@, dec_i32_f());
            let candidate_count = opt_field(pairs, "candidate_count"@, dec_i32_f());
            let stop_sequences = opt_field(pairs, "stop_sequences"@, dec_strs_arr_f());
            let response_mime_type = opt_field(pairs, "response_mime_type"@, dec_str_f());
            let response_schema = opt_field(pairs, "response_schema"@, dec_any_f());
            match (temperature, top_p, top_k, max_output_tokens, candidate_count, stop_sequences,
                response_mime_type, response_schema) {
                (
                    Some(temperature),
                    Some(top_p),
                    Some(top_k),
                    Some(max_output_tokens),
                    Some(candidate_count),
                    Some(stop_sequences),
                    Some(response_mime_type),
                    Some(response_schema),
                ) => Some(
                    GenerationConfigView {
                        temperature,
                        top_p,
                        top_k,
                        max_output_tokens,
                        candidate_count,
                        stop_sequences,
                        response_mime_type,
                        response_schema,
                    },
                ),
                _ => None,
            }
        }
        _ => None,
    }
}

/// A lookup in an appended pair list takes what the right part holds,
/// and falls back on the left part.
pub proof fn lemma_obj_get_append(
    a: Seq<(Seq<char>, JsonV)>,
    b: Seq<(Seq<char>, JsonV)>,
    k: Seq<char>,
)
    ensures
        obj_get(a + b, k) == match obj_get(b, k) {
            Some(v) => Some(v),
            None => obj_get(a, k),
        },
    decreases b.len(),
{
    if b.len() == 0 {
        assert(a + b =~= a);
    } else {
        assert((a + b).drop_last() =~= a + b.drop_last());
        assert((a + b).last() == b.last());
        lemma_obj_get_append(a, b.drop_last(), k);
    }
}

/// A lookup in an optional entry takes its value at its name and
/// nothing anywhere else.
pub proof fn lemma_obj_get_opt_entry(name: Seq<char>, ov: Option<JsonV>, k: Seq<char>)
    ensures
        obj_get(opt_entry(name, ov), k) == if name == k {
            ov
        } else {
            None
        },
{
    match ov {
        Some(x) => {
            let e = opt_entry(name, ov);
            assert(e.len() == 1);
            assert(e.last() == (name, x));
            assert(e.drop_last() =~= Seq::<(Seq<char>, JsonV)>::empty());
            if name == k {
                assert(obj_get(e, k) == Some(x));
            } else {
                assert(obj_get(e, k) == obj_get(e.drop_last(), k));
            }
        }
        None => {
            assert(opt_entry(name, ov) =~= Seq::<(Seq<char>, JsonV)>::empty());
        }
    }
}

/// A written integer reads back as itself.
pub proof fn lemma_num_as_int_roundtrip(n: int)
    ensures
        num_as_int(dec_int_str(n)) == Some(n),
{
    if n >= 0 {
        crate::json::lemma_dec_nat_str(n as nat);
        let t = dec_int_str(n);
        assert(crate::json::is_digit(t[0]));
        assert(t[0] != '-');
    } else {
        crate::json::lemma_dec_nat_str((-n) as nat);
        let t = dec_int_str(n);
        let d = t.subrange(1, t.len() as int);
        assert(d =~= crate::json::dec_nat_str((-n) as nat));
        assert(t[0] == '-');
    }
}

/// Written texts read back as themselves.
pub proof fn lemma_dec_all_strs(ss: Seq<Seq<char>>)
    ensures
        dec_all(strs_to_json(ss), dec_str_f()) == Some(ss),
    decreases ss.len(),
{
    if ss.len() == 0 {
        assert(strs_to_json(ss) =~= Seq::<JsonV>::empty());
    } else {
        lemma_dec_all_strs(ss.drop_last());
        assert(strs_to_json(ss).drop_last() =~= strs_to_json(ss.drop_last()));
        assert(strs_to_json(ss).last() == JsonV::Str(ss.last()));
        assert(ss.drop_last().push(ss.last()) =~= ss);
    }
}

/// Decoding an encoded configuration gives the configuration back, and
/// the wire form holds a name exactly for the fields that are set.  The
/// one configuration left out is a schema that is the bare `null`
/// document: its wire form reads back as no schema at all.
#[verifier::rlimit(100)]
pub proof fn lemma_config_roundtrip(c: GenerationConfigView)
    requires
        c.response_schema matches Some(s) ==> !(s is Null),
    ensures
        dec_config(enc_config(c)) == Some(c),
        obj_get(enc_config(c)->Obj_0, "temperature"@) is Some <==> c.temperature is Some,
        obj_get(enc_config(c)->Obj_0, "top_p"@) is Some <==> c.top_p is Some,
        obj_get(enc_config(c)->Obj_0, "top_k"@) is Some <==> c.top_k is Some,
        obj_get(enc_config(c)->Obj_0, "max_output_tokens"@) is Some <==> c.max_output_tokens
            is Some,
        obj_get(enc_config(c)->Obj_0, "candidate_count"@) is Some <==> c.candidate_count is Some,
        obj_get(enc_config(c)->Obj_0, "stop_sequences"@) is Some <==> c.stop_sequences is Some,
        obj_get(enc_config(c)->Obj_0, "response_mime_type"@) is Some <==> c.response_mime_type
            is Some,
        obj_get(enc_config(c)->Obj_0, "response_schema"@) is Some <==> c.response_schema is Some,
{
    let e1 = opt_entry("temperature"@, onum(c.temperature));
    let e2 = opt_entry("top_p"@, onum(c.top_p));
    let e3 = opt_entry("top_k"@, oint(c.top_k));
    let e4 = opt_entry("max_output_tokens"@, oint(c.max_output_tokens));
    let e5 = opt_entry("candidate_count"@, oint(c.candidate_count));
    let e6 = opt_entry(
        "stop_sequences"@,
        match c.stop_sequences {
            Some(ss) => Some(JsonV::Arr(strs_to_json(ss))),
            None => None,
        },
    );
    let e7 = opt_entry("response_mime_type"@, ostr(c.response_mime_type));
    let e8 = opt_entry("response_schema"@, c.response_schema);
    let p2 = e1 + e2;
    let p3 = p2 + e3;
    let p4 = p3 + e4;
    let p5 = p4 + e5;
    let p6 = p5 + e6;
    let p7 = p6 + e7;
    let p8 = p7 + e8;
    assert(enc_config(c)->Obj_0 == p8);
    reveal_strlit("temperature");
    reveal_strlit("top_p");
    reveal_strlit("top_k");
    reveal_strlit("max_output_tokens");
    reveal_strlit("candidate_count");
    reveal_strlit("stop_sequences");
    reveal_strlit("response_mime_type");
    reveal_strlit("response_schema");
    assert("temperature"@.len() == 11);
    assert("top_p"@.len() == 5);
    assert("top_k"@.len() == 5);
    assert("max_output_tokens"@.len() == 17);
    assert("candidate_count"@.len() == 15);
    assert("stop_sequences"@.len() == 14);
    assert("response_mime_type"@.len() == 18);
    assert("response_schema"@.len() == 15);
    assert("top_p"@ =~= seq!['t', 'o', 'p', '_', 'p']);
    assert("top_k"@ =~= seq!['t', 'o', 'p', '_', 'k']);
    assert("top_p"@ !== "top_k"@);
    assert("candidate_count"@ =~= seq![
        'c', 'a', 'n', 'd', 'i', 'd', 'a', 't', 'e', '_', 'c', 'o', 'u', 'n', 't',
    ]);
    assert("response_schema"@ =~= seq![
        'r', 'e', 's', 'p', 'o', 'n', 's', 'e', '_', 's', 'c', 'h', 'e', 'm', 'a',
    ]);
    assert("candidate_count"@ !== "response_schema"@);
    {
        let k = "temperature"@;
        lemma_obj_get_append(p7, e8, k);
        lemma_obj_get_append(p6, e7, k);
        lemma_obj_get_append(p5, e6, k);
        lemma_obj_get_append(p4, e5, k);
        lemma_obj_get_append(p3, e4, k);
        lemma_obj_get_append(p2, e3, k);
        lemma_obj_get_append(e1, e2, k);
        lemma_obj_get_opt_entry("temperature"@, onum(c.temperature), k);
        lemma_obj_get_opt_entry("top_p"@, onum(c.top_p), k);
        lemma_obj_get_opt_entry("top_k"@, oint(c.top_k), k);
        lemma_obj_get_opt_entry("max_output_tokens"@, oint(c.max_output_tokens), k);
        lemma_obj_get_opt_entry("candidate_count"@, oint(c.candidate_count), k);
        lemma_obj_get_opt_entry(
            "stop_sequences"@,
            match c.stop_sequences {
                Some(ss) => Some(JsonV::Arr(strs_to_json(ss))),
                None => None,
            },
            k,
        );
        lemma_obj_get_opt_entry("response_mime_type"@, ostr(c.response_mime_type), k);
        lemma_obj_get_opt_entry("response_schema"@, c.response_schema, k);
        assert(obj_get(p8, k) == onum(c.temperature));
    }
    {
        let k = "top_p"@;
        lemma_obj_get_append(p7, e8, k);
        lemma_obj_get_append(p6, e7, k);
        lemma_obj_get_append(p5, e6, k);
        lemma_obj_get_append(p4, e5, k);
        lemma_obj_get_append(p3, e4, k);
        lemma_obj_get_append(p2, e3, k);
        lemma_obj_get_append(e1, e2, k);
        lemma_obj_get_opt_entry("temperature"@, onum(c.temperature), k);
        lemma_obj_get_opt_entry("top_p"@, onum(c.top_p), k);
        lemma_obj_get_opt_entry("top_k"@, oint(c.top_k), k);
        lemma_obj_get_opt_entry("max_output_tokens"@, oint(c.max_output_tokens), k);
        lemma_obj_get_opt_entry("candidate_count"@, oint(c.candidate_count), k);
        lemma_obj_get_opt_entry(
            "stop_sequences"@,
            match c.stop_sequences {
                Some(ss) => Some(JsonV::Arr(strs_to_json(ss))),
                None => None,
            },
            k,
        );
        lemma_obj_get_opt_entry("response_mime_type"@, ostr(c.response_mime_type), k);
        lemma_obj_get_opt_entry("response_schema"@, c.response_schema, k);
        assert(obj_get(p8, k) == onum(c.top_p));
    }
    {
        let k = "top_k"@;
        lemma_obj_get_append(p7, e8, k);
        lemma_obj_get_append(p6, e7, k);
        lemma_obj_get_append(p5, e6, k);
        lemma_obj_get_append(p4, e5, k);
        lemma_obj_get_append(p3, e4, k);
        lemma_obj_get_append(p2, e3, k);
        lemma_obj_get_append(e1, e2, k);
        lemma_obj_get_opt_entry("temperature"@, onum(c.temperature), k);
        lemma_obj_get_opt_entry("top_p"@, onum(c.top_p), k);
        lemma_obj_get_opt_entry("top_k"@, oint(c.top_k), k);
        lemma_obj_get_opt_entry("max_output_tokens"@, oint(c.max_output_tokens), k);
        lemma_obj_get_opt_entry("candidate_count"@, oint(c.candidate_count), k);
        lemma_obj_get_opt_entry(
            "stop_sequences"@,
            match c.stop_sequences {
                Some(ss) => Some(JsonV::Arr(strs_to_json(ss))),
                None => None,
            },
            k,
        );
        lemma_obj_get_opt_entry("response_mime_type"@, ostr(c.response_mime_type), k);
        lemma_obj_get_opt_entry("response_schema"@, c.response_schema, k);
        assert(obj_get(p8, k) == oint(c.top_k));
    }
    {
        let k = "max_output_tokens"@;
        lemma_obj_get_append(p7, e8, k);
        lemma_obj_get_append(p6, e7, k);
        lemma_obj_get_append(p5, e6, k);
        lemma_obj_get_append(p4, e5, k);
        lemma_obj_get_append(p3, e4, k);
        lemma_obj_get_append(p2, e3, k);
        lemma_obj_get_append(e1, e2, k);
        lemma_obj_get_opt_entry("temperature"@, onum(c.temperature), k);
        lemma_obj_get_opt_entry("top_p"@, onum(c.top_p), k);
        lemma_obj_get_opt_entry("top_k"@, oint(c.top_k), k);
        lemma_obj_get_opt_entry("max_output_tokens"@, oint(c.max_output_tokens), k);
        lemma_obj_get_opt_entry("candidate_count"@, oint(c.candidate_count), k);
        lemma_obj_get_opt_entry(
            "stop_sequences"@,
            match c.stop_sequences {
                Some(ss) => Some(JsonV::Arr(strs_to_json(ss))),
                None => None,
            },
            k,
        );
        lemma_obj_get_opt_entry("response_mime_type"@, ostr(c.response_mime_type), k);
        lemma_obj_get_opt_entry("response_schema"@, c.response_schema, k);
        assert(obj_get(p8, k) == oint(c.max_output_tokens));
    }
    {
        let k = "candidate_count"@;
        lemma_obj_get_append(p7, e8, k);
        lemma_obj_get_append(p6, e7, k);
        lemma_obj_get_append(p5, e6, k);
        lemma_obj_get_append(p4, e5, k);
        lemma_obj_get_append(p3, e4, k);
        lemma_obj_get_append(p2, e3, k);
        lemma_obj_get_append(e1, e2, k);
        lemma_obj_get_opt_entry("temperature"@, onum(c.temperature), k);
        lemma_obj_get_opt_entry("top_p"@, onum(c.top_p), k);
        lemma_obj_get_opt_entry("top_k"@, oint(c.top_k), k);
        lemma_obj_get_opt_entry("max_output_tokens"@, oint(c.max_output_tokens), k);
        lemma_obj_get_opt_entry("candidate_count"@, oint(c.candidate_count), k);
        lemma_obj_get_opt_entry(
            "stop_sequences"@,
            match c.stop_sequences {
                Some(ss) => Some(JsonV::Arr(strs_to_json(ss))),
                None => None,
            },
            k,
        );
        lemma_obj_get_opt_entry("response_mime_type"@, ostr(c.response_mime_type), k);
        lemma_obj_get_opt_entry("response_schema"@, c.response_schema, k);
        assert(obj_get(p8, k) == oint(c.candidate_count));
    }
    {
        let k = "stop_sequences"@;
        lemma_obj_get_append(p7, e8, k);
        lemma_obj_get_append(p6, e7, k);
        lemma_obj_get_append(p5, e6, k);
        lemma_obj_get_append(p4, e5, k);
        lemma_obj_get_append(p3, e4, k);
        lemma_obj_get_append(p2, e3, k);
        lemma_obj_get_append(e1, e2, k);
        lemma_obj_get_opt_entry("temperature"@, onum(c.temperature), k);
        lemma_obj_get_opt_entry("top_p"@, onum(c.top_p), k);
        lemma_obj_get_opt_entry("top_k"@, oint(c.top_k), k);
        lemma_obj_get_opt_entry("max_output_tokens"@, oint(c.max_output_tokens), k);
        lemma_obj_get_opt_entry("candidate_count"@, oint(c.candidate_count), k);
        lemma_obj_get_opt_entry(
            "stop_sequences"@,
            match c.stop_sequences {
                Some(ss) => Some(JsonV::Arr(strs_to_json(ss))),
                None => None,
            },
            k,
        );
        lemma_obj_get_opt_entry("response_mime_type"@, ostr(c.response_mime_type), k);
        lemma_obj_get_opt_entry("response_schema"@, c.response_schema, k);
        assert(obj_get(p8, k) == match c.stop_sequences {
        Some(ss) => Some(JsonV::Arr(strs_to_json(ss))),
        None => None,
    });
    }
    {
        let k = "response_mime_type"@;
        lemma_obj_get_append(p7, e8, k);
        lemma_obj_get_append(p6, e7, k);
        lemma_obj_get_append(p5, e6, k);
        lemma_obj_get_append(p4, e5, k);
        lemma_obj_get_append(p3, e4, k);
        lemma_obj_get_append(p2, e3, k);
        lemma_obj_get_append(e1, e2, k);
        lemma_obj_get_opt_entry("temperature"@, onum(c.temperature), k);
        lemma_obj_get_opt_entry("top_p"@, onum(c.top_p), k);
        lemma_obj_get_opt_entry("top_k"@, oint(c.top_k), k);
        lemma_obj_get_opt_entry("max_output_tokens"@, oint(c.max_output_tokens), k);
        lemma_obj_get_opt_entry("candidate_count"@, oint(c.candidate_count), k);
        lemma_obj_get_opt_entry(
            "stop_sequences"@,
            match c.stop_sequences {
                Some(ss) => Some(JsonV::Arr(strs_to_json(ss))),
                None => None,
            },
            k,
        );
        lemma_obj_get_opt_entry("response_mime_type"@, ostr(c.response_mime_type), k);
        lemma_obj_get_opt_entry("response_schema"@, c.response_schema, k);
        assert(obj_get(p8, k) == ostr(c.response_mime_type));
    }
    {
        let k = "response_schema"@;
        lemma_obj_get_append(p7, e8, k);
        lemma_obj_get_append(p6, e7, k);
        lemma_obj_get_append(p5, e6, k);
        lemma_obj_get_append(p4, e5, k);
        lemma_obj_get_append(p3, e4, k);
        lemma_obj_get_append(p2, e3, k);
        lemma_obj_get_append(e1, e2, k);
        lemma_obj_get_opt_entry("temperature"@, onum(c.temperature), k);
        lemma_obj_get_opt_entry("top_p"@, onum(c.top_p), k);
        lemma_obj_get_opt_entry("top_k"@, oint(c.top_k), k);
        lemma_obj_get_opt_entry("max_output_tokens"@, oint(c.max_output_tokens), k);
        lemma_obj_get_opt_entry("candidate_count"@, oint(c.candidate_count), k);
        lemma_obj_get_opt_entry(
            "stop_sequences"@,
            match c.stop_sequences {
                Some(ss) => Some(JsonV::Arr(strs_to_json(ss))),
                None => None,
            },
            k,
        );
        lemma_obj_get_opt_entry("response_mime_type"@, ostr(c.response_mime_type), k);
        lemma_obj_get_opt_entry("response_schema"@, c.response_schema, k);
        assert(obj_get(p8, k) == c.response_schema);
    }
    match c.top_k {
        Some(k) => {
            lemma_num_as_int_roundtrip(k as int);
        }
        None => {}
    }
    match c.max_output_tokens {
        Some(k) => {
            lemma_num_as_int_roundtrip(k as int);
        }
        None => {}
    }
    match c.candidate_count {
        Some(k) => {
            lemma_num_as_int_roundtrip(k as int);
        }
        None => {}
    }
    match c.stop_sequences {
        Some(ss) => {
            lemma_dec_all_strs(ss);
        }
        None => {}
    }
    assert(dec_config(enc_config(c)) == Some(c)) by {
        assert(dec_config(enc_config(c))->Some_0 =~~= c);
    }
}

/// Appends an optional object entry.
fn push_opt_entry(pairs: &mut Vec<(String, JsonValue)>, name: &str, v: Option<JsonValue>)
    ensures
        crate::json::pairs_model(final(pairs)@) == crate::json::pairs_model(old(pairs)@)
            + opt_entry(name@, match v {
                Some(x) => Some(x@),
                None => None,
            }),
{
    let ghost om = crate::json::pairs_model(old(pairs)@);
    match v {
        Some(x) => {
            let ghost xv = x@;
            pairs.push((name.to_owned(), x));
            proof {
                assert(crate::json::pairs_model(pairs@) =~= om + seq![(name@, xv)]);
            }
        }
        None => {
            proof {
                assert(crate::json::pairs_model(pairs@) =~= om + Seq::<(Seq<char>, JsonV)>::empty());
            }
        }
    }
}

/// Writes one part as a document.
fn encode_part(p: &Part) -> (r: JsonValue)
    ensures
        r@ == enc_part(p@),
{
    match p {
        Part::Text { text } => {
            let mut pairs: Vec<(String, JsonValue)> = Vec::new();
            pairs.push(("text".to_owned(), JsonValue::String(text.clone())));
            let r = JsonValue::Object(pairs);
            proof {
                crate::json::lemma_object_model(r->Object_0);
                assert(crate::json::pairs_model(r->Object_0@)
                    =~= seq![("text"@, JsonV::Str(text@))]);
            }
            r
        }
        Part::FunctionCall { function_call } => {
            let mut inner: Vec<(String, JsonValue)> = Vec::new();
            inner.push(("name".to_owned(), JsonValue::String(function_call.name.clone())));
            inner.push(("args".to_owned(), function_call.args.clone()));
            let iv = JsonValue::Object(inner);
            proof {
                crate::json::lemma_object_model(iv->Object_0);
                assert(crate::json::pairs_model(iv->Object_0@) =~= seq![
                    ("name"@, JsonV::Str(function_call.name@)),
                    ("args"@, function_call.args@),
                ]);
            }
            let mut pairs: Vec<(String, JsonValue)> = Vec::new();
            pairs.push(("functionCall".to_owned(), iv));
            let r = JsonValue::Object(pairs);
            proof {
                crate::json::lemma_object_model(r->Object_0);
                assert(crate::json::pairs_model(r->Object_0@)
                    =~= enc_part(p@)->Obj_0);
                assert(r@ =~~= enc_part(p@));
            }
            r
        }
        Part::FunctionResponse { function_response } => {
            let mut inner: Vec<(String, JsonValue)> = Vec::new();
            inner.push(("name".to_owned(), JsonValue::String(function_response.name.clone())));
            proof {
                assert(crate::json::pairs_model(inner@)
                    =~= seq![("name"@, JsonV::Str(function_response.name@))]);
            }
            let resp = match &function_response.response {
                Some(v) => Some(v.clone()),
                None => None,
            };
            push_opt_entry(&mut inner, "response", resp);
            let iv = JsonValue::Object(inner);
            proof {
                crate::json::lemma_object_model(iv->Object_0);
            }
            let mut pairs: Vec<(String, JsonValue)> = Vec::new();
            pairs.push(("functionResponse".to_owned(), iv));
            let r = JsonValue::Object(pairs);
            proof {
                crate::json::lemma_object_model(r->Object_0);
                assert(crate::json::pairs_model(r->Object_0@)
                    =~= enc_part(p@)->Obj_0);
                assert(r@ =~~= enc_part(p@));
            }
            r
        }
    }
}

/// Writes every part of a list as a document.
#[verifier::loop_isolation(false)]
fn encode_parts(ps: &Vec<Part>) -> (r: Vec<JsonValue>)
    ensures
        crate::json::seq_model(r@) == enc_parts(crate::text::views_of(ps@)),
{
    let ghost pm = crate::text::views_of(ps@);
    let mut out: Vec<JsonValue> = Vec::new();
    let mut i: usize = 0;
    while i < ps.len()
        invariant
            i <= ps@.len(),
            out@.len() == i,
            forall|k: int| 0 <= k < i ==> crate::json::seq_model(out@)[k] == enc_part(pm[k]),
        decreases ps@.len() - i,
    {
        let ghost before = out@;
        let e = encode_part(&ps[i]);
        let ghost ev = e@;
        out.push(e);
        proof {
            assert(pm[i as int] == ps@[i as int]@);
            assert(out@[i as int]@ == ev);
            assert forall|k: int| 0 <= k < i + 1
                implies crate::json::seq_model(out@)[k] == enc_part(pm[k]) by {
                assert(crate::json::seq_model(out@)[k] == out@[k]@);
                if k < i {
                    assert(crate::json::seq_model(before)[k] == before[k]@);
                    assert(out@[k] == before[k]);
                }
            }
        }
        i += 1;
    }
    proof {
        assert(crate::json::seq_model(out@) =~= enc_parts(pm));
    }
    out
}

/// Writes a content item as a document.
fn encode_content(c: &Content) -> (r: JsonValue)
    ensures
        r@ == enc_content(c@),
{
    let parts = encode_parts(&c.parts);
    let mut pairs: Vec<(String, JsonValue)> = Vec::new();
    let pj = JsonValue::Array(parts);
    proof {
        crate::json::lemma_array_model(pj->Array_0);
    }
    pairs.push(("parts".to_owned(), pj));
    proof {
        assert(crate::json::pairs_model(pairs@)
            =~= seq![("parts"@, JsonV::Arr(enc_parts(c@.parts)))]);
    }
    let role = match c.role {
        Some(r) => Some(JsonValue::String(encode_role(r))),
        None => None,
    };
    push_opt_entry(&mut pairs, "role", role);
    let r = JsonValue::Object(pairs);
    proof {
        crate::json::lemma_object_model(r->Object_0);
        assert(r@ =~~= enc_content(c@));
    }
    r
}

/// The wire name of a role.
fn encode_role(r: Role) -> (s: String)
    ensures
        s@ == enc_role(r),
{
    match r {
        Role::User => "user".to_owned(),
        Role::Model => "model".to_owned(),
        Role::Function => "function".to_owned(),
        Role::System => "system".to_owned(),
    }
}

/// Writes every content item of a list as a document.
#[verifier::loop_isolation(false)]
fn encode_contents(cs: &Vec<Content>) -> (r: Vec<JsonValue>)
    ensures
        crate::json::seq_model(r@) == enc_contents(crate::text::views_of(cs@)),
{
    let ghost cm = crate::text::views_of(cs@);
    let mut out: Vec<JsonValue> = Vec::new();
    let mut i: usize = 0;
    while i < cs.len()
        invariant
            i <= cs@.len(),
            out@.len() == i,
            forall|k: int| 0 <= k < i ==> crate::json::seq_model(out@)[k] == enc_content(cm[k]),
        decreases cs@.len() - i,
    {
        let ghost before = out@;
        let e = encode_content(&cs[i]);
        let ghost ev = e@;
        out.push(e);
        proof {
            assert(cm[i as int] == cs@[i as int]@);
            assert(out@[i as int]@ == ev);
            assert forall|k: int| 0 <= k < i + 1
                implies crate::json::seq_model(out@)[k] == enc_content(cm[k]) by {
                assert(crate::json::seq_model(out@)[k] == out@[k]@);
                if k < i {
                    assert(crate::json::seq_model(before)[k] == before[k]@);
                    assert(out@[k] == before[k]);
                }
            }
        }
        i += 1;
    }
    proof {
        assert(crate::json::seq_model(out@) =~= enc_contents(cm));
    }
    out
}

/// Writes texts as string documents.
#[verifier::loop_isolation(false)]
fn encode_strings(ss: &Vec<String>) -> (r: Vec<JsonValue>)
    ensures
        crate::json::seq_model(r@) == strs_to_json(crate::text::views_of(ss@)),
{
    let ghost sm = crate::text::views_of(ss@);
    let mut out: Vec<JsonValue> = Vec::new();
    let mut i: usize = 0;
    while i < ss.len()
        invariant
            i <= ss@.len(),
            out@.len() == i,
            forall|k: int| 0 <= k < i ==> crate::json::seq_model(out@)[k] == JsonV::Str(sm[k]),
        decreases ss@.len() - i,
    {
        let ghost before = out@;
        out.push(JsonValue::String(ss[i].clone()));
        proof {
            assert(sm[i as int] == ss@[i as int]@);
            assert forall|k: int| 0 <= k < i + 1
                implies crate::json::seq_model(out@)[k] == JsonV::Str(sm[k]) by {
                assert(crate::json::seq_model(out@)[k] == out@[k]@);
                if k < i {
                    assert(crate::json::seq_model(before)[k] == before[k]@);
                    assert(out@[k] == before[k]);
                }
            }
        }
        i += 1;
    }
    proof {
        assert(crate::json::seq_model(out@) =~= strs_to_json(sm));
    }
    out
}

/// Writes the generation parameters as a document, leaving every unset
/// field out.
pub fn encode_generation_config(c: &crate::models::GenerationConfig) -> (r: JsonValue)
    ensures
        r@ == enc_config(c@),
{
    let mut pairs: Vec<(String, JsonValue)> = Vec::new();
    proof {
        assert(crate::json::pairs_model(pairs@) =~= Seq::<(Seq<char>, JsonV)>::empty());
    }
    let temperature = match &c.temperature {
        Some(n) => Some(JsonValue::Number(n.clone())),
        None => None,
    };
    push_opt_entry(&mut pairs, "temperature", temperature);
    let top_p = match &c.top_p {
        Some(n) => Some(JsonValue::Number(n.clone())),
        None => None,
    };
    push_opt_entry(&mut pairs, "top_p", top_p);
    let top_k = match c.top_k {
        Some(k) => Some(JsonValue::Number(crate::json::JsonNumber::from_i64(k as i64))),
        None => None,
    };
    push_opt_entry(&mut pairs, "top_k", top_k);
    let max_output_tokens = match c.max_output_tokens {
        Some(k) => Some(JsonValue::Number(crate::json::JsonNumber::from_i64(k as i64))),
        None => None,
    };
    push_opt_entry(&mut pairs, "max_output_tokens", max_output_tokens);
    let candidate_count = match c.candidate_count {
        Some(k) => Some(JsonValue::Number(crate::json::JsonNumber::from_i64(k as i64))),
        None => None,
    };
    push_opt_entry(&mut pairs, "candidate_count", candidate_count);
    let stop_sequences = match &c.stop_sequences {
        Some(ss) => {
            let sj = JsonValue::Array(encode_strings(ss));
            proof {
                crate::json::lemma_array_model(sj->Array_0);
            }
            Some(sj)
        }
        None => None,
    };
    push_opt_entry(&mut pairs, "stop_sequences", stop_sequences);
    let response_mime_type = match &c.response_mime_type {
        Some(s) => Some(JsonValue::String(s.clone())),
        None => None,
    };
    push_opt_entry(&mut pairs, "response_mime_type", response_mime_type);
    let response_schema = match &c.response_schema {
        Some(v) => Some(v.clone()),
        None => None,
    };
    push_opt_entry(&mut pairs, "response_schema", response_schema);
    let r = JsonValue::Object(pairs);
    proof {
        crate::json::lemma_object_model(r->Object_0);
        assert(Seq::<(Seq<char>, JsonV)>::empty() + opt_entry("temperature"@, onum(c@.temperature))
            =~= opt_entry("temperature"@, onum(c@.temperature)));
        assert(r@ =~~= enc_config(c@));
    }
    r
}

/// Reads a document as generation parameters, exactly as the decoding
/// spec says.
pub fn decode_generation_config(v: &JsonValue) -> (r: Option<crate::models::GenerationConfig>)
    ensures
        match r {
            Some(c) => dec_config(v@) == Some(c@),
            None => dec_config(v@) is None,
        },
{
    match v {
        JsonValue::Object(o) => {
            proof {
                crate::json::lemma_object_model(*o);
            }
            let temperature = match crate::json::obj_lookup(o, "temperature") {
                None => None,
                Some(JsonValue::Null) => None,
                Some(JsonValue::Number(n)) => Some(n.clone()),
                Some(_) => {
                    return None;
                }
            };
            let top_p = match crate::json::obj_lookup(o, "top_p") {
                None => None,
                Some(JsonValue::Null) => None,
                Some(JsonValue::Number(n)) => Some(n.clone()),
                Some(_) => {
                    return None;
                }
            };
            let top_k = match crate::json::obj_lookup(o, "top_k") {
                None => None,
                Some(JsonValue::Null) => None,
                Some(nv) => match dec_i32_x(nv) {
                    Some(x) => Some(x),
                    None => {
                        return None;
                    }
                },
            };
            let max_output_tokens = match crate::json::obj_lookup(o, "max_output_tokens") {
                None => None,
                Some(JsonValue::Null) => None,
                Some(nv) => match dec_i32_x(nv) {
                    Some(x) => Some(x),
                    None => {
                        return None;
                    }
                },
            };
            let candidate_count = match crate::json::obj_lookup(o, "candidate_count") {
                None => None,
                Some(JsonValue::Null) => None,
                Some(nv) => match dec_i32_x(nv) {
                    Some(x) => Some(x),
                    None => {
                        return None;
                    }
                },
            };
            let stop_sequences = match crate::json::obj_lookup(o, "stop_sequences") {
                None => None,
                Some(JsonValue::Null) => None,
                Some(JsonValue::Array(elems)) => {
                    proof {
                        crate::json::lemma_array_model(*elems);
                    }
                    match dec_strings_x(elems) {
                        Some(ss) => Some(ss),
                        None => {
                            return None;
                        }
                    }
                }
                Some(_) => {
                    return None;
                }
            };
            let response_mime_type = match crate::json::obj_lookup(o, "response_mime_type") {
                None => None,
                Some(JsonValue::Null) => None,
                Some(JsonValue::String(s)) => Some(s.clone()),
                Some(_) => {
                    return None;
                }
            };
            let response_schema = match crate::json::obj_lookup(o, "response_schema") {
                None => None,
                Some(JsonValue::Null) => None,
                Some(sv) => Some(sv.clone()),
            };
            let c = crate::models::GenerationConfig {
                temperature,
                top_p,
                top_k,
                max_output_tokens,
                candidate_count,
                stop_sequences,
                response_mime_type,
                response_schema,
            };
            proof {
                assert(dec_config(v@)->Some_0 =~~= c@);
            }
            Some(c)
        }
        _ => None,
    }
}

/// Reads every element of an array as a string.
#[verifier::loop_isolation(false)]
fn dec_strings_x(elems: &Vec<JsonValue>) -> (r: Option<Vec<String>>)
    ensures
        match r {
            Some(v) => dec_all(crate::json::seq_model(elems@), dec_str_f()) == Some(
                crate::text::views_of(v@),
            ),
            None => dec_all(crate::json::seq_model(elems@), dec_str_f()) is None,
        },
{
    let ghost em = crate::json::seq_model(elems@);
    let ghost f = dec_str_f();
    let mut out: Vec<String> = Vec::new();
    let mut i: usize = 0;
    proof {
        assert(em.take(0) =~= Seq::<JsonV>::empty());
        assert(crate::text::views_of(out@) =~= Seq::<Seq<char>>::empty());
    }
    while i < elems.len()
        invariant
            i <= elems@.len(),
            dec_all(em.take(i as int), f) == Some(crate::text::views_of(out@)),
        decreases elems@.len() - i,
    {
        proof {
            assert(em.take(i as int + 1).drop_last() =~= em.take(i as int));
            assert(em.take(i as int + 1).last() == em[i as int]);
            assert(em[i as int] == elems@[i as int]@);
        }
        match &elems[i] {
            JsonValue::String(s) => {
                let ghost om = crate::text::views_of(out@);
                out.push(s.clone());
                proof {
                    assert(crate::text::views_of(out@) =~= om.push(elems@[i as int]->String_0@));
                }
            }
            _ => {
                proof {
                    assert(dec_all(em.take(i as int + 1), f) is None);
                    lemma_dec_all_none_mono(em, f, i as int + 1, em.len() as int);
                    assert(em.take(em.len() as int) =~= em);
                }
                return None;
            }
        }
        i += 1;
    }
    proof {
        assert(em.take(elems@.len() as int) =~= em);
    }
    Some(out)
}

/// The wire name of a harm category.
fn encode_category(c: HarmCategory) -> (s: String)
    ensures
        s@ == enc_category(c),
{
    match c {
        HarmCategory::Dangerous => "DANGEROUS".to_owned(),
        HarmCategory::Harassment => "HARASSMENT".to_owned(),
        HarmCategory::HateSpeech => "HATE_SPEECH".to_owned(),
        HarmCategory::SexuallyExplicit => "SEXUALLY_EXPLICIT".to_owned(),
    }
}

/// The wire name of a harm-block threshold.
fn encode_threshold(t: HarmBlockThreshold) -> (s: String)
    ensures
        s@ == enc_threshold(t),
{
    match t {
        HarmBlockThreshold::BlockLowAndAbove => "BLOCK_LOW_AND_ABOVE".to_owned(),
        HarmBlockThreshold::BlockMediumAndAbove => "BLOCK_MEDIUM_AND_ABOVE".to_owned(),
        HarmBlockThreshold::BlockHighAndAbove => "BLOCK_HIGH_AND_ABOVE".to_owned(),
        HarmBlockThreshold::BlockOnlyHigh => "BLOCK_ONLY_HIGH".to_owned(),
        HarmBlockThreshold::BlockNone => "BLOCK_NONE".to_owned(),
    }
}

/// Writes one safety setting as a document.
fn encode_safety_setting(s: &crate::models::SafetySetting) -> (r: JsonValue)
    ensures
        r@ == enc_safety_setting(*s),
{
    let mut pairs: Vec<(String, JsonValue)> = Vec::new();
    pairs.push(("category".to_owned(), JsonValue::String(encode_category(s.category))));
    pairs.push(("threshold".to_owned(), JsonValue::String(encode_threshold(s.threshold))));
    let r = JsonValue::Object(pairs);
    proof {
        crate::json::lemma_object_model(r->Object_0);
        assert(crate::json::pairs_model(r->Object_0@) =~= enc_safety_setting(*s)->Obj_0);
        assert(r@ =~~= enc_safety_setting(*s));
    }
    r
}

/// Writes every safety setting of a list as a document.
#[verifier::loop_isolation(false)]
fn encode_safety_settings(ss: &Vec<crate::models::SafetySetting>) -> (r: Vec<JsonValue>)
    ensures
        crate::json::seq_model(r@) == enc_safety_settings(ss@),
{
    let mut out: Vec<JsonValue> = Vec::new();
    let mut i: usize = 0;
    while i < ss.len()
        invariant
            i <= ss@.len(),
            out@.len() == i,
            forall|k: int| 0 <= k < i ==> crate::json::seq_model(out@)[k]
                == enc_safety_setting(ss@[k]),
        decreases ss@.len() - i,
    {
        let ghost before = out@;
        let e = encode_safety_setting(&ss[i]);
        let ghost ev = e@;
        out.push(e);
        proof {
            assert(out@[i as int]@ == ev);
            assert forall|k: int| 0 <= k < i + 1
                implies crate::json::seq_model(out@)[k] == enc_safety_setting(ss@[k]) by {
                assert(crate::json::seq_model(out@)[k] == out@[k]@);
                if k < i {
                    assert(crate::json::seq_model(before)[k] == before[k]@);
                    assert(out@[k] == before[k]);
                }
            }
        }
        i += 1;
    }
    proof {
        assert(crate::json::seq_model(out@) =~= enc_safety_settings(ss@));
    }
    out
}

/// Writes one property's details as a document.
#[verifier::loop_isolation(false)]
fn encode_prop(p: &crate::tools::PropertyDetails) -> (r: JsonValue)
    ensures
        r@ == enc_prop(p@),
    decreases *p,
{
    let mut pairs: Vec<(String, JsonValue)> = Vec::new();
    pairs.push(("type".to_owned(), JsonValue::String(p.property_type.clone())));
    pairs.push(("description".to_owned(), JsonValue::String(p.description.clone())));
    proof {
        assert(crate::json::pairs_model(pairs@) =~= seq![
            ("type"@, JsonV::Str(p.property_type@)),
            ("description"@, JsonV::Str(p.description@)),
        ]);
    }
    let enum_values = match &p.enum_values {
        Some(vs) => {
            let vj = JsonValue::Array(encode_strings(vs));
            proof {
                crate::json::lemma_array_model(vj->Array_0);
            }
            Some(vj)
        }
        None => None,
    };
    push_opt_entry(&mut pairs, "enum", enum_values);
    let items = match &p.items {
        Some(b) => {
            proof {
                assert(decreases_to!(*p => p.items));
                assert(decreases_to!(p.items => p.items->0));
                assert(decreases_to!(*p => p.items->0));
            }
            Some(encode_prop(b))
        }
        None => None,
    };
    push_opt_entry(&mut pairs, "items", items);
    let r = JsonValue::Object(pairs);
    proof {
        crate::json::lemma_object_model(r->Object_0);
        assert(r@ =~~= enc_prop(p@));
    }
    r
}

/// Writes a schema's properties as an object's pairs.
#[verifier::loop_isolation(false)]
fn encode_prop_pairs(ps: &Vec<(String, crate::tools::PropertyDetails)>) -> (r: Vec<
    (String, JsonValue),
>)
    ensures
        crate::json::pairs_model(r@) == enc_prop_pairs(crate::tools::props_model(ps@)),
{
    let ghost pm = crate::tools::props_model(ps@);
    let mut out: Vec<(String, JsonValue)> = Vec::new();
    let mut i: usize = 0;
    while i < ps.len()
        invariant
            i <= ps@.len(),
            out@.len() == i,
            forall|k: int| 0 <= k < i ==> crate::json::pairs_model(out@)[k]
                == (pm[k].0, enc_prop(pm[k].1)),
        decreases ps@.len() - i,
    {
        let ghost before = out@;
        let name = ps[i].0.clone();
        let e = encode_prop(&ps[i].1);
        let ghost ev = e@;
        let ghost nv = name@;
        out.push((name, e));
        proof {
            assert(pm[i as int] == (ps@[i as int].0@, ps@[i as int].1@));
            assert(out@[i as int].1@ == ev);
            assert(out@[i as int].0@ == nv);
            assert forall|k: int| 0 <= k < i + 1
                implies crate::json::pairs_model(out@)[k] == (pm[k].0, enc_prop(pm[k].1)) by {
                assert(crate::json::pairs_model(out@)[k] == (out@[k].0@, out@[k].1@));
                if k < i {
                    assert(crate::json::pairs_model(before)[k] == (before[k].0@, before[k].1@));
                    assert(out@[k] == before[k]);
                }
            }
        }
        i += 1;
    }
    proof {
        assert(crate::json::pairs_model(out@) =~= enc_prop_pairs(pm));
    }
    out
}

/// Writes a parameter schema as a document.
fn encode_params(fp: &crate::tools::FunctionParameters) -> (r: JsonValue)
    ensures
        r@ == enc_params(fp@),
{
    let mut pairs: Vec<(String, JsonValue)> = Vec::new();
    pairs.push(("type".to_owned(), JsonValue::String(fp.param_type.clone())));
    proof {
        assert(crate::json::pairs_model(pairs@) =~= seq![("type"@, JsonV::Str(fp.param_type@))]);
    }
    let properties = match &fp.properties {
        Some(ps) => {
            let pj = JsonValue::Object(encode_prop_pairs(ps));
            proof {
                crate::json::lemma_object_model(pj->Object_0);
            }
            Some(pj)
        }
        None => None,
    };
    push_opt_entry(&mut pairs, "properties", properties);
    let required = match &fp.required {
        Some(rs) => {
            let rj = JsonValue::Array(encode_strings(rs));
            proof {
                crate::json::lemma_array_model(rj->Array_0);
            }
            Some(rj)
        }
        None => None,
    };
    push_opt_entry(&mut pairs, "required", required);
    let r = JsonValue::Object(pairs);
    proof {
        crate::json::lemma_object_model(r->Object_0);
        assert(r@ =~~= enc_params(fp@));
    }
    r
}

/// Writes one function declaration as a document.
fn encode_fn_decl(d: &crate::tools::FunctionDeclaration) -> (r: JsonValue)
    ensures
        r@ == enc_fn_decl(d@),
{
    let mut pairs: Vec<(String, JsonValue)> = Vec::new();
    pairs.push(("name".to_owned(), JsonValue::String(d.name.clone())));
    pairs.push(("description".to_owned(), JsonValue::String(d.description.clone())));
    pairs.push(("parameters".to_owned(), encode_params(&d.parameters)));
    let r = JsonValue::Object(pairs);
    proof {
        crate::json::lemma_object_model(r->Object_0);
        assert(crate::json::pairs_model(r->Object_0@) =~= enc_fn_decl(d@)->Obj_0);
        assert(r@ =~~= enc_fn_decl(d@));
    }
    r
}

/// Writes every function declaration of a list as a document.
#[verifier::loop_isolation(false)]
fn encode_fn_decls(ds: &Vec<crate::tools::FunctionDeclaration>) -> (r: Vec<JsonValue>)
    ensures
        crate::json::seq_model(r@) == enc_fn_decls(crate::tools::decls_model(ds@)),
{
    let ghost dm = crate::tools::decls_model(ds@);
    let mut out: Vec<JsonValue> = Vec::new();
    let mut i: usize = 0;
    while i < ds.len()
        invariant
            i <= ds@.len(),
            out@.len() == i,
            forall|k: int| 0 <= k < i ==> crate::json::seq_model(out@)[k] == enc_fn_decl(dm[k]),
        decreases ds@.len() - i,
    {
        let ghost before = out@;
        let e = encode_fn_decl(&ds[i]);
        let ghost ev = e@;
        out.push(e);
        proof {
            assert(dm[i as int] == ds@[i as int]@);
            assert(out@[i as int]@ == ev);
            assert forall|k: int| 0 <= k < i + 1
                implies crate::json::seq_model(out@)[k] == enc_fn_decl(dm[k]) by {
                assert(crate::json::seq_model(out@)[k] == out@[k]@);
                if k < i {
                    assert(crate::json::seq_model(before)[k] == before[k]@);
                    assert(out@[k] == before[k]);
                }
            }
        }
        i += 1;
    }
    proof {
        assert(crate::json::seq_model(out@) =~= enc_fn_decls(dm));
    }
    out
}

/// Writes one tool as a document.
fn encode_tool(t: &crate::tools::Tool) -> (r: JsonValue)
    ensures
        r@ == enc_tool(t@),
{
    match t {
        crate::tools::Tool::Function { function_declarations } => {
            let dj = JsonValue::Array(encode_fn_decls(function_declarations));
            proof {
                crate::json::lemma_array_model(dj->Array_0);
            }
            let mut pairs: Vec<(String, JsonValue)> = Vec::new();
            pairs.push(("function_declarations".to_owned(), dj));
            let r = JsonValue::Object(pairs);
            proof {
                crate::json::lemma_object_model(r->Object_0);
                assert(crate::json::pairs_model(r->Object_0@) =~= enc_tool(t@)->Obj_0);
                assert(r@ =~~= enc_tool(t@));
            }
            r
        }
        crate::tools::Tool::GoogleSearch { google_search } => {
            let inner = JsonValue::Object(Vec::new());
            proof {
                crate::json::lemma_object_model(inner->Object_0);
                assert(crate::json::pairs_model(Seq::<(String, JsonValue)>::empty())
                    =~= Seq::<(Seq<char>, JsonV)>::empty());
            }
            let mut pairs: Vec<(String, JsonValue)> = Vec::new();
            pairs.push(("google_search".to_owned(), inner));
            let r = JsonValue::Object(pairs);
            proof {
                crate::json::lemma_object_model(r->Object_0);
                assert(crate::json::pairs_model(r->Object_0@) =~= enc_tool(t@)->Obj_0);
                assert(r@ =~~= enc_tool(t@));
            }
            r
        }
    }
}

/// Writes every tool of a list as a document.
#[verifier::loop_isolation(false)]
fn encode_tools(ts: &Vec<crate::tools::Tool>) -> (r: Vec<JsonValue>)
    ensures
        crate::json::seq_model(r@) == enc_tools(crate::text::views_of(ts@)),
{
    let ghost tm = crate::text::views_of(ts@);
    let mut out: Vec<JsonValue> = Vec::new();
    let mut i: usize = 0;
    while i < ts.len()
        invariant
            i <= ts@.len(),
            out@.len() == i,
            forall|k: int| 0 <= k < i ==> crate::json::seq_model(out@)[k] == enc_tool(tm[k]),
        decreases ts@.len() - i,
    {
        let ghost before = out@;
        let e = encode_tool(&ts[i]);
        let ghost ev = e@;
        out.push(e);
        proof {
            assert(tm[i as int] == ts@[i as int]@);
            assert(out@[i as int]@ == ev);
            assert forall|k: int| 0 <= k < i + 1
                implies crate::json::seq_model(out@)[k] == enc_tool(tm[k]) by {
                assert(crate::json::seq_model(out@)[k] == out@[k]@);
                if k < i {
                    assert(crate::json::seq_model(before)[k] == before[k]@);
                    assert(out@[k] == before[k]);
                }
            }
        }
        i += 1;
    }
    proof {
        assert(crate::json::seq_model(out@) =~= enc_tools(tm));
    }
    out
}

/// Writes the tool configuration as a document.
fn encode_tool_config(tc: &crate::models::ToolConfig) -> (r: JsonValue)
    ensures
        r@ == enc_tool_config(*tc),
{
    let mut pairs: Vec<(String, JsonValue)> = Vec::new();
    proof {
        assert(crate::json::pairs_model(pairs@) =~= Seq::<(Seq<char>, JsonV)>::empty());
    }
    let fcc = match tc.function_calling_config {
        Some(cfg) => {
            let mode = match cfg.mode {
                FunctionCallingMode::Auto => "AUTO".to_owned(),
                FunctionCallingMode::Any => "ANY".to_owned(),
                FunctionCallingMode::Disabled => "NONE".to_owned(),
            };
            let mut inner: Vec<(String, JsonValue)> = Vec::new();
            inner.push(("mode".to_owned(), JsonValue::String(mode)));
            let iv = JsonValue::Object(inner);
            proof {
                crate::json::lemma_object_model(iv->Object_0);
                assert(crate::json::pairs_model(iv->Object_0@)
                    =~= seq![("mode"@, JsonV::Str(enc_mode(cfg.mode)))]);
            }
            Some(iv)
        }
        None => None,
    };
    push_opt_entry(&mut pairs, "function_calling_config", fcc);
    let r = JsonValue::Object(pairs);
    proof {
        crate::json::lemma_object_model(r->Object_0);
        assert(Seq::<(Seq<char>, JsonV)>::empty() + opt_entry(
            "function_calling_config"@,
            match tc.function_calling_config {
                Some(cfg) => Some(JsonV::Obj(seq![("mode"@, JsonV::Str(enc_mode(cfg.mode)))])),
                None => None,
            },
        ) =~= enc_tool_config(*tc)->Obj_0);
        assert(r@ =~~= enc_tool_config(*tc));
    }
    r
}

/// Writes a whole request as a document, exactly as the encoding spec
/// says: the contents, then each optional section where set, with every
/// unset section left out of the wire form.
pub fn encode_request(req: &crate::models::GenerateContentRequest) -> (r: JsonValue)
    ensures
        r@ == enc_request(req@),
{
    let mut pairs: Vec<(String, JsonValue)> = Vec::new();
    let cj = JsonValue::Array(encode_contents(&req.contents));
    proof {
        crate::json::lemma_array_model(cj->Array_0);
    }
    pairs.push(("contents".to_owned(), cj));
    proof {
        assert(crate::json::pairs_model(pairs@)
            =~= seq![("contents"@, JsonV::Arr(enc_contents(req@.contents)))]);
    }
    let generation_config = match &req.generation_config {
        Some(c) => Some(encode_generation_config(c)),
        None => None,
    };
    push_opt_entry(&mut pairs, "generation_config", generation_config);
    let safety_settings = match &req.safety_settings {
        Some(ss) => {
            let sj = JsonValue::Array(encode_safety_settings(ss));
            proof {
                crate::json::lemma_array_model(sj->Array_0);
            }
            Some(sj)
        }
        None => None,
    };
    push_opt_entry(&mut pairs, "safety_settings", safety_settings);
    let tools = match &req.tools {
        Some(ts) => {
            let tj = JsonValue::Array(encode_tools(ts));
            proof {
                crate::json::lemma_array_model(tj->Array_0);
            }
            Some(tj)
        }
        None => None,
    };
    push_opt_entry(&mut pairs, "tools", tools);
    let tool_config = match &req.tool_config {
        Some(tc) => Some(encode_tool_config(tc)),
        None => None,
    };
    push_opt_entry(&mut pairs, "tool_config", tool_config);
    let system_instruction = match &req.system_instruction {
        Some(c) => Some(encode_content(c)),
        None => None,
    };
    push_opt_entry(&mut pairs, "system_instruction", system_instruction);
    let r = JsonValue::Object(pairs);
    proof {
        crate::json::lemma_object_model(r->Object_0);
        assert(r@ =~~= enc_request(req@));
    }
    r
}

/// Reads a role from its wire name.
fn role_from_text(t: &str) -> (r: Option<Role>)
    ensures
        r == dec_role(t@),
{
    if crate::text::str_eq(t, "user") {
        Some(Role::User)
    } else if crate::text::str_eq(t, "model") {
        Some(Role::Model)
    } else if crate::text::str_eq(t, "function") {
        Some(Role::Function)
    } else if crate::text::str_eq(t, "system") {
        Some(Role::System)
    } else {
        None
    }
}

/// Reads a document as an integer that fits in an `i32`.
fn dec_i32_x(v: &JsonValue) -> (r: Option<i32>)
    ensures
        r == dec_i32(v@),
{
    match v {
        JsonValue::Number(n) => match crate::json::num_text_as_i64(n.text.as_str()) {
            Some(x) => {
                if -2147483648i64 <= x && x <= 2147483647i64 {
                    Some(x as i32)
                } else {
                    None
                }
            }
            None => None,
        },
        _ => None,
    }
}

/// Reads a document as one part.
fn dec_part_x(v: &JsonValue) -> (r: Option<Part>)
    ensures
        match r {
            Some(p) => dec_part(v@) == Some(p@),
            None => dec_part(v@) is None,
        },
{
    match v {
        JsonValue::Object(o) => {
            proof {
                crate::json::lemma_object_model(*o);
            }
            match crate::json::obj_lookup(o, "text") {
                Some(JsonValue::String(t)) => {
                    return Some(Part::Text { text: t.clone() });
                }
                _ => {}
            }
            match crate::json::obj_lookup(o, "functionCall") {
                Some(JsonValue::Object(fc)) => {
                    proof {
                        crate::json::lemma_object_model(*fc);
                    }
                    let name = match crate::json::obj_lookup(fc, "name") {
                        Some(JsonValue::String(n)) => n.clone(),
                        _ => {
                            return None;
                        }
                    };
                    let args = match crate::json::obj_lookup(fc, "args") {
                        Some(a) => a.clone(),
                        None => {
                            return None;
                        }
                    };
                    return Some(
                        Part::FunctionCall { function_call: FunctionCall { name, args } },
                    );
                }
                _ => {}
            }
            match crate::json::obj_lookup(o, "functionResponse") {
                Some(JsonValue::Object(fr)) => {
                    proof {
                        crate::json::lemma_object_model(*fr);
                    }
                    let name = match crate::json::obj_lookup(fr, "name") {
                        Some(JsonValue::String(n)) => n.clone(),
                        _ => {
                            return None;
                        }
                    };
                    let response = match crate::json::obj_lookup(fr, "response") {
                        Some(JsonValue::Null) => None,
                        Some(rv) => Some(rv.clone()),
                        None => None,
                    };
                    return Some(
                        Part::FunctionResponse {
                            function_response: FunctionResponse { name, response },
                        },
                    );
                }
                _ => {}
            }
            None
        }
        _ => None,
    }
}

/// Reads every element of an array as a part.
#[verifier::loop_isolation(false)]
fn dec_parts_x(elems: &Vec<JsonValue>) -> (r: Option<Vec<Part>>)
    ensures
        match r {
            Some(v) => dec_all(crate::json::seq_model(elems@), dec_part_f()) == Some(
                crate::text::views_of(v@),
            ),
            None => dec_all(crate::json::seq_model(elems@), dec_part_f()) is None,
        },
{
    let ghost em = crate::json::seq_model(elems@);
    let ghost f = dec_part_f();
    let mut out: Vec<Part> = Vec::new();
    let mut i: usize = 0;
    proof {
        assert(em.take(0) =~= Seq::<JsonV>::empty());
        assert(crate::text::views_of(out@) =~= Seq::<PartView>::empty());
    }
    while i < elems.len()
        invariant
            i <= elems@.len(),
            dec_all(em.take(i as int), f) == Some(crate::text::views_of(out@)),
        decreases elems@.len() - i,
    {
        proof {
            assert(em.take(i as int + 1).drop_last() =~= em.take(i as int));
            assert(em.take(i as int + 1).last() == em[i as int]);
            assert(em[i as int] == elems@[i as int]@);
        }
        match dec_part_x(&elems[i]) {
            Some(p) => {
                let ghost om = crate::text::views_of(out@);
                out.push(p);
                proof {
                    assert(crate::text::views_of(out@) =~= om.push(p@));
                }
            }
            None => {
                proof {
                    assert(dec_all(em.take(i as int + 1), f) is None);
                    lemma_dec_all_none_mono(em, f, i as int + 1, em.len() as int);
                    assert(em.take(em.len() as int) =~= em);
                }
                return None;
            }
        }
        i += 1;
    }
    proof {
        assert(em.take(elems@.len() as int) =~= em);
    }
    Some(out)
}

/// Reads a document as a content item.
fn dec_content_x(v: &JsonValue) -> (r: Option<Content>)
    ensures
        match r {
            Some(c) => dec_content(v@) == Some(c@),
            None => dec_content(v@) is None,
        },
{
    match v {
        JsonValue::Object(o) => {
            proof {
                crate::json::lemma_object_model(*o);
            }
            let parts = match crate::json::obj_lookup(o, "parts") {
                Some(JsonValue::Array(elems)) => {
                    proof {
                        crate::json::lemma_array_model(*elems);
                    }
                    match dec_parts_x(elems) {
                        Some(ps) => ps,
                        None => {
                            return None;
                        }
                    }
                }
                _ => {
                    return None;
                }
            };
            let role = match crate::json::obj_lookup(o, "role") {
                None => None,
                Some(JsonValue::Null) => None,
                Some(JsonValue::String(t)) => match role_from_text(t.as_str()) {
                    Some(role) => Some(role),
                    None => {
                        return None;
                    }
                },
                Some(_) => {
                    return None;
                }
            };
            let c = Content { parts, role };
            proof {
                assert(dec_content(v@)->Some_0 =~~= c@);
            }
            Some(c)
        }
        _ => None,
    }
}

/// Reads a document as a safety rating.
fn dec_safety_rating_x(v: &JsonValue) -> (r: Option<SafetyRating>)
    ensures
        match r {
            Some(s) => dec_safety_rating(v@) == Some(s@),
            None => dec_safety_rating(v@) is None,
        },
{
    match v {
        JsonValue::Object(o) => {
            proof {
                crate::json::lemma_object_model(*o);
            }
            let category = match crate::json::obj_lookup(o, "category") {
                Some(JsonValue::String(c)) => c.clone(),
                _ => {
                    return None;
                }
            };
            let probability = match crate::json::obj_lookup(o, "probability") {
                Some(JsonValue::String(p)) => p.clone(),
                _ => {
                    return None;
                }
            };
            Some(SafetyRating { category, probability })
        }
        _ => None,
    }
}

/// Reads every element of an array as a safety rating.
#[verifier::loop_isolation(false)]
fn dec_ratings_x(elems: &Vec<JsonValue>) -> (r: Option<Vec<SafetyRating>>)
    ensures
        match r {
            Some(v) => dec_all(crate::json::seq_model(elems@), dec_safety_rating_f()) == Some(
                crate::text::views_of(v@),
            ),
            None => dec_all(crate::json::seq_model(elems@), dec_safety_rating_f()) is None,
        },
{
    let ghost em = crate::json::seq_model(elems@);
    let ghost f = dec_safety_rating_f();
    let mut out: Vec<SafetyRating> = Vec::new();
    let mut i: usize = 0;
    proof {
        assert(em.take(0) =~= Seq::<JsonV>::empty());
        assert(crate::text::views_of(out@) =~= Seq::<SafetyRatingView>::empty());
    }
    while i < elems.len()
        invariant
            i <= elems@.len(),
            dec_all(em.take(i as int), f) == Some(crate::text::views_of(out@)),
        decreases elems@.len() - i,
    {
        proof {
            assert(em.take(i as int + 1).drop_last() =~= em.take(i as int));
            assert(em.take(i as int + 1).last() == em[i as int]);
            assert(em[i as int] == elems@[i as int]@);
        }
        match dec_safety_rating_x(&elems[i]) {
            Some(p) => {
                let ghost om = crate::text::views_of(out@);
                out.push(p);
                proof {
                    assert(crate::text::views_of(out@) =~= om.push(p@));
                }
            }
            None => {
                proof {
                    assert(dec_all(em.take(i as int + 1), f) is None);
                    lemma_dec_all_none_mono(em, f, i as int + 1, em.len() as int);
                    assert(em.take(em.len() as int) =~= em);
                }
                return None;
            }
        }
        i += 1;
    }
    proof {
        assert(em.take(elems@.len() as int) =~= em);
    }
    Some(out)
}

/// Reads a document as a citation source.
fn dec_citation_source_x(v: &JsonValue) -> (r: Option<CitationSource>)
    ensures
        match r {
            Some(s) => dec_citation_source(v@) == Some(s@),
            None => dec_citation_source(v@) is None,
        },
{
    match v {
        JsonValue::Object(o) => {
            proof {
                crate::json::lemma_object_model(*o);
            }
            let uri = match crate::json::obj_lookup(o, "uri") {
                None => None,
                Some(JsonValue::Null) => None,
                Some(JsonValue::String(s)) => Some(s.clone()),
                Some(_) => {
                    return None;
                }
            };
            let title = match crate::json::obj_lookup(o, "title") {
                None => None,
                Some(JsonValue::Null) => None,
                Some(JsonValue::String(s)) => Some(s.clone()),
                Some(_) => {
                    return None;
                }
            };
            let start_index = match crate::json::obj_lookup(o, "start_index") {
                None => None,
                Some(JsonValue::Null) => None,
                Some(nv) => match dec_i32_x(nv) {
                    Some(x) => Some(x),
                    None => {
                        return None;
                    }
                },
            };
            let end_index = match crate::json::obj_lookup(o, "end_index") {
                None => None,
                Some(JsonValue::Null) => None,
                Some(nv) => match dec_i32_x(nv) {
                    Some(x) => Some(x),
                    None => {
                        return None;
                    }
                },
            };
            let license = match crate::json::obj_lookup(o, "license") {
                None => None,
                Some(JsonValue::Null) => None,
                Some(JsonValue::String(s)) => Some(s.clone()),
                Some(_) => {
                    return None;
                }
            };
            let publication_date = match crate::json::obj_lookup(o, "publication_date") {
                None => None,
                Some(JsonValue::Null) => None,
                Some(JsonValue::String(s)) => Some(s.clone()),
                Some(_) => {
                    return None;
                }
            };
            let c = CitationSource {
                uri,
                title,
                start_index,
                end_index,
                license,
                publication_date,
            };
            proof {
                assert(dec_citation_source(v@)->Some_0 =~~= c@);
            }
            Some(c)
        }
        _ => None,
    }
}

/// Reads every element of an array as a citation source.
#[verifier::loop_isolation(false)]
fn dec_sources_x(elems: &Vec<JsonValue>) -> (r: Option<Vec<CitationSource>>)
    ensures
        match r {
            Some(v) => dec_all(crate::json::seq_model(elems@), dec_citation_source_f()) == Some(
                crate::text::views_of(v@),
            ),
            None => dec_all(crate::json::seq_model(elems@), dec_citation_source_f()) is None,
        },
{
    let ghost em = crate::json::seq_model(elems@);
    let ghost f = dec_citation_source_f();
    let mut out: Vec<CitationSource> = Vec::new();
    let mut i: usize = 0;
    proof {
        assert(em.take(0) =~= Seq::<JsonV>::empty());
        assert(crate::text::views_of(out@) =~= Seq::<CitationSourceView>::empty());
    }
    while i < elems.len()
        invariant
            i <= elems@.len(),
            dec_all(em.take(i as int), f) == Some(crate::text::views_of(out@)),
        decreases elems@.len() - i,
    {
        proof {
            assert(em.take(i as int + 1).drop_last() =~= em.take(i as int));
            assert(em.take(i as int + 1).last() == em[i as int]);
            assert(em[i as int] == elems@[i as int]@);
        }
        match dec_citation_source_x(&elems[i]) {
            Some(p) => {
                let ghost om = crate::text::views_of(out@);
                out.push(p);
                proof {
                    assert(crate::text::views_of(out@) =~= om.push(p@));
                }
            }
            None => {
                proof {
                    assert(dec_all(em.take(i as int + 1), f) is None);
                    lemma_dec_all_none_mono(em, f, i as int + 1, em.len() as int);
                    assert(em.take(em.len() as int) =~= em);
                }
                return None;
            }
        }
        i += 1;
    }
    proof {
        assert(em.take(elems@.len() as int) =~= em);
    }
    Some(out)
}

/// Reads a document as citation metadata.
fn dec_citation_metadata_x(v: &JsonValue) -> (r: Option<CitationMetadata>)
    ensures
        match r {
            Some(m) => dec_citation_metadata(v@) == Some(m@),
            None => dec_citation_metadata(v@) is None,
        },
{
    match v {
        JsonValue::Object(o) => {
            proof {
                crate::json::lemma_object_model(*o);
            }
            match crate::json::obj_lookup(o, "citation_sources") {
                Some(JsonValue::Array(elems)) => {
                    proof {
                        crate::json::lemma_array_model(*elems);
                    }
                    match dec_sources_x(elems) {
                        Some(cs) => {
                            let m = CitationMetadata { citation_sources: cs };
                            proof {
                                assert(dec_citation_metadata(v@)->Some_0 =~~= m@);
                            }
                            Some(m)
                        }
                        None => None,
                    }
                }
                _ => None,
            }
        }
        _ => None,
    }
}

/// Reads a document as usage metadata.
fn dec_usage_x(v: &JsonValue) -> (r: Option<UsageMetadata>)
    ensures
        r == dec_usage(v@),
{
    match v {
        JsonValue::Object(o) => {
            proof {
                crate::json::lemma_object_model(*o);
            }
            let p = match crate::json::obj_lookup(o, "prompt_token_count") {
                Some(nv) => match dec_i32_x(nv) {
                    Some(x) => x,
                    None => {
                        return None;
                    }
                },
                None => {
                    return None;
                }
            };
            let c = match crate::json::obj_lookup(o, "candidates_token_count") {
                Some(nv) => match dec_i32_x(nv) {
                    Some(x) => x,
                    None => {
                        return None;
                    }
                },
                None => {
                    return None;
                }
            };
            let t = match crate::json::obj_lookup(o, "total_token_count") {
                Some(nv) => match dec_i32_x(nv) {
                    Some(x) => x,
                    None => {
                        return None;
                    }
                },
                None => {
                    return None;
                }
            };
            Some(
                UsageMetadata {
                    prompt_token_count: p,
                    candidates_token_count: c,
                    total_token_count: t,
                },
            )
        }
        _ => None,
    }
}

/// Reads a document as one candidate.
fn dec_candidate_x(v: &JsonValue) -> (r: Option<Candidate>)
    ensures
        match r {
            Some(c) => dec_candidate(v@) == Some(c@),
            None => dec_candidate(v@) is None,
        },
{
    match v {
        JsonValue::Object(o) => {
            proof {
                crate::json::lemma_object_model(*o);
            }
            let content = match crate::json::obj_lookup(o, "content") {
                Some(cj) => match dec_content_x(cj) {
                    Some(c) => c,
                    None => {
                        return None;
                    }
                },
                None => {
                    return None;
                }
            };
            let safety_ratings = match crate::json::obj_lookup(o, "safety_ratings") {
                None => None,
                Some(JsonValue::Null) => None,
                Some(JsonValue::Array(elems)) => {
                    proof {
                        crate::json::lemma_array_model(*elems);
                    }
                    match dec_ratings_x(elems) {
                        Some(rs) => Some(rs),
                        None => {
                            return None;
                        }
                    }
                }
                Some(_) => {
                    return None;
                }
            };
            let citation_metadata = match crate::json::obj_lookup(o, "citation_metadata") {
                None => None,
                Some(JsonValue::Null) => None,
                Some(cm) => match dec_citation_metadata_x(cm) {
                    Some(m) => Some(m),
                    None => {
                        return None;
                    }
                },
            };
            let finish_reason = match crate::json::obj_lookup(o, "finish_reason") {
                None => None,
                Some(JsonValue::Null) => None,
                Some(JsonValue::String(s)) => Some(s.clone()),
                Some(_) => {
                    return None;
                }
            };
            let usage_metadata = match crate::json::obj_lookup(o, "usage_metadata") {
                None => None,
                Some(JsonValue::Null) => None,
                Some(um) => match dec_usage_x(um) {
                    Some(m) => Some(m),
                    None => {
                        return None;
                    }
                },
            };
            let c = Candidate {
                content,
                safety_ratings,
                citation_metadata,
                finish_reason,
                usage_metadata,
            };
            proof {
                assert(dec_candidate(v@)->Some_0 =~~= c@);
            }
            Some(c)
        }
        _ => None,
    }
}

/// Reads every element of an array as a candidate.
#[verifier::loop_isolation(false)]
fn dec_candidates_x(elems: &Vec<JsonValue>) -> (r: Option<Vec<Candidate>>)
    ensures
        match r {
            Some(v) => dec_all(crate::json::seq_model(elems@), dec_candidate_f()) == Some(
                crate::text::views_of(v@),
            ),
            None => dec_all(crate::json::seq_model(elems@), dec_candidate_f()) is None,
        },
{
    let ghost em = crate::json::seq_model(elems@);
    let ghost f = dec_candidate_f();
    let mut out: Vec<Candidate> = Vec::new();
    let mut i: usize = 0;
    proof {
        assert(em.take(0) =~= Seq::<JsonV>::empty());
        assert(crate::text::views_of(out@) =~= Seq::<CandidateView>::empty());
    }
    while i < elems.len()
        invariant
            i <= elems@.len(),
            dec_all(em.take(i as int), f) == Some(crate::text::views_of(out@)),
        decreases elems@.len() - i,
    {
        proof {
            assert(em.take(i as int + 1).drop_last() =~= em.take(i as int));
            assert(em.take(i as int + 1).last() == em[i as int]);
            assert(em[i as int] == elems@[i as int]@);
        }
        match dec_candidate_x(&elems[i]) {
            Some(p) => {
                let ghost om = crate::text::views_of(out@);
                out.push(p);
                proof {
                    assert(crate::text::views_of(out@) =~= om.push(p@));
                }
            }
            None => {
                proof {
                    assert(dec_all(em.take(i as int + 1), f) is None);
                    lemma_dec_all_none_mono(em, f, i as int + 1, em.len() as int);
                    assert(em.take(em.len() as int) =~= em);
                }
                return None;
            }
        }
        i += 1;
    }
    proof {
        assert(em.take(elems@.len() as int) =~= em);
    }
    Some(out)
}

/// Reads a document as prompt feedback.
fn dec_prompt_feedback_x(v: &JsonValue) -> (r: Option<PromptFeedback>)
    ensures
        match r {
            Some(f) => dec_prompt_feedback(v@) == Some(f@),
            None => dec_prompt_feedback(v@) is None,
        },
{
    match v {
        JsonValue::Object(o) => {
            proof {
                crate::json::lemma_object_model(*o);
            }
            match crate::json::obj_lookup(o, "safety_ratings") {
                Some(JsonValue::Array(elems)) => {
                    proof {
                        crate::json::lemma_array_model(*elems);
                    }
                    match dec_ratings_x(elems) {
                        Some(sr) => {
                            let block_reason = match crate::json::obj_lookup(o, "block_reason") {
                                None => None,
                                Some(JsonValue::Null) => None,
                                Some(JsonValue::String(s)) => Some(s.clone()),
                                Some(_) => {
                                    return None;
                                }
                            };
                            let f = PromptFeedback { safety_ratings: sr, block_reason };
                            proof {
                                assert(dec_prompt_feedback(v@)->Some_0 =~~= f@);
                            }
                            Some(f)
                        }
                        None => None,
                    }
                }
                _ => None,
            }
        }
        _ => None,
    }
}

/// Reads a document as a whole generation response, exactly as the
/// decoding spec says: required candidates, optional prompt feedback
/// and usage, unknown names passed over.
pub fn decode_response(v: &JsonValue) -> (r: Option<GenerationResponse>)
    ensures
        match r {
            Some(g) => dec_response(v@) == Some(g@),
            None => dec_response(v@) is None,
        },
{
    match v {
        JsonValue::Object(o) => {
            proof {
                crate::json::lemma_object_model(*o);
            }
            match crate::json::obj_lookup(o, "candidates") {
                Some(JsonValue::Array(elems)) => {
                    proof {
                        crate::json::lemma_array_model(*elems);
                    }
                    match dec_candidates_x(elems) {
                        Some(cands) => {
                            let prompt_feedback = match crate::json::obj_lookup(
                                o,
                                "prompt_feedback",
                            ) {
                                None => None,
                                Some(JsonValue::Null) => None,
                                Some(pf) => match dec_prompt_feedback_x(pf) {
                                    Some(f) => Some(f),
                                    None => {
                                        return None;
                                    }
                                },
                            };
                            let usage_metadata = match crate::json::obj_lookup(o, "usage_metadata") {
                                None => None,
                                Some(JsonValue::Null) => None,
                                Some(um) => match dec_usage_x(um) {
                                    Some(m) => Some(m),
                                    None => {
                                        return None;
                                    }
                                },
                            };
                            let g = GenerationResponse {
                                candidates: cands,
                                prompt_feedback,
                                usage_metadata,
                            };
                            proof {
                                assert(dec_response(v@)->Some_0 =~~= g@);
                            }
                            Some(g)
                        }
                        None => None,
                    }
                }
                _ => None,
            }
        }
        _ => None,
    }
}

} // verus!
