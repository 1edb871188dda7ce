//! Tools and the function-call schema bridge.
//!
//! A caller declares a function's callable signature in a small schema
//! dialect ([`FunctionParameters`], [`PropertyDetails`]); an ad-hoc
//! JSON-Schema-shaped document can be converted into the same dialect
//! with [`value_to_function_parameters`]; and a named argument can be
//! pulled out of a model-issued [`FunctionCall`] as a typed value.

use vstd::prelude::*;

use crate::error::{Error, ErrorV};
use crate::json::{obj_get, num_as_i64, JsonV, JsonValue};
use crate::text::{push_str_chars, str_eq, string_from_chars};

verus! {

/// A tool the model can use: either a set of callable functions, or the
/// built-in search tool.
#[derive(Debug)]
pub enum Tool {
    /// A function-based tool.
    Function {
        /// The function declarations for the tool.
        function_declarations: Vec<FunctionDeclaration>,
    },
    /// The built-in search tool.
    GoogleSearch {
        /// The search tool's (empty) configuration.
        google_search: GoogleSearchConfig,
    },
}

/// The empty configuration of the built-in search tool.
#[derive(Debug, Clone, Copy, PartialEq, Eq, Structural)]
pub struct GoogleSearchConfig {}

/// The ghost model of a tool.
pub enum ToolView {
    /// A function-based tool: the declarations it carries.
    Function(Seq<FunctionDeclarationView>),
    /// The built-in search tool.
    GoogleSearch,
}

/// A declaration of one callable function.
#[derive(Debug)]
pub struct FunctionDeclaration {
    /// The function's name.
    pub name: String,
    /// The function's description.
    pub description: String,
    /// The function's parameter schema.
    pub parameters: FunctionParameters,
}

/// The ghost model of a function declaration.
#[verifier::ext_equal]
pub struct FunctionDeclarationView {
    /// The function's name.
    pub name: Seq<char>,
    /// The function's description.
    pub description: Seq<char>,
    /// The function's parameter schema.
    pub parameters: FunctionParametersView,
}

/// A parameter schema: a type tag, named properties, and the names that
/// are required.
#[derive(Debug)]
pub struct FunctionParameters {
    /// The type tag, uppercased.
    pub param_type: String,
    /// The properties, each under its name.  A name occurs at most once
    /// when the schema is built with the constructors of this crate.
    pub properties: Option<Vec<(String, PropertyDetails)>>,
    /// The names of the required properties, in the order they were
    /// declared required.
    pub required: Option<Vec<String>>,
}

/// The ghost model of a parameter schema.
#[verifier::ext_equal]
pub struct FunctionParametersView {
    /// The type tag.
    pub param_type: Seq<char>,
    /// The properties, each under its name.
    pub properties: Option<Seq<(Seq<char>, PropertyDetailsView)>>,
    /// The required names.
    pub required: Option<Seq<Seq<char>>>,
}

/// The details of one property in a schema.
#[derive(Debug)]
pub struct PropertyDetails {
    /// The type tag, uppercased.
    pub property_type: String,
    /// A human-readable description.
    pub description: String,
    /// The permitted string values, where the property is an enumeration.
    pub enum_values: Option<Vec<String>>,
    /// The item schema, where the property is an array.
    pub items: Option<Box<PropertyDetails>>,
}

/// The ghost model of a property's details.
#[verifier::ext_equal]
pub struct PropertyDetailsView {
    /// The type tag.
    pub property_type: Seq<char>,
    /// The description.
    pub description: Seq<char>,
    /// The permitted string values, where the property is an enumeration.
    pub enum_values: Option<Seq<Seq<char>>>,
    /// The item schema, where the property is an array.
    pub items: Option<Box<PropertyDetailsView>>,
}

/// The models of the strings in a sequence.
pub open spec fn strs_model(v: Seq<String>) -> Seq<Seq<char>> {
    Seq::new(v.len(), |i: int| v[i]@)
}

/// The ghost model of a property's details.
pub open spec fn prop_model(p: PropertyDetails) -> PropertyDetailsView
    decreases p,
{
    PropertyDetailsView {
        property_type: p.property_type@,
        description: p.description@,
        enum_values: match p.enum_values {
            Some(v) => Some(strs_model(v@)),
            None => None,
        },
        items: match p.items {
            Some(b) => {
                proof {
                    assert(decreases_to!(p => p.items));
                    assert(decreases_to!(p.items => p.items->0));
                    assert(decreases_to!(p => p.items->0));
                }
                Some(Box::new(prop_model(*b)))
            }
            None => None,
        },
    }
}

impl View for PropertyDetails {
    type V = PropertyDetailsView;

    open spec fn view(&self) -> PropertyDetailsView {
        prop_model(*self)
    }
}

/// The models of the properties in a pair list.
pub open spec fn props_model(v: Seq<(String, PropertyDetails)>) -> Seq<
    (Seq<char>, PropertyDetailsView),
> {
    Seq::new(v.len(), |i: int| (v[i].0@, v[i].1@))
}

impl View for FunctionParameters {
    type V = FunctionParametersView;

    open spec fn view(&self) -> FunctionParametersView {
        FunctionParametersView {
            param_type: self.param_type@,
            properties: match self.properties {
                Some(v) => Some(props_model(v@)),
                None => None,
            },
            required: match self.required {
                Some(v) => Some(strs_model(v@)),
                None => None,
            },
        }
    }
}

impl View for FunctionDeclaration {
    type V = FunctionDeclarationView;

    open spec fn view(&self) -> FunctionDeclarationView {
        FunctionDeclarationView {
            name: self.name@,
            description: self.description@,
            parameters: self.parameters@,
        }
    }
}

/// The models of the declarations in a sequence.
pub open spec fn decls_model(v: Seq<FunctionDeclaration>) -> Seq<FunctionDeclarationView> {
    Seq::new(v.len(), |i: int| v[i]@)
}

impl View for Tool {
    type V = ToolView;

    open spec fn view(&self) -> ToolView {
        match self {
            Tool::Function { function_declarations } => ToolView::Function(
                decls_model(function_declarations@),
            ),
            Tool::GoogleSearch { google_search } => ToolView::GoogleSearch,
        }
    }
}

impl Tool {
    /// A tool with a single function declaration.
    pub fn new(function_declaration: FunctionDeclaration) -> (r: Tool)
        ensures
            r@ == ToolView::Function(seq![function_declaration@]),
    {
        let ghost dv = function_declaration@;
        let mut ds: Vec<FunctionDeclaration> = Vec::new();
        ds.push(function_declaration);
        let r = Tool::Function { function_declarations: ds };
        proof {
            assert(decls_model(ds@) =~= seq![dv]);
        }
        r
    }

    /// A tool with several function declarations, in the given order.
    pub fn with_functions(function_declarations: Vec<FunctionDeclaration>) -> (r: Tool)
        ensures
            r@ == ToolView::Function(decls_model(function_declarations@)),
    {
        Tool::Function { function_declarations }
    }

    /// The built-in search tool.
    pub fn google_search() -> (r: Tool)
        ensures
            r@ == ToolView::GoogleSearch,
    {
        Tool::GoogleSearch { google_search: GoogleSearchConfig {  } }
    }
}

impl FunctionDeclaration {
    /// A declaration from a name, a description and a parameter schema.
    pub fn new(name: &str, description: &str, parameters: FunctionParameters) -> (r:
        FunctionDeclaration)
        ensures
            r@ == (FunctionDeclarationView {
                name: name@,
                description: description@,
                parameters: parameters@,
            }),
    {
        FunctionDeclaration {
            name: name.to_owned(),
            description: description.to_owned(),
            parameters,
        }
    }
}

/// The position of the first pair bound to a name, or a negative value
/// where none is.
pub open spec fn first_key_index(
    ps: Seq<(Seq<char>, PropertyDetailsView)>,
    key: Seq<char>,
) -> int
    decreases ps.len(),
{
    if ps.len() == 0 {
        -1
    } else if ps[0].0 == key {
        0
    } else {
        let r = first_key_index(ps.drop_first(), key);
        if r < 0 {
            -1
        } else {
            r + 1
        }
    }
}

/// What recording a property under a name yields: the first pair bound
/// to the name is replaced where one is, and the pair is appended where
/// none is.
pub open spec fn record_prop(
    ps: Seq<(Seq<char>, PropertyDetailsView)>,
    key: Seq<char>,
    v: PropertyDetailsView,
) -> Seq<(Seq<char>, PropertyDetailsView)> {
    let i = first_key_index(ps, key);
    if i < 0 {
        ps.push((key, v))
    } else {
        ps.update(i, (key, v))
    }
}

/// A scan that has passed `j` pairs without a match settles what the
/// first match is: the pair at `j` where it matches, and none where the
/// scan has reached the end.
proof fn lemma_first_key_index(ps: Seq<(Seq<char>, PropertyDetailsView)>, key: Seq<char>, j: int)
    requires
        0 <= j <= ps.len(),
        forall|k: int| 0 <= k < j ==> ps[k].0 != key,
    ensures
        j < ps.len() && ps[j].0 == key ==> first_key_index(ps, key) == j,
        j == ps.len() ==> first_key_index(ps, key) == -1,
    decreases ps.len(),
{
    if ps.len() > 0 {
        if ps[0].0 == key {
        } else {
            if j > 0 {
                lemma_first_key_index(ps.drop_first(), key, j - 1);
            } else {
                lemma_first_key_index(ps.drop_first(), key, 0);
            }
        }
    }
}

/// Records a property under a name in a pair list: the first pair bound
/// to the name is replaced, or the pair is appended.
#[verifier::loop_isolation(false)]
fn insert_prop(props: &mut Vec<(String, PropertyDetails)>, name: String, details: PropertyDetails)
    ensures
        props_model(final(props)@) == record_prop(props_model(old(props)@), name@, details@),
{
    let ghost om = props_model(old(props)@);
    let ghost nv = name@;
    let ghost dv = details@;
    let n = props.len();
    let mut i: usize = 0;
    while i < n
        invariant
            props == old(props),
            n == props@.len(),
            i <= n,
            forall|k: int| 0 <= k < i ==> props_model(props@)[k].0 != nv,
        decreases n - i,
    {
        if str_eq(props[i].0.as_str(), name.as_str()) {
            proof {
                lemma_first_key_index(om, nv, i as int);
                assert(first_key_index(om, nv) == i as int);
            }
            props[i] = (name, details);
            proof {
                assert(props_model(props@) =~= om.update(i as int, (nv, dv)));
            }
            return ;
        }
        proof {
            assert(props_model(props@)[i as int].0 == props@[i as int].0@);
        }
        i += 1;
    }
    proof {
        lemma_first_key_index(om, nv, n as int);
        assert(first_key_index(om, nv) == -1);
    }
    props.push((name, details));
    proof {
        assert(props_model(props@) =~= om.push((nv, dv)));
    }
}

impl FunctionParameters {
    /// An object schema with no properties and no required names.
    pub fn object() -> (r: FunctionParameters)
        ensures
            r@ == (FunctionParametersView {
                param_type: "OBJECT"@,
                properties: Some(Seq::<(Seq<char>, PropertyDetailsView)>::empty()),
                required: Some(Seq::<Seq<char>>::empty()),
            }),
    {
        let r = FunctionParameters {
            param_type: "OBJECT".to_owned(),
            properties: Some(Vec::new()),
            required: Some(Vec::new()),
        };
        proof {
            assert(r@ =~~= (FunctionParametersView {
                param_type: "OBJECT"@,
                properties: Some(Seq::<(Seq<char>, PropertyDetailsView)>::empty()),
                required: Some(Seq::<Seq<char>>::empty()),
            }));
        }
        r
    }

    /// The schema with a property recorded under a name, and the name
    /// appended to the required list where the property is declared
    /// required.  The name is appended even where it already stands in
    /// the list: the list is not de-duplicated.
    pub fn with_property(self, name: &str, details: PropertyDetails, required: bool) -> (r:
        FunctionParameters)
        ensures
            r@.param_type == self@.param_type,
            r@.properties == match self@.properties {
                Some(ps) => Some(record_prop(ps, name@, details@)),
                None => None::<Seq<(Seq<char>, PropertyDetailsView)>>,
            },
            r@.required == if required {
                match self@.required {
                    Some(rq) => Some(rq.push(name@)),
                    None => None::<Seq<Seq<char>>>,
                }
            } else {
                self@.required
            },
    {
        let FunctionParameters { param_type, properties, required: req } = self;
        let properties = match properties {
            Some(mut ps) => {
                insert_prop(&mut ps, name.to_owned(), details);
                Some(ps)
            }
            None => None,
        };
        let req = if required {
            match req {
                Some(mut rq) => {
                    let ghost rm = strs_model(rq@);
                    rq.push(name.to_owned());
                    proof {
                        assert(strs_model(rq@) =~= rm.push(name@));
                    }
                    Some(rq)
                }
                None => None,
            }
        } else {
            req
        };
        FunctionParameters { param_type, properties, required: req }
    }
}

impl PropertyDetails {
    /// A string property.
    pub fn string(description: &str) -> (r: PropertyDetails)
        ensures
            r@ == (PropertyDetailsView {
                property_type: "STRING"@,
                description: description@,
                enum_values: None::<Seq<Seq<char>>>,
                items: None::<Box<PropertyDetailsView>>,
            }),
    {
        PropertyDetails {
            property_type: "STRING".to_owned(),
            description: description.to_owned(),
            enum_values: None,
            items: None,
        }
    }

    /// A number property.
    pub fn number(description: &str) -> (r: PropertyDetails)
        ensures
            r@ == (PropertyDetailsView {
                property_type: "NUMBER"@,
                description: description@,
                enum_values: None::<Seq<Seq<char>>>,
                items: None::<Box<PropertyDetailsView>>,
            }),
    {
        PropertyDetails {
            property_type: "NUMBER".to_owned(),
            description: description.to_owned(),
            enum_values: None,
            items: None,
        }
    }

    /// An integer property.
    pub fn integer(description: &str) -> (r: PropertyDetails)
        ensures
            r@ == (PropertyDetailsView {
                property_type: "INTEGER"@,
                description: description@,
                enum_values: None::<Seq<Seq<char>>>,
                items: None::<Box<PropertyDetailsView>>,
            }),
    {
        PropertyDetails {
            property_type: "INTEGER".to_owned(),
            description: description.to_owned(),
            enum_values: None,
            items: None,
        }
    }

    /// A boolean property.
    pub fn boolean(description: &str) -> (r: PropertyDetails)
        ensures
            r@ == (PropertyDetailsView {
                property_type: "BOOLEAN"@,
                description: description@,
                enum_values: None::<Seq<Seq<char>>>,
                items: None::<Box<PropertyDetailsView>>,
            }),
    {
        PropertyDetails {
            property_type: "BOOLEAN".to_owned(),
            description: description.to_owned(),
            enum_values: None,
            items: None,
        }
    }

    /// An array property with the given item schema.
    pub fn array(description: &str, items: PropertyDetails) -> (r: PropertyDetails)
        ensures
            r@ == (PropertyDetailsView {
                property_type: "ARRAY"@,
                description: description@,
                enum_values: None::<Seq<Seq<char>>>,
                items: Some(Box::new(items@)),
            }),
    {
        PropertyDetails {
            property_type: "ARRAY".to_owned(),
            description: description.to_owned(),
            enum_values: None,
            items: Some(Box::new(items)),
        }
    }

    /// A string property restricted to the given values, kept in the
    /// order they are given.
    pub fn enum_type(description: &str, enum_values: Vec<String>) -> (r: PropertyDetails)
        ensures
            r@ == (PropertyDetailsView {
                property_type: "STRING"@,
                description: description@,
                enum_values: Some(strs_model(enum_values@)),
                items: None::<Box<PropertyDetailsView>>,
            }),
    {
        PropertyDetails {
            property_type: "STRING".to_owned(),
            description: description.to_owned(),
            enum_values: Some(enum_values),
            items: None,
        }
    }
}

/// A character with a lower-case ASCII letter turned upper case.
pub open spec fn upper_char(c: char) -> char {
    if 'a' <= c <= 'z' {
        (c as int - 32) as char
    } else {
        c
    }
}

/// A text with its lower-case ASCII letters turned upper case.
pub open spec fn ascii_upper(s: Seq<char>) -> Seq<char> {
    Seq::new(s.len(), |i: int| upper_char(s[i]))
}

/// The text with its lower-case ASCII letters turned upper case.
#[verifier::loop_isolation(false)]
fn ascii_uppercase(s: &str) -> (r: String)
    ensures
        r@ == ascii_upper(s@),
{
    let t = crate::text::str_to_chars(s);
    let mut out: Vec<char> = Vec::new();
    let mut i: usize = 0;
    while i < t.len()
        invariant
            i <= t@.len(),
            t@ == s@,
            out@.len() == i,
            forall|k: int| 0 <= k < i ==> out@[k] == upper_char(s@[k]),
        decreases t@.len() - i,
    {
        let c = t[i];
        if 'a' <= c && c <= 'z' {
            let u = c as u32 - 32;
            match crate::text::char_from_u32(u) {
                Some(cu) => {
                    out.push(cu);
                }
                None => {
                    proof {
                        assert(false);
                    }
                }
            }
        } else {
            out.push(c);
        }
        i += 1;
    }
    proof {
        assert(out@ =~= ascii_upper(s@));
    }
    string_from_chars(&out)
}

/// The strings among a sequence of documents, in order; every other
/// document is passed over in silence.
pub open spec fn str_elems(elems: Seq<JsonV>) -> Seq<Seq<char>>
    decreases elems.len(),
{
    if elems.len() == 0 {
        Seq::empty()
    } else {
        let pre = str_elems(elems.drop_last());
        match elems.last() {
            JsonV::Str(t) => pre.push(t),
            _ => pre,
        }
    }
}

/// The strings among an array's elements, as owned strings.
#[verifier::loop_isolation(false)]
fn collect_str_elems(elems: &Vec<JsonValue>) -> (r: Vec<String>)
    ensures
        strs_model(r@) == str_elems(crate::json::seq_model(elems@)),
{
    let ghost em = crate::json::seq_model(elems@);
    let mut r: Vec<String> = Vec::new();
    let mut i: usize = 0;
    proof {
        assert(em.take(0) =~= Seq::<JsonV>::empty());
        assert(strs_model(r@) =~= str_elems(em.take(0)));
    }
    while i < elems.len()
        invariant
            i <= elems@.len(),
            em == crate::json::seq_model(elems@),
            strs_model(r@) == str_elems(em.take(i as int)),
        decreases elems@.len() - i,
    {
        let ghost rm = strs_model(r@);
        match &elems[i] {
            JsonValue::String(s) => {
                r.push(s.clone());
                proof {
                    assert(strs_model(r@) =~= rm.push(elems@[i as int]->String_0@));
                }
            }
            _ => {}
        }
        proof {
            assert(em.take(i as int + 1).drop_last() =~= em.take(i as int));
            assert(em.take(i as int + 1).last() == em[i as int]);
            assert(em[i as int] == elems@[i as int]@);
            assert(strs_model(r@) =~= str_elems(em.take(i as int + 1)));
        }
        i += 1;
    }
    proof {
        assert(em.take(elems@.len() as int) =~= em);
    }
    r
}

/// A value an object lookup yields stands somewhere in the pair list.
pub proof fn lemma_obj_get_is_element(pairs: Seq<(Seq<char>, JsonV)>, key: Seq<char>)
    ensures
        obj_get(pairs, key) matches Some(v) ==> exists|i: int|
            0 <= i < pairs.len() && pairs[i].1 == v,
    decreases pairs.len(),
{
    if pairs.len() > 0 {
        if pairs.last().0 == key {
            assert(pairs[pairs.len() - 1].1 == pairs.last().1);
        } else {
            lemma_obj_get_is_element(pairs.drop_last(), key);
            match obj_get(pairs.drop_last(), key) {
                Some(v) => {
                    let i = choose|i: int| 0 <= i < pairs.drop_last().len()
                        && pairs.drop_last()[i].1 == v;
                    assert(pairs[i].1 == v);
                }
                None => {}
            }
        }
    }
}

/// What an ad-hoc JSON-Schema-shaped document says about one property:
/// its type tag (uppercased, `STRING` where absent), its description
/// (empty where absent), its permitted string values, and its item
/// schema, read recursively.  A document that is not an object says
/// nothing.
pub open spec fn extract_prop_model(v: JsonV) -> Option<PropertyDetailsView>
    decreases v,
{
    match v {
        JsonV::Obj(obj) => Some(
            PropertyDetailsView {
                property_type: match obj_get(obj, "type"@) {
                    Some(JsonV::Str(t)) => ascii_upper(t),
                    _ => "STRING"@,
                },
                description: match obj_get(obj, "description"@) {
                    Some(JsonV::Str(d)) => d,
                    _ => Seq::empty(),
                },
                enum_values: match obj_get(obj, "enum"@) {
                    Some(JsonV::Arr(es)) => Some(str_elems(es)),
                    _ => None,
                },
                items: match obj_get(obj, "items"@) {
                    Some(iv) => {
                        proof {
                            lemma_obj_get_is_element(obj, "items"@);
                            let i = choose|i: int|
                                0 <= i < obj.len() && obj[i].1 == iv;
                            assert(decreases_to!(v => obj));
                            assert(decreases_to!(obj => obj[i]));
                            assert(decreases_to!(obj[i] => obj[i].1));
                            assert(decreases_to!(v => iv));
                        }
                        match extract_prop_model(iv) {
                            Some(d) => Some(Box::new(d)),
                            None => None,
                        }
                    }
                    None => None,
                },
            },
        ),
        _ => None,
    }
}

/// What recording a schema document's properties in order yields: each
/// entry whose details can be read is recorded under its name; the
/// others are passed over.
pub open spec fn fold_props(props: Seq<(Seq<char>, JsonV)>) -> Seq<
    (Seq<char>, PropertyDetailsView),
>
    decreases props.len(),
{
    if props.len() == 0 {
        Seq::empty()
    } else {
        let pre = fold_props(props.drop_last());
        match extract_prop_model(props.last().1) {
            Some(d) => record_prop(pre, props.last().0, d),
            None => pre,
        }
    }
}

/// What an ad-hoc JSON-Schema-shaped document says as a whole schema:
/// its type tag (uppercased, `OBJECT` where absent), the names under
/// `required` that are strings, and its `properties` entries read in
/// order.  A document that is not an object yields the empty `OBJECT`
/// schema.
pub open spec fn v2fp_model(v: JsonV) -> FunctionParametersView {
    match v {
        JsonV::Obj(obj) => FunctionParametersView {
            param_type: match obj_get(obj, "type"@) {
                Some(JsonV::Str(t)) => ascii_upper(t),
                _ => "OBJECT"@,
            },
            properties: Some(
                match obj_get(obj, "properties"@) {
                    Some(JsonV::Obj(po)) => fold_props(po),
                    _ => Seq::empty(),
                },
            ),
            required: Some(
                match obj_get(obj, "required"@) {
                    Some(JsonV::Arr(es)) => str_elems(es),
                    _ => Seq::empty(),
                },
            ),
        },
        _ => FunctionParametersView {
            param_type: "OBJECT"@,
            properties: Some(Seq::empty()),
            required: Some(Seq::empty()),
        },
    }
}

/// Reads one property's details out of an ad-hoc schema document, as
/// [`extract_prop_model`] says.
#[verifier::loop_isolation(false)]
fn extract_property_details(v: &JsonValue) -> (r: Option<PropertyDetails>)
    ensures
        match r {
            Some(d) => extract_prop_model(v@) == Some(d@),
            None => extract_prop_model(v@) is None,
        },
    decreases v,
{
    match v {
        JsonValue::Object(o) => {
            let ghost obj = crate::json::pairs_model(o@);
            proof {
                crate::json::lemma_object_model(*o);
            }
            let property_type = match crate::json::obj_lookup(o, "type") {
                Some(JsonValue::String(t)) => ascii_uppercase(t.as_str()),
                _ => "STRING".to_owned(),
            };
            let description = match crate::json::obj_lookup(o, "description") {
                Some(JsonValue::String(d)) => d.clone(),
                _ => String::new(),
            };
            let enum_values = match crate::json::obj_lookup(o, "enum") {
                Some(JsonValue::Array(es)) => {
                    proof {
                        crate::json::lemma_array_model(*es);
                    }
                    Some(collect_str_elems(es))
                }
                _ => None,
            };
            let items = match crate::json::obj_lookup(o, "items") {
                Some(iv) => {
                    proof {
                        let j = choose|j: int| 0 <= j < o@.len() && o@[j].1 == *iv;
                        assert(*v == JsonValue::Object(*o));
                        assert(decreases_to!(*v => v->Object_0));
                        assert(decreases_to!(*o => o@));
                        assert(decreases_to!(o@ => o@[j]));
                        assert(decreases_to!(o@[j] => o@[j].1));
                        assert(decreases_to!(*v => *iv));
                    }
                    match extract_property_details(iv) {
                        Some(d) => Some(Box::new(d)),
                        None => None,
                    }
                }
                None => None,
            };
            let d = PropertyDetails { property_type, description, enum_values, items };
            proof {
                assert(extract_prop_model(v@)->Some_0 =~~= d@);
            }
            Some(d)
        }
        _ => None,
    }
}

/// Reads an ad-hoc JSON-Schema-shaped document into a parameter schema,
/// as [`v2fp_model`] says: permissively, with defaults where parts are
/// absent, and never failing.
#[verifier::loop_isolation(false)]
pub fn value_to_function_parameters(value: JsonValue) -> (r: FunctionParameters)
    ensures
        r@ == v2fp_model(value@),
{
    match &value {
        JsonValue::Object(o) => {
            let ghost obj = crate::json::pairs_model(o@);
            proof {
                crate::json::lemma_object_model(*o);
            }
            let param_type = match crate::json::obj_lookup(o, "type") {
                Some(JsonValue::String(t)) => ascii_uppercase(t.as_str()),
                _ => "OBJECT".to_owned(),
            };
            let required = match crate::json::obj_lookup(o, "required") {
                Some(JsonValue::Array(es)) => {
                    proof {
                        crate::json::lemma_array_model(*es);
                    }
                    collect_str_elems(es)
                }
                _ => Vec::new(),
            };
            let mut props: Vec<(String, PropertyDetails)> = Vec::new();
            match crate::json::obj_lookup(o, "properties") {
                Some(JsonValue::Object(po)) => {
                    let ghost pom = crate::json::pairs_model(po@);
                    proof {
                        crate::json::lemma_object_model(*po);
                    }
                    let mut i: usize = 0;
                    proof {
                        assert(pom.take(0) =~= Seq::<(Seq<char>, JsonV)>::empty());
                        assert(props_model(props@) =~= fold_props(pom.take(0)));
                    }
                    while i < po.len()
                        invariant
                            i <= po@.len(),
                            pom == crate::json::pairs_model(po@),
                            props_model(props@) == fold_props(pom.take(i as int)),
                        decreases po@.len() - i,
                    {
                        match extract_property_details(&po[i].1) {
                            Some(d) => {
                                insert_prop(&mut props, po[i].0.clone(), d);
                            }
                            None => {}
                        }
                        proof {
                            assert(pom.take(i as int + 1).drop_last() =~= pom.take(i as int));
                            assert(pom.take(i as int + 1).last() == pom[i as int]);
                            assert(pom[i as int] == (po@[i as int].0@, po@[i as int].1@));
                            assert(props_model(props@) =~= fold_props(pom.take(i as int + 1)));
                        }
                        i += 1;
                    }
                    proof {
                        assert(pom.take(po@.len() as int) =~= pom);
                    }
                }
                _ => {}
            }
            let r = FunctionParameters {
                param_type,
                properties: Some(props),
                required: Some(required),
            };
            proof {
                assert(r@ =~~= v2fp_model(value@));
            }
            r
        }
        _ => {
            let r = FunctionParameters {
                param_type: "OBJECT".to_owned(),
                properties: Some(Vec::new()),
                required: Some(Vec::new()),
            };
            proof {
                assert(props_model(Seq::<(String, PropertyDetails)>::empty()) =~= Seq::<
                    (Seq<char>, PropertyDetailsView),
                >::empty());
                assert(strs_model(Seq::<String>::empty()) =~= Seq::<Seq<char>>::empty());
                assert(r@ =~~= v2fp_model(value@));
            }
            r
        }
    }
}

/// A function call issued by the model: a name and a bag of arguments.
#[derive(Debug)]
pub struct FunctionCall {
    /// The name of the function.
    pub name: String,
    /// The arguments, as one JSON document.
    pub args: JsonValue,
}

/// The ghost model of a function call.
#[verifier::ext_equal]
pub struct FunctionCallView {
    /// The name of the function.
    pub name: Seq<char>,
    /// The arguments.
    pub args: JsonV,
}

impl View for FunctionCall {
    type V = FunctionCallView;

    open spec fn view(&self) -> FunctionCallView {
        FunctionCallView { name: self.name@, args: self.args@ }
    }
}

impl Clone for FunctionCall {
    fn clone(&self) -> (res: Self)
        ensures
            res@ == self@,
    {
        FunctionCall { name: self.name.clone(), args: self.args.clone() }
    }
}

/// What looking an argument up yields: the value under the name, an
/// error naming the missing parameter, or an error because the
/// arguments are not an object.
pub open spec fn fc_get_model(fc: FunctionCallView, key: Seq<char>) -> Result<JsonV, ErrorV> {
    match fc.args {
        JsonV::Obj(pairs) => match obj_get(pairs, key) {
            Some(v) => Ok(v),
            None => Err(ErrorV::FunctionCall("Missing parameter: "@ + key)),
        },
        _ => Err(ErrorV::FunctionCall("Arguments are not an object"@)),
    }
}

/// The label put before a parameter's name when its value cannot be
/// read at the requested type.
pub open spec fn deser_error(key: Seq<char>) -> ErrorV {
    ErrorV::FunctionCall("Error deserializing parameter: "@ + key)
}

impl FunctionCall {
    /// A function call from a name and an arguments document.
    pub fn new(name: &str, args: JsonValue) -> (r: FunctionCall)
        ensures
            r@ == (FunctionCallView { name: name@, args: args@ }),
    {
        FunctionCall { name: name.to_owned(), args }
    }

    /// The argument under a name, as a document.  Fails when the
    /// arguments are not an object or the name is absent.
    pub fn get(&self, key: &str) -> (r: Result<JsonValue, Error>)
        ensures
            match r {
                Ok(v) => fc_get_model(self@, key@) == Ok::<JsonV, ErrorV>(v@),
                Err(e) => fc_get_model(self@, key@) == Err::<JsonV, ErrorV>(e@),
            },
    {
        match &self.args {
            JsonValue::Object(o) => {
                proof {
                    crate::json::lemma_object_model(*o);
                }
                match crate::json::obj_lookup(o, key) {
                Some(v) => Ok(v.clone()),
                None => {
                    let mut m: Vec<char> = Vec::new();
                    push_str_chars(&mut m, "Missing parameter: ");
                    push_str_chars(&mut m, key);
                    proof {
                        assert(m@ =~= "Missing parameter: "@ + key@);
                    }
                    Err(Error::FunctionCallError(string_from_chars(&m)))
                }
                }
            },
            _ => Err(Error::FunctionCallError("Arguments are not an object".to_owned())),
        }
    }

    /// The argument under a name, as an integer.  Fails like [`Self::get`],
    /// and with a deserialization error where the value is not a number
    /// naming an integer that fits in an `i64`.
    pub fn get_i64(&self, key: &str) -> (r: Result<i64, Error>)
        ensures
            match r {
                Ok(x) => fc_get_model(self@, key@) matches Ok(JsonV::Num(t))
                    && num_as_i64(t) == Some(x as int),
                Err(e) => match fc_get_model(self@, key@) {
                    Ok(v) => e@ == deser_error(key@) && !(v matches JsonV::Num(t)
                        && num_as_i64(t) is Some),
                    Err(e0) => e@ == e0,
                },
            },
    {
        match self.get(key) {
            Ok(v) => match v {
                JsonValue::Number(n) => match n.as_i64() {
                    Some(x) => Ok(x),
                    None => Err(self.deser_failure(key)),
                },
                _ => Err(self.deser_failure(key)),
            },
            Err(e) => Err(e),
        }
    }

    /// The argument under a name, as a boolean.  Fails like [`Self::get`],
    /// and with a deserialization error where the value is not a boolean.
    pub fn get_bool(&self, key: &str) -> (r: Result<bool, Error>)
        ensures
            match r {
                Ok(b) => fc_get_model(self@, key@) == Ok::<JsonV, ErrorV>(JsonV::Bool(b)),
                Err(e) => match fc_get_model(self@, key@) {
                    Ok(v) => e@ == deser_error(key@) && !(v is Bool),
                    Err(e0) => e@ == e0,
                },
            },
    {
        match self.get(key) {
            Ok(v) => match v {
                JsonValue::Bool(b) => Ok(b),
                _ => Err(self.deser_failure(key)),
            },
            Err(e) => Err(e),
        }
    }

    /// The argument under a name, as a string.  Fails like [`Self::get`],
    /// and with a deserialization error where the value is not a string.
    pub fn get_string(&self, key: &str) -> (r: Result<String, Error>)
        ensures
            match r {
                Ok(s) => fc_get_model(self@, key@) == Ok::<JsonV, ErrorV>(JsonV::Str(s@)),
                Err(e) => match fc_get_model(self@, key@) {
                    Ok(v) => e@ == deser_error(key@) && !(v is Str),
                    Err(e0) => e@ == e0,
                },
            },
    {
        match self.get(key) {
            Ok(v) => match v {
                JsonValue::String(s) => Ok(s),
                _ => Err(self.deser_failure(key)),
            },
            Err(e) => Err(e),
        }
    }

    /// The error reported when a value cannot be read at the requested
    /// type.
    fn deser_failure(&self, key: &str) -> (e: Error)
        ensures
            e@ == deser_error(key@),
    {
        let mut m: Vec<char> = Vec::new();
        push_str_chars(&mut m, "Error deserializing parameter: ");
        push_str_chars(&mut m, key);
        proof {
            assert(m@ =~= "Error deserializing parameter: "@ + key@);
        }
        Error::FunctionCallError(string_from_chars(&m))
    }
}

/// A response to a function call, fed back to the model.
#[derive(Debug)]
pub struct FunctionResponse {
    /// The name of the function.
    pub name: String,
    /// The response document, where there is one.
    pub response: Option<JsonValue>,
}

/// The ghost model of a function response.
#[verifier::ext_equal]
pub struct FunctionResponseView {
    /// The name of the function.
    pub name: Seq<char>,
    /// The response document.
    pub response: Option<JsonV>,
}

impl View for FunctionResponse {
    type V = FunctionResponseView;

    open spec fn view(&self) -> FunctionResponseView {
        FunctionResponseView {
            name: self.name@,
            response: match self.response {
                Some(v) => Some(v@),
                None => None,
            },
        }
    }
}

impl Clone for FunctionResponse {
    fn clone(&self) -> (res: Self)
        ensures
            res@ == self@,
    {
        FunctionResponse {
            name: self.name.clone(),
            response: match &self.response {
                Some(v) => Some(v.clone()),
                None => None,
            },
        }
    }
}

impl FunctionResponse {
    /// A response from a name and a document.
    pub fn new(name: &str, response: JsonValue) -> (r: FunctionResponse)
        ensures
            r@ == (FunctionResponseView { name: name@, response: Some(response@) }),
    {
        FunctionResponse { name: name.to_owned(), response: Some(response) }
    }

    /// A response from a name and a JSON text, which must denote a
    /// document.
    pub fn from_str(name: &str, response: &str) -> (r: Result<FunctionResponse, Error>)
        ensures
            match r {
                Ok(fr) => crate::json_text::json_doc(response@) == Some(fr@.response->0)
                    && fr@.name == name@,
                Err(e) => crate::json_text::json_doc(response@) is None
                    && e@ == ErrorV::Json("invalid JSON in function response"@),
            },
    {
        match crate::json_text::parse_json_text(response) {
            Some(v) => Ok(FunctionResponse { name: name.to_owned(), response: Some(v) }),
            None => Err(Error::JsonError("invalid JSON in function response".to_owned())),
        }
    }
}

} // verus!
