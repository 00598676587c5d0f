//! What a tool's parameter schema says, and the structural preflight of
//! call arguments against it.
//!
//! The preflight is deliberately shallow. It checks only that:
//!  - the arguments are an object (`null` counts as an empty object);
//!  - a schema whose single declared type is not `object` is refused;
//!  - every required field is present and not `null`;
//!  - every member that the schema describes has a value of the type the
//!    schema gives for it (any of them, when it gives several).
//!
//! A value has the type `null`, `boolean`, `object`, `array`, `string` or
//! `number` when it is of that kind; it has the type `integer` when it is a
//! number written without a fraction or an exponent. Complaints name the
//! value's kind as `null`, `bool`, `number`, `string`, `array` or `object`.
use vstd::prelude::*;

use crate::json::{kind_name, lookup, Json};
use crate::text::{
    char_index, chars_of, lemma_char_index, owned, push_str, string_from, text_eq, trim,
    trim_bounds,
};
use crate::tools::error::ToolError;

verus! {

/// A type that a JSON Schema `type` keyword may name.
#[derive(Debug, Clone, Copy, PartialEq, Eq, Structural)]
pub enum InstanceType {
    Null,
    Boolean,
    Object,
    Array,
    Number,
    String,
    Integer,
}

/// A schema's `type`: one type, or a list of them.
#[derive(Debug)]
pub enum TypeSpec {
    Single(InstanceType),
    Many(Vec<InstanceType>),
}

/// The schema of one property.
#[derive(Debug)]
pub enum PropertySchema {
    /// The schema `true`: any value.
    AnyValue,
    /// The schema `false`: no value.
    NoValue,
    /// An object schema, with its `type` if it gives one.
    Typed(Option<TypeSpec>),
}

/// The object part of a schema.
#[derive(Debug)]
pub struct ObjectRules {
    /// Required property names, in the schema's order.
    pub required: Vec<String>,
    /// Described properties, in the schema's order.
    pub properties: Vec<(String, PropertySchema)>,
}

/// A tool's parameter schema: its compact JSON rendering, and the parts of
/// it that the preflight reads.
#[derive(Debug)]
pub struct ParamSchema {
    /// The schema rendered as compact JSON.
    pub text: String,
    /// The top-level `type`, if any.
    pub instance_type: Option<TypeSpec>,
    /// The object rules, if any.
    pub object: Option<ObjectRules>,
}

/// Two type specifications say the same.
pub open spec fn same_type_spec(a: TypeSpec, b: TypeSpec) -> bool {
    match (a, b) {
        (TypeSpec::Single(x), TypeSpec::Single(y)) => x == y,
        (TypeSpec::Many(xs), TypeSpec::Many(ys)) => xs@ == ys@,
        _ => false,
    }
}

/// Two optional type specifications say the same.
pub open spec fn same_type_opt(a: Option<TypeSpec>, b: Option<TypeSpec>) -> bool {
    match (a, b) {
        (None, None) => true,
        (Some(x), Some(y)) => same_type_spec(x, y),
        _ => false,
    }
}

/// Two property schemas say the same.
pub open spec fn same_property(a: PropertySchema, b: PropertySchema) -> bool {
    match (a, b) {
        (PropertySchema::AnyValue, PropertySchema::AnyValue) => true,
        (PropertySchema::NoValue, PropertySchema::NoValue) => true,
        (PropertySchema::Typed(x), PropertySchema::Typed(y)) => same_type_opt(x, y),
        _ => false,
    }
}

/// Two property lists say the same: the same names, in order, with schemas
/// that say the same.
pub open spec fn same_properties(a: Seq<(String, PropertySchema)>, b: Seq<(String, PropertySchema)>) -> bool {
    &&& a.len() == b.len()
    &&& forall|i: int|
        0 <= i < a.len() ==> #[trigger] a[i].0 == b[i].0 && same_property(a[i].1, b[i].1)
}

/// Two parameter schemas say the same: the same text, the same top-level
/// type and the same object rules.
pub open spec fn same_schema(a: ParamSchema, b: ParamSchema) -> bool {
    &&& a.text == b.text
    &&& same_type_opt(a.instance_type, b.instance_type)
    &&& match (a.object, b.object) {
        (None, None) => true,
        (Some(x), Some(y)) => x.required@ == y.required@ && same_properties(
            x.properties@,
            y.properties@,
        ),
        _ => false,
    }
}

impl Clone for TypeSpec {
    /// The same type specification.
    fn clone(&self) -> (r: Self)
        ensures
            same_type_spec(r, *self),
    {
        match self {
            TypeSpec::Single(t) => TypeSpec::Single(*t),
            TypeSpec::Many(ts) => {
                let mut v: Vec<InstanceType> = Vec::new();
                let mut i: usize = 0;
                while i < ts.len()
                    invariant
                        i <= ts@.len(),
                        v@ == ts@.take(i as int),
                    decreases ts@.len() - i,
                {
                    v.push(ts[i]);
                    assert(ts@.take(i + 1) =~= ts@.take(i as int).push(ts@[i as int]));
                    i = i + 1;
                }
                assert(ts@.take(ts@.len() as int) =~= ts@);
                TypeSpec::Many(v)
            },
        }
    }
}

/// A copy of an optional type specification.
fn clone_type_opt(t: &Option<TypeSpec>) -> (r: Option<TypeSpec>)
    ensures
        same_type_opt(r, *t),
{
    match t {
        None => None,
        Some(x) => Some(x.clone()),
    }
}

impl Clone for PropertySchema {
    /// The same property schema.
    fn clone(&self) -> (r: Self)
        ensures
            same_property(r, *self),
    {
        match self {
            PropertySchema::AnyValue => PropertySchema::AnyValue,
            PropertySchema::NoValue => PropertySchema::NoValue,
            PropertySchema::Typed(t) => PropertySchema::Typed(clone_type_opt(t)),
        }
    }
}

impl Clone for ObjectRules {
    /// The same required names and property schemas.
    fn clone(&self) -> (r: Self)
        ensures
            r.required@ == self.required@,
            same_properties(r.properties@, self.properties@),
    {
        let mut required: Vec<String> = Vec::new();
        let mut i: usize = 0;
        while i < self.required.len()
            invariant
                i <= self.required@.len(),
                required@ == self.required@.take(i as int),
            decreases self.required@.len() - i,
        {
            required.push(self.required[i].clone());
            assert(self.required@.take(i + 1) =~= self.required@.take(i as int).push(
                self.required@[i as int],
            ));
            i = i + 1;
        }
        assert(self.required@.take(self.required@.len() as int) =~= self.required@);
        let mut properties: Vec<(String, PropertySchema)> = Vec::new();
        let mut j: usize = 0;
        while j < self.properties.len()
            invariant
                j <= self.properties@.len(),
                properties@.len() == j,
                forall|k: int|
                    0 <= k < j ==> #[trigger] properties@[k].0 == self.properties@[k].0
                        && same_property(properties@[k].1, self.properties@[k].1),
            decreases self.properties@.len() - j,
        {
            let (name, p) = &self.properties[j];
            properties.push((name.clone(), p.clone()));
            j = j + 1;
        }
        ObjectRules { required, properties }
    }
}

impl Clone for ParamSchema {
    /// A schema that says the same.
    fn clone(&self) -> (r: Self)
        ensures
            same_schema(r, *self),
    {
        ParamSchema {
            text: self.text.clone(),
            instance_type: clone_type_opt(&self.instance_type),
            object: match &self.object {
                None => None,
                Some(o) => Some(o.clone()),
            },
        }
    }
}

/// The lower-case name of a schema type.
pub open spec fn type_label(t: InstanceType) -> Seq<char> {
    match t {
        InstanceType::Null => "null"@,
        InstanceType::Boolean => "boolean"@,
        InstanceType::Object => "object"@,
        InstanceType::Array => "array"@,
        InstanceType::Number => "number"@,
        InstanceType::String => "string"@,
        InstanceType::Integer => "integer"@,
    }
}

/// The capitalised name of a schema type.
pub open spec fn type_title(t: InstanceType) -> Seq<char> {
    match t {
        InstanceType::Null => "Null"@,
        InstanceType::Boolean => "Boolean"@,
        InstanceType::Object => "Object"@,
        InstanceType::Array => "Array"@,
        InstanceType::Number => "Number"@,
        InstanceType::String => "String"@,
        InstanceType::Integer => "Integer"@,
    }
}

/// The names of `ts`, joined with `|`.
pub open spec fn joined_labels(ts: Seq<InstanceType>) -> Seq<char>
    decreases ts.len(),
{
    if ts.len() == 0 {
        seq![]
    } else if ts.len() == 1 {
        type_label(ts[0])
    } else {
        joined_labels(ts.drop_last()) + "|"@ + type_label(ts.last())
    }
}

/// The type name a property schema expects, if it expects one.
pub open spec fn expected_type(p: PropertySchema) -> Option<Seq<char>> {
    match p {
        PropertySchema::AnyValue => None,
        PropertySchema::NoValue => Some("__nothing__"@),
        PropertySchema::Typed(None) => None,
        PropertySchema::Typed(Some(TypeSpec::Single(t))) => Some(type_label(t)),
        PropertySchema::Typed(Some(TypeSpec::Many(ts))) => Some(joined_labels(ts@)),
    }
}

/// A number's text has no fraction and no exponent.
pub open spec fn integral_text(t: Seq<char>) -> bool {
    forall|i: int| 0 <= i < t.len() ==> t[i] != '.' && t[i] != 'e' && t[i] != 'E'
}

/// The value `v` has the schema type named `name`.
pub open spec fn has_type(v: Json, name: Seq<char>) -> bool {
    match v {
        Json::Null => name == "null"@,
        Json::Bool(_) => name == "boolean"@,
        Json::Number(n) => name == "number"@ || (name == "integer"@ && integral_text(n@)),
        Json::Str(_) => name == "string"@,
        Json::Array(_) => name == "array"@,
        Json::Object(_) => name == "object"@,
    }
}

/// Law: each schema type is had by exactly the values of its kind: `null`,
/// `boolean`, `string`, `array` and `object` by the values of that kind,
/// `number` by every number, `integer` by the numbers written without a
/// fraction or an exponent; no other name is a type any value has.
pub proof fn lemma_schema_types(v: Json, t: Seq<char>)
    ensures
        has_type(v, "null"@) <==> v is Null,
        has_type(v, "boolean"@) <==> v is Bool,
        has_type(v, "string"@) <==> v is Str,
        has_type(v, "array"@) <==> v is Array,
        has_type(v, "object"@) <==> v is Object,
        has_type(v, "number"@) <==> v is Number,
        has_type(v, "integer"@) <==> (v is Number && forall|i: int|
            0 <= i < v->Number_0@.len() ==> v->Number_0@[i] != '.' && v->Number_0@[i] != 'e'
                && v->Number_0@[i] != 'E'),
        t != "null"@ && t != "boolean"@ && t != "string"@ && t != "array"@ && t != "object"@ && t
            != "number"@ && t != "integer"@ ==> !has_type(v, t),
{
    reveal_strlit("null");
    reveal_strlit("boolean");
    reveal_strlit("string");
    reveal_strlit("array");
    reveal_strlit("object");
    reveal_strlit("number");
    reveal_strlit("integer");
    let names = seq!["null"@, "boolean"@, "string"@, "array"@, "object"@, "number"@, "integer"@];
    assert forall|i: int, j: int| 0 <= i < j < 7 implies names[i] != names[j] by {
        if names[i].len() == names[j].len() {
            assert(names[i][0] != names[j][0]);
        }
    }
    assert(names[0] == "null"@ && names[1] == "boolean"@ && names[2] == "string"@ && names[3]
        == "array"@ && names[4] == "object"@ && names[5] == "number"@ && names[6] == "integer"@);
}

/// Some `|`-separated piece of `expected`, trimmed, is a type that `v` has.
pub open spec fn some_piece_is(expected: Seq<char>, v: Json) -> bool
    decreases expected.len(),
{
    match char_index(expected, '|') {
        None => has_type(v, trim(expected)),
        Some(i) => {
            proof {
                lemma_char_index(expected, '|');
            }
            has_type(v, trim(expected.take(i))) || some_piece_is(expected.skip(i + 1), v)
        },
    }
}

/// The value `v` has the expected type: one of its `|`-separated pieces
/// when it has several, else the type itself.
pub open spec fn type_matches(v: Json, expected: Seq<char>) -> bool {
    if char_index(expected, '|') is Some {
        some_piece_is(expected, v)
    } else {
        has_type(v, expected)
    }
}

/// The field `name` is absent from `fields`, or `null`.
pub open spec fn is_missing(fields: Seq<(String, Json)>, name: Seq<char>) -> bool {
    match lookup(fields, name) {
        None => true,
        Some(Json::Null) => true,
        _ => false,
    }
}

/// The first of `required` that is missing from `fields`.
pub open spec fn first_missing(required: Seq<String>, fields: Seq<(String, Json)>) -> Option<
    Seq<char>,
>
    decreases required.len(),
{
    if required.len() == 0 {
        None
    } else if is_missing(fields, required[0]@) {
        Some(required[0]@)
    } else {
        first_missing(required.drop_first(), fields)
    }
}

/// The schema of the first property of `props` named `key`.
pub open spec fn property_of(props: Seq<(String, PropertySchema)>, key: Seq<char>) -> Option<
    PropertySchema,
>
    decreases props.len(),
{
    if props.len() == 0 {
        None
    } else if props[0].0@ == key {
        Some(props[0].1)
    } else {
        property_of(props.drop_first(), key)
    }
}

/// The complaint about the first member of `fields` whose kind does not
/// match the type its property schema expects.
pub open spec fn first_mismatch(
    fields: Seq<(String, Json)>,
    props: Seq<(String, PropertySchema)>,
) -> Option<Seq<char>>
    decreases fields.len(),
{
    if fields.len() == 0 {
        None
    } else {
        let key = fields[0].0@;
        let value = fields[0].1;
        let rest = first_mismatch(fields.drop_first(), props);
        match property_of(props, key) {
            Some(p) => match expected_type(p) {
                Some(e) => if !type_matches(value, e) {
                    Some("field '"@ + key + "' must be "@ + e + ", got "@ + kind_name(value))
                } else {
                    rest
                },
                None => rest,
            },
            None => rest,
        }
    }
}

/// The complaint about object members `fields` under `schema`, if any.
pub open spec fn members_complaint(fields: Seq<(String, Json)>, schema: ParamSchema) -> Option<
    Seq<char>,
> {
    if schema.instance_type matches Some(TypeSpec::Single(t)) && t != InstanceType::Object {
        Some("schema expects "@ + type_title(schema.instance_type->Some_0->Single_0) + ", got object"@)
    } else {
        match schema.object {
            None => None,
            Some(rules) => match first_missing(rules.required@, fields) {
                Some(name) => Some("missing required field '"@ + name + "'"@),
                None => first_mismatch(fields, rules.properties@),
            },
        }
    }
}

/// The complaint about call arguments `args` under `schema`, if any.
pub open spec fn args_complaint(args: Json, schema: ParamSchema) -> Option<Seq<char>> {
    match args {
        Json::Object(f) => members_complaint(f@, schema),
        Json::Null => members_complaint(seq![], schema),
        _ => Some("expected object, got "@ + kind_name(args)),
    }
}

/// Property lists that say the same give the same expected type for every
/// name.
proof fn lemma_same_properties_expect_alike(
    a: Seq<(String, PropertySchema)>,
    b: Seq<(String, PropertySchema)>,
    key: Seq<char>,
)
    requires
        same_properties(a, b),
    ensures
        property_of(a, key) is Some <==> property_of(b, key) is Some,
        property_of(a, key) is Some ==> expected_type(property_of(a, key)->0) == expected_type(
            property_of(b, key)->0,
        ),
    decreases a.len(),
{
    if a.len() > 0 {
        assert(a[0].0 == b[0].0 && same_property(a[0].1, b[0].1));
        assert(same_properties(a.drop_first(), b.drop_first())) by {
            assert forall|i: int| 0 <= i < a.drop_first().len() implies #[trigger] a.drop_first()[i].0
                == b.drop_first()[i].0 && same_property(a.drop_first()[i].1, b.drop_first()[i].1) by {
                assert(a.drop_first()[i] == a[i + 1]);
                assert(b.drop_first()[i] == b[i + 1]);
                assert(a[i + 1].0 == b[i + 1].0);
            }
        }
        lemma_same_properties_expect_alike(a.drop_first(), b.drop_first(), key);
    }
}

/// Property lists that say the same find the same first mismatch.
proof fn lemma_same_properties_same_mismatch(
    fields: Seq<(String, Json)>,
    a: Seq<(String, PropertySchema)>,
    b: Seq<(String, PropertySchema)>,
)
    requires
        same_properties(a, b),
    ensures
        first_mismatch(fields, a) == first_mismatch(fields, b),
    decreases fields.len(),
{
    if fields.len() > 0 {
        lemma_same_properties_expect_alike(a, b, fields[0].0@);
        lemma_same_properties_same_mismatch(fields.drop_first(), a, b);
    }
}

/// Law: parameter schemas that say the same (such as a schema and its
/// clone) check every argument value alike.
pub proof fn lemma_same_schema_same_complaint(args: Json, a: ParamSchema, b: ParamSchema)
    requires
        same_schema(a, b),
    ensures
        args_complaint(args, a) == args_complaint(args, b),
{
    match (a.object, b.object) {
        (Some(x), Some(y)) => {
            match args {
                Json::Object(f) => lemma_same_properties_same_mismatch(
                    f@,
                    x.properties@,
                    y.properties@,
                ),
                _ => lemma_same_properties_same_mismatch(seq![], x.properties@, y.properties@),
            }
        },
        _ => {},
    }
}

/// The name of a schema type, in lower case.
pub fn type_label_of(t: InstanceType) -> (r: &'static str)
    ensures
        r@ == type_label(t),
{
    match t {
        InstanceType::Null => "null",
        InstanceType::Boolean => "boolean",
        InstanceType::Object => "object",
        InstanceType::Array => "array",
        InstanceType::Number => "number",
        InstanceType::String => "string",
        InstanceType::Integer => "integer",
    }
}

/// The name of a schema type, capitalised.
pub fn type_title_of(t: InstanceType) -> (r: &'static str)
    ensures
        r@ == type_title(t),
{
    match t {
        InstanceType::Null => "Null",
        InstanceType::Boolean => "Boolean",
        InstanceType::Object => "Object",
        InstanceType::Array => "Array",
        InstanceType::Number => "Number",
        InstanceType::String => "String",
        InstanceType::Integer => "Integer",
    }
}

/// The type name a property schema expects, if it expects one.
pub fn sub_type(p: &PropertySchema) -> (r: Option<String>)
    ensures
        match r {
            Some(s) => expected_type(*p) == Some(s@),
            None => expected_type(*p) is None,
        },
{
    match p {
        PropertySchema::AnyValue => None,
        PropertySchema::NoValue => Some(owned("__nothing__")),
        PropertySchema::Typed(None) => None,
        PropertySchema::Typed(Some(TypeSpec::Single(t))) => Some(owned(type_label_of(*t))),
        PropertySchema::Typed(Some(TypeSpec::Many(ts))) => {
            let mut s = String::new();
            let mut i: usize = 0;
            while i < ts.len()
                invariant
                    i <= ts@.len(),
                    s@ == joined_labels(ts@.take(i as int)),
                decreases ts@.len() - i,
            {
                let ghost pre = ts@.take(i as int);
                let ghost post = ts@.take(i + 1);
                assert(post.drop_last() =~= pre);
                if i > 0 {
                    push_str(&mut s, "|");
                } else {
                    assert(pre.len() == 0);
                    assert(s@ =~= seq![]);
                }
                push_str(&mut s, type_label_of(ts[i]));
                assert(s@ =~= joined_labels(post));
                i = i + 1;
            }
            assert(ts@.take(ts@.len() as int) =~= ts@);
            Some(s)
        },
    }
}

/// Whether a number's text has no fraction and no exponent.
fn is_integral(t: &str) -> (r: bool)
    ensures
        r == integral_text(t@),
{
    let c = chars_of(t);
    let mut i: usize = 0;
    while i < c.len()
        invariant
            i <= c@.len(),
            c@ == t@,
            forall|j: int| 0 <= j < i ==> c@[j] != '.' && c@[j] != 'e' && c@[j] != 'E',
        decreases c@.len() - i,
    {
        if c[i] == '.' || c[i] == 'e' || c[i] == 'E' {
            return false;
        }
        i = i + 1;
    }
    true
}

/// Whether the value `v` has the schema type named `name`.
pub fn has_type_named(v: &Json, name: &str) -> (r: bool)
    ensures
        r == has_type(*v, name@),
{
    match v {
        Json::Null => text_eq(name, "null"),
        Json::Bool(_) => text_eq(name, "boolean"),
        Json::Number(n) => text_eq(name, "number") || (text_eq(name, "integer") && is_integral(
            n.as_str(),
        )),
        Json::Str(_) => text_eq(name, "string"),
        Json::Array(_) => text_eq(name, "array"),
        Json::Object(_) => text_eq(name, "object"),
    }
}

/// Whether the value `v` has the expected type `expected`.
pub fn type_matches_value(v: &Json, expected: &str) -> (r: bool)
    ensures
        r == type_matches(*v, expected@),
{
    let e = chars_of(expected);
    proof {
        lemma_char_index(e@, '|');
    }
    let mut has_bar = false;
    let mut k: usize = 0;
    while k < e.len()
        invariant
            k <= e@.len(),
            has_bar == exists|j: int| 0 <= j < k && e@[j] == '|',
        decreases e@.len() - k,
    {
        if e[k] == '|' {
            has_bar = true;
        }
        k = k + 1;
    }
    if !has_bar {
        assert(char_index(e@, '|') is None);
        return has_type_named(v, expected);
    }
    assert(char_index(e@, '|') is Some) by {
        let j = choose|j: int| 0 <= j < e@.len() && e@[j] == '|';
        if char_index(e@, '|') is None {
            assert(e@[j] != '|');
        }
    }
    // Walk the `|`-separated pieces, from position `start`.
    let mut start: usize = 0;
    assert(e@.skip(0) =~= e@);
    while start <= e.len()
        invariant
            start <= e@.len(),
            e@ == expected@,
            char_index(e@, '|') is Some,
            some_piece_is(e@, *v) == some_piece_is(e@.skip(start as int), *v),
        decreases e@.len() + 1 - start,
    {
        let ghost rest = e@.skip(start as int);
        proof {
            lemma_char_index(rest, '|');
        }
        let mut j = start;
        while j < e.len() && e[j] != '|'
            invariant
                start <= j <= e@.len(),
                forall|q: int| start <= q < j ==> e@[q] != '|',
            decreases e@.len() - j,
        {
            j = j + 1;
        }
        let (x, y) = trim_bounds(&e, start, j);
        let piece = string_from(&e, x, y);
        let same = has_type_named(v, piece.as_str());
        if j == e.len() {
            assert(char_index(rest, '|') is None) by {
                if char_index(rest, '|') is Some {
                    let i = char_index(rest, '|')->0;
                    assert(rest[i] == e@[start + i]);
                }
            }
            assert(rest =~= e@.subrange(start as int, j as int));
            assert(some_piece_is(rest, *v) == has_type(*v, trim(rest)));
            return same;
        }
        assert(char_index(rest, '|') == Some((j - start) as int)) by {
            match char_index(rest, '|') {
                Some(i) => {
                    if i < j - start {
                        assert(rest[i] == e@[start + i]);
                    }
                    if i > j - start {
                        assert(rest[j - start] == e@[j as int]);
                    }
                },
                None => {
                    assert(rest[j - start] == e@[j as int]);
                },
            }
        }
        assert(rest.take((j - start) as int) =~= e@.subrange(start as int, j as int));
        assert(rest.skip((j - start) + 1) =~= e@.skip(j + 1));
        assert(some_piece_is(rest, *v) == (has_type(*v, trim(rest.take((j - start) as int)))
            || some_piece_is(rest.skip((j - start) + 1), *v)));
        if same {
            return true;
        }
        start = j + 1;
    }
    false
}

/// Checks call arguments against a tool's parameter schema.
pub fn validate_args(args: &Json, schema: &ParamSchema) -> (r: Result<(), ToolError>)
    ensures
        match args_complaint(*args, *schema) {
            None => r is Ok,
            Some(m) => r matches Err(ToolError::InvalidArgs(e)) && e@ == m,
        },
{
    let empty: Vec<(String, Json)> = Vec::new();
    let fields: &Vec<(String, Json)> = match args {
        Json::Object(f) => f,
        Json::Null => &empty,
        _ => {
            let mut m = String::new();
            push_str(&mut m, "expected object, got ");
            push_str(&mut m, args.kind_name());
            return Err(ToolError::InvalidArgs(m));
        },
    };
    assert(args is Null ==> fields@ =~= Seq::<(String, Json)>::empty());
    match check_members(fields, schema) {
        Some(m) => Err(ToolError::InvalidArgs(m)),
        None => Ok(()),
    }
}

/// The complaint about object members `fields` under `schema`, if any.
fn check_members(fields: &Vec<(String, Json)>, schema: &ParamSchema) -> (r: Option<String>)
    ensures
        match r {
            Some(m) => members_complaint(fields@, *schema) == Some(m@),
            None => members_complaint(fields@, *schema) is None,
        },
{
    if let Some(TypeSpec::Single(t)) = &schema.instance_type {
        if *t != InstanceType::Object {
            let mut m = String::new();
            push_str(&mut m, "schema expects ");
            push_str(&mut m, type_title_of(*t));
            push_str(&mut m, ", got object");
            return Some(m);
        }
    }
    match &schema.object {
        None => None,
        Some(rules) => match find_missing(&rules.required, fields) {
            Some(name) => {
                let mut m = String::new();
                push_str(&mut m, "missing required field '");
                push_str(&mut m, name.as_str());
                push_str(&mut m, "'");
                Some(m)
            },
            None => find_mismatch(fields, &rules.properties),
        },
    }
}

/// Whether field `name` is absent from `fields`, or `null`.
fn field_missing(fields: &Vec<(String, Json)>, name: &str) -> (r: bool)
    ensures
        r == is_missing(fields@, name@),
{
    match crate::json::lookup_member(fields, name) {
        None => true,
        Some(v) => v.is_null(),
    }
}

/// The first required field that is missing.
fn find_missing(required: &Vec<String>, fields: &Vec<(String, Json)>) -> (r: Option<String>)
    ensures
        match r {
            Some(s) => first_missing(required@, fields@) == Some(s@),
            None => first_missing(required@, fields@) is None,
        },
{
    let mut i: usize = 0;
    assert(required@.skip(0) =~= required@);
    while i < required.len()
        invariant
            i <= required@.len(),
            first_missing(required@, fields@) == first_missing(required@.skip(i as int), fields@),
        decreases required@.len() - i,
    {
        assert(required@.skip(i as int).drop_first() =~= required@.skip(i + 1));
        if field_missing(fields, required[i].as_str()) {
            return Some(required[i].clone());
        }
        i = i + 1;
    }
    None
}

/// The schema of the first property named `key`.
fn find_property<'a>(props: &'a Vec<(String, PropertySchema)>, key: &str) -> (r: Option<
    &'a PropertySchema,
>)
    ensures
        match r {
            Some(p) => property_of(props@, key@) == Some(*p),
            None => property_of(props@, key@) is None,
        },
{
    let k = owned(key);
    let mut i: usize = 0;
    assert(props@.skip(0) =~= props@);
    while i < props.len()
        invariant
            i <= props@.len(),
            k@ == key@,
            property_of(props@, key@) == property_of(props@.skip(i as int), key@),
        decreases props@.len() - i,
    {
        assert(props@.skip(i as int).drop_first() =~= props@.skip(i + 1));
        if props[i].0 == k {
            return Some(&props[i].1);
        }
        i = i + 1;
    }
    None
}

/// The complaint about the first member whose kind does not match.
fn find_mismatch(fields: &Vec<(String, Json)>, props: &Vec<(String, PropertySchema)>) -> (r: Option<
    String,
>)
    ensures
        match r {
            Some(s) => first_mismatch(fields@, props@) == Some(s@),
            None => first_mismatch(fields@, props@) is None,
        },
{
    let mut i: usize = 0;
    assert(fields@.skip(0) =~= fields@);
    while i < fields.len()
        invariant
            i <= fields@.len(),
            first_mismatch(fields@, props@) == first_mismatch(fields@.skip(i as int), props@),
        decreases fields@.len() - i,
    {
        assert(fields@.skip(i as int).drop_first() =~= fields@.skip(i + 1));
        let key = &fields[i].0;
        let value = &fields[i].1;
        if let Some(p) = find_property(props, key.as_str()) {
            if let Some(e) = sub_type(p) {
                let actual = value.kind_name();
                if !type_matches_value(value, e.as_str()) {
                    let mut m = String::new();
                    push_str(&mut m, "field '");
                    push_str(&mut m, key.as_str());
                    push_str(&mut m, "' must be ");
                    push_str(&mut m, e.as_str());
                    push_str(&mut m, ", got ");
                    push_str(&mut m, actual);
                    return Some(m);
                }
            }
        }
        i = i + 1;
    }
    None
}

} // verus!
