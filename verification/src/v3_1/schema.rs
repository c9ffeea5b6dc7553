//! The Schema object (OpenAPI 3.1, JSON Schema 2020-12): the parts that
//! validation reads, and its checks.
use vstd::prelude::*;
use crate::common::checks::{pattern_errors, required_string_errors, validate_required_string};
use crate::common::context::{error_line, lemma_prefix_trans, walked, Context, OptionSet, Options, ValidateWithContext};
use crate::common::reference::ResolveReference;
use crate::common::text::{concat, decimal, decimal_string, decimal_string_u64, push_str, starts_with, str_equal, to_owned_string};
use crate::v3_0::reference::{empty_ref_errors, is_internal, map_view, RefOr};
use crate::v3_1::discriminator::Discriminator;
use crate::common::model::BoolOr;
use crate::common::reach::{lemma_unvisited_mono, lemma_unvisited_strict, lemma_within_both, lemma_within_concat, unvisited, within};
use crate::common::schema_checks::{check_common_head, common_head_errors, schema_docs_errors};
use crate::v3_1::external_documentation::ExternalDocumentation;
use crate::v3_1::spec::Spec;

verus! {

/// The literal empty schema `{}`, which matches anything.
#[derive(Debug, PartialEq, Eq, Structural)]
pub struct EmptySchema;

impl Default for EmptySchema {
    fn default() -> (res: EmptySchema)
        ensures
            res == EmptySchema,
    {
        EmptySchema
    }
}

/// A Schema object.
#[derive(Debug)]
pub enum Schema {
    /// A boolean schema: `true` matches anything, `false` nothing.
    Bool(bool),
    AllOf(Box<AllOfSchema>),
    AnyOf(Box<AnyOfSchema>),
    OneOf(Box<OneOfSchema>),
    Not(Box<NotSchema>),
    Multi(Box<MultiSchema>),
    /// The empty schema `{}`.
    Empty(EmptySchema),
    Single(Box<SingleSchema>),
}

/// A value valid against all of the subschemas.
#[derive(Debug)]
pub struct AllOfSchema {
    pub all_of: Vec<RefOr<Schema>>,
    pub discriminator: Option<Discriminator>,
}

/// A value valid against any of the subschemas.
#[derive(Debug)]
pub struct AnyOfSchema {
    pub any_of: Vec<RefOr<Schema>>,
    pub discriminator: Option<Discriminator>,
}

/// A value valid against exactly one of the subschemas.
#[derive(Debug)]
pub struct OneOfSchema {
    pub one_of: Vec<RefOr<Schema>>,
    pub discriminator: Option<Discriminator>,
}

/// A value not valid against the subschema.
#[derive(Debug)]
pub struct NotSchema {
    pub not: RefOr<Schema>,
}

/// A schema with one `type`.
#[derive(Debug)]
pub enum SingleSchema {
    String(StringSchema),
    Integer(IntegerSchema),
    Number(NumberSchema),
    Boolean(BooleanSchema),
    Array(ArraySchema),
    Object(ObjectSchema),
    Null(NullSchema),
}

/// The `type` name of a single-type schema.
pub open spec fn single_type_name(s: SingleSchema) -> Seq<char> {
    match s {
        SingleSchema::String(_) => "string"@,
        SingleSchema::Integer(_) => "integer"@,
        SingleSchema::Number(_) => "number"@,
        SingleSchema::Boolean(_) => "boolean"@,
        SingleSchema::Array(_) => "array"@,
        SingleSchema::Object(_) => "object"@,
        SingleSchema::Null(_) => "null"@,
    }
}

impl SingleSchema {
    /// The `type` name of the schema, as written in a document.
    pub fn to_string(&self) -> (res: String)
        ensures
            res@ == single_type_name(*self),
    {
        let name = match self {
            SingleSchema::String(_) => "string",
            SingleSchema::Integer(_) => "integer",
            SingleSchema::Number(_) => "number",
            SingleSchema::Boolean(_) => "boolean",
            SingleSchema::Array(_) => "array",
            SingleSchema::Object(_) => "object",
            SingleSchema::Null(_) => "null",
        };
        crate::common::text::to_owned_string(name)
    }
}

/// A `string` schema.
#[derive(Debug)]
pub struct StringSchema {
    /// A title for the schema.
    pub title: Option<String>,
    pub enum_values: Option<Vec<String>>,
    pub x_enum_descriptions: Option<Vec<String>>,
    pub max_length: Option<u64>,
    pub min_length: Option<u64>,
    pub read_only: Option<bool>,
    pub write_only: Option<bool>,
    pub external_docs: Option<ExternalDocumentation>,
}

/// A `multipleOf` value, as the checks read it: whether it is greater than
/// zero, and its decimal text.
#[derive(Debug)]
pub struct MultipleOf {
    pub positive: bool,
    pub text: String,
}

/// The diagnostics of an optional `multipleOf` at `path`: it must be
/// greater than zero.
pub open spec fn multiple_of_errors(path: Seq<char>, m: Option<MultipleOf>) -> Seq<Seq<char>> {
    match m {
        Some(m) => if m.positive {
            seq![]
        } else {
            seq![error_line(path, "`multipleOf` ("@ + m.text@ + ") must be > 0"@)]
        },
        None => seq![],
    }
}

/// `multipleOf` is reported, once, exactly when it is given and not positive.
pub proof fn law_multiple_of(path: Seq<char>, m: Option<MultipleOf>)
    ensures
        multiple_of_errors(path, m).len() > 0 <==> (m is Some && !m->0.positive),
        multiple_of_errors(path, m).len() <= 1,
{
}

/// Checks an optional `multipleOf` found at `path`.
fn check_multiple_of(ctx: &mut Context<'_, Spec>, path: &str, m: &Option<MultipleOf>)
    ensures
        final(ctx).errors_view() == old(ctx).errors_view() + multiple_of_errors(path@, *m),
        final(ctx).visited == old(ctx).visited,
        final(ctx).spec == old(ctx).spec,
        final(ctx).options == old(ctx).options,
{
    if let Some(m) = m {
        if !m.positive {
            let mut msg = concat("`multipleOf` (", m.text.as_str());
            push_str(&mut msg, ") must be > 0");
            ctx.error(path, msg.as_str());
            return;
        }
    }
    assert(ctx.errors_view() =~= old(ctx).errors_view() + multiple_of_errors(path@, *m));
}

/// An `integer` schema.
#[derive(Debug)]
pub struct IntegerSchema {
    pub multiple_of: Option<MultipleOf>,
    pub enum_values: Option<Vec<i64>>,
    pub x_enum_descriptions: Option<Vec<String>>,
    pub read_only: Option<bool>,
    pub write_only: Option<bool>,
    pub external_docs: Option<ExternalDocumentation>,
}

/// A `number` schema; its enumeration is held by its length.
#[derive(Debug)]
pub struct NumberSchema {
    pub multiple_of: Option<MultipleOf>,
    pub enum_len: Option<usize>,
    pub x_enum_descriptions: Option<Vec<String>>,
    pub read_only: Option<bool>,
    pub write_only: Option<bool>,
    pub external_docs: Option<ExternalDocumentation>,
}

/// A `boolean` schema.
#[derive(Debug)]
pub struct BooleanSchema {
    pub read_only: Option<bool>,
    pub write_only: Option<bool>,
    pub external_docs: Option<ExternalDocumentation>,
}

/// An `array` schema.
#[derive(Debug)]
pub struct ArraySchema {
    pub items: Option<BoolOr<RefOr<Schema>>>,
    pub max_items: Option<u64>,
    pub min_items: Option<u64>,
    pub read_only: Option<bool>,
    pub write_only: Option<bool>,
    pub external_docs: Option<ExternalDocumentation>,
}

/// An `object` schema.
#[derive(Debug)]
pub struct ObjectSchema {
    pub properties: Option<Vec<(String, RefOr<Schema>)>>,
    pub pattern_properties: Option<Vec<(String, RefOr<Schema>)>>,
    pub max_properties: Option<u64>,
    pub min_properties: Option<u64>,
    pub additional_properties: Option<BoolOr<RefOr<Schema>>>,
    pub unevaluated_properties: Option<BoolOr<RefOr<Schema>>>,
    pub property_names: Option<RefOr<Schema>>,
    pub x_tags: Option<Vec<String>>,
    pub x_discriminator_value: Option<String>,
    pub read_only: Option<bool>,
    pub write_only: Option<bool>,
    pub external_docs: Option<ExternalDocumentation>,
}

/// A `null` schema.
#[derive(Debug)]
pub struct NullSchema {
    pub read_only: Option<bool>,
    pub write_only: Option<bool>,
    pub external_docs: Option<ExternalDocumentation>,
}

/// A schema whose `type` is a list of types.
#[derive(Debug)]
pub struct MultiSchema {
    pub schema_types: Vec<String>,
    pub read_only: Option<bool>,
    pub write_only: Option<bool>,
    pub external_docs: Option<ExternalDocumentation>,
}

// The `$ref`s that checking a schema can follow: those it holds, and those
// that its discriminators' mappings name. They bound how far the checks can
// go, since each `$ref` is followed at most once per pass.

/// The `$ref`s that a discriminator's mapping names.
pub open spec fn mapping_refs(m: Option<Vec<(String, String)>>) -> Seq<Seq<char>> {
    match m {
        None => seq![],
        Some(v) => v@.map_values(|e: (String, String)| "#/components/schemas/"@ + e.1@),
    }
}

/// The `$ref`s that an optional discriminator's mapping names.
pub open spec fn discriminator_refs(d: Option<Discriminator>) -> Seq<Seq<char>> {
    match d {
        None => seq![],
        Some(d) => mapping_refs(d.mapping),
    }
}

/// The `$ref`s of a schema.
pub open spec fn schema_refs(s: Schema) -> Seq<Seq<char>>
    decreases s,
{
    match s {
        Schema::Bool(_) => seq![],
        Schema::Empty(_) => seq![],
        Schema::Multi(_) => seq![],
        Schema::AllOf(b) => list_refs(b.all_of@) + discriminator_refs(b.discriminator),
        Schema::AnyOf(b) => list_refs(b.any_of@) + discriminator_refs(b.discriminator),
        Schema::OneOf(b) => list_refs(b.one_of@) + discriminator_refs(b.discriminator),
        Schema::Not(b) => ref_or_refs(b.not),
        Schema::Single(b) => single_refs(*b),
    }
}

/// The `$ref`s of a schema with one `type`.
pub open spec fn single_refs(s: SingleSchema) -> Seq<Seq<char>>
    decreases s,
{
    match s {
        SingleSchema::Array(a) => bool_or_refs(a.items),
        SingleSchema::Object(o) => opt_entries_refs(o.properties) + opt_entries_refs(o.pattern_properties)
            + bool_or_refs(o.additional_properties) + bool_or_refs(o.unevaluated_properties) + opt_ref_refs(
            o.property_names,
        ),
        _ => seq![],
    }
}

/// The `$ref`s of a schema or `$ref`.
pub open spec fn ref_or_refs(r: RefOr<Schema>) -> Seq<Seq<char>>
    decreases r,
{
    match r {
        RefOr::Ref(x) => seq![x.reference@],
        RefOr::Item(s) => schema_refs(s),
    }
}

/// The `$ref`s of a list of schemas.
pub open spec fn list_refs(v: Seq<RefOr<Schema>>) -> Seq<Seq<char>>
    decreases v,
{
    if v.len() == 0 {
        seq![]
    } else {
        list_refs(v.subrange(0, v.len() - 1)) + ref_or_refs(v[v.len() - 1])
    }
}

/// The `$ref`s of a map of schemas.
pub open spec fn entries_refs(v: Seq<(String, RefOr<Schema>)>) -> Seq<Seq<char>>
    decreases v,
{
    if v.len() == 0 {
        seq![]
    } else {
        entries_refs(v.subrange(0, v.len() - 1)) + ref_or_refs(v[v.len() - 1].1)
    }
}

/// The `$ref`s of an optional map of schemas.
pub open spec fn opt_entries_refs(o: Option<Vec<(String, RefOr<Schema>)>>) -> Seq<Seq<char>>
    decreases o,
{
    match o {
        None => seq![],
        Some(v) => entries_refs(v@),
    }
}

/// The `$ref`s of an optional boolean-or-schema.
pub open spec fn bool_or_refs(o: Option<BoolOr<RefOr<Schema>>>) -> Seq<Seq<char>>
    decreases o,
{
    match o {
        Some(BoolOr::Item(r)) => ref_or_refs(r),
        _ => seq![],
    }
}

/// The `$ref`s of an optional schema.
pub open spec fn opt_ref_refs(o: Option<RefOr<Schema>>) -> Seq<Seq<char>>
    decreases o,
{
    match o {
        Some(r) => ref_or_refs(r),
        None => seq![],
    }
}

/// The `$ref`s of the schemas of `components.schemas`.
pub open spec fn comp_refs(spec: Spec) -> Seq<Seq<char>> {
    match spec.components {
        None => seq![],
        Some(c) => opt_entries_refs(c.schemas),
    }
}

/// The schema that `reference` names in `components.schemas`.
pub open spec fn schema_at(spec: Spec, reference: Seq<char>) -> Option<Schema> {
    match spec.components {
        None => None,
        Some(c) => crate::v3_0::reference::resolved_in_map(map_view(c.schemas), reference, "#/components/schemas/"@),
    }
}

pub proof fn lemma_within_list(v: Seq<RefOr<Schema>>, u: Seq<Seq<char>>, k: int)
    requires
        within(list_refs(v), u),
        0 <= k < v.len(),
    ensures
        within(ref_or_refs(v[k]), u),
    decreases v.len(),
{
    let init = v.subrange(0, v.len() - 1);
    lemma_within_concat(list_refs(init), ref_or_refs(v[v.len() - 1]), u);
    if k < v.len() - 1 {
        lemma_within_list(init, u, k);
        assert(init[k] == v[k]);
    }
}

pub proof fn lemma_within_entries(v: Seq<(String, RefOr<Schema>)>, u: Seq<Seq<char>>, k: int)
    requires
        within(entries_refs(v), u),
        0 <= k < v.len(),
    ensures
        within(ref_or_refs(v[k].1), u),
    decreases v.len(),
{
    let init = v.subrange(0, v.len() - 1);
    lemma_within_concat(entries_refs(init), ref_or_refs(v[v.len() - 1].1), u);
    if k < v.len() - 1 {
        lemma_within_entries(init, u, k);
        assert(init[k] == v[k]);
    }
}

/// A schema that a `$ref` names holds only `$ref`s of `components.schemas`.
pub proof fn lemma_target_within(spec: Spec, r: Seq<char>, u: Seq<Seq<char>>)
    requires
        within(comp_refs(spec), u),
        schema_at(spec, r) is Some,
    ensures
        within(schema_refs(schema_at(spec, r)->0), u),
{
    let c = spec.components->0;
    let es = c.schemas->0@;
    let key = crate::common::text::trim_start_all(r, "#/components/schemas/"@);
    crate::v3_1::path_lookup::lemma_chain_in(es, "#/components/schemas/"@, key, es.len());
    let t = schema_at(spec, r)->0;
    let vals = crate::v3_1::path_lookup::entry_values(es);
    let k = choose|k: int| 0 <= k < vals.len() && vals[k] == RefOr::<Schema>::Item(t);
    assert(es[k].1 == RefOr::<Schema>::Item(t));
    lemma_within_entries(es, u, k);
}

/// The diagnostic of a lower bound above its upper bound.
pub open spec fn bounds_errors(path: Seq<char>, lo_name: Seq<char>, hi_name: Seq<char>, lo: Option<u64>, hi: Option<u64>) -> Seq<Seq<char>> {
    match (lo, hi) {
        (Some(min), Some(max)) => if min > max {
            seq![
                error_line(
                    path,
                    "`"@ + lo_name + "` ("@ + decimal(min as nat) + ") must be ≤ `"@ + hi_name + "` ("@ + decimal(
                        max as nat,
                    ) + ")"@,
                ),
            ]
        } else {
            seq![]
        },
        _ => seq![],
    }
}

/// A pair of bounds (such as `minLength` and `maxLength`) is reported exactly
/// when both are given and the lower one exceeds the upper one; equal bounds
/// are valid. At most one diagnostic is given.
pub proof fn law_bounds_reported_iff_inverted(
    path: Seq<char>,
    lo_name: Seq<char>,
    hi_name: Seq<char>,
    lo: Option<u64>,
    hi: Option<u64>,
)
    ensures
        bounds_errors(path, lo_name, hi_name, lo, hi).len() > 0 <==> (lo is Some && hi is Some && lo->0 > hi->0),
        bounds_errors(path, lo_name, hi_name, lo, hi).len() <= 1,
        forall|m: u64| bounds_errors(path, lo_name, hi_name, Some(m), Some(m)).len() == 0,
{
}

/// The diagnostic of `x-enumDescriptions` that does not give one
/// description per enum value.
pub open spec fn enum_descriptions_errors(path: Seq<char>, enum_len: Option<nat>, descriptions: Option<Vec<String>>) -> Seq<Seq<char>> {
    match (enum_len, descriptions) {
        (Some(n), Some(d)) => if d@.len() != n {
            seq![
                error_line(
                    path + ".x-enumDescriptions"@,
                    "must contain exactly one description per enum value ("@ + decimal(n) + " expected, "@
                        + decimal(d@.len()) + " found)"@,
                ),
            ]
        } else {
            seq![]
        },
        _ => seq![],
    }
}

/// `x-enumDescriptions` is reported, once, exactly when both it and `enum` are
/// given and their lengths differ.
pub proof fn law_enum_descriptions(path: Seq<char>, enum_len: Option<nat>, descriptions: Option<Vec<String>>)
    ensures
        enum_descriptions_errors(path, enum_len, descriptions).len() > 0 <==> (enum_len is Some && descriptions is Some
            && descriptions->0@.len() != enum_len->0),
        enum_descriptions_errors(path, enum_len, descriptions).len() <= 1,
{
}

/// Exactly the seven JSON Schema type names may be listed.
pub proof fn law_schema_type_names(t: Seq<char>)
    ensures
        is_schema_type(t) <==> (t =~= seq!['s', 't', 'r', 'i', 'n', 'g'] || t =~= seq!['n', 'u', 'm', 'b', 'e', 'r'] || t =~= seq!['i', 'n', 't', 'e', 'g', 'e', 'r'] || t =~= seq!['o', 'b', 'j', 'e', 'c', 't'] || t =~= seq!['a', 'r', 'r', 'a', 'y'] || t =~= seq!['b', 'o', 'o', 'l', 'e', 'a', 'n'] || t =~= seq!['n', 'u', 'l', 'l']),
{
    reveal_strlit("string");
    assert("string"@ =~= seq!['s', 't', 'r', 'i', 'n', 'g']);
    reveal_strlit("number");
    assert("number"@ =~= seq!['n', 'u', 'm', 'b', 'e', 'r']);
    reveal_strlit("integer");
    assert("integer"@ =~= seq!['i', 'n', 't', 'e', 'g', 'e', 'r']);
    reveal_strlit("object");
    assert("object"@ =~= seq!['o', 'b', 'j', 'e', 'c', 't']);
    reveal_strlit("array");
    assert("array"@ =~= seq!['a', 'r', 'r', 'a', 'y']);
    reveal_strlit("boolean");
    assert("boolean"@ =~= seq!['b', 'o', 'o', 'l', 'e', 'a', 'n']);
    reveal_strlit("null");
    assert("null"@ =~= seq!['n', 'u', 'l', 'l']);
}

/// The type names a schema may list.
pub open spec fn is_schema_type(t: Seq<char>) -> bool {
    t == "string"@ || t == "number"@ || t == "integer"@ || t == "object"@ || t == "array"@ || t == "boolean"@
        || t == "null"@
}

/// The diagnostics of the first `n` types of a list of types at `path`.
pub open spec fn type_list_errors(path: Seq<char>, types: Seq<Seq<char>>, n: nat) -> Seq<Seq<char>>
    decreases n,
{
    if n == 0 {
        seq![]
    } else {
        let k = (n - 1) as int;
        let t = types[k];
        type_list_errors(path, types, (n - 1) as nat) + (if is_schema_type(t) {
            seq![]
        } else {
            seq![error_line(path + ".type"@, "type `"@ + t + "` is not supported"@)]
        }) + (if types.take(k).contains(t) {
            seq![error_line(path + ".type"@, "type `"@ + t + "` is not unique"@)]
        } else {
            seq![]
        })
    }
}

/// A list of types yields no diagnostic exactly when each of its first `n`
/// types is one of the seven JSON Schema types and none repeats an earlier
/// one.
pub proof fn law_type_list_clean(path: Seq<char>, types: Seq<Seq<char>>, n: nat)
    requires
        n <= types.len(),
    ensures
        type_list_errors(path, types, n).len() == 0 <==> forall|i: int|
            0 <= i < n ==> is_schema_type(#[trigger] types[i]) && !types.take(i).contains(types[i]),
    decreases n,
{
    if n > 0 {
        law_type_list_clean(path, types, (n - 1) as nat);
        let k = (n - 1) as int;
        if type_list_errors(path, types, n).len() == 0 {
            assert forall|i: int| 0 <= i < n implies is_schema_type(#[trigger] types[i]) && !types.take(i).contains(
                types[i],
            ) by {
                if i < k {
                    assert(type_list_errors(path, types, (n - 1) as nat).len() == 0);
                }
            }
        }
        if forall|i: int| 0 <= i < n ==> is_schema_type(#[trigger] types[i]) && !types.take(i).contains(types[i]) {
            assert(is_schema_type(types[k]));
            assert forall|i: int| 0 <= i < n - 1 implies is_schema_type(#[trigger] types[i]) && !types.take(i).contains(
                types[i],
            ) by {
                assert(is_schema_type(types[i]));
            }
        }
    }
}

/// The diagnostics of a schema with a list of types at `path`.
pub open spec fn multi_errors(path: Seq<char>, m: MultiSchema, ignore_empty: bool, ignore_invalid: bool) -> Seq<Seq<char>> {
    let types = crate::common::patterns::views(m.schema_types@);
    (if types.len() == 0 {
        seq![error_line(path + ".type"@, "must contain at least one element"@)]
    } else {
        seq![]
    }) + type_list_errors(path, types, types.len()) + schema_docs_errors(path, m.external_docs, ignore_empty, ignore_invalid)
}

/// The diagnostics that a schema with one type at `path` gets before any of
/// its subschemas is checked.
pub open spec fn single_head_errors(path: Seq<char>, s: SingleSchema, ie: bool, ii: bool) -> Seq<Seq<char>> {
    match s {
        SingleSchema::String(x) => common_head_errors(path, x.read_only, x.write_only, x.external_docs, ie, ii)
            + bounds_errors(path, "minLength"@, "maxLength"@, x.min_length, x.max_length) + enum_descriptions_errors(
            path,
            match x.enum_values { Some(v) => Some(v@.len()), None => None },
            x.x_enum_descriptions,
        ),
        SingleSchema::Integer(x) => common_head_errors(path, x.read_only, x.write_only, x.external_docs, ie, ii)
            + multiple_of_errors(path, x.multiple_of) + enum_descriptions_errors(
            path,
            match x.enum_values { Some(v) => Some(v@.len()), None => None },
            x.x_enum_descriptions,
        ),
        SingleSchema::Number(x) => common_head_errors(path, x.read_only, x.write_only, x.external_docs, ie, ii)
            + multiple_of_errors(path, x.multiple_of) + enum_descriptions_errors(
            path,
            match x.enum_len { Some(n) => Some(n as nat), None => None },
            x.x_enum_descriptions,
        ),
        SingleSchema::Boolean(x) => common_head_errors(path, x.read_only, x.write_only, x.external_docs, ie, ii),
        SingleSchema::Null(x) => common_head_errors(path, x.read_only, x.write_only, x.external_docs, ie, ii),
        SingleSchema::Array(x) => common_head_errors(path, x.read_only, x.write_only, x.external_docs, ie, ii),
        SingleSchema::Object(x) => common_head_errors(path, x.read_only, x.write_only, x.external_docs, ie, ii)
            + bounds_errors(path, "minProperties"@, "maxProperties"@, x.min_properties, x.max_properties),
    }
}

/// The diagnostics that a schema at `path` gets before any of its
/// subschemas is checked.
pub open spec fn schema_head_errors(path: Seq<char>, s: Schema, ie: bool, ii: bool) -> Seq<Seq<char>> {
    match s {
        Schema::Bool(_) => seq![],
        Schema::Empty(_) => seq![],
        Schema::Multi(m) => multi_errors(path, *m, ie, ii),
        Schema::Single(b) => single_head_errors(path, *b, ie, ii),
        Schema::AllOf(b) => if b.all_of@.len() == 0 {
            seq![error_line(path, "`allOf` must be a non-empty array"@)]
        } else {
            seq![]
        },
        Schema::AnyOf(b) => if b.any_of@.len() == 0 {
            seq![error_line(path, "`anyOf` must be a non-empty array"@)]
        } else {
            seq![]
        },
        Schema::OneOf(b) => if b.one_of@.len() == 0 {
            seq![error_line(path, "`oneOf` must be a non-empty array"@)]
        } else {
            seq![]
        },
        Schema::Not(_) => seq![],
    }
}

/// What following the `$ref` `reference` at `path` reports: an empty
/// `$ref`, and, the first time it is met, a target that cannot be had.
pub open spec fn enter_errors(spec: Spec, visited: Set<Seq<char>>, path: Seq<char>, reference: Seq<char>, ignore_external: bool) -> Seq<Seq<char>> {
    empty_ref_errors(path, reference) + if visited.contains(reference) {
        seq![]
    } else if is_internal(reference) {
        if schema_at(spec, reference) is Some {
            seq![]
        } else {
            seq![error_line(path, ".$ref: `"@ + reference + "` not found"@)]
        }
    } else if ignore_external {
        seq![]
    } else {
        seq![error_line(path, ".$ref: external reference `"@ + reference + "` is not supported"@)]
    }
}

/// A pass follows the `$ref` `reference` when it meets it with the `$ref`s
/// `vis` visited: the first time, when it is internal and names a schema.
pub open spec fn follows(spec: Spec, vis: Set<Seq<char>>, reference: Seq<char>) -> bool {
    !vis.contains(reference) && is_internal(reference) && schema_at(spec, reference) is Some
}

/// Meets the `$ref` `reference` at `path`: reports it if empty, visits it
/// and, the first time, resolves it. Answers the schema to check next, if
/// the pass follows the `$ref`.
fn enter_schema_ref<'a>(ctx: &mut Context<'a, Spec>, reference: &String, path: &str) -> (res: Option<&'a Schema>)
    ensures
        final(ctx).spec == old(ctx).spec,
        final(ctx).options == old(ctx).options,
        final(ctx).visited_set() == old(ctx).visited_set().insert(reference@),
        final(ctx).errors_view() == old(ctx).errors_view() + enter_errors(
            *old(ctx).spec,
            old(ctx).visited_set(),
            path@,
            reference@,
            old(ctx).has_option(Options::IgnoreExternalReferences),
        ),
        match res {
            Some(t) => follows(*old(ctx).spec, old(ctx).visited_set(), reference@) && schema_at(
                *old(ctx).spec,
                reference@,
            ) == Some(*t),
            None => !follows(*old(ctx).spec, old(ctx).visited_set(), reference@),
        },
{
    let ghost e0 = ctx.errors_view();
    if reference.as_str().is_empty() {
        ctx.error(path, ".$ref: must not be empty");
    }
    let ghost e1 = ctx.errors_view();
    assert(e1 == e0 + empty_ref_errors(path@, reference@));
    let res = if ctx.visit(reference.clone()) {
        let spec: &'a Spec = ctx.spec;
        if starts_with(reference.as_str(), "#/") {
            match <Spec as ResolveReference<Schema>>::resolve_reference(spec, reference.as_str()) {
                Some(t) => Some(t),
                None => {
                    let mut m = concat(".$ref: `", reference.as_str());
                    push_str(&mut m, "` not found");
                    ctx.error(path, m.as_str());
                    None
                },
            }
        } else {
            if !ctx.is_option(Options::IgnoreExternalReferences) {
                let mut m = concat(".$ref: external reference `", reference.as_str());
                push_str(&mut m, "` is not supported");
                ctx.error(path, m.as_str());
            }
            None
        }
    } else {
        None
    };
    assert(ctx.errors_view() =~= e0 + enter_errors(
        *old(ctx).spec,
        old(ctx).visited_set(),
        path@,
        reference@,
        old(ctx).has_option(Options::IgnoreExternalReferences),
    ));
    res
}

/// What `validate_schema` and its kin may assume: the `$ref`s `u` hold
/// every `$ref` that checking `refs` can follow.
pub open spec fn covered(u: Seq<Seq<char>>, spec: Spec, refs: Seq<Seq<char>>) -> bool {
    within(refs, u) && within(comp_refs(spec), u)
}

// What one pass reports for a schema. A pass follows each `$ref` the first
// time it meets it, so what a schema reports depends on the `$ref`s visited
// before it; each function below answers the diagnostics appended and the
// `$ref`s visited afterwards. `u` holds every `$ref` the pass can follow.
// The comparisons of `unvisited` counts hold on every pass (a pass only adds
// to the visited `$ref`s, and only follows `$ref`s of `u`); they bound how
// often a `$ref` can be followed.

/// What checking the schema `s`, found at `path`, reports, with the `$ref`s
/// `vis` visited before it: the checks of its kind (a composition is not
/// empty), then each of its subschemas, then its discriminator.
pub open spec fn walk_schema(
    spec: Spec,
    opts: OptionSet,
    u: Seq<Seq<char>>,
    vis: Set<Seq<char>>,
    s: Schema,
    path: Seq<char>,
) -> (Seq<Seq<char>>, Set<Seq<char>>)
    decreases unvisited(u, vis), s, 2nat, 0nat,
{
    let head = schema_head_errors(
        path,
        s,
        opts.has(Options::IgnoreEmptyExternalDocumentationUrl),
        opts.has(Options::IgnoreInvalidUrls),
    );
    match s {
        Schema::Bool(_) => (head, vis),
        Schema::Empty(_) => (head, vis),
        Schema::Multi(_) => (head, vis),
        Schema::Single(b) => {
            proof {
                assert(decreases_to!(s => s->Single_0));
            }
            walk_single(spec, opts, u, vis, *b, path)
        },
        Schema::AllOf(b) => {
            proof {
                assert(decreases_to!(s => s->AllOf_0));
                assert(decreases_to!(*b => b.all_of));
                assert(decreases_to!(b.all_of => b.all_of@));
            }
            let (e1, v1) = walk_list(spec, opts, u, vis, b.all_of@, b.all_of@.len(), path, ".allOf["@);
            match b.discriminator {
                Some(d) => if unvisited(u, v1) <= unvisited(u, vis) {
                    let (e2, v2) = walk_discriminator(spec, opts, u, v1, d, path + ".discriminator"@, s);
                    (head + e1 + e2, v2)
                } else {
                    (head + e1, v1)
                },
                None => (head + e1, v1),
            }
        },
        Schema::AnyOf(b) => {
            proof {
                assert(decreases_to!(s => s->AnyOf_0));
                assert(decreases_to!(*b => b.any_of));
                assert(decreases_to!(b.any_of => b.any_of@));
            }
            let (e1, v1) = walk_list(spec, opts, u, vis, b.any_of@, b.any_of@.len(), path, ".anyOf["@);
            match b.discriminator {
                Some(d) => if unvisited(u, v1) <= unvisited(u, vis) {
                    let (e2, v2) = walk_discriminator(spec, opts, u, v1, d, path + ".discriminator"@, s);
                    (head + e1 + e2, v2)
                } else {
                    (head + e1, v1)
                },
                None => (head + e1, v1),
            }
        },
        Schema::OneOf(b) => {
            proof {
                assert(decreases_to!(s => s->OneOf_0));
                assert(decreases_to!(*b => b.one_of));
                assert(decreases_to!(b.one_of => b.one_of@));
            }
            let (e1, v1) = walk_list(spec, opts, u, vis, b.one_of@, b.one_of@.len(), path, ".oneOf["@);
            match b.discriminator {
                Some(d) => if unvisited(u, v1) <= unvisited(u, vis) {
                    let (e2, v2) = walk_discriminator(spec, opts, u, v1, d, path + ".discriminator"@, s);
                    (head + e1 + e2, v2)
                } else {
                    (head + e1, v1)
                },
                None => (head + e1, v1),
            }
        },
        Schema::Not(b) => {
            proof {
                assert(decreases_to!(s => s->Not_0));
                assert(decreases_to!(*b => b.not));
            }
            walk_ref(spec, opts, u, vis, b.not, path + ".not"@)
        },
    }
}

/// What checking the schema or `$ref` `r`, found at `path`, reports, with
/// the `$ref`s `vis` visited before it. A `$ref` is reported if empty or if
/// it cannot be had; when the pass follows it, the schema it names is then
/// checked at the location the `$ref` names.
pub open spec fn walk_ref(
    spec: Spec,
    opts: OptionSet,
    u: Seq<Seq<char>>,
    vis: Set<Seq<char>>,
    r: RefOr<Schema>,
    path: Seq<char>,
) -> (Seq<Seq<char>>, Set<Seq<char>>)
    decreases unvisited(u, vis), r, 2nat, 0nat,
{
    match r {
        RefOr::Ref(x) => {
            let reference = x.reference@;
            let e0 = enter_errors(spec, vis, path, reference, opts.has(Options::IgnoreExternalReferences));
            let v0 = vis.insert(reference);
            if follows(spec, vis, reference) && unvisited(u, v0) < unvisited(u, vis) {
                let (e1, v1) = walk_schema(spec, opts, u, v0, schema_at(spec, reference)->0, reference);
                (e0 + e1, v1)
            } else {
                (e0, v0)
            }
        },
        RefOr::Item(s) => walk_schema(spec, opts, u, vis, s, path),
    }
}

/// What checking the first `n` schemas of the list `v` reports, each found
/// at `<path><open><index>]`.
pub open spec fn walk_list(
    spec: Spec,
    opts: OptionSet,
    u: Seq<Seq<char>>,
    vis: Set<Seq<char>>,
    v: Seq<RefOr<Schema>>,
    n: nat,
    path: Seq<char>,
    open: Seq<char>,
) -> (Seq<Seq<char>>, Set<Seq<char>>)
    decreases unvisited(u, vis), v, 0nat, n,
{
    if n == 0 || n > v.len() {
        (seq![], vis)
    } else {
        let (e1, v1) = walk_list(spec, opts, u, vis, v, (n - 1) as nat, path, open);
        if unvisited(u, v1) <= unvisited(u, vis) {
            proof {
                assert(decreases_to!(v => v[n - 1]));
            }
            let (e2, v2) = walk_ref(spec, opts, u, v1, v[n - 1], path + open + decimal((n - 1) as nat) + "]"@);
            (e1 + e2, v2)
        } else {
            (e1, v1)
        }
    }
}

/// What checking the discriminator `d` of the schema `host`, found at
/// `path`, reports: a non-empty property name, then each mapping value as a
/// `$ref` to `#/components/schemas/<value>`.
pub open spec fn walk_discriminator(
    spec: Spec,
    opts: OptionSet,
    u: Seq<Seq<char>>,
    vis: Set<Seq<char>>,
    d: Discriminator,
    path: Seq<char>,
    host: Schema,
) -> (Seq<Seq<char>>, Set<Seq<char>>)
    decreases unvisited(u, vis), host, 1nat, 0nat,
{
    let e0 = required_string_errors(path + ".propertyName"@, d.property_name@);
    match d.mapping {
        Some(m) => {
            let (e1, v1) = walk_mapping(spec, opts, u, vis, m@, m@.len(), path, host);
            (e0 + e1, v1)
        },
        None => (e0, vis),
    }
}

/// What checking the first `n` values of the mapping `m` of a
/// discriminator of the schema `host`, found at `path`, reports: each as a
/// `$ref` to `#/components/schemas/<value>`, found at `<path>.mapping[<key>]`.
pub open spec fn walk_mapping(
    spec: Spec,
    opts: OptionSet,
    u: Seq<Seq<char>>,
    vis: Set<Seq<char>>,
    m: Seq<(String, String)>,
    n: nat,
    path: Seq<char>,
    host: Schema,
) -> (Seq<Seq<char>>, Set<Seq<char>>)
    decreases unvisited(u, vis), host, 0nat, n,
{
    if n == 0 || n > m.len() {
        (seq![], vis)
    } else {
        let (e1, v1) = walk_mapping(spec, opts, u, vis, m, (n - 1) as nat, path, host);
        let reference = "#/components/schemas/"@ + m[n - 1].1@;
        let p = path + ".mapping["@ + m[n - 1].0@ + "]"@;
        let e2 = enter_errors(spec, v1, p, reference, opts.has(Options::IgnoreExternalReferences));
        let v2 = v1.insert(reference);
        if unvisited(u, v1) <= unvisited(u, vis) && follows(spec, v1, reference) && unvisited(u, v2) < unvisited(
            u,
            v1,
        ) {
            let (e3, v3) = walk_schema(spec, opts, u, v2, schema_at(spec, reference)->0, reference);
            (e1 + e2 + e3, v3)
        } else {
            (e1 + e2, v2)
        }
    }
}

/// Checks a schema or a `$ref` to one, found at `path`: a `$ref` is
/// reported if empty, and followed the first time the pass meets it; its
/// target is then checked at the location the `$ref` names.
pub fn validate_schema_ref(ctx: &mut Context<'_, Spec>, r: &RefOr<Schema>, path: String, Ghost(u): Ghost<Seq<Seq<char>>>)
    requires
        covered(u, *old(ctx).spec, ref_or_refs(*r)),
    ensures
        final(ctx).extends(old(ctx)),
        walked(*old(ctx), *final(ctx), walk_ref(*old(ctx).spec, old(ctx).options, u, old(ctx).visited_set(), *r, path@)),
        match *r {
            RefOr::Ref(x) => {
                &&& (old(ctx).errors_view() + enter_errors(
                    *old(ctx).spec,
                    old(ctx).visited_set(),
                    path@,
                    x.reference@,
                    old(ctx).has_option(Options::IgnoreExternalReferences),
                )).is_prefix_of(final(ctx).errors_view())
                &&& final(ctx).visited_set().contains(x.reference@)
            },
            RefOr::Item(s) => (old(ctx).errors_view() + schema_head_errors(
                path@,
                s,
                old(ctx).has_option(Options::IgnoreEmptyExternalDocumentationUrl),
                old(ctx).has_option(Options::IgnoreInvalidUrls),
            )).is_prefix_of(final(ctx).errors_view()),
        },
    decreases unvisited(u, old(ctx).visited_set()), r, 2nat,
{
    match r {
        RefOr::Ref(x) => {
            let ghost v0 = ctx.visited_set();
            let ghost e0 = ctx.errors_view();
            let target = enter_schema_ref(ctx, &x.reference, path.as_str());
            let ghost mid = ctx.errors_view();
            assert(mid.is_prefix_of(mid));
            match target {
                Some(t) => {
                    proof {
                        assert(ref_or_refs(*r)[0] == x.reference@);
                        lemma_unvisited_strict(u, v0, ctx.visited_set(), x.reference@);
                        lemma_target_within(*ctx.spec, x.reference@, u);
                    }
                    let ghost c1 = *ctx;
                    validate_schema(ctx, t, x.reference.clone(), Ghost(u));
                    assert(ctx.errors_view() =~= e0 + walk_ref(*old(ctx).spec, old(ctx).options, u, v0, *r, path@).0);
                },
                None => {},
            }
        },
        RefOr::Item(s) => {
            validate_schema(ctx, s, path, Ghost(u));
        },
    }
}

/// Checks a schema found at `path`: the checks of its kind, then each of its
/// subschemas (a `$ref` among them is followed the first time the pass
/// meets it), then its discriminator.
pub fn validate_schema(ctx: &mut Context<'_, Spec>, s: &Schema, path: String, Ghost(u): Ghost<Seq<Seq<char>>>)
    requires
        covered(u, *old(ctx).spec, schema_refs(*s)),
    ensures
        final(ctx).extends(old(ctx)),
        walked(*old(ctx), *final(ctx), walk_schema(*old(ctx).spec, old(ctx).options, u, old(ctx).visited_set(), *s, path@)),
        (old(ctx).errors_view() + schema_head_errors(
            path@,
            *s,
            old(ctx).has_option(Options::IgnoreEmptyExternalDocumentationUrl),
            old(ctx).has_option(Options::IgnoreInvalidUrls),
        )).is_prefix_of(final(ctx).errors_view()),
    decreases unvisited(u, old(ctx).visited_set()), s, 2nat,
{
    let ghost spec = *old(ctx).spec;
    let ghost opts = old(ctx).options;
    let ghost vis = old(ctx).visited_set();
    let ghost e0 = old(ctx).errors_view();
    match s {
        Schema::Bool(_) => {},
        Schema::Empty(_) => {},
        Schema::Multi(m) => {
            validate_multi(ctx, m, path);
        },
        Schema::Single(b) => {
            proof {
                assert(decreases_to!(*s => (*s)->Single_0));
            }
            validate_single(ctx, b, path, Ghost(u));
        },
        Schema::AllOf(b) => {
            if b.all_of.len() == 0 {
                ctx.error(path.as_str(), "`allOf` must be a non-empty array");
            }
            validate_list(ctx, &b.all_of, path.as_str(), ".allOf[", Ghost(u), Ghost(*s));
            if let Some(d) = &b.discriminator {
                proof {
                    lemma_within_concat(list_refs(b.all_of@), discriminator_refs(b.discriminator), u);
                }
                let p = concat(path.as_str(), ".discriminator");
                validate_discriminator_in(ctx, d, p.as_str(), Ghost(u), Ghost(*s));
                assert(ctx.errors_view() =~= e0 + walk_schema(spec, opts, u, vis, *s, path@).0);
            } else {
                assert(ctx.errors_view() =~= e0 + walk_schema(spec, opts, u, vis, *s, path@).0);
            }
        },
        Schema::AnyOf(b) => {
            if b.any_of.len() == 0 {
                ctx.error(path.as_str(), "`anyOf` must be a non-empty array");
            }
            validate_list(ctx, &b.any_of, path.as_str(), ".anyOf[", Ghost(u), Ghost(*s));
            if let Some(d) = &b.discriminator {
                proof {
                    lemma_within_concat(list_refs(b.any_of@), discriminator_refs(b.discriminator), u);
                }
                let p = concat(path.as_str(), ".discriminator");
                validate_discriminator_in(ctx, d, p.as_str(), Ghost(u), Ghost(*s));
                assert(ctx.errors_view() =~= e0 + walk_schema(spec, opts, u, vis, *s, path@).0);
            } else {
                assert(ctx.errors_view() =~= e0 + walk_schema(spec, opts, u, vis, *s, path@).0);
            }
        },
        Schema::OneOf(b) => {
            if b.one_of.len() == 0 {
                ctx.error(path.as_str(), "`oneOf` must be a non-empty array");
            }
            validate_list(ctx, &b.one_of, path.as_str(), ".oneOf[", Ghost(u), Ghost(*s));
            if let Some(d) = &b.discriminator {
                proof {
                    lemma_within_concat(list_refs(b.one_of@), discriminator_refs(b.discriminator), u);
                }
                let p = concat(path.as_str(), ".discriminator");
                validate_discriminator_in(ctx, d, p.as_str(), Ghost(u), Ghost(*s));
                assert(ctx.errors_view() =~= e0 + walk_schema(spec, opts, u, vis, *s, path@).0);
            } else {
                assert(ctx.errors_view() =~= e0 + walk_schema(spec, opts, u, vis, *s, path@).0);
            }
        },
        Schema::Not(b) => {
            proof {
                assert(decreases_to!(*s => (*s)->Not_0));
                assert((*s)->Not_0 == *b);
                assert(decreases_to!(**b => b.not));
            }
            let p = concat(path.as_str(), ".not");
            validate_schema_ref(ctx, &b.not, p, Ghost(u));
        },
    }
    assert(e0 + Seq::<Seq<char>>::empty() =~= e0);
}

/// Checks each schema of the list `v` of the composed schema `host`, found
/// at `<path><open><index>]`.
fn validate_list(
    ctx: &mut Context<'_, Spec>,
    v: &Vec<RefOr<Schema>>,
    path: &str,
    open: &str,
    Ghost(u): Ghost<Seq<Seq<char>>>,
    Ghost(host): Ghost<Schema>,
)
    requires
        match host {
            Schema::AllOf(b) => b.all_of == *v,
            Schema::AnyOf(b) => b.any_of == *v,
            Schema::OneOf(b) => b.one_of == *v,
            _ => false,
        },
        covered(u, *old(ctx).spec, schema_refs(host)),
    ensures
        final(ctx).extends(old(ctx)),
        walked(
            *old(ctx),
            *final(ctx),
            walk_list(*old(ctx).spec, old(ctx).options, u, old(ctx).visited_set(), v@, v@.len(), path@, open@),
        ),
        unvisited(u, final(ctx).visited_set()) <= unvisited(u, old(ctx).visited_set()),
    decreases unvisited(u, old(ctx).visited_set()), host, 1nat,
{
    let ghost spec = *old(ctx).spec;
    let ghost opts = old(ctx).options;
    let ghost vis = old(ctx).visited_set();
    proof {
        match host {
            Schema::AllOf(b) => lemma_within_concat(list_refs(b.all_of@), discriminator_refs(b.discriminator), u),
            Schema::AnyOf(b) => lemma_within_concat(list_refs(b.any_of@), discriminator_refs(b.discriminator), u),
            Schema::OneOf(b) => lemma_within_concat(list_refs(b.one_of@), discriminator_refs(b.discriminator), u),
            _ => {},
        }
    }
    assert(old(ctx).errors_view() =~= old(ctx).errors_view() + walk_list(spec, opts, u, vis, v@, 0, path@, open@).0);
    let mut i: usize = 0;
    while i < v.len()
        invariant
            i <= v.len(),
            within(list_refs(v@), u),
            within(comp_refs(spec), u),
            spec == *old(ctx).spec,
            opts == old(ctx).options,
            vis == old(ctx).visited_set(),
            match host {
                Schema::AllOf(b) => b.all_of == *v,
                Schema::AnyOf(b) => b.any_of == *v,
                Schema::OneOf(b) => b.one_of == *v,
                _ => false,
            },
            ctx.extends(old(ctx)),
            walked(*old(ctx), *ctx, walk_list(spec, opts, u, vis, v@, i as nat, path@, open@)),
            unvisited(u, ctx.visited_set()) <= unvisited(u, vis),
        decreases v.len() - i,
    {
        proof {
            lemma_within_list(v@, u, i as int);
            match host {
                Schema::AllOf(b) => {
                    assert(decreases_to!(host => host->AllOf_0));
                    assert(decreases_to!(*b => b.all_of));
                },
                Schema::AnyOf(b) => {
                    assert(decreases_to!(host => host->AnyOf_0));
                    assert(decreases_to!(*b => b.any_of));
                },
                Schema::OneOf(b) => {
                    assert(decreases_to!(host => host->OneOf_0));
                    assert(decreases_to!(*b => b.one_of));
                },
                _ => {},
            }
            assert(decreases_to!(*v => v@));
            assert(decreases_to!(v@ => v@[i as int]));
        }
        let mut p = concat(path, open);
        push_str(&mut p, decimal_string(i).as_str());
        push_str(&mut p, "]");
        let ghost c0 = *ctx;
        validate_schema_ref(ctx, &v[i], p, Ghost(u));
        proof {
            lemma_unvisited_mono(u, c0.visited_set(), ctx.visited_set());
            assert(ctx.errors_view() =~= old(ctx).errors_view() + walk_list(
                spec,
                opts,
                u,
                vis,
                v@,
                (i + 1) as nat,
                path@,
                open@,
            ).0);
        }
        i = i + 1;
    }
}

/// Checks the discriminator `d` of the schema `host`, found at `path`: a
/// non-empty property name, then each mapping value as a `$ref` to
/// `#/components/schemas/<value>`.
fn validate_discriminator_in(
    ctx: &mut Context<'_, Spec>,
    d: &Discriminator,
    path: &str,
    Ghost(u): Ghost<Seq<Seq<char>>>,
    Ghost(host): Ghost<Schema>,
)
    requires
        covered(u, *old(ctx).spec, discriminator_refs(Some(*d))),
    ensures
        final(ctx).extends(old(ctx)),
        walked(
            *old(ctx),
            *final(ctx),
            walk_discriminator(*old(ctx).spec, old(ctx).options, u, old(ctx).visited_set(), *d, path@, host),
        ),
    decreases unvisited(u, old(ctx).visited_set()), host, 1nat,
{
    let pn = concat(path, ".propertyName");
    validate_required_string(ctx, d.property_name.as_str(), pn.as_str());
    let ghost c1 = *ctx;
    validate_mapping(ctx, d, to_owned_string(path), Ghost(u), Ghost(host));
    assert(ctx.errors_view() =~= old(ctx).errors_view() + walk_discriminator(
        *old(ctx).spec,
        old(ctx).options,
        u,
        old(ctx).visited_set(),
        *d,
        path@,
        host,
    ).0);
}

/// What checking the mapping of the discriminator `d`, found at `path`,
/// reports; `host` names the schema that holds it, if any.
pub open spec fn walk_mapping_of(
    spec: Spec,
    opts: OptionSet,
    u: Seq<Seq<char>>,
    vis: Set<Seq<char>>,
    d: Discriminator,
    path: Seq<char>,
    host: Schema,
) -> (Seq<Seq<char>>, Set<Seq<char>>) {
    match d.mapping {
        Some(m) => walk_mapping(spec, opts, u, vis, m@, m@.len(), path, host),
        None => (seq![], vis),
    }
}

/// Checks each mapping value of the discriminator found at `path` as a
/// `$ref` to `#/components/schemas/<value>`, found at `<path>.mapping[<key>]`.
pub fn validate_mapping(
    ctx: &mut Context<'_, Spec>,
    d: &Discriminator,
    path: String,
    Ghost(u): Ghost<Seq<Seq<char>>>,
    Ghost(host): Ghost<Schema>,
)
    requires
        covered(u, *old(ctx).spec, discriminator_refs(Some(*d))),
    ensures
        final(ctx).extends(old(ctx)),
        walked(*old(ctx), *final(ctx), walk_mapping_of(*old(ctx).spec, old(ctx).options, u, old(ctx).visited_set(), *d, path@, host)),
        forall|k: int| #![trigger d.mapping->0@[k]]
            d.mapping is Some && 0 <= k < d.mapping->0@.len() ==> final(ctx).visited_set().contains(
                "#/components/schemas/"@ + d.mapping->0@[k].1@,
            ),
    decreases unvisited(u, old(ctx).visited_set()), host, 0nat,
{
    let ghost spec = *old(ctx).spec;
    let ghost opts = old(ctx).options;
    let ghost vis = old(ctx).visited_set();
    if let Some(mapping) = &d.mapping {
        assert(old(ctx).errors_view() =~= old(ctx).errors_view() + walk_mapping(spec, opts, u, vis, mapping@, 0, path@, host).0);
        let mut i: usize = 0;
        while i < mapping.len()
            invariant
                i <= mapping.len(),
                d.mapping == Some(*mapping),
                spec == *old(ctx).spec,
                opts == old(ctx).options,
                vis == old(ctx).visited_set(),
                ctx.extends(old(ctx)),
                covered(u, *old(ctx).spec, discriminator_refs(Some(*d))),
                walked(*old(ctx), *ctx, walk_mapping(spec, opts, u, vis, mapping@, i as nat, path@, host)),
                unvisited(u, ctx.visited_set()) <= unvisited(u, vis),
                forall|k: int| #![trigger mapping@[k]]
                    0 <= k < i ==> ctx.visited_set().contains("#/components/schemas/"@ + mapping@[k].1@),
            decreases mapping.len() - i,
        {
            let (key, value) = &mapping[i];
            let reference = concat("#/components/schemas/", value.as_str());
            let mut p = concat(path.as_str(), ".mapping[");
            push_str(&mut p, key.as_str());
            push_str(&mut p, "]");
            let ghost c0 = *ctx;
            let target = enter_schema_ref(ctx, &reference, p.as_str());
            proof {
                assert(mapping_refs(d.mapping)[i as int] == reference@);
                lemma_unvisited_mono(u, c0.visited_set(), ctx.visited_set());
            }
            match target {
                Some(t) => {
                    proof {
                        lemma_unvisited_strict(u, c0.visited_set(), ctx.visited_set(), reference@);
                        lemma_target_within(*ctx.spec, reference@, u);
                    }
                    let ghost c1 = *ctx;
                    validate_schema(ctx, t, reference, Ghost(u));
                    proof {
                        lemma_unvisited_mono(u, c1.visited_set(), ctx.visited_set());
                    }
                },
                None => {},
            }
            assert(ctx.errors_view() =~= old(ctx).errors_view() + walk_mapping(
                spec,
                opts,
                u,
                vis,
                mapping@,
                (i + 1) as nat,
                path@,
                host,
            ).0);
            i = i + 1;
        }
    } else {
        assert(old(ctx).errors_view() =~= old(ctx).errors_view() + Seq::<Seq<char>>::empty());
    }
}

/// Checks a schema with a list of types found at `path`: at least one type,
/// each a known type and listed once, then its external documentation.
fn validate_multi(ctx: &mut Context<'_, Spec>, m: &MultiSchema, path: String)
    ensures
        final(ctx).errors_view() == old(ctx).errors_view() + multi_errors(
            path@,
            *m,
            old(ctx).has_option(Options::IgnoreEmptyExternalDocumentationUrl),
            old(ctx).has_option(Options::IgnoreInvalidUrls),
        ),
        final(ctx).visited == old(ctx).visited,
        final(ctx).spec == old(ctx).spec,
        final(ctx).options == old(ctx).options,
{
    let ghost types = crate::common::patterns::views(m.schema_types@);
    let tp = concat(path.as_str(), ".type");
    if m.schema_types.len() == 0 {
        ctx.error(tp.as_str(), "must contain at least one element");
    }
    let ghost e1 = ctx.errors_view();
    assert(e1 == old(ctx).errors_view() + (if types.len() == 0 {
        seq![error_line(path@ + ".type"@, "must contain at least one element"@)]
    } else {
        seq![]
    }));
    let mut i: usize = 0;
    while i < m.schema_types.len()
        invariant
            i <= m.schema_types.len(),
            types == crate::common::patterns::views(m.schema_types@),
            tp@ == path@ + ".type"@,
            ctx.errors_view() == e1 + type_list_errors(path@, types, i as nat),
            ctx.visited == old(ctx).visited,
            ctx.spec == old(ctx).spec,
            ctx.options == old(ctx).options,
        decreases m.schema_types.len() - i,
    {
        let t = &m.schema_types[i];
        let ghost before = ctx.errors_view();
        let ts = t.as_str();
        let known = str_equal(ts, "string") || str_equal(ts, "number") || str_equal(ts, "integer") || str_equal(
            ts,
            "object",
        ) || str_equal(ts, "array") || str_equal(ts, "boolean") || str_equal(ts, "null");
        if !known {
            let mut msg = concat("type `", ts);
            push_str(&mut msg, "` is not supported");
            ctx.error(tp.as_str(), msg.as_str());
        }
        let ghost mid = ctx.errors_view();
        let mut seen = false;
        let mut j: usize = 0;
        while j < i
            invariant
                j <= i < m.schema_types.len(),
                types == crate::common::patterns::views(m.schema_types@),
                t@ == types[i as int],
                ts@ == t@,
                seen == types.take(j as int).contains(t@),
            decreases i - j,
        {
            let same = str_equal(m.schema_types[j].as_str(), ts);
            proof {
                let before = types.take(j as int);
                let after = types.take(j + 1);
                assert(after =~= before.push(types[j as int]));
                if same {
                    assert(after[j as int] == t@);
                }
                if after.contains(t@) && !before.contains(t@) {
                    let w = choose|w: int| 0 <= w < after.len() && after[w] == t@;
                    if w < j {
                        assert(before[w] == after[w]);
                    }
                }
                if before.contains(t@) {
                    let w = choose|w: int| 0 <= w < before.len() && before[w] == t@;
                    assert(after[w] == before[w]);
                }
            }
            if same {
                seen = true;
            }
            j = j + 1;
        }
        if seen {
            let mut msg = concat("type `", ts);
            push_str(&mut msg, "` is not unique");
            ctx.error(tp.as_str(), msg.as_str());
        }
        proof {
            assert(types[i as int] == t@);
            assert(ctx.errors_view() =~= e1 + type_list_errors(path@, types, (i + 1) as nat));
        }
        i = i + 1;
    }
    let ghost e2 = ctx.errors_view();
    match &m.external_docs {
        Some(docs) => {
            let p = concat(path.as_str(), ".externalDocs");
            docs.validate(ctx, p);
        },
        None => {},
    }
    assert(ctx.errors_view() =~= old(ctx).errors_view() + multi_errors(
        path@,
        *m,
        old(ctx).has_option(Options::IgnoreEmptyExternalDocumentationUrl),
        old(ctx).has_option(Options::IgnoreInvalidUrls),
    ));
}

/// Reports the lower bound `lo` of a schema at `path` if it exceeds the upper bound `hi`.
fn check_bounds(ctx: &mut Context<'_, Spec>, path: &str, lo_name: &str, hi_name: &str, lo: Option<u64>, hi: Option<u64>)
    ensures
        final(ctx).errors_view() == old(ctx).errors_view() + bounds_errors(path@, lo_name@, hi_name@, lo, hi),
        final(ctx).visited == old(ctx).visited,
        final(ctx).spec == old(ctx).spec,
        final(ctx).options == old(ctx).options,
{
    match (lo, hi) {
        (Some(min), Some(max)) => {
            if min > max {
                let mut m = concat("`", lo_name);
                push_str(&mut m, "` (");
                push_str(&mut m, decimal_string_u64(min).as_str());
                push_str(&mut m, ") must be ≤ `");
                push_str(&mut m, hi_name);
                push_str(&mut m, "` (");
                push_str(&mut m, decimal_string_u64(max).as_str());
                push_str(&mut m, ")");
                ctx.error(path, m.as_str());
            } else {
                assert(ctx.errors_view() + Seq::<Seq<char>>::empty() =~= ctx.errors_view());
            }
        },
        _ => {
            assert(ctx.errors_view() + Seq::<Seq<char>>::empty() =~= ctx.errors_view());
        },
    }
}

/// Reports `x-enumDescriptions` of a schema at `path` that does not give one
/// description per enum value.
fn check_enum_descriptions(ctx: &mut Context<'_, Spec>, path: &str, enum_len: Option<usize>, descriptions: &Option<Vec<String>>)
    ensures
        final(ctx).errors_view() == old(ctx).errors_view() + enum_descriptions_errors(
            path@,
            match enum_len { Some(n) => Some(n as nat), None => None },
            *descriptions,
        ),
        final(ctx).visited == old(ctx).visited,
        final(ctx).spec == old(ctx).spec,
        final(ctx).options == old(ctx).options,
{
    match (enum_len, descriptions) {
        (Some(n), Some(d)) => {
            if d.len() != n {
                let p = concat(path, ".x-enumDescriptions");
                let mut m = concat("must contain exactly one description per enum value (", decimal_string(n).as_str());
                push_str(&mut m, " expected, ");
                push_str(&mut m, decimal_string(d.len()).as_str());
                push_str(&mut m, " found)");
                ctx.error(p.as_str(), m.as_str());
            } else {
                assert(ctx.errors_view() + Seq::<Seq<char>>::empty() =~= ctx.errors_view());
            }
        },
        _ => {
            assert(ctx.errors_view() + Seq::<Seq<char>>::empty() =~= ctx.errors_view());
        },
    }
}

/// The number of items of an optional list.
fn opt_len<T>(v: &Option<Vec<T>>) -> (res: Option<usize>)
    ensures
        res is None <==> v is None,
        res is Some ==> res->0 == v->0@.len(),
{
    match v {
        Some(x) => Some(x.len()),
        None => None,
    }
}

/// The checks of an `integer` schema found at `path` that come before any
/// of its subschemas.
fn check_integer_head(ctx: &mut Context<'_, Spec>, path: &str, x: &IntegerSchema)
    ensures
        final(ctx).errors_view() == old(ctx).errors_view() + single_head_errors(
            path@,
            SingleSchema::Integer(*x),
            old(ctx).has_option(Options::IgnoreEmptyExternalDocumentationUrl),
            old(ctx).has_option(Options::IgnoreInvalidUrls),
        ),
        final(ctx).visited == old(ctx).visited,
        final(ctx).spec == old(ctx).spec,
        final(ctx).options == old(ctx).options,
{
    let ghost e0 = ctx.errors_view();
    check_common_head(ctx, path, x.read_only, x.write_only, &x.external_docs);
    check_multiple_of(ctx, path, &x.multiple_of);
    let n = opt_len(&x.enum_values);
    check_enum_descriptions(ctx, path, n, &x.x_enum_descriptions);
    assert(ctx.errors_view() =~= e0 + single_head_errors(
        path@,
        SingleSchema::Integer(*x),
        ctx.has_option(Options::IgnoreEmptyExternalDocumentationUrl),
        ctx.has_option(Options::IgnoreInvalidUrls),
    ));
}

/// The checks of a `number` schema found at `path` that come before any of
/// its subschemas.
fn check_number_head(ctx: &mut Context<'_, Spec>, path: &str, x: &NumberSchema)
    ensures
        final(ctx).errors_view() == old(ctx).errors_view() + single_head_errors(
            path@,
            SingleSchema::Number(*x),
            old(ctx).has_option(Options::IgnoreEmptyExternalDocumentationUrl),
            old(ctx).has_option(Options::IgnoreInvalidUrls),
        ),
        final(ctx).visited == old(ctx).visited,
        final(ctx).spec == old(ctx).spec,
        final(ctx).options == old(ctx).options,
{
    let ghost e0 = ctx.errors_view();
    check_common_head(ctx, path, x.read_only, x.write_only, &x.external_docs);
    check_multiple_of(ctx, path, &x.multiple_of);
    check_enum_descriptions(ctx, path, x.enum_len, &x.x_enum_descriptions);
    assert(ctx.errors_view() =~= e0 + single_head_errors(
        path@,
        SingleSchema::Number(*x),
        ctx.has_option(Options::IgnoreEmptyExternalDocumentationUrl),
        ctx.has_option(Options::IgnoreInvalidUrls),
    ));
}

/// The checks of a schema with one type found at `path` that come before
/// any of its subschemas.
#[verifier::spinoff_prover]
#[verifier::rlimit(60)]
fn check_single_head(ctx: &mut Context<'_, Spec>, s: &SingleSchema, path: &str)
    ensures
        final(ctx).errors_view() == old(ctx).errors_view() + single_head_errors(
            path@,
            *s,
            old(ctx).has_option(Options::IgnoreEmptyExternalDocumentationUrl),
            old(ctx).has_option(Options::IgnoreInvalidUrls),
        ),
        final(ctx).visited == old(ctx).visited,
        final(ctx).spec == old(ctx).spec,
        final(ctx).options == old(ctx).options,
{
    let ghost ie = old(ctx).has_option(Options::IgnoreEmptyExternalDocumentationUrl);
    let ghost ii = old(ctx).has_option(Options::IgnoreInvalidUrls);
    let ghost e0 = ctx.errors_view();
    match s {
        SingleSchema::String(x) => {
            check_common_head(ctx, path, x.read_only, x.write_only, &x.external_docs);
            let ghost e1 = ctx.errors_view();
            check_bounds(ctx, path, "minLength", "maxLength", x.min_length, x.max_length);
            let ghost e2 = ctx.errors_view();
            let n = opt_len(&x.enum_values);
            check_enum_descriptions(ctx, path, n, &x.x_enum_descriptions);
            assert(ctx.errors_view() =~= e0 + single_head_errors(path@, *s, ie, ii));
        },
        SingleSchema::Integer(x) => {
            check_integer_head(ctx, path, x);
        },
        SingleSchema::Number(x) => {
            check_number_head(ctx, path, x);
        },
        SingleSchema::Boolean(x) => {
            check_common_head(ctx, path, x.read_only, x.write_only, &x.external_docs);
        },
        SingleSchema::Null(x) => {
            check_common_head(ctx, path, x.read_only, x.write_only, &x.external_docs);
        },
        SingleSchema::Array(x) => {
            check_common_head(ctx, path, x.read_only, x.write_only, &x.external_docs);
        },
        SingleSchema::Object(x) => {
            check_common_head(ctx, path, x.read_only, x.write_only, &x.external_docs);
            check_bounds(ctx, path, "minProperties", "maxProperties", x.min_properties, x.max_properties);
            assert(ctx.errors_view() =~= e0 + single_head_errors(path@, *s, ie, ii));
        },
    }
}

/// What checking the first `n` schemas of the map `v` reports, each found
/// at `<path><open><key><close>`; with `patterns`, each key is then checked
/// as a regular expression at that same place.
pub open spec fn walk_entries(
    spec: Spec,
    opts: OptionSet,
    u: Seq<Seq<char>>,
    vis: Set<Seq<char>>,
    v: Seq<(String, RefOr<Schema>)>,
    n: nat,
    path: Seq<char>,
    open: Seq<char>,
    close: Seq<char>,
    patterns: bool,
) -> (Seq<Seq<char>>, Set<Seq<char>>)
    decreases unvisited(u, vis), v, 0nat, n,
{
    if n == 0 || n > v.len() {
        (seq![], vis)
    } else {
        let (e1, v1) = walk_entries(spec, opts, u, vis, v, (n - 1) as nat, path, open, close, patterns);
        if unvisited(u, v1) <= unvisited(u, vis) {
            proof {
                assert(decreases_to!(v => v[n - 1]));
                assert(decreases_to!(v[n - 1] => v[n - 1].1));
            }
            let p = path + open + v[n - 1].0@ + close;
            let (e2, v2) = walk_ref(spec, opts, u, v1, v[n - 1].1, p);
            let e3 = if patterns {
                pattern_errors(p, v[n - 1].0@)
            } else {
                seq![]
            };
            (e1 + e2 + e3, v2)
        } else {
            (e1, v1)
        }
    }
}

/// What checking an optional map of schemas `o` reports (see [`walk_entries`]).
pub open spec fn walk_opt_entries(
    spec: Spec,
    opts: OptionSet,
    u: Seq<Seq<char>>,
    vis: Set<Seq<char>>,
    o: Option<Vec<(String, RefOr<Schema>)>>,
    path: Seq<char>,
    open: Seq<char>,
    close: Seq<char>,
    patterns: bool,
) -> (Seq<Seq<char>>, Set<Seq<char>>)
    decreases unvisited(u, vis), o, 2nat, 0nat,
{
    match o {
        Some(p) => {
            proof {
                assert(decreases_to!(o => o->Some_0));
                assert(decreases_to!(p => p@));
            }
            walk_entries(spec, opts, u, vis, p@, p@.len(), path, open, close, patterns)
        },
        None => (seq![], vis),
    }
}

/// What checking an optional boolean-or-schema `o`, found at `path`,
/// reports: a boolean reports nothing.
pub open spec fn walk_bool_or(
    spec: Spec,
    opts: OptionSet,
    u: Seq<Seq<char>>,
    vis: Set<Seq<char>>,
    o: Option<BoolOr<RefOr<Schema>>>,
    path: Seq<char>,
) -> (Seq<Seq<char>>, Set<Seq<char>>)
    decreases unvisited(u, vis), o, 2nat, 0nat,
{
    match o {
        Some(BoolOr::Item(r)) => {
            proof {
                assert(decreases_to!(o => o->Some_0));
                assert(decreases_to!(o->Some_0 => r));
            }
            walk_ref(spec, opts, u, vis, r, path)
        },
        _ => (seq![], vis),
    }
}

/// What checking an optional schema `o`, found at `path`, reports.
pub open spec fn walk_opt_ref(
    spec: Spec,
    opts: OptionSet,
    u: Seq<Seq<char>>,
    vis: Set<Seq<char>>,
    o: Option<RefOr<Schema>>,
    path: Seq<char>,
) -> (Seq<Seq<char>>, Set<Seq<char>>)
    decreases unvisited(u, vis), o, 2nat, 0nat,
{
    match o {
        Some(r) => {
            proof {
                assert(decreases_to!(o => o->Some_0));
            }
            walk_ref(spec, opts, u, vis, r, path)
        },
        None => (seq![], vis),
    }
}

/// What checking the subschemas of the object schema `x`, found at `path`,
/// reports: its properties, pattern properties (each key a regular
/// expression), additional and unevaluated properties, and property names.
pub open spec fn walk_object(
    spec: Spec,
    opts: OptionSet,
    u: Seq<Seq<char>>,
    vis: Set<Seq<char>>,
    x: ObjectSchema,
    path: Seq<char>,
) -> (Seq<Seq<char>>, Set<Seq<char>>)
    decreases unvisited(u, vis), x, 2nat, 0nat,
{
    proof {
        assert(decreases_to!(x => x.properties));
        assert(decreases_to!(x => x.pattern_properties));
        assert(decreases_to!(x => x.additional_properties));
        assert(decreases_to!(x => x.unevaluated_properties));
        assert(decreases_to!(x => x.property_names));
    }
    let (e1, v1) = walk_opt_entries(spec, opts, u, vis, x.properties, path, ".properties."@, ""@, false);
    if unvisited(u, v1) <= unvisited(u, vis) {
        let (e2, v2) = walk_opt_entries(spec, opts, u, v1, x.pattern_properties, path, ".pattern_properties["@, "]"@, true);
        if unvisited(u, v2) <= unvisited(u, vis) {
            let (e3, v3) = walk_bool_or(spec, opts, u, v2, x.additional_properties, path + ".additionalProperties"@);
            if unvisited(u, v3) <= unvisited(u, vis) {
                let (e4, v4) = walk_bool_or(spec, opts, u, v3, x.unevaluated_properties, path + ".unevaluatedProperties"@);
                if unvisited(u, v4) <= unvisited(u, vis) {
                    let (e5, v5) = walk_opt_ref(spec, opts, u, v4, x.property_names, path + ".propertyNames"@);
                    (e1 + e2 + e3 + e4 + e5, v5)
                } else {
                    (e1 + e2 + e3 + e4, v4)
                }
            } else {
                (e1 + e2 + e3, v3)
            }
        } else {
            (e1 + e2, v2)
        }
    } else {
        (e1, v1)
    }
}

/// `walk_object` is its five parts in turn, on a pass that only adds to the
/// visited `$ref`s.
pub proof fn lemma_walk_object(
    spec: Spec,
    opts: OptionSet,
    u: Seq<Seq<char>>,
    vis: Set<Seq<char>>,
    x: ObjectSchema,
    path: Seq<char>,
)
    ensures
        ({
            let w1 = walk_opt_entries(spec, opts, u, vis, x.properties, path, ".properties."@, ""@, false);
            let w2 = walk_opt_entries(spec, opts, u, w1.1, x.pattern_properties, path, ".pattern_properties["@, "]"@, true);
            let w3 = walk_bool_or(spec, opts, u, w2.1, x.additional_properties, path + ".additionalProperties"@);
            let w4 = walk_bool_or(spec, opts, u, w3.1, x.unevaluated_properties, path + ".unevaluatedProperties"@);
            let w5 = walk_opt_ref(spec, opts, u, w4.1, x.property_names, path + ".propertyNames"@);
            unvisited(u, w1.1) <= unvisited(u, vis) && unvisited(u, w2.1) <= unvisited(u, vis) && unvisited(u, w3.1)
                <= unvisited(u, vis) && unvisited(u, w4.1) <= unvisited(u, vis) ==> walk_object(spec, opts, u, vis, x, path)
                == (w1.0 + w2.0 + w3.0 + w4.0 + w5.0, w5.1)
        }),
{
}

/// The diagnostics of the first `n` names of `x-tags` at `path`.
pub open spec fn x_tags_errors(path: Seq<char>, tags: Seq<String>, n: nat) -> Seq<Seq<char>>
    decreases n,
{
    if n == 0 {
        seq![]
    } else {
        x_tags_errors(path, tags, (n - 1) as nat) + required_string_errors(
            path + ".x-tags["@ + decimal((n - 1) as nat) + "]"@,
            tags[n - 1]@,
        )
    }
}

/// The diagnostics of the code-generation extensions of an object schema at
/// `path`: non-empty `x-tags` names and a non-empty `x-discriminator-value`.
pub open spec fn object_tail_errors(path: Seq<char>, x: ObjectSchema) -> Seq<Seq<char>> {
    (match x.x_tags {
        Some(t) => x_tags_errors(path, t@, t@.len()),
        None => seq![],
    }) + match x.x_discriminator_value {
        Some(v) => required_string_errors(path + ".x-discriminator-value"@, v@),
        None => seq![],
    }
}

/// What checking the schema with one type `s`, found at `path`, reports:
/// the checks of its type, then its subschemas, then the checks that come
/// after them (item bounds; code-generation extensions).
pub open spec fn walk_single(
    spec: Spec,
    opts: OptionSet,
    u: Seq<Seq<char>>,
    vis: Set<Seq<char>>,
    s: SingleSchema,
    path: Seq<char>,
) -> (Seq<Seq<char>>, Set<Seq<char>>)
    decreases unvisited(u, vis), s, 2nat, 0nat,
{
    let head = single_head_errors(
        path,
        s,
        opts.has(Options::IgnoreEmptyExternalDocumentationUrl),
        opts.has(Options::IgnoreInvalidUrls),
    );
    match s {
        SingleSchema::Array(x) => {
            proof {
                assert(decreases_to!(s => s->Array_0));
                assert(decreases_to!(x => x.items));
            }
            let (e1, v1) = walk_bool_or(spec, opts, u, vis, x.items, path + ".items"@);
            (head + e1 + bounds_errors(path, "minItems"@, "maxItems"@, x.min_items, x.max_items), v1)
        },
        SingleSchema::Object(x) => {
            proof {
                assert(decreases_to!(s => s->Object_0));
            }
            let (e1, v1) = walk_object(spec, opts, u, vis, x, path);
            (head + e1 + object_tail_errors(path, x), v1)
        },
        _ => (head, vis),
    }
}

/// Checks a schema with one type found at `path`: read-only and write-only
/// exclude each other; then the checks of its type, and its subschemas.
#[verifier::spinoff_prover]
#[verifier::rlimit(50)]
fn validate_single(ctx: &mut Context<'_, Spec>, s: &SingleSchema, path: String, Ghost(u): Ghost<Seq<Seq<char>>>)
    requires
        covered(u, *old(ctx).spec, single_refs(*s)),
    ensures
        final(ctx).extends(old(ctx)),
        walked(*old(ctx), *final(ctx), walk_single(*old(ctx).spec, old(ctx).options, u, old(ctx).visited_set(), *s, path@)),
        (old(ctx).errors_view() + single_head_errors(
            path@,
            *s,
            old(ctx).has_option(Options::IgnoreEmptyExternalDocumentationUrl),
            old(ctx).has_option(Options::IgnoreInvalidUrls),
        )).is_prefix_of(final(ctx).errors_view()),
    decreases unvisited(u, old(ctx).visited_set()), s, 2nat,
{
    let ghost spec = *old(ctx).spec;
    let ghost opts = old(ctx).options;
    let ghost vis = old(ctx).visited_set();
    check_single_head(ctx, s, path.as_str());
    let ghost head = ctx.errors_view();
    assert(head.is_prefix_of(head));
    match s {
        SingleSchema::Array(x) => {
            if let Some(BoolOr::Item(r)) = &x.items {
                proof {
                    assert(decreases_to!(*s => (*s)->Array_0));
                    assert(decreases_to!(x => x.items));
                    assert(decreases_to!(x.items => x.items->Some_0));
                    assert(decreases_to!(x.items->Some_0 => x.items->Some_0->Item_0));
                }
                let p = concat(path.as_str(), ".items");
                validate_schema_ref(ctx, r, p, Ghost(u));
            } else {
                assert(head =~= head + Seq::<Seq<char>>::empty());
            }
            let ghost c1 = *ctx;
            check_bounds(ctx, path.as_str(), "minItems", "maxItems", x.min_items, x.max_items);
            proof {
                lemma_prefix_trans(head, c1.errors_view(), ctx.errors_view());
            }
            assert(ctx.errors_view() =~= old(ctx).errors_view() + walk_single(spec, opts, u, vis, *s, path@).0);
        },
        SingleSchema::Object(x) => {
            validate_object_children(ctx, x, path.as_str(), Ghost(u), Ghost(*s));
            let ghost c1 = *ctx;
            let ghost e1 = ctx.errors_view();
            if let Some(tags) = &x.x_tags {
                let mut i: usize = 0;
                while i < tags.len()
                    invariant
                        i <= tags.len(),
                        ctx.extends(&c1),
                        ctx.visited == c1.visited,
                        ctx.errors_view() == e1 + x_tags_errors(path@, tags@, i as nat),
                    decreases tags.len() - i,
                {
                    let mut p = concat(path.as_str(), ".x-tags[");
                    push_str(&mut p, decimal_string(i).as_str());
                    push_str(&mut p, "]");
                    validate_required_string(ctx, tags[i].as_str(), p.as_str());
                    i = i + 1;
                }
            }
            let ghost e2 = ctx.errors_view();
            if let Some(value) = &x.x_discriminator_value {
                let p = concat(path.as_str(), ".x-discriminator-value");
                validate_required_string(ctx, value.as_str(), p.as_str());
            }
            proof {
                lemma_prefix_trans(head, c1.errors_view(), ctx.errors_view());
            }
            assert(ctx.errors_view() =~= old(ctx).errors_view() + walk_single(spec, opts, u, vis, *s, path@).0);
        },
        _ => {},
    }
}

/// Checks the subschemas of an object schema found at `path`: its
/// properties, pattern properties, additional and unevaluated properties,
/// and property names.
#[verifier::spinoff_prover]
#[verifier::rlimit(50)]
fn validate_object_children(
    ctx: &mut Context<'_, Spec>,
    x: &ObjectSchema,
    path: &str,
    Ghost(u): Ghost<Seq<Seq<char>>>,
    Ghost(host): Ghost<SingleSchema>,
)
    requires
        host == SingleSchema::Object(*x),
        covered(u, *old(ctx).spec, single_refs(host)),
    ensures
        final(ctx).extends(old(ctx)),
        walked(*old(ctx), *final(ctx), walk_object(*old(ctx).spec, old(ctx).options, u, old(ctx).visited_set(), *x, path@)),
    decreases unvisited(u, old(ctx).visited_set()), host, 1nat,
{
    let ghost spec = *old(ctx).spec;
    let ghost opts = old(ctx).options;
    let ghost vis = old(ctx).visited_set();
    let ghost e0 = old(ctx).errors_view();
    proof {
        lemma_within_concat(
            opt_entries_refs(x.properties) + opt_entries_refs(x.pattern_properties) + bool_or_refs(x.additional_properties)
                + bool_or_refs(x.unevaluated_properties),
            opt_ref_refs(x.property_names),
            u,
        );
        lemma_within_concat(
            opt_entries_refs(x.properties) + opt_entries_refs(x.pattern_properties) + bool_or_refs(x.additional_properties),
            bool_or_refs(x.unevaluated_properties),
            u,
        );
        lemma_within_concat(
            opt_entries_refs(x.properties) + opt_entries_refs(x.pattern_properties),
            bool_or_refs(x.additional_properties),
            u,
        );
        lemma_within_concat(opt_entries_refs(x.properties), opt_entries_refs(x.pattern_properties), u);
    }
    validate_entries(ctx, &x.properties, path, ".properties.", "", false, Ghost(u), Ghost(host));
    let ghost c1 = *ctx;
    validate_entries(ctx, &x.pattern_properties, path, ".pattern_properties[", "]", true, Ghost(u), Ghost(host));
    let ghost c2 = *ctx;
    proof {
        lemma_unvisited_mono(u, vis, c1.visited_set());
    }
    validate_bool_or(ctx, &x.additional_properties, concat(path, ".additionalProperties"), Ghost(u), Ghost(host));
    let ghost c3 = *ctx;
    validate_bool_or(ctx, &x.unevaluated_properties, concat(path, ".unevaluatedProperties"), Ghost(u), Ghost(host));
    let ghost c4 = *ctx;
    if let Some(r) = &x.property_names {
        proof {
            assert(decreases_to!(host => host->Object_0));
            assert(decreases_to!(*x => x.property_names));
            assert(decreases_to!(x.property_names => x.property_names->Some_0));
        }
        let p = concat(path, ".propertyNames");
        validate_schema_ref(ctx, r, p, Ghost(u));
    } else {
        assert(c4.errors_view() =~= c4.errors_view() + Seq::<Seq<char>>::empty());
    }
    proof {
        lemma_unvisited_mono(u, vis, c2.visited_set());
        lemma_unvisited_mono(u, vis, c3.visited_set());
        lemma_unvisited_mono(u, vis, c4.visited_set());
        lemma_walk_object(spec, opts, u, vis, *x, path@);
        let w1 = walk_opt_entries(spec, opts, u, vis, x.properties, path@, ".properties."@, ""@, false);
        let w2 = walk_opt_entries(spec, opts, u, w1.1, x.pattern_properties, path@, ".pattern_properties["@, "]"@, true);
        let w3 = walk_bool_or(spec, opts, u, w2.1, x.additional_properties, path@ + ".additionalProperties"@);
        let w4 = walk_bool_or(spec, opts, u, w3.1, x.unevaluated_properties, path@ + ".unevaluatedProperties"@);
        let w5 = walk_opt_ref(spec, opts, u, w4.1, x.property_names, path@ + ".propertyNames"@);
        assert(ctx.errors_view() =~= e0 + (w1.0 + w2.0 + w3.0 + w4.0 + w5.0));
    }
}

/// Checks an optional boolean-or-schema of the object schema `host`, found
/// at `path`.
fn validate_bool_or(
    ctx: &mut Context<'_, Spec>,
    o: &Option<BoolOr<RefOr<Schema>>>,
    path: String,
    Ghost(u): Ghost<Seq<Seq<char>>>,
    Ghost(host): Ghost<SingleSchema>,
)
    requires
        host matches SingleSchema::Object(x) && (x.additional_properties == *o || x.unevaluated_properties == *o),
        within(bool_or_refs(*o), u),
        within(comp_refs(*old(ctx).spec), u),
    ensures
        final(ctx).extends(old(ctx)),
        walked(*old(ctx), *final(ctx), walk_bool_or(*old(ctx).spec, old(ctx).options, u, old(ctx).visited_set(), *o, path@)),
        unvisited(u, final(ctx).visited_set()) <= unvisited(u, old(ctx).visited_set()),
    decreases unvisited(u, old(ctx).visited_set()), host, 0nat,
{
    if let Some(BoolOr::Item(r)) = o {
        proof {
            let x = host->Object_0;
            assert(decreases_to!(host => x));
            if x.additional_properties == *o {
                assert(decreases_to!(x => x.additional_properties));
            } else {
                assert(decreases_to!(x => x.unevaluated_properties));
            }
            assert(decreases_to!(*o => o->Some_0));
            assert(decreases_to!(o->Some_0 => o->Some_0->Item_0));
        }
        validate_schema_ref(ctx, r, path, Ghost(u));
    } else {
        assert(old(ctx).errors_view() =~= old(ctx).errors_view() + Seq::<Seq<char>>::empty());
    }
    proof {
        lemma_unvisited_mono(u, old(ctx).visited_set(), ctx.visited_set());
    }
}

/// Checks each schema of an optional map of schemas, found at
/// `<path><open><key><close>`; with `keys_are_patterns`, each key is then
/// checked as a regular expression at that same place.
fn validate_entries(
    ctx: &mut Context<'_, Spec>,
    o: &Option<Vec<(String, RefOr<Schema>)>>,
    path: &str,
    open: &str,
    close: &str,
    keys_are_patterns: bool,
    Ghost(u): Ghost<Seq<Seq<char>>>,
    Ghost(host): Ghost<SingleSchema>,
)
    requires
        host matches SingleSchema::Object(x) && (x.properties == *o || x.pattern_properties == *o),
        within(opt_entries_refs(*o), u),
        within(comp_refs(*old(ctx).spec), u),
    ensures
        final(ctx).extends(old(ctx)),
        walked(
            *old(ctx),
            *final(ctx),
            walk_opt_entries(*old(ctx).spec, old(ctx).options, u, old(ctx).visited_set(), *o, path@, open@, close@, keys_are_patterns),
        ),
        unvisited(u, final(ctx).visited_set()) <= unvisited(u, old(ctx).visited_set()),
    decreases unvisited(u, old(ctx).visited_set()), host, 0nat,
{
    let ghost spec = *old(ctx).spec;
    let ghost opts = old(ctx).options;
    let ghost vis = old(ctx).visited_set();
    match o {
        None => {
            assert(old(ctx).errors_view() =~= old(ctx).errors_view() + Seq::<Seq<char>>::empty());
        },
        Some(props) => {
            assert(old(ctx).errors_view() =~= old(ctx).errors_view() + walk_entries(
                spec,
                opts,
                u,
                vis,
                props@,
                0,
                path@,
                open@,
                close@,
                keys_are_patterns,
            ).0);
            let mut i: usize = 0;
            while i < props.len()
                invariant
                    i <= props.len(),
                    *o == Some(*props),
                    host matches SingleSchema::Object(x) && (x.properties == *o || x.pattern_properties == *o),
                    within(entries_refs(props@), u),
                    within(comp_refs(*old(ctx).spec), u),
                    spec == *old(ctx).spec,
                    opts == old(ctx).options,
                    vis == old(ctx).visited_set(),
                    ctx.extends(old(ctx)),
                    walked(
                        *old(ctx),
                        *ctx,
                        walk_entries(spec, opts, u, vis, props@, i as nat, path@, open@, close@, keys_are_patterns),
                    ),
                    unvisited(u, ctx.visited_set()) <= unvisited(u, vis),
                decreases props.len() - i,
            {
                let (name, r) = &props[i];
                proof {
                    lemma_within_entries(props@, u, i as int);
                    let x = host->Object_0;
                    assert(decreases_to!(host => x));
                    if x.properties == *o {
                        assert(decreases_to!(x => x.properties));
                    } else {
                        assert(decreases_to!(x => x.pattern_properties));
                    }
                    assert(decreases_to!(*o => o->Some_0));
                    assert(decreases_to!(*props => props@));
                    assert(decreases_to!(props@ => props@[i as int]));
                    assert(decreases_to!(props@[i as int] => props@[i as int].1));
                }
                let mut p = concat(path, open);
                push_str(&mut p, name.as_str());
                push_str(&mut p, close);
                let ghost c0 = *ctx;
                validate_schema_ref(ctx, r, to_owned_string(p.as_str()), Ghost(u));
                let ghost c1 = *ctx;
                if keys_are_patterns {
                    crate::common::checks::validate_pattern(ctx, name.as_str(), p.as_str());
                } else {
                    assert(c1.errors_view() =~= c1.errors_view() + Seq::<Seq<char>>::empty());
                }
                proof {
                    lemma_unvisited_mono(u, c0.visited_set(), ctx.visited_set());
                    assert(ctx.errors_view() =~= old(ctx).errors_view() + walk_entries(
                        spec,
                        opts,
                        u,
                        vis,
                        props@,
                        (i + 1) as nat,
                        path@,
                        open@,
                        close@,
                        keys_are_patterns,
                    ).0);
                }
                i = i + 1;
            }
        },
    }
}

/// The `$ref`s that checking `s` can follow in `spec`: its own, and those
/// of the schemas of `components.schemas`.
pub open spec fn schema_universe(spec: Spec, s: Schema) -> Seq<Seq<char>> {
    schema_refs(s) + comp_refs(spec)
}

impl ValidateWithContext<Spec> for Schema {
    open spec fn checks(
        &self,
        spec: Spec,
        options: OptionSet,
        visited: Set<Seq<char>>,
        errors: Seq<Seq<char>>,
        path: Seq<char>,
        after: (Seq<Seq<char>>, Set<Seq<char>>),
    ) -> bool {
        let w = walk_schema(
                    spec,
                    options,
                    schema_universe(spec, *self),
                    visited,
                    *self,
                    path,
                );
        after == (errors + w.0, w.1)
    }

    /// Checks the schema found at `path` (see [`validate_schema`]).
    fn validate_with_context(&self, ctx: &mut Context<'_, Spec>, path: String)
        ensures
            walked(
                *old(ctx),
                *final(ctx),
                walk_schema(
                    *old(ctx).spec,
                    old(ctx).options,
                    schema_universe(*old(ctx).spec, *self),
                    old(ctx).visited_set(),
                    *self,
                    path@,
                ),
            ),
            (old(ctx).errors_view() + schema_head_errors(
                path@,
                *self,
                old(ctx).has_option(Options::IgnoreEmptyExternalDocumentationUrl),
                old(ctx).has_option(Options::IgnoreInvalidUrls),
            )).is_prefix_of(final(ctx).errors_view()),
    {
        let ghost u = schema_universe(*ctx.spec, *self);
        proof {
            lemma_within_both(schema_refs(*self), comp_refs(*ctx.spec));
        }
        validate_schema(ctx, self, path, Ghost(u));
    }
}

/// The `object` schema with no keyword set.
pub open spec fn empty_object_schema() -> ObjectSchema {
    ObjectSchema { properties: None, pattern_properties: None, max_properties: None, min_properties: None, additional_properties: None, unevaluated_properties: None, property_names: None, x_tags: None, x_discriminator_value: None, read_only: None, write_only: None, external_docs: None }
}

impl Default for SingleSchema {
    /// The `object` schema with no keyword set.
    fn default() -> (res: SingleSchema)
        ensures
            res == SingleSchema::Object(empty_object_schema()),
    {
        SingleSchema::Object(ObjectSchema { properties: None, pattern_properties: None, max_properties: None, min_properties: None, additional_properties: None, unevaluated_properties: None, property_names: None, x_tags: None, x_discriminator_value: None, read_only: None, write_only: None, external_docs: None })
    }
}

impl Default for Schema {
    /// The `object` schema with no keyword set.
    fn default() -> (res: Schema)
        ensures
            res matches Schema::Single(b) && *b == SingleSchema::Object(empty_object_schema()),
    {
        Schema::Single(Box::new(SingleSchema::Object(ObjectSchema { properties: None, pattern_properties: None, max_properties: None, min_properties: None, additional_properties: None, unevaluated_properties: None, property_names: None, x_tags: None, x_discriminator_value: None, read_only: None, write_only: None, external_docs: None })))
    }
}

impl From<bool> for Schema {
    /// The boolean schema `b`.
    fn from(b: bool) -> (res: Schema) {
        Schema::Bool(b)
    }
}

impl vstd::std_specs::convert::FromSpecImpl<bool> for Schema {
    open spec fn obeys_from_spec() -> bool {
        true
    }

    open spec fn from_spec(b: bool) -> Schema {
        Schema::Bool(b)
    }
}

} // verus!
