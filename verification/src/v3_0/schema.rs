//! The Schema object (OpenAPI 3.0): the parts that validation reads, and
//! its checks.
use vstd::prelude::*;
use crate::common::checks::{pattern_errors, required_string_errors, validate_pattern, validate_required_string};
use crate::common::context::{error_line, lemma_prefix_trans, walked, Context, OptionSet, Options, ValidateWithContext};
use crate::common::model::BoolOr;
use crate::common::reach::{
    lemma_unvisited_mono, lemma_unvisited_strict, lemma_within_both, lemma_within_concat, unvisited, within,
};
use crate::common::reference::ResolveReference;
use crate::common::schema_checks::{check_common_head, common_head_errors};
use crate::common::text::{concat, decimal, decimal_string, push_str, starts_with, to_owned_string};
use crate::v3_0::discriminator::Discriminator;
use crate::v3_0::reference::{empty_ref_errors, is_internal, map_view, RefOr};
use crate::v3_0::spec::Spec;
use crate::v3_1::external_documentation::ExternalDocumentation;

verus! {

/// A Schema object.
#[derive(Debug)]
pub enum Schema {
    AllOf(Box<AllOfSchema>),
    AnyOf(Box<AnyOfSchema>),
    OneOf(Box<OneOfSchema>),
    Not(Box<NotSchema>),
    Single(Box<SingleSchema>),
}

/// A value valid against all of the subschemas.
#[derive(Debug)]
pub struct AllOfSchema {
    pub all_of: Vec<RefOr<Schema>>,
    pub discriminator: Option<Discriminator>,
}

/// A value valid against any of the subschemas.
#[derive(Debug)]
pub struct AnyOfSchema {
    pub any_of: Vec<RefOr<Schema>>,
    pub discriminator: Option<Discriminator>,
}

/// A value valid against exactly one of the subschemas.
#[derive(Debug)]
pub struct OneOfSchema {
    pub one_of: Vec<RefOr<Schema>>,
    pub discriminator: Option<Discriminator>,
}

/// A value not valid against the subschema.
#[derive(Debug)]
pub struct NotSchema {
    pub not: RefOr<Schema>,
}

/// A schema with one `type`.
#[derive(Debug)]
pub enum SingleSchema {
    String(StringSchema),
    Integer(IntegerSchema),
    Number(NumberSchema),
    Boolean(BooleanSchema),
    Array(ArraySchema),
    Object(ObjectSchema),
    Null(NullSchema),
}

/// The `type` name of a single-type schema.
pub open spec fn single_type_name(s: SingleSchema) -> Seq<char> {
    match s {
        SingleSchema::String(_) => "string"@,
        SingleSchema::Integer(_) => "integer"@,
        SingleSchema::Number(_) => "number"@,
        SingleSchema::Boolean(_) => "boolean"@,
        SingleSchema::Array(_) => "array"@,
        SingleSchema::Object(_) => "object"@,
        SingleSchema::Null(_) => "null"@,
    }
}

impl SingleSchema {
    /// The `type` name of the schema, as written in a document.
    pub fn to_string(&self) -> (res: String)
        ensures
            res@ == single_type_name(*self),
    {
        let name = match self {
            SingleSchema::String(_) => "string",
            SingleSchema::Integer(_) => "integer",
            SingleSchema::Number(_) => "number",
            SingleSchema::Boolean(_) => "boolean",
            SingleSchema::Array(_) => "array",
            SingleSchema::Object(_) => "object",
            SingleSchema::Null(_) => "null",
        };
        crate::common::text::to_owned_string(name)
    }
}

/// A `string` schema.
#[derive(Debug)]
pub struct StringSchema {
    /// A title for the schema.
    pub title: Option<String>,
    pub pattern: Option<String>,
    pub read_only: Option<bool>,
    pub write_only: Option<bool>,
    pub external_docs: Option<ExternalDocumentation>,
}

/// An `integer` schema.
#[derive(Debug)]
pub struct IntegerSchema {
    pub read_only: Option<bool>,
    pub write_only: Option<bool>,
    pub external_docs: Option<ExternalDocumentation>,
}

/// A `number` schema.
#[derive(Debug)]
pub struct NumberSchema {
    pub read_only: Option<bool>,
    pub write_only: Option<bool>,
    pub external_docs: Option<ExternalDocumentation>,
}

/// A `boolean` schema.
#[derive(Debug)]
pub struct BooleanSchema {
    pub read_only: Option<bool>,
    pub write_only: Option<bool>,
    pub external_docs: Option<ExternalDocumentation>,
}

/// An `array` schema.
#[derive(Debug)]
pub struct ArraySchema {
    pub items: Option<RefOr<Schema>>,
    pub read_only: Option<bool>,
    pub write_only: Option<bool>,
    pub external_docs: Option<ExternalDocumentation>,
}

/// An `object` schema.
#[derive(Debug)]
pub struct ObjectSchema {
    pub properties: Option<Vec<(String, RefOr<Schema>)>>,
    pub additional_properties: Option<BoolOr<RefOr<Schema>>>,
    pub read_only: Option<bool>,
    pub write_only: Option<bool>,
    pub external_docs: Option<ExternalDocumentation>,
}

/// A `null` schema.
#[derive(Debug)]
pub struct NullSchema {
    pub read_only: Option<bool>,
    pub write_only: Option<bool>,
    pub external_docs: Option<ExternalDocumentation>,
}

// The `$ref`s that checking a schema can follow: those it holds, and those
// that its discriminators' mappings name. They bound how far the checks can
// go, since each `$ref` is followed at most once per pass.

/// The `$ref`s that a discriminator's mapping names.
pub open spec fn mapping_refs(m: Option<Vec<(String, String)>>) -> Seq<Seq<char>> {
    match m {
        None => seq![],
        Some(v) => v@.map_values(|e: (String, String)| "#/components/schemas/"@ + e.1@),
    }
}

/// The `$ref`s that an optional discriminator's mapping names.
pub open spec fn discriminator_refs(d: Option<Discriminator>) -> Seq<Seq<char>> {
    match d {
        None => seq![],
        Some(d) => mapping_refs(d.mapping),
    }
}

/// The `$ref`s of a schema.
pub open spec fn schema_refs(s: Schema) -> Seq<Seq<char>>
    decreases s,
{
    match s {
        Schema::AllOf(b) => list_refs(b.all_of@) + discriminator_refs(b.discriminator),
        Schema::AnyOf(b) => list_refs(b.any_of@) + discriminator_refs(b.discriminator),
        Schema::OneOf(b) => list_refs(b.one_of@) + discriminator_refs(b.discriminator),
        Schema::Not(b) => ref_or_refs(b.not),
        Schema::Single(b) => single_refs(*b),
    }
}

/// The `$ref`s of a schema with one `type`.
pub open spec fn single_refs(s: SingleSchema) -> Seq<Seq<char>>
    decreases s,
{
    match s {
        SingleSchema::Array(a) => opt_ref_refs(a.items),
        SingleSchema::Object(o) => opt_entries_refs(o.properties) + bool_or_refs(o.additional_properties),
        _ => seq![],
    }
}

/// The `$ref`s of a schema or `$ref`.
pub open spec fn ref_or_refs(r: RefOr<Schema>) -> Seq<Seq<char>>
    decreases r,
{
    match r {
        RefOr::Ref(x) => seq![x.reference@],
        RefOr::Item(s) => schema_refs(s),
    }
}

/// The `$ref`s of a list of schemas.
pub open spec fn list_refs(v: Seq<RefOr<Schema>>) -> Seq<Seq<char>>
    decreases v,
{
    if v.len() == 0 {
        seq![]
    } else {
        list_refs(v.subrange(0, v.len() - 1)) + ref_or_refs(v[v.len() - 1])
    }
}

/// The `$ref`s of a map of schemas.
pub open spec fn entries_refs(v: Seq<(String, RefOr<Schema>)>) -> Seq<Seq<char>>
    decreases v,
{
    if v.len() == 0 {
        seq![]
    } else {
        entries_refs(v.subrange(0, v.len() - 1)) + ref_or_refs(v[v.len() - 1].1)
    }
}

/// The `$ref`s of an optional map of schemas.
pub open spec fn opt_entries_refs(o: Option<Vec<(String, RefOr<Schema>)>>) -> Seq<Seq<char>>
    decreases o,
{
    match o {
        None => seq![],
        Some(v) => entries_refs(v@),
    }
}

/// The `$ref`s of an optional boolean-or-schema.
pub open spec fn bool_or_refs(o: Option<BoolOr<RefOr<Schema>>>) -> Seq<Seq<char>>
    decreases o,
{
    match o {
        Some(BoolOr::Item(r)) => ref_or_refs(r),
        _ => seq![],
    }
}

/// The `$ref`s of an optional schema.
pub open spec fn opt_ref_refs(o: Option<RefOr<Schema>>) -> Seq<Seq<char>>
    decreases o,
{
    match o {
        Some(r) => ref_or_refs(r),
        None => seq![],
    }
}

/// The `$ref`s of the schemas of `components.schemas`.
pub open spec fn comp_refs(spec: Spec) -> Seq<Seq<char>> {
    match spec.components {
        None => seq![],
        Some(c) => opt_entries_refs(c.schemas),
    }
}


/// The schema that `reference` names in `components.schemas`.
pub open spec fn schema_at(spec: Spec, reference: Seq<char>) -> Option<Schema> {
    match spec.components {
        None => None,
        Some(c) => crate::v3_0::reference::resolved_in_map(map_view(c.schemas), reference, "#/components/schemas/"@),
    }
}

pub proof fn lemma_within_list(v: Seq<RefOr<Schema>>, u: Seq<Seq<char>>, k: int)
    requires
        within(list_refs(v), u),
        0 <= k < v.len(),
    ensures
        within(ref_or_refs(v[k]), u),
    decreases v.len(),
{
    let init = v.subrange(0, v.len() - 1);
    lemma_within_concat(list_refs(init), ref_or_refs(v[v.len() - 1]), u);
    if k < v.len() - 1 {
        lemma_within_list(init, u, k);
        assert(init[k] == v[k]);
    }
}

pub proof fn lemma_within_entries(v: Seq<(String, RefOr<Schema>)>, u: Seq<Seq<char>>, k: int)
    requires
        within(entries_refs(v), u),
        0 <= k < v.len(),
    ensures
        within(ref_or_refs(v[k].1), u),
    decreases v.len(),
{
    let init = v.subrange(0, v.len() - 1);
    lemma_within_concat(entries_refs(init), ref_or_refs(v[v.len() - 1].1), u);
    if k < v.len() - 1 {
        lemma_within_entries(init, u, k);
        assert(init[k] == v[k]);
    }
}

/// A schema that a `$ref` names holds only `$ref`s of `components.schemas`.
pub proof fn lemma_target_within(spec: Spec, r: Seq<char>, u: Seq<Seq<char>>)
    requires
        within(comp_refs(spec), u),
        schema_at(spec, r) is Some,
    ensures
        within(schema_refs(schema_at(spec, r)->0), u),
{
    let c = spec.components->0;
    let es = c.schemas->0@;
    let key = crate::common::text::trim_start_all(r, "#/components/schemas/"@);
    crate::v3_1::path_lookup::lemma_chain_in(es, "#/components/schemas/"@, key, es.len());
    let t = schema_at(spec, r)->0;
    let vals = crate::v3_1::path_lookup::entry_values(es);
    let k = choose|k: int| 0 <= k < vals.len() && vals[k] == RefOr::<Schema>::Item(t);
    assert(es[k].1 == RefOr::<Schema>::Item(t));
    lemma_within_entries(es, u, k);
}

/// The diagnostics that a schema with one type at `path` gets before any of
/// its subschemas is checked.
pub open spec fn single_head_errors(path: Seq<char>, s: SingleSchema, ie: bool, ii: bool) -> Seq<Seq<char>> {
    match s {
        SingleSchema::String(x) => common_head_errors(path, x.read_only, x.write_only, x.external_docs, ie, ii)
            + match x.pattern {
            Some(p) => pattern_errors(path + ".pattern"@, p@),
            None => seq![],
        },
        SingleSchema::Integer(x) => common_head_errors(path, x.read_only, x.write_only, x.external_docs, ie, ii),
        SingleSchema::Number(x) => common_head_errors(path, x.read_only, x.write_only, x.external_docs, ie, ii),
        SingleSchema::Boolean(x) => common_head_errors(path, x.read_only, x.write_only, x.external_docs, ie, ii),
        SingleSchema::Null(x) => common_head_errors(path, x.read_only, x.write_only, x.external_docs, ie, ii),
        SingleSchema::Array(x) => common_head_errors(path, x.read_only, x.write_only, x.external_docs, ie, ii),
        SingleSchema::Object(x) => common_head_errors(path, x.read_only, x.write_only, x.external_docs, ie, ii),
    }
}

/// The diagnostics that a schema at `path` gets before any of its
/// subschemas is checked.
pub open spec fn schema_head_errors(path: Seq<char>, s: Schema, ie: bool, ii: bool) -> Seq<Seq<char>> {
    match s {
        Schema::Single(b) => single_head_errors(path, *b, ie, ii),
        _ => seq![],
    }
}

/// What following the `$ref` `reference` at `path` reports: an empty
/// `$ref`, and, the first time it is met, a target that cannot be had.
pub open spec fn enter_errors(spec: Spec, visited: Set<Seq<char>>, path: Seq<char>, reference: Seq<char>, ignore_external: bool) -> Seq<Seq<char>> {
    empty_ref_errors(path, reference) + if visited.contains(reference) {
        seq![]
    } else if is_internal(reference) {
        if schema_at(spec, reference) is Some {
            seq![]
        } else {
            seq![error_line(path, ".$ref: `"@ + reference + "` not found"@)]
        }
    } else if ignore_external {
        seq![]
    } else {
        seq![error_line(path, ".$ref: external reference `"@ + reference + "` is not supported"@)]
    }
}

/// A pass follows the `$ref` `reference` when it meets it with the `$ref`s
/// `vis` visited: the first time, when it is internal and names a schema.
pub open spec fn follows(spec: Spec, vis: Set<Seq<char>>, reference: Seq<char>) -> bool {
    !vis.contains(reference) && is_internal(reference) && schema_at(spec, reference) is Some
}

/// Meets the `$ref` `reference` at `path`: reports it if empty, visits it
/// and, the first time, resolves it. Answers the schema to check next, if
/// the pass follows the `$ref`.
fn enter_schema_ref<'a>(ctx: &mut Context<'a, Spec>, reference: &String, path: &str) -> (res: Option<&'a Schema>)
    ensures
        final(ctx).spec == old(ctx).spec,
        final(ctx).options == old(ctx).options,
        final(ctx).visited_set() == old(ctx).visited_set().insert(reference@),
        final(ctx).errors_view() == old(ctx).errors_view() + enter_errors(
            *old(ctx).spec,
            old(ctx).visited_set(),
            path@,
            reference@,
            old(ctx).has_option(Options::IgnoreExternalReferences),
        ),
        match res {
            Some(t) => follows(*old(ctx).spec, old(ctx).visited_set(), reference@) && schema_at(
                *old(ctx).spec,
                reference@,
            ) == Some(*t),
            None => !follows(*old(ctx).spec, old(ctx).visited_set(), reference@),
        },
{
    let ghost e0 = ctx.errors_view();
    if reference.as_str().is_empty() {
        ctx.error(path, ".$ref: must not be empty");
    }
    let ghost e1 = ctx.errors_view();
    assert(e1 == e0 + empty_ref_errors(path@, reference@));
    let res = if ctx.visit(reference.clone()) {
        let spec: &'a Spec = ctx.spec;
        if starts_with(reference.as_str(), "#/") {
            match <Spec as ResolveReference<Schema>>::resolve_reference(spec, reference.as_str()) {
                Some(t) => Some(t),
                None => {
                    let mut m = concat(".$ref: `", reference.as_str());
                    push_str(&mut m, "` not found");
                    ctx.error(path, m.as_str());
                    None
                },
            }
        } else {
            if !ctx.is_option(Options::IgnoreExternalReferences) {
                let mut m = concat(".$ref: external reference `", reference.as_str());
                push_str(&mut m, "` is not supported");
                ctx.error(path, m.as_str());
            }
            None
        }
    } else {
        None
    };
    assert(ctx.errors_view() =~= e0 + enter_errors(
        *old(ctx).spec,
        old(ctx).visited_set(),
        path@,
        reference@,
        old(ctx).has_option(Options::IgnoreExternalReferences),
    ));
    res
}

/// What `validate_schema` and its kin may assume: the `$ref`s `u` hold
/// every `$ref` that checking `refs` can follow.
pub open spec fn covered(u: Seq<Seq<char>>, spec: Spec, refs: Seq<Seq<char>>) -> bool {
    within(refs, u) && within(comp_refs(spec), u)
}

// What one pass reports for a schema. A pass follows each `$ref` the first
// time it meets it, so what a schema reports depends on the `$ref`s visited
// before it; each function below answers the diagnostics appended and the
// `$ref`s visited afterwards. `u` holds every `$ref` the pass can follow.
// The comparisons of `unvisited` counts hold on every pass (a pass only adds
// to the visited `$ref`s, and only follows `$ref`s of `u`); they bound how
// often a `$ref` can be followed.

/// What checking the schema `s`, found at `path`, reports, with the `$ref`s
/// `vis` visited before it: the checks of its kind, then each of its
/// subschemas, then its discriminator.
pub open spec fn walk_schema(
    spec: Spec,
    opts: OptionSet,
    u: Seq<Seq<char>>,
    vis: Set<Seq<char>>,
    s: Schema,
    path: Seq<char>,
) -> (Seq<Seq<char>>, Set<Seq<char>>)
    decreases unvisited(u, vis), s, 2nat, 0nat,
{
    match s {
        Schema::Single(b) => {
            proof {
                assert(decreases_to!(s => s->Single_0));
            }
            walk_single(spec, opts, u, vis, *b, path)
        },
        Schema::AllOf(b) => {
            proof {
                assert(decreases_to!(s => s->AllOf_0));
                assert(decreases_to!(*b => b.all_of));
                assert(decreases_to!(b.all_of => b.all_of@));
            }
            let (e1, v1) = walk_list(spec, opts, u, vis, b.all_of@, b.all_of@.len(), path, ".allOf["@);
            match b.discriminator {
                Some(d) => if unvisited(u, v1) <= unvisited(u, vis) {
                    let (e2, v2) = walk_discriminator(spec, opts, u, v1, d, path + ".discriminator"@, s);
                    (e1 + e2, v2)
                } else {
                    (e1, v1)
                },
                None => (e1, v1),
            }
        },
        Schema::AnyOf(b) => {
            proof {
                assert(decreases_to!(s => s->AnyOf_0));
                assert(decreases_to!(*b => b.any_of));
                assert(decreases_to!(b.any_of => b.any_of@));
            }
            let (e1, v1) = walk_list(spec, opts, u, vis, b.any_of@, b.any_of@.len(), path, ".anyOf["@);
            match b.discriminator {
                Some(d) => if unvisited(u, v1) <= unvisited(u, vis) {
                    let (e2, v2) = walk_discriminator(spec, opts, u, v1, d, path + ".discriminator"@, s);
                    (e1 + e2, v2)
                } else {
                    (e1, v1)
                },
                None => (e1, v1),
            }
        },
        Schema::OneOf(b) => {
            proof {
                assert(decreases_to!(s => s->OneOf_0));
                assert(decreases_to!(*b => b.one_of));
                assert(decreases_to!(b.one_of => b.one_of@));
            }
            let (e1, v1) = walk_list(spec, opts, u, vis, b.one_of@, b.one_of@.len(), path, ".oneOf["@);
            match b.discriminator {
                Some(d) => if unvisited(u, v1) <= unvisited(u, vis) {
                    let (e2, v2) = walk_discriminator(spec, opts, u, v1, d, path + ".discriminator"@, s);
                    (e1 + e2, v2)
                } else {
                    (e1, v1)
                },
                None => (e1, v1),
            }
        },
        Schema::Not(b) => {
            proof {
                assert(decreases_to!(s => s->Not_0));
                assert(decreases_to!(*b => b.not));
            }
            walk_ref(spec, opts, u, vis, b.not, path + ".not"@)
        },
    }
}

/// What checking the schema or `$ref` `r`, found at `path`, reports, with
/// the `$ref`s `vis` visited before it. A `$ref` is reported if empty or if
/// it cannot be had; when the pass follows it, the schema it names is then
/// checked at the location the `$ref` names.
pub open spec fn walk_ref(
    spec: Spec,
    opts: OptionSet,
    u: Seq<Seq<char>>,
    vis: Set<Seq<char>>,
    r: RefOr<Schema>,
    path: Seq<char>,
) -> (Seq<Seq<char>>, Set<Seq<char>>)
    decreases unvisited(u, vis), r, 2nat, 0nat,
{
    match r {
        RefOr::Ref(x) => {
            let reference = x.reference@;
            let e0 = enter_errors(spec, vis, path, reference, opts.has(Options::IgnoreExternalReferences));
            let v0 = vis.insert(reference);
            if follows(spec, vis, reference) && unvisited(u, v0) < unvisited(u, vis) {
                let (e1, v1) = walk_schema(spec, opts, u, v0, schema_at(spec, reference)->0, reference);
                (e0 + e1, v1)
            } else {
                (e0, v0)
            }
        },
        RefOr::Item(s) => walk_schema(spec, opts, u, vis, s, path),
    }
}

/// What checking the first `n` schemas of the list `v` reports, each found
/// at `<path><open><index>]`.
pub open spec fn walk_list(
    spec: Spec,
    opts: OptionSet,
    u: Seq<Seq<char>>,
    vis: Set<Seq<char>>,
    v: Seq<RefOr<Schema>>,
    n: nat,
    path: Seq<char>,
    open: Seq<char>,
) -> (Seq<Seq<char>>, Set<Seq<char>>)
    decreases unvisited(u, vis), v, 0nat, n,
{
    if n == 0 || n > v.len() {
        (seq![], vis)
    } else {
        let (e1, v1) = walk_list(spec, opts, u, vis, v, (n - 1) as nat, path, open);
        if unvisited(u, v1) <= unvisited(u, vis) {
            proof {
                assert(decreases_to!(v => v[n - 1]));
            }
            let (e2, v2) = walk_ref(spec, opts, u, v1, v[n - 1], path + open + decimal((n - 1) as nat) + "]"@);
            (e1 + e2, v2)
        } else {
            (e1, v1)
        }
    }
}

/// What checking the first `n` schemas of the map `v` reports, each found
/// at `<path><open><key><close>`.
pub open spec fn walk_entries(
    spec: Spec,
    opts: OptionSet,
    u: Seq<Seq<char>>,
    vis: Set<Seq<char>>,
    v: Seq<(String, RefOr<Schema>)>,
    n: nat,
    path: Seq<char>,
    open: Seq<char>,
    close: Seq<char>,
) -> (Seq<Seq<char>>, Set<Seq<char>>)
    decreases unvisited(u, vis), v, 0nat, n,
{
    if n == 0 || n > v.len() {
        (seq![], vis)
    } else {
        let (e1, v1) = walk_entries(spec, opts, u, vis, v, (n - 1) as nat, path, open, close);
        if unvisited(u, v1) <= unvisited(u, vis) {
            proof {
                assert(decreases_to!(v => v[n - 1]));
                assert(decreases_to!(v[n - 1] => v[n - 1].1));
            }
            let (e2, v2) = walk_ref(spec, opts, u, v1, v[n - 1].1, path + open + v[n - 1].0@ + close);
            (e1 + e2, v2)
        } else {
            (e1, v1)
        }
    }
}

/// What checking the schema with one type `s`, found at `path`, reports:
/// the checks of its type, then its subschemas.
pub open spec fn walk_single(
    spec: Spec,
    opts: OptionSet,
    u: Seq<Seq<char>>,
    vis: Set<Seq<char>>,
    s: SingleSchema,
    path: Seq<char>,
) -> (Seq<Seq<char>>, Set<Seq<char>>)
    decreases unvisited(u, vis), s, 2nat, 0nat,
{
    let head = single_head_errors(
        path,
        s,
        opts.has(Options::IgnoreEmptyExternalDocumentationUrl),
        opts.has(Options::IgnoreInvalidUrls),
    );
    match s {
        SingleSchema::Array(x) => match x.items {
            Some(r) => {
                proof {
                    assert(decreases_to!(s => s->Array_0));
                    assert(decreases_to!(x => x.items));
                    assert(decreases_to!(x.items => x.items->Some_0));
                }
                let (e1, v1) = walk_ref(spec, opts, u, vis, r, path + ".items"@);
                (head + e1, v1)
            },
            None => (head, vis),
        },
        SingleSchema::Object(x) => {
            proof {
                assert(decreases_to!(s => s->Object_0));
            }
            let (e1, v1) = walk_object(spec, opts, u, vis, x, path);
            (head + e1, v1)
        },
        _ => (head, vis),
    }
}

/// What checking the subschemas of the object schema `x`, found at `path`,
/// reports: its properties, then its additional properties.
pub open spec fn walk_object(
    spec: Spec,
    opts: OptionSet,
    u: Seq<Seq<char>>,
    vis: Set<Seq<char>>,
    x: ObjectSchema,
    path: Seq<char>,
) -> (Seq<Seq<char>>, Set<Seq<char>>)
    decreases unvisited(u, vis), x, 2nat, 0nat,
{
    let (e1, v1) = match x.properties {
        Some(p) => {
            proof {
                assert(decreases_to!(x => x.properties));
                assert(decreases_to!(x.properties => x.properties->Some_0));
                assert(decreases_to!(p => p@));
            }
            walk_entries(spec, opts, u, vis, p@, p@.len(), path, ".properties."@, ""@)
        },
        None => (seq![], vis),
    };
    match x.additional_properties {
        Some(BoolOr::Item(r)) => if unvisited(u, v1) <= unvisited(u, vis) {
            proof {
                assert(decreases_to!(x => x.additional_properties));
                assert(decreases_to!(x.additional_properties => x.additional_properties->Some_0));
                assert(decreases_to!(x.additional_properties->Some_0 => r));
            }
            let (e2, v2) = walk_ref(spec, opts, u, v1, r, path + ".additionalProperties"@);
            (e1 + e2, v2)
        } else {
            (e1, v1)
        },
        _ => (e1, v1),
    }
}

/// What checking the discriminator `d` of the schema `host`, found at
/// `path`, reports: a non-empty property name, then each mapping value as a
/// `$ref` to `#/components/schemas/<value>`.
pub open spec fn walk_discriminator(
    spec: Spec,
    opts: OptionSet,
    u: Seq<Seq<char>>,
    vis: Set<Seq<char>>,
    d: Discriminator,
    path: Seq<char>,
    host: Schema,
) -> (Seq<Seq<char>>, Set<Seq<char>>)
    decreases unvisited(u, vis), host, 1nat, 0nat,
{
    let e0 = required_string_errors(path + ".propertyName"@, d.property_name@);
    match d.mapping {
        Some(m) => {
            let (e1, v1) = walk_mapping(spec, opts, u, vis, m@, m@.len(), path, host);
            (e0 + e1, v1)
        },
        None => (e0, vis),
    }
}

/// What checking the first `n` values of the mapping `m` of a
/// discriminator of the schema `host`, found at `path`, reports: each as a
/// `$ref` to `#/components/schemas/<value>`, found at `<path>.mapping[<key>]`.
pub open spec fn walk_mapping(
    spec: Spec,
    opts: OptionSet,
    u: Seq<Seq<char>>,
    vis: Set<Seq<char>>,
    m: Seq<(String, String)>,
    n: nat,
    path: Seq<char>,
    host: Schema,
) -> (Seq<Seq<char>>, Set<Seq<char>>)
    decreases unvisited(u, vis), host, 0nat, n,
{
    if n == 0 || n > m.len() {
        (seq![], vis)
    } else {
        let (e1, v1) = walk_mapping(spec, opts, u, vis, m, (n - 1) as nat, path, host);
        let reference = "#/components/schemas/"@ + m[n - 1].1@;
        let p = path + ".mapping["@ + m[n - 1].0@ + "]"@;
        let e2 = enter_errors(spec, v1, p, reference, opts.has(Options::IgnoreExternalReferences));
        let v2 = v1.insert(reference);
        if unvisited(u, v1) <= unvisited(u, vis) && follows(spec, v1, reference) && unvisited(u, v2) < unvisited(
            u,
            v1,
        ) {
            let (e3, v3) = walk_schema(spec, opts, u, v2, schema_at(spec, reference)->0, reference);
            (e1 + e2 + e3, v3)
        } else {
            (e1 + e2, v2)
        }
    }
}

/// Checks a schema or a `$ref` to one, found at `path`: a `$ref` is
/// reported if empty, and followed the first time the pass meets it; its
/// target is then checked at the location the `$ref` names.
pub fn validate_schema_ref(ctx: &mut Context<'_, Spec>, r: &RefOr<Schema>, path: String, Ghost(u): Ghost<Seq<Seq<char>>>)
    requires
        covered(u, *old(ctx).spec, ref_or_refs(*r)),
    ensures
        final(ctx).extends(old(ctx)),
        walked(*old(ctx), *final(ctx), walk_ref(*old(ctx).spec, old(ctx).options, u, old(ctx).visited_set(), *r, path@)),
        match *r {
            RefOr::Ref(x) => {
                &&& (old(ctx).errors_view() + enter_errors(
                    *old(ctx).spec,
                    old(ctx).visited_set(),
                    path@,
                    x.reference@,
                    old(ctx).has_option(Options::IgnoreExternalReferences),
                )).is_prefix_of(final(ctx).errors_view())
                &&& final(ctx).visited_set().contains(x.reference@)
            },
            RefOr::Item(s) => (old(ctx).errors_view() + schema_head_errors(
                path@,
                s,
                old(ctx).has_option(Options::IgnoreEmptyExternalDocumentationUrl),
                old(ctx).has_option(Options::IgnoreInvalidUrls),
            )).is_prefix_of(final(ctx).errors_view()),
        },
    decreases unvisited(u, old(ctx).visited_set()), r, 2nat,
{
    match r {
        RefOr::Ref(x) => {
            let ghost v0 = ctx.visited_set();
            let ghost e0 = ctx.errors_view();
            let target = enter_schema_ref(ctx, &x.reference, path.as_str());
            let ghost mid = ctx.errors_view();
            assert(mid.is_prefix_of(mid));
            match target {
                Some(t) => {
                    proof {
                        assert(ref_or_refs(*r)[0] == x.reference@);
                        lemma_unvisited_strict(u, v0, ctx.visited_set(), x.reference@);
                        lemma_target_within(*ctx.spec, x.reference@, u);
                    }
                    let ghost c1 = *ctx;
                    validate_schema(ctx, t, x.reference.clone(), Ghost(u));
                    assert(ctx.errors_view() =~= e0 + walk_ref(*old(ctx).spec, old(ctx).options, u, v0, *r, path@).0);
                },
                None => {},
            }
        },
        RefOr::Item(s) => {
            validate_schema(ctx, s, path, Ghost(u));
        },
    }
}

/// Checks a schema found at `path`: the checks of its kind, then each of its
/// subschemas (a `$ref` among them is followed the first time the pass
/// meets it), then its discriminator.
pub fn validate_schema(ctx: &mut Context<'_, Spec>, s: &Schema, path: String, Ghost(u): Ghost<Seq<Seq<char>>>)
    requires
        covered(u, *old(ctx).spec, schema_refs(*s)),
    ensures
        final(ctx).extends(old(ctx)),
        walked(*old(ctx), *final(ctx), walk_schema(*old(ctx).spec, old(ctx).options, u, old(ctx).visited_set(), *s, path@)),
        (old(ctx).errors_view() + schema_head_errors(
            path@,
            *s,
            old(ctx).has_option(Options::IgnoreEmptyExternalDocumentationUrl),
            old(ctx).has_option(Options::IgnoreInvalidUrls),
        )).is_prefix_of(final(ctx).errors_view()),
    decreases unvisited(u, old(ctx).visited_set()), s, 2nat,
{
    let ghost spec = *old(ctx).spec;
    let ghost opts = old(ctx).options;
    let ghost vis = old(ctx).visited_set();
    let ghost e0 = old(ctx).errors_view();
    match s {
        Schema::Single(b) => {
            proof {
                assert(decreases_to!(*s => (*s)->Single_0));
            }
            validate_single(ctx, b, path, Ghost(u));
        },
        Schema::AllOf(b) => {
            validate_list(ctx, &b.all_of, path.as_str(), ".allOf[", Ghost(u), Ghost(*s));
            let ghost w1 = walk_list(spec, opts, u, vis, b.all_of@, b.all_of@.len(), path@, ".allOf["@);
            if let Some(d) = &b.discriminator {
                proof {
                    lemma_within_concat(list_refs(b.all_of@), discriminator_refs(b.discriminator), u);
                }
                let ghost c0 = *ctx;
                let p = concat(path.as_str(), ".discriminator");
                validate_discriminator_in(ctx, d, p.as_str(), Ghost(u), Ghost(*s));
                assert(ctx.errors_view() =~= e0 + walk_schema(spec, opts, u, vis, *s, path@).0);
            } else {
                assert(ctx.errors_view() =~= e0 + walk_schema(spec, opts, u, vis, *s, path@).0);
            }
        },
        Schema::AnyOf(b) => {
            validate_list(ctx, &b.any_of, path.as_str(), ".anyOf[", Ghost(u), Ghost(*s));
            if let Some(d) = &b.discriminator {
                proof {
                    lemma_within_concat(list_refs(b.any_of@), discriminator_refs(b.discriminator), u);
                }
                let p = concat(path.as_str(), ".discriminator");
                validate_discriminator_in(ctx, d, p.as_str(), Ghost(u), Ghost(*s));
                assert(ctx.errors_view() =~= e0 + walk_schema(spec, opts, u, vis, *s, path@).0);
            } else {
                assert(ctx.errors_view() =~= e0 + walk_schema(spec, opts, u, vis, *s, path@).0);
            }
        },
        Schema::OneOf(b) => {
            validate_list(ctx, &b.one_of, path.as_str(), ".oneOf[", Ghost(u), Ghost(*s));
            if let Some(d) = &b.discriminator {
                proof {
                    lemma_within_concat(list_refs(b.one_of@), discriminator_refs(b.discriminator), u);
                }
                let p = concat(path.as_str(), ".discriminator");
                validate_discriminator_in(ctx, d, p.as_str(), Ghost(u), Ghost(*s));
                assert(ctx.errors_view() =~= e0 + walk_schema(spec, opts, u, vis, *s, path@).0);
            } else {
                assert(ctx.errors_view() =~= e0 + walk_schema(spec, opts, u, vis, *s, path@).0);
            }
        },
        Schema::Not(b) => {
            proof {
                assert(decreases_to!(*s => (*s)->Not_0));
                assert((*s)->Not_0 == *b);
                assert(decreases_to!(**b => b.not));
            }
            let p = concat(path.as_str(), ".not");
            validate_schema_ref(ctx, &b.not, p, Ghost(u));
        },
    }
    assert(e0 + Seq::<Seq<char>>::empty() =~= e0);
}

/// Checks each schema of the list `v` of the composed schema `host`, found
/// at `<path><open><index>]`.
fn validate_list(
    ctx: &mut Context<'_, Spec>,
    v: &Vec<RefOr<Schema>>,
    path: &str,
    open: &str,
    Ghost(u): Ghost<Seq<Seq<char>>>,
    Ghost(host): Ghost<Schema>,
)
    requires
        match host {
            Schema::AllOf(b) => b.all_of == *v,
            Schema::AnyOf(b) => b.any_of == *v,
            Schema::OneOf(b) => b.one_of == *v,
            _ => false,
        },
        covered(u, *old(ctx).spec, schema_refs(host)),
    ensures
        final(ctx).extends(old(ctx)),
        walked(
            *old(ctx),
            *final(ctx),
            walk_list(*old(ctx).spec, old(ctx).options, u, old(ctx).visited_set(), v@, v@.len(), path@, open@),
        ),
        unvisited(u, final(ctx).visited_set()) <= unvisited(u, old(ctx).visited_set()),
    decreases unvisited(u, old(ctx).visited_set()), host, 1nat,
{
    let ghost spec = *old(ctx).spec;
    let ghost opts = old(ctx).options;
    let ghost vis = old(ctx).visited_set();
    proof {
        match host {
            Schema::AllOf(b) => lemma_within_concat(list_refs(b.all_of@), discriminator_refs(b.discriminator), u),
            Schema::AnyOf(b) => lemma_within_concat(list_refs(b.any_of@), discriminator_refs(b.discriminator), u),
            Schema::OneOf(b) => lemma_within_concat(list_refs(b.one_of@), discriminator_refs(b.discriminator), u),
            _ => {},
        }
    }
    assert(old(ctx).errors_view() =~= old(ctx).errors_view() + walk_list(spec, opts, u, vis, v@, 0, path@, open@).0);
    let mut i: usize = 0;
    while i < v.len()
        invariant
            i <= v.len(),
            within(list_refs(v@), u),
            within(comp_refs(spec), u),
            spec == *old(ctx).spec,
            opts == old(ctx).options,
            vis == old(ctx).visited_set(),
            match host {
                Schema::AllOf(b) => b.all_of == *v,
                Schema::AnyOf(b) => b.any_of == *v,
                Schema::OneOf(b) => b.one_of == *v,
                _ => false,
            },
            ctx.extends(old(ctx)),
            walked(*old(ctx), *ctx, walk_list(spec, opts, u, vis, v@, i as nat, path@, open@)),
            unvisited(u, ctx.visited_set()) <= unvisited(u, vis),
        decreases v.len() - i,
    {
        proof {
            lemma_within_list(v@, u, i as int);
            match host {
                Schema::AllOf(b) => {
                    assert(decreases_to!(host => host->AllOf_0));
                    assert(decreases_to!(*b => b.all_of));
                },
                Schema::AnyOf(b) => {
                    assert(decreases_to!(host => host->AnyOf_0));
                    assert(decreases_to!(*b => b.any_of));
                },
                Schema::OneOf(b) => {
                    assert(decreases_to!(host => host->OneOf_0));
                    assert(decreases_to!(*b => b.one_of));
                },
                _ => {},
            }
            assert(decreases_to!(*v => v@));
            assert(decreases_to!(v@ => v@[i as int]));
        }
        let mut p = concat(path, open);
        push_str(&mut p, decimal_string(i).as_str());
        push_str(&mut p, "]");
        let ghost c0 = *ctx;
        validate_schema_ref(ctx, &v[i], p, Ghost(u));
        proof {
            lemma_unvisited_mono(u, c0.visited_set(), ctx.visited_set());
            assert(ctx.errors_view() =~= old(ctx).errors_view() + walk_list(
                spec,
                opts,
                u,
                vis,
                v@,
                (i + 1) as nat,
                path@,
                open@,
            ).0);
        }
        i = i + 1;
    }
}

/// Checks the discriminator `d` of the schema `host`, found at `path`: a
/// non-empty property name, then each mapping value as a `$ref` to
/// `#/components/schemas/<value>`.
fn validate_discriminator_in(
    ctx: &mut Context<'_, Spec>,
    d: &Discriminator,
    path: &str,
    Ghost(u): Ghost<Seq<Seq<char>>>,
    Ghost(host): Ghost<Schema>,
)
    requires
        covered(u, *old(ctx).spec, discriminator_refs(Some(*d))),
    ensures
        final(ctx).extends(old(ctx)),
        walked(
            *old(ctx),
            *final(ctx),
            walk_discriminator(*old(ctx).spec, old(ctx).options, u, old(ctx).visited_set(), *d, path@, host),
        ),
    decreases unvisited(u, old(ctx).visited_set()), host, 1nat,
{
    let pn = concat(path, ".propertyName");
    validate_required_string(ctx, d.property_name.as_str(), pn.as_str());
    let ghost c1 = *ctx;
    validate_mapping(ctx, d, to_owned_string(path), Ghost(u), Ghost(host));
    assert(ctx.errors_view() =~= old(ctx).errors_view() + walk_discriminator(
        *old(ctx).spec,
        old(ctx).options,
        u,
        old(ctx).visited_set(),
        *d,
        path@,
        host,
    ).0);
}

/// What checking the mapping of the discriminator `d`, found at `path`,
/// reports; `host` names the schema that holds it, if any.
pub open spec fn walk_mapping_of(
    spec: Spec,
    opts: OptionSet,
    u: Seq<Seq<char>>,
    vis: Set<Seq<char>>,
    d: Discriminator,
    path: Seq<char>,
    host: Schema,
) -> (Seq<Seq<char>>, Set<Seq<char>>) {
    match d.mapping {
        Some(m) => walk_mapping(spec, opts, u, vis, m@, m@.len(), path, host),
        None => (seq![], vis),
    }
}

/// Checks each mapping value of the discriminator found at `path` as a
/// `$ref` to `#/components/schemas/<value>`, found at `<path>.mapping[<key>]`.
pub fn validate_mapping(
    ctx: &mut Context<'_, Spec>,
    d: &Discriminator,
    path: String,
    Ghost(u): Ghost<Seq<Seq<char>>>,
    Ghost(host): Ghost<Schema>,
)
    requires
        covered(u, *old(ctx).spec, discriminator_refs(Some(*d))),
    ensures
        final(ctx).extends(old(ctx)),
        walked(*old(ctx), *final(ctx), walk_mapping_of(*old(ctx).spec, old(ctx).options, u, old(ctx).visited_set(), *d, path@, host)),
        forall|k: int| #![trigger d.mapping->0@[k]]
            d.mapping is Some && 0 <= k < d.mapping->0@.len() ==> final(ctx).visited_set().contains(
                "#/components/schemas/"@ + d.mapping->0@[k].1@,
            ),
    decreases unvisited(u, old(ctx).visited_set()), host, 0nat,
{
    let ghost spec = *old(ctx).spec;
    let ghost opts = old(ctx).options;
    let ghost vis = old(ctx).visited_set();
    if let Some(mapping) = &d.mapping {
        assert(old(ctx).errors_view() =~= old(ctx).errors_view() + walk_mapping(spec, opts, u, vis, mapping@, 0, path@, host).0);
        let mut i: usize = 0;
        while i < mapping.len()
            invariant
                i <= mapping.len(),
                d.mapping == Some(*mapping),
                spec == *old(ctx).spec,
                opts == old(ctx).options,
                vis == old(ctx).visited_set(),
                ctx.extends(old(ctx)),
                covered(u, *old(ctx).spec, discriminator_refs(Some(*d))),
                walked(*old(ctx), *ctx, walk_mapping(spec, opts, u, vis, mapping@, i as nat, path@, host)),
                unvisited(u, ctx.visited_set()) <= unvisited(u, vis),
                forall|k: int| #![trigger mapping@[k]]
                    0 <= k < i ==> ctx.visited_set().contains("#/components/schemas/"@ + mapping@[k].1@),
            decreases mapping.len() - i,
        {
            let (key, value) = &mapping[i];
            let reference = concat("#/components/schemas/", value.as_str());
            let mut p = concat(path.as_str(), ".mapping[");
            push_str(&mut p, key.as_str());
            push_str(&mut p, "]");
            let ghost c0 = *ctx;
            let target = enter_schema_ref(ctx, &reference, p.as_str());
            proof {
                assert(mapping_refs(d.mapping)[i as int] == reference@);
                lemma_unvisited_mono(u, c0.visited_set(), ctx.visited_set());
            }
            match target {
                Some(t) => {
                    proof {
                        lemma_unvisited_strict(u, c0.visited_set(), ctx.visited_set(), reference@);
                        lemma_target_within(*ctx.spec, reference@, u);
                    }
                    let ghost c1 = *ctx;
                    validate_schema(ctx, t, reference, Ghost(u));
                    proof {
                        lemma_unvisited_mono(u, c1.visited_set(), ctx.visited_set());
                    }
                },
                None => {},
            }
            assert(ctx.errors_view() =~= old(ctx).errors_view() + walk_mapping(
                spec,
                opts,
                u,
                vis,
                mapping@,
                (i + 1) as nat,
                path@,
                host,
            ).0);
            i = i + 1;
        }
    } else {
        assert(old(ctx).errors_view() =~= old(ctx).errors_view() + Seq::<Seq<char>>::empty());
    }
}

/// The checks of a schema with one type found at `path` that come before
/// any of its subschemas.
fn check_single_head(ctx: &mut Context<'_, Spec>, s: &SingleSchema, path: &str)
    ensures
        final(ctx).errors_view() == old(ctx).errors_view() + single_head_errors(
            path@,
            *s,
            old(ctx).has_option(Options::IgnoreEmptyExternalDocumentationUrl),
            old(ctx).has_option(Options::IgnoreInvalidUrls),
        ),
        final(ctx).visited == old(ctx).visited,
        final(ctx).spec == old(ctx).spec,
        final(ctx).options == old(ctx).options,
{
    let ghost ie = old(ctx).has_option(Options::IgnoreEmptyExternalDocumentationUrl);
    let ghost ii = old(ctx).has_option(Options::IgnoreInvalidUrls);
    let ghost e0 = ctx.errors_view();
    match s {
        SingleSchema::String(x) => {
            check_common_head(ctx, path, x.read_only, x.write_only, &x.external_docs);
            let ghost e1 = ctx.errors_view();
            if let Some(pattern) = &x.pattern {
                let p = concat(path, ".pattern");
                validate_pattern(ctx, pattern.as_str(), p.as_str());
            }
            assert(ctx.errors_view() =~= e0 + single_head_errors(path@, *s, ie, ii));
        },
        SingleSchema::Integer(x) => {
            check_common_head(ctx, path, x.read_only, x.write_only, &x.external_docs);
        },
        SingleSchema::Number(x) => {
            check_common_head(ctx, path, x.read_only, x.write_only, &x.external_docs);
        },
        SingleSchema::Boolean(x) => {
            check_common_head(ctx, path, x.read_only, x.write_only, &x.external_docs);
        },
        SingleSchema::Null(x) => {
            check_common_head(ctx, path, x.read_only, x.write_only, &x.external_docs);
        },
        SingleSchema::Array(x) => {
            check_common_head(ctx, path, x.read_only, x.write_only, &x.external_docs);
        },
        SingleSchema::Object(x) => {
            check_common_head(ctx, path, x.read_only, x.write_only, &x.external_docs);
        },
    }
}

/// Checks a schema with one type found at `path`: read-only and write-only
/// exclude each other; then the checks of its type, and its subschemas.
fn validate_single(ctx: &mut Context<'_, Spec>, s: &SingleSchema, path: String, Ghost(u): Ghost<Seq<Seq<char>>>)
    requires
        covered(u, *old(ctx).spec, single_refs(*s)),
    ensures
        final(ctx).extends(old(ctx)),
        walked(*old(ctx), *final(ctx), walk_single(*old(ctx).spec, old(ctx).options, u, old(ctx).visited_set(), *s, path@)),
        (old(ctx).errors_view() + single_head_errors(
            path@,
            *s,
            old(ctx).has_option(Options::IgnoreEmptyExternalDocumentationUrl),
            old(ctx).has_option(Options::IgnoreInvalidUrls),
        )).is_prefix_of(final(ctx).errors_view()),
    decreases unvisited(u, old(ctx).visited_set()), s, 2nat,
{
    let ghost spec = *old(ctx).spec;
    let ghost opts = old(ctx).options;
    let ghost vis = old(ctx).visited_set();
    check_single_head(ctx, s, path.as_str());
    let ghost head = ctx.errors_view();
    assert(head.is_prefix_of(head));
    match s {
        SingleSchema::Array(x) => {
            if let Some(r) = &x.items {
                proof {
                    assert(decreases_to!(*s => (*s)->Array_0));
                    assert(decreases_to!(x => x.items));
                    assert(decreases_to!(x.items => x.items->Some_0));
                }
                let p = concat(path.as_str(), ".items");
                validate_schema_ref(ctx, r, p, Ghost(u));
                assert(ctx.errors_view() =~= old(ctx).errors_view() + walk_single(spec, opts, u, vis, *s, path@).0);
            } else {
                assert(ctx.errors_view() =~= old(ctx).errors_view() + walk_single(spec, opts, u, vis, *s, path@).0);
            }
        },
        SingleSchema::Object(x) => {
            validate_object_children(ctx, x, path.as_str(), Ghost(u), Ghost(*s));
            assert(ctx.errors_view() =~= old(ctx).errors_view() + walk_single(spec, opts, u, vis, *s, path@).0);
        },
        _ => {},
    }
}

/// Checks the subschemas of an object schema found at `path`: its
/// properties and its additional properties.
fn validate_object_children(
    ctx: &mut Context<'_, Spec>,
    x: &ObjectSchema,
    path: &str,
    Ghost(u): Ghost<Seq<Seq<char>>>,
    Ghost(host): Ghost<SingleSchema>,
)
    requires
        host == SingleSchema::Object(*x),
        covered(u, *old(ctx).spec, single_refs(host)),
    ensures
        final(ctx).extends(old(ctx)),
        walked(*old(ctx), *final(ctx), walk_object(*old(ctx).spec, old(ctx).options, u, old(ctx).visited_set(), *x, path@)),
    decreases unvisited(u, old(ctx).visited_set()), host, 1nat,
{
    let ghost spec = *old(ctx).spec;
    let ghost opts = old(ctx).options;
    let ghost vis = old(ctx).visited_set();
    proof {
        lemma_within_concat(opt_entries_refs(x.properties), bool_or_refs(x.additional_properties), u);
    }
    if let Some(props) = &x.properties {
        validate_entries(ctx, props, path, ".properties.", "", Ghost(u), Ghost(host));
    } else {
        assert(old(ctx).errors_view() =~= old(ctx).errors_view() + Seq::<Seq<char>>::empty());
    }
    let ghost c1 = *ctx;
    if let Some(BoolOr::Item(r)) = &x.additional_properties {
        proof {
            lemma_unvisited_mono(u, old(ctx).visited_set(), ctx.visited_set());
            assert(decreases_to!(host => host->Object_0));
            assert(decreases_to!(*x => x.additional_properties));
            assert(decreases_to!(x.additional_properties => x.additional_properties->Some_0));
            assert(decreases_to!(x.additional_properties->Some_0 => x.additional_properties->Some_0->Item_0));
        }
        let p = concat(path, ".additionalProperties");
        validate_schema_ref(ctx, r, p, Ghost(u));
        assert(ctx.errors_view() =~= old(ctx).errors_view() + walk_object(spec, opts, u, vis, *x, path@).0);
    }
}

/// Checks each schema of a map of schemas, found at
/// `<path><open><key><close>`.
fn validate_entries(
    ctx: &mut Context<'_, Spec>,
    props: &Vec<(String, RefOr<Schema>)>,
    path: &str,
    open: &str,
    close: &str,
    Ghost(u): Ghost<Seq<Seq<char>>>,
    Ghost(host): Ghost<SingleSchema>,
)
    requires
        host matches SingleSchema::Object(o) && o.properties == Some(*props),
        within(entries_refs(props@), u),
        within(comp_refs(*old(ctx).spec), u),
    ensures
        final(ctx).extends(old(ctx)),
        walked(
            *old(ctx),
            *final(ctx),
            walk_entries(*old(ctx).spec, old(ctx).options, u, old(ctx).visited_set(), props@, props@.len(), path@, open@, close@),
        ),
    decreases unvisited(u, old(ctx).visited_set()), host, 0nat,
{
    let ghost spec = *old(ctx).spec;
    let ghost opts = old(ctx).options;
    let ghost vis = old(ctx).visited_set();
    assert(old(ctx).errors_view() =~= old(ctx).errors_view() + walk_entries(spec, opts, u, vis, props@, 0, path@, open@, close@).0);
    let mut i: usize = 0;
    while i < props.len()
        invariant
            i <= props.len(),
            host matches SingleSchema::Object(o) && o.properties == Some(*props),
            within(entries_refs(props@), u),
            within(comp_refs(*old(ctx).spec), u),
            spec == *old(ctx).spec,
            opts == old(ctx).options,
            vis == old(ctx).visited_set(),
            ctx.extends(old(ctx)),
            walked(*old(ctx), *ctx, walk_entries(spec, opts, u, vis, props@, i as nat, path@, open@, close@)),
            unvisited(u, ctx.visited_set()) <= unvisited(u, vis),
        decreases props.len() - i,
    {
        let (name, r) = &props[i];
        proof {
            lemma_within_entries(props@, u, i as int);
            let o = host->Object_0;
            assert(decreases_to!(host => o));
            assert(decreases_to!(o => o.properties));
            assert(decreases_to!(o.properties => o.properties->Some_0));
            assert(decreases_to!(*props => props@));
            assert(decreases_to!(props@ => props@[i as int]));
            assert(decreases_to!(props@[i as int] => props@[i as int].1));
        }
        let mut p = concat(path, open);
        push_str(&mut p, name.as_str());
        push_str(&mut p, close);
        let ghost c0 = *ctx;
        validate_schema_ref(ctx, r, to_owned_string(p.as_str()), Ghost(u));
        proof {
            lemma_unvisited_mono(u, c0.visited_set(), ctx.visited_set());
            assert(ctx.errors_view() =~= old(ctx).errors_view() + walk_entries(
                spec,
                opts,
                u,
                vis,
                props@,
                (i + 1) as nat,
                path@,
                open@,
                close@,
            ).0);
        }
        i = i + 1;
    }
}

/// The `$ref`s that checking `s` can follow in `spec`: its own, and those
/// of the schemas of `components.schemas`.
pub open spec fn schema_universe(spec: Spec, s: Schema) -> Seq<Seq<char>> {
    schema_refs(s) + comp_refs(spec)
}

impl ValidateWithContext<Spec> for Schema {
    open spec fn checks(
        &self,
        spec: Spec,
        options: OptionSet,
        visited: Set<Seq<char>>,
        errors: Seq<Seq<char>>,
        path: Seq<char>,
        after: (Seq<Seq<char>>, Set<Seq<char>>),
    ) -> bool {
        let w = walk_schema(
                    spec,
                    options,
                    schema_universe(spec, *self),
                    visited,
                    *self,
                    path,
                );
        after == (errors + w.0, w.1)
    }

    /// Checks the schema found at `path` (see [`validate_schema`]).
    fn validate_with_context(&self, ctx: &mut Context<'_, Spec>, path: String)
        ensures
            walked(
                *old(ctx),
                *final(ctx),
                walk_schema(
                    *old(ctx).spec,
                    old(ctx).options,
                    schema_universe(*old(ctx).spec, *self),
                    old(ctx).visited_set(),
                    *self,
                    path@,
                ),
            ),
            (old(ctx).errors_view() + schema_head_errors(
                path@,
                *self,
                old(ctx).has_option(Options::IgnoreEmptyExternalDocumentationUrl),
                old(ctx).has_option(Options::IgnoreInvalidUrls),
            )).is_prefix_of(final(ctx).errors_view()),
    {
        let ghost u = schema_universe(*ctx.spec, *self);
        proof {
            lemma_within_both(schema_refs(*self), comp_refs(*ctx.spec));
        }
        validate_schema(ctx, self, path, Ghost(u));
    }
}

/// The `object` schema with no keyword set.
pub open spec fn empty_object_schema() -> ObjectSchema {
    ObjectSchema { properties: None, additional_properties: None, read_only: None, write_only: None, external_docs: None }
}

impl Default for SingleSchema {
    /// The `object` schema with no keyword set.
    fn default() -> (res: SingleSchema)
        ensures
            res == SingleSchema::Object(empty_object_schema()),
    {
        SingleSchema::Object(ObjectSchema { properties: None, additional_properties: None, read_only: None, write_only: None, external_docs: None })
    }
}

impl Default for Schema {
    /// The `object` schema with no keyword set.
    fn default() -> (res: Schema)
        ensures
            res matches Schema::Single(b) && *b == SingleSchema::Object(empty_object_schema()),
    {
        Schema::Single(Box::new(SingleSchema::Object(ObjectSchema { properties: None, additional_properties: None, read_only: None, write_only: None, external_docs: None })))
    }
}

} // verus!
