//! Forward conversion of an OpenAPI v3.0 document to v3.1, as a rewrite of
//! the document's JSON value.
//!
//! Following the "Upgrading from 3.0 to 3.1" guide:
//!
//! 1. `openapi: "3.0.x"` becomes `openapi: "3.1.2"`.
//! 2. `nullable: true` is dropped and the `type` gains `"null"`.
//! 3. The boolean `exclusiveMinimum: true` with `minimum: <n>` becomes
//!    `exclusiveMinimum: <n>` (the same for the maximum).
//! 4. A schema's `example: <v>` becomes `examples: [<v>]`.
//! 5. File uploads in `content` maps: an `application/octet-stream` schema
//!    `{type: string, format: binary}` becomes `{}`; in `multipart/*` content,
//!    a binary string property gets `contentMediaType:
//!    application/octet-stream` in place of its `format`; and `type: string,
//!    format: base64` becomes `type: string, contentEncoding: base64`.
//!
//! The rewrite of an object reads and writes only its own keys (and, for a
//! `content` map, the schemas below it), never a value's kind, so the members
//! of an object are rewritten before the object itself: the result is the same
//! as rewriting the object first.
use vstd::prelude::*;
use crate::common::json::{deep_entries, deep_items, find_key, key_index, keys_sorted, lemma_deep_array, lemma_deep_object, lemma_get_cases, lemma_get_insert_other, lemma_get_insert_same, lemma_get_remove_other, lemma_get_remove_same, lemma_same_keys, obj_contains_key, obj_get, obj_get_value, obj_insert, obj_insert_value, obj_remove, obj_remove_value, Json, JsonValue};
use crate::common::text::{is_prefix_of, starts_with, str_equal, to_owned_string};

verus! {

/// The JSON string `"null"`.
pub open spec fn null_str() -> Json {
    Json::Str("null"@)
}

/// The `type` of a schema with `nullable: true`, given its `type` before.
pub open spec fn nullable_type(t: Option<Json>) -> Json {
    match t {
        Some(Json::Str(s)) => if s != "null"@ {
            Json::Array(seq![Json::Str(s), null_str()])
        } else {
            Json::Str(s)
        },
        Some(Json::Array(a)) => Json::Array(if a.contains(null_str()) { a } else { a.push(null_str()) }),
        Some(other) => other,
        None => Json::Array(seq![null_str()]),
    }
}

/// `type: <T>` with `nullable: true` becomes `type: [<T>, "null"]` (a bare
/// `nullable: true` gives `type: ["null"]`); a boolean `nullable` is dropped;
/// any other `nullable` value is kept.
pub open spec fn nullable_normalized(o: Seq<(Seq<char>, Json)>) -> Seq<(Seq<char>, Json)> {
    match obj_get(o, "nullable"@) {
        None => o,
        Some(Json::Bool(b)) => {
            let o1 = obj_remove(o, "nullable"@);
            if !b {
                o1
            } else {
                obj_insert(obj_remove(o1, "type"@), "type"@, nullable_type(obj_get(o1, "type"@)))
            }
        },
        Some(other) => obj_insert(obj_remove(o, "nullable"@), "nullable"@, other),
    }
}

/// `exclusive: true` with `inclusive: <n>` becomes `exclusive: <n>`;
/// `exclusive: false` is dropped; anything else is left alone.
pub open spec fn exclusive_normalized(o: Seq<(Seq<char>, Json)>, exclusive: Seq<char>, inclusive: Seq<char>) -> Seq<(Seq<char>, Json)> {
    match obj_get(o, exclusive) {
        Some(Json::Bool(true)) => {
            let o1 = obj_remove(o, exclusive);
            match obj_get(o1, inclusive) {
                Some(b) => obj_insert(obj_remove(o1, inclusive), exclusive, b),
                None => o1,
            }
        },
        Some(Json::Bool(false)) => obj_remove(o, exclusive),
        _ => o,
    }
}

/// The object declares one of the keywords that mark a Schema Object.
pub open spec fn looks_like_schema_spec(o: Seq<(Seq<char>, Json)>) -> bool {
    ||| obj_get(o, "type"@) is Some
    ||| obj_get(o, "allOf"@) is Some
    ||| obj_get(o, "anyOf"@) is Some
    ||| obj_get(o, "oneOf"@) is Some
    ||| obj_get(o, "not"@) is Some
    ||| obj_get(o, "properties"@) is Some
    ||| obj_get(o, "items"@) is Some
    ||| obj_get(o, "enum"@) is Some
    ||| obj_get(o, "additionalProperties"@) is Some
    ||| obj_get(o, "$ref"@) is Some
}

/// In a schema, `example: <v>` becomes `examples: [<v>]`, unless `examples`
/// is there already, in which case `example` is dropped.
pub open spec fn example_normalized(o: Seq<(Seq<char>, Json)>) -> Seq<(Seq<char>, Json)> {
    if !looks_like_schema_spec(o) {
        o
    } else {
        match obj_get(o, "example"@) {
            None => o,
            Some(e) => {
                let o1 = obj_remove(o, "example"@);
                if obj_get(o1, "examples"@) is Some {
                    o1
                } else {
                    obj_insert(o1, "examples"@, Json::Array(seq![e]))
                }
            },
        }
    }
}

/// `type: string, format: base64` becomes `type: string, contentEncoding:
/// base64`.
pub open spec fn base64_normalized(o: Seq<(Seq<char>, Json)>) -> Seq<(Seq<char>, Json)> {
    if obj_get(o, "type"@) == Some(Json::Str("string"@)) && obj_get(o, "format"@) == Some(Json::Str("base64"@)) {
        obj_insert(obj_remove(o, "format"@), "contentEncoding"@, Json::Str("base64"@))
    } else {
        o
    }
}

/// All the schema-shape rewrites of one object, in order.
#[verifier::opaque]
pub open spec fn schema_normalized(o: Seq<(Seq<char>, Json)>) -> Seq<(Seq<char>, Json)> {
    base64_normalized(
        example_normalized(
            exclusive_normalized(
                exclusive_normalized(nullable_normalized(o), "exclusiveMinimum"@, "minimum"@),
                "exclusiveMaximum"@,
                "maximum"@,
            ),
        ),
    )
}

/// Whether the optional value is the JSON string `s`.
fn is_str_value(v: Option<&JsonValue>, s: &str) -> (res: bool)
    ensures
        res == (v matches Some(x) && x.deep() == Json::Str(s@)),
{
    match v {
        Some(JsonValue::String(t)) => str_equal(t.as_str(), s),
        _ => false,
    }
}

/// Whether some item of `arr` is the JSON string `"null"`.
fn has_null_item(arr: &Vec<JsonValue>) -> (res: bool)
    ensures
        res == deep_items(arr@).contains(null_str()),
{
    let mut i: usize = 0;
    while i < arr.len()
        invariant
            i <= arr.len(),
            forall|j: int| 0 <= j < i ==> deep_items(arr@)[j] != null_str(),
        decreases arr.len() - i,
    {
        if is_str_value(Some(&arr[i]), "null") {
            assert(deep_items(arr@)[i as int] == null_str());
            return true;
        }
        i = i + 1;
    }
    false
}

/// The JSON string `"null"`.
fn null_value() -> (res: JsonValue)
    ensures
        res.deep() == null_str(),
{
    JsonValue::String(to_owned_string("null"))
}

/// Applies [`nullable_normalized`] to the object `obj`.
pub fn normalize_nullable(obj: &mut Vec<(String, JsonValue)>)
    ensures
        deep_entries(final(obj)@) == nullable_normalized(deep_entries(old(obj)@)),
{
    let nullable = match obj_remove_value(obj, "nullable") {
        Some(JsonValue::Bool(b)) => b,
        Some(other) => {
            // A non-boolean `nullable` is put back.
            obj_insert_value(obj, to_owned_string("nullable"), other);
            return;
        },
        None => {
            return;
        },
    };
    if !nullable {
        return;
    }
    let ghost o1 = deep_entries(obj@);
    let t = obj_remove_value(obj, "type");
    let new_type = match t {
        Some(JsonValue::String(s)) => {
            if !str_equal(s.as_str(), "null") {
                let mut arr: Vec<JsonValue> = Vec::new();
                arr.push(JsonValue::String(s));
                arr.push(null_value());
                proof {
                    lemma_deep_array(arr);
                    assert(deep_items(arr@) =~= seq![arr@[0].deep(), null_str()]);
                }
                JsonValue::Array(arr)
            } else {
                JsonValue::String(s)
            }
        },
        Some(JsonValue::Array(arr)) => {
            let mut arr = arr;
            let ghost a0 = arr;
            proof {
                lemma_deep_array(a0);
            }
            if !has_null_item(&arr) {
                arr.push(null_value());
                assert(deep_items(arr@) =~= deep_items(a0@).push(null_str()));
            }
            proof {
                lemma_deep_array(arr);
            }
            JsonValue::Array(arr)
        },
        Some(other) => other,
        None => {
            let mut arr: Vec<JsonValue> = Vec::new();
            arr.push(null_value());
            proof {
                lemma_deep_array(arr);
                assert(deep_items(arr@) =~= seq![null_str()]);
            }
            JsonValue::Array(arr)
        },
    };
    assert(new_type.deep() == nullable_type(obj_get(o1, "type"@)));
    obj_insert_value(obj, to_owned_string("type"), new_type);
}

/// Applies [`exclusive_normalized`] to the object `obj`, for the keys
/// `exclusive_key` and `inclusive_key`.
pub fn normalize_exclusive_bound(obj: &mut Vec<(String, JsonValue)>, exclusive_key: &str, inclusive_key: &str)
    ensures
        deep_entries(final(obj)@) == exclusive_normalized(deep_entries(old(obj)@), exclusive_key@, inclusive_key@),
{
    let flag: Option<bool> = match obj_get_value(obj, exclusive_key) {
        Some(JsonValue::Bool(b)) => Some(*b),
        _ => None,
    };
    match flag {
        Some(true) => {
            let _ = obj_remove_value(obj, exclusive_key);
            if let Some(bound) = obj_remove_value(obj, inclusive_key) {
                obj_insert_value(obj, to_owned_string(exclusive_key), bound);
            }
        },
        Some(false) => {
            let _ = obj_remove_value(obj, exclusive_key);
        },
        None => {},
    }
}

/// Whether the object declares a keyword that marks a Schema Object.
pub fn looks_like_schema(obj: &Vec<(String, JsonValue)>) -> (res: bool)
    ensures
        res == looks_like_schema_spec(deep_entries(obj@)),
{
    obj_contains_key(obj, "type") || obj_contains_key(obj, "allOf") || obj_contains_key(obj, "anyOf")
        || obj_contains_key(obj, "oneOf") || obj_contains_key(obj, "not") || obj_contains_key(obj, "properties")
        || obj_contains_key(obj, "items") || obj_contains_key(obj, "enum") || obj_contains_key(
        obj,
        "additionalProperties",
    ) || obj_contains_key(obj, "$ref")
}

/// Applies [`example_normalized`] to the object `obj`.
pub fn normalize_example_to_examples(obj: &mut Vec<(String, JsonValue)>)
    ensures
        deep_entries(final(obj)@) == example_normalized(deep_entries(old(obj)@)),
{
    if !looks_like_schema(obj) {
        return;
    }
    let example = match obj_remove_value(obj, "example") {
        Some(e) => e,
        None => {
            return;
        },
    };
    if obj_contains_key(obj, "examples") {
        return;
    }
    let ghost e = example.deep();
    let mut arr: Vec<JsonValue> = Vec::new();
    arr.push(example);
    proof {
        lemma_deep_array(arr);
        assert(deep_items(arr@) =~= seq![e]);
    }
    obj_insert_value(obj, to_owned_string("examples"), JsonValue::Array(arr));
}

/// Applies [`base64_normalized`] to the object `obj`.
pub fn normalize_base64_format(obj: &mut Vec<(String, JsonValue)>)
    ensures
        deep_entries(final(obj)@) == base64_normalized(deep_entries(old(obj)@)),
{
    if !is_str_value(obj_get_value(obj, "type"), "string") {
        return;
    }
    if !is_str_value(obj_get_value(obj, "format"), "base64") {
        return;
    }
    let _ = obj_remove_value(obj, "format");
    obj_insert_value(obj, to_owned_string("contentEncoding"), JsonValue::String(to_owned_string("base64")));
}

/// The document with the schema-shape rewrites applied at every object, the
/// members of an object before the object itself.
pub open spec fn schemas_rewritten(v: Json) -> Json
    decreases v,
{
    match v {
        Json::Object(o) => Json::Object(schema_normalized(member_schemas_rewritten(o))),
        Json::Array(a) => Json::Array(item_schemas_rewritten(a)),
        _ => v,
    }
}

/// The members of an object, each value with the schema-shape rewrites
/// applied.
pub open spec fn member_schemas_rewritten(o: Seq<(Seq<char>, Json)>) -> Seq<(Seq<char>, Json)>
    decreases o,
{
    Seq::new(
        o.len(),
        |i: int|
            if 0 <= i < o.len() {
                (o[i].0, schemas_rewritten(o[i].1))
            } else {
                (Seq::empty(), Json::Null)
            },
    )
}

/// The items of an array, each with the schema-shape rewrites applied.
pub open spec fn item_schemas_rewritten(a: Seq<Json>) -> Seq<Json>
    decreases a,
{
    Seq::new(
        a.len(),
        |i: int|
            if 0 <= i < a.len() {
                schemas_rewritten(a[i])
            } else {
                Json::Null
            },
    )
}

/// Applies all the schema-shape rewrites to the object `obj` (see
/// [`schema_normalized`]).
pub fn normalize_schema_object(obj: &mut Vec<(String, JsonValue)>)
    ensures
        deep_entries(final(obj)@) == schema_normalized(deep_entries(old(obj)@)),
{
    reveal(schema_normalized);
    normalize_nullable(obj);
    normalize_exclusive_bound(obj, "exclusiveMinimum", "minimum");
    normalize_exclusive_bound(obj, "exclusiveMaximum", "maximum");
    normalize_example_to_examples(obj);
    normalize_base64_format(obj);
}

/// The members of `o`, each value with the schema-shape rewrites applied.
fn rewrite_member_schemas(o: Vec<(String, JsonValue)>) -> (res: Vec<(String, JsonValue)>)
    ensures
        res@.len() == o@.len(),
        forall|j: int|
            0 <= j < o@.len() ==> (#[trigger] res@[j]).0@ == o@[j].0@ && res@[j].1.deep() == schemas_rewritten(
                o@[j].1.deep(),
            ),
    decreases o,
{
    let ghost o0 = o;
    let mut rest = o;
    let mut out: Vec<(String, JsonValue)> = Vec::new();
    let n = rest.len();
    while rest.len() > 0
        invariant
            o0 == o,
            n == o0@.len(),
            out.len() + rest.len() == n,
            rest@ == o0@.skip(out.len() as int),
            forall|j: int|
                0 <= j < out.len() ==> (#[trigger] out@[j]).0@ == o0@[j].0@ && out@[j].1.deep() == schemas_rewritten(
                    o0@[j].1.deep(),
                ),
        decreases rest.len(),
    {
        let ghost j = out.len() as int;
        assert(rest@[0] == o0@[j]);
        let (k, c) = rest.remove(0);
        assert(rest@ =~= o0@.skip(j + 1));
        assert(decreases_to!(o => c)) by {
            assert(decreases_to!(o0 => o0[j]));
            assert(decreases_to!(o0[j] => o0[j].1));
        };
        let c2 = transform_schemas_recursive(c);
        out.push((k, c2));
    }
    out
}

/// The items of `a`, each with the schema-shape rewrites applied.
fn rewrite_item_schemas(a: Vec<JsonValue>) -> (res: Vec<JsonValue>)
    ensures
        res@.len() == a@.len(),
        forall|j: int| 0 <= j < a@.len() ==> #[trigger] res@[j].deep() == schemas_rewritten(a@[j].deep()),
    decreases a,
{
    let ghost a0 = a;
    let mut rest = a;
    let mut out: Vec<JsonValue> = Vec::new();
    let n = rest.len();
    while rest.len() > 0
        invariant
            a0 == a,
            n == a0@.len(),
            out.len() + rest.len() == n,
            rest@ == a0@.skip(out.len() as int),
            forall|j: int| 0 <= j < out.len() ==> #[trigger] out@[j].deep() == schemas_rewritten(a0@[j].deep()),
        decreases rest.len(),
    {
        let ghost j = out.len() as int;
        assert(rest@[0] == a0@[j]);
        let c = rest.remove(0);
        assert(rest@ =~= a0@.skip(j + 1));
        assert(decreases_to!(a => c)) by {
            assert(decreases_to!(a0 => a0[j]));
        };
        let c2 = transform_schemas_recursive(c);
        out.push(c2);
    }
    out
}

/// Applies the schema-shape rewrites at every object of `value` (see
/// [`schemas_rewritten`]).
pub fn transform_schemas_recursive(value: JsonValue) -> (res: JsonValue)
    ensures
        res.deep() == schemas_rewritten(value.deep()),
    decreases value,
{
    match value {
        JsonValue::Object(o) => {
            proof {
                lemma_deep_object(o);
            }
            let ghost d = deep_entries(o@);
            assert(decreases_to!(value => o)) by {
                assert(decreases_to!(value => value->Object_0));
            };
            let mut out = rewrite_member_schemas(o);
            assert(deep_entries(out@) =~= member_schemas_rewritten(d));
            normalize_schema_object(&mut out);
            proof {
                lemma_deep_object(out);
            }
            JsonValue::Object(out)
        },
        JsonValue::Array(a) => {
            proof {
                lemma_deep_array(a);
            }
            let ghost d = deep_items(a@);
            assert(decreases_to!(value => a)) by {
                assert(decreases_to!(value => value->Array_0));
            };
            let out = rewrite_item_schemas(a);
            proof {
                lemma_deep_array(out);
            }
            assert(deep_items(out@) =~= item_schemas_rewritten(d));
            JsonValue::Array(out)
        },
        other => other,
    }
}

/// `o` with the value of its first entry with key `k` (if any) replaced by
/// `v`.
pub open spec fn obj_set_found(o: Seq<(Seq<char>, Json)>, k: Seq<char>, v: Json) -> Seq<(Seq<char>, Json)> {
    let i = key_index(o, k);
    if i < o.len() {
        o.update(i, (o[i].0, v))
    } else {
        o
    }
}

/// A `multipart/...` media type.
pub open spec fn is_multipart_mime_spec(mime: Seq<char>) -> bool {
    is_prefix_of("multipart/"@, mime)
}

/// The schema object is `{type: string, format: binary}` (other keys aside).
pub open spec fn is_string_binary_spec(o: Seq<(Seq<char>, Json)>) -> bool {
    obj_get(o, "type"@) == Some(Json::Str("string"@)) && obj_get(o, "format"@) == Some(Json::Str("binary"@))
}

/// A multipart property: a binary string property gets `contentMediaType:
/// application/octet-stream` in place of its `format`.
pub open spec fn property_rewritten(p: Json) -> Json {
    match p {
        Json::Object(po) => if is_string_binary_spec(po) {
            Json::Object(
                obj_insert(obj_remove(po, "format"@), "contentMediaType"@, Json::Str("application/octet-stream"@)),
            )
        } else {
            p
        },
        _ => p,
    }
}

/// The properties of a schema, each rewritten as a multipart property.
pub open spec fn properties_rewritten(props: Seq<(Seq<char>, Json)>) -> Seq<(Seq<char>, Json)> {
    Seq::new(props.len(), |i: int| (props[i].0, property_rewritten(props[i].1)))
}

/// A schema under `multipart/*` content, with its properties rewritten.
pub open spec fn multipart_schema_rewritten(so: Seq<(Seq<char>, Json)>) -> Seq<(Seq<char>, Json)> {
    match obj_get(so, "properties"@) {
        Some(Json::Object(props)) => obj_set_found(so, "properties"@, Json::Object(properties_rewritten(props))),
        _ => so,
    }
}

/// A media type object of a `content` map, under the media type `mime`.
pub open spec fn media_rewritten(mime: Seq<char>, media: Json) -> Json {
    match media {
        Json::Object(mo) => match obj_get(mo, "schema"@) {
            Some(Json::Object(so)) => if mime == "application/octet-stream"@ {
                if is_string_binary_spec(so) {
                    Json::Object(obj_set_found(mo, "schema"@, Json::Object(Seq::empty())))
                } else {
                    media
                }
            } else if is_multipart_mime_spec(mime) {
                Json::Object(obj_set_found(mo, "schema"@, Json::Object(multipart_schema_rewritten(so))))
            } else {
                media
            },
            _ => media,
        },
        _ => media,
    }
}

/// A `content` map with each media type object rewritten.
pub open spec fn content_map_rewritten(c: Seq<(Seq<char>, Json)>) -> Seq<(Seq<char>, Json)> {
    Seq::new(c.len(), |i: int| (c[i].0, media_rewritten(c[i].0, c[i].1)))
}

/// An object whose `content` map (if it has one) is rewritten.
pub open spec fn content_key_rewritten(o: Seq<(Seq<char>, Json)>) -> Seq<(Seq<char>, Json)> {
    match obj_get(o, "content"@) {
        Some(Json::Object(c)) => obj_set_found(o, "content"@, Json::Object(content_map_rewritten(c))),
        _ => o,
    }
}

/// The document with the file-upload rewrites applied to every `content`
/// map, the members of an object before the object itself.
pub open spec fn content_walked(v: Json) -> Json
    decreases v,
{
    match v {
        Json::Object(o) => Json::Object(content_key_rewritten(member_content_walked(o))),
        Json::Array(a) => Json::Array(item_content_walked(a)),
        _ => v,
    }
}

/// The members of an object, each value walked.
pub open spec fn member_content_walked(o: Seq<(Seq<char>, Json)>) -> Seq<(Seq<char>, Json)>
    decreases o,
{
    Seq::new(
        o.len(),
        |i: int|
            if 0 <= i < o.len() {
                (o[i].0, content_walked(o[i].1))
            } else {
                (Seq::empty(), Json::Null)
            },
    )
}

/// The items of an array, each walked.
pub open spec fn item_content_walked(a: Seq<Json>) -> Seq<Json>
    decreases a,
{
    Seq::new(
        a.len(),
        |i: int|
            if 0 <= i < a.len() {
                content_walked(a[i])
            } else {
                Json::Null
            },
    )
}

/// The whole v3.0 to v3.1 rewrite of a document: `openapi` becomes
/// `3.1.2`, then the file-upload rewrites and the schema-shape rewrites are
/// applied everywhere. A document that is not an object is left alone.
pub open spec fn upgraded(v: Json) -> Json {
    match v {
        Json::Object(o) => schemas_rewritten(
            content_walked(Json::Object(obj_insert(o, "openapi"@, Json::Str("3.1.2"@)))),
        ),
        _ => v,
    }
}

/// Whether `mime` is a `multipart/...` media type.
pub fn is_multipart_mime(mime: &str) -> (res: bool)
    ensures
        res == is_multipart_mime_spec(mime@),
{
    starts_with(mime, "multipart/")
}

/// Whether the schema object is `{type: string, format: binary}` (other
/// keys aside).
pub fn is_string_binary(schema: &Vec<(String, JsonValue)>) -> (res: bool)
    ensures
        res == is_string_binary_spec(deep_entries(schema@)),
{
    is_str_value(obj_get_value(schema, "type"), "string") && is_str_value(obj_get_value(schema, "format"), "binary")
}

/// Rewrites one property of a multipart schema (see [`property_rewritten`]).
fn rewrite_property(p: JsonValue) -> (res: JsonValue)
    ensures
        res.deep() == property_rewritten(p.deep()),
{
    match p {
        JsonValue::Object(po) => {
            let mut po = po;
            proof {
                lemma_deep_object(po);
            }
            if is_string_binary(&po) {
                let _ = obj_remove_value(&mut po, "format");
                obj_insert_value(
                    &mut po,
                    to_owned_string("contentMediaType"),
                    JsonValue::String(to_owned_string("application/octet-stream")),
                );
            }
            proof {
                lemma_deep_object(po);
            }
            JsonValue::Object(po)
        },
        other => other,
    }
}

/// Rewrites each property of a multipart schema.
fn rewrite_properties(props: Vec<(String, JsonValue)>) -> (res: Vec<(String, JsonValue)>)
    ensures
        deep_entries(res@) == properties_rewritten(deep_entries(props@)),
{
    let ghost p0 = props;
    let mut rest = props;
    let mut out: Vec<(String, JsonValue)> = Vec::new();
    let n = rest.len();
    while rest.len() > 0
        invariant
            n == p0@.len(),
            out.len() + rest.len() == n,
            rest@ == p0@.skip(out.len() as int),
            forall|j: int|
                0 <= j < out.len() ==> (#[trigger] out@[j]).0@ == p0@[j].0@ && out@[j].1.deep() == property_rewritten(
                    p0@[j].1.deep(),
                ),
        decreases rest.len(),
    {
        let ghost j = out.len() as int;
        assert(rest@[0] == p0@[j]);
        let (k, c) = rest.remove(0);
        assert(rest@ =~= p0@.skip(j + 1));
        let c2 = rewrite_property(c);
        out.push((k, c2));
    }
    assert(deep_entries(out@) =~= properties_rewritten(deep_entries(p0@)));
    out
}

/// In a schema under `multipart/*` content, rewrites each binary string
/// property (see [`multipart_schema_rewritten`]).
pub fn rewrite_multipart_properties(schema: &mut Vec<(String, JsonValue)>)
    ensures
        deep_entries(final(schema)@) == multipart_schema_rewritten(deep_entries(old(schema)@)),
{
    let ghost d = deep_entries(schema@);
    let i = find_key(schema, "properties");
    if i >= schema.len() {
        return;
    }
    let (k, v) = schema.remove(i);
    match v {
        JsonValue::Object(props) => {
            proof {
                lemma_deep_object(props);
            }
            let new_props = rewrite_properties(props);
            let ghost nv = JsonValue::Object(new_props);
            proof {
                lemma_deep_object(new_props);
            }
            schema.insert(i, (k, JsonValue::Object(new_props)));
            assert(deep_entries(schema@) =~= d.update(i as int, (d[i as int].0, nv.deep())));
        },
        other => {
            schema.insert(i, (k, other));
            assert(deep_entries(schema@) =~= d);
        },
    }
}

/// Rewrites one media type object of a `content` map (see
/// [`media_rewritten`]).
fn rewrite_media(mime: &str, media: JsonValue) -> (res: JsonValue)
    ensures
        res.deep() == media_rewritten(mime@, media.deep()),
{
    match media {
        JsonValue::Object(mo) => {
            let mut mo = mo;
            let ghost m0 = mo;
            proof {
                lemma_deep_object(m0);
            }
            let ghost d = deep_entries(mo@);
            let i = find_key(&mo, "schema");
            if i >= mo.len() {
                return JsonValue::Object(mo);
            }
            let (k, v) = mo.remove(i);
            match v {
                JsonValue::Object(so) => {
                    let mut so = so;
                    proof {
                        lemma_deep_object(so);
                    }
                    let ghost so0 = so;
                    if str_equal(mime, "application/octet-stream") {
                        if is_string_binary(&so) {
                            so = Vec::new();
                            proof {
                                lemma_deep_object(so);
                            }
                            assert(deep_entries(so@) =~= Seq::<(Seq<char>, Json)>::empty());
                        }
                    } else if is_multipart_mime(mime) {
                        rewrite_multipart_properties(&mut so);
                        proof {
                            lemma_deep_object(so);
                        }
                    }
                    let ghost nv = JsonValue::Object(so);
                    mo.insert(i, (k, JsonValue::Object(so)));
                    assert(deep_entries(mo@) =~= d.update(i as int, (d[i as int].0, nv.deep())));
                    proof {
                        lemma_deep_object(mo);
                        if !(mime@ == "application/octet-stream"@ && is_string_binary_spec(deep_entries(so0@)))
                            && !(mime@ != "application/octet-stream"@ && is_multipart_mime_spec(mime@)) {
                            assert(deep_entries(mo@) =~= d);
                        }
                    }
                    JsonValue::Object(mo)
                },
                other => {
                    mo.insert(i, (k, other));
                    assert(deep_entries(mo@) =~= d);
                    proof {
                        lemma_deep_object(mo);
                    }
                    JsonValue::Object(mo)
                },
            }
        },
        other => other,
    }
}

/// Rewrites each media type object of a `content` map (see
/// [`content_map_rewritten`]).
pub fn rewrite_content_map(content: Vec<(String, JsonValue)>) -> (res: Vec<(String, JsonValue)>)
    ensures
        deep_entries(res@) == content_map_rewritten(deep_entries(content@)),
{
    let ghost c0 = content;
    let mut rest = content;
    let mut out: Vec<(String, JsonValue)> = Vec::new();
    let n = rest.len();
    while rest.len() > 0
        invariant
            n == c0@.len(),
            out.len() + rest.len() == n,
            rest@ == c0@.skip(out.len() as int),
            forall|j: int|
                0 <= j < out.len() ==> (#[trigger] out@[j]).0@ == c0@[j].0@ && out@[j].1.deep() == media_rewritten(
                    c0@[j].0@,
                    c0@[j].1.deep(),
                ),
        decreases rest.len(),
    {
        let ghost j = out.len() as int;
        assert(rest@[0] == c0@[j]);
        let (mime, media) = rest.remove(0);
        assert(rest@ =~= c0@.skip(j + 1));
        let media2 = rewrite_media(mime.as_str(), media);
        out.push((mime, media2));
    }
    assert(deep_entries(out@) =~= content_map_rewritten(deep_entries(c0@)));
    out
}

/// Rewrites the `content` map of the object `obj`, if it has one (see
/// [`content_key_rewritten`]).
fn rewrite_content_key(obj: &mut Vec<(String, JsonValue)>)
    ensures
        deep_entries(final(obj)@) == content_key_rewritten(deep_entries(old(obj)@)),
{
    let ghost d = deep_entries(obj@);
    let i = find_key(obj, "content");
    if i >= obj.len() {
        return;
    }
    let (k, v) = obj.remove(i);
    match v {
        JsonValue::Object(c) => {
            proof {
                lemma_deep_object(c);
            }
            let c2 = rewrite_content_map(c);
            let ghost nv = JsonValue::Object(c2);
            proof {
                lemma_deep_object(c2);
            }
            obj.insert(i, (k, JsonValue::Object(c2)));
            assert(deep_entries(obj@) =~= d.update(i as int, (d[i as int].0, nv.deep())));
        },
        other => {
            obj.insert(i, (k, other));
            assert(deep_entries(obj@) =~= d);
        },
    }
}

/// The members of `o`, each value walked.
fn walk_member_contents(o: Vec<(String, JsonValue)>) -> (res: Vec<(String, JsonValue)>)
    ensures
        res@.len() == o@.len(),
        forall|j: int|
            0 <= j < o@.len() ==> (#[trigger] res@[j]).0@ == o@[j].0@ && res@[j].1.deep() == content_walked(
                o@[j].1.deep(),
            ),
    decreases o,
{
    let ghost o0 = o;
    let mut rest = o;
    let mut out: Vec<(String, JsonValue)> = Vec::new();
    let n = rest.len();
    while rest.len() > 0
        invariant
            o0 == o,
            n == o0@.len(),
            out.len() + rest.len() == n,
            rest@ == o0@.skip(out.len() as int),
            forall|j: int|
                0 <= j < out.len() ==> (#[trigger] out@[j]).0@ == o0@[j].0@ && out@[j].1.deep() == content_walked(
                    o0@[j].1.deep(),
                ),
        decreases rest.len(),
    {
        let ghost j = out.len() as int;
        assert(rest@[0] == o0@[j]);
        let (k, c) = rest.remove(0);
        assert(rest@ =~= o0@.skip(j + 1));
        assert(decreases_to!(o => c)) by {
            assert(decreases_to!(o0 => o0[j]));
            assert(decreases_to!(o0[j] => o0[j].1));
        };
        let c2 = walk_content_aware(c);
        out.push((k, c2));
    }
    out
}

/// The items of `a`, each walked.
fn walk_item_contents(a: Vec<JsonValue>) -> (res: Vec<JsonValue>)
    ensures
        res@.len() == a@.len(),
        forall|j: int| 0 <= j < a@.len() ==> #[trigger] res@[j].deep() == content_walked(a@[j].deep()),
    decreases a,
{
    let ghost a0 = a;
    let mut rest = a;
    let mut out: Vec<JsonValue> = Vec::new();
    let n = rest.len();
    while rest.len() > 0
        invariant
            a0 == a,
            n == a0@.len(),
            out.len() + rest.len() == n,
            rest@ == a0@.skip(out.len() as int),
            forall|j: int| 0 <= j < out.len() ==> #[trigger] out@[j].deep() == content_walked(a0@[j].deep()),
        decreases rest.len(),
    {
        let ghost j = out.len() as int;
        assert(rest@[0] == a0@[j]);
        let c = rest.remove(0);
        assert(rest@ =~= a0@.skip(j + 1));
        assert(decreases_to!(a => c)) by {
            assert(decreases_to!(a0 => a0[j]));
        };
        let c2 = walk_content_aware(c);
        out.push(c2);
    }
    out
}

/// Applies the file-upload rewrites to every `content` map of `value` (see
/// [`content_walked`]).
pub fn walk_content_aware(value: JsonValue) -> (res: JsonValue)
    ensures
        res.deep() == content_walked(value.deep()),
    decreases value,
{
    match value {
        JsonValue::Object(o) => {
            proof {
                lemma_deep_object(o);
            }
            let ghost d = deep_entries(o@);
            assert(decreases_to!(value => o)) by {
                assert(decreases_to!(value => value->Object_0));
            };
            let mut out = walk_member_contents(o);
            assert(deep_entries(out@) =~= member_content_walked(d));
            rewrite_content_key(&mut out);
            proof {
                lemma_deep_object(out);
            }
            JsonValue::Object(out)
        },
        JsonValue::Array(a) => {
            proof {
                lemma_deep_array(a);
            }
            let ghost d = deep_items(a@);
            assert(decreases_to!(value => a)) by {
                assert(decreases_to!(value => value->Array_0));
            };
            let out = walk_item_contents(a);
            proof {
                lemma_deep_array(out);
            }
            assert(deep_items(out@) =~= item_content_walked(d));
            JsonValue::Array(out)
        },
        other => other,
    }
}

/// Rewrites a v3.0 document into a v3.1 one (see [`upgraded`]).
pub fn transform_spec(spec: JsonValue) -> (res: JsonValue)
    ensures
        res.deep() == upgraded(spec.deep()),
{
    match spec {
        JsonValue::Object(obj) => {
            let mut obj = obj;
            proof {
                lemma_deep_object(obj);
            }
            obj_insert_value(&mut obj, to_owned_string("openapi"), JsonValue::String(to_owned_string("3.1.2")));
            proof {
                lemma_deep_object(obj);
            }
            let walked = walk_content_aware(JsonValue::Object(obj));
            transform_schemas_recursive(walked)
        },
        other => other,
    }
}

/// The `type` of a schema admits `null`: it is `"null"`, or a list that
/// holds `"null"`.
pub open spec fn type_admits_null(t: Option<Json>) -> bool {
    ||| t == Some(null_str())
    ||| (t matches Some(Json::Array(a)) && a.contains(null_str()))
}

/// A boolean `nullable` is dropped, and only `nullable` and `type` change.
pub proof fn law_nullable_is_dropped(o: Seq<(Seq<char>, Json)>, k: Seq<char>)
    requires
        keys_sorted(o),
        obj_get(o, "nullable"@) matches Some(Json::Bool(_)),
    ensures
        obj_get(nullable_normalized(o), "nullable"@) is None,
        k != "nullable"@ && k != "type"@ ==> obj_get(nullable_normalized(o), k) == obj_get(o, k),
{
    reveal_strlit("nullable");
    reveal_strlit("type");
    assert("nullable"@ != "type"@) by {
        assert("nullable"@.len() != "type"@.len());
    };
    lemma_get_remove_same(o, "nullable"@);
    let o1 = obj_remove(o, "nullable"@);
    lemma_get_remove_other(o1, "type"@, "nullable"@);
    lemma_get_insert_other(obj_remove(o1, "type"@), "type"@, nullable_type(obj_get(o1, "type"@)), "nullable"@);
    lemma_nullable_frame(o, k);
}

/// An object without `nullable` is left as it is; with `nullable: false` its
/// `type` is kept; with `nullable: true` its `type` becomes
/// [`nullable_type`] of the `type` before.
pub proof fn law_nullable_type(o: Seq<(Seq<char>, Json)>)
    requires
        keys_sorted(o),
    ensures
        obj_get(o, "nullable"@) is None ==> nullable_normalized(o) == o,
        obj_get(o, "nullable"@) == Some(Json::Bool(true)) ==> obj_get(nullable_normalized(o), "type"@) == Some(
            nullable_type(obj_get(o, "type"@)),
        ),
        obj_get(o, "nullable"@) == Some(Json::Bool(false)) ==> obj_get(nullable_normalized(o), "type"@) == obj_get(
            o,
            "type"@,
        ),
{
    reveal_strlit("nullable");
    reveal_strlit("type");
    assert("nullable"@ != "type"@) by {
        assert("nullable"@.len() != "type"@.len());
    };
    let o1 = obj_remove(o, "nullable"@);
    lemma_get_remove_other(o, "nullable"@, "type"@);
    lemma_get_insert_same(obj_remove(o1, "type"@), "type"@, nullable_type(obj_get(o1, "type"@)));
}

/// With `nullable: true`, the `type` (absent, a name, or a list of names)
/// admits `null` afterwards.
pub proof fn law_nullable_true_admits_null(o: Seq<(Seq<char>, Json)>)
    requires
        keys_sorted(o),
        obj_get(o, "nullable"@) == Some(Json::Bool(true)),
        obj_get(o, "type"@) is None || obj_get(o, "type"@)->0 is Str || obj_get(o, "type"@)->0 is Array,
    ensures
        type_admits_null(obj_get(nullable_normalized(o), "type"@)),
{
    reveal_strlit("nullable");
    reveal_strlit("type");
    assert("nullable"@ != "type"@) by {
        assert("nullable"@.len() != "type"@.len());
    };
    let o1 = obj_remove(o, "nullable"@);
    lemma_get_remove_other(o, "nullable"@, "type"@);
    let t = nullable_type(obj_get(o1, "type"@));
    lemma_get_insert_same(obj_remove(o1, "type"@), "type"@, t);
    match obj_get(o1, "type"@) {
        Some(Json::Str(s)) => {
            if s != "null"@ {
                assert(seq![Json::Str(s), null_str()][1] == null_str());
            }
        },
        Some(Json::Array(a)) => {
            if !a.contains(null_str()) {
                assert(a.push(null_str())[a.len() as int] == null_str());
            }
        },
        _ => {
            assert(seq![null_str()][0] == null_str());
        },
    }
}

/// The nullable rewrite touches only `nullable` and `type`.
pub proof fn lemma_nullable_frame(o: Seq<(Seq<char>, Json)>, k: Seq<char>)
    ensures
        k != "nullable"@ && k != "type"@ ==> obj_get(nullable_normalized(o), k) == obj_get(o, k),
{
    if k != "nullable"@ && k != "type"@ {
        let o1 = obj_remove(o, "nullable"@);
        lemma_get_remove_other(o, "nullable"@, k);
        match obj_get(o, "nullable"@) {
            Some(Json::Bool(b)) => {
                if b {
                    lemma_get_remove_other(o1, "type"@, k);
                    lemma_get_insert_other(obj_remove(o1, "type"@), "type"@, nullable_type(obj_get(o1, "type"@)), k);
                }
            },
            Some(other) => {
                lemma_get_insert_other(o1, "nullable"@, other, k);
            },
            None => {},
        }
    }
}

/// The exclusive-bound rewrite touches only its two keys.
pub proof fn lemma_exclusive_frame(o: Seq<(Seq<char>, Json)>, exclusive: Seq<char>, inclusive: Seq<char>, k: Seq<char>)
    ensures
        k != exclusive && k != inclusive ==> obj_get(exclusive_normalized(o, exclusive, inclusive), k) == obj_get(o, k),
{
    if k != exclusive && k != inclusive {
        let o1 = obj_remove(o, exclusive);
        lemma_get_remove_other(o, exclusive, k);
        if obj_get(o, exclusive) == Some(Json::Bool(true)) {
            if let Some(b) = obj_get(o1, inclusive) {
                lemma_get_remove_other(o1, inclusive, k);
                lemma_get_insert_other(obj_remove(o1, inclusive), exclusive, b, k);
            }
        }
    }
}

/// `exclusive: true` with `inclusive: <n>` gives `exclusive: <n>` and no
/// `inclusive`, and no other key changes.
pub proof fn law_exclusive_bound_collapses(
    o: Seq<(Seq<char>, Json)>,
    exclusive: Seq<char>,
    inclusive: Seq<char>,
    n: Json,
    k: Seq<char>,
)
    requires
        keys_sorted(o),
        exclusive != inclusive,
        obj_get(o, exclusive) == Some(Json::Bool(true)),
        obj_get(o, inclusive) == Some(n),
    ensures
        obj_get(exclusive_normalized(o, exclusive, inclusive), exclusive) == Some(n),
        obj_get(exclusive_normalized(o, exclusive, inclusive), inclusive) is None,
        k != exclusive && k != inclusive ==> obj_get(exclusive_normalized(o, exclusive, inclusive), k) == obj_get(o, k),
{
    let o1 = obj_remove(o, exclusive);
    lemma_get_remove_same(o, exclusive);
    lemma_get_remove_other(o, exclusive, inclusive);
    let o2 = obj_remove(o1, inclusive);
    lemma_get_remove_same(o1, inclusive);
    lemma_get_insert_same(o2, exclusive, n);
    lemma_get_insert_other(o2, exclusive, n, inclusive);
    lemma_exclusive_frame(o, exclusive, inclusive, k);
}

/// `exclusive: false` is dropped, and no other key changes.
pub proof fn law_exclusive_false_is_dropped(o: Seq<(Seq<char>, Json)>, exclusive: Seq<char>, inclusive: Seq<char>, k: Seq<char>)
    requires
        keys_sorted(o),
        obj_get(o, exclusive) == Some(Json::Bool(false)),
    ensures
        obj_get(exclusive_normalized(o, exclusive, inclusive), exclusive) is None,
        k != exclusive ==> obj_get(exclusive_normalized(o, exclusive, inclusive), k) == obj_get(o, k),
{
    lemma_get_remove_same(o, exclusive);
    if k != exclusive {
        lemma_get_remove_other(o, exclusive, k);
    }
}

/// The example rewrite touches only `example` and `examples`.
pub proof fn lemma_example_frame(o: Seq<(Seq<char>, Json)>, k: Seq<char>)
    ensures
        k != "example"@ && k != "examples"@ ==> obj_get(example_normalized(o), k) == obj_get(o, k),
{
    if k != "example"@ && k != "examples"@ {
        let o1 = obj_remove(o, "example"@);
        lemma_get_remove_other(o, "example"@, k);
        if let Some(e) = obj_get(o, "example"@) {
            lemma_get_insert_other(o1, "examples"@, Json::Array(seq![e]), k);
        }
    }
}

/// In a schema without `examples`, `example: <v>` becomes `examples: [<v>]`.
pub proof fn law_example_becomes_examples(o: Seq<(Seq<char>, Json)>, e: Json, k: Seq<char>)
    requires
        keys_sorted(o),
        looks_like_schema_spec(o),
        obj_get(o, "example"@) == Some(e),
        obj_get(o, "examples"@) is None,
    ensures
        obj_get(example_normalized(o), "examples"@) == Some(Json::Array(seq![e])),
        obj_get(example_normalized(o), "example"@) is None,
        k != "example"@ && k != "examples"@ ==> obj_get(example_normalized(o), k) == obj_get(o, k),
{
    reveal_strlit("example");
    reveal_strlit("examples");
    assert("example"@ != "examples"@) by {
        assert("example"@.len() != "examples"@.len());
    };
    let o1 = obj_remove(o, "example"@);
    lemma_get_remove_same(o, "example"@);
    lemma_get_remove_other(o, "example"@, "examples"@);
    lemma_get_insert_same(o1, "examples"@, Json::Array(seq![e]));
    lemma_get_insert_other(o1, "examples"@, Json::Array(seq![e]), "example"@);
    lemma_example_frame(o, k);
}

/// An object that declares any of `type`, `allOf`, `anyOf`, `oneOf`, `not`,
/// `properties`, `items`, `enum`, `additionalProperties` or `$ref` is a
/// Schema Object: its `example: <v>` becomes `examples: [<v>]` (where it has
/// no `examples`). An object that declares none of them keeps its `example`.
pub proof fn law_schema_keywords_mark_a_schema(o: Seq<(Seq<char>, Json)>, e: Json)
    requires
        keys_sorted(o),
        obj_get(o, "example"@) == Some(e),
        obj_get(o, "examples"@) is None,
    ensures
        ({
            let marked = obj_get(o, "type"@) is Some || obj_get(o, "allOf"@) is Some || obj_get(o, "anyOf"@) is Some
                || obj_get(o, "oneOf"@) is Some || obj_get(o, "not"@) is Some || obj_get(o, "properties"@) is Some
                || obj_get(o, "items"@) is Some || obj_get(o, "enum"@) is Some || obj_get(
                o,
                "additionalProperties"@,
            ) is Some || obj_get(o, "$ref"@) is Some;
            &&& marked ==> obj_get(example_normalized(o), "examples"@) == Some(Json::Array(seq![e]))
            &&& marked ==> obj_get(example_normalized(o), "example"@) is None
            &&& !marked ==> example_normalized(o) == o
        }),
{
    if looks_like_schema_spec(o) {
        law_example_becomes_examples(o, e, "example"@);
    }
}

/// The base64 rewrite touches only `format` and `contentEncoding`.
pub proof fn lemma_base64_frame(o: Seq<(Seq<char>, Json)>, k: Seq<char>)
    ensures
        k != "format"@ && k != "contentEncoding"@ ==> obj_get(base64_normalized(o), k) == obj_get(o, k),
{
    if k != "format"@ && k != "contentEncoding"@ {
        lemma_get_remove_other(o, "format"@, k);
        lemma_get_insert_other(obj_remove(o, "format"@), "contentEncoding"@, Json::Str("base64"@), k);
    }
}

/// `type: string, format: base64` becomes `type: string, contentEncoding:
/// base64`.
pub proof fn law_base64_becomes_content_encoding(o: Seq<(Seq<char>, Json)>, k: Seq<char>)
    requires
        keys_sorted(o),
        obj_get(o, "type"@) == Some(Json::Str("string"@)),
        obj_get(o, "format"@) == Some(Json::Str("base64"@)),
    ensures
        obj_get(base64_normalized(o), "contentEncoding"@) == Some(Json::Str("base64"@)),
        obj_get(base64_normalized(o), "format"@) is None,
        obj_get(base64_normalized(o), "type"@) == Some(Json::Str("string"@)),
        k != "format"@ && k != "contentEncoding"@ ==> obj_get(base64_normalized(o), k) == obj_get(o, k),
{
    reveal_strlit("format");
    reveal_strlit("contentEncoding");
    reveal_strlit("type");
    assert("format"@ != "contentEncoding"@) by {
        assert("format"@.len() != "contentEncoding"@.len());
    };
    assert("type"@ != "contentEncoding"@) by {
        assert("type"@.len() != "contentEncoding"@.len());
    };
    assert("type"@ != "format"@) by {
        assert("type"@.len() != "format"@.len());
    };
    let o1 = obj_remove(o, "format"@);
    lemma_get_remove_same(o, "format"@);
    lemma_get_insert_same(o1, "contentEncoding"@, Json::Str("base64"@));
    lemma_get_insert_other(o1, "contentEncoding"@, Json::Str("base64"@), "format"@);
    lemma_base64_frame(o, "type"@);
    lemma_base64_frame(o, k);
}

/// Setting a found key's value leaves the values of the other keys alone.
proof fn lemma_set_found_other(o: Seq<(Seq<char>, Json)>, k: Seq<char>, v: Json, k2: Seq<char>)
    requires
        k2 != k,
    ensures
        obj_get(obj_set_found(o, k, v), k2) == obj_get(o, k2),
{
    let r = obj_set_found(o, k, v);
    lemma_same_keys(o, r, k2);
    lemma_get_cases(o, k);
    lemma_get_cases(o, k2);
}

/// The upgraded document declares `openapi: 3.1.2`.
pub proof fn law_upgrade_sets_version(o: Seq<(Seq<char>, Json)>)
    ensures
        upgraded(Json::Object(o)) matches Json::Object(r) && obj_get(r, "openapi"@) == Some(Json::Str("3.1.2"@)),
{
    reveal(schema_normalized);
    reveal_strlit("openapi");
    reveal_strlit("content");
    reveal_strlit("nullable");
    reveal_strlit("type");
    reveal_strlit("exclusiveMinimum");
    reveal_strlit("minimum");
    reveal_strlit("exclusiveMaximum");
    reveal_strlit("maximum");
    reveal_strlit("example");
    reveal_strlit("examples");
    reveal_strlit("format");
    reveal_strlit("contentEncoding");
    let ver = "openapi"@;
    let s = Json::Str("3.1.2"@);
    assert(ver[0] != "content"@[0]);
    assert(ver[0] != "minimum"@[0]);
    assert(ver[0] != "maximum"@[0]);
    assert(ver[0] != "example"@[0]);
    assert(ver.len() != "nullable"@.len());
    assert(ver.len() != "type"@.len());
    assert(ver.len() != "exclusiveMinimum"@.len());
    assert(ver.len() != "exclusiveMaximum"@.len());
    assert(ver.len() != "examples"@.len());
    assert(ver.len() != "format"@.len());
    assert(ver.len() != "contentEncoding"@.len());
    let r1 = obj_insert(o, ver, s);
    lemma_get_insert_same(o, ver, s);
    lemma_get_cases(r1, ver);
    let f = key_index(r1, ver);
    let r2 = member_content_walked(r1);
    lemma_same_keys(r1, r2, ver);
    lemma_get_cases(r2, ver);
    assert(obj_get(r2, ver) == Some(s));
    let r3 = content_key_rewritten(r2);
    if let Some(Json::Object(c)) = obj_get(r2, "content"@) {
        lemma_set_found_other(r2, "content"@, Json::Object(content_map_rewritten(c)), ver);
    }
    assert(obj_get(r3, ver) == Some(s));
    lemma_get_cases(r3, ver);
    let r4 = member_schemas_rewritten(r3);
    lemma_same_keys(r3, r4, ver);
    lemma_get_cases(r4, ver);
    assert(obj_get(r4, ver) == Some(s));
    let a = nullable_normalized(r4);
    lemma_nullable_frame(r4, ver);
    let b = exclusive_normalized(a, "exclusiveMinimum"@, "minimum"@);
    lemma_exclusive_frame(a, "exclusiveMinimum"@, "minimum"@, ver);
    let c = exclusive_normalized(b, "exclusiveMaximum"@, "maximum"@);
    lemma_exclusive_frame(b, "exclusiveMaximum"@, "maximum"@, ver);
    let d = example_normalized(c);
    lemma_example_frame(c, ver);
    lemma_base64_frame(d, ver);
    assert(content_walked(Json::Object(r1)) == Json::Object(r3));
}

} // verus!
