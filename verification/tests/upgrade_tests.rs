use roas::common::json::JsonValue;
use roas::v3_1::from_v3_0::{is_multipart_mime, transform_spec};
use serde_json::Value;

fn to_json(v: &Value) -> JsonValue {
    match v {
        Value::Null => JsonValue::Null,
        Value::Bool(b) => JsonValue::Bool(*b),
        Value::Number(n) => JsonValue::Number(n.to_string()),
        Value::String(s) => JsonValue::String(s.clone()),
        Value::Array(a) => JsonValue::Array(a.iter().map(to_json).collect()),
        Value::Object(o) => JsonValue::Object(o.iter().map(|(k, v)| (k.clone(), to_json(v))).collect()),
    }
}

fn from_json(v: &JsonValue) -> Value {
    match v {
        JsonValue::Null => Value::Null,
        JsonValue::Bool(b) => Value::Bool(*b),
        JsonValue::Number(n) => serde_json::from_str(n).unwrap(),
        JsonValue::String(s) => Value::String(s.clone()),
        JsonValue::Array(a) => Value::Array(a.iter().map(from_json).collect()),
        JsonValue::Object(o) => {
            let mut m = serde_json::Map::new();
            for (k, v) in o {
                m.insert(k.clone(), from_json(v));
            }
            Value::Object(m)
        }
    }
}

fn convert(raw: &str) -> Value {
    let value: Value = serde_json::from_str(raw).expect("v3.0 document parses");
    from_json(&transform_spec(to_json(&value)))
}

fn arr(items: &[&str]) -> Value {
    Value::Array(items.iter().map(|s| Value::String((*s).to_owned())).collect())
}

#[test]
fn openapi_version_lifted() {
    let raw = r##"{
        "openapi": "3.0.4",
        "info": { "title": "t", "version": "1" },
        "paths": {}
    }"##;
    let value = convert(raw);
    assert_eq!(value["openapi"], "3.1.2");
}

#[test]
fn nullable_promotes_type_into_array() {
    let raw = r##"{
        "openapi": "3.0.4",
        "info": { "title": "t", "version": "1" },
        "paths": {},
        "components": {
            "schemas": {
                "MaybeName": {"type": "string", "nullable": true},
                "MaybeBool": {"type": "boolean"}
            }
        }
    }"##;
    let value = convert(raw);
    let maybe_name = &value["components"]["schemas"]["MaybeName"];
    assert_eq!(maybe_name["type"], arr(&["string", "null"]));
    assert!(maybe_name.get("nullable").is_none(), "nullable keyword removed");
    let maybe_bool = &value["components"]["schemas"]["MaybeBool"];
    assert_eq!(maybe_bool["type"], "boolean");
}

#[test]
fn exclusive_bound_collapses_to_number() {
    let raw = r##"{
        "openapi": "3.0.4",
        "info": { "title": "t", "version": "1" },
        "paths": {},
        "components": {
            "schemas": {
                "Pos": {
                    "type": "integer",
                    "minimum": 0,
                    "exclusiveMinimum": true,
                    "maximum": 100,
                    "exclusiveMaximum": true
                }
            }
        }
    }"##;
    let value = convert(raw);
    let pos = &value["components"]["schemas"]["Pos"];
    assert_eq!(pos["exclusiveMinimum"], 0);
    assert_eq!(pos["exclusiveMaximum"], 100);
    assert!(pos.get("minimum").is_none(), "redundant minimum dropped");
    assert!(pos.get("maximum").is_none(), "redundant maximum dropped");
}

#[test]
fn exclusive_bound_false_is_just_removed() {
    let raw = r##"{
        "openapi": "3.0.4",
        "info": { "title": "t", "version": "1" },
        "paths": {},
        "components": {
            "schemas": {
                "InclOnly": {
                    "type": "integer",
                    "minimum": 0,
                    "exclusiveMinimum": false
                }
            }
        }
    }"##;
    let value = convert(raw);
    let s = &value["components"]["schemas"]["InclOnly"];
    assert_eq!(s["minimum"], 0);
    assert!(s.get("exclusiveMinimum").is_none());
}

#[test]
fn schema_example_becomes_examples_array() {
    let raw = r##"{
        "openapi": "3.0.4",
        "info": { "title": "t", "version": "1" },
        "paths": {},
        "components": {
            "schemas": {
                "Pet": {"type": "string", "example": "fedora"}
            }
        }
    }"##;
    let value = convert(raw);
    let pet = &value["components"]["schemas"]["Pet"];
    assert_eq!(pet["examples"], arr(&["fedora"]));
    assert!(pet.get("example").is_none());
}

#[test]
fn parameter_example_is_kept_as_is() {
    // `Parameter` keeps its `example` field in 3.1; only Schema's
    // `example` migrates to `examples`.
    let raw = r##"{
        "openapi": "3.0.4",
        "info": { "title": "t", "version": "1" },
        "paths": {
            "/items": {
                "get": {
                    "parameters": [{
                        "in": "query",
                        "name": "limit",
                        "schema": {"type": "integer"},
                        "example": 10
                    }],
                    "responses": { "200": { "description": "ok" } }
                }
            }
        }
    }"##;
    let value = convert(raw);
    let p = &value["paths"]["/items"]["get"]["parameters"][0];
    assert_eq!(p["example"], 10);
}

#[test]
fn octet_stream_binary_schema_becomes_empty() {
    let raw = r##"{
        "openapi": "3.0.4",
        "info": { "title": "t", "version": "1" },
        "paths": {
            "/upload": {
                "post": {
                    "requestBody": {
                        "content": {
                            "application/octet-stream": {
                                "schema": {"type": "string", "format": "binary"}
                            }
                        }
                    },
                    "responses": { "200": { "description": "ok" } }
                }
            }
        }
    }"##;
    let raw_value = convert(raw);
    let raw_schema =
        &raw_value["paths"]["/upload"]["post"]["requestBody"]["content"]["application/octet-stream"]["schema"];
    assert!(raw_schema.is_object());
    assert!(
        raw_schema.as_object().unwrap().is_empty(),
        "raw transformed schema should be empty, got {raw_schema}"
    );
    assert!(raw_schema.get("format").is_none(), "binary format dropped");
}

#[test]
fn multipart_binary_property_uses_content_media_type() {
    let raw = r##"{
        "openapi": "3.0.4",
        "info": { "title": "t", "version": "1" },
        "paths": {
            "/upload": {
                "post": {
                    "requestBody": {
                        "content": {
                            "multipart/form-data": {
                                "schema": {
                                    "type": "object",
                                    "properties": {
                                        "file": {"type": "string", "format": "binary"},
                                        "name": {"type": "string"}
                                    }
                                }
                            }
                        }
                    },
                    "responses": { "200": { "description": "ok" } }
                }
            }
        }
    }"##;
    let value = convert(raw);
    let props =
        &value["paths"]["/upload"]["post"]["requestBody"]["content"]["multipart/form-data"]["schema"]["properties"];
    let file = &props["file"];
    assert_eq!(file["type"], "string");
    assert_eq!(file["contentMediaType"], "application/octet-stream");
    assert!(file.get("format").is_none(), "format dropped");
    assert_eq!(props["name"]["type"], "string");
}

#[test]
fn base64_format_becomes_content_encoding() {
    let raw = r##"{
        "openapi": "3.0.4",
        "info": { "title": "t", "version": "1" },
        "paths": {},
        "components": {
            "schemas": {
                "Token": {"type": "string", "format": "base64"}
            }
        }
    }"##;
    let value = convert(raw);
    let token = &value["components"]["schemas"]["Token"];
    assert_eq!(token["type"], "string");
    assert_eq!(token["contentEncoding"], "base64");
    assert!(token.get("format").is_none());
}

#[test]
fn nullable_variants() {
    let raw = r##"{
        "openapi": "3.0.0",
        "components": {
            "schemas": {
                "Bare": {"nullable": true, "description": "d"},
                "Listed": {"type": ["integer"], "nullable": true},
                "AlreadyNull": {"type": ["null", "integer"], "nullable": true},
                "Off": {"type": "string", "nullable": false},
                "Odd": {"type": "string", "nullable": "yes"}
            }
        }
    }"##;
    let value = convert(raw);
    let s = &value["components"]["schemas"];
    assert_eq!(s["Bare"]["type"], arr(&["null"]));
    assert_eq!(s["Listed"]["type"], arr(&["integer", "null"]));
    assert_eq!(s["AlreadyNull"]["type"], arr(&["null", "integer"]));
    assert_eq!(s["Off"]["type"], "string");
    assert!(s["Off"].get("nullable").is_none());
    assert_eq!(s["Odd"]["nullable"], "yes");
    assert_eq!(s["Odd"]["type"], "string");
}

#[test]
fn examples_already_present_wins() {
    let raw = r##"{
        "openapi": "3.0.0",
        "components": {
            "schemas": {
                "Both": {"type": "string", "example": "a", "examples": ["b"]},
                "NotSchema": {"description": "x", "example": "kept"}
            }
        }
    }"##;
    let value = convert(raw);
    let s = &value["components"]["schemas"];
    assert_eq!(s["Both"]["examples"], arr(&["b"]));
    assert!(s["Both"].get("example").is_none());
    assert_eq!(s["NotSchema"]["example"], "kept");
}

#[test]
fn non_object_document_is_unchanged() {
    let doc = JsonValue::Array(vec![JsonValue::String("openapi".to_owned())]);
    let out = transform_spec(doc);
    assert_eq!(out, JsonValue::Array(vec![JsonValue::String("openapi".to_owned())]));
}

#[test]
fn multipart_prefix_detection() {
    assert!(is_multipart_mime("multipart/form-data"));
    assert!(is_multipart_mime("multipart/"));
    assert!(!is_multipart_mime("application/json"));
    assert!(!is_multipart_mime("multipart"));
}
