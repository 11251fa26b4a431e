use cmake_file_api::decode::{Decode, DecodeError};
use cmake_file_api::index::{
    CMake, CMakeGenerator, CMakePaths, CMakeVersion, ClientField, Index, QueryJson, Replies,
    ReplyField, ReplyFileReference,
};
use cmake_file_api::objects::{MajorMinor, ObjectKind};
use serde_json::Value;

fn json(text: &str) -> Value {
    serde_json::from_str(text).expect("the test document is JSON")
}

#[test]
fn test_cmake() {
    let json = json(
        r#"{
          "generator" :
          {
            "multiConfig" : true,
            "name" : "Visual Studio 16 2019",
            "platform" : "x64"
          },
          "paths" :
          {
            "cmake" : "C:/Program Files/CMake/bin/cmake.exe",
            "cpack" : "C:/Program Files/CMake/bin/cpack.exe",
            "ctest" : "C:/Program Files/CMake/bin/ctest.exe",
            "root" : "C:/Program Files/CMake/share/cmake-3.27"
          },
          "version" : {
            "isDirty": false,
            "major": 3,
            "minor": 27,
            "patch": 7,
            "string": "3.27.7",
            "suffix": ""
          }
        }"#,
    );

    let cmake = CMake::decode(&json).unwrap();

    assert_eq!(
        cmake,
        CMake {
            version: CMakeVersion {
                is_dirty: false,
                major: 3,
                minor: 27,
                patch: 7,
                string: "3.27.7".into(),
                suffix: String::new(),
            },
            paths: CMakePaths {
                cmake: "C:/Program Files/CMake/bin/cmake.exe".into(),
                cpack: "C:/Program Files/CMake/bin/cpack.exe".into(),
                ctest: "C:/Program Files/CMake/bin/ctest.exe".into(),
                root: "C:/Program Files/CMake/share/cmake-3.27".into(),
            },
            generator: CMakeGenerator {
                multi_config: true,
                platform: Some("x64".into()),
                name: "Visual Studio 16 2019".into(),
            },
        }
    );
}

#[test]
fn test_cmake_with_unknown_field() {
    let json = json(
        r#"{
          "generator" :
          {
            "multiConfig" : true,
            "name" : "Visual Studio 16 2019",
            "platform" : "x64",
            "test" : "test"
          },
          "paths" :
          {
            "cmake" : "C:/Program Files/CMake/bin/cmake.exe",
            "cpack" : "C:/Program Files/CMake/bin/cpack.exe",
            "ctest" : "C:/Program Files/CMake/bin/ctest.exe",
            "root" : "C:/Program Files/CMake/share/cmake-3.27"
          },
          "version" : {
            "isDirty": false,
            "major": 3,
            "minor": 27,
            "patch": 7,
            "string": "3.27.7",
            "suffix": ""
          }
        }"#,
    );

    assert_eq!(
        CMake::decode(&json).unwrap_err().message(),
        "unknown field `test`, expected one of `multiConfig`, `name`, `platform`"
    );
}

#[test]
fn test_objects() {
    let json = json(
        r#"[
          {
            "jsonFile" : "codemodel-v2-b29a741ae0dbe513e631.json",
            "kind" : "codemodel",
            "version" :
            {
              "major" : 2,
              "minor" : 6
            }
          },
          {
            "jsonFile" : "configureLog-v1-cac906d276896c7cc320.json",
            "kind" : "configureLog",
            "version" :
            {
              "major" : 1,
              "minor" : 0
            }
          }
        ]"#,
    );

    let objects = Vec::<ReplyFileReference>::decode(&json).unwrap();
    assert_eq!(
        objects,
        vec![
            ReplyFileReference {
                json_file: "codemodel-v2-b29a741ae0dbe513e631.json".into(),
                kind: ObjectKind::CodeModel,
                version: MajorMinor { major: 2, minor: 6 }
            },
            ReplyFileReference {
                json_file: "configureLog-v1-cac906d276896c7cc320.json".into(),
                kind: ObjectKind::ConfigureLog,
                version: MajorMinor { major: 1, minor: 0 }
            }
        ]
    );
}

#[test]
fn test_reply_with_error() {
    let json = json(
        r#"{
          "test_error" :
          {
            "error" : "test error"
          }
        }"#,
    );

    let reply = Replies::<ReplyField>::decode(&json).unwrap();
    let item = reply.entries.iter().next().unwrap();

    assert!(match &item.1 {
        ReplyField::Error(e) => e.error == "test error",
        _ => false,
    });
}

#[test]
fn test_reply_with_reply_ref() {
    let json = json(
        r#"{
          "codemodel-v2" :
          {
            "jsonFile" : "codemodel-v2-b29a741ae0dbe513e631.json",
            "kind" : "codemodel",
            "version" :
            {
              "major" : 2,
              "minor" : 6
            }
          }
        }"#,
    );

    let reply = Replies::<ReplyField>::decode(&json).unwrap();
    let item = reply.entries.iter().next().unwrap();
    assert_eq!(item.0, "codemodel-v2");
    assert!(match &item.1 {
        ReplyField::ReplyFileReference(e) =>
            *e == ReplyFileReference {
                json_file: "codemodel-v2-b29a741ae0dbe513e631.json".into(),
                kind: ObjectKind::CodeModel,
                version: MajorMinor { major: 2, minor: 6 },
            },
        _ => false,
    });
}

#[test]
fn test_reply_client_with_reply_ref() {
    let json = json(
        r#"{
            "codemodel-v2" :
            {
                "jsonFile" : "codemodel-v2-b29a741ae0dbe513e631.json",
                "kind" : "codemodel",
                "version" :
                {
                    "major" : 2,
                    "minor" : 6
                }
            }
        }"#,
    );

    let reply = Replies::<ClientField>::decode(&json).unwrap();
    let item = reply.entries.iter().next().unwrap();
    assert_eq!(item.0, "codemodel-v2");
    assert!(match &item.1 {
        ClientField::ReplyFileReference(e) =>
            *e == ReplyFileReference {
                json_file: "codemodel-v2-b29a741ae0dbe513e631.json".into(),
                kind: ObjectKind::CodeModel,
                version: MajorMinor { major: 2, minor: 6 },
            },
        _ => false,
    });
}

#[test]
fn test_reply_client_with_error() {
    let json = json(
        r#"{
            "bad_query.json" :
            {
                "error" : "unknown query file"
            }
        }"#,
    );

    let reply = Replies::<ClientField>::decode(&json).unwrap();
    let item = reply.entries.iter().next().unwrap();
    assert_eq!(item.0, "bad_query.json");
    assert!(match &item.1 {
        ClientField::Error(e) => e.error == "unknown query file",
        _ => false,
    });
}

#[test]
fn test_reply_query_json_with_client() {
    let json = json(
        r#"{
            "client" :
            {
                "myData" : 10
            }
        }"#,
    );

    let query_json = QueryJson::decode(&json).unwrap();
    assert_eq!(query_json.client.unwrap()["myData"], 10);
}

#[test]
fn test_reply_query_json_with_requests() {
    let json = json(
        r#"{
            "requests" :
            [
                {
                    "kind" : "codemodel",
                    "version" : 2
                }
            ]
        }"#,
    );

    let query_json = QueryJson::decode(&json).unwrap();
    assert!(query_json
        .requests
        .unwrap()
        .as_array()
        .unwrap()
        .first()
        .unwrap()
        .is_object());
}

#[test]
fn test_reply_query_json_with_responses() {
    let json = json(
        r#"{
            "responses" :
            [
                {
                    "jsonFile" : "codemodel-v2-b29a741ae0dbe513e631.json",
                    "kind" : "codemodel",
                    "version" :
                    {
                        "major" : 2,
                        "minor" : 6
                    }
                },
                {
                    "error": "error"
                }
            ]
        }"#,
    );

    let query_json = QueryJson::decode(&json).unwrap();
    assert!(query_json
        .responses
        .unwrap()
        .as_array()
        .unwrap()
        .first()
        .unwrap()
        .is_object());
}

#[test]
fn test_reply_query_json_with_response_error() {
    let json = json(
        r#"{
            "responses" :
                {
                    "error" : "unknown request kind 'bad_name'"
                }
        }"#,
    );

    let query_json = QueryJson::decode(&json).unwrap();
    assert!(query_json.responses.unwrap().is_object());
}

const INDEX: &str = r#"{
  "cmake": {
    "version": {
      "major": 3, "minor": 14, "patch": 0, "suffix": "",
      "string": "3.14.0", "isDirty": false
    },
    "paths": {
      "cmake": "/prefix/bin/cmake",
      "ctest": "/prefix/bin/ctest",
      "cpack": "/prefix/bin/cpack",
      "root": "/prefix/share/cmake-3.14"
    },
    "generator": {
      "multiConfig": false,
      "name": "Unix Makefiles"
    }
  },
  "objects": [
    { "kind": "codemodel",
      "version": { "major": 1, "minor": 0 },
      "jsonFile": "test.json" }
  ],
  "reply": {
    "<kind>-v<major>": { "kind": "codemodel",
                         "version": { "major": 1, "minor": 0 },
                         "jsonFile": "test.json" },
    "<unknown>": { "error": "unknown query file" },
    "client-<client>": {
      "<kind>-v<major>": { "kind": "codemodel",
                           "version": { "major": 1, "minor": 0 },
                           "jsonFile": "test.json" },
      "<unknown>": { "error": "unknown query file" },
      "query.json": {
        "requests": [ {}, {}, {} ],
        "responses": [
          { "kind": "codemodel",
            "version": { "major": 1, "minor": 0 },
            "jsonFile": "test.json" },
          { "error": "unknown query file" }
        ],
        "client": {}
      }
    }
  }
}"#;

#[test]
fn test_index() {
    Index::decode(&json(INDEX)).unwrap();
}

#[test]
fn index_reply_shapes_are_told_apart() {
    let index = Index::decode(&json(INDEX)).unwrap();
    assert_eq!(index.cmake.generator.platform, None);
    assert_eq!(index.objects.len(), 1);
    assert_eq!(index.reply.entries.len(), 3);
    assert!(matches!(
        index.reply.get("<kind>-v<major>"),
        Some(ReplyField::ReplyFileReference(_))
    ));
    assert!(matches!(index.reply.get("<unknown>"), Some(ReplyField::Error(_))));
    let client = match index.reply.get("client-<client>") {
        Some(ReplyField::Client(client)) => client,
        other => panic!("not the answers to a client: {:?}", other),
    };
    assert!(matches!(
        client.get("<kind>-v<major>"),
        Some(ClientField::ReplyFileReference(_))
    ));
    assert!(matches!(client.get("<unknown>"), Some(ClientField::Error(_))));
    let query = match client.get("query.json") {
        Some(ClientField::QueryJson(query)) => query,
        other => panic!("not the answer to a query.json: {:?}", other),
    };
    assert_eq!(query.client, Some(json("{}")));
    assert_eq!(query.requests, Some(json("[{}, {}, {}]")));
    assert!(index.reply.get("absent").is_none());
}

#[test]
fn labels_of_replies_are_distinct_and_in_the_order_of_the_map() {
    let document = json(
        r#"{ "b": { "error": "1" }, "a": { "error": "2" }, "b": { "error": "3" } }"#,
    );
    let replies = Replies::<ReplyField>::decode(&document).unwrap();
    let labels: Vec<&str> = replies.entries.iter().map(|entry| entry.0.as_str()).collect();
    assert_eq!(labels, vec!["a", "b"]);
    assert!(matches!(replies.get("b"), Some(ReplyField::Error(e)) if e.error == "3"));
    assert!(matches!(replies.get("a"), Some(ReplyField::Error(e)) if e.error == "2"));
}

#[test]
fn reply_field_null_is_unknown() {
    assert_eq!(ReplyField::decode(&json("null")).unwrap(), ReplyField::Unknown);
}

#[test]
fn reply_field_of_no_shape_is_rejected() {
    assert!(matches!(
        ReplyField::decode(&json("17")),
        Err(DecodeError::NoMatchingShape)
    ));
    assert!(matches!(
        ReplyField::decode(&json(r#"{ "x": 17 }"#)),
        Err(DecodeError::NoMatchingShape)
    ));
    assert!(matches!(
        ClientField::decode(&json(r#"{ "error": "e", "more": 1 }"#)),
        Err(DecodeError::NoMatchingShape)
    ));
}

#[test]
fn reply_field_empty_object_answers_a_client() {
    assert_eq!(
        ReplyField::decode(&json("{}")).unwrap(),
        ReplyField::Client(Replies { entries: vec![] })
    );
}

#[test]
fn index_with_unknown_field_is_rejected() {
    let mut document = json(INDEX);
    document
        .as_object_mut()
        .unwrap()
        .insert("extra".to_string(), json("1"));
    match Index::decode(&document) {
        Err(DecodeError::UnknownField { name, expected }) => {
            assert_eq!(name, "extra");
            assert_eq!(expected, ["cmake", "objects", "reply"]);
        }
        other => panic!("not an unknown field: {:?}", other),
    }
}

#[test]
fn index_with_unknown_field_in_catalog_entry_is_rejected() {
    let mut document = json(INDEX);
    document["objects"][0]
        .as_object_mut()
        .unwrap()
        .insert("size".to_string(), json("1"));
    match Index::decode(&document) {
        Err(DecodeError::UnknownField { name, .. }) => assert_eq!(name, "size"),
        other => panic!("not an unknown field: {:?}", other),
    }
}

#[test]
fn index_with_unknown_field_in_version_is_rejected() {
    let mut document = json(INDEX);
    document["cmake"]["version"]
        .as_object_mut()
        .unwrap()
        .insert("tweak".to_string(), json("0"));
    let error = Index::decode(&document).unwrap_err();
    assert_eq!(
        error.message(),
        "unknown field `tweak`, expected one of `major`, `minor`, `patch`, `suffix`, `string`, `isDirty`"
    );
}

#[test]
fn index_without_catalog_is_rejected() {
    let mut document = json(INDEX);
    document.as_object_mut().unwrap().remove("objects");
    match Index::decode(&document) {
        Err(DecodeError::MissingField(name)) => assert_eq!(name, "objects"),
        other => panic!("not a missing field: {:?}", other),
    }
}

#[test]
fn catalog_entry_of_unknown_kind_is_rejected() {
    let document = json(r#"{ "kind": "future", "version": { "major": 1, "minor": 0 }, "jsonFile": "f.json" }"#);
    match ReplyFileReference::decode(&document) {
        Err(DecodeError::UnknownVariant(name)) => assert_eq!(name, "future"),
        other => panic!("not an unknown variant: {:?}", other),
    }
}
