use cmake_file_api::objects;
use cmake_file_api::query::{dir, Writer, WriterError};
use std::io;

fn json(text: &str) -> serde_json::Value {
    serde_json::from_str(text).expect("the test document is JSON")
}

#[test]
fn query_writer_write_stateless_creates_files() {
    let build_dir = "/tmp/test_cmake";

    let files = cmake_file_api::query::Writer::default()
        .request_object::<objects::CodeModelV2>()
        .request_object::<objects::ConfigureLogV1>()
        .request_object::<objects::CacheV2>()
        .request_object::<objects::ToolchainsV1>()
        .request_object::<objects::CMakeFilesV1>()
        .write_stateless(build_dir);

    let exists = |name: &str| {
        let path = format!("{}/{}", cmake_file_api::query::dir(build_dir), name);
        files.files.iter().any(|file| file.path == path)
    };
    assert_eq!(files.directory, cmake_file_api::query::dir(build_dir));
    assert!(exists("codemodel-v2"), "codeModel-v2 should exist");
    assert!(exists("configureLog-v1"), "configureLog-v1 should exist");
    assert!(exists("cache-v2"), "cache-v2 should exist");
    assert!(exists("toolchains-v1"), "toolchains-v1 should exist");
    assert!(exists("cmakeFiles-v1"), "cmakeFiles-v1 should exist");
}

#[test]
fn query_writer_write_statefull_creates_files() {
    let build_dir = "/tmp/test_cmake";

    let files = cmake_file_api::query::Writer::default()
        .set_client("test_client", json(r#"{"my_key": "my_value"}"#))
        .request_object::<objects::CodeModelV2>()
        .request_object::<objects::ConfigureLogV1>()
        .request_object::<objects::CacheV2>()
        .request_object::<objects::ToolchainsV1>()
        .request_object::<objects::CMakeFilesV1>()
        .write_stateful(build_dir)
        .unwrap();

    let client_dir = format!("{}/test_client", cmake_file_api::query::dir(build_dir));
    let query_file = format!("{}/query.json", client_dir);
    assert_eq!(files.directory, client_dir);
    assert_eq!(files.files.len(), 1);
    assert_eq!(files.files[0].path, query_file, "query file should exist");

    let query = &files.files[0].content;
    let query_json: serde_json::Value = serde_json::from_str(query).expect("query should be json");

    // should contain client data
    assert_eq!(
        query_json["client"],
        json(r#"{"my_key": "my_value"}"#),
        "client data should be written"
    );

    // should contain requested objects
    assert_eq!(
        query_json["requests"],
        json(
            r#"[
            {"kind": "codemodel", "version": {"major": 2}},
            {"kind": "configureLog", "version": {"major": 1}},
            {"kind": "cache", "version": {"major": 2}},
            {"kind": "toolchains", "version": {"major": 1}},
            {"kind": "cmakeFiles", "version": {"major": 1}}
        ]"#
        ),
        "requests should be written for each object"
    );
}

#[test]
fn query_dir_lies_below_the_build_dir() {
    assert_eq!(dir("/b"), "/b/.cmake/api/v1/query");
    assert_eq!(dir("b/"), "b/.cmake/api/v1/query");
    assert_eq!(dir(""), ".cmake/api/v1/query");
}

#[test]
fn stateless_files_are_empty_and_in_request_order() {
    let mut writer = Writer::default();
    writer.request_object::<objects::CacheV2>();
    writer.add_request_exact::<objects::CodeModelV2>(7);
    writer.request_object::<objects::CacheV2>();
    let files = writer.write_stateless("/b");
    let paths: Vec<&str> = files.files.iter().map(|file| file.path.as_str()).collect();
    assert_eq!(
        paths,
        vec![
            "/b/.cmake/api/v1/query/cache-v2",
            "/b/.cmake/api/v1/query/codemodel-v2",
            "/b/.cmake/api/v1/query/cache-v2",
        ]
    );
    assert!(files.files.iter().all(|file| file.content.is_empty()));
    assert!(Writer::default().write_stateless("/b").files.is_empty());
}

#[test]
fn request_all_objects_asks_for_each_kind_once() {
    let files = Writer::default().request_all_objects().write_stateless("b");
    let paths: Vec<&str> = files.files.iter().map(|file| file.path.as_str()).collect();
    assert_eq!(
        paths,
        vec![
            "b/.cmake/api/v1/query/codemodel-v2",
            "b/.cmake/api/v1/query/configureLog-v1",
            "b/.cmake/api/v1/query/cache-v2",
            "b/.cmake/api/v1/query/toolchains-v1",
            "b/.cmake/api/v1/query/cmakeFiles-v1",
        ]
    );
}

#[test]
fn stateful_query_needs_a_client_name() {
    let mut writer = Writer::default();
    writer.request_all_objects();
    let error = writer.write_stateful("/b").unwrap_err();
    assert!(matches!(error, WriterError::ClientNameNotSet));
    assert_eq!(error.message(), "Client name not set");
}

#[test]
fn stateful_query_carries_minor_versions_and_client_data() {
    let data = json(r#"{ "n": [1, 2.5, -3, null, true], "s": "é\"" }"#);
    let mut writer = Writer::default();
    writer
        .add_request_exact::<objects::CodeModelV2>(6)
        .request_object::<objects::CacheV2>()
        .set_client("ide", data.clone());
    let files = writer.write_stateful("/b").unwrap();
    assert_eq!(files.directory, "/b/.cmake/api/v1/query/ide");
    assert_eq!(files.files[0].path, "/b/.cmake/api/v1/query/ide/query.json");
    let written = json(&files.files[0].content);
    assert_eq!(written["client"], data);
    assert_eq!(
        written["requests"],
        json(
            r#"[ {"kind": "codemodel", "version": {"major": 2, "minor": 6}},
                 {"kind": "cache", "version": {"major": 2}} ]"#
        )
    );
    assert_eq!(written.as_object().unwrap().len(), 2);
    assert_eq!(writer.document(), written);
}

#[test]
fn stateful_query_without_data_writes_null() {
    let mut writer = Writer::default();
    writer.set_client("ide", serde_json::Value::Null);
    let written = json(&writer.write_stateful("/b").unwrap().files[0].content);
    assert_eq!(written, json(r#"{ "client": null, "requests": [] }"#));
}

#[test]
fn writer_errors_are_worded() {
    assert_eq!(
        WriterError::from(io::Error::new(io::ErrorKind::Other, "disk full")).message(),
        "IO error: disk full"
    );
    let syntax = serde_json::from_str::<serde_json::Value>("[").unwrap_err();
    let expected = format!("Failed to serialize query: {}", syntax);
    assert_eq!(WriterError::from(syntax).message(), expected);
}
