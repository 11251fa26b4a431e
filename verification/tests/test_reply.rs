use cmake_file_api::decode::DecodeError;
use cmake_file_api::objects::{
    CMakeFilesV1, CacheV2, CodeModelV2, ConfigureLogV1, ObjectKind, ToolchainsV1,
};
use cmake_file_api::reply::{
    dir, index_file, is_available, is_index_file_name, DirEntry, Located, Reader, ReaderError,
};
use cmake_file_api::{objects, reply};
use std::io;

fn file(name: &str) -> DirEntry {
    DirEntry { file_name: name.to_string(), is_file: true }
}

fn directory(name: &str) -> DirEntry {
    DirEntry { file_name: name.to_string(), is_file: false }
}

fn not_found() -> io::Error {
    io::Error::new(io::ErrorKind::NotFound, "no such file")
}

/// What reading `path` gives in a reply directory that holds `files`.
fn read(files: &[(&str, &str)], reply_dir: &str, path: &str) -> io::Result<String> {
    for (name, content) in files {
        if format!("{}/{}", reply_dir, name) == path {
            return Ok(content.to_string());
        }
    }
    Err(not_found())
}

#[test]
fn test_missing_api() {
    let empty_dir = "/tmp/test_cmake";
    // the build directory is empty: it has no reply directory to list
    let listing: Option<Vec<DirEntry>> = None;

    // Test that the API is not available when the directory is empty
    assert_eq!(reply::is_available(empty_dir, &listing), false);

    // Test that the index_file function returns None when the directory is empty
    assert!(reply::index_file(empty_dir, &listing).path().is_none());
    assert_eq!(reply::index_file(empty_dir, &listing), Located::Unavailable);

    // Test for ReaderError::FileApiNotGenerated
    assert!(matches!(
        reply::Reader::from_build_dir(empty_dir, &listing, Err(not_found())),
        Err(reply::ReaderError::FileApiNotGenerated)
    ));
}

#[test]
fn test_json_parser_error() {
    let build_dir = "/tmp/test_cmake";

    // the reply directory holds a broken index file
    let broken_index_file = format!("{}/index-broken.json", reply::dir(build_dir));
    let listing = Some(vec![file("index-broken.json")]);

    // Test that the API is available when the reply directory exists
    assert_eq!(reply::is_available(build_dir, &listing), true);

    // Test that the index_file function returns the index file
    assert_eq!(
        reply::index_file(build_dir, &listing).path(),
        Some(broken_index_file.as_str())
    );
    assert_eq!(
        reply::index_file(build_dir, &listing),
        Located::Index(broken_index_file.clone())
    );

    // Test ReaderError::Parse
    assert!(matches!(
        reply::Reader::from_build_dir(build_dir, &listing, Ok("broken".to_string())),
        Err(reply::ReaderError::Parse(_))
    ));
}

const INDEX: &str = r#"{
  "cmake": {
    "version": { "major": 3, "minor": 27, "patch": 7, "suffix": "", "string": "3.27.7",
                 "isDirty": false },
    "paths": { "cmake": "/usr/bin/cmake", "ctest": "/usr/bin/ctest", "cpack": "/usr/bin/cpack",
               "root": "/usr/share/cmake-3.27" },
    "generator": { "multiConfig": false, "name": "Unix Makefiles" }
  },
  "objects": [
    { "kind": "cache", "version": { "major": 2, "minor": 0 }, "jsonFile": "cache-v2-a.json" },
    { "kind": "codemodel", "version": { "major": 1, "minor": 9 },
      "jsonFile": "codemodel-v1-old.json" },
    { "kind": "cmakeFiles", "version": { "major": 1, "minor": 0 },
      "jsonFile": "cmakeFiles-v1-b.json" },
    { "kind": "codemodel", "version": { "major": 2, "minor": 6 },
      "jsonFile": "codemodel-v2-c.json" },
    { "kind": "codemodel", "version": { "major": 2, "minor": 7 },
      "jsonFile": "codemodel-v2-second.json" },
    { "kind": "configureLog", "version": { "major": 1, "minor": 0 },
      "jsonFile": "configureLog-v1-d.json" },
    { "kind": "toolchains", "version": { "major": 1, "minor": 0 },
      "jsonFile": "toolchains-v1-e.json" }
  ],
  "reply": {
    "codemodel-v2": { "kind": "codemodel", "version": { "major": 2, "minor": 6 },
                      "jsonFile": "codemodel-v2-c.json" }
  }
}"#;

const CODEMODEL: &str = r#"{
  "kind": "codemodel",
  "version": { "major": 2, "minor": 6 },
  "paths": { "source": "/src", "build": "/src/build" },
  "configurations": [
    {
      "name": "",
      "directories": [
        { "source": ".", "build": ".", "childIndexes": [ 1 ], "projectIndex": 0,
          "targetIndexes": [ 0 ], "jsonFile": "directory-.-f5ebdc15457944623624.json" },
        { "source": "libfoo", "build": "libfoo", "parentIndex": 0, "projectIndex": 0,
          "targetIndexes": [ 1 ], "jsonFile": "directory-libfoo-3a1e9c1c3d8e5f0a1b2c.json" }
      ],
      "projects": [
        { "name": "test_cmake", "directoryIndexes": [ 0, 1 ], "targetIndexes": [ 0, 1 ] }
      ],
      "targets": [
        { "name": "test_cmake", "id": "test_cmake::@6890427a1f51a3e7e1df", "directoryIndex": 0,
          "projectIndex": 0, "jsonFile": "target-test_cmake-8f1c.json" },
        { "name": "foo", "id": "foo::@cf2f1d2b3c4d5e6f7a8b", "directoryIndex": 1,
          "projectIndex": 0, "jsonFile": "target-foo-2b7d.json" }
      ]
    }
  ]
}"#;

fn target(name: &str, id: &str) -> String {
    format!(
        r#"{{ "name": "{}", "id": "{}", "type": "EXECUTABLE",
             "paths": {{ "build": ".", "source": "." }},
             "backtraceGraph": {{ "commands": [], "files": [], "nodes": [] }} }}"#,
        name, id
    )
}

fn directory_document(path: &str) -> String {
    format!(
        r#"{{ "paths": {{ "build": "{}", "source": "{}" }}, "installers": [],
             "backtraceGraph": {{ "commands": [], "files": [], "nodes": [] }} }}"#,
        path, path
    )
}

fn open(build_dir: &str) -> Reader {
    let listing = Some(vec![directory("sub"), file("cache-v2-a.json"), file("index-2024.json")]);
    assert_eq!(
        index_file(build_dir, &listing),
        Located::Index(format!("{}/.cmake/api/v1/reply/index-2024.json", build_dir))
    );
    Reader::from_build_dir(build_dir, &listing, Ok(INDEX.to_string()))
        .expect("Reply reader should be available")
}

#[test]
fn test_valid_api() {
    let build_dir = "/tmp/test_cmake/build";
    let target_one = target("test_cmake", "test_cmake::@6890427a1f51a3e7e1df");
    let target_two = target("foo", "foo::@cf2f1d2b3c4d5e6f7a8b");
    let directory_one = directory_document(".");
    let directory_two = directory_document("libfoo");
    let files = [
        ("codemodel-v2-c.json", CODEMODEL),
        ("target-test_cmake-8f1c.json", target_one.as_str()),
        ("target-foo-2b7d.json", target_two.as_str()),
        ("directory-.-f5ebdc15457944623624.json", directory_one.as_str()),
        ("directory-libfoo-3a1e9c1c3d8e5f0a1b2c.json", directory_two.as_str()),
    ];
    let reply_dir = reply::dir(build_dir);

    let reader = open(build_dir);
    assert_eq!(reader.build_dir(), build_dir);
    assert_eq!(reader.index().objects.len(), 7);

    assert!(reader.has_object::<objects::CodeModelV2>());
    assert!(reader.has_object::<objects::ConfigureLogV1>());
    assert!(reader.has_object::<objects::CacheV2>());
    assert!(reader.has_object::<objects::ToolchainsV1>());
    assert!(reader.has_object::<objects::CMakeFilesV1>());

    // read the build model, then the documents it asks for, one by one
    let path = reader.object_file::<CodeModelV2>().expect("codemodel should be available");
    assert_eq!(path, format!("{}/codemodel-v2-c.json", reply_dir));
    let mut loading = reader
        .read_object::<CodeModelV2>(read(&files, &reply_dir, &path))
        .expect("codemodel should be available");
    let mut asked = Vec::new();
    while let Some(path) = loading.next_reference() {
        loading = loading
            .resolve_reference(read(&files, &reply_dir, &path))
            .expect("codemodel should be available");
        asked.push(path);
    }
    let codemodel: objects::CodeModelV2 = loading.finish().expect("codemodel should be complete");

    // targets first, then directories, each in the order of its references
    assert_eq!(
        asked,
        vec![
            format!("{}/target-test_cmake-8f1c.json", reply_dir),
            format!("{}/target-foo-2b7d.json", reply_dir),
            format!("{}/directory-.-f5ebdc15457944623624.json", reply_dir),
            format!("{}/directory-libfoo-3a1e9c1c3d8e5f0a1b2c.json", reply_dir),
        ]
    );

    assert!(codemodel.configurations.len() > 0);

    // targets should not be empty
    assert!(codemodel.configurations[0].targets.len() > 0);

    // targets and target_refs should have the same length
    assert_eq!(
        codemodel.configurations[0].targets.len(),
        codemodel.configurations[0].target_refs.len()
    );
    assert_eq!(codemodel.configurations[0].targets.len(), 2);

    // directories should not be empty
    assert!(codemodel.configurations[0].directories.len() > 0);

    // directories and directory_refs should have the same length
    assert_eq!(
        codemodel.configurations[0].directories.len(),
        codemodel.configurations[0].directory_refs.len()
    );
    assert_eq!(codemodel.configurations[0].directories.len(), 2);

    // each resolved document stands at the position of its reference
    for (reference, target) in codemodel.configurations[0]
        .target_refs
        .iter()
        .zip(&codemodel.configurations[0].targets)
    {
        assert_eq!(reference.id, target.id);
        assert_eq!(reference.name, target.name);
    }
    for (reference, directory) in codemodel.configurations[0]
        .directory_refs
        .iter()
        .zip(&codemodel.configurations[0].directories)
    {
        assert_eq!(reference.source, directory.paths.source);
    }
}

#[test]
fn reply_dir_lies_below_the_build_dir() {
    assert_eq!(dir("/b"), "/b/.cmake/api/v1/reply");
    assert_eq!(dir("/b/"), "/b/.cmake/api/v1/reply");
    assert_eq!(dir("rel/b"), "rel/b/.cmake/api/v1/reply");
    assert_eq!(dir(""), ".cmake/api/v1/reply");
    assert_eq!(dir("/"), "/.cmake/api/v1/reply");
}

#[test]
fn index_file_names_are_recognised() {
    assert!(is_index_file_name("index-2024-01-01T00-00-00-0000.json"));
    assert!(is_index_file_name("index-.json"));
    assert!(is_index_file_name("index-a.JSON"));
    assert!(is_index_file_name("index-a.jSoN"));
    assert!(is_index_file_name("index-a.b.json"));
    assert!(!is_index_file_name("index-a.json5"));
    assert!(!is_index_file_name("index-a.jso"));
    assert!(!is_index_file_name("index-ajson"));
    assert!(!is_index_file_name("index-a.json.bak"));
    assert!(!is_index_file_name("index.json"));
    assert!(!is_index_file_name("Index-a.json"));
    assert!(!is_index_file_name("aindex-a.json"));
    assert!(!is_index_file_name("cache-v2-a.json"));
    assert!(!is_index_file_name(""));
    assert!(!is_index_file_name("index-"));
}

#[test]
fn latest_name_is_the_index_whatever_the_listing_order() {
    let names = ["index-2024-01-01.json", "index-2024-03-01.json", "index-2024-02-01.json"];
    let expected = Located::Index("/b/.cmake/api/v1/reply/index-2024-03-01.json".to_string());
    for order in [[0, 1, 2], [0, 2, 1], [1, 0, 2], [1, 2, 0], [2, 0, 1], [2, 1, 0]] {
        let mut listing = vec![file("codemodel-v2-c.json"), directory("index-9999.json")];
        for position in order {
            listing.push(file(names[position]));
        }
        listing.push(file("zzz.json"));
        assert_eq!(index_file("/b", &Some(listing.clone())), expected);
        assert!(is_available("/b", &Some(listing)));
    }
}

#[test]
fn index_names_are_ordered_as_strings() {
    let later = |earlier: &str, later: &str| {
        let expected = Located::Index(format!("/b/.cmake/api/v1/reply/{}", later));
        assert_eq!(index_file("/b", &Some(vec![file(earlier), file(later)])), expected);
        assert_eq!(index_file("/b", &Some(vec![file(later), file(earlier)])), expected);
    };
    later("index-a.json", "index-b.json");
    later("index-a.json", "index-a.json.json");
    later("index-.json", "index-0.json");
    later("index-A.json", "index-a.json");
    later("index-a.JSON", "index-a.json");
    later("index-10.json", "index-9.json");
    later("index-z.json", "index-\u{e9}.json");
}

#[test]
fn absent_reply_dir_and_missing_index_are_told_apart() {
    let listing = Some(vec![file("codemodel-v2-c.json"), directory("index-dir.json")]);
    assert_eq!(index_file("/b", &listing), Located::NoIndex);
    assert_eq!(index_file("/b", &Some(vec![])), Located::NoIndex);
    assert_eq!(index_file("/b", &None), Located::Unavailable);
    assert_ne!(index_file("/b", &listing), index_file("/b", &None));
    assert_eq!(index_file("/b", &listing).path(), None);
    assert_eq!(index_file("/b", &None).path(), None);
    assert!(!is_available("/b", &listing));
    assert!(!is_available("/b", &None));
    // the directory is there, so this is not the outcome of an absent reply
    assert!(matches!(
        Reader::from_build_dir("/b", &listing, Err(not_found())),
        Err(ReaderError::ObjectNotFound)
    ));
    assert!(matches!(
        Reader::from_build_dir("/b", &Some(vec![]), Ok(INDEX.to_string())),
        Err(ReaderError::ObjectNotFound)
    ));
    assert!(matches!(
        Reader::from_build_dir("/b", &None, Ok(INDEX.to_string())),
        Err(ReaderError::FileApiNotGenerated)
    ));
}

#[test]
fn unreadable_index_is_an_io_error() {
    let listing = Some(vec![file("index-a.json")]);
    let error = io::Error::new(io::ErrorKind::PermissionDenied, "denied");
    match Reader::from_build_dir("/b", &listing, Err(error)) {
        Err(ReaderError::IO(e)) => assert_eq!(e.kind(), io::ErrorKind::PermissionDenied),
        _ => panic!("not an IO error"),
    }
}

#[test]
fn index_with_unknown_field_is_a_parse_error_naming_it() {
    let listing = Some(vec![file("index-a.json")]);
    let text = INDEX.replacen("\"objects\"", "\"extra\": 1, \"objects\"", 1);
    match Reader::from_build_dir("/b", &listing, Ok(text)) {
        Err(ReaderError::Parse(DecodeError::UnknownField { name, .. })) => {
            assert_eq!(name, "extra")
        }
        _ => panic!("not an unknown field"),
    }
}

#[test]
fn first_catalog_entry_of_kind_and_major_wins() {
    let reader = open("/b");
    let entry = reader.find_object(ObjectKind::CodeModel, 2).unwrap();
    assert_eq!(entry.json_file, "codemodel-v2-c.json");
    assert_eq!(entry.version.minor, 6);
    let entry = reader.find_object(ObjectKind::CodeModel, 1).unwrap();
    assert_eq!(entry.json_file, "codemodel-v1-old.json");
    assert!(reader.find_object(ObjectKind::CodeModel, 3).is_none());
    assert!(reader.find_object(ObjectKind::Cache, 1).is_none());
}

fn open_with_objects(objects: &str) -> Reader {
    let start = INDEX.find("\"objects\": [").unwrap();
    let end = INDEX.find("\"reply\"").unwrap();
    let text = format!("{}\"objects\": [{}],\n  {}", &INDEX[..start], objects, &INDEX[end..]);
    Reader::from_build_dir("/b", &Some(vec![file("index-a.json")]), Ok(text)).unwrap()
}

#[test]
fn absent_object_is_not_found() {
    let reader = open_with_objects(
        r#"{ "kind": "cache", "version": { "major": 3, "minor": 0 }, "jsonFile": "c.json" }"#,
    );
    assert!(!reader.has_object::<CacheV2>());
    assert!(!reader.has_object::<CodeModelV2>());
    assert!(!reader.has_object::<ToolchainsV1>());
    assert!(matches!(reader.object_file::<CacheV2>(), Err(ReaderError::ObjectNotFound)));
    // whatever a read gave, an object that the catalog lacks is not found
    assert!(matches!(
        reader.read_object::<CacheV2>(Ok("{}".to_string())),
        Err(ReaderError::ObjectNotFound)
    ));
    assert!(matches!(
        reader.read_object::<ConfigureLogV1>(Err(not_found())),
        Err(ReaderError::ObjectNotFound)
    ));
    let empty = open_with_objects("");
    assert!(matches!(
        empty.read_object::<CMakeFilesV1>(Err(not_found())),
        Err(ReaderError::ObjectNotFound)
    ));
}

#[test]
fn object_without_references_is_complete_at_once() {
    let reader = open("/b");
    let path = reader.object_file::<ConfigureLogV1>().unwrap();
    assert_eq!(path, "/b/.cmake/api/v1/reply/configureLog-v1-d.json");
    let text = r#"{ "kind": "configureLog", "version": { "major": 1, "minor": 0 },
                    "path": "log.yaml", "eventKindNames": [] }"#;
    let loading = reader.read_object::<ConfigureLogV1>(Ok(text.to_string())).unwrap();
    assert_eq!(loading.next_reference(), None);
    // with nothing to resolve, what a read gave is not looked at
    let loading = loading.resolve_reference(Err(not_found())).unwrap();
    let log = loading.finish().unwrap();
    assert_eq!(log.path, "log.yaml");
    assert!(log.event_kind_names.is_empty());
}

#[test]
fn missing_object_file_is_an_io_error() {
    let reader = open("/b");
    match reader.read_object::<CodeModelV2>(Err(not_found())) {
        Err(ReaderError::IO(e)) => assert_eq!(e.kind(), io::ErrorKind::NotFound),
        _ => panic!("not an IO error"),
    }
}

#[test]
fn half_resolved_object_is_not_handed_out() {
    let reader = open("/b");
    let loading = reader.read_object::<CodeModelV2>(Ok(CODEMODEL.to_string())).unwrap();
    assert!(loading.finish().is_none());
    let loading = reader.read_object::<CodeModelV2>(Ok(CODEMODEL.to_string())).unwrap();
    let loading = loading.resolve_reference(Ok(target("test_cmake", "id"))).unwrap();
    assert_eq!(
        loading.next_reference(),
        Some("/b/.cmake/api/v1/reply/target-foo-2b7d.json".to_string())
    );
    assert!(loading.finish().is_none());
}

#[test]
fn missing_satellite_fails_the_whole_load() {
    let reader = open("/b");
    let loading = reader.read_object::<CodeModelV2>(Ok(CODEMODEL.to_string())).unwrap();
    let loading = loading.resolve_reference(Ok(target("test_cmake", "id"))).unwrap();
    match loading.resolve_reference(Err(not_found())) {
        Err(ReaderError::IO(e)) => assert_eq!(e.kind(), io::ErrorKind::NotFound),
        _ => panic!("not an IO error"),
    }
}

#[test]
fn malformed_satellite_fails_the_whole_load() {
    let reader = open("/b");
    let loading = reader.read_object::<CodeModelV2>(Ok(CODEMODEL.to_string())).unwrap();
    assert!(matches!(
        loading.resolve_reference(Ok("{ broken".to_string())),
        Err(ReaderError::Parse(DecodeError::Syntax(_)))
    ));
    let loading = reader.read_object::<CodeModelV2>(Ok(CODEMODEL.to_string())).unwrap();
    // a directory document where a target document is waited for
    match loading.resolve_reference(Ok(directory_document("."))) {
        Err(ReaderError::Parse(DecodeError::UnknownField { name, .. })) => {
            assert_eq!(name, "installers")
        }
        _ => panic!("not an unknown field"),
    }
}

#[test]
fn references_are_taken_from_the_reply_dir() {
    let model = r#"{ "kind": "codemodel", "version": { "major": 2, "minor": 6 },
        "paths": { "source": "/src", "build": "/b" },
        "configurations": [
          { "name": "Debug", "projects": [], "targets": [],
            "directories": [ { "source": ".", "build": ".", "projectIndex": 0,
                               "jsonFile": "sub/directory.json" } ] },
          { "name": "Release", "projects": [],
            "targets": [ { "name": "t", "id": "t", "directoryIndex": 0, "projectIndex": 0,
                           "jsonFile": "/elsewhere/target.json" } ],
            "directories": [] }
        ] }"#;
    let reader = open("/b");
    let loading = reader.read_object::<CodeModelV2>(Ok(model.to_string())).unwrap();
    assert_eq!(
        loading.next_reference(),
        Some("/b/.cmake/api/v1/reply/sub/directory.json".to_string())
    );
    let loading = loading.resolve_reference(Ok(directory_document("."))).unwrap();
    assert_eq!(loading.next_reference(), Some("/elsewhere/target.json".to_string()));
    let loading = loading.resolve_reference(Ok(target("t", "t"))).unwrap();
    let model = loading.finish().unwrap();
    assert_eq!(model.configurations[0].directories.len(), 1);
    assert_eq!(model.configurations[0].targets.len(), 0);
    assert_eq!(model.configurations[1].directories.len(), 0);
    assert_eq!(model.configurations[1].targets.len(), 1);
}

#[test]
fn parse_reply_tells_io_from_syntax_from_schema() {
    match Reader::parse_reply::<objects::MajorMinor>(Err(not_found())) {
        Err(ReaderError::IO(e)) => assert_eq!(e.kind(), io::ErrorKind::NotFound),
        _ => panic!("not an IO error"),
    }
    assert!(matches!(
        Reader::parse_reply::<objects::MajorMinor>(Ok("".to_string())),
        Err(ReaderError::Parse(DecodeError::Syntax(_)))
    ));
    assert!(matches!(
        Reader::parse_reply::<objects::MajorMinor>(Ok(r#"{ "major": 1 }"#.to_string())),
        Err(ReaderError::Parse(DecodeError::MissingField("minor")))
    ));
    assert_eq!(
        Reader::parse_reply::<objects::MajorMinor>(Ok(r#"{ "minor": 2, "major": 1 }"#.to_string()))
            .unwrap(),
        objects::MajorMinor { major: 1, minor: 2 }
    );
}

#[test]
fn reader_errors_are_worded() {
    assert_eq!(
        ReaderError::FileApiNotGenerated.message(),
        "cmake-file-api is not generated for this build directory"
    );
    assert_eq!(ReaderError::ObjectNotFound.message(), "failed to find object");
    assert_eq!(
        ReaderError::Parse(DecodeError::MissingField("kind")).message(),
        "Failed to deserialize reply: missing field `kind`"
    );
    assert_eq!(
        ReaderError::from(io::Error::new(io::ErrorKind::Other, "disk on fire")).message(),
        "IO error: disk on fire"
    );
    let syntax = serde_json::from_str::<serde_json::Value>("{").unwrap_err();
    let expected = format!("Failed to deserialize reply: {}", syntax);
    assert_eq!(ReaderError::from(syntax).message(), expected);
    assert!(matches!(
        ReaderError::from(DecodeError::OutOfRange),
        ReaderError::Parse(DecodeError::OutOfRange)
    ));
}
