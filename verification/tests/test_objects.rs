use cmake_file_api::decode::{Decode, DecodeError, Expected};
use cmake_file_api::objects::cache_v2::{Cache, Entry, Property};
use cmake_file_api::objects::cmake_files_v1::{CMakeFiles, Input, Paths};
use cmake_file_api::objects::codemodel_v2::target::{
    defines_among, flags_among, gather,
};
use cmake_file_api::objects::codemodel_v2::{
    BacktraceGraph, CodeModel, CodemodelPaths, CompileCommandFragment, CompileGroup, Define,
    Dependency, Directory, DirectoryPaths, FromToPaths, InstallPath, Installer, Node, Target,
    TargetPaths,
};
use cmake_file_api::objects::configure_log_v1::ConfigureLog;
use cmake_file_api::objects::toolchains_v1::Toolchains;
use cmake_file_api::objects::{MajorMinor, Object, ObjectKind};
use serde_json::Value;

fn json(text: &str) -> Value {
    serde_json::from_str(text).expect("the test document is JSON")
}

#[test]
fn cache_v2_test_configure_log() {
    let json = json(
        r#"{
          "kind": "cache",
          "version": { "major": 2, "minor": 0 },
          "entries": [
            {
              "name": "BUILD_SHARED_LIBS",
              "value": "ON",
              "type": "BOOL",
              "properties": [
                {
                  "name": "HELPSTRING",
                  "value": "Build shared libraries"
                }
              ]
            },
            {
              "name": "CMAKE_GENERATOR",
              "value": "Unix Makefiles",
              "type": "INTERNAL",
              "properties": [
                {
                  "name": "HELPSTRING",
                  "value": "Name of generator."
                }
              ]
            }
          ]
        }"#,
    );

    let cache = Cache::decode(&json).unwrap();
    assert_eq!(
        cache,
        Cache {
            kind: ObjectKind::Cache,
            version: MajorMinor { major: 2, minor: 0 },
            entries: vec![
                Entry {
                    name: "BUILD_SHARED_LIBS".into(),
                    value: "ON".into(),
                    entry_type: "BOOL".into(),
                    properties: vec![Property {
                        name: "HELPSTRING".into(),
                        value: "Build shared libraries".into(),
                    }]
                },
                Entry {
                    name: "CMAKE_GENERATOR".into(),
                    value: "Unix Makefiles".into(),
                    entry_type: "INTERNAL".into(),
                    properties: vec![Property {
                        name: "HELPSTRING".into(),
                        value: "Name of generator.".into(),
                    }]
                }
            ]
        }
    );
}

#[test]
fn cmake_files_v1_test_configure_log() {
    let json = json(
        r#"{
          "kind": "cmakeFiles",
          "version": { "major": 1, "minor": 0 },
          "paths": {
            "build": "/path/to/top-level-build-dir",
            "source": "/path/to/top-level-source-dir"
          },
          "inputs": [
            {
              "path": "CMakeLists.txt"
            },
            {
              "isGenerated": true,
              "path": "/path/to/top-level-build-dir/../CMakeSystem.cmake"
            },
            {
              "isExternal": true,
              "path": "/path/to/external/third-party/module.cmake"
            },
            {
              "isCMake": true,
              "isExternal": true,
              "path": "/path/to/cmake/Modules/CMakeGenericSystem.cmake"
            }
          ]
        }"#,
    );

    let cmake_files = CMakeFiles::decode(&json).unwrap();
    assert_eq!(
        cmake_files,
        CMakeFiles {
            kind: ObjectKind::CMakeFiles,
            version: MajorMinor { major: 1, minor: 0 },
            paths: Paths {
                build: "/path/to/top-level-build-dir".into(),
                source: "/path/to/top-level-source-dir".into()
            },
            inputs: vec![
                Input {
                    path: "CMakeLists.txt".into(),
                    ..Default::default()
                },
                Input {
                    is_generated: true,
                    path: "/path/to/top-level-build-dir/../CMakeSystem.cmake".into(),
                    ..Default::default()
                },
                Input {
                    is_external: true,
                    path: "/path/to/external/third-party/module.cmake".into(),
                    ..Default::default()
                },
                Input {
                    is_cmake: true,
                    is_external: true,
                    path: "/path/to/cmake/Modules/CMakeGenericSystem.cmake".into(),
                    ..Default::default()
                }
            ]
        }
    );
}

#[test]
fn configure_log_v1_test_configure_log() {
    let json = json(
        r#"{
          "kind" : "configureLog",
          "path" : "build/CMakeFiles/CMakeConfigureLog.yaml",
          "version" :
          {
            "major" : 1,
            "minor" : 0
          },
          "eventKindNames" :
          [
            "message-v1",
            "try_compile-v1",
            "try_run-v1"
          ]
        }"#,
    );

    let configure_log = ConfigureLog::decode(&json).unwrap();
    assert_eq!(
        configure_log,
        ConfigureLog {
            event_kind_names: vec![
                "message-v1".into(),
                "try_compile-v1".into(),
                "try_run-v1".into()
            ],
            kind: ObjectKind::ConfigureLog,
            path: "build/CMakeFiles/CMakeConfigureLog.yaml".into(),
            version: MajorMinor { major: 1, minor: 0 }
        }
    );
}

#[test]
fn test_backtrace_graph() {
    let json = json(
        r#"{
            "commands" :
            [
                "add_executable",
                "target_link_libraries"
            ],
            "files" :
            [
                "CMakeLists.txt"
            ],
            "nodes" :
            [
                {
                    "file" : 0
                },
                {
                    "command" : 0,
                    "file" : 0,
                    "line" : 4,
                    "parent" : 0
                },
                {
                    "command" : 1,
                    "file" : 0,
                    "line" : 9,
                    "parent" : 0
                }
            ]
        }"#,
    );

    let graph = BacktraceGraph::decode(&json).unwrap();
    assert_eq!(
        graph,
        BacktraceGraph {
            commands: vec![
                "add_executable".to_string(),
                "target_link_libraries".to_string()
            ],
            files: vec!["CMakeLists.txt".to_string()],
            nodes: vec![
                Node {
                    file: 0,
                    ..Default::default()
                },
                Node {
                    file: 0,
                    command: Some(0),
                    line: Some(4),
                    parent: Some(0)
                },
                Node {
                    file: 0,
                    command: Some(1),
                    line: Some(9),
                    parent: Some(0)
                }
            ]
        }
    );
}

const MODEL: &str = r#"{
  "kind": "codemodel",
  "version": { "major": 2, "minor": 6 },
  "paths": {
    "source": "/path/to/top-level-source-dir",
    "build": "/path/to/top-level-build-dir"
  },
  "configurations": [
    {
      "name": "Debug",
      "directories": [
        {
          "source": ".",
          "build": ".",
          "childIndexes": [ 1 ],
          "projectIndex": 0,
          "targetIndexes": [ 0 ],
          "hasInstallRule": true,
          "minimumCMakeVersion": {
            "string": "3.14"
          },
          "jsonFile": "<file>"
        },
        {
          "source": "sub",
          "build": "sub",
          "parentIndex": 0,
          "projectIndex": 0,
          "targetIndexes": [ 1 ],
          "minimumCMakeVersion": {
            "string": "3.14"
          },
          "jsonFile": "<file>"
        }
      ],
      "projects": [
        {
          "name": "MyProject",
          "directoryIndexes": [ 0, 1 ],
          "targetIndexes": [ 0, 1 ]
        }
      ],
      "targets": [
        {
          "name": "MyExecutable",
          "directoryIndex": 0,
          "projectIndex": 0,
          "jsonFile": "<file>",
          "id": "0"
        },
        {
          "name": "MyLibrary",
          "directoryIndex": 1,
          "projectIndex": 0,
          "jsonFile": "<file>",
          "id": "1"
        }
      ]
    }
  ]
}"#;

#[test]
fn test_model() {
    let model = CodeModel::decode(&json(MODEL)).unwrap();
    assert_eq!(model.kind, ObjectKind::CodeModel);
    assert_eq!(model.version, MajorMinor { major: 2, minor: 6 });
    assert_eq!(
        model.paths,
        CodemodelPaths {
            source: "/path/to/top-level-source-dir".into(),
            build: "/path/to/top-level-build-dir".into()
        }
    );
    assert_eq!(model.configurations.len(), 1);
    assert_eq!(model.configurations[0].name, "Debug");
    assert_eq!(model.configurations[0].directory_refs.len(), 2);
    assert_eq!(model.configurations[0].directory_refs[0].source, ".");
    assert_eq!(model.configurations[0].projects.len(), 1);
    assert_eq!(model.configurations[0].projects[0].name, "MyProject");
    assert_eq!(model.configurations[0].target_refs.len(), 2);
    assert_eq!(model.configurations[0].target_refs[0].name, "MyExecutable");
}

#[test]
fn model_is_read_without_resolved_documents() {
    let model = CodeModel::decode(&json(MODEL)).unwrap();
    assert!(model.configurations[0].targets.is_empty());
    assert!(model.configurations[0].directories.is_empty());
    assert_eq!(model.configurations[0].directory_refs[0].parent_index, None);
    assert_eq!(model.configurations[0].directory_refs[1].parent_index, Some(0));
    assert_eq!(model.configurations[0].directory_refs[0].child_indexes, vec![1]);
    assert!(model.configurations[0].directory_refs[1].child_indexes.is_empty());
    assert!(model.configurations[0].directory_refs[0].has_install_rule);
    assert!(!model.configurations[0].directory_refs[1].has_install_rule);
    assert_eq!(model.next_reference(), Some("<file>"));
}

const DIRECTORY: &str = r#"{
    "backtraceGraph" :
    {
        "commands" : [],
        "files" : [],
        "nodes" : []
    },
    "installers" : [],
    "paths" :
    {
        "build" : ".",
        "source" : "."
    }
}"#;

#[test]
fn test_directory() {
    let dir = Directory::decode(&json(DIRECTORY)).unwrap();
    assert_eq!(
        dir,
        Directory {
            backtrace_graph: BacktraceGraph {
                ..Default::default()
            },
            installers: vec![],
            paths: DirectoryPaths {
                build: ".".into(),
                source: ".".into()
            }
        }
    );
}

const TARGET: &str = r#"{
    "backtrace" : 0,
    "backtraceGraph" :
    {
        "commands" : [],
        "files" :
        [
            "CMakeLists.txt"
        ],
        "nodes" :
        [
            {
                "file" : 0
            }
        ]
    },
    "dependencies" :
    [
        {
            "id" : "ZERO_CHECK::@6890427a1f51a3e7e1df"
        },
        {
            "id" : "subbinary::@6890427a1f51a3e7e1df"
        }
    ],
    "id" : "ALL_BUILD::@6890427a1f51a3e7e1df",
    "isGeneratorProvided" : true,
    "name" : "ALL_BUILD",
    "paths" :
    {
        "build" : ".",
        "source" : "."
    },
    "sources" : [],
    "type" : "UTILITY"
}"#;

#[test]
fn test_target() {
    let target = Target::decode(&json(TARGET)).unwrap();
    assert_eq!(
        target,
        Target {
            backtrace: Some(0),
            backtrace_graph: BacktraceGraph {
                commands: vec![],
                files: vec!["CMakeLists.txt".into()],
                nodes: vec![Node {
                    file: 0,
                    ..Default::default()
                }]
            },
            dependencies: vec![
                Dependency {
                    id: "ZERO_CHECK::@6890427a1f51a3e7e1df".to_string(),
                    ..Default::default()
                },
                Dependency {
                    id: "subbinary::@6890427a1f51a3e7e1df".to_string(),
                    ..Default::default()
                }
            ],
            id: "ALL_BUILD::@6890427a1f51a3e7e1df".to_string(),
            is_generator_provided: true,
            name: "ALL_BUILD".to_string(),
            paths: TargetPaths {
                build: ".".into(),
                source: ".".into()
            },
            sources: vec![],
            target_type: "UTILITY".to_string(),
            ..Default::default()
        }
    );
}

#[test]
fn test_toolchains() {
    let json = json(
        r#"{
          "kind": "toolchains",
          "version": { "major": 1, "minor": 0 },
          "toolchains": [
            {
              "language": "C",
              "compiler": {
                "path": "/usr/bin/cc",
                "id": "GNU",
                "version": "9.3.0",
                "implicit": {
                  "includeDirectories": [
                    "/usr/lib/gcc/x86_64-linux-gnu/9/include",
                    "/usr/local/include",
                    "/usr/include/x86_64-linux-gnu",
                    "/usr/include"
                  ],
                  "linkDirectories": [
                    "/usr/lib/gcc/x86_64-linux-gnu/9",
                    "/usr/lib/x86_64-linux-gnu",
                    "/usr/lib",
                    "/lib/x86_64-linux-gnu",
                    "/lib"
                  ],
                  "linkFrameworkDirectories": [],
                  "linkLibraries": [ "gcc", "gcc_s", "c", "gcc", "gcc_s" ]
                }
              },
              "sourceFileExtensions": [ "c", "m" ]
            },
            {
              "language": "CXX",
              "compiler": {
                "path": "/usr/bin/c++",
                "id": "GNU",
                "version": "9.3.0",
                "implicit": {
                  "includeDirectories": [
                    "/usr/include/c++/9",
                    "/usr/include/x86_64-linux-gnu/c++/9",
                    "/usr/include/c++/9/backward",
                    "/usr/lib/gcc/x86_64-linux-gnu/9/include",
                    "/usr/local/include",
                    "/usr/include/x86_64-linux-gnu",
                    "/usr/include"
                  ],
                  "linkDirectories": [
                    "/usr/lib/gcc/x86_64-linux-gnu/9",
                    "/usr/lib/x86_64-linux-gnu",
                    "/usr/lib",
                    "/lib/x86_64-linux-gnu",
                    "/lib"
                  ],
                  "linkFrameworkDirectories": [],
                  "linkLibraries": [
                    "stdc++", "m", "gcc_s", "gcc", "c", "gcc_s", "gcc"
                  ]
                }
              },
              "sourceFileExtensions": [
                "C", "M", "c++", "cc", "cpp", "cxx", "mm", "CPP"
              ]
            }
          ]
        }"#,
    );

    let toolchains = Toolchains::decode(&json).unwrap();
    assert_eq!(toolchains.kind, ObjectKind::Toolchains);
    assert_eq!(toolchains.version, MajorMinor { major: 1, minor: 0 });
    assert_eq!(toolchains.toolchains.len(), 2);
    assert_eq!(toolchains.toolchains[0].language, "C");
    assert_eq!(toolchains.toolchains[1].language, "CXX");

    assert_eq!(
        toolchains.toolchains[0].compiler.id.as_ref().unwrap(),
        "GNU"
    );
    assert_eq!(
        toolchains.toolchains[1].compiler.id.as_ref().unwrap(),
        "GNU"
    );
}

#[test]
fn object_kinds_have_their_tags_and_versions() {
    assert_eq!(ObjectKind::CodeModel.as_str(), "codemodel");
    assert_eq!(ObjectKind::Toolchains.as_str(), "toolchains");
    assert_eq!(ObjectKind::Cache.as_str(), "cache");
    assert_eq!(ObjectKind::CMakeFiles.as_str(), "cmakeFiles");
    assert_eq!(ObjectKind::ConfigureLog.as_str(), "configureLog");
    assert_eq!((CodeModel::kind(), CodeModel::major()), (ObjectKind::CodeModel, 2));
    assert_eq!((Toolchains::kind(), Toolchains::major()), (ObjectKind::Toolchains, 1));
    assert_eq!((Cache::kind(), Cache::major()), (ObjectKind::Cache, 2));
    assert_eq!((CMakeFiles::kind(), CMakeFiles::major()), (ObjectKind::CMakeFiles, 1));
    assert_eq!((ConfigureLog::kind(), ConfigureLog::major()), (ObjectKind::ConfigureLog, 1));
}

#[test]
fn every_tag_names_its_kind() {
    for kind in [
        ObjectKind::CodeModel,
        ObjectKind::Toolchains,
        ObjectKind::Cache,
        ObjectKind::CMakeFiles,
        ObjectKind::ConfigureLog,
    ] {
        assert_eq!(ObjectKind::from_tag(kind.as_str()), Some(kind));
    }
    assert_eq!(ObjectKind::from_tag("codeModel"), None);
    assert_eq!(ObjectKind::from_tag(""), None);
}

#[test]
fn object_with_unknown_field_is_rejected() {
    let mut document = json(TARGET);
    document
        .as_object_mut()
        .unwrap()
        .insert("debugger".to_string(), json("{}"));
    match Target::decode(&document) {
        Err(DecodeError::UnknownField { name, .. }) => assert_eq!(name, "debugger"),
        other => panic!("not an unknown field: {:?}", other),
    }
    let mut document = json(MODEL);
    document["configurations"][0]["projects"][0]
        .as_object_mut()
        .unwrap()
        .insert("colour".to_string(), json("1"));
    match CodeModel::decode(&document) {
        Err(DecodeError::UnknownField { name, expected }) => {
            assert_eq!(name, "colour");
            assert_eq!(
                expected,
                ["name", "parentIndex", "childIndexes", "directoryIndexes", "targetIndexes"]
            );
        }
        other => panic!("not an unknown field: {:?}", other),
    }
}

#[test]
fn numbers_are_held_to_their_types() {
    assert_eq!(u32::decode(&json("4294967295")).unwrap(), u32::MAX);
    assert!(matches!(u32::decode(&json("4294967296")), Err(DecodeError::OutOfRange)));
    assert!(matches!(u32::decode(&json("-1")), Err(DecodeError::OutOfRange)));
    assert!(matches!(
        u32::decode(&json("1.5")),
        Err(DecodeError::InvalidType(Expected::Integer))
    ));
    assert!(matches!(
        u32::decode(&json("\"1\"")),
        Err(DecodeError::InvalidType(Expected::Integer))
    ));
    assert_eq!(i32::decode(&json("-2147483648")).unwrap(), i32::MIN);
    assert_eq!(i32::decode(&json("2147483647")).unwrap(), i32::MAX);
    assert!(matches!(i32::decode(&json("2147483648")), Err(DecodeError::OutOfRange)));
    assert!(matches!(i32::decode(&json("-2147483649")), Err(DecodeError::OutOfRange)));
    assert!(matches!(
        i32::decode(&json("18446744073709551615")),
        Err(DecodeError::OutOfRange)
    ));
    assert_eq!(usize::decode(&json("7")).unwrap(), 7);
    assert!(matches!(usize::decode(&json("-7")), Err(DecodeError::OutOfRange)));
    assert!(matches!(
        usize::decode(&json("null")),
        Err(DecodeError::InvalidType(Expected::Integer))
    ));
}

#[test]
fn scalars_and_lists_are_held_to_their_types() {
    assert!(bool::decode(&json("true")).unwrap());
    assert!(matches!(
        bool::decode(&json("1")),
        Err(DecodeError::InvalidType(Expected::Boolean))
    ));
    assert_eq!(String::decode(&json("\"a\\nb\"")).unwrap(), "a\nb");
    assert!(matches!(
        String::decode(&json("[]")),
        Err(DecodeError::InvalidType(Expected::String))
    ));
    assert_eq!(Vec::<usize>::decode(&json("[3, 1, 2]")).unwrap(), vec![3, 1, 2]);
    assert!(matches!(
        Vec::<usize>::decode(&json("{}")),
        Err(DecodeError::InvalidType(Expected::Array))
    ));
    assert!(matches!(
        Vec::<usize>::decode(&json("[3, \"x\", -2]")),
        Err(DecodeError::InvalidType(Expected::Integer))
    ));
    assert!(matches!(
        Node::decode(&json("[0]")),
        Err(DecodeError::InvalidType(Expected::Object))
    ));
}

#[test]
fn optional_member_may_be_absent_or_null() {
    let node = Node::decode(&json(r#"{ "file": 2, "line": null }"#)).unwrap();
    assert_eq!(node, Node { file: 2, line: None, command: None, parent: None });
    assert!(matches!(
        Node::decode(&json(r#"{ "file": 2, "line": "x" }"#)),
        Err(DecodeError::InvalidType(Expected::Integer))
    ));
    match Node::decode(&json(r#"{ "line": 1 }"#)) {
        Err(DecodeError::MissingField(name)) => assert_eq!(name, "file"),
        other => panic!("not a missing field: {:?}", other),
    }
}

#[test]
fn defaulted_member_may_be_absent_but_not_null() {
    let input = Input::decode(&json(r#"{ "path": "a" }"#)).unwrap();
    assert_eq!(input, Input { path: "a".into(), ..Default::default() });
    assert!(matches!(
        Input::decode(&json(r#"{ "path": "a", "isGenerated": null }"#)),
        Err(DecodeError::InvalidType(Expected::Boolean))
    ));
    assert!(matches!(
        Target::decode(&{
            let mut document = json(TARGET);
            document["sources"] = Value::Null;
            document
        }),
        Err(DecodeError::InvalidType(Expected::Array))
    ));
}

#[test]
fn first_failure_in_field_order_is_reported() {
    match Property::decode(&json(r#"{ "value": 1 }"#)) {
        Err(DecodeError::MissingField(name)) => assert_eq!(name, "name"),
        other => panic!("not a missing field: {:?}", other),
    }
    match Property::decode(&json(r#"{ "value": 1, "name": "n", "more": 0 }"#)) {
        Err(DecodeError::UnknownField { name, .. }) => assert_eq!(name, "more"),
        other => panic!("not an unknown field: {:?}", other),
    }
    assert!(matches!(
        Property::decode(&json(r#"{ "value": 1, "name": 2 }"#)),
        Err(DecodeError::InvalidType(Expected::String))
    ));
}

#[test]
fn install_path_has_two_shapes() {
    assert_eq!(
        InstallPath::decode(&json("\"lib/libfoo.a\"")).unwrap(),
        InstallPath::PathCombination("lib/libfoo.a".into())
    );
    assert_eq!(
        InstallPath::decode(&json(r#"{ "from": "a", "to": "b" }"#)).unwrap(),
        InstallPath::FromTo(FromToPaths { from: "a".into(), to: "b".into() })
    );
    assert!(matches!(
        InstallPath::decode(&json(r#"{ "from": "a" }"#)),
        Err(DecodeError::NoMatchingShape)
    ));
    let installer = Installer::decode(&json(
        r#"{ "component": "Unspecified", "type": "file", "destination": "include",
             "paths": [ "a.h", { "from": "b.h", "to": "c.h" } ], "isOptional": true,
             "backtrace": 3 }"#,
    ))
    .unwrap();
    assert_eq!(
        installer,
        Installer {
            component: "Unspecified".into(),
            installer_type: "file".into(),
            destination: Some("include".into()),
            paths: vec![
                InstallPath::PathCombination("a.h".into()),
                InstallPath::FromTo(FromToPaths { from: "b.h".into(), to: "c.h".into() }),
            ],
            is_optional: true,
            backtrace: Some(3),
            ..Default::default()
        }
    );
}

fn group(fragments: &[&str], defines: &[&str]) -> CompileGroup {
    CompileGroup {
        compile_command_fragments: fragments
            .iter()
            .map(|fragment| CompileCommandFragment { fragment: fragment.to_string() })
            .collect(),
        defines: defines
            .iter()
            .map(|define| Define { define: define.to_string(), backtrace: None })
            .collect(),
        ..Default::default()
    }
}

#[test]
fn compile_fragments_are_cut_into_words() {
    let group = group(&["-O2 -g  -DNDEBUG", "'-I some dir' /DWIN32=1", "-Wall"], &[]);
    assert_eq!(
        group.compile_fragments(),
        vec!["-O2", "-g", "-DNDEBUG", "-I some dir", "/DWIN32=1", "-Wall"]
    );
}

#[test]
fn compile_fragment_that_cannot_be_cut_is_left_out() {
    let group = group(&["-O2", "'unfinished", "-g"], &[]);
    assert_eq!(group.compile_fragments(), vec!["-O2", "-g"]);
    assert!(CompileGroup::default().compile_fragments().is_empty());
}

#[test]
fn flags_leave_out_definitions() {
    let group = group(&["-O2 -g  -DNDEBUG", "'-I some dir' /DWIN32=1", "-Wall -D"], &["A=1"]);
    assert_eq!(group.flags(), vec!["-O2", "-g", "-I some dir", "-Wall"]);
}

#[test]
fn defines_hold_listed_and_passed_definitions() {
    let group = group(&["-O2 -g  -DNDEBUG", "'-I some dir' /DWIN32=1", "-Wall -D"], &["A=1", "B"]);
    assert_eq!(group.defines(), vec!["A=1", "B", "NDEBUG", "WIN32=1", ""]);
}

#[test]
fn is_define_looks_at_the_first_two_characters() {
    assert!(CompileGroup::is_define("-DX"));
    assert!(CompileGroup::is_define("/DX"));
    assert!(CompileGroup::is_define("-D"));
    assert!(!CompileGroup::is_define("-d"));
    assert!(!CompileGroup::is_define("D"));
    assert!(!CompileGroup::is_define(""));
    assert!(!CompileGroup::is_define(" -DX"));
}

#[test]
fn words_are_sorted_into_flags_and_definitions() {
    let words: Vec<String> = ["-a", "-Db", "/Dc=d", "e"].iter().map(|w| w.to_string()).collect();
    assert_eq!(flags_among(&words), vec!["-a", "e"]);
    let defines = vec![Define { define: "z".into(), backtrace: Some(1) }];
    assert_eq!(defines_among(&defines, &words), vec!["z", "b", "c=d"]);
    assert_eq!(
        gather(vec![Some(vec!["a".to_string()]), None, Some(vec![]), Some(vec!["b".to_string(), "c".to_string()])]),
        vec!["a", "b", "c"]
    );
}
