//! The toolchains object, major version 1.

use crate::decode::{
    listed_failure, listed_is, names_of, optional_failure, optional_is, required_failure,
    required_is, unknown_failure, Decode, DecodeError, DecodeFailure, Expected, Otherwise, Record,
    Schema, Strict,
};
use crate::json::Json;
use crate::objects::{MajorMinor, Object, ObjectKind};
use serde_json::Value;
use vstd::prelude::*;

verus! {

/// The toolchains object: the toolchains that the build uses.
#[derive(Default, Debug, Clone, PartialEq)]
pub struct Toolchains {
    /// The kind of the object.
    pub kind: ObjectKind,
    /// The version of the object.
    pub version: MajorMinor,
    /// The toolchains, one per enabled language.
    pub toolchains: Vec<Toolchain>,
}

impl Schema for Toolchains {
    open spec fn names() -> Seq<Seq<char>> {
        seq!["kind"@, "version"@, "toolchains"@]
    }

    fn field_names() -> (r: &'static [&'static str]) {
        let r: &'static [&'static str] = &["kind", "version", "toolchains"];
        assert(names_of(r@) =~= Self::names());
        r
    }
}

impl Strict for Toolchains {
    proof fn lemma_unknown_member_fails(members: Seq<(Seq<char>, Json)>) {
    }
}

impl Decode for Toolchains {
    open spec fn failure(j: Json) -> Option<DecodeFailure> {
        match j {
            Json::Object(members) => unknown_failure(members, Self::names())
                .otherwise(required_failure::<ObjectKind>(members, "kind"@))
                .otherwise(required_failure::<MajorMinor>(members, "version"@))
                .otherwise(required_failure::<Vec<Toolchain>>(members, "toolchains"@)),
            _ => Some(DecodeFailure::InvalidType(Expected::Object)),
        }
    }

    open spec fn decodes(&self, j: Json) -> bool {
        match j {
            Json::Object(members) => {
                &&& required_is(&self.kind, members, "kind"@)
                &&& required_is(&self.version, members, "version"@)
                &&& required_is(&self.toolchains, members, "toolchains"@)
            },
            _ => false,
        }
    }

    fn decode(v: &Value) -> (r: Result<Toolchains, DecodeError>) {
        let record = Record::open(v)?;
        record.deny_unknown::<Toolchains>()?;
        let kind = record.required::<ObjectKind>("kind")?;
        let version = record.required::<MajorMinor>("version")?;
        let toolchains = record.required::<Vec<Toolchain>>("toolchains")?;
        Ok(Toolchains { kind, version, toolchains })
    }
}

/// The toolchain of one language.
#[derive(Default, Debug, Clone, PartialEq)]
pub struct Toolchain {
    /// The language, such as `C` or `CXX`.
    pub language: String,
    /// The compiler.
    pub compiler: Compiler,
    /// The extensions of the source files of the language, without the dot.
    pub source_file_extensions: Vec<String>,
}

impl Schema for Toolchain {
    open spec fn names() -> Seq<Seq<char>> {
        seq!["language"@, "compiler"@, "sourceFileExtensions"@]
    }

    fn field_names() -> (r: &'static [&'static str]) {
        let r: &'static [&'static str] = &["language", "compiler", "sourceFileExtensions"];
        assert(names_of(r@) =~= Self::names());
        r
    }
}

impl Strict for Toolchain {
    proof fn lemma_unknown_member_fails(members: Seq<(Seq<char>, Json)>) {
    }
}

impl Decode for Toolchain {
    open spec fn failure(j: Json) -> Option<DecodeFailure> {
        match j {
            Json::Object(members) => unknown_failure(members, Self::names())
                .otherwise(required_failure::<String>(members, "language"@))
                .otherwise(required_failure::<Compiler>(members, "compiler"@))
                .otherwise(listed_failure::<String>(members, "sourceFileExtensions"@)),
            _ => Some(DecodeFailure::InvalidType(Expected::Object)),
        }
    }

    open spec fn decodes(&self, j: Json) -> bool {
        match j {
            Json::Object(members) => {
                &&& required_is(&self.language, members, "language"@)
                &&& required_is(&self.compiler, members, "compiler"@)
                &&& listed_is(&self.source_file_extensions, members, "sourceFileExtensions"@)
            },
            _ => false,
        }
    }

    fn decode(v: &Value) -> (r: Result<Toolchain, DecodeError>) {
        let record = Record::open(v)?;
        record.deny_unknown::<Toolchain>()?;
        let language = record.required::<String>("language")?;
        let compiler = record.required::<Compiler>("compiler")?;
        let source_file_extensions = record.listed::<String>("sourceFileExtensions")?;
        Ok(Toolchain { language, compiler, source_file_extensions })
    }
}

/// The compiler of a toolchain.
#[derive(Default, Debug, Clone, PartialEq)]
pub struct Compiler {
    /// The absolute path of the compiler.
    pub path: Option<String>,
    /// The id of the compiler, such as `GNU` or `MSVC`.
    pub id: Option<String>,
    /// The version of the compiler.
    pub version: Option<String>,
    /// The target that the compiler cross-compiles for.
    pub target: Option<String>,
    /// What the compiler uses without being told.
    pub implicit: Implicit,
}

impl Schema for Compiler {
    open spec fn names() -> Seq<Seq<char>> {
        seq!["path"@, "id"@, "version"@, "target"@, "implicit"@]
    }

    fn field_names() -> (r: &'static [&'static str]) {
        let r: &'static [&'static str] = &["path", "id", "version", "target", "implicit"];
        assert(names_of(r@) =~= Self::names());
        r
    }
}

impl Strict for Compiler {
    proof fn lemma_unknown_member_fails(members: Seq<(Seq<char>, Json)>) {
    }
}

impl Decode for Compiler {
    open spec fn failure(j: Json) -> Option<DecodeFailure> {
        match j {
            Json::Object(members) => unknown_failure(members, Self::names())
                .otherwise(optional_failure::<String>(members, "path"@))
                .otherwise(optional_failure::<String>(members, "id"@))
                .otherwise(optional_failure::<String>(members, "version"@))
                .otherwise(optional_failure::<String>(members, "target"@))
                .otherwise(required_failure::<Implicit>(members, "implicit"@)),
            _ => Some(DecodeFailure::InvalidType(Expected::Object)),
        }
    }

    open spec fn decodes(&self, j: Json) -> bool {
        match j {
            Json::Object(members) => {
                &&& optional_is(&self.path, members, "path"@)
                &&& optional_is(&self.id, members, "id"@)
                &&& optional_is(&self.version, members, "version"@)
                &&& optional_is(&self.target, members, "target"@)
                &&& required_is(&self.implicit, members, "implicit"@)
            },
            _ => false,
        }
    }

    fn decode(v: &Value) -> (r: Result<Compiler, DecodeError>) {
        let record = Record::open(v)?;
        record.deny_unknown::<Compiler>()?;
        let path = record.optional::<String>("path")?;
        let id = record.optional::<String>("id")?;
        let version = record.optional::<String>("version")?;
        let target = record.optional::<String>("target")?;
        let implicit = record.required::<Implicit>("implicit")?;
        Ok(Compiler { path, id, version, target, implicit })
    }
}

/// The directories and libraries that a compiler uses without being told.
#[derive(Default, Debug, Clone, PartialEq)]
pub struct Implicit {
    /// The implicit include directories.
    pub include_directories: Vec<String>,
    /// The implicit link directories.
    pub link_directories: Vec<String>,
    /// The implicit link framework directories.
    pub link_framework_directories: Vec<String>,
    /// The implicit link libraries.
    pub link_libraries: Vec<String>,
}

impl Schema for Implicit {
    open spec fn names() -> Seq<Seq<char>> {
        seq![
            "includeDirectories"@, "linkDirectories"@, "linkFrameworkDirectories"@,
            "linkLibraries"@,
        ]
    }

    fn field_names() -> (r: &'static [&'static str]) {
        let r: &'static [&'static str] = &[
            "includeDirectories", "linkDirectories", "linkFrameworkDirectories", "linkLibraries",
        ];
        assert(names_of(r@) =~= Self::names());
        r
    }
}

impl Strict for Implicit {
    proof fn lemma_unknown_member_fails(members: Seq<(Seq<char>, Json)>) {
    }
}

impl Decode for Implicit {
    open spec fn failure(j: Json) -> Option<DecodeFailure> {
        match j {
            Json::Object(members) => unknown_failure(members, Self::names())
                .otherwise(listed_failure::<String>(members, "includeDirectories"@))
                .otherwise(listed_failure::<String>(members, "linkDirectories"@))
                .otherwise(listed_failure::<String>(members, "linkFrameworkDirectories"@))
                .otherwise(listed_failure::<String>(members, "linkLibraries"@)),
            _ => Some(DecodeFailure::InvalidType(Expected::Object)),
        }
    }

    open spec fn decodes(&self, j: Json) -> bool {
        match j {
            Json::Object(members) => {
                &&& listed_is(&self.include_directories, members, "includeDirectories"@)
                &&& listed_is(&self.link_directories, members, "linkDirectories"@)
                &&& listed_is(
                    &self.link_framework_directories,
                    members,
                    "linkFrameworkDirectories"@,
                )
                &&& listed_is(&self.link_libraries, members, "linkLibraries"@)
            },
            _ => false,
        }
    }

    fn decode(v: &Value) -> (r: Result<Implicit, DecodeError>) {
        let record = Record::open(v)?;
        record.deny_unknown::<Implicit>()?;
        let include_directories = record.listed::<String>("includeDirectories")?;
        let link_directories = record.listed::<String>("linkDirectories")?;
        let link_framework_directories = record.listed::<String>("linkFrameworkDirectories")?;
        let link_libraries = record.listed::<String>("linkLibraries")?;
        Ok(Implicit {
            include_directories,
            link_directories,
            link_framework_directories,
            link_libraries,
        })
    }
}

impl Object for Toolchains {
    open spec fn object_kind() -> ObjectKind {
        ObjectKind::Toolchains
    }

    open spec fn object_major() -> u32 {
        1
    }

    fn kind() -> (k: ObjectKind) {
        ObjectKind::Toolchains
    }

    fn major() -> (m: u32) {
        1
    }

    fn next_reference(&self) -> (r: Option<&str>) {
        None
    }

    fn resolve_reference(self, v: &Value) -> (r: Result<Toolchains, DecodeError>) {
        Ok(self)
    }
}

} // verus!
