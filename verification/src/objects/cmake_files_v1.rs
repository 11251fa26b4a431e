//! The cmakeFiles object, major version 1.

use crate::decode::{
    flag_failure, flag_is, names_of, required_failure, required_is, unknown_failure, Decode,
    DecodeError, DecodeFailure, Expected, Otherwise, Record, Schema, Strict,
};
use crate::json::Json;
use crate::objects::{MajorMinor, Object, ObjectKind};
use serde_json::Value;
use vstd::prelude::*;

verus! {

/// The cmakeFiles object: the files that CMake used while it configured and generated the build
/// system.
#[derive(Default, Debug, Clone, PartialEq)]
pub struct CMakeFiles {
    /// The kind of the object.
    pub kind: ObjectKind,
    /// The version of the object.
    pub version: MajorMinor,
    /// The top-level directories.
    pub paths: Paths,
    /// The input files.
    pub inputs: Vec<Input>,
}

impl Schema for CMakeFiles {
    open spec fn names() -> Seq<Seq<char>> {
        seq!["kind"@, "version"@, "paths"@, "inputs"@]
    }

    fn field_names() -> (r: &'static [&'static str]) {
        let r: &'static [&'static str] = &["kind", "version", "paths", "inputs"];
        assert(names_of(r@) =~= Self::names());
        r
    }
}

impl Strict for CMakeFiles {
    proof fn lemma_unknown_member_fails(members: Seq<(Seq<char>, Json)>) {
    }
}

impl Decode for CMakeFiles {
    open spec fn failure(j: Json) -> Option<DecodeFailure> {
        match j {
            Json::Object(members) => unknown_failure(members, Self::names())
                .otherwise(required_failure::<ObjectKind>(members, "kind"@))
                .otherwise(required_failure::<MajorMinor>(members, "version"@))
                .otherwise(required_failure::<Paths>(members, "paths"@))
                .otherwise(required_failure::<Vec<Input>>(members, "inputs"@)),
            _ => Some(DecodeFailure::InvalidType(Expected::Object)),
        }
    }

    open spec fn decodes(&self, j: Json) -> bool {
        match j {
            Json::Object(members) => {
                &&& required_is(&self.kind, members, "kind"@)
                &&& required_is(&self.version, members, "version"@)
                &&& required_is(&self.paths, members, "paths"@)
                &&& required_is(&self.inputs, members, "inputs"@)
            },
            _ => false,
        }
    }

    fn decode(v: &Value) -> (r: Result<CMakeFiles, DecodeError>) {
        let record = Record::open(v)?;
        record.deny_unknown::<CMakeFiles>()?;
        let kind = record.required::<ObjectKind>("kind")?;
        let version = record.required::<MajorMinor>("version")?;
        let paths = record.required::<Paths>("paths")?;
        let inputs = record.required::<Vec<Input>>("inputs")?;
        Ok(CMakeFiles { kind, version, paths, inputs })
    }
}

/// The top-level directories of a build, absolute and with forward slashes.
#[derive(Default, Debug, Clone, PartialEq)]
pub struct Paths {
    /// The top-level build directory.
    pub build: String,
    /// The top-level source directory.
    pub source: String,
}

impl Schema for Paths {
    open spec fn names() -> Seq<Seq<char>> {
        seq!["build"@, "source"@]
    }

    fn field_names() -> (r: &'static [&'static str]) {
        let r: &'static [&'static str] = &["build", "source"];
        assert(names_of(r@) =~= Self::names());
        r
    }
}

impl Strict for Paths {
    proof fn lemma_unknown_member_fails(members: Seq<(Seq<char>, Json)>) {
    }
}

impl Decode for Paths {
    open spec fn failure(j: Json) -> Option<DecodeFailure> {
        match j {
            Json::Object(members) => unknown_failure(members, Self::names())
                .otherwise(required_failure::<String>(members, "build"@))
                .otherwise(required_failure::<String>(members, "source"@)),
            _ => Some(DecodeFailure::InvalidType(Expected::Object)),
        }
    }

    open spec fn decodes(&self, j: Json) -> bool {
        match j {
            Json::Object(members) => {
                &&& required_is(&self.build, members, "build"@)
                &&& required_is(&self.source, members, "source"@)
            },
            _ => false,
        }
    }

    fn decode(v: &Value) -> (r: Result<Paths, DecodeError>) {
        let record = Record::open(v)?;
        record.deny_unknown::<Paths>()?;
        let build = record.required::<String>("build")?;
        let source = record.required::<String>("source")?;
        Ok(Paths { build, source })
    }
}

/// One input file of CMake.
#[derive(Default, Debug, Clone, PartialEq)]
pub struct Input {
    /// The path of the file, with forward slashes; relative to the top-level source directory where
    /// the file lies inside it.
    pub path: String,
    /// True where the file lies under the top-level build directory of an out-of-source build.
    pub is_generated: bool,
    /// True where the file lies under neither top-level directory.
    pub is_external: bool,
    /// True where the file belongs to the CMake installation.
    pub is_cmake: bool,
}

impl Schema for Input {
    open spec fn names() -> Seq<Seq<char>> {
        seq!["path"@, "isGenerated"@, "isExternal"@, "isCMake"@]
    }

    fn field_names() -> (r: &'static [&'static str]) {
        let r: &'static [&'static str] = &["path", "isGenerated", "isExternal", "isCMake"];
        assert(names_of(r@) =~= Self::names());
        r
    }
}

impl Strict for Input {
    proof fn lemma_unknown_member_fails(members: Seq<(Seq<char>, Json)>) {
    }
}

impl Decode for Input {
    open spec fn failure(j: Json) -> Option<DecodeFailure> {
        match j {
            Json::Object(members) => unknown_failure(members, Self::names())
                .otherwise(required_failure::<String>(members, "path"@))
                .otherwise(flag_failure(members, "isGenerated"@))
                .otherwise(flag_failure(members, "isExternal"@))
                .otherwise(flag_failure(members, "isCMake"@)),
            _ => Some(DecodeFailure::InvalidType(Expected::Object)),
        }
    }

    open spec fn decodes(&self, j: Json) -> bool {
        match j {
            Json::Object(members) => {
                &&& required_is(&self.path, members, "path"@)
                &&& flag_is(self.is_generated, members, "isGenerated"@)
                &&& flag_is(self.is_external, members, "isExternal"@)
                &&& flag_is(self.is_cmake, members, "isCMake"@)
            },
            _ => false,
        }
    }

    fn decode(v: &Value) -> (r: Result<Input, DecodeError>) {
        let record = Record::open(v)?;
        record.deny_unknown::<Input>()?;
        let path = record.required::<String>("path")?;
        let is_generated = record.flag("isGenerated")?;
        let is_external = record.flag("isExternal")?;
        let is_cmake = record.flag("isCMake")?;
        Ok(Input { path, is_generated, is_external, is_cmake })
    }
}

impl Object for CMakeFiles {
    open spec fn object_kind() -> ObjectKind {
        ObjectKind::CMakeFiles
    }

    open spec fn object_major() -> u32 {
        1
    }

    fn kind() -> (k: ObjectKind) {
        ObjectKind::CMakeFiles
    }

    fn major() -> (m: u32) {
        1
    }

    fn next_reference(&self) -> (r: Option<&str>) {
        None
    }

    fn resolve_reference(self, v: &Value) -> (r: Result<CMakeFiles, DecodeError>) {
        Ok(self)
    }
}

} // verus!
