//! The directory document that a build model refers to.

use super::backtrace_graph::BacktraceGraph;
use crate::decode::{
    flag_failure, flag_is, listed_failure, listed_is, names_of, optional_failure, optional_is,
    required_failure, required_is, unknown_failure, Decode, DecodeError, DecodeFailure, Expected,
    Otherwise, Record, Schema, Strict,
};
use crate::json::Json;
use serde_json::Value;
use vstd::prelude::*;

verus! {

/// A directory of the build system, as its own document describes it.
#[derive(Default, Debug, Clone, PartialEq)]
pub struct Directory {
    /// Where the directory lies.
    pub paths: DirectoryPaths,
    /// The backtraces that the `backtrace` members of this document index.
    pub backtrace_graph: BacktraceGraph,
    /// One entry per `install()` rule.
    pub installers: Vec<Installer>,
}

impl Schema for Directory {
    open spec fn names() -> Seq<Seq<char>> {
        seq!["paths"@, "backtraceGraph"@, "installers"@]
    }

    fn field_names() -> (r: &'static [&'static str]) {
        let r: &'static [&'static str] = &["paths", "backtraceGraph", "installers"];
        assert(names_of(r@) =~= Self::names());
        r
    }
}

impl Strict for Directory {
    proof fn lemma_unknown_member_fails(members: Seq<(Seq<char>, Json)>) {
    }
}

impl Decode for Directory {
    open spec fn failure(j: Json) -> Option<DecodeFailure> {
        match j {
            Json::Object(members) => unknown_failure(members, Self::names())
                .otherwise(required_failure::<DirectoryPaths>(members, "paths"@))
                .otherwise(required_failure::<BacktraceGraph>(members, "backtraceGraph"@))
                .otherwise(required_failure::<Vec<Installer>>(members, "installers"@)),
            _ => Some(DecodeFailure::InvalidType(Expected::Object)),
        }
    }

    open spec fn decodes(&self, j: Json) -> bool {
        match j {
            Json::Object(members) => {
                &&& required_is(&self.paths, members, "paths"@)
                &&& required_is(&self.backtrace_graph, members, "backtraceGraph"@)
                &&& required_is(&self.installers, members, "installers"@)
            },
            _ => false,
        }
    }

    fn decode(v: &Value) -> (r: Result<Directory, DecodeError>) {
        let record = Record::open(v)?;
        record.deny_unknown::<Directory>()?;
        let paths = record.required::<DirectoryPaths>("paths")?;
        let backtrace_graph = record.required::<BacktraceGraph>("backtraceGraph")?;
        let installers = record.required::<Vec<Installer>>("installers")?;
        Ok(Directory { paths, backtrace_graph, installers })
    }
}

/// The source and build locations of a directory, with forward slashes; relative to the top-level
/// directory of its kind where the directory lies inside it.
#[derive(Default, Debug, Clone, PartialEq)]
pub struct DirectoryPaths {
    /// The build directory.
    pub build: String,
    /// The source directory.
    pub source: String,
}

impl Schema for DirectoryPaths {
    open spec fn names() -> Seq<Seq<char>> {
        seq!["build"@, "source"@]
    }

    fn field_names() -> (r: &'static [&'static str]) {
        let r: &'static [&'static str] = &["build", "source"];
        assert(names_of(r@) =~= Self::names());
        r
    }
}

impl Strict for DirectoryPaths {
    proof fn lemma_unknown_member_fails(members: Seq<(Seq<char>, Json)>) {
    }
}

impl Decode for DirectoryPaths {
    open spec fn failure(j: Json) -> Option<DecodeFailure> {
        match j {
            Json::Object(members) => unknown_failure(members, Self::names())
                .otherwise(required_failure::<String>(members, "build"@))
                .otherwise(required_failure::<String>(members, "source"@)),
            _ => Some(DecodeFailure::InvalidType(Expected::Object)),
        }
    }

    open spec fn decodes(&self, j: Json) -> bool {
        match j {
            Json::Object(members) => {
                &&& required_is(&self.build, members, "build"@)
                &&& required_is(&self.source, members, "source"@)
            },
            _ => false,
        }
    }

    fn decode(v: &Value) -> (r: Result<DirectoryPaths, DecodeError>) {
        let record = Record::open(v)?;
        record.deny_unknown::<DirectoryPaths>()?;
        let build = record.required::<String>("build")?;
        let source = record.required::<String>("source")?;
        Ok(DirectoryPaths { build, source })
    }
}

/// One `install()` rule.
#[derive(Default, Debug, Clone, PartialEq)]
pub struct Installer {
    /// The component that the rule belongs to.
    pub component: String,
    /// The installation destination, absolute or relative to the installation prefix.
    pub destination: Option<String>,
    /// What the rule installs.
    pub paths: Vec<InstallPath>,
    /// The type of the rule: `file`, `directory`, `target`, `export`, `script`, `code`,
    /// `importedRuntimeArtifacts`, `runtimeDependencySet` or `fileSet`.
    pub installer_type: String,
    /// True when `install()` was called with `EXCLUDE_FROM_ALL`.
    pub is_exclude_from_all: bool,
    /// True when `install(SCRIPT|CODE)` was called with `ALL_COMPONENTS`.
    pub is_for_all_components: bool,
    /// True when `install()` was called with `OPTIONAL`.
    pub is_optional: bool,
    /// For a `target` rule, the id of the installed target.
    pub target_id: Option<String>,
    /// For a `target` rule, the index of the installed target in the build model's targets.
    pub target_index: Option<usize>,
    /// True for a `target` rule that installs an import library.
    pub target_is_import_library: bool,
    /// For a `target` rule, how symbolic links are handled: `skip` or `only`.
    pub target_install_namelink: Option<String>,
    /// For an `export` rule, the name of the export.
    pub export_name: Option<String>,
    /// For an `export` rule, the exported targets.
    pub export_targets: Vec<TargetIdAndIndex>,
    /// For a `runtimeDependencySet` rule, the name of the set.
    pub runtime_dependency_set_name: Option<String>,
    /// For a `runtimeDependencySet` rule, `library` or `framework`.
    pub runtime_dependency_set_type: Option<String>,
    /// For a `fileSet` rule, the name of the file set.
    pub file_set_name: Option<String>,
    /// For a `fileSet` rule, the type of the file set.
    pub file_set_type: Option<String>,
    /// For a `fileSet` rule, the base directories of the file set.
    pub file_set_directories: Vec<String>,
    /// For a `fileSet` rule, the target that owns the file set.
    pub file_set_target: Option<TargetIdAndIndex>,
    /// For a `script` rule, the path of the script.
    pub script_file: Option<String>,
    /// Index of the backtrace node of the `install()` call.
    pub backtrace: Option<usize>,
}

impl Schema for Installer {
    open spec fn names() -> Seq<Seq<char>> {
        seq![
            "component"@, "destination"@, "paths"@, "type"@, "isExcludeFromAll"@,
            "isForAllComponents"@, "isOptional"@, "targetId"@, "targetIndex"@,
            "targetIsImportLibrary"@, "targetInstallNamelink"@, "exportName"@, "exportTargets"@,
            "runtimeDependencySetName"@, "runtimeDependencySetType"@, "fileSetName"@,
            "fileSetType"@, "fileSetDirectories"@, "fileSetTarget"@, "scriptFile"@, "backtrace"@,
        ]
    }

    fn field_names() -> (r: &'static [&'static str]) {
        let r: &'static [&'static str] = &[
            "component", "destination", "paths", "type", "isExcludeFromAll", "isForAllComponents",
            "isOptional", "targetId", "targetIndex", "targetIsImportLibrary",
            "targetInstallNamelink", "exportName", "exportTargets", "runtimeDependencySetName",
            "runtimeDependencySetType", "fileSetName", "fileSetType", "fileSetDirectories",
            "fileSetTarget", "scriptFile", "backtrace",
        ];
        assert(names_of(r@) =~= Self::names());
        r
    }
}

impl Strict for Installer {
    proof fn lemma_unknown_member_fails(members: Seq<(Seq<char>, Json)>) {
    }
}

impl Decode for Installer {
    open spec fn failure(j: Json) -> Option<DecodeFailure> {
        match j {
            Json::Object(members) => unknown_failure(members, Self::names())
                .otherwise(required_failure::<String>(members, "component"@))
                .otherwise(optional_failure::<String>(members, "destination"@))
                .otherwise(listed_failure::<InstallPath>(members, "paths"@))
                .otherwise(required_failure::<String>(members, "type"@))
                .otherwise(flag_failure(members, "isExcludeFromAll"@))
                .otherwise(flag_failure(members, "isForAllComponents"@))
                .otherwise(flag_failure(members, "isOptional"@))
                .otherwise(optional_failure::<String>(members, "targetId"@))
                .otherwise(optional_failure::<usize>(members, "targetIndex"@))
                .otherwise(flag_failure(members, "targetIsImportLibrary"@))
                .otherwise(optional_failure::<String>(members, "targetInstallNamelink"@))
                .otherwise(optional_failure::<String>(members, "exportName"@))
                .otherwise(listed_failure::<TargetIdAndIndex>(members, "exportTargets"@))
                .otherwise(optional_failure::<String>(members, "runtimeDependencySetName"@))
                .otherwise(optional_failure::<String>(members, "runtimeDependencySetType"@))
                .otherwise(optional_failure::<String>(members, "fileSetName"@))
                .otherwise(optional_failure::<String>(members, "fileSetType"@))
                .otherwise(listed_failure::<String>(members, "fileSetDirectories"@))
                .otherwise(optional_failure::<TargetIdAndIndex>(members, "fileSetTarget"@))
                .otherwise(optional_failure::<String>(members, "scriptFile"@))
                .otherwise(optional_failure::<usize>(members, "backtrace"@)),
            _ => Some(DecodeFailure::InvalidType(Expected::Object)),
        }
    }

    open spec fn decodes(&self, j: Json) -> bool {
        match j {
            Json::Object(members) => {
                &&& required_is(&self.component, members, "component"@)
                &&& optional_is(&self.destination, members, "destination"@)
                &&& listed_is(&self.paths, members, "paths"@)
                &&& required_is(&self.installer_type, members, "type"@)
                &&& flag_is(self.is_exclude_from_all, members, "isExcludeFromAll"@)
                &&& flag_is(self.is_for_all_components, members, "isForAllComponents"@)
                &&& flag_is(self.is_optional, members, "isOptional"@)
                &&& optional_is(&self.target_id, members, "targetId"@)
                &&& optional_is(&self.target_index, members, "targetIndex"@)
                &&& flag_is(self.target_is_import_library, members, "targetIsImportLibrary"@)
                &&& optional_is(&self.target_install_namelink, members, "targetInstallNamelink"@)
                &&& optional_is(&self.export_name, members, "exportName"@)
                &&& listed_is(&self.export_targets, members, "exportTargets"@)
                &&& optional_is(
                    &self.runtime_dependency_set_name,
                    members,
                    "runtimeDependencySetName"@,
                )
                &&& optional_is(
                    &self.runtime_dependency_set_type,
                    members,
                    "runtimeDependencySetType"@,
                )
                &&& optional_is(&self.file_set_name, members, "fileSetName"@)
                &&& optional_is(&self.file_set_type, members, "fileSetType"@)
                &&& listed_is(&self.file_set_directories, members, "fileSetDirectories"@)
                &&& optional_is(&self.file_set_target, members, "fileSetTarget"@)
                &&& optional_is(&self.script_file, members, "scriptFile"@)
                &&& optional_is(&self.backtrace, members, "backtrace"@)
            },
            _ => false,
        }
    }

    fn decode(v: &Value) -> (r: Result<Installer, DecodeError>) {
        let record = Record::open(v)?;
        record.deny_unknown::<Installer>()?;
        let component = record.required::<String>("component")?;
        let destination = record.optional::<String>("destination")?;
        let paths = record.listed::<InstallPath>("paths")?;
        let installer_type = record.required::<String>("type")?;
        let is_exclude_from_all = record.flag("isExcludeFromAll")?;
        let is_for_all_components = record.flag("isForAllComponents")?;
        let is_optional = record.flag("isOptional")?;
        let target_id = record.optional::<String>("targetId")?;
        let target_index = record.optional::<usize>("targetIndex")?;
        let target_is_import_library = record.flag("targetIsImportLibrary")?;
        let target_install_namelink = record.optional::<String>("targetInstallNamelink")?;
        let export_name = record.optional::<String>("exportName")?;
        let export_targets = record.listed::<TargetIdAndIndex>("exportTargets")?;
        let runtime_dependency_set_name = record.optional::<String>("runtimeDependencySetName")?;
        let runtime_dependency_set_type = record.optional::<String>("runtimeDependencySetType")?;
        let file_set_name = record.optional::<String>("fileSetName")?;
        let file_set_type = record.optional::<String>("fileSetType")?;
        let file_set_directories = record.listed::<String>("fileSetDirectories")?;
        let file_set_target = record.optional::<TargetIdAndIndex>("fileSetTarget")?;
        let script_file = record.optional::<String>("scriptFile")?;
        let backtrace = record.optional::<usize>("backtrace")?;
        Ok(Installer {
            component,
            destination,
            paths,
            installer_type,
            is_exclude_from_all,
            is_for_all_components,
            is_optional,
            target_id,
            target_index,
            target_is_import_library,
            target_install_namelink,
            export_name,
            export_targets,
            runtime_dependency_set_name,
            runtime_dependency_set_type,
            file_set_name,
            file_set_type,
            file_set_directories,
            file_set_target,
            script_file,
            backtrace,
        })
    }
}

/// A target, by id and by position.
#[derive(Default, Debug, Clone, PartialEq)]
pub struct TargetIdAndIndex {
    /// The id of the target.
    pub id: String,
    /// Index of the target in the build model's targets.
    pub index: usize,
}

impl Schema for TargetIdAndIndex {
    open spec fn names() -> Seq<Seq<char>> {
        seq!["id"@, "index"@]
    }

    fn field_names() -> (r: &'static [&'static str]) {
        let r: &'static [&'static str] = &["id", "index"];
        assert(names_of(r@) =~= Self::names());
        r
    }
}

impl Strict for TargetIdAndIndex {
    proof fn lemma_unknown_member_fails(members: Seq<(Seq<char>, Json)>) {
    }
}

impl Decode for TargetIdAndIndex {
    open spec fn failure(j: Json) -> Option<DecodeFailure> {
        match j {
            Json::Object(members) => unknown_failure(members, Self::names())
                .otherwise(required_failure::<String>(members, "id"@))
                .otherwise(required_failure::<usize>(members, "index"@)),
            _ => Some(DecodeFailure::InvalidType(Expected::Object)),
        }
    }

    open spec fn decodes(&self, j: Json) -> bool {
        match j {
            Json::Object(members) => {
                &&& required_is(&self.id, members, "id"@)
                &&& required_is(&self.index, members, "index"@)
            },
            _ => false,
        }
    }

    fn decode(v: &Value) -> (r: Result<TargetIdAndIndex, DecodeError>) {
        let record = Record::open(v)?;
        record.deny_unknown::<TargetIdAndIndex>()?;
        let id = record.required::<String>("id")?;
        let index = record.required::<usize>("index")?;
        Ok(TargetIdAndIndex { id, index })
    }
}

/// An installed path together with the name it is installed under.
#[derive(Default, Debug, Clone, PartialEq)]
pub struct FromToPaths {
    /// The path that is installed.
    pub from: String,
    /// The path under the destination that it is installed to.
    pub to: String,
}

impl Schema for FromToPaths {
    open spec fn names() -> Seq<Seq<char>> {
        seq!["from"@, "to"@]
    }

    fn field_names() -> (r: &'static [&'static str]) {
        let r: &'static [&'static str] = &["from", "to"];
        assert(names_of(r@) =~= Self::names());
        r
    }
}

impl Strict for FromToPaths {
    proof fn lemma_unknown_member_fails(members: Seq<(Seq<char>, Json)>) {
    }
}

impl Decode for FromToPaths {
    open spec fn failure(j: Json) -> Option<DecodeFailure> {
        match j {
            Json::Object(members) => unknown_failure(members, Self::names())
                .otherwise(required_failure::<String>(members, "from"@))
                .otherwise(required_failure::<String>(members, "to"@)),
            _ => Some(DecodeFailure::InvalidType(Expected::Object)),
        }
    }

    open spec fn decodes(&self, j: Json) -> bool {
        match j {
            Json::Object(members) => {
                &&& required_is(&self.from, members, "from"@)
                &&& required_is(&self.to, members, "to"@)
            },
            _ => false,
        }
    }

    fn decode(v: &Value) -> (r: Result<FromToPaths, DecodeError>) {
        let record = Record::open(v)?;
        record.deny_unknown::<FromToPaths>()?;
        let from = record.required::<String>("from")?;
        let to = record.required::<String>("to")?;
        Ok(FromToPaths { from, to })
    }
}

/// What an installer installs: a path that also names its destination, or a
/// pair of source and destination.
#[derive(Debug, Clone, PartialEq)]
pub enum InstallPath {
    /// The path that is installed; its last component is the name under the
    /// destination.
    PathCombination(String),
    /// The path that is installed and the path it is installed to.
    FromTo(FromToPaths),
}

impl Decode for InstallPath {
    open spec fn failure(j: Json) -> Option<DecodeFailure> {
        if String::failure(j) is None || FromToPaths::failure(j) is None {
            None
        } else {
            Some(DecodeFailure::NoMatchingShape)
        }
    }

    open spec fn decodes(&self, j: Json) -> bool {
        match self {
            InstallPath::PathCombination(path) => path.decodes(j),
            InstallPath::FromTo(pair) => String::failure(j) is Some && pair.decodes(j),
        }
    }

    fn decode(v: &Value) -> (r: Result<InstallPath, DecodeError>) {
        match String::decode(v) {
            Ok(path) => Ok(InstallPath::PathCombination(path)),
            Err(_) => match FromToPaths::decode(v) {
                Ok(pair) => Ok(InstallPath::FromTo(pair)),
                Err(_) => Err(DecodeError::NoMatchingShape),
            },
        }
    }
}

} // verus!
