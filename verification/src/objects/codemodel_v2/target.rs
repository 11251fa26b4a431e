//! The target document that a build model refers to, and the command line of
//! its compile groups.

use super::backtrace_graph::BacktraceGraph;
use crate::decode::{
    flag_failure, flag_is, listed_failure, listed_is, names_of, optional_failure, optional_is,
    required_failure, required_is, unknown_failure, Decode, DecodeError, DecodeFailure, Expected,
    Otherwise, Record, Schema, Strict,
};
use crate::json::Json;
use crate::text::{skip_chars, starts_with, texts};
use serde_json::Value;
use vstd::prelude::*;

verus! {

/// A target of the build system, as its own document describes it.
#[derive(Default, Debug, Clone, PartialEq)]
pub struct Target {
    /// The logical name of the target.
    pub name: String,
    /// A string that identifies the target; its format is not to be interpreted.
    pub id: String,
    /// The type of the target: `EXECUTABLE`, `STATIC_LIBRARY`, `SHARED_LIBRARY`, `MODULE_LIBRARY`,
    /// `OBJECT_LIBRARY`, `INTERFACE_LIBRARY` or `UTILITY`.
    pub target_type: String,
    /// Index of the backtrace node of the command that created the target.
    pub backtrace: Option<usize>,
    /// The folder of the target, where the `FOLDER` property is set.
    pub folder: Option<Folder>,
    /// Where the target lies.
    pub paths: TargetPaths,
    /// The file name of the primary artifact, for targets that are linked or archived into one.
    pub name_on_disk: Option<String>,
    /// The artifacts that the target produces for its dependents.
    pub artifacts: Vec<Artifact>,
    /// True where the target comes from CMake's generator rather than from a command in the source
    /// code.
    pub is_generator_provided: bool,
    /// The installation of the target, where it has an `install()` rule.
    pub install: Option<Install>,
    /// The launchers of an executable target.
    pub launchers: Vec<Launcher>,
    /// How the target is linked, for executables and shared libraries.
    pub link: Option<Link>,
    /// How the target is archived, for static libraries.
    pub archive: Option<Archive>,
    /// The targets that this one depends on.
    pub dependencies: Vec<Dependency>,
    /// The file sets of the target.
    pub file_sets: Vec<FileSet>,
    /// The source files of the target.
    pub sources: Vec<Source>,
    /// The groups that `source_group()` or the defaults put the sources in.
    pub source_groups: Vec<SourceGroup>,
    /// The groups of sources that compile with the same settings.
    pub compile_groups: Vec<CompileGroup>,
    /// The backtraces that the `backtrace` members of this document index.
    pub backtrace_graph: BacktraceGraph,
}

impl Schema for Target {
    open spec fn names() -> Seq<Seq<char>> {
        seq![
            "name"@, "id"@, "type"@, "backtrace"@, "folder"@, "paths"@, "nameOnDisk"@, "artifacts"@,
            "isGeneratorProvided"@, "install"@, "launchers"@, "link"@, "archive"@, "dependencies"@,
            "fileSets"@, "sources"@, "sourceGroups"@, "compileGroups"@, "backtraceGraph"@,
        ]
    }

    fn field_names() -> (r: &'static [&'static str]) {
        let r: &'static [&'static str] = &[
            "name", "id", "type", "backtrace", "folder", "paths", "nameOnDisk", "artifacts",
            "isGeneratorProvided", "install", "launchers", "link", "archive", "dependencies",
            "fileSets", "sources", "sourceGroups", "compileGroups", "backtraceGraph",
        ];
        assert(names_of(r@) =~= Self::names());
        r
    }
}

impl Strict for Target {
    proof fn lemma_unknown_member_fails(members: Seq<(Seq<char>, Json)>) {
    }
}

impl Decode for Target {
    open spec fn failure(j: Json) -> Option<DecodeFailure> {
        match j {
            Json::Object(members) => unknown_failure(members, Self::names())
                .otherwise(required_failure::<String>(members, "name"@))
                .otherwise(required_failure::<String>(members, "id"@))
                .otherwise(required_failure::<String>(members, "type"@))
                .otherwise(optional_failure::<usize>(members, "backtrace"@))
                .otherwise(optional_failure::<Folder>(members, "folder"@))
                .otherwise(required_failure::<TargetPaths>(members, "paths"@))
                .otherwise(optional_failure::<String>(members, "nameOnDisk"@))
                .otherwise(listed_failure::<Artifact>(members, "artifacts"@))
                .otherwise(flag_failure(members, "isGeneratorProvided"@))
                .otherwise(optional_failure::<Install>(members, "install"@))
                .otherwise(listed_failure::<Launcher>(members, "launchers"@))
                .otherwise(optional_failure::<Link>(members, "link"@))
                .otherwise(optional_failure::<Archive>(members, "archive"@))
                .otherwise(listed_failure::<Dependency>(members, "dependencies"@))
                .otherwise(listed_failure::<FileSet>(members, "fileSets"@))
                .otherwise(listed_failure::<Source>(members, "sources"@))
                .otherwise(listed_failure::<SourceGroup>(members, "sourceGroups"@))
                .otherwise(listed_failure::<CompileGroup>(members, "compileGroups"@))
                .otherwise(required_failure::<BacktraceGraph>(members, "backtraceGraph"@)),
            _ => Some(DecodeFailure::InvalidType(Expected::Object)),
        }
    }

    open spec fn decodes(&self, j: Json) -> bool {
        match j {
            Json::Object(members) => {
                &&& required_is(&self.name, members, "name"@)
                &&& required_is(&self.id, members, "id"@)
                &&& required_is(&self.target_type, members, "type"@)
                &&& optional_is(&self.backtrace, members, "backtrace"@)
                &&& optional_is(&self.folder, members, "folder"@)
                &&& required_is(&self.paths, members, "paths"@)
                &&& optional_is(&self.name_on_disk, members, "nameOnDisk"@)
                &&& listed_is(&self.artifacts, members, "artifacts"@)
                &&& flag_is(self.is_generator_provided, members, "isGeneratorProvided"@)
                &&& optional_is(&self.install, members, "install"@)
                &&& listed_is(&self.launchers, members, "launchers"@)
                &&& optional_is(&self.link, members, "link"@)
                &&& optional_is(&self.archive, members, "archive"@)
                &&& listed_is(&self.dependencies, members, "dependencies"@)
                &&& listed_is(&self.file_sets, members, "fileSets"@)
                &&& listed_is(&self.sources, members, "sources"@)
                &&& listed_is(&self.source_groups, members, "sourceGroups"@)
                &&& listed_is(&self.compile_groups, members, "compileGroups"@)
                &&& required_is(&self.backtrace_graph, members, "backtraceGraph"@)
            },
            _ => false,
        }
    }

    fn decode(v: &Value) -> (r: Result<Target, DecodeError>) {
        let record = Record::open(v)?;
        record.deny_unknown::<Target>()?;
        let name = record.required::<String>("name")?;
        let id = record.required::<String>("id")?;
        let target_type = record.required::<String>("type")?;
        let backtrace = record.optional::<usize>("backtrace")?;
        let folder = record.optional::<Folder>("folder")?;
        let paths = record.required::<TargetPaths>("paths")?;
        let name_on_disk = record.optional::<String>("nameOnDisk")?;
        let artifacts = record.listed::<Artifact>("artifacts")?;
        let is_generator_provided = record.flag("isGeneratorProvided")?;
        let install = record.optional::<Install>("install")?;
        let launchers = record.listed::<Launcher>("launchers")?;
        let link = record.optional::<Link>("link")?;
        let archive = record.optional::<Archive>("archive")?;
        let dependencies = record.listed::<Dependency>("dependencies")?;
        let file_sets = record.listed::<FileSet>("fileSets")?;
        let sources = record.listed::<Source>("sources")?;
        let source_groups = record.listed::<SourceGroup>("sourceGroups")?;
        let compile_groups = record.listed::<CompileGroup>("compileGroups")?;
        let backtrace_graph = record.required::<BacktraceGraph>("backtraceGraph")?;
        Ok(Target {
            name,
            id,
            target_type,
            backtrace,
            folder,
            paths,
            name_on_disk,
            artifacts,
            is_generator_provided,
            install,
            launchers,
            link,
            archive,
            dependencies,
            file_sets,
            sources,
            source_groups,
            compile_groups,
            backtrace_graph,
        })
    }
}

/// The folder that a target is shown in.
#[derive(Default, Debug, Clone, PartialEq)]
pub struct Folder {
    /// The name of the folder.
    pub name: String,
}

impl Schema for Folder {
    open spec fn names() -> Seq<Seq<char>> {
        seq!["name"@]
    }

    fn field_names() -> (r: &'static [&'static str]) {
        let r: &'static [&'static str] = &["name"];
        assert(names_of(r@) =~= Self::names());
        r
    }
}

impl Strict for Folder {
    proof fn lemma_unknown_member_fails(members: Seq<(Seq<char>, Json)>) {
    }
}

impl Decode for Folder {
    open spec fn failure(j: Json) -> Option<DecodeFailure> {
        match j {
            Json::Object(members) => unknown_failure(members, Self::names())
                .otherwise(required_failure::<String>(members, "name"@)),
            _ => Some(DecodeFailure::InvalidType(Expected::Object)),
        }
    }

    open spec fn decodes(&self, j: Json) -> bool {
        match j {
            Json::Object(members) => {
                &&& required_is(&self.name, members, "name"@)
            },
            _ => false,
        }
    }

    fn decode(v: &Value) -> (r: Result<Folder, DecodeError>) {
        let record = Record::open(v)?;
        record.deny_unknown::<Folder>()?;
        let name = record.required::<String>("name")?;
        Ok(Folder { name })
    }
}

/// The source and build locations of a target, with forward slashes; relative to the top-level
/// directory of its kind where the target lies inside it.
#[derive(Default, Debug, Clone, PartialEq)]
pub struct TargetPaths {
    /// The build directory.
    pub build: String,
    /// The source directory.
    pub source: String,
}

impl Schema for TargetPaths {
    open spec fn names() -> Seq<Seq<char>> {
        seq!["build"@, "source"@]
    }

    fn field_names() -> (r: &'static [&'static str]) {
        let r: &'static [&'static str] = &["build", "source"];
        assert(names_of(r@) =~= Self::names());
        r
    }
}

impl Strict for TargetPaths {
    proof fn lemma_unknown_member_fails(members: Seq<(Seq<char>, Json)>) {
    }
}

impl Decode for TargetPaths {
    open spec fn failure(j: Json) -> Option<DecodeFailure> {
        match j {
            Json::Object(members) => unknown_failure(members, Self::names())
                .otherwise(required_failure::<String>(members, "build"@))
                .otherwise(required_failure::<String>(members, "source"@)),
            _ => Some(DecodeFailure::InvalidType(Expected::Object)),
        }
    }

    open spec fn decodes(&self, j: Json) -> bool {
        match j {
            Json::Object(members) => {
                &&& required_is(&self.build, members, "build"@)
                &&& required_is(&self.source, members, "source"@)
            },
            _ => false,
        }
    }

    fn decode(v: &Value) -> (r: Result<TargetPaths, DecodeError>) {
        let record = Record::open(v)?;
        record.deny_unknown::<TargetPaths>()?;
        let build = record.required::<String>("build")?;
        let source = record.required::<String>("source")?;
        Ok(TargetPaths { build, source })
    }
}

/// A file that a target produces.
#[derive(Default, Debug, Clone, PartialEq)]
pub struct Artifact {
    /// The path of the file, with forward slashes; relative to the top-level build directory where
    /// the file lies inside it.
    pub path: String,
}

impl Schema for Artifact {
    open spec fn names() -> Seq<Seq<char>> {
        seq!["path"@]
    }

    fn field_names() -> (r: &'static [&'static str]) {
        let r: &'static [&'static str] = &["path"];
        assert(names_of(r@) =~= Self::names());
        r
    }
}

impl Strict for Artifact {
    proof fn lemma_unknown_member_fails(members: Seq<(Seq<char>, Json)>) {
    }
}

impl Decode for Artifact {
    open spec fn failure(j: Json) -> Option<DecodeFailure> {
        match j {
            Json::Object(members) => unknown_failure(members, Self::names())
                .otherwise(required_failure::<String>(members, "path"@)),
            _ => Some(DecodeFailure::InvalidType(Expected::Object)),
        }
    }

    open spec fn decodes(&self, j: Json) -> bool {
        match j {
            Json::Object(members) => {
                &&& required_is(&self.path, members, "path"@)
            },
            _ => false,
        }
    }

    fn decode(v: &Value) -> (r: Result<Artifact, DecodeError>) {
        let record = Record::open(v)?;
        record.deny_unknown::<Artifact>()?;
        let path = record.required::<String>("path")?;
        Ok(Artifact { path })
    }
}

/// The installation of a target.
#[derive(Default, Debug, Clone, PartialEq)]
pub struct Install {
    /// The installation prefix.
    pub prefix: Prefix,
    /// The installation destinations.
    pub destinations: Vec<Destination>,
}

impl Schema for Install {
    open spec fn names() -> Seq<Seq<char>> {
        seq!["prefix"@, "destinations"@]
    }

    fn field_names() -> (r: &'static [&'static str]) {
        let r: &'static [&'static str] = &["prefix", "destinations"];
        assert(names_of(r@) =~= Self::names());
        r
    }
}

impl Strict for Install {
    proof fn lemma_unknown_member_fails(members: Seq<(Seq<char>, Json)>) {
    }
}

impl Decode for Install {
    open spec fn failure(j: Json) -> Option<DecodeFailure> {
        match j {
            Json::Object(members) => unknown_failure(members, Self::names())
                .otherwise(required_failure::<Prefix>(members, "prefix"@))
                .otherwise(listed_failure::<Destination>(members, "destinations"@)),
            _ => Some(DecodeFailure::InvalidType(Expected::Object)),
        }
    }

    open spec fn decodes(&self, j: Json) -> bool {
        match j {
            Json::Object(members) => {
                &&& required_is(&self.prefix, members, "prefix"@)
                &&& listed_is(&self.destinations, members, "destinations"@)
            },
            _ => false,
        }
    }

    fn decode(v: &Value) -> (r: Result<Install, DecodeError>) {
        let record = Record::open(v)?;
        record.deny_unknown::<Install>()?;
        let prefix = record.required::<Prefix>("prefix")?;
        let destinations = record.listed::<Destination>("destinations")?;
        Ok(Install { prefix, destinations })
    }
}

/// An installation prefix.
#[derive(Default, Debug, Clone, PartialEq)]
pub struct Prefix {
    /// The value of `CMAKE_INSTALL_PREFIX`.
    pub path: String,
}

impl Schema for Prefix {
    open spec fn names() -> Seq<Seq<char>> {
        seq!["path"@]
    }

    fn field_names() -> (r: &'static [&'static str]) {
        let r: &'static [&'static str] = &["path"];
        assert(names_of(r@) =~= Self::names());
        r
    }
}

impl Strict for Prefix {
    proof fn lemma_unknown_member_fails(members: Seq<(Seq<char>, Json)>) {
    }
}

impl Decode for Prefix {
    open spec fn failure(j: Json) -> Option<DecodeFailure> {
        match j {
            Json::Object(members) => unknown_failure(members, Self::names())
                .otherwise(required_failure::<String>(members, "path"@)),
            _ => Some(DecodeFailure::InvalidType(Expected::Object)),
        }
    }

    open spec fn decodes(&self, j: Json) -> bool {
        match j {
            Json::Object(members) => {
                &&& required_is(&self.path, members, "path"@)
            },
            _ => false,
        }
    }

    fn decode(v: &Value) -> (r: Result<Prefix, DecodeError>) {
        let record = Record::open(v)?;
        record.deny_unknown::<Prefix>()?;
        let path = record.required::<String>("path")?;
        Ok(Prefix { path })
    }
}

/// An installation destination.
#[derive(Default, Debug, Clone, PartialEq)]
pub struct Destination {
    /// The destination, absolute or relative to the installation prefix.
    pub path: String,
    /// Index of the backtrace node of the `install()` call.
    pub backtrace: Option<usize>,
}

impl Schema for Destination {
    open spec fn names() -> Seq<Seq<char>> {
        seq!["path"@, "backtrace"@]
    }

    fn field_names() -> (r: &'static [&'static str]) {
        let r: &'static [&'static str] = &["path", "backtrace"];
        assert(names_of(r@) =~= Self::names());
        r
    }
}

impl Strict for Destination {
    proof fn lemma_unknown_member_fails(members: Seq<(Seq<char>, Json)>) {
    }
}

impl Decode for Destination {
    open spec fn failure(j: Json) -> Option<DecodeFailure> {
        match j {
            Json::Object(members) => unknown_failure(members, Self::names())
                .otherwise(required_failure::<String>(members, "path"@))
                .otherwise(optional_failure::<usize>(members, "backtrace"@)),
            _ => Some(DecodeFailure::InvalidType(Expected::Object)),
        }
    }

    open spec fn decodes(&self, j: Json) -> bool {
        match j {
            Json::Object(members) => {
                &&& required_is(&self.path, members, "path"@)
                &&& optional_is(&self.backtrace, members, "backtrace"@)
            },
            _ => false,
        }
    }

    fn decode(v: &Value) -> (r: Result<Destination, DecodeError>) {
        let record = Record::open(v)?;
        record.deny_unknown::<Destination>()?;
        let path = record.required::<String>("path")?;
        let backtrace = record.optional::<usize>("backtrace")?;
        Ok(Destination { path, backtrace })
    }
}

/// A program that starts an executable target.
#[derive(Default, Debug, Clone, PartialEq)]
pub struct Launcher {
    /// The path of the launcher, with forward slashes.
    pub command: String,
    /// The arguments that precede the executable.
    pub arguments: Vec<String>,
    /// The type of the launcher: `emulator` or `test`.
    pub launcher_type: String,
}

impl Schema for Launcher {
    open spec fn names() -> Seq<Seq<char>> {
        seq!["command"@, "arguments"@, "launcherType"@]
    }

    fn field_names() -> (r: &'static [&'static str]) {
        let r: &'static [&'static str] = &["command", "arguments", "launcherType"];
        assert(names_of(r@) =~= Self::names());
        r
    }
}

impl Strict for Launcher {
    proof fn lemma_unknown_member_fails(members: Seq<(Seq<char>, Json)>) {
    }
}

impl Decode for Launcher {
    open spec fn failure(j: Json) -> Option<DecodeFailure> {
        match j {
            Json::Object(members) => unknown_failure(members, Self::names())
                .otherwise(required_failure::<String>(members, "command"@))
                .otherwise(listed_failure::<String>(members, "arguments"@))
                .otherwise(required_failure::<String>(members, "launcherType"@)),
            _ => Some(DecodeFailure::InvalidType(Expected::Object)),
        }
    }

    open spec fn decodes(&self, j: Json) -> bool {
        match j {
            Json::Object(members) => {
                &&& required_is(&self.command, members, "command"@)
                &&& listed_is(&self.arguments, members, "arguments"@)
                &&& required_is(&self.launcher_type, members, "launcherType"@)
            },
            _ => false,
        }
    }

    fn decode(v: &Value) -> (r: Result<Launcher, DecodeError>) {
        let record = Record::open(v)?;
        record.deny_unknown::<Launcher>()?;
        let command = record.required::<String>("command")?;
        let arguments = record.listed::<String>("arguments")?;
        let launcher_type = record.required::<String>("launcherType")?;
        Ok(Launcher { command, arguments, launcher_type })
    }
}

/// How a target is linked.
#[derive(Default, Debug, Clone, PartialEq)]
pub struct Link {
    /// The language of the toolchain that invokes the linker.
    pub language: String,
    /// The fragments of the link command line.
    pub command_fragments: Vec<CommandFragment>,
    /// True where link-time optimization is enabled.
    pub lto: bool,
    /// The sysroot, where `CMAKE_SYSROOT_LINK` or `CMAKE_SYSROOT` is defined.
    pub sysroot: Option<SysRootPath>,
}

impl Schema for Link {
    open spec fn names() -> Seq<Seq<char>> {
        seq!["language"@, "commandFragments"@, "lto"@, "sysroot"@]
    }

    fn field_names() -> (r: &'static [&'static str]) {
        let r: &'static [&'static str] = &["language", "commandFragments", "lto", "sysroot"];
        assert(names_of(r@) =~= Self::names());
        r
    }
}

impl Strict for Link {
    proof fn lemma_unknown_member_fails(members: Seq<(Seq<char>, Json)>) {
    }
}

impl Decode for Link {
    open spec fn failure(j: Json) -> Option<DecodeFailure> {
        match j {
            Json::Object(members) => unknown_failure(members, Self::names())
                .otherwise(required_failure::<String>(members, "language"@))
                .otherwise(listed_failure::<CommandFragment>(members, "commandFragments"@))
                .otherwise(flag_failure(members, "lto"@))
                .otherwise(optional_failure::<SysRootPath>(members, "sysroot"@)),
            _ => Some(DecodeFailure::InvalidType(Expected::Object)),
        }
    }

    open spec fn decodes(&self, j: Json) -> bool {
        match j {
            Json::Object(members) => {
                &&& required_is(&self.language, members, "language"@)
                &&& listed_is(&self.command_fragments, members, "commandFragments"@)
                &&& flag_is(self.lto, members, "lto"@)
                &&& optional_is(&self.sysroot, members, "sysroot"@)
            },
            _ => false,
        }
    }

    fn decode(v: &Value) -> (r: Result<Link, DecodeError>) {
        let record = Record::open(v)?;
        record.deny_unknown::<Link>()?;
        let language = record.required::<String>("language")?;
        let command_fragments = record.listed::<CommandFragment>("commandFragments")?;
        let lto = record.flag("lto")?;
        let sysroot = record.optional::<SysRootPath>("sysroot")?;
        Ok(Link { language, command_fragments, lto, sysroot })
    }
}

/// A fragment of a link or archive command line.
#[derive(Default, Debug, Clone, PartialEq)]
pub struct CommandFragment {
    /// The fragment, in the native shell format of the build system.
    pub fragment: String,
    /// What the fragment holds: `flags`, `libraries`, `libraryPath` or `frameworkPath`.
    pub role: String,
}

impl Schema for CommandFragment {
    open spec fn names() -> Seq<Seq<char>> {
        seq!["fragment"@, "role"@]
    }

    fn field_names() -> (r: &'static [&'static str]) {
        let r: &'static [&'static str] = &["fragment", "role"];
        assert(names_of(r@) =~= Self::names());
        r
    }
}

impl Strict for CommandFragment {
    proof fn lemma_unknown_member_fails(members: Seq<(Seq<char>, Json)>) {
    }
}

impl Decode for CommandFragment {
    open spec fn failure(j: Json) -> Option<DecodeFailure> {
        match j {
            Json::Object(members) => unknown_failure(members, Self::names())
                .otherwise(required_failure::<String>(members, "fragment"@))
                .otherwise(required_failure::<String>(members, "role"@)),
            _ => Some(DecodeFailure::InvalidType(Expected::Object)),
        }
    }

    open spec fn decodes(&self, j: Json) -> bool {
        match j {
            Json::Object(members) => {
                &&& required_is(&self.fragment, members, "fragment"@)
                &&& required_is(&self.role, members, "role"@)
            },
            _ => false,
        }
    }

    fn decode(v: &Value) -> (r: Result<CommandFragment, DecodeError>) {
        let record = Record::open(v)?;
        record.deny_unknown::<CommandFragment>()?;
        let fragment = record.required::<String>("fragment")?;
        let role = record.required::<String>("role")?;
        Ok(CommandFragment { fragment, role })
    }
}

/// A sysroot.
#[derive(Default, Debug, Clone, PartialEq)]
pub struct SysRootPath {
    /// The absolute path of the sysroot, with forward slashes.
    pub path: String,
}

impl Schema for SysRootPath {
    open spec fn names() -> Seq<Seq<char>> {
        seq!["path"@]
    }

    fn field_names() -> (r: &'static [&'static str]) {
        let r: &'static [&'static str] = &["path"];
        assert(names_of(r@) =~= Self::names());
        r
    }
}

impl Strict for SysRootPath {
    proof fn lemma_unknown_member_fails(members: Seq<(Seq<char>, Json)>) {
    }
}

impl Decode for SysRootPath {
    open spec fn failure(j: Json) -> Option<DecodeFailure> {
        match j {
            Json::Object(members) => unknown_failure(members, Self::names())
                .otherwise(required_failure::<String>(members, "path"@)),
            _ => Some(DecodeFailure::InvalidType(Expected::Object)),
        }
    }

    open spec fn decodes(&self, j: Json) -> bool {
        match j {
            Json::Object(members) => {
                &&& required_is(&self.path, members, "path"@)
            },
            _ => false,
        }
    }

    fn decode(v: &Value) -> (r: Result<SysRootPath, DecodeError>) {
        let record = Record::open(v)?;
        record.deny_unknown::<SysRootPath>()?;
        let path = record.required::<String>("path")?;
        Ok(SysRootPath { path })
    }
}

/// How a target is archived.
#[derive(Default, Debug, Clone, PartialEq)]
pub struct Archive {
    /// The fragments of the archiver command line.
    pub command_fragments: Vec<CommandFragment>,
    /// True where link-time optimization is enabled.
    pub lto: bool,
}

impl Schema for Archive {
    open spec fn names() -> Seq<Seq<char>> {
        seq!["commandFragments"@, "lto"@]
    }

    fn field_names() -> (r: &'static [&'static str]) {
        let r: &'static [&'static str] = &["commandFragments", "lto"];
        assert(names_of(r@) =~= Self::names());
        r
    }
}

impl Strict for Archive {
    proof fn lemma_unknown_member_fails(members: Seq<(Seq<char>, Json)>) {
    }
}

impl Decode for Archive {
    open spec fn failure(j: Json) -> Option<DecodeFailure> {
        match j {
            Json::Object(members) => unknown_failure(members, Self::names())
                .otherwise(listed_failure::<CommandFragment>(members, "commandFragments"@))
                .otherwise(flag_failure(members, "lto"@)),
            _ => Some(DecodeFailure::InvalidType(Expected::Object)),
        }
    }

    open spec fn decodes(&self, j: Json) -> bool {
        match j {
            Json::Object(members) => {
                &&& listed_is(&self.command_fragments, members, "commandFragments"@)
                &&& flag_is(self.lto, members, "lto"@)
            },
            _ => false,
        }
    }

    fn decode(v: &Value) -> (r: Result<Archive, DecodeError>) {
        let record = Record::open(v)?;
        record.deny_unknown::<Archive>()?;
        let command_fragments = record.listed::<CommandFragment>("commandFragments")?;
        let lto = record.flag("lto")?;
        Ok(Archive { command_fragments, lto })
    }
}

/// A target that another depends on.
#[derive(Default, Debug, Clone, PartialEq)]
pub struct Dependency {
    /// The id of the target depended on.
    pub id: String,
    /// Index of the backtrace node of the command that created the dependency.
    pub backtrace: Option<usize>,
}

impl Schema for Dependency {
    open spec fn names() -> Seq<Seq<char>> {
        seq!["id"@, "backtrace"@]
    }

    fn field_names() -> (r: &'static [&'static str]) {
        let r: &'static [&'static str] = &["id", "backtrace"];
        assert(names_of(r@) =~= Self::names());
        r
    }
}

impl Strict for Dependency {
    proof fn lemma_unknown_member_fails(members: Seq<(Seq<char>, Json)>) {
    }
}

impl Decode for Dependency {
    open spec fn failure(j: Json) -> Option<DecodeFailure> {
        match j {
            Json::Object(members) => unknown_failure(members, Self::names())
                .otherwise(required_failure::<String>(members, "id"@))
                .otherwise(optional_failure::<usize>(members, "backtrace"@)),
            _ => Some(DecodeFailure::InvalidType(Expected::Object)),
        }
    }

    open spec fn decodes(&self, j: Json) -> bool {
        match j {
            Json::Object(members) => {
                &&& required_is(&self.id, members, "id"@)
                &&& optional_is(&self.backtrace, members, "backtrace"@)
            },
            _ => false,
        }
    }

    fn decode(v: &Value) -> (r: Result<Dependency, DecodeError>) {
        let record = Record::open(v)?;
        record.deny_unknown::<Dependency>()?;
        let id = record.required::<String>("id")?;
        let backtrace = record.optional::<usize>("backtrace")?;
        Ok(Dependency { id, backtrace })
    }
}

/// A file set of a target.
#[derive(Default, Debug, Clone, PartialEq)]
pub struct FileSet {
    /// The name of the file set.
    pub name: String,
    /// The type of the file set.
    pub file_set_type: String,
    /// The visibility of the file set: `PUBLIC`, `PRIVATE` or `INTERFACE`.
    pub visibility: String,
    /// The base directories of the file set.
    pub base_directories: Vec<String>,
}

impl Schema for FileSet {
    open spec fn names() -> Seq<Seq<char>> {
        seq!["name"@, "type"@, "visibility"@, "baseDirectories"@]
    }

    fn field_names() -> (r: &'static [&'static str]) {
        let r: &'static [&'static str] = &["name", "type", "visibility", "baseDirectories"];
        assert(names_of(r@) =~= Self::names());
        r
    }
}

impl Strict for FileSet {
    proof fn lemma_unknown_member_fails(members: Seq<(Seq<char>, Json)>) {
    }
}

impl Decode for FileSet {
    open spec fn failure(j: Json) -> Option<DecodeFailure> {
        match j {
            Json::Object(members) => unknown_failure(members, Self::names())
                .otherwise(required_failure::<String>(members, "name"@))
                .otherwise(required_failure::<String>(members, "type"@))
                .otherwise(required_failure::<String>(members, "visibility"@))
                .otherwise(required_failure::<Vec<String>>(members, "baseDirectories"@)),
            _ => Some(DecodeFailure::InvalidType(Expected::Object)),
        }
    }

    open spec fn decodes(&self, j: Json) -> bool {
        match j {
            Json::Object(members) => {
                &&& required_is(&self.name, members, "name"@)
                &&& required_is(&self.file_set_type, members, "type"@)
                &&& required_is(&self.visibility, members, "visibility"@)
                &&& required_is(&self.base_directories, members, "baseDirectories"@)
            },
            _ => false,
        }
    }

    fn decode(v: &Value) -> (r: Result<FileSet, DecodeError>) {
        let record = Record::open(v)?;
        record.deny_unknown::<FileSet>()?;
        let name = record.required::<String>("name")?;
        let file_set_type = record.required::<String>("type")?;
        let visibility = record.required::<String>("visibility")?;
        let base_directories = record.required::<Vec<String>>("baseDirectories")?;
        Ok(FileSet { name, file_set_type, visibility, base_directories })
    }
}

/// A source file of a target.
#[derive(Default, Debug, Clone, PartialEq)]
pub struct Source {
    /// The path of the file, with forward slashes; relative to the top-level source directory where
    /// the file lies inside it.
    pub path: String,
    /// Index of the compile group of the file, where it is compiled.
    pub compile_group_index: Option<usize>,
    /// Index of the source group of the file, where it is in one.
    pub source_group_index: Option<usize>,
    /// True where the file is `GENERATED`.
    pub is_generated: bool,
    /// Index of the file set of the file, where it is in one.
    pub file_set_index: Option<usize>,
    /// Index of the backtrace node of the command that added the file.
    pub backtrace: Option<usize>,
}

impl Schema for Source {
    open spec fn names() -> Seq<Seq<char>> {
        seq![
            "path"@, "compileGroupIndex"@, "sourceGroupIndex"@, "isGenerated"@, "fileSetIndex"@,
            "backtrace"@,
        ]
    }

    fn field_names() -> (r: &'static [&'static str]) {
        let r: &'static [&'static str] = &[
            "path", "compileGroupIndex", "sourceGroupIndex", "isGenerated", "fileSetIndex",
            "backtrace",
        ];
        assert(names_of(r@) =~= Self::names());
        r
    }
}

impl Strict for Source {
    proof fn lemma_unknown_member_fails(members: Seq<(Seq<char>, Json)>) {
    }
}

impl Decode for Source {
    open spec fn failure(j: Json) -> Option<DecodeFailure> {
        match j {
            Json::Object(members) => unknown_failure(members, Self::names())
                .otherwise(required_failure::<String>(members, "path"@))
                .otherwise(optional_failure::<usize>(members, "compileGroupIndex"@))
                .otherwise(optional_failure::<usize>(members, "sourceGroupIndex"@))
                .otherwise(flag_failure(members, "isGenerated"@))
                .otherwise(optional_failure::<usize>(members, "fileSetIndex"@))
                .otherwise(optional_failure::<usize>(members, "backtrace"@)),
            _ => Some(DecodeFailure::InvalidType(Expected::Object)),
        }
    }

    open spec fn decodes(&self, j: Json) -> bool {
        match j {
            Json::Object(members) => {
                &&& required_is(&self.path, members, "path"@)
                &&& optional_is(&self.compile_group_index, members, "compileGroupIndex"@)
                &&& optional_is(&self.source_group_index, members, "sourceGroupIndex"@)
                &&& flag_is(self.is_generated, members, "isGenerated"@)
                &&& optional_is(&self.file_set_index, members, "fileSetIndex"@)
                &&& optional_is(&self.backtrace, members, "backtrace"@)
            },
            _ => false,
        }
    }

    fn decode(v: &Value) -> (r: Result<Source, DecodeError>) {
        let record = Record::open(v)?;
        record.deny_unknown::<Source>()?;
        let path = record.required::<String>("path")?;
        let compile_group_index = record.optional::<usize>("compileGroupIndex")?;
        let source_group_index = record.optional::<usize>("sourceGroupIndex")?;
        let is_generated = record.flag("isGenerated")?;
        let file_set_index = record.optional::<usize>("fileSetIndex")?;
        let backtrace = record.optional::<usize>("backtrace")?;
        Ok(Source {
            path,
            compile_group_index,
            source_group_index,
            is_generated,
            file_set_index,
            backtrace,
        })
    }
}

/// A named group of sources.
#[derive(Default, Debug, Clone, PartialEq)]
pub struct SourceGroup {
    /// The name of the group.
    pub name: String,
    /// Indexes into the target's sources.
    pub source_indexes: Vec<usize>,
}

impl Schema for SourceGroup {
    open spec fn names() -> Seq<Seq<char>> {
        seq!["name"@, "sourceIndexes"@]
    }

    fn field_names() -> (r: &'static [&'static str]) {
        let r: &'static [&'static str] = &["name", "sourceIndexes"];
        assert(names_of(r@) =~= Self::names());
        r
    }
}

impl Strict for SourceGroup {
    proof fn lemma_unknown_member_fails(members: Seq<(Seq<char>, Json)>) {
    }
}

impl Decode for SourceGroup {
    open spec fn failure(j: Json) -> Option<DecodeFailure> {
        match j {
            Json::Object(members) => unknown_failure(members, Self::names())
                .otherwise(required_failure::<String>(members, "name"@))
                .otherwise(required_failure::<Vec<usize>>(members, "sourceIndexes"@)),
            _ => Some(DecodeFailure::InvalidType(Expected::Object)),
        }
    }

    open spec fn decodes(&self, j: Json) -> bool {
        match j {
            Json::Object(members) => {
                &&& required_is(&self.name, members, "name"@)
                &&& required_is(&self.source_indexes, members, "sourceIndexes"@)
            },
            _ => false,
        }
    }

    fn decode(v: &Value) -> (r: Result<SourceGroup, DecodeError>) {
        let record = Record::open(v)?;
        record.deny_unknown::<SourceGroup>()?;
        let name = record.required::<String>("name")?;
        let source_indexes = record.required::<Vec<usize>>("sourceIndexes")?;
        Ok(SourceGroup { name, source_indexes })
    }
}

/// Sources that compile with the same settings.
#[derive(Default, Debug, Clone, PartialEq)]
pub struct CompileGroup {
    /// Indexes into the target's sources.
    pub source_indexes: Vec<usize>,
    /// The language of the toolchain that compiles the sources.
    pub language: String,
    /// The language standard, where one is set.
    pub language_standard: Option<LanguageStandard>,
    /// The fragments of the compile command line.
    pub compile_command_fragments: Vec<CompileCommandFragment>,
    /// The include directories.
    pub includes: Vec<Include>,
    /// The frameworks.
    pub frameworks: Vec<Framework>,
    /// The precompiled headers.
    pub precompile_headers: Vec<PrecompileHeader>,
    /// The preprocessor definitions.
    pub defines: Vec<Define>,
    /// The sysroot, where `CMAKE_SYSROOT_COMPILE` or `CMAKE_SYSROOT` is defined.
    pub sysroot: Option<SysRootPath>,
}

impl Schema for CompileGroup {
    open spec fn names() -> Seq<Seq<char>> {
        seq![
            "sourceIndexes"@, "language"@, "languageStandard"@, "compileCommandFragments"@,
            "includes"@, "frameworks"@, "precompileHeaders"@, "defines"@, "sysroot"@,
        ]
    }

    fn field_names() -> (r: &'static [&'static str]) {
        let r: &'static [&'static str] = &[
            "sourceIndexes", "language", "languageStandard", "compileCommandFragments", "includes",
            "frameworks", "precompileHeaders", "defines", "sysroot",
        ];
        assert(names_of(r@) =~= Self::names());
        r
    }
}

impl Strict for CompileGroup {
    proof fn lemma_unknown_member_fails(members: Seq<(Seq<char>, Json)>) {
    }
}

impl Decode for CompileGroup {
    open spec fn failure(j: Json) -> Option<DecodeFailure> {
        match j {
            Json::Object(members) => unknown_failure(members, Self::names())
                .otherwise(required_failure::<Vec<usize>>(members, "sourceIndexes"@))
                .otherwise(required_failure::<String>(members, "language"@))
                .otherwise(optional_failure::<LanguageStandard>(members, "languageStandard"@))
                .otherwise(
                    listed_failure::<CompileCommandFragment>(members, "compileCommandFragments"@),
                )
                .otherwise(listed_failure::<Include>(members, "includes"@))
                .otherwise(listed_failure::<Framework>(members, "frameworks"@))
                .otherwise(listed_failure::<PrecompileHeader>(members, "precompileHeaders"@))
                .otherwise(listed_failure::<Define>(members, "defines"@))
                .otherwise(optional_failure::<SysRootPath>(members, "sysroot"@)),
            _ => Some(DecodeFailure::InvalidType(Expected::Object)),
        }
    }

    open spec fn decodes(&self, j: Json) -> bool {
        match j {
            Json::Object(members) => {
                &&& required_is(&self.source_indexes, members, "sourceIndexes"@)
                &&& required_is(&self.language, members, "language"@)
                &&& optional_is(&self.language_standard, members, "languageStandard"@)
                &&& listed_is(&self.compile_command_fragments, members, "compileCommandFragments"@)
                &&& listed_is(&self.includes, members, "includes"@)
                &&& listed_is(&self.frameworks, members, "frameworks"@)
                &&& listed_is(&self.precompile_headers, members, "precompileHeaders"@)
                &&& listed_is(&self.defines, members, "defines"@)
                &&& optional_is(&self.sysroot, members, "sysroot"@)
            },
            _ => false,
        }
    }

    fn decode(v: &Value) -> (r: Result<CompileGroup, DecodeError>) {
        let record = Record::open(v)?;
        record.deny_unknown::<CompileGroup>()?;
        let source_indexes = record.required::<Vec<usize>>("sourceIndexes")?;
        let language = record.required::<String>("language")?;
        let language_standard = record.optional::<LanguageStandard>("languageStandard")?;
        let compile_command_fragments = record.listed::<CompileCommandFragment>(
            "compileCommandFragments",
        )?;
        let includes = record.listed::<Include>("includes")?;
        let frameworks = record.listed::<Framework>("frameworks")?;
        let precompile_headers = record.listed::<PrecompileHeader>("precompileHeaders")?;
        let defines = record.listed::<Define>("defines")?;
        let sysroot = record.optional::<SysRootPath>("sysroot")?;
        Ok(CompileGroup {
            source_indexes,
            language,
            language_standard,
            compile_command_fragments,
            includes,
            frameworks,
            precompile_headers,
            defines,
            sysroot,
        })
    }
}

/// A language standard and where it was asked for.
#[derive(Default, Debug, Clone, PartialEq)]
pub struct LanguageStandard {
    /// Indexes of the backtrace nodes of the settings that ask for the standard.
    pub backtraces: Vec<usize>,
    /// The standard.
    pub standard: String,
}

impl Schema for LanguageStandard {
    open spec fn names() -> Seq<Seq<char>> {
        seq!["backtraces"@, "standard"@]
    }

    fn field_names() -> (r: &'static [&'static str]) {
        let r: &'static [&'static str] = &["backtraces", "standard"];
        assert(names_of(r@) =~= Self::names());
        r
    }
}

impl Strict for LanguageStandard {
    proof fn lemma_unknown_member_fails(members: Seq<(Seq<char>, Json)>) {
    }
}

impl Decode for LanguageStandard {
    open spec fn failure(j: Json) -> Option<DecodeFailure> {
        match j {
            Json::Object(members) => unknown_failure(members, Self::names())
                .otherwise(listed_failure::<usize>(members, "backtraces"@))
                .otherwise(required_failure::<String>(members, "standard"@)),
            _ => Some(DecodeFailure::InvalidType(Expected::Object)),
        }
    }

    open spec fn decodes(&self, j: Json) -> bool {
        match j {
            Json::Object(members) => {
                &&& listed_is(&self.backtraces, members, "backtraces"@)
                &&& required_is(&self.standard, members, "standard"@)
            },
            _ => false,
        }
    }

    fn decode(v: &Value) -> (r: Result<LanguageStandard, DecodeError>) {
        let record = Record::open(v)?;
        record.deny_unknown::<LanguageStandard>()?;
        let backtraces = record.listed::<usize>("backtraces")?;
        let standard = record.required::<String>("standard")?;
        Ok(LanguageStandard { backtraces, standard })
    }
}

/// A fragment of a compile command line.
#[derive(Default, Debug, Clone, PartialEq)]
pub struct CompileCommandFragment {
    /// The fragment, in the native shell format of the build system.
    pub fragment: String,
}

impl Schema for CompileCommandFragment {
    open spec fn names() -> Seq<Seq<char>> {
        seq!["fragment"@]
    }

    fn field_names() -> (r: &'static [&'static str]) {
        let r: &'static [&'static str] = &["fragment"];
        assert(names_of(r@) =~= Self::names());
        r
    }
}

impl Strict for CompileCommandFragment {
    proof fn lemma_unknown_member_fails(members: Seq<(Seq<char>, Json)>) {
    }
}

impl Decode for CompileCommandFragment {
    open spec fn failure(j: Json) -> Option<DecodeFailure> {
        match j {
            Json::Object(members) => unknown_failure(members, Self::names())
                .otherwise(required_failure::<String>(members, "fragment"@)),
            _ => Some(DecodeFailure::InvalidType(Expected::Object)),
        }
    }

    open spec fn decodes(&self, j: Json) -> bool {
        match j {
            Json::Object(members) => {
                &&& required_is(&self.fragment, members, "fragment"@)
            },
            _ => false,
        }
    }

    fn decode(v: &Value) -> (r: Result<CompileCommandFragment, DecodeError>) {
        let record = Record::open(v)?;
        record.deny_unknown::<CompileCommandFragment>()?;
        let fragment = record.required::<String>("fragment")?;
        Ok(CompileCommandFragment { fragment })
    }
}

/// An include directory.
#[derive(Default, Debug, Clone, PartialEq)]
pub struct Include {
    /// The path of the directory, with forward slashes.
    pub path: String,
    /// True where the directory is a system include directory.
    pub is_system: bool,
    /// Index of the backtrace node of the command that added the directory.
    pub backtrace: Option<usize>,
}

impl Schema for Include {
    open spec fn names() -> Seq<Seq<char>> {
        seq!["path"@, "isSystem"@, "backtrace"@]
    }

    fn field_names() -> (r: &'static [&'static str]) {
        let r: &'static [&'static str] = &["path", "isSystem", "backtrace"];
        assert(names_of(r@) =~= Self::names());
        r
    }
}

impl Strict for Include {
    proof fn lemma_unknown_member_fails(members: Seq<(Seq<char>, Json)>) {
    }
}

impl Decode for Include {
    open spec fn failure(j: Json) -> Option<DecodeFailure> {
        match j {
            Json::Object(members) => unknown_failure(members, Self::names())
                .otherwise(required_failure::<String>(members, "path"@))
                .otherwise(flag_failure(members, "isSystem"@))
                .otherwise(optional_failure::<usize>(members, "backtrace"@)),
            _ => Some(DecodeFailure::InvalidType(Expected::Object)),
        }
    }

    open spec fn decodes(&self, j: Json) -> bool {
        match j {
            Json::Object(members) => {
                &&& required_is(&self.path, members, "path"@)
                &&& flag_is(self.is_system, members, "isSystem"@)
                &&& optional_is(&self.backtrace, members, "backtrace"@)
            },
            _ => false,
        }
    }

    fn decode(v: &Value) -> (r: Result<Include, DecodeError>) {
        let record = Record::open(v)?;
        record.deny_unknown::<Include>()?;
        let path = record.required::<String>("path")?;
        let is_system = record.flag("isSystem")?;
        let backtrace = record.optional::<usize>("backtrace")?;
        Ok(Include { path, is_system, backtrace })
    }
}

/// A framework directory.
#[derive(Default, Debug, Clone, PartialEq)]
pub struct Framework {
    /// The path of the directory, with forward slashes.
    pub path: String,
    /// True where the framework is a system one.
    pub is_system: bool,
    /// Index of the backtrace node of the command that added the framework.
    pub backtrace: Option<usize>,
}

impl Schema for Framework {
    open spec fn names() -> Seq<Seq<char>> {
        seq!["path"@, "isSystem"@, "backtrace"@]
    }

    fn field_names() -> (r: &'static [&'static str]) {
        let r: &'static [&'static str] = &["path", "isSystem", "backtrace"];
        assert(names_of(r@) =~= Self::names());
        r
    }
}

impl Strict for Framework {
    proof fn lemma_unknown_member_fails(members: Seq<(Seq<char>, Json)>) {
    }
}

impl Decode for Framework {
    open spec fn failure(j: Json) -> Option<DecodeFailure> {
        match j {
            Json::Object(members) => unknown_failure(members, Self::names())
                .otherwise(required_failure::<String>(members, "path"@))
                .otherwise(flag_failure(members, "isSystem"@))
                .otherwise(optional_failure::<usize>(members, "backtrace"@)),
            _ => Some(DecodeFailure::InvalidType(Expected::Object)),
        }
    }

    open spec fn decodes(&self, j: Json) -> bool {
        match j {
            Json::Object(members) => {
                &&& required_is(&self.path, members, "path"@)
                &&& flag_is(self.is_system, members, "isSystem"@)
                &&& optional_is(&self.backtrace, members, "backtrace"@)
            },
            _ => false,
        }
    }

    fn decode(v: &Value) -> (r: Result<Framework, DecodeError>) {
        let record = Record::open(v)?;
        record.deny_unknown::<Framework>()?;
        let path = record.required::<String>("path")?;
        let is_system = record.flag("isSystem")?;
        let backtrace = record.optional::<usize>("backtrace")?;
        Ok(Framework { path, is_system, backtrace })
    }
}

/// A precompiled header.
#[derive(Default, Debug, Clone, PartialEq)]
pub struct PrecompileHeader {
    /// The full path of the header.
    pub header: String,
    /// Index of the backtrace node of the command that added the header.
    pub backtrace: Option<usize>,
}

impl Schema for PrecompileHeader {
    open spec fn names() -> Seq<Seq<char>> {
        seq!["header"@, "backtrace"@]
    }

    fn field_names() -> (r: &'static [&'static str]) {
        let r: &'static [&'static str] = &["header", "backtrace"];
        assert(names_of(r@) =~= Self::names());
        r
    }
}

impl Strict for PrecompileHeader {
    proof fn lemma_unknown_member_fails(members: Seq<(Seq<char>, Json)>) {
    }
}

impl Decode for PrecompileHeader {
    open spec fn failure(j: Json) -> Option<DecodeFailure> {
        match j {
            Json::Object(members) => unknown_failure(members, Self::names())
                .otherwise(required_failure::<String>(members, "header"@))
                .otherwise(optional_failure::<usize>(members, "backtrace"@)),
            _ => Some(DecodeFailure::InvalidType(Expected::Object)),
        }
    }

    open spec fn decodes(&self, j: Json) -> bool {
        match j {
            Json::Object(members) => {
                &&& required_is(&self.header, members, "header"@)
                &&& optional_is(&self.backtrace, members, "backtrace"@)
            },
            _ => false,
        }
    }

    fn decode(v: &Value) -> (r: Result<PrecompileHeader, DecodeError>) {
        let record = Record::open(v)?;
        record.deny_unknown::<PrecompileHeader>()?;
        let header = record.required::<String>("header")?;
        let backtrace = record.optional::<usize>("backtrace")?;
        Ok(PrecompileHeader { header, backtrace })
    }
}

/// A preprocessor definition.
#[derive(Default, Debug, Clone, PartialEq)]
pub struct Define {
    /// The definition, as `<name>` or `<name>=<value>`.
    pub define: String,
    /// Index of the backtrace node of the command that added the definition.
    pub backtrace: Option<usize>,
}

impl Schema for Define {
    open spec fn names() -> Seq<Seq<char>> {
        seq!["define"@, "backtrace"@]
    }

    fn field_names() -> (r: &'static [&'static str]) {
        let r: &'static [&'static str] = &["define", "backtrace"];
        assert(names_of(r@) =~= Self::names());
        r
    }
}

impl Strict for Define {
    proof fn lemma_unknown_member_fails(members: Seq<(Seq<char>, Json)>) {
    }
}

impl Decode for Define {
    open spec fn failure(j: Json) -> Option<DecodeFailure> {
        match j {
            Json::Object(members) => unknown_failure(members, Self::names())
                .otherwise(required_failure::<String>(members, "define"@))
                .otherwise(optional_failure::<usize>(members, "backtrace"@)),
            _ => Some(DecodeFailure::InvalidType(Expected::Object)),
        }
    }

    open spec fn decodes(&self, j: Json) -> bool {
        match j {
            Json::Object(members) => {
                &&& required_is(&self.define, members, "define"@)
                &&& optional_is(&self.backtrace, members, "backtrace"@)
            },
            _ => false,
        }
    }

    fn decode(v: &Value) -> (r: Result<Define, DecodeError>) {
        let record = Record::open(v)?;
        record.deny_unknown::<Define>()?;
        let define = record.required::<String>("define")?;
        let backtrace = record.optional::<usize>("backtrace")?;
        Ok(Define { define, backtrace })
    }
}

/// The words that `shlex::split` cuts a command line into, or `None` where
/// it finds the line malformed.
pub uninterp spec fn shell_words(line: Seq<char>) -> Option<Seq<Seq<char>>>;

/// `shlex::split`: the words of a command line by the rules of a POSIX
/// shell, or `None` for a line with an unfinished quote or escape.
#[verifier::external_body]
fn split(line: &str) -> (r: Option<Vec<String>>)
    ensures
        match r {
            Some(words) => shell_words(line@) == Some(texts(words@)),
            None => shell_words(line@) is None,
        },
{
    shlex::split(line)
}

/// A word is a definition where it begins with `/D` or `-D`.
pub open spec fn is_definition(word: Seq<char>) -> bool {
    "/D"@.is_prefix_of(word) || "-D"@.is_prefix_of(word)
}

/// The words that are no definitions, in their order.
pub open spec fn plain_flags(words: Seq<Seq<char>>) -> Seq<Seq<char>>
    decreases words.len(),
{
    if words.len() == 0 {
        Seq::empty()
    } else if is_definition(words.last()) {
        plain_flags(words.drop_last())
    } else {
        plain_flags(words.drop_last()).push(words.last())
    }
}

/// What the definitions among the words define, in their order: each
/// without its first two characters.
pub open spec fn flag_definitions(words: Seq<Seq<char>>) -> Seq<Seq<char>>
    decreases words.len(),
{
    if words.len() == 0 {
        Seq::empty()
    } else if is_definition(words.last()) {
        flag_definitions(words.drop_last()).push(words.last().skip(2))
    } else {
        flag_definitions(words.drop_last())
    }
}

/// The words of all the parts that are there, in their order.
pub open spec fn gathered(parts: Seq<Option<Seq<Seq<char>>>>) -> Seq<Seq<char>>
    decreases parts.len(),
{
    if parts.len() == 0 {
        Seq::empty()
    } else {
        match parts.last() {
            Some(words) => gathered(parts.drop_last()) + words,
            None => gathered(parts.drop_last()),
        }
    }
}

/// What splitting each fragment gives, fragment by fragment.
pub open spec fn split_each(fragments: Seq<CompileCommandFragment>) -> Seq<Option<Seq<Seq<char>>>> {
    Seq::new(fragments.len(), |i: int| shell_words(fragments[i].fragment@))
}

/// The definitions that a list of `Define` holds.
pub open spec fn definitions(defines: Seq<Define>) -> Seq<Seq<char>> {
    Seq::new(defines.len(), |i: int| defines[i].define@)
}

/// The parts as mathematical sequences.
pub open spec fn part_texts(parts: Seq<Option<Vec<String>>>) -> Seq<Option<Seq<Seq<char>>>> {
    Seq::new(
        parts.len(),
        |i: int|
            match parts[i] {
                Some(words) => Some(texts(words@)),
                None => None,
            },
    )
}

/// The words that are no definitions, in their order.
pub fn flags_among(words: &Vec<String>) -> (r: Vec<String>)
    ensures
        texts(r@) == plain_flags(texts(words@)),
{
    let mut out: Vec<String> = Vec::new();
    let mut i: usize = 0;
    assert(texts(words@).take(0) =~= Seq::empty());
    while i < words.len()
        invariant
            0 <= i <= words.len(),
            texts(out@) == plain_flags(texts(words@).take(i as int)),
        decreases words.len() - i,
    {
        proof {
            let next = texts(words@).take(i + 1);
            assert(next.drop_last() =~= texts(words@).take(i as int));
            assert(next.last() == words@[i as int]@);
        }
        if !CompileGroup::is_define(words[i].as_str()) {
            let ghost before = out@;
            out.push(words[i].clone());
            assert(texts(out@) =~= texts(before).push(words@[i as int]@));
        }
        i = i + 1;
    }
    assert(texts(words@).take(words.len() as int) =~= texts(words@));
    out
}

/// The given definitions, followed by what the definitions among the words
/// define.
pub fn defines_among(defines: &Vec<Define>, words: &Vec<String>) -> (r: Vec<String>)
    ensures
        texts(r@) == definitions(defines@) + flag_definitions(texts(words@)),
{
    let mut out: Vec<String> = Vec::new();
    let mut k: usize = 0;
    while k < defines.len()
        invariant
            0 <= k <= defines.len(),
            out@.len() == k,
            texts(out@) == definitions(defines@).take(k as int),
        decreases defines.len() - k,
    {
        let ghost before = out@;
        let define = defines[k].define.clone();
        out.push(define);
        assert forall|i: int| 0 <= i < k + 1 implies texts(out@)[i] == definitions(defines@)[i] by {
            if i < k {
                assert(texts(out@)[i] == texts(before)[i]);
                assert(definitions(defines@).take(k as int)[i] == definitions(defines@)[i]);
            }
        }
        assert(texts(out@) =~= definitions(defines@).take(k + 1));
        k = k + 1;
    }
    assert(definitions(defines@).take(defines.len() as int) =~= definitions(defines@));
    let mut i: usize = 0;
    assert(texts(words@).take(0) =~= Seq::empty());
    assert(texts(out@) =~= definitions(defines@) + flag_definitions(texts(words@).take(0)));
    while i < words.len()
        invariant
            0 <= i <= words.len(),
            texts(out@) == definitions(defines@) + flag_definitions(
                texts(words@).take(i as int),
            ),
        decreases words.len() - i,
    {
        proof {
            let next = texts(words@).take(i + 1);
            assert(next.drop_last() =~= texts(words@).take(i as int));
            assert(next.last() == words@[i as int]@);
        }
        if CompileGroup::is_define(words[i].as_str()) {
            let ghost before = out@;
            let ghost word = words@[i as int]@;
            proof {
                reveal_strlit("/D");
                reveal_strlit("-D");
                assert(word.len() >= 2);
            }
            out.push(skip_chars(words[i].as_str(), 2));
            assert(texts(out@) =~= texts(before).push(word.skip(2)));
            assert(texts(out@) =~= definitions(defines@) + flag_definitions(
                texts(words@).take(i as int),
            ).push(word.skip(2)));
        }
        i = i + 1;
    }
    assert(texts(words@).take(words.len() as int) =~= texts(words@));
    out
}

/// The words of all the parts that are there, in their order.
pub fn gather(parts: Vec<Option<Vec<String>>>) -> (r: Vec<String>)
    ensures
        texts(r@) == gathered(part_texts(parts@)),
{
    let mut parts = parts;
    let ghost all = part_texts(parts@);
    let mut out: Vec<String> = Vec::new();
    let n = parts.len();
    let mut i: usize = 0;
    assert(all.take(0) =~= Seq::empty());
    while i < n
        invariant
            0 <= i <= n,
            n == parts@.len(),
            all.len() == n,
            forall|k: int| i <= k < n ==> part_texts(parts@)[k] == all[k],
            texts(out@) == gathered(all.take(i as int)),
        decreases n - i,
    {
        proof {
            let next = all.take(i + 1);
            assert(next.drop_last() =~= all.take(i as int));
            assert(next.last() == all[i as int]);
            assert(part_texts(parts@)[i as int] == all[i as int]);
        }
        let ghost before = parts@;
        let mut part: Option<Vec<String>> = None;
        core::mem::swap(&mut part, &mut parts[i]);
        assert(part == before[i as int]);
        assert forall|k: int| i < k < n implies part_texts(parts@)[k] == all[k] by {
            assert(parts@[k] == before[k]);
            assert(part_texts(before)[k] == all[k]);
        }
        match part {
            Some(mut words) => {
                let ghost head = out@;
                let ghost tail = words@;
                out.append(&mut words);
                assert(texts(out@) =~= texts(head) + texts(tail));
            },
            None => {},
        }
        i = i + 1;
    }
    assert(all.take(n as int) =~= all);
    out
}

impl CompileGroup {
    /// The words of the command line: each compile command fragment cut
    /// into words, the words of all fragments in a row. A fragment that
    /// cannot be cut contributes nothing.
    pub open spec fn words(&self) -> Seq<Seq<char>> {
        gathered(split_each(self.compile_command_fragments@))
    }

    /// Whether a word of a command line is a definition.
    pub fn is_define(flag: &str) -> (r: bool)
        ensures
            r == is_definition(flag@),
    {
        starts_with(flag, "/D") || starts_with(flag, "-D")
    }

    /// The preprocessor definitions of the group: those it lists, followed
    /// by those that its command line passes with `/D` or `-D`.
    #[must_use]
    pub fn defines(&self) -> (r: Vec<String>)
        ensures
            texts(r@) == definitions(self.defines@) + flag_definitions(self.words()),
    {
        let words = self.compile_fragments();
        defines_among(&self.defines, &words)
    }

    /// The flags of the group: the words of its command line that are no
    /// definitions.
    #[must_use]
    pub fn flags(&self) -> (r: Vec<String>)
        ensures
            texts(r@) == plain_flags(self.words()),
    {
        let words = self.compile_fragments();
        flags_among(&words)
    }

    /// The words of the command line of the group.
    #[must_use]
    pub fn compile_fragments(&self) -> (r: Vec<String>)
        ensures
            texts(r@) == self.words(),
    {
        let mut parts: Vec<Option<Vec<String>>> = Vec::new();
        let mut i: usize = 0;
        while i < self.compile_command_fragments.len()
            invariant
                0 <= i <= self.compile_command_fragments.len(),
                parts@.len() == i,
                forall|k: int|
                    0 <= k < i ==> #[trigger] part_texts(parts@)[k] == shell_words(
                        self.compile_command_fragments@[k].fragment@,
                    ),
            decreases self.compile_command_fragments.len() - i,
        {
            let ghost before = parts@;
            let part = split(self.compile_command_fragments[i].fragment.as_str());
            parts.push(part);
            assert forall|k: int| 0 <= k < i + 1 implies #[trigger] part_texts(parts@)[k]
                == shell_words(self.compile_command_fragments@[k].fragment@) by {
                if k < i {
                    assert(parts@[k] == before[k]);
                    assert(part_texts(before)[k] == shell_words(
                        self.compile_command_fragments@[k].fragment@,
                    ));
                }
            }
            i = i + 1;
        }
        assert(part_texts(parts@) =~= split_each(self.compile_command_fragments@));
        gather(parts)
    }
}

} // verus!
