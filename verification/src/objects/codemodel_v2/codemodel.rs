//! The root document of the build model, and the resolution of its references
//! to directory and target documents.

use super::directory::Directory;
use super::target::Target;
use crate::decode::{
    flag_failure, flag_is, listed_failure, listed_is, names_of, optional_failure, optional_is,
    required_failure, required_is, unknown_failure, Decode, DecodeError, DecodeFailure, Expected,
    Otherwise, Record, Schema, Strict,
};
use crate::json::{lookup, Json};
use crate::objects::{resolved_by, Answer, MajorMinor, Object, ObjectKind};
use crate::search::{first_where, lemma_first_where, lemma_first_where_is};
use serde_json::Value;
use vstd::prelude::*;

verus! {

/// The build model: the structure of the build system, configuration by configuration.
#[derive(Default, Debug, Clone, PartialEq)]
pub struct CodeModel {
    /// The kind of the object.
    pub kind: ObjectKind,
    /// The version of the object.
    pub version: MajorMinor,
    /// The top-level directories.
    pub paths: CodemodelPaths,
    /// The build configurations: one for a single-configuration generator, one per configuration
    /// type otherwise.
    pub configurations: Vec<Configuration>,
}

impl Schema for CodeModel {
    open spec fn names() -> Seq<Seq<char>> {
        seq!["kind"@, "version"@, "paths"@, "configurations"@]
    }

    fn field_names() -> (r: &'static [&'static str]) {
        let r: &'static [&'static str] = &["kind", "version", "paths", "configurations"];
        assert(names_of(r@) =~= Self::names());
        r
    }
}

impl Strict for CodeModel {
    proof fn lemma_unknown_member_fails(members: Seq<(Seq<char>, Json)>) {
    }
}

impl Decode for CodeModel {
    open spec fn failure(j: Json) -> Option<DecodeFailure> {
        match j {
            Json::Object(members) => unknown_failure(members, Self::names())
                .otherwise(required_failure::<ObjectKind>(members, "kind"@))
                .otherwise(required_failure::<MajorMinor>(members, "version"@))
                .otherwise(required_failure::<CodemodelPaths>(members, "paths"@))
                .otherwise(required_failure::<Vec<Configuration>>(members, "configurations"@)),
            _ => Some(DecodeFailure::InvalidType(Expected::Object)),
        }
    }

    open spec fn decodes(&self, j: Json) -> bool {
        match j {
            Json::Object(members) => {
                &&& required_is(&self.kind, members, "kind"@)
                &&& required_is(&self.version, members, "version"@)
                &&& required_is(&self.paths, members, "paths"@)
                &&& required_is(&self.configurations, members, "configurations"@)
            },
            _ => false,
        }
    }

    fn decode(v: &Value) -> (r: Result<CodeModel, DecodeError>) {
        let record = Record::open(v)?;
        record.deny_unknown::<CodeModel>()?;
        let kind = record.required::<ObjectKind>("kind")?;
        let version = record.required::<MajorMinor>("version")?;
        let paths = record.required::<CodemodelPaths>("paths")?;
        let configurations = record.required::<Vec<Configuration>>("configurations")?;
        Ok(CodeModel { kind, version, paths, configurations })
    }
}

/// The top-level directories of a build, absolute and with forward slashes.
#[derive(Default, Debug, Clone, PartialEq)]
pub struct CodemodelPaths {
    /// The top-level build directory.
    pub build: String,
    /// The top-level source directory.
    pub source: String,
}

impl Schema for CodemodelPaths {
    open spec fn names() -> Seq<Seq<char>> {
        seq!["build"@, "source"@]
    }

    fn field_names() -> (r: &'static [&'static str]) {
        let r: &'static [&'static str] = &["build", "source"];
        assert(names_of(r@) =~= Self::names());
        r
    }
}

impl Strict for CodemodelPaths {
    proof fn lemma_unknown_member_fails(members: Seq<(Seq<char>, Json)>) {
    }
}

impl Decode for CodemodelPaths {
    open spec fn failure(j: Json) -> Option<DecodeFailure> {
        match j {
            Json::Object(members) => unknown_failure(members, Self::names())
                .otherwise(required_failure::<String>(members, "build"@))
                .otherwise(required_failure::<String>(members, "source"@)),
            _ => Some(DecodeFailure::InvalidType(Expected::Object)),
        }
    }

    open spec fn decodes(&self, j: Json) -> bool {
        match j {
            Json::Object(members) => {
                &&& required_is(&self.build, members, "build"@)
                &&& required_is(&self.source, members, "source"@)
            },
            _ => false,
        }
    }

    fn decode(v: &Value) -> (r: Result<CodemodelPaths, DecodeError>) {
        let record = Record::open(v)?;
        record.deny_unknown::<CodemodelPaths>()?;
        let build = record.required::<String>("build")?;
        let source = record.required::<String>("source")?;
        Ok(CodemodelPaths { build, source })
    }
}

/// One build configuration. The references are read from the document; the directories and targets
/// are filled in afterwards, one per reference and at the same position.
#[derive(Default, Debug, Clone, PartialEq)]
pub struct Configuration {
    /// The name of the configuration, such as `Debug`.
    pub name: String,
    /// The projects; the first is the top-level one.
    pub projects: Vec<Project>,
    /// The references to the directory documents; the first is the top-level directory.
    pub directory_refs: Vec<DirectoryReference>,
    /// The references to the target documents.
    pub target_refs: Vec<TargetReference>,
    /// The directory documents that have been resolved: the one at position `i` belongs to the
    /// reference at position `i`.
    pub directories: Vec<Directory>,
    /// The target documents that have been resolved: the one at position `i` belongs to the
    /// reference at position `i`.
    pub targets: Vec<Target>,
}

impl Schema for Configuration {
    open spec fn names() -> Seq<Seq<char>> {
        seq!["name"@, "projects"@, "directories"@, "targets"@]
    }

    fn field_names() -> (r: &'static [&'static str]) {
        let r: &'static [&'static str] = &["name", "projects", "directories", "targets"];
        assert(names_of(r@) =~= Self::names());
        r
    }
}

impl Strict for Configuration {
    proof fn lemma_unknown_member_fails(members: Seq<(Seq<char>, Json)>) {
    }
}

impl Decode for Configuration {
    open spec fn failure(j: Json) -> Option<DecodeFailure> {
        match j {
            Json::Object(members) => unknown_failure(members, Self::names())
                .otherwise(required_failure::<String>(members, "name"@))
                .otherwise(required_failure::<Vec<Project>>(members, "projects"@))
                .otherwise(required_failure::<Vec<DirectoryReference>>(members, "directories"@))
                .otherwise(required_failure::<Vec<TargetReference>>(members, "targets"@)),
            _ => Some(DecodeFailure::InvalidType(Expected::Object)),
        }
    }

    open spec fn decodes(&self, j: Json) -> bool {
        match j {
            Json::Object(members) => {
                &&& required_is(&self.name, members, "name"@)
                &&& required_is(&self.projects, members, "projects"@)
                &&& required_is(&self.directory_refs, members, "directories"@)
                &&& required_is(&self.target_refs, members, "targets"@)
                &&& self.directories@.len() == 0
                &&& self.targets@.len() == 0
            },
            _ => false,
        }
    }

    fn decode(v: &Value) -> (r: Result<Configuration, DecodeError>) {
        let record = Record::open(v)?;
        record.deny_unknown::<Configuration>()?;
        let name = record.required::<String>("name")?;
        let projects = record.required::<Vec<Project>>("projects")?;
        let directory_refs = record.required::<Vec<DirectoryReference>>("directories")?;
        let target_refs = record.required::<Vec<TargetReference>>("targets")?;
        let directories: Vec<Directory> = Vec::new();
        let targets: Vec<Target> = Vec::new();
        Ok(Configuration { name, projects, directory_refs, target_refs, directories, targets })
    }
}

/// A reference to a directory document, with a summary of the directory.
#[derive(Default, Debug, Clone, PartialEq)]
pub struct DirectoryReference {
    /// The source directory, with forward slashes; relative to the top-level source directory where
    /// it lies inside it.
    pub source: String,
    /// The build directory, with forward slashes; relative to the top-level build directory where
    /// it lies inside it.
    pub build: String,
    /// Index of the parent directory among the references; absent for the top-level directory.
    pub parent_index: Option<usize>,
    /// Indexes of the subdirectories among the references.
    pub child_indexes: Vec<usize>,
    /// Index of the project that the directory belongs to.
    pub project_index: usize,
    /// Indexes of the targets that the directory itself holds.
    pub target_indexes: Vec<usize>,
    /// The minimum version of CMake that the directory asks for, where one is known.
    pub minimum_cmake_version: Option<MinimumCmakeVersion>,
    /// True where the directory or one of its subdirectories has an `install()` rule.
    pub has_install_rule: bool,
    /// The path of the directory document, relative to the reply directory.
    pub json_file: String,
}

impl Schema for DirectoryReference {
    open spec fn names() -> Seq<Seq<char>> {
        seq![
            "source"@, "build"@, "parentIndex"@, "childIndexes"@, "projectIndex"@, "targetIndexes"@,
            "minimumCMakeVersion"@, "hasInstallRule"@, "jsonFile"@,
        ]
    }

    fn field_names() -> (r: &'static [&'static str]) {
        let r: &'static [&'static str] = &[
            "source", "build", "parentIndex", "childIndexes", "projectIndex", "targetIndexes",
            "minimumCMakeVersion", "hasInstallRule", "jsonFile",
        ];
        assert(names_of(r@) =~= Self::names());
        r
    }
}

impl Strict for DirectoryReference {
    proof fn lemma_unknown_member_fails(members: Seq<(Seq<char>, Json)>) {
    }
}

impl Decode for DirectoryReference {
    open spec fn failure(j: Json) -> Option<DecodeFailure> {
        match j {
            Json::Object(members) => unknown_failure(members, Self::names())
                .otherwise(required_failure::<String>(members, "source"@))
                .otherwise(required_failure::<String>(members, "build"@))
                .otherwise(optional_failure::<usize>(members, "parentIndex"@))
                .otherwise(listed_failure::<usize>(members, "childIndexes"@))
                .otherwise(required_failure::<usize>(members, "projectIndex"@))
                .otherwise(listed_failure::<usize>(members, "targetIndexes"@))
                .otherwise(
                    optional_failure::<MinimumCmakeVersion>(members, "minimumCMakeVersion"@),
                )
                .otherwise(flag_failure(members, "hasInstallRule"@))
                .otherwise(required_failure::<String>(members, "jsonFile"@)),
            _ => Some(DecodeFailure::InvalidType(Expected::Object)),
        }
    }

    open spec fn decodes(&self, j: Json) -> bool {
        match j {
            Json::Object(members) => {
                &&& required_is(&self.source, members, "source"@)
                &&& required_is(&self.build, members, "build"@)
                &&& optional_is(&self.parent_index, members, "parentIndex"@)
                &&& listed_is(&self.child_indexes, members, "childIndexes"@)
                &&& required_is(&self.project_index, members, "projectIndex"@)
                &&& listed_is(&self.target_indexes, members, "targetIndexes"@)
                &&& optional_is(&self.minimum_cmake_version, members, "minimumCMakeVersion"@)
                &&& flag_is(self.has_install_rule, members, "hasInstallRule"@)
                &&& required_is(&self.json_file, members, "jsonFile"@)
            },
            _ => false,
        }
    }

    fn decode(v: &Value) -> (r: Result<DirectoryReference, DecodeError>) {
        let record = Record::open(v)?;
        record.deny_unknown::<DirectoryReference>()?;
        let source = record.required::<String>("source")?;
        let build = record.required::<String>("build")?;
        let parent_index = record.optional::<usize>("parentIndex")?;
        let child_indexes = record.listed::<usize>("childIndexes")?;
        let project_index = record.required::<usize>("projectIndex")?;
        let target_indexes = record.listed::<usize>("targetIndexes")?;
        let minimum_cmake_version = record.optional::<MinimumCmakeVersion>("minimumCMakeVersion")?;
        let has_install_rule = record.flag("hasInstallRule")?;
        let json_file = record.required::<String>("jsonFile")?;
        Ok(DirectoryReference {
            source,
            build,
            parent_index,
            child_indexes,
            project_index,
            target_indexes,
            minimum_cmake_version,
            has_install_rule,
            json_file,
        })
    }
}

/// A minimum version of CMake.
#[derive(Default, Debug, Clone, PartialEq)]
pub struct MinimumCmakeVersion {
    /// The version, as `<major>.<minor>[.<patch>[.<tweak>]][<suffix>]`.
    pub version: String,
}

impl Schema for MinimumCmakeVersion {
    open spec fn names() -> Seq<Seq<char>> {
        seq!["string"@]
    }

    fn field_names() -> (r: &'static [&'static str]) {
        let r: &'static [&'static str] = &["string"];
        assert(names_of(r@) =~= Self::names());
        r
    }
}

impl Strict for MinimumCmakeVersion {
    proof fn lemma_unknown_member_fails(members: Seq<(Seq<char>, Json)>) {
    }
}

impl Decode for MinimumCmakeVersion {
    open spec fn failure(j: Json) -> Option<DecodeFailure> {
        match j {
            Json::Object(members) => unknown_failure(members, Self::names())
                .otherwise(required_failure::<String>(members, "string"@)),
            _ => Some(DecodeFailure::InvalidType(Expected::Object)),
        }
    }

    open spec fn decodes(&self, j: Json) -> bool {
        match j {
            Json::Object(members) => {
                &&& required_is(&self.version, members, "string"@)
            },
            _ => false,
        }
    }

    fn decode(v: &Value) -> (r: Result<MinimumCmakeVersion, DecodeError>) {
        let record = Record::open(v)?;
        record.deny_unknown::<MinimumCmakeVersion>()?;
        let version = record.required::<String>("string")?;
        Ok(MinimumCmakeVersion { version })
    }
}

/// A project of the build system.
#[derive(Default, Debug, Clone, PartialEq)]
pub struct Project {
    /// The name given to `project()`.
    pub name: String,
    /// Index of the parent project; absent for the top-level project.
    pub parent_index: Option<usize>,
    /// Indexes of the subprojects.
    pub child_indexes: Vec<usize>,
    /// Indexes of the directories of the project; the first is its top-level directory.
    pub directory_indexes: Vec<usize>,
    /// Indexes of the targets that the project itself holds.
    pub target_indexes: Vec<usize>,
}

impl Schema for Project {
    open spec fn names() -> Seq<Seq<char>> {
        seq!["name"@, "parentIndex"@, "childIndexes"@, "directoryIndexes"@, "targetIndexes"@]
    }

    fn field_names() -> (r: &'static [&'static str]) {
        let r: &'static [&'static str] = &[
            "name", "parentIndex", "childIndexes", "directoryIndexes", "targetIndexes",
        ];
        assert(names_of(r@) =~= Self::names());
        r
    }
}

impl Strict for Project {
    proof fn lemma_unknown_member_fails(members: Seq<(Seq<char>, Json)>) {
    }
}

impl Decode for Project {
    open spec fn failure(j: Json) -> Option<DecodeFailure> {
        match j {
            Json::Object(members) => unknown_failure(members, Self::names())
                .otherwise(required_failure::<String>(members, "name"@))
                .otherwise(optional_failure::<usize>(members, "parentIndex"@))
                .otherwise(listed_failure::<usize>(members, "childIndexes"@))
                .otherwise(required_failure::<Vec<usize>>(members, "directoryIndexes"@))
                .otherwise(listed_failure::<usize>(members, "targetIndexes"@)),
            _ => Some(DecodeFailure::InvalidType(Expected::Object)),
        }
    }

    open spec fn decodes(&self, j: Json) -> bool {
        match j {
            Json::Object(members) => {
                &&& required_is(&self.name, members, "name"@)
                &&& optional_is(&self.parent_index, members, "parentIndex"@)
                &&& listed_is(&self.child_indexes, members, "childIndexes"@)
                &&& required_is(&self.directory_indexes, members, "directoryIndexes"@)
                &&& listed_is(&self.target_indexes, members, "targetIndexes"@)
            },
            _ => false,
        }
    }

    fn decode(v: &Value) -> (r: Result<Project, DecodeError>) {
        let record = Record::open(v)?;
        record.deny_unknown::<Project>()?;
        let name = record.required::<String>("name")?;
        let parent_index = record.optional::<usize>("parentIndex")?;
        let child_indexes = record.listed::<usize>("childIndexes")?;
        let directory_indexes = record.required::<Vec<usize>>("directoryIndexes")?;
        let target_indexes = record.listed::<usize>("targetIndexes")?;
        Ok(Project { name, parent_index, child_indexes, directory_indexes, target_indexes })
    }
}

/// A reference to a target document, with a summary of the target.
#[derive(Default, Debug, Clone, PartialEq)]
pub struct TargetReference {
    /// The name of the target.
    pub name: String,
    /// A string that identifies the target; the target document carries the same.
    pub id: String,
    /// Index of the directory in which the target is defined.
    pub directory_index: usize,
    /// Index of the project in which the target is defined.
    pub project_index: usize,
    /// The path of the target document, relative to the reply directory.
    pub json_file: String,
}

impl Schema for TargetReference {
    open spec fn names() -> Seq<Seq<char>> {
        seq!["name"@, "id"@, "directoryIndex"@, "projectIndex"@, "jsonFile"@]
    }

    fn field_names() -> (r: &'static [&'static str]) {
        let r: &'static [&'static str] = &[
            "name", "id", "directoryIndex", "projectIndex", "jsonFile",
        ];
        assert(names_of(r@) =~= Self::names());
        r
    }
}

impl Strict for TargetReference {
    proof fn lemma_unknown_member_fails(members: Seq<(Seq<char>, Json)>) {
    }
}

impl Decode for TargetReference {
    open spec fn failure(j: Json) -> Option<DecodeFailure> {
        match j {
            Json::Object(members) => unknown_failure(members, Self::names())
                .otherwise(required_failure::<String>(members, "name"@))
                .otherwise(required_failure::<String>(members, "id"@))
                .otherwise(required_failure::<usize>(members, "directoryIndex"@))
                .otherwise(required_failure::<usize>(members, "projectIndex"@))
                .otherwise(required_failure::<String>(members, "jsonFile"@)),
            _ => Some(DecodeFailure::InvalidType(Expected::Object)),
        }
    }

    open spec fn decodes(&self, j: Json) -> bool {
        match j {
            Json::Object(members) => {
                &&& required_is(&self.name, members, "name"@)
                &&& required_is(&self.id, members, "id"@)
                &&& required_is(&self.directory_index, members, "directoryIndex"@)
                &&& required_is(&self.project_index, members, "projectIndex"@)
                &&& required_is(&self.json_file, members, "jsonFile"@)
            },
            _ => false,
        }
    }

    fn decode(v: &Value) -> (r: Result<TargetReference, DecodeError>) {
        let record = Record::open(v)?;
        record.deny_unknown::<TargetReference>()?;
        let name = record.required::<String>("name")?;
        let id = record.required::<String>("id")?;
        let directory_index = record.required::<usize>("directoryIndex")?;
        let project_index = record.required::<usize>("projectIndex")?;
        let json_file = record.required::<String>("jsonFile")?;
        Ok(TargetReference { name, id, directory_index, project_index, json_file })
    }
}

impl Configuration {
    /// The path of the document that the configuration waits for: that of
    /// the first target reference without a target, else that of the first
    /// directory reference without a directory.
    pub open spec fn pending(&self) -> Option<Seq<char>> {
        if self.targets@.len() < self.target_refs@.len() {
            Some(self.target_refs@[self.targets@.len() as int].json_file@)
        } else if self.directories@.len() < self.directory_refs@.len() {
            Some(self.directory_refs@[self.directories@.len() as int].json_file@)
        } else {
            None
        }
    }

    /// That the configuration waits for a target document.
    pub open spec fn awaits_target(&self) -> bool {
        self.targets@.len() < self.target_refs@.len()
    }

    /// No list of resolved documents is longer than the list of references
    /// that it belongs to.
    pub open spec fn consistent(&self) -> bool {
        &&& self.targets@.len() <= self.target_refs@.len()
        &&& self.directories@.len() <= self.directory_refs@.len()
    }

    /// Every reference has its document.
    pub open spec fn resolved(&self) -> bool {
        &&& self.targets@.len() == self.target_refs@.len()
        &&& self.directories@.len() == self.directory_refs@.len()
    }

    /// That the target at position `p` is read from a document that was
    /// handed over in answer to the path of the target reference at `p`.
    pub open spec fn answers_target(&self, answers: Seq<Answer>, p: int) -> bool {
        exists|k: int|
            0 <= k < answers.len() && answers[k].path == self.target_refs@[p].json_file@
                && self.targets@[p].decodes(#[trigger] answers[k].document)
    }

    /// That the directory at position `p` is read from a document that was
    /// handed over in answer to the path of the directory reference at `p`.
    pub open spec fn answers_directory(&self, answers: Seq<Answer>, p: int) -> bool {
        exists|k: int|
            0 <= k < answers.len() && answers[k].path == self.directory_refs@[p].json_file@
                && self.directories@[p].decodes(#[trigger] answers[k].document)
    }

    /// That every target and every directory of the configuration is read
    /// from a document that was handed over in answer to the path of the
    /// reference at the same position.
    pub open spec fn answered_by(&self, answers: Seq<Answer>) -> bool {
        &&& forall|p: int| 0 <= p < self.targets@.len() ==> self.answers_target(answers, p)
        &&& forall|p: int|
            0 <= p < self.directories@.len() ==> self.answers_directory(answers, p)
    }

    /// That `after` is `self` with the document that `self` waits for read
    /// from `j` and put behind those already resolved.
    pub open spec fn resolves_to(&self, after: &Configuration, j: Json) -> bool {
        &&& after.name == self.name
        &&& after.projects == self.projects
        &&& after.directory_refs == self.directory_refs
        &&& after.target_refs == self.target_refs
        &&& if self.awaits_target() {
            &&& after.directories == self.directories
            &&& after.targets@.len() == self.targets@.len() + 1
            &&& after.targets@.drop_last() == self.targets@
            &&& after.targets@.last().decodes(j)
        } else {
            &&& after.targets == self.targets
            &&& after.directories@.len() == self.directories@.len() + 1
            &&& after.directories@.drop_last() == self.directories@
            &&& after.directories@.last().decodes(j)
        }
    }
}

/// The position of the first configuration that waits for a document; the
/// number of configurations where none does.
pub open spec fn first_pending(configurations: Seq<Configuration>) -> int {
    first_where(configurations, |configuration: Configuration| configuration.pending() is Some)
}

/// `first_pending` is the position before which no configuration waits and
/// at which, if it is one, a configuration does.
pub proof fn lemma_first_pending(configurations: Seq<Configuration>)
    ensures
        0 <= first_pending(configurations) <= configurations.len(),
        forall|k: int|
            0 <= k < first_pending(configurations) ==> (#[trigger] configurations[k]).pending()
                is None,
        first_pending(configurations) < configurations.len() ==> configurations[first_pending(
            configurations,
        )].pending() is Some,
{
    lemma_first_where(
        configurations,
        |configuration: Configuration| configuration.pending() is Some,
    );
}

/// A position before which no configuration waits and at which one does is
/// `first_pending`; so is the number of configurations where none waits.
pub proof fn lemma_first_pending_is(configurations: Seq<Configuration>, i: int)
    requires
        0 <= i <= configurations.len(),
        forall|k: int| 0 <= k < i ==> (#[trigger] configurations[k]).pending() is None,
        i < configurations.len() ==> configurations[i].pending() is Some,
    ensures
        first_pending(configurations) == i,
{
    lemma_first_where_is(
        configurations,
        |configuration: Configuration| configuration.pending() is Some,
        i,
    );
}

impl CodeModel {
    /// No list of resolved documents is longer than the list of references
    /// that it belongs to.
    pub open spec fn consistent(&self) -> bool {
        forall|i: int|
            0 <= i < self.configurations@.len() ==> (
            #[trigger] self.configurations@[i]).consistent()
    }

    /// Every reference of every configuration has its document.
    pub open spec fn resolved(&self) -> bool {
        forall|i: int|
            0 <= i < self.configurations@.len() ==> (#[trigger] self.configurations@[i]).resolved()
    }

    /// A build model as it is read from its document has no resolved
    /// documents yet, so none too many.
    pub proof fn lemma_decoded_is_consistent(&self, j: Json)
        requires
            self.decodes(j),
        ensures
            self.consistent(),
            forall|i: int|
                0 <= i < self.configurations@.len() ==> (
                #[trigger] self.configurations@[i]).targets@.len() == 0
                    && self.configurations@[i].directories@.len() == 0,
    {
        let members = j->Object_0;
        let list = lookup(members, "configurations"@)->0;
        let items = list->Array_0;
        assert forall|i: int| 0 <= i < self.configurations@.len() implies (
        #[trigger] self.configurations@[i]).targets@.len() == 0
            && self.configurations@[i].directories@.len() == 0 by {
            assert(self.configurations@[i].decodes(items[i]));
        }
    }

    /// Resolving a reference keeps the lists of resolved documents within
    /// the lists of references.
    pub proof fn lemma_resolving_keeps_consistent(&self, after: &CodeModel, j: Json)
        requires
            self.consistent(),
            self.pending() is Some,
            self.resolves_to(after, j),
        ensures
            after.consistent(),
    {
        lemma_first_pending(self.configurations@);
        let at = first_pending(self.configurations@);
        assert forall|i: int| 0 <= i < after.configurations@.len() implies (
        #[trigger] after.configurations@[i]).consistent() by {
            assert(self.configurations@[i].consistent());
            if i != at {
                assert(after.configurations@[i] == self.configurations@[i]);
            }
        }
    }

    /// A build model that holds no document too many and waits for none has,
    /// in each configuration, exactly one target per target reference and
    /// one directory per directory reference.
    pub proof fn lemma_complete_when_nothing_pending(&self)
        requires
            self.consistent(),
            self.pending() is None,
        ensures
            self.resolved(),
    {
        lemma_first_pending(self.configurations@);
        assert forall|i: int| 0 <= i < self.configurations@.len() implies (
        #[trigger] self.configurations@[i]).resolved() by {
            assert(self.configurations@[i].consistent());
            assert(self.configurations@[i].pending() is None);
        }
    }

    /// Resolving documents changes no reference and no configuration's
    /// name or projects, and keeps the lists of resolved documents within
    /// the lists of references.
    pub proof fn lemma_resolution_keeps_references(
        &self,
        answers: Seq<Answer>,
        after: &CodeModel,
    )
        requires
            self.consistent(),
            resolved_by(*self, answers, *after),
        ensures
            after.consistent(),
            after.configurations@.len() == self.configurations@.len(),
            forall|i: int|
                0 <= i < self.configurations@.len() ==> {
                    let before = #[trigger] self.configurations@[i];
                    let now = after.configurations@[i];
                    &&& now.name == before.name
                    &&& now.projects == before.projects
                    &&& now.target_refs == before.target_refs
                    &&& now.directory_refs == before.directory_refs
                },
        decreases answers.len(),
    {
        if answers.len() > 0 {
            let middle = choose|middle: CodeModel|
                {
                    &&& resolved_by(*self, answers.drop_last(), middle)
                    &&& middle.pending() == Some(answers.last().path)
                    &&& #[trigger] middle.resolves_to(after, answers.last().document)
                };
            self.lemma_resolution_keeps_references(answers.drop_last(), &middle);
            middle.lemma_resolving_keeps_consistent(after, answers.last().document);
            lemma_first_pending(middle.configurations@);
            let at = first_pending(middle.configurations@);
            assert forall|i: int| 0 <= i < self.configurations@.len() implies {
                let before = #[trigger] self.configurations@[i];
                let now = after.configurations@[i];
                &&& now.name == before.name
                &&& now.projects == before.projects
                &&& now.target_refs == before.target_refs
                &&& now.directory_refs == before.directory_refs
            } by {
                if i != at {
                    assert(after.configurations@[i] == middle.configurations@[i]);
                }
            }
        }
    }

    /// A build model that is read from its document and then handed
    /// documents until it waits for none has, in each configuration, the
    /// references it was read with, one target per target reference and one
    /// directory per directory reference.
    pub proof fn lemma_resolution_is_complete(
        &self,
        j: Json,
        answers: Seq<Answer>,
        after: &CodeModel,
    )
        requires
            self.decodes(j),
            resolved_by(*self, answers, *after),
            after.pending() is None,
        ensures
            after.configurations@.len() == self.configurations@.len(),
            forall|i: int|
                0 <= i < self.configurations@.len() ==> {
                    let before = #[trigger] self.configurations@[i];
                    let now = after.configurations@[i];
                    &&& now.target_refs == before.target_refs
                    &&& now.directory_refs == before.directory_refs
                    &&& now.targets@.len() == before.target_refs@.len()
                    &&& now.directories@.len() == before.directory_refs@.len()
                },
    {
        self.lemma_decoded_is_consistent(j);
        self.lemma_resolution_keeps_references(answers, after);
        after.lemma_complete_when_nothing_pending();
        assert forall|i: int| 0 <= i < self.configurations@.len() implies {
            let before = #[trigger] self.configurations@[i];
            let now = after.configurations@[i];
            &&& now.target_refs == before.target_refs
            &&& now.directory_refs == before.directory_refs
            &&& now.targets@.len() == before.target_refs@.len()
            &&& now.directories@.len() == before.directory_refs@.len()
        } by {
            assert(after.configurations@[i].resolved());
        }
    }

    /// That every target and every directory of the build model is read from
    /// one of `answers`: from a document that was handed over in answer to
    /// the path of the reference at the same position.
    pub open spec fn answered_by(&self, answers: Seq<Answer>) -> bool {
        forall|i: int|
            0 <= i < self.configurations@.len() ==> (
            #[trigger] self.configurations@[i]).answered_by(answers)
    }

    /// In a build model that is read from its document and then handed
    /// documents, every resolved target and directory stands at the position
    /// of the reference whose path its document answered.
    pub proof fn lemma_resolution_matches_positions(
        &self,
        j: Json,
        answers: Seq<Answer>,
        after: &CodeModel,
    )
        requires
            self.decodes(j),
            resolved_by(*self, answers, *after),
        ensures
            after.answered_by(answers),
        decreases answers.len(),
    {
        self.lemma_decoded_is_consistent(j);
        if answers.len() == 0 {
            assert forall|i: int| 0 <= i < after.configurations@.len() implies (
            #[trigger] after.configurations@[i]).answered_by(answers) by {}
        } else {
            let middle = choose|middle: CodeModel|
                {
                    &&& resolved_by(*self, answers.drop_last(), middle)
                    &&& middle.pending() == Some(answers.last().path)
                    &&& #[trigger] middle.resolves_to(after, answers.last().document)
                };
            let earlier = answers.drop_last();
            let last = answers.len() - 1;
            self.lemma_resolution_matches_positions(j, earlier, &middle);
            self.lemma_resolution_keeps_references(earlier, &middle);
            lemma_first_pending(middle.configurations@);
            let at = first_pending(middle.configurations@);
            assert forall|i: int| 0 <= i < after.configurations@.len() implies (
            #[trigger] after.configurations@[i]).answered_by(answers) by {
                let before = middle.configurations@[i];
                let now = after.configurations@[i];
                assert(before.answered_by(earlier));
                assert(before.consistent());
                assert forall|p: int| 0 <= p < now.targets@.len() implies now.answers_target(
                    answers,
                    p,
                ) by {
                    if i == at && before.awaits_target() && p == before.targets@.len() {
                        assert(answers[last].path == now.target_refs@[p].json_file@);
                        assert(now.targets@[p].decodes(answers[last].document));
                    } else {
                        if i == at && before.awaits_target() {
                            assert(now.targets@[p] == now.targets@.drop_last()[p]);
                        }
                        assert(now.targets@[p] == before.targets@[p]);
                        assert(before.answers_target(earlier, p));
                        let k = choose|k: int|
                            0 <= k < earlier.len() && earlier[k].path
                                == before.target_refs@[p].json_file@
                                && before.targets@[p].decodes(#[trigger] earlier[k].document);
                        assert(answers[k] == earlier[k]);
                    }
                }
                assert forall|p: int|
                    0 <= p < now.directories@.len() implies now.answers_directory(answers, p) by {
                    if i == at && !before.awaits_target() && p == before.directories@.len() {
                        assert(answers[last].path == now.directory_refs@[p].json_file@);
                        assert(now.directories@[p].decodes(answers[last].document));
                    } else {
                        if i == at && !before.awaits_target() {
                            assert(now.directories@[p] == now.directories@.drop_last()[p]);
                        }
                        assert(now.directories@[p] == before.directories@[p]);
                        assert(before.answers_directory(earlier, p));
                        let k = choose|k: int|
                            0 <= k < earlier.len() && earlier[k].path
                                == before.directory_refs@[p].json_file@
                                && before.directories@[p].decodes(#[trigger] earlier[k].document);
                        assert(answers[k] == earlier[k]);
                    }
                }
            }
        }
    }

    /// The document that resolves a reference lands at the position of that
    /// reference: the path that was pending is the path of the reference
    /// that stands where the new target or directory stands.
    pub proof fn lemma_resolved_at_matching_position(&self, after: &CodeModel, j: Json)
        requires
            self.pending() is Some,
            self.resolves_to(after, j),
        ensures
            ({
                let at = first_pending(self.configurations@);
                let before = self.configurations@[at];
                let now = after.configurations@[at];
                if before.awaits_target() {
                    let position = before.targets@.len() as int;
                    &&& now.targets@.len() == position + 1
                    &&& now.targets@[position].decodes(j)
                    &&& self.pending() == Some(now.target_refs@[position].json_file@)
                } else {
                    let position = before.directories@.len() as int;
                    &&& now.directories@.len() == position + 1
                    &&& now.directories@[position].decodes(j)
                    &&& self.pending() == Some(now.directory_refs@[position].json_file@)
                }
            }),
    {
        lemma_first_pending(self.configurations@);
    }
}

impl Object for CodeModel {
    open spec fn object_kind() -> ObjectKind {
        ObjectKind::CodeModel
    }

    open spec fn object_major() -> u32 {
        2
    }

    open spec fn pending(&self) -> Option<Seq<char>> {
        let at = first_pending(self.configurations@);
        if at < self.configurations@.len() {
            self.configurations@[at].pending()
        } else {
            None
        }
    }

    open spec fn reference_failure(&self, j: Json) -> Option<DecodeFailure> {
        if self.configurations@[first_pending(self.configurations@)].awaits_target() {
            Target::failure(j)
        } else {
            Directory::failure(j)
        }
    }

    open spec fn resolves_to(&self, after: &CodeModel, j: Json) -> bool {
        let at = first_pending(self.configurations@);
        &&& after.kind == self.kind
        &&& after.version == self.version
        &&& after.paths == self.paths
        &&& after.configurations@.len() == self.configurations@.len()
        &&& forall|k: int|
            0 <= k < self.configurations@.len() && k != at ==> after.configurations@[k]
                == self.configurations@[k]
        &&& self.configurations@[at].resolves_to(&after.configurations@[at], j)
    }

    fn kind() -> (k: ObjectKind) {
        ObjectKind::CodeModel
    }

    fn major() -> (m: u32) {
        2
    }

    fn next_reference(&self) -> (r: Option<&str>) {
        let mut i: usize = 0;
        while i < self.configurations.len()
            invariant
                0 <= i <= self.configurations.len(),
                forall|k: int|
                    0 <= k < i ==> (#[trigger] self.configurations@[k]).pending() is None,
            decreases self.configurations.len() - i,
        {
            let configuration = &self.configurations[i];
            let targets = configuration.targets.len();
            let directories = configuration.directories.len();
            if targets < configuration.target_refs.len() {
                proof {
                    lemma_first_pending_is(self.configurations@, i as int);
                }
                return Some(configuration.target_refs[targets].json_file.as_str());
            }
            if directories < configuration.directory_refs.len() {
                proof {
                    lemma_first_pending_is(self.configurations@, i as int);
                }
                return Some(configuration.directory_refs[directories].json_file.as_str());
            }
            i = i + 1;
        }
        proof {
            lemma_first_pending_is(self.configurations@, i as int);
        }
        None
    }

    fn resolve_reference(self, v: &Value) -> (r: Result<CodeModel, DecodeError>) {
        let mut model = self;
        let mut i: usize = 0;
        while i < model.configurations.len()
            invariant
                model == self,
                0 <= i <= model.configurations.len(),
                forall|k: int|
                    0 <= k < i ==> (#[trigger] self.configurations@[k]).pending() is None,
            decreases model.configurations.len() - i,
        {
            if model.configurations[i].targets.len() < model.configurations[i].target_refs.len() {
                proof {
                    lemma_first_pending_is(self.configurations@, i as int);
                }
                let target = Target::decode(v)?;
                model.configurations[i].targets.push(target);
                assert(model.configurations@[i as int].targets@.drop_last()
                    =~= self.configurations@[i as int].targets@);
                return Ok(model);
            }
            if model.configurations[i].directories.len()
                < model.configurations[i].directory_refs.len() {
                proof {
                    lemma_first_pending_is(self.configurations@, i as int);
                }
                let directory = Directory::decode(v)?;
                model.configurations[i].directories.push(directory);
                assert(model.configurations@[i as int].directories@.drop_last()
                    =~= self.configurations@[i as int].directories@);
                return Ok(model);
            }
            i = i + 1;
        }
        proof {
            lemma_first_pending_is(self.configurations@, i as int);
        }
        Ok(model)
    }
}

} // verus!
