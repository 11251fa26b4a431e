//! The build model: the root document and the directory and target
//! documents that it refers to.

pub mod backtrace_graph;
pub mod codemodel;
pub mod directory;
pub mod target;

pub use backtrace_graph::{BacktraceGraph, Node};
pub use codemodel::{
    CodeModel, CodemodelPaths, Configuration, DirectoryReference, MinimumCmakeVersion, Project,
    TargetReference,
};
pub use directory::{
    Directory, DirectoryPaths, FromToPaths, InstallPath, Installer, TargetIdAndIndex,
};
pub use target::{
    Archive, Artifact, CommandFragment, CompileCommandFragment, CompileGroup, Define, Dependency,
    Destination, FileSet, Folder, Framework, Include, Install, LanguageStandard, Launcher, Link,
    PrecompileHeader, Prefix, Source, SourceGroup, SysRootPath, Target, TargetPaths,
};
