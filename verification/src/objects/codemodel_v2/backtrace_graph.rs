//! The graph of backtraces that a directory or target document carries.

use crate::decode::{
    names_of, optional_failure, optional_is, required_failure, required_is, unknown_failure,
    Decode, DecodeError, DecodeFailure, Expected, Otherwise, Record, Schema, Strict,
};
use crate::json::Json;
use serde_json::Value;
use vstd::prelude::*;

verus! {

/// A graph of backtraces. Its nodes are referred to, by index, from the `backtrace` members of the
/// document that holds the graph.
#[derive(Default, Debug, Clone, PartialEq)]
pub struct BacktraceGraph {
    /// The backtrace nodes.
    pub nodes: Vec<Node>,
    /// The command names that nodes refer to.
    pub commands: Vec<String>,
    /// The paths of the CMake language files that nodes refer to, with forward slashes; relative to
    /// the top-level source directory where the file lies inside it.
    pub files: Vec<String>,
}

impl Schema for BacktraceGraph {
    open spec fn names() -> Seq<Seq<char>> {
        seq!["nodes"@, "commands"@, "files"@]
    }

    fn field_names() -> (r: &'static [&'static str]) {
        let r: &'static [&'static str] = &["nodes", "commands", "files"];
        assert(names_of(r@) =~= Self::names());
        r
    }
}

impl Strict for BacktraceGraph {
    proof fn lemma_unknown_member_fails(members: Seq<(Seq<char>, Json)>) {
    }
}

impl Decode for BacktraceGraph {
    open spec fn failure(j: Json) -> Option<DecodeFailure> {
        match j {
            Json::Object(members) => unknown_failure(members, Self::names())
                .otherwise(required_failure::<Vec<Node>>(members, "nodes"@))
                .otherwise(required_failure::<Vec<String>>(members, "commands"@))
                .otherwise(required_failure::<Vec<String>>(members, "files"@)),
            _ => Some(DecodeFailure::InvalidType(Expected::Object)),
        }
    }

    open spec fn decodes(&self, j: Json) -> bool {
        match j {
            Json::Object(members) => {
                &&& required_is(&self.nodes, members, "nodes"@)
                &&& required_is(&self.commands, members, "commands"@)
                &&& required_is(&self.files, members, "files"@)
            },
            _ => false,
        }
    }

    fn decode(v: &Value) -> (r: Result<BacktraceGraph, DecodeError>) {
        let record = Record::open(v)?;
        record.deny_unknown::<BacktraceGraph>()?;
        let nodes = record.required::<Vec<Node>>("nodes")?;
        let commands = record.required::<Vec<String>>("commands")?;
        let files = record.required::<Vec<String>>("files")?;
        Ok(BacktraceGraph { nodes, commands, files })
    }
}

/// One frame of a backtrace.
#[derive(Default, Debug, Clone, PartialEq)]
pub struct Node {
    /// Index into the files of the graph.
    pub file: usize,
    /// The line in the file, counted from 1, where the node stands for a line.
    pub line: Option<usize>,
    /// Index into the commands of the graph, where the node stands for a command invocation.
    pub command: Option<usize>,
    /// Index of the node below this one on the call stack; absent at the bottom.
    pub parent: Option<usize>,
}

impl Schema for Node {
    open spec fn names() -> Seq<Seq<char>> {
        seq!["file"@, "line"@, "command"@, "parent"@]
    }

    fn field_names() -> (r: &'static [&'static str]) {
        let r: &'static [&'static str] = &["file", "line", "command", "parent"];
        assert(names_of(r@) =~= Self::names());
        r
    }
}

impl Strict for Node {
    proof fn lemma_unknown_member_fails(members: Seq<(Seq<char>, Json)>) {
    }
}

impl Decode for Node {
    open spec fn failure(j: Json) -> Option<DecodeFailure> {
        match j {
            Json::Object(members) => unknown_failure(members, Self::names())
                .otherwise(required_failure::<usize>(members, "file"@))
                .otherwise(optional_failure::<usize>(members, "line"@))
                .otherwise(optional_failure::<usize>(members, "command"@))
                .otherwise(optional_failure::<usize>(members, "parent"@)),
            _ => Some(DecodeFailure::InvalidType(Expected::Object)),
        }
    }

    open spec fn decodes(&self, j: Json) -> bool {
        match j {
            Json::Object(members) => {
                &&& required_is(&self.file, members, "file"@)
                &&& optional_is(&self.line, members, "line"@)
                &&& optional_is(&self.command, members, "command"@)
                &&& optional_is(&self.parent, members, "parent"@)
            },
            _ => false,
        }
    }

    fn decode(v: &Value) -> (r: Result<Node, DecodeError>) {
        let record = Record::open(v)?;
        record.deny_unknown::<Node>()?;
        let file = record.required::<usize>("file")?;
        let line = record.optional::<usize>("line")?;
        let command = record.optional::<usize>("command")?;
        let parent = record.optional::<usize>("parent")?;
        Ok(Node { file, line, command, parent })
    }
}

} // verus!
