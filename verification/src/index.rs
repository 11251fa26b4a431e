//! The index of a reply.

use crate::decode::{
    decode_map, distinct_labels, map_failure, map_is, names_of, optional_failure, optional_is,
    required_failure, required_is, unknown_failure, Decode, DecodeError, DecodeFailure, Expected,
    Otherwise, Record, Schema, Strict,
};
use crate::json::Json;
use crate::objects::{MajorMinor, ObjectKind};
use crate::text::same_text;
use serde_json::Value;
use vstd::prelude::*;

verus! {

/// The index of a reply: the CMake that wrote it, the objects it holds, and the answer to each
/// query.
#[derive(Default, Debug, Clone, PartialEq)]
pub struct Index {
    /// The instance of CMake that wrote the reply.
    pub cmake: CMake,
    /// The objects of the reply, each in a file of its own.
    pub objects: Vec<ReplyFileReference>,
    /// The answers to the queries, each under the name of its query.
    pub reply: Replies<ReplyField>,
}

impl Schema for Index {
    open spec fn names() -> Seq<Seq<char>> {
        seq!["cmake"@, "objects"@, "reply"@]
    }

    fn field_names() -> (r: &'static [&'static str]) {
        let r: &'static [&'static str] = &["cmake", "objects", "reply"];
        assert(names_of(r@) =~= Self::names());
        r
    }
}

impl Strict for Index {
    proof fn lemma_unknown_member_fails(members: Seq<(Seq<char>, Json)>) {
    }
}

impl Decode for Index {
    open spec fn failure(j: Json) -> Option<DecodeFailure> {
        match j {
            Json::Object(members) => unknown_failure(members, Self::names())
                .otherwise(required_failure::<CMake>(members, "cmake"@))
                .otherwise(required_failure::<Vec<ReplyFileReference>>(members, "objects"@))
                .otherwise(required_failure::<Replies<ReplyField>>(members, "reply"@)),
            _ => Some(DecodeFailure::InvalidType(Expected::Object)),
        }
    }

    open spec fn decodes(&self, j: Json) -> bool {
        match j {
            Json::Object(members) => {
                &&& required_is(&self.cmake, members, "cmake"@)
                &&& required_is(&self.objects, members, "objects"@)
                &&& required_is(&self.reply, members, "reply"@)
            },
            _ => false,
        }
    }

    fn decode(v: &Value) -> (r: Result<Index, DecodeError>) {
        let record = Record::open(v)?;
        record.deny_unknown::<Index>()?;
        let cmake = record.required::<CMake>("cmake")?;
        let objects = record.required::<Vec<ReplyFileReference>>("objects")?;
        let reply = record.required::<Replies<ReplyField>>("reply")?;
        Ok(Index { cmake, objects, reply })
    }
}

/// The instance of CMake that wrote a reply.
#[derive(Default, Debug, Clone, PartialEq)]
pub struct CMake {
    /// The version of CMake.
    pub version: CMakeVersion,
    /// Where the parts of CMake lie.
    pub paths: CMakePaths,
    /// The generator that the build uses.
    pub generator: CMakeGenerator,
}

impl Schema for CMake {
    open spec fn names() -> Seq<Seq<char>> {
        seq!["version"@, "paths"@, "generator"@]
    }

    fn field_names() -> (r: &'static [&'static str]) {
        let r: &'static [&'static str] = &["version", "paths", "generator"];
        assert(names_of(r@) =~= Self::names());
        r
    }
}

impl Strict for CMake {
    proof fn lemma_unknown_member_fails(members: Seq<(Seq<char>, Json)>) {
    }
}

impl Decode for CMake {
    open spec fn failure(j: Json) -> Option<DecodeFailure> {
        match j {
            Json::Object(members) => unknown_failure(members, Self::names())
                .otherwise(required_failure::<CMakeVersion>(members, "version"@))
                .otherwise(required_failure::<CMakePaths>(members, "paths"@))
                .otherwise(required_failure::<CMakeGenerator>(members, "generator"@)),
            _ => Some(DecodeFailure::InvalidType(Expected::Object)),
        }
    }

    open spec fn decodes(&self, j: Json) -> bool {
        match j {
            Json::Object(members) => {
                &&& required_is(&self.version, members, "version"@)
                &&& required_is(&self.paths, members, "paths"@)
                &&& required_is(&self.generator, members, "generator"@)
            },
            _ => false,
        }
    }

    fn decode(v: &Value) -> (r: Result<CMake, DecodeError>) {
        let record = Record::open(v)?;
        record.deny_unknown::<CMake>()?;
        let version = record.required::<CMakeVersion>("version")?;
        let paths = record.required::<CMakePaths>("paths")?;
        let generator = record.required::<CMakeGenerator>("generator")?;
        Ok(CMake { version, paths, generator })
    }
}

/// A version of CMake.
#[derive(Default, Debug, Clone, PartialEq)]
pub struct CMakeVersion {
    /// The major version.
    pub major: i32,
    /// The minor version.
    pub minor: i32,
    /// The patch level.
    pub patch: i32,
    /// The suffix of the version, such as `g0abc3`; empty where there is none.
    pub suffix: String,
    /// The full version, as `<major>.<minor>.<patch>[-<suffix>]`.
    pub string: String,
    /// True where CMake was built from a source tree with local changes.
    pub is_dirty: bool,
}

impl Schema for CMakeVersion {
    open spec fn names() -> Seq<Seq<char>> {
        seq!["major"@, "minor"@, "patch"@, "suffix"@, "string"@, "isDirty"@]
    }

    fn field_names() -> (r: &'static [&'static str]) {
        let r: &'static [&'static str] = &[
            "major", "minor", "patch", "suffix", "string", "isDirty",
        ];
        assert(names_of(r@) =~= Self::names());
        r
    }
}

impl Strict for CMakeVersion {
    proof fn lemma_unknown_member_fails(members: Seq<(Seq<char>, Json)>) {
    }
}

impl Decode for CMakeVersion {
    open spec fn failure(j: Json) -> Option<DecodeFailure> {
        match j {
            Json::Object(members) => unknown_failure(members, Self::names())
                .otherwise(required_failure::<i32>(members, "major"@))
                .otherwise(required_failure::<i32>(members, "minor"@))
                .otherwise(required_failure::<i32>(members, "patch"@))
                .otherwise(required_failure::<String>(members, "suffix"@))
                .otherwise(required_failure::<String>(members, "string"@))
                .otherwise(required_failure::<bool>(members, "isDirty"@)),
            _ => Some(DecodeFailure::InvalidType(Expected::Object)),
        }
    }

    open spec fn decodes(&self, j: Json) -> bool {
        match j {
            Json::Object(members) => {
                &&& required_is(&self.major, members, "major"@)
                &&& required_is(&self.minor, members, "minor"@)
                &&& required_is(&self.patch, members, "patch"@)
                &&& required_is(&self.suffix, members, "suffix"@)
                &&& required_is(&self.string, members, "string"@)
                &&& required_is(&self.is_dirty, members, "isDirty"@)
            },
            _ => false,
        }
    }

    fn decode(v: &Value) -> (r: Result<CMakeVersion, DecodeError>) {
        let record = Record::open(v)?;
        record.deny_unknown::<CMakeVersion>()?;
        let major = record.required::<i32>("major")?;
        let minor = record.required::<i32>("minor")?;
        let patch = record.required::<i32>("patch")?;
        let suffix = record.required::<String>("suffix")?;
        let string = record.required::<String>("string")?;
        let is_dirty = record.required::<bool>("isDirty")?;
        Ok(CMakeVersion { major, minor, patch, suffix, string, is_dirty })
    }
}

/// Where the parts of a CMake installation lie, as absolute paths.
#[derive(Default, Debug, Clone, PartialEq)]
pub struct CMakePaths {
    /// The `cmake` tool.
    pub cmake: String,
    /// The `ctest` tool.
    pub ctest: String,
    /// The `cpack` tool.
    pub cpack: String,
    /// The directory that holds the resources of CMake, such as its modules.
    pub root: String,
}

impl Schema for CMakePaths {
    open spec fn names() -> Seq<Seq<char>> {
        seq!["cmake"@, "ctest"@, "cpack"@, "root"@]
    }

    fn field_names() -> (r: &'static [&'static str]) {
        let r: &'static [&'static str] = &["cmake", "ctest", "cpack", "root"];
        assert(names_of(r@) =~= Self::names());
        r
    }
}

impl Strict for CMakePaths {
    proof fn lemma_unknown_member_fails(members: Seq<(Seq<char>, Json)>) {
    }
}

impl Decode for CMakePaths {
    open spec fn failure(j: Json) -> Option<DecodeFailure> {
        match j {
            Json::Object(members) => unknown_failure(members, Self::names())
                .otherwise(required_failure::<String>(members, "cmake"@))
                .otherwise(required_failure::<String>(members, "ctest"@))
                .otherwise(required_failure::<String>(members, "cpack"@))
                .otherwise(required_failure::<String>(members, "root"@)),
            _ => Some(DecodeFailure::InvalidType(Expected::Object)),
        }
    }

    open spec fn decodes(&self, j: Json) -> bool {
        match j {
            Json::Object(members) => {
                &&& required_is(&self.cmake, members, "cmake"@)
                &&& required_is(&self.ctest, members, "ctest"@)
                &&& required_is(&self.cpack, members, "cpack"@)
                &&& required_is(&self.root, members, "root"@)
            },
            _ => false,
        }
    }

    fn decode(v: &Value) -> (r: Result<CMakePaths, DecodeError>) {
        let record = Record::open(v)?;
        record.deny_unknown::<CMakePaths>()?;
        let cmake = record.required::<String>("cmake")?;
        let ctest = record.required::<String>("ctest")?;
        let cpack = record.required::<String>("cpack")?;
        let root = record.required::<String>("root")?;
        Ok(CMakePaths { cmake, ctest, cpack, root })
    }
}

/// The generator of a build.
#[derive(Default, Debug, Clone, PartialEq)]
pub struct CMakeGenerator {
    /// True where the generator supports several configurations at once.
    pub multi_config: bool,
    /// The name of the generator.
    pub name: String,
    /// The platform of the generator, where it supports one.
    pub platform: Option<String>,
}

impl Schema for CMakeGenerator {
    open spec fn names() -> Seq<Seq<char>> {
        seq!["multiConfig"@, "name"@, "platform"@]
    }

    fn field_names() -> (r: &'static [&'static str]) {
        let r: &'static [&'static str] = &["multiConfig", "name", "platform"];
        assert(names_of(r@) =~= Self::names());
        r
    }
}

impl Strict for CMakeGenerator {
    proof fn lemma_unknown_member_fails(members: Seq<(Seq<char>, Json)>) {
    }
}

impl Decode for CMakeGenerator {
    open spec fn failure(j: Json) -> Option<DecodeFailure> {
        match j {
            Json::Object(members) => unknown_failure(members, Self::names())
                .otherwise(required_failure::<bool>(members, "multiConfig"@))
                .otherwise(required_failure::<String>(members, "name"@))
                .otherwise(optional_failure::<String>(members, "platform"@)),
            _ => Some(DecodeFailure::InvalidType(Expected::Object)),
        }
    }

    open spec fn decodes(&self, j: Json) -> bool {
        match j {
            Json::Object(members) => {
                &&& required_is(&self.multi_config, members, "multiConfig"@)
                &&& required_is(&self.name, members, "name"@)
                &&& optional_is(&self.platform, members, "platform"@)
            },
            _ => false,
        }
    }

    fn decode(v: &Value) -> (r: Result<CMakeGenerator, DecodeError>) {
        let record = Record::open(v)?;
        record.deny_unknown::<CMakeGenerator>()?;
        let multi_config = record.required::<bool>("multiConfig")?;
        let name = record.required::<String>("name")?;
        let platform = record.optional::<String>("platform")?;
        Ok(CMakeGenerator { multi_config, name, platform })
    }
}

/// A reference to an object of the reply.
#[derive(Default, Debug, Clone, PartialEq)]
pub struct ReplyFileReference {
    /// The kind of the object.
    pub kind: ObjectKind,
    /// The version of the object.
    pub version: MajorMinor,
    /// The path of the file that holds the object, relative to the reply directory.
    pub json_file: String,
}

impl Schema for ReplyFileReference {
    open spec fn names() -> Seq<Seq<char>> {
        seq!["kind"@, "version"@, "jsonFile"@]
    }

    fn field_names() -> (r: &'static [&'static str]) {
        let r: &'static [&'static str] = &["kind", "version", "jsonFile"];
        assert(names_of(r@) =~= Self::names());
        r
    }
}

impl Strict for ReplyFileReference {
    proof fn lemma_unknown_member_fails(members: Seq<(Seq<char>, Json)>) {
    }
}

impl Decode for ReplyFileReference {
    open spec fn failure(j: Json) -> Option<DecodeFailure> {
        match j {
            Json::Object(members) => unknown_failure(members, Self::names())
                .otherwise(required_failure::<ObjectKind>(members, "kind"@))
                .otherwise(required_failure::<MajorMinor>(members, "version"@))
                .otherwise(required_failure::<String>(members, "jsonFile"@)),
            _ => Some(DecodeFailure::InvalidType(Expected::Object)),
        }
    }

    open spec fn decodes(&self, j: Json) -> bool {
        match j {
            Json::Object(members) => {
                &&& required_is(&self.kind, members, "kind"@)
                &&& required_is(&self.version, members, "version"@)
                &&& required_is(&self.json_file, members, "jsonFile"@)
            },
            _ => false,
        }
    }

    fn decode(v: &Value) -> (r: Result<ReplyFileReference, DecodeError>) {
        let record = Record::open(v)?;
        record.deny_unknown::<ReplyFileReference>()?;
        let kind = record.required::<ObjectKind>("kind")?;
        let version = record.required::<MajorMinor>("version")?;
        let json_file = record.required::<String>("jsonFile")?;
        Ok(ReplyFileReference { kind, version, json_file })
    }
}

/// The answer to a query that CMake could not serve.
#[derive(Default, Debug, Clone, PartialEq)]
pub struct QueryError {
    /// What was wrong with the query.
    pub error: String,
}

impl Schema for QueryError {
    open spec fn names() -> Seq<Seq<char>> {
        seq!["error"@]
    }

    fn field_names() -> (r: &'static [&'static str]) {
        let r: &'static [&'static str] = &["error"];
        assert(names_of(r@) =~= Self::names());
        r
    }
}

impl Strict for QueryError {
    proof fn lemma_unknown_member_fails(members: Seq<(Seq<char>, Json)>) {
    }
}

impl Decode for QueryError {
    open spec fn failure(j: Json) -> Option<DecodeFailure> {
        match j {
            Json::Object(members) => unknown_failure(members, Self::names())
                .otherwise(required_failure::<String>(members, "error"@)),
            _ => Some(DecodeFailure::InvalidType(Expected::Object)),
        }
    }

    open spec fn decodes(&self, j: Json) -> bool {
        match j {
            Json::Object(members) => {
                &&& required_is(&self.error, members, "error"@)
            },
            _ => false,
        }
    }

    fn decode(v: &Value) -> (r: Result<QueryError, DecodeError>) {
        let record = Record::open(v)?;
        record.deny_unknown::<QueryError>()?;
        let error = record.required::<String>("error")?;
        Ok(QueryError { error })
    }
}

/// The answer to a `query.json` of a client. Its members are free in form and are kept as they are.
#[derive(Default, Debug, Clone, PartialEq)]
pub struct QueryJson {
    /// The data that the client put into its query.
    pub client: Option<Value>,
    /// The requests of the query, as CMake read them.
    pub requests: Option<Value>,
    /// The answers to the requests, or the error that the query as a whole met.
    pub responses: Option<Value>,
}

impl Schema for QueryJson {
    open spec fn names() -> Seq<Seq<char>> {
        seq!["client"@, "requests"@, "responses"@]
    }

    fn field_names() -> (r: &'static [&'static str]) {
        let r: &'static [&'static str] = &["client", "requests", "responses"];
        assert(names_of(r@) =~= Self::names());
        r
    }
}

impl Strict for QueryJson {
    proof fn lemma_unknown_member_fails(members: Seq<(Seq<char>, Json)>) {
    }
}

impl Decode for QueryJson {
    open spec fn failure(j: Json) -> Option<DecodeFailure> {
        match j {
            Json::Object(members) => unknown_failure(members, Self::names())
                .otherwise(optional_failure::<Value>(members, "client"@))
                .otherwise(optional_failure::<Value>(members, "requests"@))
                .otherwise(optional_failure::<Value>(members, "responses"@)),
            _ => Some(DecodeFailure::InvalidType(Expected::Object)),
        }
    }

    open spec fn decodes(&self, j: Json) -> bool {
        match j {
            Json::Object(members) => {
                &&& optional_is(&self.client, members, "client"@)
                &&& optional_is(&self.requests, members, "requests"@)
                &&& optional_is(&self.responses, members, "responses"@)
            },
            _ => false,
        }
    }

    fn decode(v: &Value) -> (r: Result<QueryJson, DecodeError>) {
        let record = Record::open(v)?;
        record.deny_unknown::<QueryJson>()?;
        let client = record.optional::<Value>("client")?;
        let requests = record.optional::<Value>("requests")?;
        let responses = record.optional::<Value>("responses")?;
        Ok(QueryJson { client, requests, responses })
    }
}

/// Values under labels: what a JSON object holds where its members are not
/// fixed in advance.
///
/// The entries stand in the order in which the parser's map hands the
/// members out. That is the map's own order, by label, and not the order in
/// which the document wrote them. As read from a document, no two entries
/// have the same label.
#[derive(Default, Debug, Clone, PartialEq)]
pub struct Replies<T> {
    /// The labels with their values.
    pub entries: Vec<(String, T)>,
}

impl<T> Replies<T> {
    /// No label occurs twice.
    pub open spec fn well_formed(&self) -> bool {
        distinct_labels(self.entries@)
    }

    /// Where no label occurs twice, an entry is the only one with its label:
    /// it is the one that looking up its label finds.
    pub proof fn lemma_label_finds_its_entry(&self, i: int)
        requires
            self.well_formed(),
            0 <= i < self.entries@.len(),
        ensures
            self.unlabelled_before(self.entries@[i].0@, i),
            forall|k: int|
                0 <= k < self.entries@.len() && (#[trigger] self.entries@[k]).0@
                    == self.entries@[i].0@ ==> k == i,
    {
        assert forall|k: int|
            0 <= k < self.entries@.len() && (#[trigger] self.entries@[k]).0@
                == self.entries@[i].0@ implies k == i by {
            if k < i {
                assert(self.entries@[k].0@ != self.entries@[i].0@);
            } else if i < k {
                assert(self.entries@[i].0@ != self.entries@[k].0@);
            }
        }
    }

    /// No entry of the first `n` has the label `label`.
    pub open spec fn unlabelled_before(&self, label: Seq<char>, n: int) -> bool {
        forall|k: int| 0 <= k < n ==> (#[trigger] self.entries@[k]).0@ != label
    }

    /// The value of the first entry with the label `label`.
    pub fn get(&self, label: &str) -> (r: Option<&T>)
        ensures
            match r {
                Some(value) => exists|i: int|
                    0 <= i < self.entries@.len() && self.unlabelled_before(label@, i)
                        && self.entries@[i].0@ == label@ && self.entries@[i].1 == *value,
                None => self.unlabelled_before(label@, self.entries@.len() as int),
            },
    {
        let mut i: usize = 0;
        while i < self.entries.len()
            invariant
                0 <= i <= self.entries.len(),
                self.unlabelled_before(label@, i as int),
            decreases self.entries.len() - i,
        {
            if same_text(self.entries[i].0.as_str(), label) {
                return Some(&self.entries[i].1);
            }
            i = i + 1;
        }
        None
    }
}

impl<T: Decode> Decode for Replies<T> {
    open spec fn failure(j: Json) -> Option<DecodeFailure> {
        map_failure::<T>(j)
    }

    open spec fn decodes(&self, j: Json) -> bool {
        map_is(self.entries@, j)
    }

    fn decode(v: &Value) -> (r: Result<Replies<T>, DecodeError>) {
        let entries = decode_map::<T>(v)?;
        Ok(Replies { entries })
    }
}

/// One answer inside the reply to a client: an error, a reference to an
/// object, or the answer to the client's `query.json`. Which one it is shows
/// in its shape alone; the shapes are tried in this order.
#[derive(Debug, Clone, PartialEq)]
#[non_exhaustive]
pub enum ClientField {
    Error(QueryError),
    ReplyFileReference(ReplyFileReference),
    QueryJson(QueryJson),
}

impl Decode for ClientField {
    open spec fn failure(j: Json) -> Option<DecodeFailure> {
        if QueryError::failure(j) is None || ReplyFileReference::failure(j) is None
            || QueryJson::failure(j) is None {
            None
        } else {
            Some(DecodeFailure::NoMatchingShape)
        }
    }

    open spec fn decodes(&self, j: Json) -> bool {
        match self {
            ClientField::Error(error) => error.decodes(j),
            ClientField::ReplyFileReference(reference) => {
                &&& QueryError::failure(j) is Some
                &&& reference.decodes(j)
            },
            ClientField::QueryJson(query) => {
                &&& QueryError::failure(j) is Some
                &&& ReplyFileReference::failure(j) is Some
                &&& query.decodes(j)
            },
        }
    }

    fn decode(v: &Value) -> (r: Result<ClientField, DecodeError>) {
        if let Ok(error) = QueryError::decode(v) {
            return Ok(ClientField::Error(error));
        }
        if let Ok(reference) = ReplyFileReference::decode(v) {
            return Ok(ClientField::ReplyFileReference(reference));
        }
        if let Ok(query) = QueryJson::decode(v) {
            return Ok(ClientField::QueryJson(query));
        }
        Err(DecodeError::NoMatchingShape)
    }
}

/// One answer of a reply: an error, a reference to an object, the answers to
/// a client, or nothing. Which one it is shows in its shape alone; the
/// shapes are tried in this order, and nothing is what `null` stands for.
#[derive(Default, Debug, Clone, PartialEq)]
#[non_exhaustive]
pub enum ReplyField {
    Error(QueryError),
    ReplyFileReference(ReplyFileReference),
    Client(Replies<ClientField>),
    #[default]
    Unknown,
}

impl Decode for ReplyField {
    open spec fn failure(j: Json) -> Option<DecodeFailure> {
        if QueryError::failure(j) is None || ReplyFileReference::failure(j) is None || Replies::<
            ClientField,
        >::failure(j) is None || j is Null {
            None
        } else {
            Some(DecodeFailure::NoMatchingShape)
        }
    }

    open spec fn decodes(&self, j: Json) -> bool {
        match self {
            ReplyField::Error(error) => error.decodes(j),
            ReplyField::ReplyFileReference(reference) => {
                &&& QueryError::failure(j) is Some
                &&& reference.decodes(j)
            },
            ReplyField::Client(answers) => {
                &&& QueryError::failure(j) is Some
                &&& ReplyFileReference::failure(j) is Some
                &&& answers.decodes(j)
            },
            ReplyField::Unknown => {
                &&& QueryError::failure(j) is Some
                &&& ReplyFileReference::failure(j) is Some
                &&& Replies::<ClientField>::failure(j) is Some
                &&& j is Null
            },
        }
    }

    fn decode(v: &Value) -> (r: Result<ReplyField, DecodeError>) {
        if let Ok(error) = QueryError::decode(v) {
            return Ok(ReplyField::Error(error));
        }
        if let Ok(reference) = ReplyFileReference::decode(v) {
            return Ok(ReplyField::ReplyFileReference(reference));
        }
        if let Ok(answers) = Replies::<ClientField>::decode(v) {
            return Ok(ReplyField::Client(answers));
        }
        if v.is_null() {
            return Ok(ReplyField::Unknown);
        }
        Err(DecodeError::NoMatchingShape)
    }
}

} // verus!
