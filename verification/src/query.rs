//! Writing queries: the requests of a client, the files that carry them,
//! and what those files hold.
//!
//! Nothing here touches the file system. [`Writer::write_stateless`] and
//! [`Writer::write_stateful`] say which directory is to be made and which
//! files are to be written with what content; the caller does the writing.

use crate::json::{
    array, distinct_names, error_text, json_of, json_text, lookup, named_trees, null, number,
    object, string, to_text, Json, Number,
};
use crate::objects::{
    CMakeFilesV1, CacheV2, CodeModelV2, ConfigureLogV1, Object, ObjectKind, ToolchainsV1,
};
use crate::reply::io_error_text;
use crate::text::{decimal, join, joined, to_decimal};
use serde_json::Value;
use vstd::prelude::*;
use vstd::std_specs::convert::FromSpecImpl;

verus! {

/// Why a query could not be written.
#[derive(Debug)]
#[non_exhaustive]
pub enum WriterError {
    /// A directory or file could not be written.
    IO(std::io::Error),
    /// The query could not be put into JSON.
    Parse(serde_json::Error),
    /// A stateful query was asked for before the client was named.
    ClientNameNotSet,
}

impl WriterError {
    /// The error in words. An error of the file system or of the serializer
    /// is worded by the one that met it, behind a prefix of this library.
    pub fn message(&self) -> (r: String)
        ensures
            match self {
                WriterError::IO(_) => "IO error: "@.is_prefix_of(r@),
                WriterError::Parse(_) => "Failed to serialize query: "@.is_prefix_of(r@),
                WriterError::ClientNameNotSet => r@ == "Client name not set"@,
            },
    {
        match self {
            WriterError::IO(e) => {
                let mut out = "IO error: ".to_owned();
                out.append(io_error_text(e).as_str());
                out
            },
            WriterError::Parse(e) => {
                let mut out = "Failed to serialize query: ".to_owned();
                out.append(error_text(e).as_str());
                out
            },
            WriterError::ClientNameNotSet => "Client name not set".to_owned(),
        }
    }
}

impl From<std::io::Error> for WriterError {
    fn from(err: std::io::Error) -> (r: WriterError) {
        WriterError::IO(err)
    }
}

impl FromSpecImpl<std::io::Error> for WriterError {
    open spec fn obeys_from_spec() -> bool {
        true
    }

    open spec fn from_spec(err: std::io::Error) -> WriterError {
        WriterError::IO(err)
    }
}

impl From<serde_json::Error> for WriterError {
    fn from(err: serde_json::Error) -> (r: WriterError) {
        WriterError::Parse(err)
    }
}

impl FromSpecImpl<serde_json::Error> for WriterError {
    open spec fn obeys_from_spec() -> bool {
        true
    }

    open spec fn from_spec(err: serde_json::Error) -> WriterError {
        WriterError::Parse(err)
    }
}

/// The version that a request asks for: a major version, and a minor one
/// where the client wants to name it.
#[derive(Default, Debug, Clone, Copy, PartialEq, Eq)]
pub struct OptionalVersion {
    /// The major version.
    pub major: u32,
    /// The minor version, where the client names one.
    pub minor: Option<u32>,
}

/// A request for one object.
#[derive(Default, Debug, Clone, Copy, PartialEq, Eq)]
pub struct Request {
    /// The kind of the object.
    pub kind: ObjectKind,
    /// The version of the object.
    pub version: OptionalVersion,
}

/// A file that is to be written.
#[derive(Default, Debug, Clone, PartialEq, Eq)]
pub struct QueryFile {
    /// The path of the file.
    pub path: String,
    /// What the file holds.
    pub content: String,
}

/// What writing a query comes to: a directory to be made, with the
/// directories above it, and the files to be written.
#[derive(Default, Debug, Clone, PartialEq, Eq)]
pub struct QueryFiles {
    /// The directory that holds the files.
    pub directory: String,
    /// The files, in the order of the requests.
    pub files: Vec<QueryFile>,
}

/// The requests of a client, and the data it wants echoed.
pub struct Writer {
    requests: Vec<Request>,
    client: Option<Value>,
    client_name: Option<String>,
}

/// The query directory of a build directory.
pub open spec fn query_dir(build_dir: Seq<char>) -> Seq<char> {
    joined(joined(joined(joined(build_dir, ".cmake"@), "api"@), "v1"@), "query"@)
}

/// The query directory of a build directory: `.cmake/api/v1/query` below it.
pub fn dir(build_dir: &str) -> (r: String)
    ensures
        r@ == query_dir(build_dir@),
{
    let cmake = join(build_dir, ".cmake");
    let api = join(cmake.as_str(), "api");
    let v1 = join(api.as_str(), "v1");
    join(v1.as_str(), "query")
}

/// Below a build directory that is named without a slash at its end, the
/// query directory is the name of the build directory followed by
/// `/.cmake/api/v1/query`.
pub proof fn lemma_query_dir_of_plain_name(build_dir: Seq<char>)
    requires
        build_dir.len() > 0,
        build_dir.last() != '/',
    ensures
        query_dir(build_dir) == build_dir + "/.cmake/api/v1/query"@,
{
    reveal_strlit(".cmake");
    reveal_strlit("api");
    reveal_strlit("v1");
    reveal_strlit("query");
    reveal_strlit("/.cmake/api/v1/query");
    let cmake = joined(build_dir, ".cmake"@);
    let api = joined(cmake, "api"@);
    let v1 = joined(api, "v1"@);
    assert(cmake =~= build_dir + seq!['/'] + ".cmake"@);
    assert(api =~= cmake + seq!['/'] + "api"@);
    assert(v1 =~= api + seq!['/'] + "v1"@);
    assert(query_dir(build_dir) =~= v1 + seq!['/'] + "query"@);
    assert(query_dir(build_dir) =~= build_dir + "/.cmake/api/v1/query"@);
}

/// The request for the object `T` in the major version that this library
/// reads, with the minor version `minor` where one is given.
pub open spec fn request_for<T: Object>(minor: Option<u32>) -> Request {
    Request {
        kind: T::object_kind(),
        version: OptionalVersion { major: T::object_major(), minor },
    }
}

/// The name of the file that asks for a kind in a major version, without a
/// client: the name of the kind, `-v`, and the version in decimal.
pub open spec fn stateless_name(request: Request) -> Seq<char> {
    request.kind.tag() + "-v"@ + decimal(request.version.major as nat)
}

/// That `j` spells a version: the major version, and the minor one exactly
/// where it is given.
pub open spec fn spells_version(j: Json, version: OptionalVersion) -> bool {
    match j {
        Json::Object(members) => {
            &&& lookup(members, "major"@) == Some(
                Json::Number(Number::Unsigned(version.major as u64)),
            )
            &&& lookup(members, "minor"@) == match version.minor {
                Some(minor) => Some(Json::Number(Number::Unsigned(minor as u64))),
                None => None,
            }
            &&& forall|key: Seq<char>|
                key != "major"@ && key != "minor"@ ==> #[trigger] lookup(members, key) is None
        },
        _ => false,
    }
}

/// That `j` spells a request: its kind by name, and its version.
pub open spec fn spells_request(j: Json, request: Request) -> bool {
    match j {
        Json::Object(members) => {
            &&& lookup(members, "kind"@) == Some(Json::String(request.kind.tag()))
            &&& lookup(members, "version"@) is Some
            &&& spells_version(lookup(members, "version"@)->0, request.version)
            &&& forall|key: Seq<char>|
                key != "kind"@ && key != "version"@ ==> #[trigger] lookup(members, key) is None
        },
        _ => false,
    }
}

/// That `j` spells a query: the requests in their order, and the data of
/// the client, or `null` where there is none.
pub open spec fn spells_query(j: Json, requests: Seq<Request>, client: Option<Json>) -> bool {
    match j {
        Json::Object(members) => {
            &&& lookup(members, "requests"@) is Some
            &&& lookup(members, "requests"@)->0 is Array
            &&& lookup(members, "requests"@)->0->Array_0.len() == requests.len()
            &&& forall|i: int|
                0 <= i < requests.len() ==> spells_request(
                    #[trigger] lookup(members, "requests"@)->0->Array_0[i],
                    requests[i],
                )
            &&& lookup(members, "client"@) == Some(
                match client {
                    Some(data) => data,
                    None => Json::Null,
                },
            )
            &&& forall|key: Seq<char>|
                key != "requests"@ && key != "client"@ ==> #[trigger] lookup(members, key)
                    is None
        },
        _ => false,
    }
}

/// The document that spells a version.
fn version_document(version: OptionalVersion) -> (r: Value)
    ensures
        spells_version(json_of(r), version),
{
    let mut members: Vec<(String, Value)> = Vec::new();
    members.push(("major".to_owned(), number(version.major)));
    match version.minor {
        Some(minor) => {
            members.push(("minor".to_owned(), number(minor)));
        },
        None => {},
    }
    proof {
        reveal_strlit("major");
        reveal_strlit("minor");
        assert("major"@[1] != "minor"@[1]);
        reveal_with_fuel(lookup, 3);
    }
    object(members)
}

/// The document that spells a request.
fn request_document(request: &Request) -> (r: Value)
    ensures
        spells_request(json_of(r), *request),
{
    let mut members: Vec<(String, Value)> = Vec::new();
    members.push(("kind".to_owned(), string(request.kind.as_str())));
    members.push(("version".to_owned(), version_document(request.version)));
    proof {
        reveal_strlit("kind");
        reveal_strlit("version");
        assert("kind"@.len() != "version"@.len());
        reveal_with_fuel(lookup, 3);
    }
    object(members)
}

impl Default for Writer {
    fn default() -> (r: Writer)
        ensures
            r.requests().len() == 0,
            r.client() is None,
            r.client_name() is None,
    {
        Writer { requests: Vec::new(), client: None, client_name: None }
    }
}

impl Writer {
    /// The requests, in the order in which they were made.
    pub closed spec fn requests(&self) -> Seq<Request> {
        self.requests@
    }

    /// The data of the client.
    pub closed spec fn client(&self) -> Option<Value> {
        self.client
    }

    /// The name of the client.
    pub closed spec fn client_name(&self) -> Option<Seq<char>> {
        match self.client_name {
            Some(name) => Some(name@),
            None => None,
        }
    }

    /// The data of the client as a tree.
    pub open spec fn client_tree(&self) -> Option<Json> {
        match self.client() {
            Some(data) => Some(json_of(data)),
            None => None,
        }
    }

    /// Asks for the object `T`, in the major version that this library
    /// reads.
    pub fn request_object<T: Object>(&mut self) -> (r: &mut Self)
        ensures
            r.requests() == old(self).requests().push(request_for::<T>(None)),
            r.client() == old(self).client(),
            r.client_name() == old(self).client_name(),
            *final(self) == *final(r),
    {
        self.requests.push(
            Request {
                kind: T::kind(),
                version: OptionalVersion { major: T::major(), minor: None },
            },
        );
        self
    }

    /// Asks for the object `T` in the major version that this library reads
    /// and in the minor version `minor`. Only a stateful query carries the
    /// minor version.
    pub fn add_request_exact<T: Object>(&mut self, minor: u32) -> (r: &mut Self)
        ensures
            r.requests() == old(self).requests().push(request_for::<T>(Some(minor))),
            r.client() == old(self).client(),
            r.client_name() == old(self).client_name(),
            *final(self) == *final(r),
    {
        self.requests.push(
            Request {
                kind: T::kind(),
                version: OptionalVersion { major: T::major(), minor: Some(minor) },
            },
        );
        self
    }

    /// Asks for every object that this library reads: the build model, the
    /// configure log, the cache, the toolchains and the CMake files, in this
    /// order.
    pub fn request_all_objects(&mut self) -> (r: &mut Self)
        ensures
            r.requests() == old(self).requests().push(request_for::<CodeModelV2>(None)).push(
                request_for::<ConfigureLogV1>(None),
            ).push(request_for::<CacheV2>(None)).push(request_for::<ToolchainsV1>(None)).push(
                request_for::<CMakeFilesV1>(None),
            ),
            r.client() == old(self).client(),
            r.client_name() == old(self).client_name(),
            *final(self) == *final(r),
    {
        self.request_object::<CodeModelV2>().request_object::<ConfigureLogV1>().request_object::<
            CacheV2,
        >().request_object::<ToolchainsV1>().request_object::<CMakeFilesV1>()
    }

    /// Names the client and sets the data that CMake echoes to it. Only a
    /// stateful query carries them.
    pub fn set_client(&mut self, client_name: &str, client_data: Value) -> (r: &mut Self)
        ensures
            r.requests() == old(self).requests(),
            r.client() == Some(client_data),
            r.client_name() == Some(client_name@),
            *final(self) == *final(r),
    {
        self.client = Some(client_data);
        self.client_name = Some(client_name.to_owned());
        self
    }

    /// The files of a stateless query: one empty file per request, named
    /// after the kind and the major version, in the query directory.
    pub fn write_stateless(&self, build_dir: &str) -> (r: QueryFiles)
        ensures
            r.directory@ == query_dir(build_dir@),
            r.files@.len() == self.requests().len(),
            forall|i: int|
                0 <= i < r.files@.len() ==> (#[trigger] r.files@[i]).path@ == joined(
                    query_dir(build_dir@),
                    stateless_name(self.requests()[i]),
                ) && r.files@[i].content@.len() == 0,
    {
        let directory = dir(build_dir);
        let mut files: Vec<QueryFile> = Vec::new();
        let mut i: usize = 0;
        while i < self.requests.len()
            invariant
                0 <= i <= self.requests.len(),
                directory@ == query_dir(build_dir@),
                files@.len() == i,
                forall|k: int|
                    0 <= k < i ==> (#[trigger] files@[k]).path@ == joined(
                        query_dir(build_dir@),
                        stateless_name(self.requests()[k]),
                    ) && files@[k].content@.len() == 0,
            decreases self.requests.len() - i,
        {
            let request = &self.requests[i];
            let mut name = request.kind.as_str().to_owned();
            name.append("-v");
            name.append(to_decimal(request.version.major).as_str());
            let path = join(directory.as_str(), name.as_str());
            files.push(QueryFile { path, content: String::new() });
            i = i + 1;
        }
        QueryFiles { directory, files }
    }

    /// The document of a stateful query.
    pub fn document(&self) -> (r: Value)
        ensures
            spells_query(json_of(r), self.requests(), self.client_tree()),
    {
        let mut items: Vec<Value> = Vec::new();
        let mut i: usize = 0;
        while i < self.requests.len()
            invariant
                0 <= i <= self.requests.len(),
                items@.len() == i,
                forall|k: int|
                    0 <= k < i ==> spells_request(json_of(#[trigger] items@[k]), self.requests@[k]),
            decreases self.requests.len() - i,
        {
            items.push(request_document(&self.requests[i]));
            i = i + 1;
        }
        let client = match &self.client {
            Some(data) => data.clone(),
            None => null(),
        };
        let ghost trees = items@.map_values(|e: Value| json_of(e));
        let mut members: Vec<(String, Value)> = Vec::new();
        members.push(("requests".to_owned(), array(items)));
        members.push(("client".to_owned(), client));
        proof {
            reveal_strlit("requests");
            reveal_strlit("client");
            assert("requests"@.len() != "client"@.len());
            reveal_with_fuel(lookup, 3);
            assert forall|k: int| 0 <= k < self.requests@.len() implies spells_request(
                #[trigger] trees[k],
                self.requests@[k],
            ) by {}
        }
        object(members)
    }

    /// The file of a stateful query: `query.json` in the directory of the
    /// client, below the query directory, holding the document of the query.
    pub fn write_stateful(&self, build_dir: &str) -> (r: Result<QueryFiles, WriterError>)
        ensures
            match self.client_name() {
                None => r matches Err(WriterError::ClientNameNotSet),
                Some(name) => match r {
                    Ok(plan) => {
                        &&& plan.directory@ == joined(query_dir(build_dir@), name)
                        &&& plan.files@.len() == 1
                        &&& plan.files@[0].path@ == joined(plan.directory@, "query.json"@)
                        &&& exists|j: Json|
                            spells_query(j, self.requests(), self.client_tree()) && json_text(j)
                                == Some(plan.files@[0].content@)
                    },
                    Err(WriterError::Parse(_)) => exists|j: Json|
                        spells_query(j, self.requests(), self.client_tree()) && json_text(j)
                            is None,
                    Err(_) => false,
                },
            },
    {
        let name = match &self.client_name {
            Some(name) => name,
            None => {
                return Err(WriterError::ClientNameNotSet);
            },
        };
        let query = dir(build_dir);
        let directory = join(query.as_str(), name.as_str());
        let path = join(directory.as_str(), "query.json");
        let document = self.document();
        match to_text(&document) {
            Ok(content) => {
                let mut files: Vec<QueryFile> = Vec::new();
                files.push(QueryFile { path, content });
                Ok(QueryFiles { directory, files })
            },
            Err(e) => Err(WriterError::Parse(e)),
        }
    }
}

} // verus!
