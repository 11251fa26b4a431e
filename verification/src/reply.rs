//! Locating a reply, reading its index, and loading its objects.
//!
//! Nothing here touches the file system. The caller lists the reply
//! directory and reads the files that the library names; the library decides
//! which file is the index, which file holds an object, which documents an
//! object still waits for, and what every outcome means.

use crate::decode::{from_text, text_decodes, text_failure, Decode, DecodeError, DecodeFailure};
use crate::index::{Index, ReplyFileReference};
use crate::json::{json_document, json_of};
use crate::objects::{lemma_resolved_by_one_more, resolved_by, Answer, Object, ObjectKind};
use crate::search::{first_where, lemma_first_where_is};
use crate::text::{
    comes_before, join, joined, lemma_precedes_irreflexive, lemma_precedes_transitive,
    sorts_before, starts_with,
};
use vstd::prelude::*;
use vstd::std_specs::convert::FromSpecImpl;
use vstd::utf8::encode_utf8;

verus! {

/// `std::io::Error`, the error of a read or a write. It is carried to the
/// caller and never looked into.
#[verifier::external_type_specification]
#[verifier::external_body]
pub struct ExIoError(std::io::Error);

/// Why a reply could not be read.
#[derive(Debug)]
#[non_exhaustive]
pub enum ReaderError {
    /// A file could not be read.
    IO(std::io::Error),
    /// A file does not hold the document that it should.
    Parse(DecodeError),
    /// The build directory has no reply directory: CMake has not answered
    /// any query there.
    FileApiNotGenerated,
    /// The reply holds no object of the kind and major version asked for, or
    /// the reply directory holds no index.
    ObjectNotFound,
}

/// `Display` of `std::io::Error`: the words of the system for the error.
#[verifier::external_body]
pub(crate) fn io_error_text(error: &std::io::Error) -> String {
    error.to_string()
}

impl ReaderError {
    /// The error in words. An error of the file system or of the parser is
    /// worded by the one that met it, behind a prefix of this library.
    pub fn message(&self) -> (r: String)
        ensures
            match self {
                ReaderError::IO(_) => "IO error: "@.is_prefix_of(r@),
                ReaderError::Parse(e) => {
                    &&& "Failed to deserialize reply: "@.is_prefix_of(r@)
                    &&& !(e is Syntax) ==> r@ == "Failed to deserialize reply: "@ + e@.message()
                },
                ReaderError::FileApiNotGenerated => r@
                    == "cmake-file-api is not generated for this build directory"@,
                ReaderError::ObjectNotFound => r@ == "failed to find object"@,
            },
    {
        match self {
            ReaderError::IO(e) => {
                let mut out = "IO error: ".to_owned();
                out.append(io_error_text(e).as_str());
                out
            },
            ReaderError::Parse(e) => {
                let mut out = "Failed to deserialize reply: ".to_owned();
                out.append(e.message().as_str());
                out
            },
            ReaderError::FileApiNotGenerated => {
                "cmake-file-api is not generated for this build directory".to_owned()
            },
            ReaderError::ObjectNotFound => "failed to find object".to_owned(),
        }
    }
}

impl From<std::io::Error> for ReaderError {
    fn from(err: std::io::Error) -> (r: ReaderError) {
        ReaderError::IO(err)
    }
}

impl FromSpecImpl<std::io::Error> for ReaderError {
    open spec fn obeys_from_spec() -> bool {
        true
    }

    open spec fn from_spec(err: std::io::Error) -> ReaderError {
        ReaderError::IO(err)
    }
}

impl From<serde_json::Error> for ReaderError {
    fn from(err: serde_json::Error) -> (r: ReaderError) {
        ReaderError::Parse(DecodeError::Syntax(err))
    }
}

impl FromSpecImpl<serde_json::Error> for ReaderError {
    open spec fn obeys_from_spec() -> bool {
        true
    }

    open spec fn from_spec(err: serde_json::Error) -> ReaderError {
        ReaderError::Parse(DecodeError::Syntax(err))
    }
}

impl From<DecodeError> for ReaderError {
    fn from(err: DecodeError) -> (r: ReaderError) {
        ReaderError::Parse(err)
    }
}

impl FromSpecImpl<DecodeError> for ReaderError {
    open spec fn obeys_from_spec() -> bool {
        true
    }

    open spec fn from_spec(err: DecodeError) -> ReaderError {
        ReaderError::Parse(err)
    }
}

/// One entry of a directory, as a listing shows it.
#[derive(Default, Debug, Clone, PartialEq, Eq)]
pub struct DirEntry {
    /// The name of the entry, without the directory.
    pub file_name: String,
    /// Whether the entry is a regular file.
    pub is_file: bool,
}

/// The reply directory of a build directory.
pub open spec fn reply_dir(build_dir: Seq<char>) -> Seq<char> {
    joined(joined(joined(joined(build_dir, ".cmake"@), "api"@), "v1"@), "reply"@)
}

/// The reply directory of a build directory: `.cmake/api/v1/reply` below it.
pub fn dir(build_dir: &str) -> (r: String)
    ensures
        r@ == reply_dir(build_dir@),
{
    let cmake = join(build_dir, ".cmake");
    let api = join(cmake.as_str(), "api");
    let v1 = join(api.as_str(), "v1");
    join(v1.as_str(), "reply")
}

/// Below a build directory that is named without a slash at its end, the
/// reply directory is the name of the build directory followed by
/// `/.cmake/api/v1/reply`.
pub proof fn lemma_reply_dir_of_plain_name(build_dir: Seq<char>)
    requires
        build_dir.len() > 0,
        build_dir.last() != '/',
    ensures
        reply_dir(build_dir) == build_dir + "/.cmake/api/v1/reply"@,
{
    reveal_strlit(".cmake");
    reveal_strlit("api");
    reveal_strlit("v1");
    reveal_strlit("reply");
    reveal_strlit("/.cmake/api/v1/reply");
    let cmake = joined(build_dir, ".cmake"@);
    let api = joined(cmake, "api"@);
    let v1 = joined(api, "v1"@);
    assert(cmake =~= build_dir + seq!['/'] + ".cmake"@);
    assert(api =~= cmake + seq!['/'] + "api"@);
    assert(v1 =~= api + seq!['/'] + "v1"@);
    assert(reply_dir(build_dir) =~= v1 + seq!['/'] + "reply"@);
    assert(reply_dir(build_dir) =~= build_dir + "/.cmake/api/v1/reply"@);
}

/// A name ends in `.json`, in whatever case the four letters are.
pub open spec fn has_json_extension(name: Seq<char>) -> bool {
    let n = name.len() as int;
    &&& n >= 5
    &&& name[n - 5] == '.'
    &&& (name[n - 4] == 'j' || name[n - 4] == 'J')
    &&& (name[n - 3] == 's' || name[n - 3] == 'S')
    &&& (name[n - 2] == 'o' || name[n - 2] == 'O')
    &&& (name[n - 1] == 'n' || name[n - 1] == 'N')
}

/// The name of an index file: it begins with `index-` and ends in `.json`.
pub open spec fn is_index_name(name: Seq<char>) -> bool {
    "index-"@.is_prefix_of(name) && has_json_extension(name)
}

/// An entry that can be the index: a regular file with the name of one.
pub open spec fn is_candidate(entry: DirEntry) -> bool {
    entry.is_file && is_index_name(entry.file_name@)
}

/// The name of `later` comes after the name of `earlier` in the order of
/// strings.
pub open spec fn is_newer(earlier: DirEntry, later: DirEntry) -> bool {
    sorts_before(earlier.file_name@, later.file_name@)
}

/// The position of the entry that is taken for the index: of the entries
/// that can be it, the one whose name comes last in the order of strings;
/// of several with that name, the first.
pub open spec fn newest(entries: Seq<DirEntry>) -> Option<int>
    decreases entries.len(),
{
    if entries.len() == 0 {
        None
    } else {
        let last = entries.len() - 1;
        let earlier = newest(entries.drop_last());
        if !is_candidate(entries[last]) {
            earlier
        } else {
            match earlier {
                Some(at) => if is_newer(entries[at], entries[last]) {
                    Some(last)
                } else {
                    Some(at)
                },
                None => Some(last),
            }
        }
    }
}

/// The path of the index file of a reply whose directory lists `listing`,
/// or lists nothing because it is not there.
///
/// CMake names its index files so that a later one sorts after an earlier
/// one. Where several entries can be the index, the one whose name sorts
/// last is taken, whatever the order of the listing.
pub open spec fn located(build_dir: Seq<char>, listing: Option<Vec<DirEntry>>) -> Option<
    Seq<char>,
> {
    match listing {
        Some(entries) => match newest(entries@) {
            Some(at) => Some(joined(reply_dir(build_dir), entries@[at].file_name@)),
            None => None,
        },
        None => None,
    }
}

/// Whether `name` is the name of an index file.
pub fn is_index_file_name(name: &str) -> (r: bool)
    ensures
        r == is_index_name(name@),
{
    if !starts_with(name, "index-") {
        return false;
    }
    let n = name.unicode_len();
    if n < 5 {
        return false;
    }
    let dot = name.get_char(n - 5);
    let j = name.get_char(n - 4);
    let s = name.get_char(n - 3);
    let o = name.get_char(n - 2);
    let e = name.get_char(n - 1);
    dot == '.' && (j == 'j' || j == 'J') && (s == 's' || s == 'S') && (o == 'o' || o == 'O') && (e
        == 'n' || e == 'N')
}

/// What looking for the index of a reply found.
#[derive(Debug, Clone, PartialEq, Eq)]
pub enum Located {
    /// The index file, by its path.
    Index(String),
    /// The reply directory is there and holds no index.
    NoIndex,
    /// The reply directory is absent or cannot be listed: CMake has not
    /// answered any query in this build directory.
    Unavailable,
}

impl Located {
    /// The path of the index file, where one was found.
    pub fn path(&self) -> (r: Option<&str>)
        ensures
            match *self {
                Located::Index(path) => r matches Some(p) && p@ == path@,
                _ => r is None,
            },
    {
        match self {
            Located::Index(path) => Some(path.as_str()),
            _ => None,
        }
    }
}

/// Looks for the index file of a reply.
///
/// `listing` is what the reply directory of `build_dir` holds, or `None`
/// where that directory is absent or cannot be listed. An absent directory
/// and a directory without an index are told apart. Where several entries
/// can be the index, the one whose name sorts last is taken: the outcome
/// does not depend on the order of the listing.
pub fn index_file(build_dir: &str, listing: &Option<Vec<DirEntry>>) -> (r: Located)
    ensures
        *listing is None ==> r is Unavailable,
        *listing is Some && located(build_dir@, *listing) is None ==> r is NoIndex,
        located(build_dir@, *listing) is Some ==> (r matches Located::Index(path) && Some(path@)
            == located(build_dir@, *listing)),
{
    match listing {
        Some(entries) => {
            let mut best: Option<usize> = None;
            let mut i: usize = 0;
            assert(entries@.take(0) =~= Seq::empty());
            while i < entries.len()
                invariant
                    0 <= i <= entries.len(),
                    match best {
                        Some(at) => at < i && newest(entries@.take(i as int)) == Some(at as int),
                        None => newest(entries@.take(i as int)) is None,
                    },
                decreases entries.len() - i,
            {
                proof {
                    let next = entries@.take(i + 1);
                    assert(next.drop_last() =~= entries@.take(i as int));
                    assert(next[i as int] == entries@[i as int]);
                    if best is Some {
                        assert(next[best->0 as int] == entries@[best->0 as int]);
                    }
                }
                if entries[i].is_file && is_index_file_name(entries[i].file_name.as_str()) {
                    let newer = match best {
                        Some(at) => comes_before(
                            entries[at].file_name.as_str(),
                            entries[i].file_name.as_str(),
                        ),
                        None => true,
                    };
                    if newer {
                        best = Some(i);
                    }
                }
                i = i + 1;
            }
            assert(entries@.take(entries.len() as int) =~= entries@);
            match best {
                Some(at) => {
                    let reply = dir(build_dir);
                    Located::Index(join(reply.as_str(), entries[at].file_name.as_str()))
                },
                None => Located::NoIndex,
            }
        },
        None => Located::Unavailable,
    }
}

/// Whether a reply is there to be read: whether its index can be located.
pub fn is_available(build_dir: &str, listing: &Option<Vec<DirEntry>>) -> (r: bool)
    ensures
        r == located(build_dir@, *listing) is Some,
{
    match index_file(build_dir, listing) {
        Located::Index(_) => true,
        _ => false,
    }
}

/// The entry that is taken for the index can be the index, and no entry
/// that can be the index has a name that sorts after its name. Where no
/// entry is taken, none can be the index.
pub proof fn lemma_newest(entries: Seq<DirEntry>)
    ensures
        match newest(entries) {
            Some(at) => {
                &&& 0 <= at < entries.len()
                &&& is_candidate(entries[at])
                &&& forall|k: int|
                    0 <= k < entries.len() && is_candidate(#[trigger] entries[k]) ==> !is_newer(
                        entries[at],
                        entries[k],
                    )
            },
            None => forall|k: int| 0 <= k < entries.len() ==> !is_candidate(#[trigger] entries[k]),
        },
    decreases entries.len(),
{
    if entries.len() > 0 {
        let last = entries.len() - 1;
        let rest = entries.drop_last();
        lemma_newest(rest);
        assert forall|k: int| 0 <= k < last implies rest[k] == #[trigger] entries[k] by {}
        if is_candidate(entries[last]) {
            lemma_precedes_irreflexive(encode_utf8(entries[last].file_name@));
            if newest(rest) is Some && is_newer(entries[newest(rest)->0], entries[last]) {
                let at = newest(rest)->0;
                assert forall|k: int|
                    0 <= k < entries.len() && is_candidate(#[trigger] entries[k]) implies !is_newer(
                    entries[last],
                    entries[k],
                ) by {
                    if k < last && is_newer(entries[last], entries[k]) {
                        assert(rest[k] == entries[k]);
                        lemma_precedes_transitive(
                            encode_utf8(entries[at].file_name@),
                            encode_utf8(entries[last].file_name@),
                            encode_utf8(entries[k].file_name@),
                        );
                    }
                }
            }
        }
    }
}

/// An entry that can be the index and whose name sorts after the name of
/// every other entry that can be it is the one that is taken, wherever it
/// stands in the listing.
pub proof fn lemma_latest_is_located(build_dir: Seq<char>, entries: Vec<DirEntry>, at: int)
    requires
        0 <= at < entries@.len(),
        is_candidate(entries@[at]),
        forall|k: int|
            0 <= k < entries@.len() && k != at && is_candidate(#[trigger] entries@[k]) ==> is_newer(
                entries@[k],
                entries@[at],
            ),
    ensures
        located(build_dir, Some(entries)) == Some(
            joined(reply_dir(build_dir), entries@[at].file_name@),
        ),
{
    lemma_newest(entries@);
}

/// Where the reply directory is absent, no index is located.
pub proof fn lemma_absent_directory_has_no_index(build_dir: Seq<char>)
    ensures
        located(build_dir, None) is None,
{
}

/// Where exactly one entry of the reply directory can be the index, that
/// entry is located.
pub proof fn lemma_single_index_is_located(
    build_dir: Seq<char>,
    entries: Vec<DirEntry>,
    at: int,
)
    requires
        0 <= at < entries@.len(),
        is_candidate(entries@[at]),
        forall|k: int| 0 <= k < entries@.len() && k != at ==> !is_candidate(#[trigger] entries@[k]),
    ensures
        located(build_dir, Some(entries)) == Some(
            joined(reply_dir(build_dir), entries@[at].file_name@),
        ),
{
    lemma_latest_is_located(build_dir, entries, at);
}

/// That exactly one entry of `entries` can be the index.
pub open spec fn has_single_index(entries: Seq<DirEntry>) -> bool {
    exists|at: int|
        0 <= at < entries.len() && is_candidate(#[trigger] entries[at]) && forall|k: int|
            0 <= k < entries.len() && k != at ==> !is_candidate(#[trigger] entries[k])
}

/// In a reply as CMake leaves it, where a reply directory that is there
/// holds exactly one index: no index is located exactly where the directory
/// is absent.
pub proof fn lemma_no_index_iff_no_directory(build_dir: Seq<char>, listing: Option<Vec<DirEntry>>)
    requires
        listing is Some ==> has_single_index(listing->0@),
    ensures
        located(build_dir, listing) is None <==> listing is None,
{
    lemma_located_iff_candidate(build_dir, listing);
}

/// Where no two entries of a reply directory can be the index, an index is
/// located exactly where one entry can be it.
pub proof fn lemma_index_iff_single_candidate(build_dir: Seq<char>, entries: Vec<DirEntry>)
    requires
        forall|i: int, k: int|
            0 <= i < k < entries@.len() ==> !(is_candidate(#[trigger] entries@[i]) && is_candidate(
                #[trigger] entries@[k],
            )),
    ensures
        located(build_dir, Some(entries)) is Some <==> has_single_index(entries@),
{
    lemma_located_iff_candidate(build_dir, Some(entries));
    if located(build_dir, Some(entries)) is Some {
        let at = choose|at: int| 0 <= at < entries@.len() && is_candidate(#[trigger] entries@[at]);
        assert forall|k: int| 0 <= k < entries@.len() && k != at implies !is_candidate(
            #[trigger] entries@[k],
        ) by {
            if k < at {
                assert(!(is_candidate(entries@[k]) && is_candidate(entries@[at])));
            } else {
                assert(!(is_candidate(entries@[at]) && is_candidate(entries@[k])));
            }
        }
    }
}

/// An index is located exactly where the reply directory is there and holds
/// an entry that can be the index.
pub proof fn lemma_located_iff_candidate(build_dir: Seq<char>, listing: Option<Vec<DirEntry>>)
    ensures
        located(build_dir, listing) is Some <==> listing is Some && exists|k: int|
            0 <= k < listing->0@.len() && is_candidate(#[trigger] listing->0@[k]),
{
    if listing is Some {
        lemma_newest(listing->0@);
    }
}

/// A reply that has been opened: the build directory and the index.
pub struct Reader {
    build_dir: String,
    index: Index,
}

/// An object of a reply that may still wait for documents it refers to.
///
/// The object is handed out only when every reference is resolved: a
/// half-resolved object never leaves this type. The type remembers, for the
/// verifier alone, the object as it was read and the documents that have
/// been resolved into it since.
pub struct Loading<T: Object> {
    object: T,
    reply_dir: String,
    origin: Ghost<T>,
    answers: Ghost<Seq<Answer>>,
}

/// The entry of the catalog for a kind and a major version: the first that
/// has both.
pub open spec fn catalog_entry(
    objects: Seq<ReplyFileReference>,
    kind: ObjectKind,
    major: u32,
) -> Option<ReplyFileReference> {
    let at = first_where(
        objects,
        |entry: ReplyFileReference| entry.kind == kind && entry.version.major == major,
    );
    if at < objects.len() {
        Some(objects[at])
    } else {
        None
    }
}

impl Reader {
    /// The build directory that the reply belongs to.
    pub closed spec fn directory(&self) -> Seq<char> {
        self.build_dir@
    }

    /// The index of the reply.
    pub closed spec fn catalog(&self) -> Index {
        self.index
    }

    /// The path of the file that holds the object of kind `T`, if the reply
    /// holds one.
    pub open spec fn file_of<T: Object>(&self) -> Option<Seq<char>> {
        match catalog_entry(self.catalog().objects@, T::object_kind(), T::object_major()) {
            Some(entry) => Some(joined(reply_dir(self.directory()), entry.json_file@)),
            None => None,
        }
    }

    /// Reads a `T` from what reading a file of the reply gave.
    pub fn parse_reply<T: Decode>(content: Result<String, std::io::Error>) -> (r: Result<
        T,
        ReaderError,
    >)
        ensures
            match content {
                Err(e) => r == Err::<T, ReaderError>(ReaderError::IO(e)),
                Ok(text) => match r {
                    Ok(x) => text_decodes(&x, text@) && text_failure::<T>(text@) is None,
                    Err(ReaderError::Parse(e)) => text_failure::<T>(text@) == Some(e@),
                    Err(_) => false,
                },
            },
    {
        match content {
            Ok(text) => match from_text::<T>(text.as_str()) {
                Ok(x) => Ok(x),
                Err(e) => Err(ReaderError::Parse(e)),
            },
            Err(e) => Err(ReaderError::IO(e)),
        }
    }

    /// Opens the reply of a build directory.
    ///
    /// `listing` is what the reply directory holds, or `None` where it is
    /// absent. `content` is what reading the file that [`index_file`] names
    /// gave; it is not looked at where no index is located.
    pub fn from_build_dir(
        build_dir: &str,
        listing: &Option<Vec<DirEntry>>,
        content: Result<String, std::io::Error>,
    ) -> (r: Result<Reader, ReaderError>)
        ensures
            *listing is None ==> r matches Err(ReaderError::FileApiNotGenerated),
            *listing is Some && located(build_dir@, *listing) is None ==> r matches Err(
                ReaderError::ObjectNotFound,
            ),
            located(build_dir@, *listing) is Some ==> match content {
                Err(e) => r matches Err(ReaderError::IO(cause)) && cause == e,
                Ok(text) => match r {
                    Ok(reader) => {
                        &&& reader.directory() == build_dir@
                        &&& text_decodes(&reader.catalog(), text@)
                        &&& text_failure::<Index>(text@) is None
                    },
                    Err(ReaderError::Parse(e)) => text_failure::<Index>(text@) == Some(e@),
                    Err(_) => false,
                },
            },
    {
        match index_file(build_dir, listing) {
            Located::Unavailable => Err(ReaderError::FileApiNotGenerated),
            Located::NoIndex => Err(ReaderError::ObjectNotFound),
            Located::Index(_) => {
                let index = Reader::parse_reply::<Index>(content)?;
                Ok(Reader { build_dir: build_dir.to_owned(), index })
            },
        }
    }

    /// The build directory that the reply belongs to.
    #[must_use]
    pub fn build_dir(&self) -> (r: &str)
        ensures
            r@ == self.directory(),
    {
        self.build_dir.as_str()
    }

    /// The index of the reply.
    #[must_use]
    pub fn index(&self) -> (r: &Index)
        ensures
            *r == self.catalog(),
    {
        &self.index
    }

    /// The entry of the catalog for a kind and a major version: the first
    /// that has both.
    pub fn find_object(&self, kind: ObjectKind, major: u32) -> (r: Option<&ReplyFileReference>)
        ensures
            match r {
                Some(entry) => catalog_entry(self.catalog().objects@, kind, major) == Some(*entry),
                None => catalog_entry(self.catalog().objects@, kind, major) is None,
            },
    {
        let ghost wanted = |entry: ReplyFileReference|
            entry.kind == kind && entry.version.major == major;
        let mut i: usize = 0;
        while i < self.index.objects.len()
            invariant
                0 <= i <= self.index.objects.len(),
                wanted == (|entry: ReplyFileReference|
                    entry.kind == kind && entry.version.major == major),
                forall|k: int| 0 <= k < i ==> !wanted(#[trigger] self.index.objects@[k]),
            decreases self.index.objects.len() - i,
        {
            let entry = &self.index.objects[i];
            if entry.kind == kind && entry.version.major == major {
                proof {
                    lemma_first_where_is(self.index.objects@, wanted, i as int);
                }
                return Some(entry);
            }
            i = i + 1;
        }
        proof {
            lemma_first_where_is(self.index.objects@, wanted, i as int);
        }
        None
    }

    /// Whether the reply holds an object of kind `T`.
    #[must_use]
    pub fn has_object<T: Object>(&self) -> (r: bool)
        ensures
            r == self.file_of::<T>() is Some,
    {
        self.find_object(T::kind(), T::major()).is_some()
    }

    /// The path of the file that holds the object of kind `T`.
    pub fn object_file<T: Object>(&self) -> (r: Result<String, ReaderError>)
        ensures
            match self.file_of::<T>() {
                Some(path) => r matches Ok(file) && file@ == path,
                None => r matches Err(ReaderError::ObjectNotFound),
            },
    {
        match self.find_object(T::kind(), T::major()) {
            Some(entry) => {
                let reply = dir(self.build_dir.as_str());
                Ok(join(reply.as_str(), entry.json_file.as_str()))
            },
            None => Err(ReaderError::ObjectNotFound),
        }
    }

    /// Reads the object of kind `T` from what reading its file gave.
    ///
    /// `content` is what reading the file that [`Reader::object_file`] names
    /// gave; it is not looked at where the reply holds no such object. The
    /// object comes back with its references unresolved.
    pub fn read_object<T: Object>(&self, content: Result<String, std::io::Error>) -> (r: Result<
        Loading<T>,
        ReaderError,
    >)
        ensures
            self.file_of::<T>() is None ==> r matches Err(ReaderError::ObjectNotFound),
            self.file_of::<T>() is Some ==> match content {
                Err(e) => r matches Err(ReaderError::IO(cause)) && cause == e,
                Ok(text) => match r {
                    Ok(loading) => {
                        &&& loading.base() == reply_dir(self.directory())
                        &&& loading.object() == loading.origin()
                        &&& loading.answers().len() == 0
                        &&& text_decodes(&loading.origin(), text@)
                        &&& text_failure::<T>(text@) is None
                    },
                    Err(ReaderError::Parse(e)) => text_failure::<T>(text@) == Some(e@),
                    Err(_) => false,
                },
            },
    {
        if !self.has_object::<T>() {
            return Err(ReaderError::ObjectNotFound);
        }
        let object = Reader::parse_reply::<T>(content)?;
        Ok(
            Loading {
                object,
                reply_dir: dir(self.build_dir.as_str()),
                origin: Ghost(object),
                answers: Ghost(Seq::empty()),
            },
        )
    }
}

impl<T: Object> Loading<T> {
    #[verifier::type_invariant]
    spec fn well_formed(self) -> bool {
        resolved_by(self.origin@, self.answers@, self.object)
    }

    /// The object as far as it is resolved.
    pub closed spec fn object(&self) -> T {
        self.object
    }

    /// The object as it was read from its own document.
    pub closed spec fn origin(&self) -> T {
        self.origin@
    }

    /// The documents that have been resolved into the object, in order,
    /// each with the path that it answered.
    pub closed spec fn answers(&self) -> Seq<Answer> {
        self.answers@
    }

    /// The reply directory that references are taken from.
    pub closed spec fn base(&self) -> Seq<char> {
        self.reply_dir@
    }

    /// The path of the file that has to be read next: the reference that
    /// the object waits for, taken from the reply directory.
    pub open spec fn awaited(&self) -> Option<Seq<char>> {
        match self.object().pending() {
            Some(path) => Some(joined(self.base(), path)),
            None => None,
        }
    }

    /// The path of the file that has to be read next; `None` where the
    /// object is complete.
    pub fn next_reference(&self) -> (r: Option<String>)
        ensures
            match r {
                Some(path) => self.awaited() == Some(path@),
                None => self.awaited() is None,
            },
    {
        match self.object.next_reference() {
            Some(path) => Some(join(self.reply_dir.as_str(), path)),
            None => None,
        }
    }

    /// Resolves the reference that the object waits for from what reading
    /// the file that [`Loading::next_reference`] names gave. On failure the
    /// object is given up as a whole. An object that waits for nothing comes
    /// back as it is.
    pub fn resolve_reference(self, content: Result<String, std::io::Error>) -> (r: Result<
        Loading<T>,
        ReaderError,
    >)
        ensures
            self.awaited() is None ==> r == Ok::<Loading<T>, ReaderError>(self),
            self.awaited() is Some ==> match content {
                Err(e) => r matches Err(ReaderError::IO(cause)) && cause == e,
                Ok(text) => match json_document(text@) {
                    None => r matches Err(ReaderError::Parse(e)) && e@ == DecodeFailure::Syntax,
                    Some(j) => match r {
                        Ok(after) => {
                            &&& after.base() == self.base()
                            &&& after.origin() == self.origin()
                            &&& after.answers() == self.answers().push(
                                Answer { path: self.object().pending()->0, document: j },
                            )
                            &&& self.object().resolves_to(&after.object(), j)
                            &&& self.object().reference_failure(j) is None
                        },
                        Err(ReaderError::Parse(e)) => self.object().reference_failure(j) == Some(
                            e@,
                        ),
                        Err(_) => false,
                    },
                },
            },
    {
        if self.object.next_reference().is_none() {
            return Ok(self);
        }
        let text = match content {
            Ok(text) => text,
            Err(e) => {
                return Err(ReaderError::IO(e));
            },
        };
        let document = match crate::json::parse(text.as_str()) {
            Ok(document) => document,
            Err(e) => {
                return Err(ReaderError::Parse(DecodeError::Syntax(e)));
            },
        };
        proof {
            use_type_invariant(&self);
        }
        let ghost before = self.object;
        let ghost origin = self.origin@;
        let ghost answers = self.answers@;
        match self.object.resolve_reference(&document) {
            Ok(object) => {
                proof {
                    lemma_resolved_by_one_more(
                        origin,
                        answers,
                        before,
                        json_of(document),
                        object,
                    );
                }
                Ok(
                    Loading {
                        object,
                        reply_dir: self.reply_dir,
                        origin: Ghost(origin),
                        answers: Ghost(
                            answers.push(
                                Answer { path: before.pending()->0, document: json_of(document) },
                            ),
                        ),
                    },
                )
            },
            Err(e) => Err(ReaderError::Parse(e)),
        }
    }

    /// Hands out the object if it is complete: the object as it was read,
    /// with every document resolved into it that it asked for.
    pub fn finish(self) -> (r: Option<T>)
        ensures
            match r {
                Some(object) => {
                    &&& self.awaited() is None
                    &&& object == self.object()
                    &&& object.pending() is None
                    &&& resolved_by(self.origin(), self.answers(), object)
                },
                None => self.awaited() is Some,
            },
    {
        proof {
            use_type_invariant(&self);
        }
        if self.object.next_reference().is_none() {
            Some(self.object)
        } else {
            None
        }
    }
}

} // verus!
