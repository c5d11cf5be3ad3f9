//! The bookkeeping of the on-disk caches: index lines, file records and
//! where their files live.
use vstd::prelude::*;

use vstd::string::StrSliceExecFns;

use crate::key_sets::{has_key, key_views};
use crate::unique_ids::{is_hyphenated, is_lower_hex, random_uuid};

verus! {

/// A character that separates the parts of a path on some platform.
pub open spec fn is_separator(c: char) -> bool {
    c == '/' || c == '\\'
}

/// A part of a path that no platform reads as more than a name: not empty,
/// without separators or drive colons.
pub open spec fn plain_part(s: Seq<char>) -> bool {
    &&& s.len() > 0
    &&& forall|i: int| 0 <= i < s.len() ==> !is_separator(#[trigger] s[i]) && s[i] != ':'
}

/// A plain part without any dot: a file name with no extension.
pub open spec fn bare_name(s: Seq<char>) -> bool {
    plain_part(s) && forall|i: int| 0 <= i < s.len() ==> #[trigger] s[i] != '.'
}

/// A folder that a plain part can be joined to on every platform: not
/// empty, not ending in a separator or a drive colon, and not starting
/// with the backslash of a network or verbatim prefix.
pub open spec fn plain_folder(s: Seq<char>) -> bool {
    &&& s.len() > 0
    &&& !is_separator(s.last())
    &&& s.last() != ':'
    &&& s[0] != '\\'
}

/// `Path::join` of a folder and a relative part: on every platform, a
/// plain part joined to a plain folder comes after the folder and one
/// separator.
#[verifier::external_body]
pub(crate) fn join_text(base: &str, rel: &str) -> (r: String)
    ensures
        plain_folder(base@) && plain_part(rel@) ==> {
            &&& is_separator(r@[base@.len() as int])
            &&& r@ == base@ + seq![r@[base@.len() as int]] + rel@
        },
{
    std::path::Path::new(base).join(rel).to_string_lossy().into_owned()
}

/// `Path::with_extension` on a single file name: a bare name gets a dot
/// and `ext` added; a plain stem, a dot and a plain extension gets that
/// extension replaced by `ext`. (Paths with separators, other names, and
/// an empty `ext` are not described.)
#[verifier::external_body]
pub(crate) fn with_extension_text(p: &str, ext: &str) -> (r: String)
    requires
        forall|i: int| 0 <= i < ext@.len() ==> !is_separator(#[trigger] ext@[i]),
    ensures
        plain_part(p@) && plain_part(ext@) ==> {
            &&& bare_name(p@) ==> r@ == p@ + seq!['.'] + ext@
            &&& forall|i: int| 0 < i < p@.len() && #[trigger] p@[i] == '.' && bare_name(p@.take(i)) && bare_name(
                p@.skip(i + 1),
            ) ==> r@ == p@.take(i) + seq!['.'] + ext@
        },
{
    std::path::Path::new(p).with_extension(ext).to_string_lossy().into_owned()
}

/// Something that carries an identifier.
pub trait IDed<T> {
    /// The identifier.
    spec fn spec_id(&self) -> T;

    /// Returns the identifier.
    fn id(&self) -> (r: &T)
        ensures
            *r == self.spec_id(),
    ;
}

/// A value together with the text that it was read from.
#[derive(Debug, Clone)]
pub struct SourceItemPair<S, T>(pub S, pub T);

/// The data of a cached file, under the key of what it belongs to.
#[derive(Debug, Clone)]
pub struct FileData<T>(String, T);

impl<T> FileData<T> {
    /// The key of the record.
    pub closed spec fn key(self) -> String {
        self.0
    }

    /// The data of the record.
    pub closed spec fn data(self) -> T {
        self.1
    }

    /// A record of `data` under `id`.
    pub fn new(id: String, data: T) -> (r: Self)
        ensures
            r.key() == id,
            r.data() == data,
    {
        FileData(id, data)
    }

    /// Gives up the record for its data.
    pub fn into_data(self) -> (r: T)
        ensures
            r == self.data(),
    {
        self.1
    }
}

impl<T> IDed<String> for FileData<T> {
    open spec fn spec_id(&self) -> String {
        self.key()
    }

    fn id(&self) -> (r: &String) {
        &self.0
    }
}

/// Where the thumbnail and the song of a key are kept.
#[derive(Debug, Clone)]
pub struct FilePathPair {
    pub id: String,
    pub thumbnail: Option<String>,
    pub song: Option<String>,
}

impl IDed<String> for FilePathPair {
    open spec fn spec_id(&self) -> String {
        self.id
    }

    fn id(&self) -> (r: &String) {
        &self.id
    }
}

/// The lines of an index file that stay when the items whose keys are in
/// `filter` are written again: with `overwrite`, the old lines of those
/// keys go; without it every line stays.
pub open spec fn kept_lines<T: IDed<String>>(
    items: Seq<SourceItemPair<String, T>>,
    overwrite: bool,
    filter: Seq<String>,
) -> Seq<Seq<u8>>
    decreases items.len(),
{
    if items.len() == 0 {
        Seq::empty()
    } else {
        let rest = kept_lines(items.drop_last(), overwrite, filter);
        let last = items.last();
        if overwrite && key_views(filter).contains(last.1.spec_id()@) {
            rest
        } else {
            rest.push(vstd::utf8::encode_utf8(last.0@).push(10u8))
        }
    }
}

/// The lines of an index file to write back, each as bytes ending in a
/// line break: the lines of the keys in `filter` are dropped when they are
/// to be overwritten, and every other line is kept.
pub fn filter_file_items<T: IDed<String>>(
    items: Vec<SourceItemPair<String, T>>,
    overwrite: bool,
    filter: &Vec<String>,
) -> (r: Vec<Vec<u8>>)
    ensures
        r@.map_values(|b: Vec<u8>| b@) == kept_lines(items@, overwrite, filter@),
{
    let mut r: Vec<Vec<u8>> = Vec::new();
    let mut i: usize = 0;
    while i < items.len()
        invariant
            i <= items@.len(),
            r@.map_values(|b: Vec<u8>| b@) == kept_lines(items@.subrange(0, i as int), overwrite, filter@),
        decreases items@.len() - i,
    {
        let SourceItemPair(line, item) = &items[i];
        let ghost prefix = items@.subrange(0, i + 1);
        assert(prefix.drop_last() == items@.subrange(0, i as int));
        assert(prefix.last() == items@[i as int]);
        let id = item.id();
        let drop = overwrite && has_key(filter, id);
        if !drop {
            let mut bytes = line.as_str().as_bytes_vec();
            bytes.push(10u8);
            let ghost before = r@;
            r.push(bytes);
            assert(r@.map_values(|b: Vec<u8>| b@) =~= before.map_values(|b: Vec<u8>| b@).push(bytes@));
        }
        i = i + 1;
    }
    assert(items@.subrange(0, items@.len() as int) == items@);
    r
}

/// Reads and writes a file of one JSON record per line.
#[derive(Debug, Clone)]
pub struct LineBasedReader {
    pub filepath: String,
}

impl LineBasedReader {
    /// A reader of the file at `filepath`.
    pub fn new(filepath: String) -> (r: Self)
        ensures
            r.filepath == filepath,
    {
        LineBasedReader { filepath }
    }
}

/// A folder of files with an index file that maps keys to file names.
#[derive(Debug, Clone)]
pub struct FolderBasedReader {
    pub filepath: String,
    pub index_reader: LineBasedReader,
}

impl FolderBasedReader {
    /// Whether a file is written when its data is added: always when it is
    /// missing or may be overwritten, never over an existing file that may
    /// not be.
    pub fn should_write(present: bool, overwrite: bool) -> (r: bool)
        ensures
            r == (!present || overwrite),
    {
        // an existing file is kept only when it may not be overwritten
        !(present && !overwrite)
    }
}

/// A folder of files with an index, whose files are only located, not read.
#[derive(Debug, Clone)]
pub struct LazyFolderBasedReader {
    pub filepath: String,
    pub index_reader: LineBasedReader,
}

impl LazyFolderBasedReader {
    /// `count` fresh random file names, each a hyphenated UUID: a single
    /// plain part of a path.
    pub fn generate_paths(&self, count: usize) -> (r: Vec<String>)
        ensures
            r@.len() == count,
            forall|i: int| 0 <= i < count ==> is_hyphenated((#[trigger] r@[i])@) && bare_name(r@[i]@),
    {
        let mut r: Vec<String> = Vec::new();
        let mut i: usize = 0;
        while i < count
            invariant
                i <= count,
                r@.len() == i,
                forall|j: int| 0 <= j < i ==> is_hyphenated((#[trigger] r@[j])@) && bare_name(r@[j]@),
            decreases count - i,
        {
            let name = random_uuid();
            proof {
                lemma_hyphenated_is_bare(name@);
            }
            r.push(name);
            i = i + 1;
        }
        r
    }

    /// The place of a file inside the folder: the folder joined with the
    /// file's path (on every platform, a plain name after the folder and
    /// one separator).
    pub fn convert_path(&self, path: &String) -> (r: String)
        ensures
            plain_folder(self.filepath@) && plain_part(path@) ==> {
                &&& is_separator(r@[self.filepath@.len() as int])
                &&& r@ == self.filepath@ + seq![r@[self.filepath@.len() as int]] + path@
            },
    {
        join_text(self.filepath.as_str(), path.as_str())
    }
}

/// A hyphenated UUID is a bare file name.
pub proof fn lemma_hyphenated_is_bare(s: Seq<char>)
    requires
        is_hyphenated(s),
    ensures
        bare_name(s),
{
    assert forall|i: int| 0 <= i < s.len() implies !is_separator(#[trigger] s[i]) && s[i] != ':' && s[i] != '.' by {
        assert(is_lower_hex(s[i]) || s[i] == '-');
    }
}

} // verus!
