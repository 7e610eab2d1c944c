//! The read-only file catalog built from the TAR image on the disk.
//!
//! At boot the whole disk is read sector by sector into one buffer; that
//! loop drives the block device and lives outside this crate. The buffer is
//! then parsed here into a flat list of named files.

use vstd::prelude::*;

use vstd::utf8::{encode_utf8, valid_utf8};

use crate::tarfile::{spec_parse_tar, tar_file, FileRef, TarError};
use crate::virtio::IOError;

verus! {

/// What `String::from_utf8_lossy` makes of a byte sequence.
pub uninterp spec fn utf8_lossy_of(bytes: Seq<u8>) -> Seq<char>;

/// Relies on `String::from_utf8_lossy`: the result is a function of the
/// bytes alone, and valid UTF-8 comes through unchanged.
#[verifier::external_body]
fn utf8_lossy(bytes: &[u8]) -> (r: String)
    ensures
        r@ == utf8_lossy_of(bytes@),
        valid_utf8(bytes@) ==> encode_utf8(r@) == bytes@,
{
    String::from_utf8_lossy(bytes).into_owned()
}

/// A file of the catalog: its name and a copy of its bytes.
pub struct File {
    /// Whether the catalog slot is taken; always set for parsed files.
    pub in_use: bool,
    /// The file's name, the header's name bytes read as UTF-8.
    pub name: String,
    /// The file's bytes.
    pub data: Vec<u8>,
}

impl File {
    /// Adopt a parsed file into the catalog.
    pub fn from_ref(value: FileRef) -> (r: File)
        ensures
            r.in_use,
            r.name@ == utf8_lossy_of(value.header.name@),
            r.data@ == value.data@,
    {
        File { in_use: true, name: utf8_lossy(value.header.name.as_slice()), data: value.data }
    }

    /// The file's name.
    pub fn name(&self) -> (r: &str)
        ensures
            r@ == self.name@,
    {
        self.name.as_str()
    }

    /// How many bytes the file holds.
    pub fn size(&self) -> (r: usize)
        ensures
            r == self.data@.len(),
    {
        self.data.len()
    }
}

/// Where the first NUL of `s` sits, searching from `i`; the length of `s`
/// when there is none.
pub open spec fn spec_strcpy_len(s: Seq<u8>, i: int) -> int
    decreases s.len() - i,
{
    if i < 0 || i >= s.len() {
        s.len() as int
    } else if s[i] == 0 {
        i
    } else {
        spec_strcpy_len(s, i + 1)
    }
}

/// The bytes of `src` before its first NUL.
pub fn strcpy(src: &[u8]) -> (v: Vec<u8>)
    ensures
        v@ == src@.take(spec_strcpy_len(src@, 0)),
{
    let n = src.len();
    let mut v: Vec<u8> = Vec::new();
    let mut k: usize = 0;
    while k < n
        invariant
            n == src@.len(),
            k <= n,
            v@.len() == k,
            forall|i: int| 0 <= i < k ==> v@[i] == src@[i] && src@[i] != 0,
        decreases n - k,
    {
        let c = src[k];
        if c == 0 {
            proof {
                lemma_strcpy_stops(src@, 0, k as int);
                assert(v@ =~= src@.take(k as int));
            }
            return v;
        }
        v.push(c);
        k = k + 1;
    }
    proof {
        lemma_strcpy_runs_out(src@, 0);
        assert(v@ =~= src@.take(src@.len() as int));
    }
    v
}

/// When byte `p` is the first NUL, the search finds exactly `p`.
proof fn lemma_strcpy_stops(s: Seq<u8>, i: int, p: int)
    requires
        0 <= i <= p < s.len(),
        s[p] == 0,
        forall|l: int| 0 <= l < p ==> s[l] != 0,
    ensures
        spec_strcpy_len(s, i) == p,
    decreases s.len() - i,
{
    if i < p {
        lemma_strcpy_stops(s, i + 1, p);
    }
}

/// With no NUL at all, the whole sequence is the prefix.
proof fn lemma_strcpy_runs_out(s: Seq<u8>, i: int)
    requires
        0 <= i,
        forall|l: int| 0 <= l < s.len() ==> s[l] != 0,
    ensures
        spec_strcpy_len(s, i) == s.len(),
    decreases s.len() - i,
{
    if i < s.len() {
        lemma_strcpy_runs_out(s, i + 1);
    }
}

/// Why the file system could not come up.
#[derive(Debug)]
pub enum FSError {
    /// Reading the disk failed.
    IOError(IOError),
    /// The disk's bytes are not a well-formed archive.
    Parsing(TarError),
}

impl From<IOError> for FSError {
    fn from(value: IOError) -> (r: FSError) {
        FSError::IOError(value)
    }
}

impl vstd::std_specs::convert::FromSpecImpl<IOError> for FSError {
    open spec fn obeys_from_spec() -> bool {
        true
    }

    open spec fn from_spec(value: IOError) -> FSError {
        FSError::IOError(value)
    }
}

/// The catalog of the files found on the disk.
pub struct FileSystem {
    /// The parsed files, in archive order.
    pub files: Vec<File>,
}

impl FileSystem {
    /// Parse the in-memory disk image into the catalog: one `File` per
    /// archive record, names read as UTF-8, bytes copied out; a parse
    /// failure surfaces as an error.
    pub fn init(disk: &[u8]) -> (r: Result<FileSystem, FSError>)
        ensures
            match spec_parse_tar(disk@) {
                Some(specs) => r matches Ok(fs) && fs.files@.len() == specs.len() && forall|
                    i: int,
                |
                    0 <= i < specs.len() ==> {
                        &&& (#[trigger] fs.files@[i]).in_use
                        &&& fs.files@[i].name@ == utf8_lossy_of(specs[i].name)
                        &&& fs.files@[i].data@ == specs[i].data
                    },
                None => r matches Err(e) && e is Parsing,
            },
    {
        let parsed = match tar_file(disk) {
            Ok(parsed) => parsed,
            Err(e) => {
                return Err(FSError::Parsing(e));
            },
        };
        let ghost specs = parsed@.map_values(|f: FileRef| f@);
        let mut files: Vec<File> = Vec::new();
        let mut rest = parsed;
        let ghost total = specs.len() as int;
        while rest.len() > 0
            invariant
                files@.len() + rest@.len() == total,
                specs.len() == total,
                forall|i: int|
                    0 <= i < files@.len() ==> {
                        &&& (#[trigger] files@[i]).in_use
                        &&& files@[i].name@ == utf8_lossy_of(specs[i].name)
                        &&& files@[i].data@ == specs[i].data
                    },
                forall|i: int|
                    0 <= i < rest@.len() ==> (#[trigger] rest@[i])@ == specs[files@.len() + i],
            decreases rest@.len(),
        {
            let fref = rest.remove(0);
            files.push(File::from_ref(fref));
        }
        Ok(FileSystem { files })
    }
}

} // verus!
