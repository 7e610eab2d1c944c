//! A parser for the ustar TAR stream found on the disk.
//!
//! The archive is a sequence of file records — one 512-byte header block
//! followed by enough 512-byte blocks to hold the file's data — terminated
//! by two consecutive zero blocks. Of each header only three fields are
//! read: the NUL-terminated name in bytes 0..100, the octal size in bytes
//! 124..136, and the magic `"ustar\0"` in bytes 257..263.

use vstd::prelude::*;

use crate::common::{lemma_oct2int_fits, oct2int, spec_oct2int};

verus! {

/// A parsed file: its header fields and its bytes.
pub struct FileRef {
    /// The header fields the kernel consumes.
    pub header: TarHeader,
    /// The file's data, `file_size` bytes.
    pub data: Vec<u8>,
}

/// The consumed fields of one ustar header block.
pub struct TarHeader {
    /// The file name: the bytes before the first NUL of the name field.
    pub name: Vec<u8>,
    /// The file size read from the octal size field.
    pub file_size: usize,
}

/// The archive bytes do not follow the ustar grammar.
#[derive(Debug, Clone, Copy, PartialEq, Eq, Structural)]
pub struct TarError;

/// What one parsed file contributes: its name bytes and its data bytes.
pub struct FileSpec {
    /// The name field up to its first NUL.
    pub name: Seq<u8>,
    /// The file's bytes.
    pub data: Seq<u8>,
}

impl View for FileRef {
    type V = FileSpec;

    open spec fn view(&self) -> FileSpec {
        FileSpec { name: self.header.name@, data: self.data@ }
    }
}

/// Does `s` begin with the archive terminator, two zero blocks?
pub open spec fn spec_zero_terminator(s: Seq<u8>) -> bool {
    s.len() >= 1024 && forall|i: int| 0 <= i < 1024 ==> s[i] == 0
}

/// The position of the first NUL within the 100-byte name field, searching
/// from `i`.
pub open spec fn spec_nul_pos(s: Seq<u8>, i: int) -> Option<int>
    decreases 100 - i,
{
    if i < 0 || i >= 100 {
        None
    } else if s[i] == 0 {
        Some(i)
    } else {
        spec_nul_pos(s, i + 1)
    }
}

/// The six magic bytes every ustar header carries: `"ustar\0"`.
pub open spec fn spec_ustar_magic() -> Seq<u8> {
    seq![117u8, 115u8, 116u8, 97u8, 114u8, 0u8]
}

/// One file record at the front of `s`: the file it describes and how many
/// bytes of `s` it covers, or nothing if `s` does not start with a
/// well-formed record.
pub open spec fn spec_parse_file(s: Seq<u8>) -> Option<(FileSpec, int)> {
    if s.len() < 512 {
        None
    } else {
        match spec_nul_pos(s, 0) {
            None => None,
            Some(p) => {
                if p < 1 {
                    None
                } else if !(s.subrange(257, 263) =~= spec_ustar_magic()) {
                    None
                } else {
                    let size = spec_oct2int(s.subrange(124, 136)) as int;
                    let total = 512 + 512 * ((size + 511) / 512);
                    if s.len() < total {
                        None
                    } else {
                        Some(
                            (
                                FileSpec {
                                    name: s.subrange(0, p),
                                    data: s.subrange(512, 512 + size),
                                },
                                total,
                            ),
                        )
                    }
                }
            },
        }
    }
}

/// The whole archive at the front of `s`: file records up to the first
/// terminator, or nothing if neither a record nor the terminator comes
/// next.
pub open spec fn spec_parse_tar(s: Seq<u8>) -> Option<Seq<FileSpec>>
    decreases s.len(),
{
    if spec_zero_terminator(s) {
        Some(Seq::empty())
    } else {
        match spec_parse_file(s) {
            None => None,
            Some((f, total)) => {
                if total > s.len() {
                    None
                } else {
                    match spec_parse_tar(s.skip(total)) {
                        None => None,
                        Some(rest) => Some(seq![f] + rest),
                    }
                }
            },
        }
    }
}

/// Copy `n` bytes of `input` starting at `start` into a fresh vector.
fn read_bytes(input: &[u8], start: usize, n: usize) -> (r: Vec<u8>)
    requires
        start + n <= input@.len(),
    ensures
        r@ == input@.subrange(start as int, start as int + n),
{
    let total_len = input.len();
    let mut r: Vec<u8> = Vec::new();
    let mut k: usize = 0;
    while k < n
        invariant
            start + n <= input@.len(),
            input@.len() == total_len,
            k <= n,
            r@.len() == k,
            forall|i: int| 0 <= i < k ==> r@[i] == input@[start + i],
        decreases n - k,
    {
        r.push(input[start + k]);
        k = k + 1;
    }
    proof {
        assert(r@ =~= input@.subrange(start as int, start as int + n));
    }
    r
}

/// Do two zero blocks start at `pos`?
fn zero_terminator_at(input: &[u8], pos: usize) -> (b: bool)
    requires
        pos <= input@.len(),
    ensures
        b == spec_zero_terminator(input@.skip(pos as int)),
{
    let remaining = input.len() - pos;
    if remaining < 1024 {
        return false;
    }
    let total_len = input.len();
    let mut k: usize = 0;
    while k < 1024
        invariant
            pos + 1024 <= input@.len(),
            input@.len() == total_len,
            k <= 1024,
            forall|i: int| 0 <= i < k ==> input@.skip(pos as int)[i] == 0,
        decreases 1024 - k,
    {
        if input[pos + k] != 0 {
            proof {
                assert(input@.skip(pos as int)[k as int] == input@[pos + k]);
            }
            return false;
        }
        k = k + 1;
    }
    true
}

/// The first NUL among the first 100 bytes from `pos`, if any.
fn nul_pos_at(input: &[u8], pos: usize) -> (r: Option<usize>)
    requires
        pos + 512 <= input@.len(),
    ensures
        match r {
            Some(p) => Some(p as int) == spec_nul_pos(input@.skip(pos as int), 0) && p < 100,
            None => spec_nul_pos(input@.skip(pos as int), 0) is None,
        },
{
    let total_len = input.len();
    let ghost s = input@.skip(pos as int);
    let mut k: usize = 0;
    while k < 100
        invariant
            pos + 512 <= input@.len(),
            input@.len() == total_len,
            s == input@.skip(pos as int),
            k <= 100,
            forall|i: int| 0 <= i < k ==> s[i] != 0,
        decreases 100 - k,
    {
        proof {
            assert(s[k as int] == input@[pos + k]);
        }
        if input[pos + k] == 0 {
            proof {
                lemma_nul_pos_stops(s, 0, k as int);
            }
            return Some(k);
        }
        k = k + 1;
    }
    proof {
        lemma_nul_pos_none(s, 0);
    }
    None
}

/// If the bytes before `p` are non-NUL and byte `p` is NUL, the search
/// finds exactly `p`.
proof fn lemma_nul_pos_stops(s: Seq<u8>, i: int, p: int)
    requires
        0 <= i <= p < 100,
        s[p] == 0,
        forall|l: int| 0 <= l < p ==> s[l] != 0,
    ensures
        spec_nul_pos(s, i) == Some(p),
    decreases 100 - i,
{
    if i < p {
        lemma_nul_pos_stops(s, i + 1, p);
    }
}

/// If no byte of the name field is NUL, the search finds nothing.
proof fn lemma_nul_pos_none(s: Seq<u8>, i: int)
    requires
        0 <= i,
        forall|l: int| 0 <= l < 100 ==> s[l] != 0,
    ensures
        spec_nul_pos(s, i) is None,
    decreases 100 - i,
{
    if i < 100 {
        lemma_nul_pos_none(s, i + 1);
    }
}

/// Parse a whole ustar archive: the files before the two-zero-block
/// terminator, each exactly as the grammar reads it, or an error when the
/// bytes follow the grammar nowhere.
pub fn tar_file(input: &[u8]) -> (r: Result<Vec<FileRef>, TarError>)
    ensures
        match r {
            Ok(files) => {
                &&& spec_parse_tar(input@) == Some(files@.map_values(|f: FileRef| f@))
                &&& forall|i: int|
                    0 <= i < files@.len() ==> (#[trigger] files@[i]).header.file_size
                        == files@[i].data@.len()
            },
            Err(_) => spec_parse_tar(input@) is None,
        },
{
    let mut files: Vec<FileRef> = Vec::new();
    let mut pos: usize = 0;
    proof {
        assert(input@.skip(0) =~= input@);
        assert(files@.map_values(|f: FileRef| f@) =~= Seq::<FileSpec>::empty());
        if spec_parse_tar(input@) is Some {
            assert(Seq::<FileSpec>::empty() + spec_parse_tar(input@).unwrap()
                =~= spec_parse_tar(input@).unwrap());
        }
    }
    loop
        invariant
            pos <= input@.len(),
            spec_parse_tar(input@) == (match spec_parse_tar(input@.skip(pos as int)) {
                None => None::<Seq<FileSpec>>,
                Some(rest) => Some(files@.map_values(|f: FileRef| f@) + rest),
            }),
            forall|i: int|
                0 <= i < files@.len() ==> (#[trigger] files@[i]).header.file_size
                    == files@[i].data@.len(),
        decreases input@.len() - pos,
    {
        let ghost s = input@.skip(pos as int);
        if zero_terminator_at(input, pos) {
            proof {
                assert(spec_parse_tar(s) == Some(Seq::<FileSpec>::empty()));
                assert(files@.map_values(|f: FileRef| f@) + Seq::<FileSpec>::empty()
                    =~= files@.map_values(|f: FileRef| f@));
            }
            return Ok(files);
        }
        // a file record must follow
        if input.len() - pos < 512 {
            return Err(TarError);
        }
        let p = match nul_pos_at(input, pos) {
            Some(p) => p,
            None => {
                return Err(TarError);
            },
        };
        if p < 1 {
            return Err(TarError);
        }
        // magic
        let magic = read_bytes(input, pos + 257, 6);
        let magic_ok = magic[0] == 117 && magic[1] == 115 && magic[2] == 116 && magic[3] == 97
            && magic[4] == 114 && magic[5] == 0;
        proof {
            assert(s.subrange(257, 263) =~= input@.subrange(pos + 257, pos + 257 + 6));
            if magic_ok {
                assert(magic@ =~= spec_ustar_magic());
            } else {
                assert(!(magic@ =~= spec_ustar_magic()));
            }
        }
        if !magic_ok {
            return Err(TarError);
        }
        // size
        let size_field = read_bytes(input, pos + 124, 12);
        proof {
            assert(s.subrange(124, 136) =~= input@.subrange(pos + 124, pos + 124 + 12));
            lemma_oct2int_fits(size_field@);
        }
        let size = oct2int(size_field.as_slice());
        let num_blocks = (size + 511) / 512;
        let total: u64 = 512 + 512 * num_blocks;
        if (total as u64) > (input.len() - pos) as u64 {
            return Err(TarError);
        }
        let name = read_bytes(input, pos, p);
        let data = read_bytes(input, pos + 512, size as usize);
        proof {
            assert(s.subrange(0, p as int) =~= input@.subrange(pos as int, pos + p));
            assert(s.subrange(512, 512 + size) =~= input@.subrange(
                pos + 512,
                pos + 512 + size,
            ));
        }
        let header = TarHeader { name, file_size: size as usize };
        let fref = FileRef { header, data };
        let ghost fspec = fref@;
        let ghost prev_files = files@;
        files.push(fref);
        let ghost old_pos = pos as int;
        pos = pos + (total as usize);
        proof {
            assert(spec_parse_file(s) == Some((fspec, total as int)));
            assert(input@.skip(old_pos).skip(total as int) =~= input@.skip(pos as int));
            assert(files@.map_values(|f: FileRef| f@) =~= prev_files.map_values(
                |f: FileRef| f@,
            ).push(fspec));
            assert forall|rest: Seq<FileSpec>| true implies prev_files.map_values(
                |f: FileRef| f@,
            ) + (seq![fspec] + rest) =~= files@.map_values(|f: FileRef| f@) + rest by {}
        }
    }
}

} // verus!
