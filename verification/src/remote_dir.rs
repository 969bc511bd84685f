//! The model of a remote directory listing.
//!
//! The remote side is asked for one `stat` line group per entry — name,
//! permissions, size, type, separated by blank lines — and the text is parsed
//! here into files with their sizes and types. Navigation pushes a named
//! subdirectory onto the directory's path, or pops to the parent. Running the
//! remote command itself happens outside this crate; this module builds the
//! command string and parses its output.

use crate::remit_config::line_suffix;
use crate::strutil::push_char;
use crate::strutil::split_chars;
use crate::strutil::split_string;
use crate::strutil::str_eq;
use crate::system_path::seg_ok;
use crate::system_path::SystemPath;
use vstd::prelude::*;
use vstd::string::StrSliceExecFns;
use vstd::string::StringExecFns;

verus! {

/// The kind of a remote file entry.
#[derive(PartialEq, Eq, Structural, Clone, Copy, Debug)]
pub enum FileType {
    /// a directory
    TypeDirectory,
    /// a plain file
    TypeFile,
    /// a symbolic link
    TypeLink,
    /// anything else
    TypeUnknown,
}

/// Permission bits for one class of users.
#[derive(PartialEq, Eq, Structural, Clone, Copy, Debug)]
pub struct Permissions {
    pub write: bool,
    pub read: bool,
    pub execute: bool,
}

impl Permissions {
    /// Create permissions: all false when no text is given, else read from a
    /// three-character `rwx`-style string (a dash denies).
    pub fn new(input: Option<String>) -> (r: Permissions)
        requires
            input is Some ==> input->0@.len() >= 3,
        ensures
            input is None ==> r == (Permissions { write: false, read: false, execute: false }),
            input is Some ==> r.read == (input->0@[0] == 'r') && r.write == (input->0@[1] == 'w')
                && r.execute == (input->0@[2] == 'x'),
    {
        match input {
            None => Permissions { write: false, read: false, execute: false },
            Some(s) => {
                let read = s.as_str().get_char(0) == 'r';
                let write = s.as_str().get_char(1) == 'w';
                let execute = s.as_str().get_char(2) == 'x';
                Permissions { write, read, execute }
            },
        }
    }
}

/// The mathematical value of a [`FileInfo`].
pub ghost struct FileView {
    pub name: Seq<char>,
    pub size: u64,
    pub file_type: FileType,
    pub group: Permissions,
    pub owner: Permissions,
    pub other: Permissions,
}

/// Permissions with nothing granted.
pub open spec fn no_perm() -> Permissions {
    Permissions { write: false, read: false, execute: false }
}

/// Information about one remote entry: a directory, file, link or other.
#[derive(Debug, Clone)]
pub struct FileInfo {
    /// the entry's name
    pub name: String,
    /// its size in bytes
    pub size: u64,
    /// what kind of entry it is
    pub file_type: FileType,
    /// group permissions
    pub group: Permissions,
    /// owner permissions
    pub owner: Permissions,
    /// other permissions
    pub other: Permissions,
}

impl View for FileInfo {
    type V = FileView;

    closed spec fn view(&self) -> FileView {
        FileView {
            name: self.name@,
            size: self.size,
            file_type: self.file_type,
            group: self.group,
            owner: self.owner,
            other: self.other,
        }
    }
}

impl FileInfo {
    /// A file entry with an empty name, zero size, unknown type and no
    /// permissions.
    pub fn new() -> (r: FileInfo)
        ensures
            r@ == (FileView {
                name: Seq::<char>::empty(),
                size: 0,
                file_type: FileType::TypeUnknown,
                group: no_perm(),
                owner: no_perm(),
                other: no_perm(),
            }),
    {
        FileInfo {
            name: String::new(),
            size: 0,
            file_type: FileType::TypeUnknown,
            group: Permissions::new(None),
            owner: Permissions::new(None),
            other: Permissions::new(None),
        }
    }
}

/// One loaded remote file entry.
#[derive(Debug, Clone)]
pub struct RemitFile {
    pub info: FileInfo,
}

impl View for RemitFile {
    type V = FileView;

    closed spec fn view(&self) -> FileView {
        self.info@
    }
}

impl DeepView for RemitFile {
    type V = FileView;

    open spec fn deep_view(&self) -> FileView {
        self.view()
    }
}

impl RemitFile {
    /// An empty file entry.
    pub fn new() -> (r: RemitFile)
        ensures
            r@ == (FileView {
                name: Seq::<char>::empty(),
                size: 0,
                file_type: FileType::TypeUnknown,
                group: no_perm(),
                owner: no_perm(),
                other: no_perm(),
            }),
    {
        RemitFile { info: FileInfo::new() }
    }

    /// A file entry with the given name, size and type; a missing size means
    /// zero and a missing type means unknown.
    pub fn new_populated(name: String, size: Option<u64>, file_type: Option<FileType>) -> (r:
        RemitFile)
        ensures
            r@ == (FileView {
                name: name@,
                size: (match size {
                    Some(s) => s,
                    None => 0,
                }),
                file_type: (match file_type {
                    Some(t) => t,
                    None => FileType::TypeUnknown,
                }),
                group: no_perm(),
                owner: no_perm(),
                other: no_perm(),
            }),
    {
        let mut info = FileInfo::new();
        info.name = name;
        info.size = match size {
            Some(s) => s,
            None => 0,
        };
        info.file_type = match file_type {
            Some(t) => t,
            None => FileType::TypeUnknown,
        };
        RemitFile { info }
    }
}

// ---------------------------------------------------------------------------
// Splitting on blank lines
// ---------------------------------------------------------------------------
/// Splitting a character sequence at every occurrence of two adjacent
/// separators, non-overlapping and left to right, as `str::split` does on a
/// two-character pattern.
pub open spec fn split2_chars(s: Seq<char>, sep: char) -> Seq<Seq<char>>
    decreases s.len(),
{
    if s.len() < 2 {
        seq![s]
    } else if s[0] == sep && s[1] == sep {
        seq![Seq::<char>::empty()] + split2_chars(s.skip(2), sep)
    } else {
        let rest = split2_chars(s.skip(1), sep);
        seq![seq![s[0]] + rest[0]] + rest.skip(1)
    }
}

/// Whether the sequence holds two adjacent separators anywhere.
pub open spec fn has_pair(s: Seq<char>, sep: char) -> bool {
    exists|k: int| 0 <= k < s.len() - 1 && #[trigger] s[k] == sep && s[k + 1] == sep
}

/// A sequence without adjacent separators splits into itself alone.
proof fn lemma_split2_no_pair(s: Seq<char>, sep: char)
    requires
        !has_pair(s, sep),
    ensures
        split2_chars(s, sep) == seq![s],
    decreases s.len(),
{
    if s.len() < 2 {
    } else {
        assert(!(s[0] == sep && s[1] == sep));
        assert(!has_pair(s.skip(1), sep)) by {
            if has_pair(s.skip(1), sep) {
                let k = choose|k: int|
                    0 <= k < s.skip(1).len() - 1 && #[trigger] s.skip(1)[k] == sep && s.skip(1)[k
                        + 1] == sep;
                assert(s[k + 1] == sep && s[k + 2] == sep);
            }
        }
        lemma_split2_no_pair(s.skip(1), sep);
        let rest = split2_chars(s.skip(1), sep);
        assert(rest.skip(1) =~= Seq::<Seq<char>>::empty());
        assert(seq![s[0]] + rest[0] =~= s);
        assert(seq![seq![s[0]] + rest[0]] + rest.skip(1) =~= seq![s]);
    }
}

/// Splitting `piece + [sep, sep] + rest` where `piece` holds no adjacent
/// separators and does not end in one yields `piece` followed by the split of
/// `rest`.
proof fn lemma_split2_step(piece: Seq<char>, rest: Seq<char>, sep: char)
    requires
        !has_pair(piece, sep),
        piece.len() == 0 || piece.last() != sep,
    ensures
        split2_chars(piece + seq![sep, sep] + rest, sep) == seq![piece] + split2_chars(rest, sep),
    decreases piece.len(),
{
    let s = piece + seq![sep, sep] + rest;
    if piece.len() == 0 {
        assert(s[0] == sep && s[1] == sep);
        assert(s.skip(2) =~= rest);
        assert(piece =~= Seq::<char>::empty());
        assert(seq![Seq::<char>::empty()] + split2_chars(rest, sep) =~= seq![piece] + split2_chars(
            rest,
            sep,
        ));
    } else {
        assert(s[0] == piece[0]);
        if piece.len() == 1 {
            assert(s[1] == sep && s[0] != sep);
        } else {
            assert(s[1] == piece[1]);
            assert(!(piece[0] == sep && piece[1] == sep));
        }
        assert(!(s[0] == sep && s[1] == sep));
        assert(s.skip(1) =~= piece.skip(1) + seq![sep, sep] + rest);
        assert(!has_pair(piece.skip(1), sep)) by {
            if has_pair(piece.skip(1), sep) {
                let k = choose|k: int|
                    0 <= k < piece.skip(1).len() - 1 && #[trigger] piece.skip(1)[k] == sep
                        && piece.skip(1)[k + 1] == sep;
                assert(piece[k + 1] == sep && piece[k + 2] == sep);
            }
        }
        assert(piece.skip(1).len() == 0 || piece.skip(1).last() != sep);
        lemma_split2_step(piece.skip(1), rest, sep);
        let inner = split2_chars(s.skip(1), sep);
        assert(inner == seq![piece.skip(1)] + split2_chars(rest, sep));
        assert(inner[0] == piece.skip(1));
        assert(seq![s[0]] + inner[0] =~= piece);
        assert(inner.skip(1) =~= split2_chars(rest, sep));
        assert(seq![seq![s[0]] + inner[0]] + inner.skip(1) =~= seq![piece] + split2_chars(
            rest,
            sep,
        ));
    }
}

/// Splits a string at every occurrence of two adjacent `sep` characters,
/// non-overlapping and left to right.
pub fn split_double(s: &str, sep: char) -> (r: Vec<String>)
    ensures
        r.deep_view() == split2_chars(s@, sep),
{
    let n = s.unicode_len();
    let mut r: Vec<String> = Vec::new();
    let mut cur: String = String::new();
    let ghost mut start: int = 0int;
    let mut i: usize = 0;
    proof {
        assert(cur@ =~= s@.subrange(0, 0));
        assert(cur@ + s@.skip(0) =~= s@);
        assert(r.deep_view() + split2_chars(s@, sep) =~= split2_chars(s@, sep));
    }
    while i < n
        invariant
            i <= n,
            n == s@.len(),
            0 <= start <= i as int,
            cur@ == s@.subrange(start, i as int),
            forall|k: int|
                start <= k < i as int ==> !(#[trigger] s@[k] == sep && k + 1 < s@.len() && s@[k
                    + 1] == sep),
            split2_chars(s@, sep) == r.deep_view() + split2_chars(cur@ + s@.skip(i as int), sep),
        decreases n - i,
    {
        let ghost r0 = r.deep_view();
        let ghost cur0 = cur@;
        let c = s.get_char(i);
        let mut split_here = false;
        if c == sep && i + 1 < n {
            if s.get_char(i + 1) == sep {
                split_here = true;
            }
        }
        if split_here {
            proof {
                assert(!has_pair(cur0, sep)) by {
                    if has_pair(cur0, sep) {
                        let k = choose|k: int|
                            0 <= k < cur0.len() - 1 && #[trigger] cur0[k] == sep && cur0[k + 1]
                                == sep;
                        assert(s@[start + k] == sep && s@[start + k + 1] == sep);
                    }
                }
                if cur0.len() > 0 {
                    assert(cur0.last() == s@[i as int - 1]);
                }
                assert(cur0 + s@.skip(i as int) =~= (cur0 + seq![sep, sep]) + s@.skip(
                    i as int + 2,
                ));
                lemma_split2_step(cur0, s@.skip(i as int + 2), sep);
            }
            r.push(cur);
            cur = String::new();
            proof {
                start = i as int + 2;
                assert(r.deep_view() =~= r0 + seq![cur0]);
                assert(r.deep_view() + split2_chars(s@.skip(start), sep) =~= r0 + (seq![cur0]
                    + split2_chars(s@.skip(start), sep)));
                assert(cur@ + s@.skip(start) =~= s@.skip(start));
                assert(cur@ =~= s@.subrange(start, start));
            }
            i = i + 2;
        } else {
            push_char(&mut cur, c);
            proof {
                assert(cur@ =~= s@.subrange(start, i as int + 1));
                assert(cur@ + s@.skip(i as int + 1) =~= cur0 + s@.skip(i as int));
            }
            i = i + 1;
        }
    }
    let ghost rfin = r.deep_view();
    let ghost curfin = cur@;
    proof {
        assert(!has_pair(curfin, sep)) by {
            if has_pair(curfin, sep) {
                let k = choose|k: int|
                    0 <= k < curfin.len() - 1 && #[trigger] curfin[k] == sep && curfin[k + 1]
                        == sep;
                assert(s@[start + k] == sep && s@[start + k + 1] == sep);
            }
        }
        lemma_split2_no_pair(curfin, sep);
        assert(curfin + s@.skip(n as int) =~= curfin);
        assert(rfin + seq![curfin] =~= rfin + split2_chars(curfin + s@.skip(n as int), sep));
    }
    r.push(cur);
    proof {
        assert(r.deep_view() =~= rfin + seq![curfin]);
    }
    r
}

// ---------------------------------------------------------------------------
// Sizes
// ---------------------------------------------------------------------------
/// Whether a character is a decimal digit.
pub open spec fn is_digit(c: char) -> bool {
    '0' <= c <= '9'
}

/// Whether the sequence is one or more decimal digits and nothing else.
pub open spec fn all_digits(s: Seq<char>) -> bool {
    s.len() > 0 && forall|i: int| 0 <= i < s.len() ==> is_digit(s[i])
}

/// The number the digit sequence writes in decimal.
pub open spec fn dec_val(s: Seq<char>) -> int
    decreases s.len(),
{
    if s.len() == 0 {
        0
    } else {
        dec_val(s.drop_last()) * 10 + (s.last() as int - '0' as int)
    }
}

/// Every digit prefix writes a value no larger than the whole sequence's, and
/// no prefix value is negative.
proof fn lemma_dec_val_prefix(s: Seq<char>, j: int)
    requires
        0 <= j <= s.len(),
        forall|i: int| 0 <= i < s.len() ==> is_digit(s[i]),
    ensures
        0 <= dec_val(s.take(j)) <= dec_val(s),
    decreases s.len() - j,
{
    if j == s.len() {
        assert(s.take(j) =~= s);
        lemma_dec_val_nonneg(s);
    } else {
        lemma_dec_val_prefix(s, j + 1);
        assert(s.take(j + 1).drop_last() =~= s.take(j));
        assert(s.take(j + 1).last() == s[j]);
        lemma_dec_val_nonneg(s.take(j));
    }
}

/// A digit sequence never writes a negative value.
proof fn lemma_dec_val_nonneg(s: Seq<char>)
    requires
        forall|i: int| 0 <= i < s.len() ==> is_digit(s[i]),
    ensures
        dec_val(s) >= 0,
    decreases s.len(),
{
    if s.len() > 0 {
        assert(forall|i: int| 0 <= i < s.drop_last().len() ==> is_digit(s.drop_last()[i]));
        lemma_dec_val_nonneg(s.drop_last());
    }
}

/// Parse a decimal number: succeeds exactly on a nonempty all-digit string
/// whose value fits, and then returns that value.
pub fn parse_u64(s: &str) -> (r: Option<u64>)
    ensures
        r is Some <==> (all_digits(s@) && dec_val(s@) <= u64::MAX),
        r is Some ==> r->0 == dec_val(s@),
{
    let n = s.unicode_len();
    if n == 0 {
        return None;
    }
    let mut acc: u64 = 0;
    let mut i: usize = 0;
    proof {
        assert(s@.take(0) =~= Seq::<char>::empty());
    }
    while i < n
        invariant
            i <= n,
            n == s@.len(),
            forall|k: int| 0 <= k < i as int ==> is_digit(s@[k]),
            acc == dec_val(s@.take(i as int)),
        decreases n - i,
    {
        let c = s.get_char(i);
        if !(c >= '0' && c <= '9') {
            return None;
        }
        let d = (c as u32 - '0' as u32) as u64;
        let shifted = match acc.checked_mul(10) {
            Some(v) => v,
            None => {
                proof {
                    assert(dec_val(s@.take(i as int + 1)) > u64::MAX) by {
                        assert(s@.take(i as int + 1).drop_last() =~= s@.take(i as int));
                        assert(s@.take(i as int + 1).last() == s@[i as int]);
                    }
                    if all_digits(s@) {
                        lemma_dec_val_prefix(s@, i as int + 1);
                    }
                }
                return None;
            },
        };
        let total = match shifted.checked_add(d) {
            Some(v) => v,
            None => {
                proof {
                    assert(dec_val(s@.take(i as int + 1)) > u64::MAX) by {
                        assert(s@.take(i as int + 1).drop_last() =~= s@.take(i as int));
                        assert(s@.take(i as int + 1).last() == s@[i as int]);
                    }
                    if all_digits(s@) {
                        lemma_dec_val_prefix(s@, i as int + 1);
                    }
                }
                return None;
            },
        };
        acc = total;
        proof {
            assert(s@.take(i as int + 1).drop_last() =~= s@.take(i as int));
            assert(s@.take(i as int + 1).last() == s@[i as int]);
        }
        i = i + 1;
    }
    proof {
        assert(s@.take(n as int) =~= s@);
    }
    Some(acc)
}

// ---------------------------------------------------------------------------
// Parsing a listing
// ---------------------------------------------------------------------------
/// The file type a `stat` type string stands for.
pub open spec fn file_type_of(s: Seq<char>) -> FileType {
    if s == "link"@ {
        FileType::TypeLink
    } else if s == "directory"@ {
        FileType::TypeDirectory
    } else if s == "regular file"@ || s == "regular empty file"@ {
        FileType::TypeFile
    } else {
        FileType::TypeUnknown
    }
}

/// Convert a `stat` type string into the file type it names.
pub fn parse_file_type(input: &str) -> (r: FileType)
    ensures
        r == file_type_of(input@),
{
    if str_eq(input, "link") {
        FileType::TypeLink
    } else if str_eq(input, "directory") {
        FileType::TypeDirectory
    } else if str_eq(input, "regular file") || str_eq(input, "regular empty file") {
        FileType::TypeFile
    } else {
        FileType::TypeUnknown
    }
}

/// The file entry one listing chunk describes: its lines carry the name, the
/// permissions, the size and the type, each behind a six-character label. A
/// chunk with fewer than four lines, or whose size line does not carry a
/// number that fits, describes nothing.
pub open spec fn chunk_file(chunk: Seq<char>) -> Option<FileView> {
    let lines = split_chars(chunk, '\n');
    if lines.len() < 4 {
        None
    } else {
        let size_s = line_suffix(lines[2], 6);
        if all_digits(size_s) && dec_val(size_s) <= u64::MAX {
            Some(FileView {
                name: line_suffix(lines[0], 6),
                size: dec_val(size_s) as u64,
                file_type: file_type_of(line_suffix(lines[3], 6)),
                group: no_perm(),
                owner: no_perm(),
                other: no_perm(),
            })
        } else {
            None
        }
    }
}

/// Inserting a file into a listing keyed by name: it replaces the first entry
/// of the same name, or goes to the end when the name is new.
pub open spec fn insert_file_view(fs: Seq<FileView>, f: FileView) -> Seq<FileView>
    decreases fs.len(),
{
    if fs.len() == 0 {
        seq![f]
    } else if fs[0].name == f.name {
        seq![f] + fs.skip(1)
    } else {
        seq![fs[0]] + insert_file_view(fs.skip(1), f)
    }
}

/// The two entries every parsed listing starts with: the current directory
/// and its parent.
pub open spec fn seed_entries() -> Seq<FileView> {
    seq![
        (FileView {
            name: seq!['.'],
            size: 0,
            file_type: FileType::TypeDirectory,
            group: no_perm(),
            owner: no_perm(),
            other: no_perm(),
        }),
        (FileView {
            name: seq!['.', '.'],
            size: 0,
            file_type: FileType::TypeDirectory,
            group: no_perm(),
            owner: no_perm(),
            other: no_perm(),
        }),
    ]
}

/// Folding the chunks of a listing into files: chunks that describe nothing
/// are skipped, the rest are inserted by name.
pub open spec fn parse_dir_fold(fs: Seq<FileView>, chunks: Seq<Seq<char>>) -> Seq<FileView>
    decreases chunks.len(),
{
    if chunks.len() == 0 {
        fs
    } else {
        match chunk_file(chunks[0]) {
            None => parse_dir_fold(fs, chunks.skip(1)),
            Some(f) => parse_dir_fold(insert_file_view(fs, f), chunks.skip(1)),
        }
    }
}

/// The files a whole listing text describes: the two seed entries, then one
/// entry per blank-line-separated chunk, keyed by name.
pub open spec fn parse_dir(input: Seq<char>) -> Seq<FileView> {
    parse_dir_fold(seed_entries(), split2_chars(input, '\n'))
}

/// Which subdirectory navigation fails on: the name may be missing from the
/// listing, or name something that is not a directory.
#[derive(PartialEq, Eq, Structural, Clone, Copy, Debug)]
pub enum DirError {
    /// no entry of that name is in the listing
    NotFound,
    /// the entry of that name is not a directory
    NotADirectory,
}

/// The first listing entry with the given name.
pub open spec fn first_with_name(fs: Seq<FileView>, n: Seq<char>) -> Option<FileView>
    decreases fs.len(),
{
    if fs.len() == 0 {
        None
    } else if fs[0].name == n {
        Some(fs[0])
    } else {
        first_with_name(fs.skip(1), n)
    }
}

/// A remote directory: its files as last listed, and its path.
#[derive(Debug, Clone)]
pub struct Directory {
    /// The listed files, in listing order
    pub files: Vec<RemitFile>,
    /// The path of this directory
    pub path: SystemPath,
}

impl Directory {
    /// The views of the listed files.
    pub open spec fn files_view(&self) -> Seq<FileView> {
        self.files.deep_view()
    }

    /// Construct a directory at the empty path: with no text, an empty one;
    /// with the text of a listing, the files the listing describes.
    pub fn new(str_input: Option<String>) -> (r: Directory)
        ensures
            r.path.segs() == Seq::<Seq<char>>::empty(),
            match str_input {
                None => r.files_view() == Seq::<FileView>::empty(),
                Some(s) => r.files_view() == parse_dir(s@),
            },
    {
        match str_input {
            None => {
                let r = Directory { files: Vec::new(), path: SystemPath::new() };
                proof {
                    assert(r.files_view() =~= Seq::<FileView>::empty());
                }
                r
            },
            Some(s) => Directory { files: Directory::parse_string(s), path: SystemPath::new() },
        }
    }

    /// Clear the path and the file listing.
    pub fn clear(&mut self)
        ensures
            final(self).files_view() == Seq::<FileView>::empty(),
            final(self).path.segs() == Seq::<Seq<char>>::empty(),
            final(self).path.str_view() == Seq::<char>::empty(),
    {
        self.path.clear();
        self.files.clear();
        proof {
            assert(self.files_view() =~= Seq::<FileView>::empty());
        }
    }

    /// Parse the text of a listing into its files.
    pub fn parse_string(input: String) -> (r: Vec<RemitFile>)
        ensures
            r.deep_view() == parse_dir(input@),
    {
        let mut files: Vec<RemitFile> = Vec::new();
        let current = RemitFile::new_populated(".".to_owned(), None, Some(FileType::TypeDirectory));
        let updir = RemitFile::new_populated("..".to_owned(), None, Some(FileType::TypeDirectory));
        files.push(current);
        files.push(updir);
        proof {
            reveal_strlit(".");
            reveal_strlit("..");
            assert("."@ =~= seq!['.']);
            assert(".."@ =~= seq!['.', '.']);
            assert(files.deep_view() =~= seed_entries());
        }
        let ghost chunks = split2_chars(input@, '\n');
        let pieces = split_double(input.as_str(), '\n');
        let n = pieces.len();
        let mut i: usize = 0;
        proof {
            assert(chunks.skip(0) =~= chunks);
        }
        while i < n
            invariant
                i <= n,
                n == pieces@.len(),
                chunks == split2_chars(input@, '\n'),
                pieces.deep_view() == chunks,
                parse_dir(input@) == parse_dir_fold(files.deep_view(), chunks.skip(i as int)),
            decreases n - i,
        {
            let ghost fs0 = files.deep_view();
            proof {
                assert(chunks.skip(i as int)[0] == chunks[i as int]);
            }
            let chunk = &pieces[i];
            let lines = split_string(chunk.as_str(), '\n');
            if lines.len() >= 4 {
                let name = suffix_from(&lines[0], 6);
                let size_str = suffix_from(&lines[2], 6);
                let type_str = suffix_from(&lines[3], 6);
                proof {
                    assert(lines.deep_view()[0] == split_chars(chunk@, '\n')[0]);
                    assert(lines.deep_view()[2] == split_chars(chunk@, '\n')[2]);
                    assert(lines.deep_view()[3] == split_chars(chunk@, '\n')[3]);
                }
                match parse_u64(size_str.as_str()) {
                    Some(size) => {
                        let mut f = RemitFile::new();
                        f.info.name = name;
                        f.info.size = size;
                        f.info.file_type = parse_file_type(type_str.as_str());
                        let ghost fv = f@;
                        proof {
                            assert(chunk_file(chunks[i as int]) == Some(fv));
                        }
                        insert_file(&mut files, f);
                    },
                    None => {
                        proof {
                            assert(chunk_file(chunks[i as int]) is None);
                        }
                    },
                }
            } else {
                proof {
                    assert(split_chars(chunk@, '\n').len() < 4);
                    assert(chunk_file(chunks[i as int]) is None);
                }
            }
            proof {
                assert(chunks.skip(i as int).skip(1) =~= chunks.skip(i as int + 1));
            }
            i = i + 1;
        }
        proof {
            assert(chunks.skip(n as int) =~= Seq::<Seq<char>>::empty());
        }
        files
    }

    /// Navigate: `..` pops to the parent; any other name must be listed and
    /// name a directory, which is then pushed onto the path. The listing
    /// itself is not refreshed here.
    pub fn navigate(&mut self, name: String) -> (r: Result<(), DirError>)
        ensures
            final(self).files_view() == old(self).files_view(),
            name@ == ".."@ ==> r is Ok,
            name@ != ".."@ ==> match first_with_name(old(self).files_view(), name@) {
                None => r == Err::<(), DirError>(DirError::NotFound) && *final(self) == *old(self),
                Some(f) => {
                    if f.file_type == FileType::TypeDirectory {
                        r is Ok && (if seg_ok(name@) {
                            final(self).path.segs() == old(self).path.segs().push(name@) && final(self).path.str_view() == crate::system_path::path_of(
                                final(self).path.segs(),
                            )
                        } else {
                            final(self).path.segs() == old(self).path.segs() && final(self).path.str_view() == old(self).path.str_view()
                        })
                    } else {
                        r == Err::<(), DirError>(DirError::NotADirectory) && *final(self) == *old(self)
                    }
                },
            },
    {
        proof {
            reveal_strlit("..");
        }
        if str_eq(name.as_str(), "..") {
            self.path.popd();
            return Ok(());
        }
        let n = self.files.len();
        let mut i: usize = 0;
        proof {
            assert(self.files_view().skip(0) =~= self.files_view());
        }
        while i < n
            invariant
                i <= n,
                n == self.files@.len(),
                *self == *old(self),
                name@ != ".."@,
                first_with_name(self.files_view(), name@) == first_with_name(
                    self.files_view().skip(i as int),
                    name@,
                ),
            decreases n - i,
        {
            proof {
                assert(self.files_view().skip(i as int)[0] == self.files_view()[i as int]);
                assert(self.files_view().skip(i as int).skip(1) =~= self.files_view().skip(
                    i as int + 1,
                ));
            }
            if str_eq(self.files[i].info.name.as_str(), name.as_str()) {
                proof {
                    assert(self.files_view()[i as int].name == name@);
                    assert(first_with_name(self.files_view(), name@) == Some(
                        self.files_view()[i as int],
                    ));
                }
                if matches!(self.files[i].info.file_type, FileType::TypeDirectory) {
                    self.path.pushd(name);
                    return Ok(());
                } else {
                    return Err(DirError::NotADirectory);
                }
            }
            i = i + 1;
        }
        proof {
            assert(self.files_view().skip(n as int) =~= Seq::<FileView>::empty());
        }
        Err(DirError::NotFound)
    }
}

/// The characters of a line from position `k` on, as a string; empty when the
/// line is shorter.
fn suffix_from(line: &String, k: usize) -> (r: String)
    ensures
        r@ == line_suffix(line@, k as int),
{
    let n = line.as_str().unicode_len();
    if n >= k {
        let rest = line.as_str().substring_char(k, n);
        proof {
            assert(rest@ =~= line_suffix(line@, k as int));
        }
        rest.to_owned()
    } else {
        String::new()
    }
}

/// Insert a file entry, replacing the first one of the same name or appending
/// when the name is new.
fn insert_file(files: &mut Vec<RemitFile>, f: RemitFile)
    ensures
        final(files).deep_view() == insert_file_view(old(files).deep_view(), f@),
{
    let n = files.len();
    let mut i: usize = 0;
    while i < n
        invariant
            i <= n,
            n == files@.len(),
            *files == *old(files),
            forall|k: int| 0 <= k < i as int ==> files.deep_view()[k].name != f@.name,
        decreases n - i,
    {
        if str_eq(files[i].info.name.as_str(), f.info.name.as_str()) {
            let ghost fs = files.deep_view();
            let ghost fv = f@;
            files.set(i, f);
            proof {
                assert(files.deep_view() =~= fs.update(i as int, fv));
                lemma_file_insert_found(fs, fv, i as int);
            }
            return ;
        }
        i = i + 1;
    }
    let ghost fs = files.deep_view();
    let ghost fv = f@;
    files.push(f);
    proof {
        assert(files.deep_view() =~= fs.push(fv));
        lemma_file_insert_new(fs, fv);
    }
}

/// Inserting a file whose name is not in the listing appends it.
proof fn lemma_file_insert_new(fs: Seq<FileView>, f: FileView)
    requires
        forall|k: int| 0 <= k < fs.len() ==> fs[k].name != f.name,
    ensures
        insert_file_view(fs, f) == fs.push(f),
    decreases fs.len(),
{
    if fs.len() == 0 {
        assert(insert_file_view(fs, f) =~= fs.push(f));
    } else {
        lemma_file_insert_new(fs.skip(1), f);
        assert(seq![fs[0]] + fs.skip(1).push(f) =~= fs.push(f));
    }
}

/// Inserting a file whose name first occurs at position `j` replaces that
/// entry.
proof fn lemma_file_insert_found(fs: Seq<FileView>, f: FileView, j: int)
    requires
        0 <= j < fs.len(),
        fs[j].name == f.name,
        forall|k: int| 0 <= k < j ==> fs[k].name != f.name,
    ensures
        insert_file_view(fs, f) == fs.update(j, f),
    decreases j,
{
    if j == 0 {
        assert(seq![f] + fs.skip(1) =~= fs.update(0, f));
    } else {
        lemma_file_insert_found(fs.skip(1), f, j - 1);
        assert(fs.skip(1)[j - 1] == fs[j]);
        assert(seq![fs[0]] + fs.skip(1).update(j - 1, f) =~= fs.update(j, f));
    }
}

/// The remote command whose output [`Directory::parse_string`] reads: a
/// `stat` over every entry of the directory, one labelled line per field and
/// a blank line after each entry.
pub fn stat_command(path: &SystemPath) -> (r: String)
    ensures
        r@ == "(cd "@ + path.str_view()
            + " && stat .* * --printf='Name: %n\\nPermissions: %a\\nSize: %s\\nType: %F\\n\\n')"@,
{
    let mut out = String::new();
    out.append("(cd ");
    let p = path.get_path();
    out.append(p.as_str());
    out.append(" && stat .* * --printf='Name: %n\\nPermissions: %a\\nSize: %s\\nType: %F\\n\\n')");
    out
}

} // verus!
