//! The catalog of song folders: which folders count, what their names say,
//! and the checksum that identifies their content.
use vstd::prelude::*;
use crate::decimal::{all_digits, digits_value, is_digit, parse_u64};

verus! {

/// One song folder: its number, its title, the checksum of its beatmap files
/// and, for a folder of this machine, where it lies.
#[derive(Clone, Debug)]
pub struct SongFolder {
    pub id: u64,
    pub name: String,
    pub checksum: String,
    pub path: Option<String>,
}

#[verifier::external_type_specification]
#[verifier::external_body]
pub struct ExIoError(std::io::Error);

#[derive(Debug)]
pub enum SongFolderError {
    InvalidPath(String),
    InvalidFolderName(String),
    IOError(std::io::Error),
}

// ----- folder names: "<digits> <artist> - <title>" -----

/// Number of digits at the start of `s`.
pub open spec fn digit_prefix_len(s: Seq<char>) -> nat
    decreases s.len(),
{
    if s.len() > 0 && is_digit(s[0]) {
        1 + digit_prefix_len(s.drop_first())
    } else {
        0
    }
}

pub open spec fn separator() -> Seq<char> {
    seq![' ', '-', ' ']
}

/// `s` holds " - " with at least one character on each side.
pub open spec fn has_separator_at(s: Seq<char>, i: int) -> bool {
    1 <= i && i + 3 < s.len() && s.subrange(i, i + 3) == separator()
}

/// The part after the number: "<artist> - <title>", on one line.
pub open spec fn is_title(s: Seq<char>) -> bool {
    &&& forall|i: int| 0 <= i < s.len() ==> #[trigger] s[i] != '\n'
    &&& exists|i: int| has_separator_at(s, i)
}

/// The name of a song folder: a run of digits (maybe empty), one space, a title.
pub open spec fn is_folder_name(s: Seq<char>) -> bool {
    let k = digit_prefix_len(s) as int;
    k < s.len() && s[k] == ' ' && is_title(s.subrange(k + 1, s.len() as int))
}

/// The number of a folder: its leading digits, or 0 where there are none or
/// they denote a number above `u64::MAX`.
pub open spec fn folder_id(s: Seq<char>) -> u64 {
    let v = digits_value(s.subrange(0, digit_prefix_len(s) as int));
    if v <= u64::MAX { v as u64 } else { 0 }
}

/// The title of a folder: all that follows the first space.
pub open spec fn folder_title(s: Seq<char>) -> Seq<char> {
    s.subrange(digit_prefix_len(s) as int + 1, s.len() as int)
}

/// Where a run of digits that starts `s` is known to end at `i`, the run has
/// `i` digits.
pub proof fn lemma_digit_prefix_len(s: Seq<char>, i: nat)
    requires
        i <= s.len(),
        all_digits(s.subrange(0, i as int)),
        i == s.len() || !is_digit(s[i as int]),
    ensures
        digit_prefix_len(s) == i,
    decreases i,
{
    if i > 0 {
        assert(s.subrange(0, i as int)[0] == s[0]);
        let t = s.drop_first();
        assert forall|j: int| 0 <= j < i - 1 implies is_digit(#[trigger] t.subrange(0, i - 1)[j]) by {
            assert(t.subrange(0, i - 1)[j] == s.subrange(0, i as int)[j + 1]);
        }
        if i < s.len() {
            assert(t[i - 1] == s[i as int]);
        }
        lemma_digit_prefix_len(t, (i - 1) as nat);
    }
}

/// The characters of `s`.
pub fn chars_of(s: &str) -> (v: Vec<char>)
    ensures
        v@ == s@,
{
    let len = s.unicode_len();
    let mut v: Vec<char> = Vec::new();
    let mut i: usize = 0;
    while i < len
        invariant
            len == s@.len(),
            i <= len,
            v@ == s@.subrange(0, i as int),
        decreases len - i,
    {
        let c = s.get_char(i);
        v.push(c);
        i = i + 1;
        assert(v@ =~= s@.subrange(0, i as int));
    }
    assert(v@ =~= s@);
    v
}

/// Whether `cs[from..]` is a title.
fn check_title(cs: &Vec<char>, from: usize) -> (r: bool)
    requires
        from <= cs@.len(),
    ensures
        r == is_title(cs@.subrange(from as int, cs@.len() as int)),
{
    let ghost t = cs@.subrange(from as int, cs@.len() as int);
    let len = cs.len();
    let mut found = false;
    let mut i: usize = from;
    while i < len
        invariant
            len == cs@.len(),
            from <= i <= len,
            t == cs@.subrange(from as int, len as int),
            forall|j: int| 0 <= j < i - from ==> #[trigger] t[j] != '\n',
            found == exists|j: int| 0 <= j < i - from && has_separator_at(t, j),
        decreases len - i,
    {
        if cs[i] == '\n' {
            assert(t[i - from] == '\n');
            return false;
        }
        let j = i - from;
        let sep_here = j >= 1 && 3 < len - i && cs[i] == ' ' && cs[i + 1] == '-' && cs[i + 2] == ' ';
        proof {
            if j >= 1 && i + 3 < len {
                assert(t.subrange(j as int, j + 3) =~= cs@.subrange(i as int, i + 3));
                if cs@.subrange(i as int, i + 3) == separator() {
                    assert(cs@.subrange(i as int, i + 3)[1] == cs@[i + 1]);
                    assert(cs@.subrange(i as int, i + 3)[2] == cs@[i + 2]);
                }
            }
            if sep_here {
                assert(cs@.subrange(i as int, i + 3) =~= separator());
                assert(has_separator_at(t, j as int));
            }
            if !sep_here && has_separator_at(t, j as int) {
                assert(t.subrange(j as int, j + 3)[0] == cs@[i as int]);
                assert(t.subrange(j as int, j + 3)[1] == cs@[i + 1]);
                assert(t.subrange(j as int, j + 3)[2] == cs@[i + 2]);
            }
        }
        found = found || sep_here;
        i = i + 1;
        proof {
            if found && !sep_here {
                let w = choose|w: int| 0 <= w < i - 1 - from && has_separator_at(t, w);
                assert(0 <= w < i - from && has_separator_at(t, w));
            }
        }
    }
    proof {
        if !found {
            assert forall|j: int| !has_separator_at(t, j) by {
                if has_separator_at(t, j) {
                    assert(0 <= j < len - from);
                }
            }
        }
    }
    found
}

/// Splits a folder name into its number and its title; `None` where the name
/// is not that of a song folder.
pub fn parse_folder_name(name: &str) -> (r: Option<(u64, String)>)
    ensures
        r is Some <==> is_folder_name(name@),
        r is Some ==> r->Some_0.0 == folder_id(name@) && r->Some_0.1@ == folder_title(name@),
{
    let cs = chars_of(name);
    let len = cs.len();
    let mut k: usize = 0;
    while k < len && '0' <= cs[k] && cs[k] <= '9'
        invariant
            len == cs@.len(),
            cs@ == name@,
            k <= len,
            all_digits(cs@.subrange(0, k as int)),
        decreases len - k,
    {
        k = k + 1;
        assert forall|j: int| 0 <= j < k implies is_digit(#[trigger] cs@.subrange(0, k as int)[j]) by {
            if j < k - 1 {
                assert(cs@.subrange(0, k as int)[j] == cs@.subrange(0, k - 1)[j]);
            }
        }
    }
    proof {
        lemma_digit_prefix_len(name@, k as nat);
    }
    if k >= len || cs[k] != ' ' {
        return None;
    }
    if !check_title(&cs, k + 1) {
        return None;
    }
    let digits = name.substring_char(0, k);
    let id = match parse_u64(digits) {
        Some(v) => v,
        None => 0,
    };
    proof {
        if k == 0 {
            assert(name@.subrange(0, 0) =~= Seq::<char>::empty());
            assert(digits_value(Seq::<char>::empty()) == 0);
        }
    }
    let title = name.substring_char(k + 1, len).to_owned();
    Some((id, title))
}

/// Whether a path names a song folder: a directory with a name of the right shape.
pub fn is_song_folder(is_dir: bool, folder_name: Option<&str>) -> (r: bool)
    ensures
        r == (is_dir && folder_name is Some && is_folder_name(folder_name->Some_0@)),
{
    match folder_name {
        Some(n) => is_dir && parse_folder_name(n).is_some(),
        None => false,
    }
}

// ----- checksum of a folder -----

/// The SHA-256 digest of a byte string.
pub uninterp spec fn sha256_of(data: Seq<u8>) -> Seq<u8>;

/// Relies on `sha2::Sha256::digest` (through the `Digest` trait): the
/// SHA-256 digest of `data`, which has 32 bytes.
#[verifier::external_body]
fn sha256_digest(data: &[u8]) -> (r: Vec<u8>)
    ensures
        r@ == sha256_of(data@),
        r@.len() == 32,
{
    <sha2::Sha256 as sha2::Digest>::digest(data).to_vec()
}

pub open spec fn hex_digit_upper(d: nat) -> char {
    if d < 10 {
        crate::decimal::digit_char(d)
    } else if d == 10 { 'A' }
    else if d == 11 { 'B' }
    else if d == 12 { 'C' }
    else if d == 13 { 'D' }
    else if d == 14 { 'E' }
    else { 'F' }
}

/// Upper-case hexadecimal text of bytes: two digits per byte, high half first.
pub open spec fn hex_upper(b: Seq<u8>) -> Seq<char>
    decreases b.len(),
{
    if b.len() == 0 {
        Seq::empty()
    } else {
        hex_upper(b.drop_last()) + seq![
            hex_digit_upper((b.last() / 16) as nat),
            hex_digit_upper((b.last() % 16) as nat),
        ]
    }
}

/// Relies on `data_encoding::HEXUPPER.encode`: base16 with the symbols
/// "0123456789ABCDEF", two symbols per byte, high half first.
#[verifier::external_body]
fn hex_upper_encode(b: &[u8]) -> (r: String)
    ensures
        r@ == hex_upper(b@),
{
    data_encoding::HEXUPPER.encode(b)
}

/// Hexadecimal text has two digits per byte.
pub proof fn lemma_hex_upper_len(b: Seq<u8>)
    ensures
        hex_upper(b).len() == 2 * b.len(),
    decreases b.len(),
{
    if b.len() > 0 {
        lemma_hex_upper_len(b.drop_last());
    }
}

pub open spec fn osu_suffix() -> Seq<char> {
    seq!['.', 'o', 's', 'u']
}

/// A file whose bytes go into the checksum: its name ends in ".osu".
pub open spec fn is_checksum_file_name(name: Seq<char>) -> bool {
    name.len() >= 4 && name.subrange(name.len() - 4, name.len() as int) == osu_suffix()
}

/// The bytes of the checksum files among `files`, one after another, in order.
pub open spec fn checksum_input(files: Seq<(String, Vec<u8>)>) -> Seq<u8>
    decreases files.len(),
{
    if files.len() == 0 {
        Seq::empty()
    } else {
        let last = files.last();
        let before = checksum_input(files.drop_last());
        if is_checksum_file_name(last.0@) { before + last.1@ } else { before }
    }
}

/// The checksum of a folder whose files are `files` (name and bytes).
pub open spec fn folder_checksum_spec(files: Seq<(String, Vec<u8>)>) -> Seq<char> {
    hex_upper(sha256_of(checksum_input(files)))
}

/// Whether a file of a folder counts towards its checksum.
pub fn is_checksum_file(name: &str) -> (r: bool)
    ensures
        r == is_checksum_file_name(name@),
{
    let cs = chars_of(name);
    let n = cs.len();
    if n < 4 {
        return false;
    }
    let r = cs[n - 4] == '.' && cs[n - 3] == 'o' && cs[n - 2] == 's' && cs[n - 1] == 'u';
    proof {
        let t = name@.subrange(n - 4, n as int);
        assert(t[0] == cs@[n - 4] && t[1] == cs@[n - 3] && t[2] == cs@[n - 2] && t[3] == cs@[n - 1]);
        if r {
            assert(t =~= osu_suffix());
        }
    }
    r
}

/// The checksum of a folder, from the names and bytes of the files directly in
/// it, in the order in which the folder lists them.
pub fn folder_checksum(files: &Vec<(String, Vec<u8>)>) -> (r: String)
    ensures
        r@ == folder_checksum_spec(files@),
        r@.len() == 64,
{
    let mut data: Vec<u8> = Vec::new();
    let mut i: usize = 0;
    while i < files.len()
        invariant
            i <= files@.len(),
            data@ == checksum_input(files@.subrange(0, i as int)),
        decreases files@.len() - i,
    {
        assert(files@.subrange(0, i + 1).drop_last() =~= files@.subrange(0, i as int));
        if is_checksum_file(files[i].0.as_str()) {
            let mut j: usize = 0;
            let ghost start = data@;
            while j < files[i].1.len()
                invariant
                    i < files@.len(),
                    j <= files@[i as int].1@.len(),
                    data@ == start + files@[i as int].1@.subrange(0, j as int),
                decreases files@[i as int].1@.len() - j,
            {
                data.push(files[i].1[j]);
                j = j + 1;
                assert(data@ =~= start + files@[i as int].1@.subrange(0, j as int));
            }
            assert(files@[i as int].1@.subrange(0, j as int) =~= files@[i as int].1@);
        }
        i = i + 1;
    }
    assert(files@.subrange(0, files@.len() as int) =~= files@);
    let digest = sha256_digest(data.as_slice());
    proof {
        lemma_hex_upper_len(digest@);
    }
    hex_upper_encode(digest.as_slice())
}

/// A folder without checksum files has the checksum of no bytes at all.
pub proof fn lemma_checksum_without_beatmaps(files: Seq<(String, Vec<u8>)>)
    requires
        forall|i: int| 0 <= i < files.len() ==> !is_checksum_file_name(#[trigger] files[i].0@),
    ensures
        folder_checksum_spec(files) == hex_upper(sha256_of(Seq::<u8>::empty())),
        checksum_input(files) == Seq::<u8>::empty(),
    decreases files.len(),
{
    if files.len() > 0 {
        let before = files.drop_last();
        assert forall|i: int| 0 <= i < before.len() implies !is_checksum_file_name(#[trigger] before[i].0@) by {
            assert(before[i] == files[i]);
        }
        lemma_checksum_without_beatmaps(before);
        assert(!is_checksum_file_name(files[files.len() - 1].0@));
    }
}

// ----- building an entry -----

/// The entry of the folder at `path`, when it is a song folder.
pub open spec fn folder_entry(
    path: String,
    is_dir: bool,
    folder_name: Option<String>,
    files: Seq<(String, Vec<u8>)>,
    r: Result<SongFolder, SongFolderError>,
) -> bool {
    if !is_dir || folder_name is None {
        r == Err::<SongFolder, SongFolderError>(SongFolderError::InvalidPath(path))
    } else if !is_folder_name(folder_name->Some_0@) {
        r == Err::<SongFolder, SongFolderError>(SongFolderError::InvalidFolderName(folder_name->Some_0))
    } else {
        &&& r is Ok
        &&& r->Ok_0.id == folder_id(folder_name->Some_0@)
        &&& r->Ok_0.name@ == folder_title(folder_name->Some_0@)
        &&& r->Ok_0.checksum@ == folder_checksum_spec(files)
        &&& r->Ok_0.checksum@.len() == 64
        &&& r->Ok_0.path == Some(path)
    }
}

impl SongFolder {
    /// The catalog entry of a folder: `path` is where it lies, `is_dir` whether
    /// that is a directory, `folder_name` its last component, and `files` the
    /// names and bytes of the files directly inside it (those that are not
    /// checksum files may be left out).
    pub fn new(
        path: String,
        is_dir: bool,
        folder_name: Option<String>,
        files: &Vec<(String, Vec<u8>)>,
    ) -> (r: Result<SongFolder, SongFolderError>)
        ensures
            folder_entry(path, is_dir, folder_name, files@, r),
    {
        if !is_dir {
            return Err(SongFolderError::InvalidPath(path));
        }
        let folder_name = match folder_name {
            Some(n) => n,
            None => {
                return Err(SongFolderError::InvalidPath(path));
            },
        };
        match parse_folder_name(folder_name.as_str()) {
            None => Err(SongFolderError::InvalidFolderName(folder_name)),
            Some((id, name)) => {
                let checksum = folder_checksum(files);
                Ok(SongFolder { id, name, checksum, path: Some(path) })
            },
        }
    }

    /// A copy of this entry.
    pub fn clone_entry(&self) -> (r: SongFolder)
        ensures
            r == *self,
    {
        let path = match &self.path {
            Some(p) => Some(p.clone()),
            None => None,
        };
        SongFolder { id: self.id, name: self.name.clone(), checksum: self.checksum.clone(), path }
    }

    /// Whether two entries stand for the same folder: same number and title.
    pub fn same_item(&self, other: &SongFolder) -> (r: bool)
        ensures
            r == same_item(*self, *other),
    {
        self.id == other.id && self.name == other.name
    }
}

pub open spec fn same_item(a: SongFolder, b: SongFolder) -> bool {
    a.id == b.id && a.name@ == b.name@
}

/// The name written from a number and a title reads back as that number and
/// that title.
pub proof fn lemma_folder_name_round_trip(id: u64, title: Seq<char>)
    requires
        is_title(title),
    ensures
        is_folder_name(crate::decimal::decimal(id as nat) + seq![' '] + title),
        folder_id(crate::decimal::decimal(id as nat) + seq![' '] + title) == id,
        folder_title(crate::decimal::decimal(id as nat) + seq![' '] + title) == title,
{
    let d = crate::decimal::decimal(id as nat);
    let s = d + seq![' '] + title;
    crate::decimal::lemma_decimal_value(id as nat);
    assert(s.subrange(0, d.len() as int) =~= d);
    assert(s[d.len() as int] == ' ');
    lemma_digit_prefix_len(s, d.len());
    assert(s.subrange(d.len() as int + 1, s.len() as int) =~= title);
}

/// Scanning a folder twice, with nothing changed in between, gives the same
/// outcome: the same error, or an entry with the same number, title, checksum
/// and path.
pub proof fn lemma_scan_is_stable(
    path: String,
    is_dir: bool,
    folder_name: Option<String>,
    files: Seq<(String, Vec<u8>)>,
    first: Result<SongFolder, SongFolderError>,
    second: Result<SongFolder, SongFolderError>,
)
    requires
        folder_entry(path, is_dir, folder_name, files, first),
        folder_entry(path, is_dir, folder_name, files, second),
    ensures
        first is Ok <==> second is Ok,
        first is Ok ==> same_item(first->Ok_0, second->Ok_0)
            && first->Ok_0.checksum@ == second->Ok_0.checksum@
            && first->Ok_0.path == second->Ok_0.path,
        first is Err ==> first == second,
{
}

// ----- answering a download request -----

/// `local[j]` is the first entry of `local` that stands for the same folder as `want`.
pub open spec fn is_first_match(local: Seq<SongFolder>, want: SongFolder, j: int) -> bool {
    &&& 0 <= j < local.len()
    &&& same_item(local[j], want)
    &&& forall|k: int| 0 <= k < j ==> !same_item(#[trigger] local[k], want)
}

/// Some entry of `local` stands for the same folder as `want`.
pub open spec fn resolves(local: Seq<SongFolder>, want: SongFolder) -> bool {
    exists|j: int| 0 <= j < local.len() && same_item(#[trigger] local[j], want)
}

/// `got` is the first entry of `local` that stands for the same folder as `want`.
pub open spec fn answers(local: Seq<SongFolder>, want: SongFolder, got: SongFolder) -> bool {
    exists|j: int| is_first_match(local, want, j) && got == local[j]
}

/// The first entry of `local` that stands for the same folder as `want`.
pub fn find_local(local: &Vec<SongFolder>, want: &SongFolder) -> (r: Option<usize>)
    ensures
        r is Some <==> resolves(local@, *want),
        r is Some ==> is_first_match(local@, *want, r->Some_0 as int),
{
    let mut j: usize = 0;
    while j < local.len()
        invariant
            j <= local@.len(),
            forall|k: int| 0 <= k < j ==> !same_item(#[trigger] local@[k], *want),
        decreases local@.len() - j,
    {
        if local[j].same_item(want) {
            return Some(j);
        }
        j = j + 1;
    }
    None
}

/// The local entries that a download request names, in the order of the
/// request; `Err(i)` where the entry at `i` of the request, and none before it,
/// stands for no local folder.
pub fn resolve_requested(local: &Vec<SongFolder>, requested: &Vec<SongFolder>) -> (r: Result<Vec<SongFolder>, usize>)
    ensures
        r is Ok <==> forall|i: int| 0 <= i < requested@.len() ==> resolves(local@, #[trigger] requested@[i]),
        r is Ok ==> r->Ok_0@.len() == requested@.len() && forall|i: int| 0 <= i < requested@.len() ==>
            #[trigger] answers(local@, requested@[i], r->Ok_0@[i]),
        r is Err ==> r->Err_0 < requested@.len() && !resolves(local@, requested@[r->Err_0 as int])
            && forall|i: int| 0 <= i < r->Err_0 ==> resolves(local@, #[trigger] requested@[i]),
{
    let mut out: Vec<SongFolder> = Vec::new();
    let mut i: usize = 0;
    while i < requested.len()
        invariant
            i <= requested@.len(),
            out@.len() == i,
            forall|k: int| 0 <= k < i ==> resolves(local@, #[trigger] requested@[k]),
            forall|k: int| 0 <= k < i ==> #[trigger] answers(local@, requested@[k], out@[k]),
        decreases requested@.len() - i,
    {
        match find_local(local, &requested[i]) {
            None => {
                return Err(i);
            },
            Some(j) => {
                let e = local[j].clone_entry();
                let ghost before = out@;
                out.push(e);
                assert(is_first_match(local@, requested@[i as int], j as int) && out@[i as int] == local@[j as int]);
                assert forall|k: int| 0 <= k <= i implies #[trigger] answers(local@, requested@[k], out@[k]) by {
                    if k < i {
                        assert(out@[k] == before[k]);
                    }
                }
            },
        }
        i = i + 1;
    }
    Ok(out)
}

} // verus!
