//! Archives of song folders: one archive per folder (an ".osz" file), and one
//! outer archive that holds the archives of the folders asked for.
use vstd::prelude::*;
use std::io::Write;

verus! {

/// Workers that read and pack folders side by side.
pub const WORKERS: usize = 4;

/// Finished folder archives that may wait for the writer of the outer archive.
pub const ARCHIVE_QUEUE_CAPACITY: usize = 24;

/// A zip archive being written into memory. Opaque: what it holds is known
/// through `zip_contents` alone.
#[verifier::external_body]
pub struct MemZip {
    inner: zip::ZipWriter<std::io::Cursor<Vec<u8>>>,
}

/// One entry of an archive: its name, whether it is a directory, its bytes.
pub type EntryModel = (Seq<char>, bool, Seq<u8>);

/// The entries written so far into a zip writer, in order.
pub uninterp spec fn zip_contents(w: MemZip) -> Seq<EntryModel>;

/// The bytes of the zip archive that writing these entries, each file with one
/// write and with default options, produces.
pub uninterp spec fn zip_bytes(entries: Seq<EntryModel>) -> Seq<u8>;

/// Entries below this many bytes are always accepted: the writer refuses a
/// file entry only once it holds more than `u32::MAX` bytes, compressed or not,
/// and deflate output stays below that for inputs under this bound.
pub const ENTRY_SIZE_LIMIT: u64 = 0x8000_0000;

/// Every entry holds fewer bytes than the writer ever refuses.
pub open spec fn entries_fit(entries: Seq<EntryModel>) -> bool {
    forall|i: int| 0 <= i < entries.len() ==> (#[trigger] entries[i]).2.len() < ENTRY_SIZE_LIMIT
}

/// The name under which a directory entry is stored: with a final '/',
/// added where the name ends in neither '/' nor '\'.
pub open spec fn dir_entry_name(name: Seq<char>) -> Seq<char> {
    if name.len() > 0 && (name.last() == '/' || name.last() == '\\') { name } else { name.push('/') }
}

/// Relies on `zip::ZipWriter::new` over an empty `std::io::Cursor`: the
/// writer holds no entry.
#[verifier::external_body]
fn zip_new() -> (w: MemZip)
    ensures
        zip_contents(w) == Seq::<EntryModel>::empty(),
{
    MemZip { inner: zip::ZipWriter::new(std::io::Cursor::new(Vec::new())) }
}

/// Relies on `zip::ZipWriter::start_file` with `FileOptions::default()`: on
/// success a file entry named `name`, empty so far, follows the others; it
/// fails only on an entry already written that is too large.
#[verifier::external_body]
fn zip_start_file(w: &mut MemZip, name: &str) -> (r: Result<(), std::io::Error>)
    ensures
        entries_fit(zip_contents(*old(w))) ==> r is Ok,
        r is Ok ==> zip_contents(*final(w)) == zip_contents(*old(w)).push((name@, false, Seq::<u8>::empty())),
{
    match w.inner.start_file(name, zip::write::FileOptions::default()) {
        Ok(()) => Ok(()),
        Err(e) => Err(std::io::Error::from(e)),
    }
}

/// Relies on `zip::ZipWriter::add_directory` with `FileOptions::default()`: on
/// success a directory entry follows the others, its name ending in '/'; it
/// fails only on an entry already written that is too large.
#[verifier::external_body]
fn zip_add_directory(w: &mut MemZip, name: &str) -> (r: Result<(), std::io::Error>)
    ensures
        entries_fit(zip_contents(*old(w))) ==> r is Ok,
        r is Ok ==> zip_contents(*final(w)) == zip_contents(*old(w)).push(
            (dir_entry_name(name@), true, Seq::<u8>::empty()),
        ),
{
    match w.inner.add_directory(name, zip::write::FileOptions::default()) {
        Ok(()) => Ok(()),
        Err(e) => Err(std::io::Error::from(e)),
    }
}

/// Relies on `std::io::Write::write_all` for `zip::ZipWriter`: while a file
/// entry is open, the bytes are added at the end of it; it fails only where
/// that entry grows too large.
#[verifier::external_body]
fn zip_write(w: &mut MemZip, data: &[u8]) -> (r: Result<(), std::io::Error>)
    requires
        zip_contents(*old(w)).len() > 0,
        !zip_contents(*old(w)).last().1,
    ensures
        entries_fit(zip_contents(*old(w)))
            && zip_contents(*old(w)).last().2.len() + data@.len() < ENTRY_SIZE_LIMIT ==> r is Ok,
        r is Ok ==> zip_contents(*final(w)) == zip_contents(*old(w)).update(
            zip_contents(*old(w)).len() - 1,
            (zip_contents(*old(w)).last().0, false, zip_contents(*old(w)).last().2 + data@),
        ),
{
    w.inner.write_all(data)
}

/// Relies on `zip::ZipWriter::finish` and `std::io::Cursor::into_inner`: the
/// bytes of the finished archive of the entries written; it fails only on an
/// entry that is too large.
#[verifier::external_body]
fn zip_finish(w: MemZip) -> (r: Result<Vec<u8>, std::io::Error>)
    ensures
        entries_fit(zip_contents(w)) ==> r is Ok,
        r is Ok ==> r->Ok_0@ == zip_bytes(zip_contents(w)),
{
    let mut w = w.inner;
    match w.finish() {
        Ok(cursor) => Ok(cursor.into_inner()),
        Err(e) => Err(std::io::Error::from(e)),
    }
}

/// The archive entry of an item of a folder: a file with its bytes, or a
/// directory (no bytes).
pub open spec fn item_entry(item: (String, Option<Vec<u8>>)) -> EntryModel {
    match item.1 {
        Some(bytes) => (item.0@, false, bytes@),
        None => (dir_entry_name(item.0@), true, Seq::<u8>::empty()),
    }
}

/// Every file among the items is smaller than any the writer refuses.
pub open spec fn items_fit(items: Seq<(String, Option<Vec<u8>>)>) -> bool {
    forall|i: int| 0 <= i < items.len() && (#[trigger] items[i]).1 is Some
        ==> items[i].1->Some_0@.len() < ENTRY_SIZE_LIMIT
}

pub open spec fn item_entries(items: Seq<(String, Option<Vec<u8>>)>) -> Seq<EntryModel> {
    items.map_values(|it: (String, Option<Vec<u8>>)| item_entry(it))
}

/// The archive of one song folder. `items` lists what lies inside the folder,
/// below its root, in the order of the walk: each with its path relative to the
/// folder, and the bytes of a file or `None` for a directory.
pub fn song_to_osz(items: &Vec<(String, Option<Vec<u8>>)>) -> (r: Result<Vec<u8>, std::io::Error>)
    ensures
        r is Ok ==> r->Ok_0@ == zip_bytes(item_entries(items@)),
        items_fit(items@) ==> r is Ok,
{
    let mut w = zip_new();
    let mut i: usize = 0;
    while i < items.len()
        invariant
            i <= items@.len(),
            zip_contents(w) == item_entries(items@.subrange(0, i as int)),
            items_fit(items@) ==> entries_fit(zip_contents(w)),
        decreases items@.len() - i,
    {
        let ghost before = zip_contents(w);
        let name = items[i].0.as_str();
        match &items[i].1 {
            Some(bytes) => {
                zip_start_file(&mut w, name)?;
                zip_write(&mut w, bytes.as_slice())?;
                assert(zip_contents(w) =~= before.push((name@, false, bytes@)));
            },
            None => {
                zip_add_directory(&mut w, name)?;
            },
        }
        i = i + 1;
        assert(item_entries(items@.subrange(0, i as int)) =~= before.push(item_entry(items@[i - 1])));
        proof {
            if items_fit(items@) {
                assert forall|k: int| 0 <= k < zip_contents(w).len() implies
                    (#[trigger] zip_contents(w)[k]).2.len() < ENTRY_SIZE_LIMIT by {
                    if k < before.len() {
                        assert(zip_contents(w)[k] == before[k]);
                    } else {
                        assert(zip_contents(w)[k] == item_entry(items@[i - 1]));
                    }
                }
            }
        }
    }
    assert(items@.subrange(0, items@.len() as int) =~= items@);
    zip_finish(w)
}

pub open spec fn osz_suffix() -> Seq<char> {
    seq!['.', 'o', 's', 'z']
}

/// The name of the archive of a folder: the folder's name and ".osz".
pub fn osz_name(folder_name: &str) -> (r: String)
    ensures
        r@ == folder_name@ + osz_suffix(),
{
    let mut r = folder_name.to_owned();
    r.append(".osz");
    proof {
        reveal_strlit(".osz");
    }
    assert(r@ =~= folder_name@ + osz_suffix());
    r
}

/// The entry of the outer archive for a folder: its archive, under the folder's
/// name with ".osz".
pub open spec fn outer_entry(song: (String, Vec<u8>)) -> EntryModel {
    (song.0@ + osz_suffix(), false, song.1@)
}

pub open spec fn outer_entries(songs: Seq<(String, Vec<u8>)>) -> Seq<EntryModel> {
    songs.map_values(|s: (String, Vec<u8>)| outer_entry(s))
}

/// The outer archive of a download: for each song folder, given by its name
/// and the bytes of its archive, one entry, in the order given.
pub fn pack_song_archives(songs: &Vec<(String, Vec<u8>)>) -> (r: Result<Vec<u8>, std::io::Error>)
    ensures
        r is Ok ==> r->Ok_0@ == zip_bytes(outer_entries(songs@)),
        (forall|i: int| 0 <= i < songs@.len() ==> (#[trigger] songs@[i]).1@.len() < ENTRY_SIZE_LIMIT)
            ==> r is Ok,
{
    let mut w = zip_new();
    let mut i: usize = 0;
    while i < songs.len()
        invariant
            i <= songs@.len(),
            zip_contents(w) == outer_entries(songs@.subrange(0, i as int)),
            (forall|k: int| 0 <= k < songs@.len() ==> (#[trigger] songs@[k]).1@.len() < ENTRY_SIZE_LIMIT)
                ==> entries_fit(zip_contents(w)),
        decreases songs@.len() - i,
    {
        let ghost before = zip_contents(w);
        let name = osz_name(songs[i].0.as_str());
        zip_start_file(&mut w, name.as_str())?;
        zip_write(&mut w, songs[i].1.as_slice())?;
        i = i + 1;
        assert(zip_contents(w) =~= before.push(outer_entry(songs@[i - 1])));
        assert(outer_entries(songs@.subrange(0, i as int)) =~= before.push(outer_entry(songs@[i - 1])));
        proof {
            if forall|k: int| 0 <= k < songs@.len() ==> (#[trigger] songs@[k]).1@.len() < ENTRY_SIZE_LIMIT {
                assert forall|k: int| 0 <= k < zip_contents(w).len() implies
                    (#[trigger] zip_contents(w)[k]).2.len() < ENTRY_SIZE_LIMIT by {
                    if k < before.len() {
                        assert(zip_contents(w)[k] == before[k]);
                    } else {
                        assert(zip_contents(w)[k] == outer_entry(songs@[i - 1]));
                    }
                }
            }
        }
    }
    assert(songs@.subrange(0, songs@.len() as int) =~= songs@);
    zip_finish(w)
}

/// Packing N folders writes exactly N entries into the outer archive, in the
/// order given: the k-th is named after the k-th folder with ".osz" and holds,
/// unchanged, the archive of that folder's files and directories.
pub proof fn lemma_outer_archive_listing(
    folders: Seq<(String, Seq<(String, Option<Vec<u8>>)>)>,
    songs: Seq<(String, Vec<u8>)>,
)
    requires
        songs.len() == folders.len(),
        forall|k: int| 0 <= k < songs.len() ==> (#[trigger] songs[k]).0 == folders[k].0
            && songs[k].1@ == zip_bytes(item_entries(folders[k].1)),
    ensures
        outer_entries(songs).len() == folders.len(),
        forall|k: int| 0 <= k < folders.len() ==> {
            &&& (#[trigger] outer_entries(songs)[k]).0 == folders[k].0@ + osz_suffix()
            &&& !outer_entries(songs)[k].1
            &&& outer_entries(songs)[k].2 == zip_bytes(item_entries(folders[k].1))
        },
{
    assert forall|k: int| 0 <= k < folders.len() implies {
        &&& (#[trigger] outer_entries(songs)[k]).0 == folders[k].0@ + osz_suffix()
        &&& !outer_entries(songs)[k].1
        &&& outer_entries(songs)[k].2 == zip_bytes(item_entries(folders[k].1))
    } by {
        assert(songs[k].0 == folders[k].0);
    }
}

} // verus!
