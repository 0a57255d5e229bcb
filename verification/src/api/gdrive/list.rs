//! Completing and sorting a listing of the remote folder.
//!
//! The backend lists files by their full paths and may leave out the
//! directories above them. The listing shown to the user has an entry for
//! every directory that a listed path lies in, directories first, each group
//! sorted by name without regard to case.

use vstd::prelude::*;
use crate::api::gdrive::types::{file_views, FileModel, GdriveFile};
use crate::order::{is_stable_order, permuted, sorted_positions, stable_order, SortKey};
use crate::text::{from_chars, last_index_of_char, rfind_char, same, slice, to_chars};

verus! {

/// The media type given to a directory that the listing left out.
pub const DIRECTORY_MIME_TYPE: &'static str = "inode/directory";

/// `name` in lower case, as `str::to_lowercase` gives it.
pub uninterp spec fn lowercase(name: Seq<char>) -> Seq<char>;

/// `name` in lower case.
///
/// Trusted: the body is `str::to_lowercase`, which maps each character to
/// its Unicode lower-case form. The contract only names that result.
#[verifier::external_body]
fn to_lowercase(name: &str) -> (lower: String)
    ensures
        lower@ == lowercase(name@),
{
    name.to_lowercase()
}

/// What follows the last `/` of `path`; all of it where it has none.
pub open spec fn last_segment(path: Seq<char>) -> Seq<char> {
    match last_index_of_char(path, '/') {
        Some(at) => path.skip(at + 1),
        None => path,
    }
}

/// The entry for the directory `path`, which the listing left out.
pub open spec fn directory_entry(path: Seq<char>) -> FileModel {
    FileModel {
        path,
        name: last_segment(path),
        is_dir: true,
        size: 0,
        mime_type: DIRECTORY_MIME_TYPE@,
    }
}

/// The paths of a list of entries.
pub open spec fn paths_of(entries: Seq<FileModel>) -> Seq<Seq<char>> {
    Seq::new(entries.len(), |i: int| entries[i].path)
}

/// The directories that `path` lies in, as far as its first `upto`
/// characters show them, added to `added` unless listed or added already.
/// Each `/` of the path ends the path of one directory.
pub open spec fn with_parents_of(
    listed: Seq<Seq<char>>,
    added: Seq<FileModel>,
    path: Seq<char>,
    upto: int,
) -> Seq<FileModel>
    decreases upto,
{
    if upto <= 0 {
        added
    } else {
        let before = with_parents_of(listed, added, path, upto - 1);
        let dir = path.take(upto - 1);
        if path[upto - 1] == '/' && !listed.contains(dir) && !paths_of(before).contains(dir) {
            before.push(directory_entry(dir))
        } else {
            before
        }
    }
}

/// The directories that the first `count` entries of `files` lie in and that
/// `files` does not list, each once, in the order in which they are first
/// needed.
pub open spec fn missing_directories(files: Seq<FileModel>, count: int) -> Seq<FileModel>
    decreases count,
{
    if count <= 0 {
        Seq::empty()
    } else {
        with_parents_of(
            paths_of(files),
            missing_directories(files, count - 1),
            files[count - 1].path,
            files[count - 1].path.len() as int,
        )
    }
}

/// The path `path` lies in the directory `dir`: it goes on with a `/` where
/// `dir` ends.
pub open spec fn lies_in(path: Seq<char>, dir: Seq<char>) -> bool {
    &&& dir.len() < path.len()
    &&& path[dir.len() as int] == '/'
    &&& path.take(dir.len() as int) == dir
}

/// One of the first `count` entries of `files` lies in the directory `dir`,
/// and `files` does not list it.
pub open spec fn is_missing(files: Seq<FileModel>, count: int, dir: Seq<char>) -> bool {
    &&& !paths_of(files).contains(dir)
    &&& exists|f: int| 0 <= f < count && f < files.len() && lies_in(#[trigger] files[f].path, dir)
}

/// What `with_parents_of` adds for one path: it keeps `added`, and appends
/// directory entries for directories that the path lies in and that are
/// neither listed nor in the result before; and it leaves out no directory
/// that the first `upto` characters of the path show.
proof fn lemma_with_parents_of(
    listed: Seq<Seq<char>>,
    added: Seq<FileModel>,
    path: Seq<char>,
    upto: int,
)
    requires
        0 <= upto <= path.len(),
    ensures
        ({
            let r = with_parents_of(listed, added, path, upto);
            &&& added.len() <= r.len()
            &&& forall|i: int| 0 <= i < added.len() ==> r[i] == added[i]
            &&& forall|i: int|
                added.len() <= i < r.len() ==> {
                    &&& (#[trigger] r[i]) == directory_entry(r[i].path)
                    &&& !listed.contains(r[i].path)
                    &&& lies_in(path, r[i].path)
                }
            &&& forall|i: int, j: int|
                added.len() <= i < r.len() && 0 <= j < i ==> (#[trigger] r[j]).path != (
                #[trigger] r[i]).path
            &&& forall|p: int|
                0 <= p < upto && path[p] == '/' ==> listed.contains(#[trigger] path.take(p))
                    || paths_of(r).contains(path.take(p))
        }),
    decreases upto,
{
    if upto > 0 {
        lemma_with_parents_of(listed, added, path, upto - 1);
        let before = with_parents_of(listed, added, path, upto - 1);
        let r = with_parents_of(listed, added, path, upto);
        let dir = path.take(upto - 1);
        let pushed = path[upto - 1] == '/' && !listed.contains(dir) && !paths_of(before).contains(
            dir,
        );
        if pushed {
            assert(r == before.push(directory_entry(dir)));
            assert forall|i: int, j: int| added.len() <= i < r.len() && 0 <= j < i implies (
            #[trigger] r[j]).path != (#[trigger] r[i]).path by {
                if i == before.len() {
                    assert(paths_of(before)[j] == before[j].path);
                }
            }
            assert(paths_of(r)[before.len() as int] == dir);
        }
        assert forall|p: int| 0 <= p < upto && path[p] == '/' implies listed.contains(
            #[trigger] path.take(p),
        ) || paths_of(r).contains(path.take(p)) by {
            if p < upto - 1 {
                if !listed.contains(path.take(p)) {
                    assert(paths_of(before).contains(path.take(p)));
                    let i = choose|i: int|
                        0 <= i < paths_of(before).len() && paths_of(before)[i] == path.take(p);
                    assert(paths_of(r)[i] == path.take(p));
                }
            } else {
                if !listed.contains(dir) && !pushed {
                    let i = choose|i: int|
                        0 <= i < paths_of(before).len() && paths_of(before)[i] == dir;
                    assert(paths_of(r)[i] == dir);
                }
            }
        }
    }
}

/// `missing_directories` gives every directory that is missing, once, and
/// nothing else: each of its entries is the directory entry of a missing
/// directory, no two of them have the same path, and every missing directory
/// is among them.
pub proof fn lemma_missing_directories(files: Seq<FileModel>, count: int)
    requires
        0 <= count <= files.len(),
    ensures
        ({
            let dirs = missing_directories(files, count);
            &&& forall|i: int|
                0 <= i < dirs.len() ==> {
                    &&& (#[trigger] dirs[i]) == directory_entry(dirs[i].path)
                    &&& is_missing(files, count, dirs[i].path)
                }
            &&& forall|i: int, j: int|
                0 <= j < i < dirs.len() ==> (#[trigger] dirs[j]).path != (#[trigger] dirs[i]).path
            &&& forall|dir: Seq<char>|
                is_missing(files, count, dir) ==> #[trigger] paths_of(dirs).contains(dir)
        }),
    decreases count,
{
    if count > 0 {
        lemma_missing_directories(files, count - 1);
        let listed = paths_of(files);
        let before = missing_directories(files, count - 1);
        let path = files[count - 1].path;
        lemma_with_parents_of(listed, before, path, path.len() as int);
        let dirs = missing_directories(files, count);
        assert forall|i: int| 0 <= i < dirs.len() implies {
            &&& (#[trigger] dirs[i]) == directory_entry(dirs[i].path)
            &&& is_missing(files, count, dirs[i].path)
        } by {
            if i < before.len() {
                assert(dirs[i] == before[i]);
                assert(is_missing(files, count - 1, before[i].path));
                let f = choose|f: int|
                    0 <= f < count - 1 && f < files.len() && lies_in(
                        #[trigger] files[f].path,
                        before[i].path,
                    );
                assert(lies_in(files[f].path, dirs[i].path));
            } else {
                assert(lies_in(files[count - 1].path, dirs[i].path));
            }
        }
        assert forall|i: int, j: int| 0 <= j < i < dirs.len() implies (#[trigger] dirs[j]).path
            != (#[trigger] dirs[i]).path by {
            if i < before.len() {
                assert(dirs[i] == before[i] && dirs[j] == before[j]);
            }
        }
        assert forall|dir: Seq<char>| is_missing(files, count, dir) implies #[trigger] paths_of(
            dirs,
        ).contains(dir) by {
            let f = choose|f: int|
                0 <= f < count && f < files.len() && lies_in(#[trigger] files[f].path, dir);
            if f < count - 1 {
                assert(is_missing(files, count - 1, dir));
                assert(paths_of(before).contains(dir));
                let i = choose|i: int|
                    0 <= i < paths_of(before).len() && paths_of(before)[i] == dir;
                assert(dirs[i] == before[i]);
                assert(paths_of(dirs)[i] == dir);
            } else {
                let p = dir.len() as int;
                assert(path.take(p) == dir);
                assert(listed.contains(path.take(p)) || paths_of(dirs).contains(path.take(p)));
            }
        }
    } else {
        assert(paths_of(missing_directories(files, count)).len() == 0);
    }
}

/// The listing with the directories it left out at its end.
pub open spec fn completed(files: Seq<FileModel>) -> Seq<FileModel> {
    files + missing_directories(files, files.len() as int)
}

/// What the entries are sorted by: directories before files, then the name
/// in lower case.
pub open spec fn listing_keys(entries: Seq<FileModel>) -> Seq<(u8, Seq<char>)> {
    Seq::new(
        entries.len(),
        |i: int|
            (
                if entries[i].is_dir {
                    0u8
                } else {
                    1u8
                },
                lowercase(entries[i].name),
            ),
    )
}

/// The text of each entry of a list of character vectors.
pub open spec fn char_texts(list: Seq<Vec<char>>) -> Seq<Seq<char>> {
    Seq::new(list.len(), |i: int| list[i]@)
}

/// Whether `list` holds the text `wanted`.
fn holds(list: &Vec<Vec<char>>, wanted: &Vec<char>) -> (r: bool)
    ensures
        r == char_texts(list@).contains(wanted@),
{
    let ghost views = char_texts(list@);
    let mut i: usize = 0;
    while i < list.len()
        invariant
            i <= list@.len(),
            views == char_texts(list@),
            forall|j: int| 0 <= j < i ==> views[j] != wanted@,
        decreases list.len() - i,
    {
        if same(&list[i], wanted) {
            assert(views[i as int] == wanted@);
            return true;
        }
        i += 1;
    }
    false
}

/// The entry for the directory `path`.
fn directory(path: &Vec<char>) -> (dir: GdriveFile)
    ensures
        dir@ == directory_entry(path@),
{
    let n: usize = path.len();
    let name = match rfind_char(path, '/') {
        Some(at) => {
            let name = slice(path, at + 1, n);
            assert(name@ =~= path@.skip(at + 1));
            name
        },
        None => {
            let name = slice(path, 0, n);
            assert(name@ =~= path@);
            name
        },
    };
    GdriveFile {
        path: from_chars(path),
        name: from_chars(&name),
        is_dir: true,
        size: 0,
        mime_type: DIRECTORY_MIME_TYPE.to_owned(),
    }
}

/// The directories that the listed paths lie in and that the listing leaves
/// out, each once, in the order in which they are first needed.
pub fn synthesize_directories(files: &Vec<GdriveFile>) -> (dirs: Vec<GdriveFile>)
    ensures
        file_views(dirs@) == missing_directories(file_views(files@), files@.len() as int),
{
    let ghost models = file_views(files@);
    let ghost listed_paths = paths_of(models);
    let mut listed: Vec<Vec<char>> = Vec::new();
    let mut f: usize = 0;
    while f < files.len()
        invariant
            f <= files@.len(),
            models == file_views(files@),
            listed@.len() == f,
            forall|j: int| 0 <= j < f ==> (#[trigger] listed@[j])@ == models[j].path,
        decreases files.len() - f,
    {
        listed.push(to_chars(files[f].path.as_str()));
        f += 1;
    }
    assert(char_texts(listed@) =~= listed_paths);
    let mut dirs: Vec<GdriveFile> = Vec::new();
    let mut added: Vec<Vec<char>> = Vec::new();
    let mut k: usize = 0;
    while k < files.len()
        invariant
            k <= files@.len(),
            models == file_views(files@),
            listed_paths == paths_of(models),
            listed@.len() == files@.len(),
            char_texts(listed@) == listed_paths,
            file_views(dirs@) == missing_directories(models, k as int),
            char_texts(added@) == paths_of(file_views(dirs@)),
        decreases files.len() - k,
    {
        let path = &listed[k];
        assert(path@ == models[k as int].path) by {
            assert(listed_paths[k as int] == models[k as int].path);
            assert(char_texts(listed@)[k as int] == listed@[k as int]@);
        }
        let ghost start = file_views(dirs@);
        let mut p: usize = 0;
        while p < path.len()
            invariant
                p <= path@.len(),
                listed@.len() == files@.len(),
                char_texts(listed@) == listed_paths,
                file_views(dirs@) == with_parents_of(listed_paths, start, path@, p as int),
                char_texts(added@) == paths_of(file_views(dirs@)),
            decreases path.len() - p,
        {
            let ghost before = file_views(dirs@);
            let ghost before_added = added@;
            assert(char_texts(added@).len() == added@.len());
            assert(paths_of(before).len() == dirs@.len());
            if path[p] == '/' {
                let dir = slice(path, 0, p);
                assert(dir@ =~= path@.take(p as int));
                if !holds(&listed, &dir) && !holds(&added, &dir) {
                    dirs.push(directory(&dir));
                    added.push(dir);
                    assert(file_views(dirs@) =~= before.push(
                        directory_entry(path@.take(p as int)),
                    ));
                    assert(char_texts(added@).len() == added@.len());
                    assert(paths_of(file_views(dirs@)).len() == dirs@.len());
                    assert forall|j: int| 0 <= j < added@.len() implies char_texts(added@)[j]
                        == paths_of(file_views(dirs@))[j] by {
                        assert(before_added.len() == paths_of(before).len());
                        if j < before_added.len() {
                            assert(added@[j] == before_added[j]);
                            assert(char_texts(before_added)[j] == paths_of(before)[j]);
                        }
                    }
                    assert(char_texts(added@) =~= paths_of(
                        file_views(dirs@),
                    ));
                }
            }
            p += 1;
        }
        k += 1;
    }
    dirs
}

/// The complete listing in the order it is shown in: every entry of `files`
/// and every directory that `files` leaves out, directories first, then by
/// name in lower case; entries that compare equal keep the order they have
/// in `files` followed by the added directories.
pub fn arrange_listing(files: &Vec<GdriveFile>) -> (listing: Vec<GdriveFile>)
    ensures
        file_views(listing@) == permuted(
            completed(file_views(files@)),
            sorted_positions(listing_keys(completed(file_views(files@)))),
        ),
        is_stable_order(
            listing_keys(completed(file_views(files@))),
            sorted_positions(listing_keys(completed(file_views(files@)))),
        ),
{
    let dirs = synthesize_directories(files);
    let ghost all = completed(file_views(files@));
    let mut keys: Vec<SortKey> = Vec::new();
    let mut i: usize = 0;
    while i < files.len()
        invariant
            i <= files@.len(),
            all == completed(file_views(files@)),
            file_views(dirs@) == missing_directories(file_views(files@), files@.len() as int),
            keys@.len() == i,
            forall|j: int| 0 <= j < i ==> (#[trigger] keys@[j])@ == listing_keys(all)[j],
        decreases files.len() - i,
    {
        let lower = to_lowercase(files[i].name.as_str());
        let rank: u8 = if files[i].is_dir {
            0
        } else {
            1
        };
        assert(all[i as int] == files@[i as int]@);
        keys.push(SortKey { rank, text: to_chars(lower.as_str()) });
        i += 1;
    }
    let mut d: usize = 0;
    while d < dirs.len()
        invariant
            d <= dirs@.len(),
            all == completed(file_views(files@)),
            file_views(dirs@) == missing_directories(file_views(files@), files@.len() as int),
            keys@.len() == files@.len() + d,
            forall|j: int|
                0 <= j < files@.len() + d ==> (#[trigger] keys@[j])@ == listing_keys(all)[j],
        decreases dirs.len() - d,
    {
        let lower = to_lowercase(dirs[d].name.as_str());
        let rank: u8 = if dirs[d].is_dir {
            0
        } else {
            1
        };
        assert(all[files@.len() + d] == file_views(dirs@)[d as int]);
        keys.push(SortKey { rank, text: to_chars(lower.as_str()) });
        d += 1;
    }
    assert(crate::order::key_views(keys@) =~= listing_keys(all));
    let order = stable_order(&keys);
    let mut listing: Vec<GdriveFile> = Vec::new();
    let mut n: usize = 0;
    while n < order.len()
        invariant
            n <= order@.len(),
            all == completed(file_views(files@)),
            file_views(dirs@) == missing_directories(file_views(files@), files@.len() as int),
            is_stable_order(listing_keys(all), order@),
            listing@.len() == n,
            forall|j: int| 0 <= j < n ==> (#[trigger] listing@[j])@ == all[order@[j] as int],
        decreases order.len() - n,
    {
        let at: usize = order[n];
        assert(at < all.len());
        if at < files.len() {
            assert(all[at as int] == files@[at as int]@);
            listing.push(files[at].duplicate());
        } else {
            assert(all[at as int] == file_views(dirs@)[at - files@.len()]);
            listing.push(dirs[at - files.len()].duplicate());
        }
        n += 1;
    }
    assert(file_views(listing@) =~= permuted(all, order@));
    listing
}

} // verus!
