use vstd::prelude::*;

use crate::errors::FfiError;
use crate::nfs::lookup_dir;
use crate::nfs::{Client, DirectoryKey, DirectoryListing, DirectoryListingV};
use crate::nfs::{DirectoryMetadata, DirectoryMetadataV};

verus! {

/// The first sub-directory entry of `subs` whose name is exactly `name`, if
/// any.
pub open spec fn find_sub_dir(subs: Seq<DirectoryMetadataV>, name: Seq<char>) -> Option<
    DirectoryMetadataV,
>
    decreases subs.len(),
{
    if subs.len() == 0 {
        None
    } else if subs[0].name == name {
        Some(subs[0])
    } else {
        find_sub_dir(subs.skip(1), name)
    }
}

/// What walking `segments` in order from `current` yields when the
/// directory service answers from `dirs`: each segment must name a
/// sub-directory entry of the directory reached so far, whose key the
/// service must know; the first failure aborts the walk.
pub open spec fn resolve_spec(
    dirs: Seq<(DirectoryKey, DirectoryListingV)>,
    current: DirectoryListingV,
    segments: Seq<Seq<char>>,
) -> Result<DirectoryListingV, FfiError>
    decreases segments.len(),
{
    if segments.len() == 0 {
        Ok(current)
    } else {
        match find_sub_dir(current.sub_directories, segments[0]) {
            None => Err(FfiError::PathNotFound),
            Some(entry) => match lookup_dir(dirs, entry.key) {
                None => Err(FfiError::NfsError),
                Some(next) => resolve_spec(dirs, next, segments.skip(1)),
            },
        }
    }
}

/// Unfolds `find_sub_dir` at position `i`: when the entry there does not
/// match, the search over the rest decides the result.
proof fn lemma_find_sub_dir_step(subs: Seq<DirectoryMetadataV>, name: Seq<char>, i: int)
    requires
        0 <= i < subs.len(),
    ensures
        subs[i].name == name ==> find_sub_dir(subs.skip(i), name) == Some(subs[i]),
        subs[i].name != name ==> find_sub_dir(subs.skip(i), name) == find_sub_dir(
            subs.skip(i + 1),
            name,
        ),
{
    assert(subs.skip(i)[0] == subs[i]);
    assert(subs.skip(i).skip(1) =~= subs.skip(i + 1));
}

/// The first sub-directory entry of `dir` named `name`, if any.
pub fn find_sub_directory<'a>(dir: &'a DirectoryListing, name: &String) -> (r: Option<
    &'a DirectoryMetadata,
>)
    ensures
        r matches Some(m) ==> find_sub_dir(dir@.sub_directories, name@) == Some(m@),
        r is None <==> find_sub_dir(dir@.sub_directories, name@) is None,
{
    let n = dir.sub_directories.len();
    let mut i: usize = 0;
    assert(dir@.sub_directories.skip(0) =~= dir@.sub_directories);
    while i < n
        invariant
            i <= n,
            n == dir.sub_directories.len(),
            find_sub_dir(dir@.sub_directories, name@) == find_sub_dir(
                dir@.sub_directories.skip(i as int),
                name@,
            ),
        decreases n - i,
    {
        proof {
            lemma_find_sub_dir_step(dir@.sub_directories, name@, i as int);
        }
        if dir.sub_directories[i].name == *name {
            return Some(&dir.sub_directories[i]);
        }
        i += 1;
    }
    None
}

/// Walks the tokenized path one segment at a time, starting from the root
/// listing of `client`'s account: each segment is looked up among the
/// current directory's sub-directory entries, and on a match the entry's
/// full listing is fetched and becomes the current directory. The first
/// failing step aborts the walk with its error.
pub fn get_final_subdirectory(tokens: &Vec<String>, client: &Client) -> (r: Result<
    DirectoryListing,
    FfiError,
>)
    ensures
        r matches Ok(d) ==> resolve_spec(client@.directories, client@.root, tokens.deep_view())
            == Ok::<DirectoryListingV, FfiError>(d@),
        r matches Err(e) ==> resolve_spec(client@.directories, client@.root, tokens.deep_view())
            == Err::<DirectoryListingV, FfiError>(e),
{
    let ghost segs = tokens.deep_view();
    let mut current = client.get_user_root_directory_listing();
    let n = tokens.len();
    let mut idx: usize = 0;
    assert(segs.skip(0) =~= segs);
    while idx < n
        invariant
            idx <= n,
            n == tokens.len(),
            segs == tokens.deep_view(),
            resolve_spec(client@.directories, client@.root, segs) == resolve_spec(
                client@.directories,
                current@,
                segs.skip(idx as int),
            ),
        decreases n - idx,
    {
        assert(segs.skip(idx as int)[0] == segs[idx as int]);
        assert(segs.skip(idx as int).skip(1) =~= segs.skip(idx as int + 1));
        let found = find_sub_directory(&current, &tokens[idx]);
        match found {
            None => {
                return Err(FfiError::PathNotFound);
            },
            Some(entry) => {
                let key = entry.key;
                match client.get(&key) {
                    Ok(next) => {
                        current = next;
                    },
                    Err(e) => {
                        return Err(e);
                    },
                }
            },
        }
        idx += 1;
    }
    assert(segs.skip(n as int).len() == 0);
    Ok(current)
}

/// Resolving an empty segment sequence returns the starting directory
/// unchanged.
pub proof fn lemma_resolve_empty(
    dirs: Seq<(DirectoryKey, DirectoryListingV)>,
    current: DirectoryListingV,
)
    ensures
        resolve_spec(dirs, current, Seq::empty()) == Ok::<DirectoryListingV, FfiError>(current),
{
}

/// A walk that meets a segment with no matching sub-directory entry fails
/// with `PathNotFound`, whatever segments would have followed: none of them
/// is looked at.
pub proof fn lemma_resolve_missing_segment_aborts(
    dirs: Seq<(DirectoryKey, DirectoryListingV)>,
    current: DirectoryListingV,
    segment: Seq<char>,
    later: Seq<Seq<char>>,
)
    requires
        find_sub_dir(current.sub_directories, segment) is None,
    ensures
        resolve_spec(dirs, current, seq![segment] + later) == Err::<DirectoryListingV, FfiError>(
            FfiError::PathNotFound,
        ),
{
    let segments = seq![segment] + later;
    assert(segments.len() > 0);
    assert(segments[0] == segment);
}

} // verus!
