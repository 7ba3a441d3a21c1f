use vstd::prelude::*;

use crate::errors::FfiError;

verus! {

/// Access level of a directory in the storage network.
#[derive(Clone, Copy, Debug, PartialEq, Eq, Structural)]
pub enum AccessLevel {
    Private,
    Public,
}

/// What the directory service needs to fetch a directory's full listing:
/// the directory's identity, its type tag, its versioning flag and its
/// access level.
#[derive(Clone, Copy, Debug, PartialEq, Eq, Structural)]
pub struct DirectoryKey {
    pub id: u64,
    pub type_tag: u64,
    pub versioned: bool,
    pub access_level: AccessLevel,
}

/// A sub-directory entry as it appears in its parent's listing: the entry's
/// name and the key under which its own listing can be fetched.
pub struct DirectoryMetadata {
    pub name: String,
    pub key: DirectoryKey,
}

/// Mathematical value of a `DirectoryMetadata`.
#[verifier::ext_equal]
pub struct DirectoryMetadataV {
    pub name: Seq<char>,
    pub key: DirectoryKey,
}

impl View for DirectoryMetadata {
    type V = DirectoryMetadataV;

    open spec fn view(&self) -> DirectoryMetadataV {
        DirectoryMetadataV { name: self.name@, key: self.key }
    }
}

/// A file entry of a directory: its name, and the bytes that a reader over
/// its data yields.
pub struct File {
    pub name: String,
    pub content: Vec<u8>,
}

/// Mathematical value of a `File`.
#[verifier::ext_equal]
pub struct FileV {
    pub name: Seq<char>,
    pub content: Seq<u8>,
}

impl View for File {
    type V = FileV;

    open spec fn view(&self) -> FileV {
        FileV { name: self.name@, content: self.content@ }
    }
}

/// A directory's full listing: its own metadata, its sub-directory entries
/// and its file entries, both in the order the service reports them.
pub struct DirectoryListing {
    pub metadata: DirectoryMetadata,
    pub sub_directories: Vec<DirectoryMetadata>,
    pub files: Vec<File>,
}

/// Mathematical value of a `DirectoryListing`.
#[verifier::ext_equal]
pub struct DirectoryListingV {
    pub metadata: DirectoryMetadataV,
    pub sub_directories: Seq<DirectoryMetadataV>,
    pub files: Seq<FileV>,
}

impl View for DirectoryListing {
    type V = DirectoryListingV;

    open spec fn view(&self) -> DirectoryListingV {
        DirectoryListingV {
            metadata: self.metadata@,
            sub_directories: self.sub_directories@.map_values(|m: DirectoryMetadata| m@),
            files: self.files@.map_values(|f: File| f@),
        }
    }
}

impl DirectoryListing {
    /// The sub-directory entries of this listing.
    pub fn get_sub_directories(&self) -> (r: &Vec<DirectoryMetadata>)
        ensures
            r@.map_values(|m: DirectoryMetadata| m@) == self@.sub_directories,
    {
        &self.sub_directories
    }

    /// The file entries of this listing.
    pub fn get_files(&self) -> (r: &Vec<File>)
        ensures
            r@.map_values(|f: File| f@) == self@.files,
    {
        &self.files
    }
}

/// The first listing a sequence of key/listing pairs associates with `key`,
/// if any.
pub open spec fn lookup_dir(
    dirs: Seq<(DirectoryKey, DirectoryListingV)>,
    key: DirectoryKey,
) -> Option<DirectoryListingV>
    decreases dirs.len(),
{
    if dirs.len() == 0 {
        None
    } else if dirs[0].0 == key {
        Some(dirs[0].1)
    } else {
        lookup_dir(dirs.skip(1), key)
    }
}

/// The client handle this library resolves paths and reads files through.
/// It models the storage network's directory tree as the deterministic
/// state the external services answer from: the root listing the account
/// starts at, and the listing the service returns for each directory key.
pub struct Client {
    pub root: DirectoryListing,
    pub directories: Vec<(DirectoryKey, DirectoryListing)>,
}

/// Mathematical value of a `Client`.
#[verifier::ext_equal]
pub struct ClientV {
    pub root: DirectoryListingV,
    pub directories: Seq<(DirectoryKey, DirectoryListingV)>,
}

impl View for Client {
    type V = ClientV;

    open spec fn view(&self) -> ClientV {
        ClientV {
            root: self.root@,
            directories: self.directories@.map_values(
                |p: (DirectoryKey, DirectoryListing)| (p.0, p.1@),
            ),
        }
    }
}

impl Client {
    /// The listing of the account's root directory.
    pub fn get_user_root_directory_listing(&self) -> (r: DirectoryListing)
        ensures
            r@ == self@.root,
    {
        copy_listing(&self.root)
    }

    /// The listing stored under `directory_key`, or the service's failure
    /// when it knows no such directory.
    pub fn get(&self, directory_key: &DirectoryKey) -> (r: Result<DirectoryListing, FfiError>)
        ensures
            (r matches Ok(d)) == (lookup_dir(self@.directories, *directory_key) is Some),
            r matches Ok(d) ==> Some(d@) == lookup_dir(self@.directories, *directory_key),
            r matches Err(e) ==> e == FfiError::NfsError,
    {
        let n = self.directories.len();
        let mut i: usize = 0;
        assert(self@.directories.skip(0) =~= self@.directories);
        while i < n
            invariant
                i <= n,
                n == self.directories.len(),
                lookup_dir(self@.directories, *directory_key) == lookup_dir(
                    self@.directories.skip(i as int),
                    *directory_key,
                ),
            decreases n - i,
        {
            proof {
                lemma_lookup_dir_step(self@.directories, *directory_key, i as int);
            }
            if self.directories[i].0 == *directory_key {
                return Ok(copy_listing(&self.directories[i].1));
            }
            i += 1;
        }
        Err(FfiError::NfsError)
    }
}

/// Unfolds `lookup_dir` at position `i`: when the entry there does not
/// match, the search over the rest decides the result.
proof fn lemma_lookup_dir_step(
    dirs: Seq<(DirectoryKey, DirectoryListingV)>,
    key: DirectoryKey,
    i: int,
)
    requires
        0 <= i < dirs.len(),
    ensures
        dirs[i].0 == key ==> lookup_dir(dirs.skip(i), key) == Some(dirs[i].1),
        dirs[i].0 != key ==> lookup_dir(dirs.skip(i), key) == lookup_dir(dirs.skip(i + 1), key),
{
    assert(dirs.skip(i)[0] == dirs[i]);
    assert(dirs.skip(i).skip(1) =~= dirs.skip(i + 1));
}

/// An owned copy of a byte vector.
fn copy_bytes(v: &Vec<u8>) -> (r: Vec<u8>)
    ensures
        r@ == v@,
{
    let mut r: Vec<u8> = Vec::new();
    let mut i: usize = 0;
    while i < v.len()
        invariant
            i <= v.len(),
            r@ == v@.subrange(0, i as int),
        decreases v.len() - i,
    {
        r.push(v[i]);
        assert(r@ =~= v@.subrange(0, i as int + 1));
        i += 1;
    }
    assert(r@ =~= v@);
    r
}

/// An owned copy of a sub-directory entry.
fn copy_metadata(m: &DirectoryMetadata) -> (r: DirectoryMetadata)
    ensures
        r@ == m@,
{
    DirectoryMetadata { name: m.name.clone(), key: m.key }
}

/// An owned copy of a file entry.
fn copy_file(f: &File) -> (r: File)
    ensures
        r@ == f@,
{
    File { name: f.name.clone(), content: copy_bytes(&f.content) }
}

/// An owned copy of a directory's full listing.
pub fn copy_listing(d: &DirectoryListing) -> (r: DirectoryListing)
    ensures
        r@ == d@,
{
    let mut sub_directories: Vec<DirectoryMetadata> = Vec::new();
    let mut i: usize = 0;
    while i < d.sub_directories.len()
        invariant
            i <= d.sub_directories.len(),
            sub_directories@.len() == i,
            forall|k: int| 0 <= k < i ==> #[trigger] sub_directories@[k]@ == d.sub_directories@[k]@,
        decreases d.sub_directories.len() - i,
    {
        sub_directories.push(copy_metadata(&d.sub_directories[i]));
        i += 1;
    }
    let mut files: Vec<File> = Vec::new();
    let mut j: usize = 0;
    while j < d.files.len()
        invariant
            j <= d.files.len(),
            files@.len() == j,
            forall|k: int| 0 <= k < j ==> #[trigger] files@[k]@ == d.files@[k]@,
        decreases d.files.len() - j,
    {
        files.push(copy_file(&d.files[j]));
        j += 1;
    }
    let r = DirectoryListing { metadata: copy_metadata(&d.metadata), sub_directories, files };
    assert(r@.sub_directories =~= d@.sub_directories);
    assert(r@.files =~= d@.files);
    assert(r@ =~= d@);
    r
}

} // verus!
