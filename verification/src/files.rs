use vstd::prelude::*;

use crate::errors::FfiError;
use crate::nfs::{DirectoryListing, DirectoryListingV, File, FileV};

verus! {

/// The first file entry of `files` whose name is exactly `name`, if any.
pub open spec fn find_file(files: Seq<FileV>, name: Seq<char>) -> Option<FileV>
    decreases files.len(),
{
    if files.len() == 0 {
        None
    } else if files[0].name == name {
        Some(files[0])
    } else {
        find_file(files.skip(1), name)
    }
}

/// The size that asking for the named file of `dir` reports.
pub open spec fn file_size_spec(dir: DirectoryListingV, name: Seq<char>) -> Result<nat, FfiError> {
    match find_file(dir.files, name) {
        None => Err(FfiError::FileNotFound),
        Some(f) => Ok(f.content.len()),
    }
}

/// The bytes that asking for the named file of `dir` yields.
pub open spec fn file_content_spec(dir: DirectoryListingV, name: Seq<char>) -> Result<
    Seq<u8>,
    FfiError,
> {
    match find_file(dir.files, name) {
        None => Err(FfiError::FileNotFound),
        Some(f) => Ok(f.content),
    }
}

/// Reads the contents of one file entry; it borrows the listing the entry
/// was found in for as long as it lives.
pub struct Reader<'a> {
    file: &'a File,
}

impl<'a> View for Reader<'a> {
    type V = FileV;

    closed spec fn view(&self) -> FileV {
        self.file@
    }
}

impl<'a> Reader<'a> {
    /// The total size of the file, in bytes.
    pub fn size(&self) -> (r: u64)
        ensures
            r == self@.content.len(),
    {
        self.file.content.len() as u64
    }

    /// The `length` bytes of the file starting at `position`, or the
    /// service's failure when the range reaches past the end of the file.
    pub fn read(&self, position: u64, length: u64) -> (r: Result<Vec<u8>, FfiError>)
        ensures
            position + length <= self@.content.len() ==> (r matches Ok(v) && v@
                == self@.content.subrange(position as int, position as int + length as int)),
            position + length > self@.content.len() ==> r == Err::<Vec<u8>, FfiError>(
                FfiError::NfsError,
            ),
    {
        let size = self.file.content.len() as u64;
        if position > size || length > size - position {
            return Err(FfiError::NfsError);
        }
        let start = position as usize;
        let end = (position + length) as usize;
        let mut out: Vec<u8> = Vec::new();
        let mut k: usize = start;
        while k < end
            invariant
                start <= k <= end <= self.file.content.len(),
                out@ == self@.content.subrange(start as int, k as int),
            decreases end - k,
        {
            out.push(self.file.content[k]);
            assert(out@ =~= self@.content.subrange(start as int, k as int + 1));
            k += 1;
        }
        Ok(out)
    }
}

/// Unfolds `find_file` at position `i`: when the entry there does not
/// match, the search over the rest decides the result.
proof fn lemma_find_file_step(files: Seq<FileV>, name: Seq<char>, i: int)
    requires
        0 <= i < files.len(),
    ensures
        files[i].name == name ==> find_file(files.skip(i), name) == Some(files[i]),
        files[i].name != name ==> find_file(files.skip(i), name) == find_file(
            files.skip(i + 1),
            name,
        ),
{
    assert(files.skip(i)[0] == files[i]);
    assert(files.skip(i).skip(1) =~= files.skip(i + 1));
}

/// Locates the file entry of `parent_directory` named `name` and hands back
/// a reader over it; a name with no matching file entry is the one failure.
pub fn get_reader<'a>(name: &String, parent_directory: &'a DirectoryListing) -> (r: Result<
    Reader<'a>,
    FfiError,
>)
    ensures
        r matches Ok(reader) ==> find_file(parent_directory@.files, name@) == Some(reader@),
        r is Ok <==> find_file(parent_directory@.files, name@) is Some,
        r matches Err(e) ==> e == FfiError::FileNotFound,
{
    let n = parent_directory.files.len();
    let mut i: usize = 0;
    assert(parent_directory@.files.skip(0) =~= parent_directory@.files);
    while i < n
        invariant
            i <= n,
            n == parent_directory.files.len(),
            find_file(parent_directory@.files, name@) == find_file(
                parent_directory@.files.skip(i as int),
                name@,
            ),
        decreases n - i,
    {
        proof {
            lemma_find_file_step(parent_directory@.files, name@, i as int);
        }
        if parent_directory.files[i].name == *name {
            return Ok(Reader { file: &parent_directory.files[i] });
        }
        i += 1;
    }
    Err(FfiError::FileNotFound)
}

/// The size of the file of `parent_directory` named `name`; a name with no
/// matching file entry is the one failure.
pub fn get_file_size(name: &String, parent_directory: &DirectoryListing) -> (r: Result<
    u64,
    FfiError,
>)
    ensures
        r matches Ok(s) ==> file_size_spec(parent_directory@, name@) == Ok::<nat, FfiError>(
            s as nat,
        ),
        r matches Err(e) ==> file_size_spec(parent_directory@, name@) == Err::<nat, FfiError>(e),
{
    match get_reader(name, parent_directory) {
        Ok(reader) => Ok(reader.size()),
        Err(e) => Err(e),
    }
}

/// The full contents of the file of `parent_directory` named `name`, read
/// as the one byte range `[0, size)`; a name with no matching file entry is
/// the one failure.
pub fn get_file_content(name: &String, parent_directory: &DirectoryListing) -> (r: Result<
    Vec<u8>,
    FfiError,
>)
    ensures
        r matches Ok(v) ==> file_content_spec(parent_directory@, name@) == Ok::<Seq<u8>, FfiError>(
            v@,
        ),
        r matches Err(e) ==> file_content_spec(parent_directory@, name@) == Err::<Seq<u8>, FfiError>(
            e,
        ),
{
    match get_reader(name, parent_directory) {
        Ok(reader) => {
            let size = reader.size();
            let content = reader.read(0, size);
            match content {
                Ok(v) => {
                    assert(reader@.content.subrange(0, reader@.content.len() as int)
                        =~= reader@.content);
                    Ok(v)
                },
                Err(e) => Err(e),
            }
        },
        Err(e) => Err(e),
    }
}

/// Asking for a file's size and for its content from the same directory
/// listing succeed together, and the content has exactly the reported
/// size: `get_content` returns `size()` bytes.
pub proof fn lemma_content_has_reported_size(dir: DirectoryListingV, name: Seq<char>)
    ensures
        file_size_spec(dir, name) is Ok <==> file_content_spec(dir, name) is Ok,
        file_size_spec(dir, name) is Ok ==> file_content_spec(dir, name)->Ok_0.len()
            == file_size_spec(dir, name)->Ok_0,
{
}

} // verus!
