//! The files that go with a prompt: which paths are named, and what is read from them.

use vstd::prelude::*;
use vstd::string::*;

use crate::files::{ReadFile, ReadFileView};
use crate::json::{list_view, read_string_list, string_list_read};
use crate::mime::{detect_mime, mime_fits, tellable};
use crate::text::{decimal, join2, join3, to_decimal};

verus! {

/// The largest file that is uploaded, in bytes.
pub const MAX_FILE_BYTES: u64 = 200 * 1024 * 1024;

/// The most that all files of a prompt may have together, in bytes.
pub const MAX_TOTAL_FILE_BYTES: u64 = 500 * 1024 * 1024;

/// A file that can be uploaded: it is not empty, and its size is that of its bytes.
pub open spec fn sound_file(file: ReadFileView) -> bool {
    0 < file.data.len() && file.size == file.data.len()
}

/// `'path'`, as messages quote it.
pub open spec fn quoted(path: Seq<char>) -> Seq<char> {
    "'"@ + path + "'"@
}

/// That a file's metadata cannot be had.
pub open spec fn stat_message(path: Seq<char>, why: Seq<char>) -> Seq<char> {
    "cannot stat "@ + quoted(path) + ": "@ + why
}

/// That a file's bytes cannot be had.
pub open spec fn read_message(path: Seq<char>, why: Seq<char>) -> Seq<char> {
    "cannot read "@ + quoted(path) + ": "@ + why
}

/// That a file is too large.
pub open spec fn too_large_message(path: Seq<char>) -> Seq<char> {
    quoted(path) + " exceeds max upload size of "@ + decimal(MAX_FILE_BYTES as nat) + " bytes"@
}

/// That a file is empty.
pub open spec fn empty_message(path: Seq<char>) -> Seq<char> {
    quoted(path) + " is empty"@
}

/// That the files together are too large.
pub open spec fn total_message(total: nat) -> Seq<char> {
    "combined size of all files ("@ + decimal(total)
        + " bytes) exceeds max total upload size of "@ + decimal(MAX_TOTAL_FILE_BYTES as nat)
        + " bytes"@
}

/// The paths that a list of files names: none for no list, else those of a JSON list of
/// strings, or the message that it is none.
pub open spec fn file_paths(list: Seq<char>) -> Result<Seq<Seq<char>>, Seq<char>> {
    if list.len() == 0 {
        Ok(Seq::empty())
    } else {
        listed_paths(string_list_read(list))
    }
}

/// The paths that were read from a list, or the message that none could be.
pub open spec fn listed_paths(read: Result<Seq<Seq<char>>, Seq<char>>) -> Result<
    Seq<Seq<char>>,
    Seq<char>,
> {
    match read {
        Ok(paths) => Ok(paths),
        Err(why) => Err("bad file_path JSON: "@ + why),
    }
}

/// A message about a file.
pub(crate) fn about_file(before: &str, path: &str, after: &str) -> (message: String)
    ensures
        message@ == before@ + quoted(path@) + after@,
{
    let name = join3("'", path, "'");
    join3(before, name.as_str(), after)
}

/// Words the error of a list that could not be read.
pub fn name_list_error(read: Result<Vec<String>, String>) -> (paths: Result<Vec<String>, String>)
    ensures
        list_view(paths) == listed_paths(list_view(read)),
{
    match read {
        Ok(paths) => Ok(paths),
        Err(why) => Err(join2("bad file_path JSON: ", why.as_str())),
    }
}

/// The paths that a list of files names.
pub fn parse_file_paths(fp: &str) -> (paths: Result<Vec<String>, String>)
    ensures
        list_view(paths) == file_paths(fp@),
{
    if fp.is_empty() {
        let none: Vec<String> = Vec::new();
        assert(none.deep_view() == Seq::<Seq<char>>::empty());
        return Ok(none);
    }
    name_list_error(read_string_list(fp))
}

/// Refuses a file that is too large to be uploaded.
pub fn check_file_size(path: &str, len: u64) -> (result: Result<(), String>)
    ensures
        result is Ok <==> len <= MAX_FILE_BYTES,
        result is Ok <==> len <= 200 * 1024 * 1024,
        result matches Err(message) ==> message@ == too_large_message(path@),
{
    if len > MAX_FILE_BYTES {
        let limit = to_decimal(MAX_FILE_BYTES);
        let mut message = about_file("", path, " exceeds max upload size of ");
        message.append(limit.as_str());
        message.append(" bytes");
        proof {
            reveal_strlit("");
            assert(""@ + quoted(path@) == quoted(path@));
            assert(message@ == too_large_message(path@));
        }
        Err(message)
    } else {
        Ok(())
    }
}

/// The file that comes of its bytes, or the message why there is none.
pub open spec fn file_of(
    path: Seq<char>,
    data: Result<Seq<u8>, Seq<char>>,
    modified: u64,
    mime: Seq<char>,
) -> Result<ReadFileView, Seq<char>> {
    match data {
        Err(why) => Err(read_message(path, why)),
        Ok(bytes) => if bytes.len() == 0 {
            Err(empty_message(path))
        } else {
            Ok(ReadFileView { path, data: bytes, mime, size: bytes.len() as u64, modified })
        },
    }
}

/// Bytes or a message, over sequences.
pub open spec fn data_view(data: Result<Vec<u8>, String>) -> Result<Seq<u8>, Seq<char>> {
    match data {
        Ok(bytes) => Ok(bytes@),
        Err(why) => Err(why@),
    }
}

/// A file or a message, over sequences.
pub open spec fn file_view(file: Result<ReadFile, String>) -> Result<ReadFileView, Seq<char>> {
    match file {
        Ok(read) => Ok(read@),
        Err(why) => Err(why@),
    }
}

/// The type that a file got, where there is one.
pub open spec fn mime_of(file: Result<ReadFile, String>) -> Seq<char> {
    match file {
        Ok(read) => read.mime@,
        Err(_) => Seq::empty(),
    }
}

/// Takes the bytes of a file that was found to be small enough.
pub fn read_file(path: &str, data: Result<Vec<u8>, String>, modified: u64) -> (file: Result<
    ReadFile,
    String,
>)
    requires
        data matches Ok(bytes) ==> tellable(path@, bytes@),
    ensures
        file_view(file) == file_of(path@, data_view(data), modified, mime_of(file)),
        file matches Ok(read) ==> mime_fits(path@, read.data@, read.mime@) && sound_file(read@),
{
    match data {
        Err(why) => {
            let mut message = about_file("cannot read ", path, ": ");
            message.append(why.as_str());
            Err(message)
        },
        Ok(bytes) => {
            if bytes.len() == 0 {
                let message = about_file("", path, " is empty");
                proof {
                    reveal_strlit("");
                    assert(""@ + quoted(path@) == quoted(path@));
                }
                return Err(message);
            }
            let size = bytes.len() as u64;
            let mime = detect_mime(path, &bytes);
            Ok(ReadFile { path: path.to_owned(), data: bytes, mime, size, modified })
        },
    }
}

/// The most that a file may have is 200 MiB, and that all of a prompt may have together 500 MiB.
pub proof fn law_limits_are_these()
    ensures
        MAX_FILE_BYTES == 200 * 1024 * 1024,
        MAX_TOTAL_FILE_BYTES == 500 * 1024 * 1024,
{
}

/// A file whose bytes came is taken with all of them, its path, its time of change and its type,
/// however large it is, unless it is empty.
pub proof fn law_file_is_taken_whole(
    path: Seq<char>,
    bytes: Seq<u8>,
    modified: u64,
    mime: Seq<char>,
)
    requires
        bytes.len() <= usize::MAX,
    ensures
        bytes.len() == 0 ==> file_of(path, Ok(bytes), modified, mime) == Err::<
            ReadFileView,
            Seq<char>,
        >("'"@ + path + "'"@ + " is empty"@),
        bytes.len() > 0 ==> (file_of(path, Ok(bytes), modified, mime) matches Ok(file) && {
            &&& file.path == path
            &&& file.data == bytes
            &&& file.size == bytes.len()
            &&& file.modified == modified
            &&& file.mime == mime
            &&& sound_file(file)
        }),
{
}

/// A file whose bytes did not come is refused with the reason, and the messages name the path.
pub proof fn law_refusals_name_the_path(
    path: Seq<char>,
    why: Seq<char>,
    modified: u64,
    mime: Seq<char>,
)
    ensures
        file_of(path, Err(why), modified, mime) == Err::<ReadFileView, Seq<char>>(
            "cannot read "@ + ("'"@ + path + "'"@) + ": "@ + why,
        ),
        stat_message(path, why) == "cannot stat "@ + ("'"@ + path + "'"@) + ": "@ + why,
        too_large_message(path) == "'"@ + path + "'"@ + " exceeds max upload size of "@ + decimal(
            209715200,
        ) + " bytes"@,
{
}

/// No list names no files; any other names the files that it lists as JSON, all of them in their
/// order, or is refused with the reason.
pub proof fn law_listed_paths_are_kept(
    list: Seq<char>,
    paths: Seq<Seq<char>>,
    why: Seq<char>,
)
    ensures
        file_paths(Seq::empty()) == Ok::<Seq<Seq<char>>, Seq<char>>(Seq::empty()),
        list.len() > 0 && string_list_read(list) == Ok::<Seq<Seq<char>>, Seq<char>>(paths)
            ==> file_paths(list) == Ok::<Seq<Seq<char>>, Seq<char>>(paths),
        list.len() > 0 && string_list_read(list) == Err::<Seq<Seq<char>>, Seq<char>>(why)
            ==> file_paths(list) == Err::<Seq<Seq<char>>, Seq<char>>(
            "bad file_path JSON: "@ + why,
        ),
        listed_paths(Ok(paths)) == Ok::<Seq<Seq<char>>, Seq<char>>(paths),
        listed_paths(Err(why)) == Err::<Seq<Seq<char>>, Seq<char>>("bad file_path JSON: "@ + why),
{
}

/// What is said of these values is said of all that they hold.
pub proof fn law_file_views_leave_nothing_out(file: ReadFile, data: Vec<u8>, why: String)
    ensures
        file@.path == file.path@,
        file@.data == file.data@,
        file@.mime == file.mime@,
        file@.size == file.size,
        file@.modified == file.modified,
        file_view(Ok(file)) == Ok::<ReadFileView, Seq<char>>(file@),
        file_view(Err(why)) == Err::<ReadFileView, Seq<char>>(why@),
        data_view(Ok(data)) == Ok::<Seq<u8>, Seq<char>>(data@),
        data_view(Err(why)) == Err::<Seq<u8>, Seq<char>>(why@),
        mime_of(Ok(file)) == file.mime@,
{
}

} // verus!
