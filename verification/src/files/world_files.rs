//! How the files of a world folder are named.

use vstd::prelude::*;
use vstd::string::*;

verus! {

/// The ending of the names of SUCC files.
pub const SUCC_FILE_TYPE: &'static str = ".succ";

/// The key of the extra data that a file holds: the name of the file
/// without the folder, the separator behind it and the ending. There is a
/// key where the name is long enough for these and has the ending.
pub open spec fn spec_key_of_file(folder: Seq<char>, name: Seq<char>, file_type: Seq<char>)
    -> Option<Seq<char>> {
    if name.len() >= folder.len() + 1 + file_type.len() && name.subrange(
        name.len() - file_type.len(),
        name.len() as int,
    ) == file_type {
        Some(name.subrange(folder.len() as int + 1, name.len() - file_type.len()))
    } else {
        None
    }
}

/// The key of the extra data that the file `name` in `folder` holds, if
/// the name ends with `file_type`.
pub fn key_of_file(folder: &str, name: &str, file_type: &str) -> (key: Option<String>)
    ensures
        match spec_key_of_file(folder@, name@, file_type@) {
            Some(text) => key is Some && key->Some_0@ == text,
            None => key is None,
        },
{
    let folder_length = folder.unicode_len();
    let name_length = name.unicode_len();
    let type_length = file_type.unicode_len();
    if name_length < type_length || name_length - type_length < folder_length
        || name_length - type_length - folder_length < 1 {
        return None;
    }
    let ending = name.substring_char(name_length - type_length, name_length);
    if ending.to_owned() != file_type.to_owned() {
        return None;
    }
    Some(name.substring_char(folder_length + 1, name_length - type_length).to_owned())
}

} // verus!
