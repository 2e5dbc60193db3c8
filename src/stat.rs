use vstd::prelude::*;

verus! {

/// What the file store tells of one path: its kind, its size in bytes and
/// its times in milliseconds since the Unix epoch.
#[derive(Debug)]
pub struct FileStat {
    pub is_dir: bool,
    pub is_file: bool,
    pub file_type: String,
    pub size: u64,
    pub created: u128,
    pub modified: u128,
    pub accessed: u128,
}

/// A `FileStat` together with the name of the entry it describes.
#[derive(Debug)]
pub struct FileStatWithName {
    pub name: String,
    pub is_dir: bool,
    pub is_file: bool,
    pub file_type: String,
    pub size: u64,
    pub created: u128,
    pub modified: u128,
    pub accessed: u128,
}

impl FileStatWithName {
    /// The entry `name` described by `file_stat`.
    pub fn new(file_stat: &FileStat, name: &str) -> (r: Self)
        ensures
            r.name@ == name@,
            r.is_dir == file_stat.is_dir,
            r.is_file == file_stat.is_file,
            r.file_type@ == file_stat.file_type@,
            r.size == file_stat.size,
            r.created == file_stat.created,
            r.modified == file_stat.modified,
            r.accessed == file_stat.accessed,
    {
        FileStatWithName {
            name: name.to_string(),
            is_dir: file_stat.is_dir,
            is_file: file_stat.is_file,
            file_type: file_stat.file_type.clone(),
            size: file_stat.size,
            created: file_stat.created,
            modified: file_stat.modified,
            accessed: file_stat.accessed,
        }
    }
}

} // verus!
