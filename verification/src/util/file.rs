//! The kinds of file that a path can name.
use vstd::prelude::*;

verus! {

/// The POSIX file types, in the order of their numeric codes.
#[derive(Debug, Clone, Copy, PartialEq, Eq, Hash, Structural)]
pub enum UnixFileType {
    File,
    Fifo,
    Dir,
    CharDevice,
    BlockDevice,
    Symlink,
    Socket,
}

impl UnixFileType {
    /// The numeric code of a file type.
    pub open spec fn code(self) -> int {
        match self {
            UnixFileType::File => 0,
            UnixFileType::Fifo => 1,
            UnixFileType::Dir => 2,
            UnixFileType::CharDevice => 3,
            UnixFileType::BlockDevice => 4,
            UnixFileType::Symlink => 5,
            UnixFileType::Socket => 6,
        }
    }

    /// Decodes a numeric code. Codes outside `0..=6` name no file type.
    pub fn from_i64(x: i64) -> (kind: Self)
        requires
            0 <= x <= 6,
        ensures
            kind.code() == x,
    {
        if x == 0 {
            UnixFileType::File
        } else if x == 1 {
            UnixFileType::Fifo
        } else if x == 2 {
            UnixFileType::Dir
        } else if x == 3 {
            UnixFileType::CharDevice
        } else if x == 4 {
            UnixFileType::BlockDevice
        } else if x == 5 {
            UnixFileType::Symlink
        } else {
            UnixFileType::Socket
        }
    }

    /// Encodes a file type as its numeric code.
    pub fn to_i64(self) -> (x: i64)
        ensures
            x == self.code(),
            0 <= x <= 6,
    {
        match self {
            UnixFileType::File => 0,
            UnixFileType::Fifo => 1,
            UnixFileType::Dir => 2,
            UnixFileType::CharDevice => 3,
            UnixFileType::BlockDevice => 4,
            UnixFileType::Symlink => 5,
            UnixFileType::Socket => 6,
        }
    }
}

} // verus!
