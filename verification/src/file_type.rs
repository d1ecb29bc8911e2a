//! Classification of the kernel's one-byte object-type code.

use vstd::prelude::*;

verus! {

/// Object-type code of a regular file.
pub const VREG: u8 = 1;

/// Object-type code of a directory.
pub const VDIR: u8 = 2;

/// Object-type code of a block device.
pub const VBLK: u8 = 3;

/// Object-type code of a character device.
pub const VCHR: u8 = 4;

/// Object-type code of a symbolic link.
pub const VLNK: u8 = 5;

/// Object-type code of a named pipe.
pub const VFIFO: u8 = 6;

/// Object-type code of a socket.
pub const VSOCK: u8 = 7;

/// What kind of file-system object an entry is.
///
/// The set is closed. Named pipes have no variant of their own: they are
/// reported as [`FileType::Socket`].
#[derive(Debug, Clone, Copy, PartialEq, Eq, Structural, Hash)]
pub enum FileType {
    RegularFile,
    Directory,
    Symlink,
    BlockDevice,
    CharDevice,
    Socket,
    Unknown,
}

/// The file type that an object-type code stands for.
pub open spec fn filetype_of_code(obj_type: u8) -> FileType {
    if obj_type == VREG {
        FileType::RegularFile
    } else if obj_type == VDIR {
        FileType::Directory
    } else if obj_type == VBLK {
        FileType::BlockDevice
    } else if obj_type == VCHR {
        FileType::CharDevice
    } else if obj_type == VLNK {
        FileType::Symlink
    } else if obj_type == VFIFO || obj_type == VSOCK {
        FileType::Socket
    } else {
        FileType::Unknown
    }
}

/// Maps an object-type code to its file type; every code outside `1..=7` is
/// [`FileType::Unknown`].
pub fn get_filetype(obj_type: u8) -> (file_type: FileType)
    ensures
        file_type == filetype_of_code(obj_type),
{
    match obj_type {
        VREG => FileType::RegularFile,
        VDIR => FileType::Directory,
        VLNK => FileType::Symlink,
        VBLK => FileType::BlockDevice,
        VCHR => FileType::CharDevice,
        VFIFO | VSOCK => FileType::Socket,
        _ => FileType::Unknown,
    }
}

} // verus!
