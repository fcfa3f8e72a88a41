//! The three closed enumerations carried by inbound event records.
//!
//! Each is decoded from a single wire byte. The wire contract guarantees only
//! a bounded byte range, so every decoder is total: an unexpected byte maps to
//! the designated default variant instead of failing.

use vstd::prelude::*;

verus! {

/// The kind of I/O request the minifilter observed for one event.
#[derive(Debug, Clone, Copy, PartialEq, Eq, Structural)]
pub enum IrpMajorOp {
    IrpNone,
    IrpRead,
    IrpWrite,
    IrpSetInfo,
    IrpCreate,
    IrpCleanUp,
}

/// What one operation wire byte decodes to: bytes `0..=5` select the variant
/// of the same rank, and any other byte falls back to `IrpNone`.
pub open spec fn irp_major_op_of_byte(b: u8) -> IrpMajorOp {
    match b {
        0u8 => IrpMajorOp::IrpNone,
        1u8 => IrpMajorOp::IrpRead,
        2u8 => IrpMajorOp::IrpWrite,
        3u8 => IrpMajorOp::IrpSetInfo,
        4u8 => IrpMajorOp::IrpCreate,
        5u8 => IrpMajorOp::IrpCleanUp,
        _ => IrpMajorOp::IrpNone,
    }
}

impl IrpMajorOp {
    /// Decodes an operation byte; unknown bytes yield `IrpNone`.
    pub fn from_byte(b: u8) -> (r: IrpMajorOp)
        ensures
            r == irp_major_op_of_byte(b),
            b > 5 ==> r == IrpMajorOp::IrpNone,
    {
        match b {
            0u8 => IrpMajorOp::IrpNone,
            1u8 => IrpMajorOp::IrpRead,
            2u8 => IrpMajorOp::IrpWrite,
            3u8 => IrpMajorOp::IrpSetInfo,
            4u8 => IrpMajorOp::IrpCreate,
            5u8 => IrpMajorOp::IrpCleanUp,
            _ => IrpMajorOp::IrpNone,
        }
    }
}

/// The kind of change one event made to the file.
#[derive(Debug, Clone, Copy, PartialEq, Eq, Structural)]
pub enum FileChangeInfo {
    FileChangeNotSet,
    FileOpenDirectory,
    FileChangeWrite,
    FileChangeNewFile,
    FileChangeRenameFile,
    FileChangeExtensionChanged,
    FileChangeDeleteFile,
    FileChangeDeleteNewFile,
    FileChangeOverwriteFile,
}

/// What one change wire byte decodes to: bytes `0..=8` select the variant of
/// the same rank, and any other byte falls back to `FileChangeNotSet`.
pub open spec fn file_change_of_byte(b: u8) -> FileChangeInfo {
    match b {
        0u8 => FileChangeInfo::FileChangeNotSet,
        1u8 => FileChangeInfo::FileOpenDirectory,
        2u8 => FileChangeInfo::FileChangeWrite,
        3u8 => FileChangeInfo::FileChangeNewFile,
        4u8 => FileChangeInfo::FileChangeRenameFile,
        5u8 => FileChangeInfo::FileChangeExtensionChanged,
        6u8 => FileChangeInfo::FileChangeDeleteFile,
        7u8 => FileChangeInfo::FileChangeDeleteNewFile,
        8u8 => FileChangeInfo::FileChangeOverwriteFile,
        _ => FileChangeInfo::FileChangeNotSet,
    }
}

impl FileChangeInfo {
    /// Decodes a change byte; unknown bytes yield `FileChangeNotSet`.
    pub fn from_byte(b: u8) -> (r: FileChangeInfo)
        ensures
            r == file_change_of_byte(b),
            b > 8 ==> r == FileChangeInfo::FileChangeNotSet,
    {
        match b {
            0u8 => FileChangeInfo::FileChangeNotSet,
            1u8 => FileChangeInfo::FileOpenDirectory,
            2u8 => FileChangeInfo::FileChangeWrite,
            3u8 => FileChangeInfo::FileChangeNewFile,
            4u8 => FileChangeInfo::FileChangeRenameFile,
            5u8 => FileChangeInfo::FileChangeExtensionChanged,
            6u8 => FileChangeInfo::FileChangeDeleteFile,
            7u8 => FileChangeInfo::FileChangeDeleteNewFile,
            8u8 => FileChangeInfo::FileChangeOverwriteFile,
            _ => FileChangeInfo::FileChangeNotSet,
        }
    }
}

/// Whether the file of one event lies inside a directory the minifilter
/// protects, and whether it moved across that boundary.
#[derive(Debug, Clone, Copy, PartialEq, Eq, Structural)]
pub enum FileLocationInfo {
    FileNotProtected,
    FileProtected,
    FileMovedIn,
    FileMovedOut,
}

/// What one location wire byte decodes to: bytes `0..=3` select the variant
/// of the same rank, and any other byte falls back to `FileNotProtected`.
pub open spec fn file_location_of_byte(b: u8) -> FileLocationInfo {
    match b {
        0u8 => FileLocationInfo::FileNotProtected,
        1u8 => FileLocationInfo::FileProtected,
        2u8 => FileLocationInfo::FileMovedIn,
        3u8 => FileLocationInfo::FileMovedOut,
        _ => FileLocationInfo::FileNotProtected,
    }
}

impl FileLocationInfo {
    /// Decodes a location byte; unknown bytes yield `FileNotProtected`.
    pub fn from_byte(b: u8) -> (r: FileLocationInfo)
        ensures
            r == file_location_of_byte(b),
            b > 3 ==> r == FileLocationInfo::FileNotProtected,
    {
        match b {
            0u8 => FileLocationInfo::FileNotProtected,
            1u8 => FileLocationInfo::FileProtected,
            2u8 => FileLocationInfo::FileMovedIn,
            3u8 => FileLocationInfo::FileMovedOut,
            _ => FileLocationInfo::FileNotProtected,
        }
    }
}

} // verus!
