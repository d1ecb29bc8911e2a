//! The entries that a scan yields.

use vstd::prelude::*;
use crate::file_type::FileType;
use crate::path::TERMINATOR;

verus! {

/// What an entry holds.
pub struct EntryView {
    /// The full path, terminator included.
    pub path: Seq<u8>,
    /// The kind of object.
    pub file_type: FileType,
    /// Where in `path` the entry's own name starts.
    pub file_name_index: int,
    /// The depth below the root of the traversal.
    pub depth: u32,
    /// The file id.
    pub inode: u64,
    /// Whether the entry can be descended into, once that has been found out.
    pub traversible: Option<bool>,
}

impl EntryView {
    /// An entry is well formed when its path ends in a terminator and its name
    /// starts inside the path, at the terminator at the latest.
    pub open spec fn wf(self) -> bool {
        &&& self.path.len() >= 1
        &&& self.path.last() == TERMINATOR
        &&& 0 <= self.file_name_index <= self.path.len() - 1
    }

    /// The path without its terminator.
    pub open spec fn bytes(self) -> Seq<u8> {
        self.path.drop_last()
    }

    /// The entry's own name: the path from the name's start up to the
    /// terminator.
    pub open spec fn file_name(self) -> Seq<u8> {
        self.path.subrange(self.file_name_index, self.path.len() - 1)
    }
}

/// The text that the standard library's lossy conversion makes of `bytes`:
/// the text they encode in UTF-8, with a replacement character for each
/// sequence that encodes nothing.
pub uninterp spec fn utf8_lossy(bytes: Seq<u8>) -> Seq<char>;

/// Calls `String::from_utf8_lossy` and takes the text it returns as an owned
/// string. The text depends on the bytes alone; which text it is, is left to
/// the standard library.
#[verifier::external_body]
fn lossy_text(bytes: &[u8]) -> (text: String)
    ensures
        text@ == utf8_lossy(bytes@),
{
    String::from_utf8_lossy(bytes).into_owned()
}

/// One child of a scanned directory.
///
/// The entry owns its path: it stays valid when the scan goes on.
#[derive(Debug)]
pub struct DirEntryBeta {
    path: Vec<u8>,
    file_type: FileType,
    file_name_index: usize,
    depth: u32,
    inode: u64,
    is_traversible_cache: Option<bool>,
}

impl View for DirEntryBeta {
    type V = EntryView;

    closed spec fn view(&self) -> EntryView {
        EntryView {
            path: self.path@,
            file_type: self.file_type,
            file_name_index: self.file_name_index as int,
            depth: self.depth,
            inode: self.inode,
            traversible: self.is_traversible_cache,
        }
    }
}

impl Clone for DirEntryBeta {
    /// A copy with a path of its own.
    fn clone(&self) -> (copy: DirEntryBeta)
        ensures
            copy@ == self@,
    {
        proof {
            use_type_invariant(self);
        }
        let path = self.path.clone();
        assert(path@ =~= self.path@);
        DirEntryBeta {
            path,
            file_type: self.file_type,
            file_name_index: self.file_name_index,
            depth: self.depth,
            inode: self.inode,
            is_traversible_cache: self.is_traversible_cache,
        }
    }
}

impl DirEntryBeta {
    #[verifier::type_invariant]
    spec fn well_formed(self) -> bool {
        self@.wf()
    }

    /// An entry with the given path, which ends in a terminator, and the given
    /// attributes. Whether it can be descended into is not yet known.
    pub(crate) fn new(
        path: Vec<u8>,
        file_type: FileType,
        file_name_index: usize,
        depth: u32,
        inode: u64,
    ) -> (entry: DirEntryBeta)
        requires
            path@.len() >= 1,
            path@.last() == TERMINATOR,
            file_name_index <= path@.len() - 1,
        ensures
            entry@ == (EntryView {
                path: path@,
                file_type,
                file_name_index: file_name_index as int,
                depth,
                inode,
                traversible: None,
            }),
            entry@.wf(),
    {
        DirEntryBeta { path, file_type, file_name_index, depth, inode, is_traversible_cache: None }
    }

    /// The full path with its terminator, as the operating system takes it.
    pub fn path_with_terminator(&self) -> (path: &[u8])
        ensures
            path@ == self@.path,
            self@.wf(),
    {
        proof {
            use_type_invariant(self);
        }
        self.path.as_slice()
    }

    /// The full path without its terminator.
    pub fn as_bytes(&self) -> (bytes: &[u8])
        ensures
            bytes@ == self@.bytes(),
            self@.wf(),
    {
        proof {
            use_type_invariant(self);
        }
        vstd::slice::slice_subrange(self.path.as_slice(), 0, self.path.len() - 1)
    }

    /// The entry's own name: the last segment of the path.
    pub fn file_name(&self) -> (name: &[u8])
        ensures
            name@ == self@.file_name(),
            self@.wf(),
    {
        proof {
            use_type_invariant(self);
        }
        vstd::slice::slice_subrange(
            self.path.as_slice(),
            self.file_name_index,
            self.path.len() - 1,
        )
    }

    /// Where in the path the entry's own name starts.
    pub fn file_name_index(&self) -> (index: usize)
        ensures
            index == self@.file_name_index,
            self@.wf(),
    {
        proof {
            use_type_invariant(self);
        }
        self.file_name_index
    }

    /// The kind of object.
    pub fn file_type(&self) -> (file_type: FileType)
        ensures
            file_type == self@.file_type,
    {
        self.file_type
    }

    /// The depth below the root of the traversal.
    pub fn depth(&self) -> (depth: u32)
        ensures
            depth == self@.depth,
    {
        self.depth
    }

    /// The file id.
    pub fn ino(&self) -> (inode: u64)
        ensures
            inode == self@.inode,
    {
        self.inode
    }

    /// The full path as text. Bytes that are not UTF-8 are replaced, never
    /// rejected.
    pub fn to_string_lossy(&self) -> (text: String)
        ensures
            text@ == utf8_lossy(self@.bytes()),
    {
        lossy_text(self.as_bytes())
    }

    /// The entry's own name as text. Bytes that are not UTF-8 are replaced,
    /// never rejected.
    pub fn file_name_lossy(&self) -> (text: String)
        ensures
            text@ == utf8_lossy(self@.file_name()),
    {
        lossy_text(self.file_name())
    }

    /// Whether the entry can be descended into, where that has been found out
    /// and remembered.
    pub fn is_traversible_cache(&self) -> (cached: Option<bool>)
        ensures
            cached == self@.traversible,
    {
        self.is_traversible_cache
    }

    /// Tells whether the entry can be descended into, finding it out with
    /// `probe` at most once: where the answer is remembered already, it is
    /// returned and `probe` is not asked; otherwise `probe` is asked and its
    /// answer is remembered for every later call.
    pub fn traversible_or_else<F: FnOnce() -> bool>(&mut self, probe: F) -> (traversible: bool)
        requires
            old(self)@.traversible is None ==> probe.requires(()),
        ensures
            old(self)@.traversible matches Some(earlier) ==> traversible == earlier,
            old(self)@.traversible is None ==> probe.ensures((), traversible),
            final(self)@ == (EntryView { traversible: Some(traversible), ..old(self)@ }),
    {
        match self.is_traversible_cache {
            Some(earlier) => earlier,
            None => {
                proof {
                    use_type_invariant(&*self);
                }
                let found = probe();
                self.is_traversible_cache = Some(found);
                found
            },
        }
    }
}

} // verus!
