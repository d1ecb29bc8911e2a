//! Building the full path of each child in one reused buffer.
//!
//! The buffer starts with the parent's path and a separator, followed by room
//! for the longest name. Each child's name is written over that room, with a
//! terminator behind it, and the front of the buffer up to the terminator is
//! then the child's full path.

use vstd::prelude::*;

verus! {

/// The byte that separates the segments of a path.
pub const SEPARATOR: u8 = 47;

/// The byte that ends a path handed to the operating system.
pub const TERMINATOR: u8 = 0;

/// Room kept behind the parent's path for one child's name and its
/// terminator: twice the longest name of the platform.
pub const MAX_SIZED_DIRENT_LENGTH: usize = 2 * 256;

/// The directory to scan: its path, without a terminator, and its depth below
/// the root of the traversal, which has depth zero.
#[derive(Debug)]
pub struct DirectoryHandle {
    path: Vec<u8>,
    depth: u32,
}

impl DirectoryHandle {
    /// The handle's path.
    pub closed spec fn spec_bytes(&self) -> Seq<u8> {
        self.path@
    }

    /// The handle's depth.
    pub closed spec fn spec_depth(&self) -> u32 {
        self.depth
    }

    /// A handle for the directory at `path`, `depth` levels below the root of
    /// the traversal.
    pub fn new(path: Vec<u8>, depth: u32) -> (handle: DirectoryHandle)
        ensures
            handle.spec_bytes() == path@,
            handle.spec_depth() == depth,
    {
        DirectoryHandle { path, depth }
    }

    /// The bytes of the path.
    pub fn as_bytes(&self) -> (bytes: &[u8])
        ensures
            bytes@ == self.spec_bytes(),
    {
        self.path.as_slice()
    }

    /// The depth below the root of the traversal.
    pub fn depth(&self) -> (depth: u32)
        ensures
            depth == self.spec_depth(),
    {
        self.depth
    }
}

/// Whether `path` is the root of the file system: a single separator.
pub open spec fn is_root(path: Seq<u8>) -> bool {
    path == seq![SEPARATOR]
}

/// What every child's path starts with: the parent's path, and a separator
/// behind it unless the parent is the root, which ends in one already.
pub open spec fn child_prefix(parent: Seq<u8>) -> Seq<u8> {
    if is_root(parent) {
        parent
    } else {
        parent.push(SEPARATOR)
    }
}

/// The full path of the child `name` of `parent`, terminator included.
pub open spec fn child_path(parent: Seq<u8>, name: Seq<u8>) -> Seq<u8> {
    child_prefix(parent) + name + seq![TERMINATOR]
}

/// `n` zero bytes.
pub open spec fn zeros(n: nat) -> Seq<u8> {
    Seq::new(n, |i: int| 0u8)
}

/// Tells whether `path` is the root of the file system.
pub fn check_root(path: &[u8]) -> (root: bool)
    ensures
        root == is_root(path@),
{
    let root = path.len() == 1 && path[0] == SEPARATOR;
    proof {
        if root {
            assert(path@ =~= seq![SEPARATOR]);
        } else {
            assert(seq![SEPARATOR].len() == 1);
            assert(seq![SEPARATOR][0] == SEPARATOR);
        }
    }
    root
}

/// Makes the path buffer for the children of `dir_path`.
///
/// The buffer holds the parent's path, a separator unless the parent is the
/// root, and [`MAX_SIZED_DIRENT_LENGTH`] zero bytes of room. The number
/// returned is where a child's name is to be written: the length of what
/// stands before the room.
pub fn init_from_direntry(dir_path: &DirectoryHandle) -> (made: (Vec<u8>, usize))
    requires
        dir_path.spec_bytes().len() + 1 + MAX_SIZED_DIRENT_LENGTH <= usize::MAX,
    ensures
        made.0@ == child_prefix(dir_path.spec_bytes()) + zeros(MAX_SIZED_DIRENT_LENGTH as nat),
        made.1 == child_prefix(dir_path.spec_bytes()).len(),
        made.0@.len() == made.1 + MAX_SIZED_DIRENT_LENGTH,
{
    let bytes = dir_path.as_bytes();
    let parent_len = bytes.len();
    let root = check_root(bytes);
    let base_len: usize = if root {
        parent_len
    } else {
        parent_len + 1
    };
    let mut path_buffer = vec![0u8; base_len + MAX_SIZED_DIRENT_LENGTH];
    assert(path_buffer@ =~= zeros((base_len + MAX_SIZED_DIRENT_LENGTH) as nat));
    let mut i: usize = 0;
    while i < parent_len
        invariant
            i <= parent_len,
            parent_len == bytes@.len(),
            parent_len <= base_len,
            path_buffer@ == bytes@.subrange(0, i as int) + zeros(
                (base_len + MAX_SIZED_DIRENT_LENGTH - i) as nat,
            ),
        decreases parent_len - i,
    {
        path_buffer[i] = bytes[i];
        i = i + 1;
        assert(path_buffer@ =~= bytes@.subrange(0, i as int) + zeros(
            (base_len + MAX_SIZED_DIRENT_LENGTH - i) as nat,
        ));
    }
    if !root {
        path_buffer[parent_len] = SEPARATOR;
    }
    assert(path_buffer@ =~= child_prefix(bytes@) + zeros(MAX_SIZED_DIRENT_LENGTH as nat));
    (path_buffer, base_len)
}

/// Writes `filename` and a terminator into `buffer` at `base_len` and returns
/// the full path, which is the front of the buffer up to and including that
/// terminator, together with the place in it where the name starts.
///
/// The buffer must have room for the name and the terminator behind
/// `base_len`. What stands before `base_len` and behind the terminator is left
/// as it was.
pub fn append_filename_and_get_index(
    buffer: &mut Vec<u8>,
    base_len: usize,
    filename: &[u8],
) -> (appended: (Vec<u8>, usize))
    requires
        base_len + filename@.len() + 1 <= old(buffer)@.len(),
    ensures
        appended.0@ == old(buffer)@.subrange(0, base_len as int) + filename@ + seq![TERMINATOR],
        appended.1 == base_len,
        appended.1 <= appended.0@.len() - 1,
        appended.0@.subrange(appended.1 as int, appended.0@.len() - 1) == filename@,
        final(buffer)@ == appended.0@ + old(buffer)@.subrange(
            base_len + filename@.len() + 1,
            old(buffer)@.len() as int,
        ),
        final(buffer)@.len() == old(buffer)@.len(),
        final(buffer)@.subrange(0, base_len as int) == old(buffer)@.subrange(0, base_len as int),
{
    let filename_len = filename.len();
    assert(buffer@.len() == buffer.len());
    let end: usize = base_len + filename_len;
    let ghost before = buffer@;
    let ghost front = before.subrange(0, base_len as int);
    let mut i: usize = 0;
    while i < filename_len
        invariant
            i <= filename_len,
            filename_len == filename@.len(),
            end == base_len + filename_len,
            end + 1 <= before.len(),
            front == before.subrange(0, base_len as int),
            buffer@ == front + filename@.subrange(0, i as int) + before.subrange(
                base_len + i,
                before.len() as int,
            ),
        decreases filename_len - i,
    {
        buffer[base_len + i] = filename[i];
        i = i + 1;
        assert(buffer@ =~= front + filename@.subrange(0, i as int) + before.subrange(
            base_len + i,
            before.len() as int,
        ));
    }
    buffer[end] = TERMINATOR;
    assert(buffer@ =~= front + filename@ + seq![TERMINATOR] + before.subrange(
        end + 1,
        before.len() as int,
    ));
    let full_path = vstd::slice::slice_to_vec(
        vstd::slice::slice_subrange(buffer.as_slice(), 0, end + 1),
    );
    assert(full_path@ =~= front + filename@ + seq![TERMINATOR]);
    assert(full_path@.subrange(base_len as int, full_path@.len() - 1) =~= filename@);
    assert(buffer@.subrange(0, base_len as int) =~= front);
    (full_path, base_len)
}

/// Whether two separators stand side by side somewhere in `path`.
pub open spec fn has_double_separator(path: Seq<u8>) -> bool {
    exists|i: int|
        #![trigger path[i]]
        0 <= i < path.len() - 1 && path[i] == SEPARATOR && path[i + 1] == SEPARATOR
}

/// Whether `name` can be one segment of a path: it holds neither a separator
/// nor a terminator.
pub open spec fn is_segment(name: Seq<u8>) -> bool {
    forall|i: int| 0 <= i < name.len() ==> #[trigger] name[i] != SEPARATOR && name[i] != TERMINATOR
}

/// A child of the root has one separator before its name, and a child of any
/// other directory has its parent's path and one separator before its name.
pub proof fn lemma_child_path(parent: Seq<u8>, name: Seq<u8>)
    ensures
        is_root(parent) ==> child_path(parent, name) == seq![SEPARATOR] + name + seq![TERMINATOR],
        !is_root(parent) ==> child_path(parent, name) == parent + seq![SEPARATOR] + name
            + seq![TERMINATOR],
        child_path(parent, name).len() == child_prefix(parent).len() + name.len() + 1,
        child_path(parent, name).subrange(
            child_prefix(parent).len() as int,
            child_path(parent, name).len() - 1,
        ) == name,
{
    assert(parent.push(SEPARATOR) =~= parent + seq![SEPARATOR]);
    assert(child_path(parent, name).subrange(
        child_prefix(parent).len() as int,
        child_path(parent, name).len() - 1,
    ) =~= name);
}

/// No child's path has two separators side by side, whether the directory is
/// the root or not, as long as the parent's path has none and does not end in
/// a separator (unless it is the root) and the name is one segment.
pub proof fn lemma_no_double_separator(parent: Seq<u8>, name: Seq<u8>)
    requires
        !has_double_separator(parent),
        is_root(parent) || parent.len() == 0 || parent.last() != SEPARATOR,
        is_segment(name),
    ensures
        !has_double_separator(child_path(parent, name)),
{
    let path = child_path(parent, name);
    let prefix = child_prefix(parent);
    assert forall|i: int| 0 <= i < path.len() - 1 && #[trigger] path[i] == SEPARATOR implies path[i
        + 1] != SEPARATOR by {
        if i + 1 < parent.len() {
            assert(parent[i] == path[i]);
            assert(parent[i + 1] == path[i + 1]);
        } else if i + 1 < prefix.len() {
            assert(!is_root(parent));
            assert(i == parent.len() - 1);
            assert(parent.last() == path[i]);
        } else if i + 1 < prefix.len() + name.len() {
            assert(path[i + 1] == name[i + 1 - prefix.len()]);
        } else {
            assert(path[i + 1] == TERMINATOR);
        }
    }
}

/// Behind the prefix of its parent, the path of a child whose name is one
/// segment holds that segment and nothing else: the name starts right behind
/// a separator, no separator follows, and the terminator at the end is the
/// only one, as long as the parent's path holds none.
pub proof fn lemma_name_is_last_segment(parent: Seq<u8>, name: Seq<u8>)
    requires
        is_segment(name),
        forall|i: int| 0 <= i < parent.len() ==> #[trigger] parent[i] != TERMINATOR,
    ensures
        ({
            let path = child_path(parent, name);
            let start = child_prefix(parent).len() as int;
            &&& 0 < start < path.len()
            &&& path[start - 1] == SEPARATOR
            &&& forall|i: int| start <= i < path.len() ==> #[trigger] path[i] != SEPARATOR
            &&& forall|i: int| 0 <= i < path.len() - 1 ==> #[trigger] path[i] != TERMINATOR
            &&& path.last() == TERMINATOR
        }),
{
    let path = child_path(parent, name);
    let prefix = child_prefix(parent);
    assert forall|i: int| prefix.len() <= i < path.len() implies #[trigger] path[i]
        != SEPARATOR by {
        if i < path.len() - 1 {
            assert(path[i] == name[i - prefix.len()]);
        }
    }
    assert forall|i: int| 0 <= i < path.len() - 1 implies #[trigger] path[i] != TERMINATOR by {
        if i < parent.len() {
            assert(path[i] == parent[i]);
        } else if i >= prefix.len() {
            assert(path[i] == name[i - prefix.len()]);
        }
    }
}

} // verus!
