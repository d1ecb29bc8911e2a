use bulkdir::path::{
    append_filename_and_get_index, check_root, init_from_direntry, DirectoryHandle,
    MAX_SIZED_DIRENT_LENGTH, SEPARATOR, TERMINATOR,
};

#[test]
fn the_room_for_a_name_is_twice_the_longest_name() {
    assert_eq!(MAX_SIZED_DIRENT_LENGTH, 512);
    assert_eq!(SEPARATOR, b'/');
    assert_eq!(TERMINATOR, 0);
}

#[test]
fn a_handle_gives_back_its_path_and_depth() {
    let handle = DirectoryHandle::new(b"/usr/lib".to_vec(), 2);
    assert_eq!(handle.as_bytes(), b"/usr/lib");
    assert_eq!(handle.depth(), 2);
}

#[test]
fn only_a_single_separator_is_the_root() {
    assert!(check_root(b"/"));
    assert!(!check_root(b""));
    assert!(!check_root(b"//"));
    assert!(!check_root(b"/tmp"));
    assert!(!check_root(b"a"));
}

#[test]
fn the_buffer_of_the_root_gets_no_second_separator() {
    let handle = DirectoryHandle::new(b"/".to_vec(), 0);
    let (buffer, base_len) = init_from_direntry(&handle);
    assert_eq!(base_len, 1);
    assert_eq!(buffer.len(), 1 + 512);
    assert_eq!(buffer[0], b'/');
    assert!(buffer[1..].iter().all(|&b| b == 0));
}

#[test]
fn the_buffer_of_another_directory_gets_one_separator() {
    let handle = DirectoryHandle::new(b"/tmp".to_vec(), 0);
    let (buffer, base_len) = init_from_direntry(&handle);
    assert_eq!(base_len, 5);
    assert_eq!(buffer.len(), 5 + 512);
    assert_eq!(&buffer[..5], b"/tmp/");
    assert!(buffer[5..].iter().all(|&b| b == 0));
}

#[test]
fn the_buffer_of_an_empty_path_is_a_separator() {
    let handle = DirectoryHandle::new(Vec::new(), 0);
    let (buffer, base_len) = init_from_direntry(&handle);
    assert_eq!(base_len, 1);
    assert_eq!(buffer.len(), 513);
    assert_eq!(buffer[0], b'/');
}

#[test]
fn a_trailing_separator_of_the_parent_is_kept() {
    let handle = DirectoryHandle::new(b"/tmp/".to_vec(), 0);
    let (buffer, base_len) = init_from_direntry(&handle);
    assert_eq!(base_len, 6);
    assert_eq!(&buffer[..6], b"/tmp//");
}

#[test]
fn a_child_of_the_root_has_one_separator() {
    let handle = DirectoryHandle::new(b"/".to_vec(), 0);
    let (mut buffer, base_len) = init_from_direntry(&handle);
    let (path, index) = append_filename_and_get_index(&mut buffer, base_len, b"etc");
    assert_eq!(path, b"/etc\0");
    assert_eq!(index, 1);
}

#[test]
fn a_child_of_another_directory_has_one_separator_before_its_name() {
    let handle = DirectoryHandle::new(b"/tmp".to_vec(), 0);
    let (mut buffer, base_len) = init_from_direntry(&handle);
    let (path, index) = append_filename_and_get_index(&mut buffer, base_len, b"etc");
    assert_eq!(path, b"/tmp/etc\0");
    assert_eq!(index, 5);
}

#[test]
fn the_name_comes_back_from_the_path() {
    let handle = DirectoryHandle::new(b"/var/log".to_vec(), 1);
    let (mut buffer, base_len) = init_from_direntry(&handle);
    let names: [&[u8]; 4] = [b"system.log", b"a", b"", b"\xff\xfe name with spaces"];
    for name in names {
        let (path, index) = append_filename_and_get_index(&mut buffer, base_len, name);
        assert!(index <= path.len() - 1);
        assert_eq!(&path[index..path.len() - 1], name);
        assert_eq!(path[path.len() - 1], 0);
        assert_eq!(&path[..index], b"/var/log/");
    }
}

#[test]
fn a_shorter_name_after_a_longer_one_ends_at_its_own_terminator() {
    let handle = DirectoryHandle::new(b"/d".to_vec(), 0);
    let (mut buffer, base_len) = init_from_direntry(&handle);
    let (long, _) = append_filename_and_get_index(&mut buffer, base_len, b"a_long_name");
    let (short, _) = append_filename_and_get_index(&mut buffer, base_len, b"ab");
    assert_eq!(long, b"/d/a_long_name\0");
    assert_eq!(short, b"/d/ab\0");
    assert_eq!(&buffer[..6], b"/d/ab\0");
    assert_eq!(&buffer[6..15], b"ong_name\0");
}

#[test]
fn appending_leaves_the_rest_of_the_buffer_alone() {
    let mut buffer = vec![9u8; 12];
    let before = buffer.clone();
    let (path, index) = append_filename_and_get_index(&mut buffer, 2, b"xyz");
    assert_eq!(index, 2);
    assert_eq!(path, [9, 9, b'x', b'y', b'z', 0]);
    assert_eq!(buffer.len(), before.len());
    assert_eq!(&buffer[..6], &path[..]);
    assert_eq!(&buffer[6..], &before[6..]);
}

#[test]
fn the_longest_name_that_fits_fills_the_room() {
    let handle = DirectoryHandle::new(b"/p".to_vec(), 0);
    let (mut buffer, base_len) = init_from_direntry(&handle);
    let name = vec![b'n'; MAX_SIZED_DIRENT_LENGTH - 1];
    let (path, index) = append_filename_and_get_index(&mut buffer, base_len, &name);
    assert_eq!(path.len(), buffer.len());
    assert_eq!(index, 3);
    assert_eq!(&path[3..path.len() - 1], &name[..]);
    assert_eq!(path[path.len() - 1], 0);
}
