use blobstore_factory::git_sha1::git_sha1_deserialize;
use blobstore_factory::git_sha1::git_sha1_serialize;
use blobstore_factory::git_sha1::git_sha1_serialize_write;
use blobstore_factory::git_sha1::split_once;
use blobstore_factory::git_sha1::GitSha1Error;

#[test]
fn serialize_blob() {
    assert_eq!(git_sha1_serialize(b"hello", "blob"), b"blob 5\0hello".to_vec());
}

#[test]
fn serialize_empty_text() {
    assert_eq!(git_sha1_serialize(b"", "tree"), b"tree 0\0".to_vec());
}

#[test]
fn serialize_tree_of_ten_bytes() {
    let out = git_sha1_serialize(b"abcdefghij", "tree");
    assert_eq!(out, b"tree 10\0abcdefghij".to_vec());
    assert_eq!(out.len(), 18);
}

#[test]
fn serialize_size_with_several_digits() {
    let raw = vec![7u8; 1203];
    let out = git_sha1_serialize(&raw, "commit");
    assert_eq!(&out[..12], b"commit 1203\0");
    assert_eq!(&out[12..], &raw[..]);
}

#[test]
fn serialize_write_appends() {
    let mut out = b"x".to_vec();
    git_sha1_serialize_write(b"ab", "blob", &mut out);
    assert_eq!(out, b"xblob 2\0ab".to_vec());
}

#[test]
fn deserialize_round_trip() {
    let data = git_sha1_serialize(b"some text\0with nul and space", "commit");
    let (raw, kind) = git_sha1_deserialize(&data).unwrap();
    assert_eq!(raw, b"some text\0with nul and space");
    assert_eq!(kind, b"commit");
}

#[test]
fn deserialize_no_space() {
    assert_eq!(git_sha1_deserialize(b"blob5\0hello"), Err(GitSha1Error::NoSpaceSeparator));
}

#[test]
fn deserialize_no_nul() {
    assert_eq!(git_sha1_deserialize(b"blob 5hello"), Err(GitSha1Error::NoNulSeparator));
}

#[test]
fn deserialize_invalid_size() {
    assert_eq!(git_sha1_deserialize(b"blob five\0hello"), Err(GitSha1Error::InvalidSize));
    assert_eq!(git_sha1_deserialize(b"blob \0"), Err(GitSha1Error::InvalidSize));
    assert_eq!(git_sha1_deserialize(b"blob -5\0hello"), Err(GitSha1Error::InvalidSize));
    assert_eq!(git_sha1_deserialize(b"blob +\0"), Err(GitSha1Error::InvalidSize));
    assert_eq!(
        git_sha1_deserialize(b"blob 99999999999999999999999999\0hello"),
        Err(GitSha1Error::InvalidSize)
    );
}

#[test]
fn deserialize_wrong_size() {
    assert_eq!(git_sha1_deserialize(b"blob 4\0hello"), Err(GitSha1Error::WrongSize));
}

#[test]
fn deserialize_reads_size_as_rust_does() {
    assert_eq!(git_sha1_deserialize(b"blob +5\0hello"), Ok((&b"hello"[..], &b"blob"[..])));
    assert_eq!(git_sha1_deserialize(b"blob 005\0hello"), Ok((&b"hello"[..], &b"blob"[..])));
    assert_eq!("+5".parse::<usize>(), Ok(5));
    assert_eq!("005".parse::<usize>(), Ok(5));
    assert!("-5".parse::<usize>().is_err());
    assert!("+".parse::<usize>().is_err());
    assert!("".parse::<usize>().is_err());
}

#[test]
fn split_once_at_first_separator() {
    assert_eq!(split_once(b"a b c", b' '), Some((&b"a"[..], &b"b c"[..])));
    assert_eq!(split_once(b" ", b' '), Some((&b""[..], &b""[..])));
    assert_eq!(split_once(b"abc", b' '), None);
    assert_eq!(split_once(b"", 0), None);
}

#[test]
fn error_messages() {
    assert_eq!(GitSha1Error::NoSpaceSeparator.message(), "invalid git object - no space separator");
    assert_eq!(GitSha1Error::NoNulSeparator.message(), "invalid git object - no NUL separator");
    assert_eq!(GitSha1Error::WrongSize.message(), "invalid git object - wrong size");
}
