use ina::storage::compression::Compress;
use ina::storage::encryption::{frame, parse_frame, seal_with, Encrypt, EncryptError, EncryptErrorKind};
use ina::storage::format::{extension_with_suffix, DataFormat, XMachina};
use ina::storage::memory::{MemoryError, MemorySystem};
use ina::storage::{default_queue_capacity, join_path, path_key, run, Request, Response, Settings, Storage, System};

fn storage(directory: &str) -> Storage {
    Storage::new(Settings { system: System::Memory, directory: directory.to_owned(), queue_capacity: default_queue_capacity() })
}

#[test]
fn memory_read_after_write() {
    let mut memory = MemorySystem::new();
    assert!(!memory.contains_path("a"));
    assert_eq!(memory.read("a"), Err(MemoryError::MissingPath("a".to_owned())));
    assert_eq!(memory.write("a", &[1, 2, 3]), Ok(()));
    assert_eq!(memory.read("a"), Ok(vec![1, 2, 3]));
    assert_eq!(memory.size("a"), Ok(3));
    assert_eq!(memory.write("a", &[9]), Ok(()));
    assert_eq!(memory.read("a"), Ok(vec![9]));
    assert_eq!(memory.size("b"), Err(MemoryError::MissingPath("b".to_owned())));
}

#[test]
fn memory_rename_moves_bytes() {
    let mut memory = MemorySystem::new();
    memory.write("from", &[4, 5]).unwrap();
    memory.write("into", &[0]).unwrap();
    assert_eq!(memory.rename("from", "into"), Ok(()));
    assert!(!memory.contains_path("from"));
    assert_eq!(memory.read("into"), Ok(vec![4, 5]));
    assert_eq!(memory.rename("from", "into"), Err(MemoryError::MissingPath("from".to_owned())));
    assert_eq!(memory.rename("into", "into"), Ok(()));
    assert_eq!(memory.read("into"), Ok(vec![4, 5]));
}

#[test]
fn memory_delete_removes() {
    let mut memory = MemorySystem::new();
    memory.write("x", &[1]).unwrap();
    assert_eq!(memory.delete("x"), Ok(()));
    assert!(!memory.contains_path("x"));
    assert_eq!(memory.delete("x"), Err(MemoryError::MissingPath("x".to_owned())));
}

#[test]
fn join_paths() {
    assert_eq!(join_path("data", "user/1"), "data/user/1");
    assert_eq!(join_path("data/", "user"), "data/user");
    assert_eq!(join_path("", "user"), "user");
    assert_eq!(join_path("data", "/abs"), "/abs");
    assert_eq!(storage("data").resolve("x"), "data/x");
}

#[test]
fn system_names() {
    assert_eq!(System::default(), System::File);
    assert_eq!(System::File.name(), "file");
    assert_eq!(System::Memory.name(), "memory");
}

#[test]
fn storage_write_caches() {
    let mut system = MemorySystem::new();
    let mut store = storage("data");
    assert_eq!(store.write(&mut system, "k", &[7, 8]), Ok(()));
    assert_eq!(system.read("data/k"), Ok(vec![7, 8]));
    system.delete("data/k").unwrap();
    assert_eq!(store.read(&system, "k"), Ok(vec![7, 8]));
    assert_eq!(store.path_exists(&system, "k"), Ok(true));
    assert_eq!(store.size(&system, "k"), Ok(2));
}

#[test]
fn storage_read_fills_cache() {
    let mut system = MemorySystem::new();
    system.write("data/k", &[1]).unwrap();
    let mut store = storage("data");
    assert_eq!(store.read(&system, "k"), Ok(vec![1]));
    system.write("data/k", &[2]).unwrap();
    assert_eq!(store.read(&system, "k"), Ok(vec![1]));
    assert_eq!(store.read(&system, "missing"), Err(MemoryError::MissingPath("data/missing".to_owned())));
}

#[test]
fn storage_rename_and_delete() {
    let mut system = MemorySystem::new();
    let mut store = storage("data");
    store.write(&mut system, "a", &[3]).unwrap();
    assert_eq!(store.rename(&mut system, "a", "b"), Ok(()));
    assert_eq!(store.read(&system, "b"), Ok(vec![3]));
    assert_eq!(store.path_exists(&system, "a"), Ok(false));
    assert_eq!(store.delete(&mut system, "b"), Ok(()));
    assert_eq!(store.path_exists(&system, "b"), Ok(false));
    assert_eq!(store.delete(&mut system, "b"), Err(MemoryError::MissingPath("data/b".to_owned())));
}

#[test]
fn format_extensions() {
    assert_eq!(XMachina.extension(), "xmach");
    assert_eq!(Compress::new_default(XMachina).extension(), "xmach.gz");
    assert_eq!(Encrypt::new(Compress::new_fast(XMachina)).extension(), "xmach.gz.cha");
    assert_eq!(extension_with_suffix("a", ".b"), "a.b");
}

#[test]
fn compress_levels() {
    assert_eq!(Compress::new_none(XMachina).level(), 0);
    assert_eq!(Compress::new_fast(XMachina).level(), 1);
    assert_eq!(Compress::new_default(XMachina).level(), 5);
    assert_eq!(Compress::new_best(XMachina).level(), 9);
    assert_eq!(*Compress::new(XMachina, 3).inner(), XMachina);
}

#[test]
fn compress_round_trips() {
    let format = Compress::new_best(XMachina);
    let data: Vec<u8> = b"hello hello hello hello hello hello".to_vec();
    let packed = format.compress(&data).unwrap();
    assert_ne!(packed, data);
    assert_eq!(&packed[..2], &[0x1f, 0x8b]);
    assert_eq!(format.decompress(&packed).unwrap(), data);
}

#[test]
fn decompress_rejects_garbage() {
    assert!(Compress::new_default(XMachina).decompress(b"not gzip").is_err());
}

#[test]
fn frame_round_trips() {
    let bytes = frame(&[1, 2], &[3; 24], &[9, 9, 9]);
    assert_eq!(&bytes[..3], b"1N4");
    assert_eq!(&bytes[3..11], &2u64.to_le_bytes());
    let f = parse_frame(&bytes).unwrap();
    assert_eq!(f.salt, vec![1, 2]);
    assert_eq!(f.nonce, vec![3; 24]);
    assert_eq!(f.ciphertext, vec![9, 9, 9]);
}

#[test]
fn parse_frame_errors() {
    assert_eq!(parse_frame(b"XYZ").unwrap_err().kind(), EncryptErrorKind::InvalidMagic);
    assert_eq!(parse_frame(b"1N").unwrap_err().kind(), EncryptErrorKind::InvalidMagic);
    assert_eq!(parse_frame(b"1N4\x05").unwrap_err().kind(), EncryptErrorKind::Io);
    let mut truncated = frame(&[1, 2, 3], &[0; 24], &[]);
    truncated.truncate(12);
    assert_eq!(parse_frame(&truncated).unwrap_err().kind(), EncryptErrorKind::Io);
    let mut long_salt = b"1N4".to_vec();
    long_salt.extend_from_slice(&u64::MAX.to_le_bytes());
    assert_eq!(parse_frame(&long_salt).unwrap_err().kind(), EncryptErrorKind::Io);
}

#[test]
fn encrypt_round_trips() {
    let format = Encrypt::new(XMachina);
    let data = b"secret data".to_vec();
    let sealed = format.seal(Some(b"password".to_vec()), &data).unwrap();
    assert_eq!(&sealed[..3], b"1N4");
    assert!(!sealed.windows(data.len()).any(|w| w == data.as_slice()));
    let f = parse_frame(&sealed).unwrap();
    assert_eq!(f.salt.len(), 22);
    assert_eq!(f.nonce.len(), 24);
    assert_eq!(format.open(Some(b"password".to_vec()), &sealed).unwrap(), data);
}

#[test]
fn encrypt_wrong_password_fails() {
    let format = Encrypt::new(XMachina);
    let sealed = format.seal(Some(b"password".to_vec()), b"secret").unwrap();
    let err = format.open(Some(b"other".to_vec()), &sealed).unwrap_err();
    assert_eq!(err.kind(), EncryptErrorKind::ChaCha20Poly1305);
}

#[test]
fn encrypt_missing_password() {
    let format = Encrypt::new(XMachina);
    assert_eq!(format.seal(None, b"x").unwrap_err().kind(), EncryptErrorKind::MissingPassword);
    let sealed = format.seal(Some(b"pw".to_vec()), b"x").unwrap();
    assert_eq!(format.open(None, &sealed).unwrap_err().kind(), EncryptErrorKind::MissingPassword);
    assert_eq!(format.open(Some(b"pw".to_vec()), b"bad").unwrap_err().kind(), EncryptErrorKind::InvalidMagic);
}

#[test]
fn encrypt_short_salt_fails_derivation() {
    let format = Encrypt::new(XMachina);
    let bytes = frame(&[1], &[0; 24], &[0; 16]);
    assert_eq!(format.open(Some(b"pw".to_vec()), &bytes).unwrap_err().kind(), EncryptErrorKind::Argon2);
}

#[test]
fn two_seals_differ() {
    let format = Encrypt::new(XMachina);
    let a = format.seal(Some(b"pw".to_vec()), b"same").unwrap();
    let b = format.seal(Some(b"pw".to_vec()), b"same").unwrap();
    assert_ne!(a, b);
}

#[test]
fn storage_run_answers_requests() {
    let mut system = MemorySystem::new();
    let mut store = storage("data");
    assert!(matches!(run(&mut store, &mut system, Request::Write("a".to_owned(), vec![1, 2])), Response::Acknowledge));
    assert!(matches!(run(&mut store, &mut system, Request::Exists("a".to_owned())), Response::<MemoryError>::Exists(true)));
    assert!(matches!(run(&mut store, &mut system, Request::Size("a".to_owned())), Response::<MemoryError>::Size(2)));
    match run(&mut store, &mut system, Request::Read("a".to_owned())) {
        Response::Read(bytes) => assert_eq!(bytes, vec![1, 2]),
        other => panic!("unexpected response: {other:?}"),
    }
    assert!(matches!(
        run(&mut store, &mut system, Request::Rename("a".to_owned(), "b".to_owned())),
        Response::<MemoryError>::Acknowledge
    ));
    assert!(matches!(run(&mut store, &mut system, Request::Delete("b".to_owned())), Response::<MemoryError>::Acknowledge));
    match run(&mut store, &mut system, Request::Delete("b".to_owned())) {
        Response::Error(MemoryError::MissingPath(path)) => assert_eq!(path, "data/b"),
        other => panic!("unexpected response: {other:?}"),
    }
}

#[test]
fn compress_highest_level_round_trips() {
    let format = Compress::new(XMachina, 10);
    let data = vec![7u8; 300];
    let packed = format.compress(&data).unwrap();
    assert!(packed.len() < data.len());
    assert_eq!(format.decompress(&packed).unwrap(), data);
}

#[test]
fn rename_onto_cached_path_reads_new_bytes() {
    let mut system = MemorySystem::new();
    let mut store = storage("data");
    store.write(&mut system, "into", &[1]).unwrap();
    system.write("data/from", &[2]).unwrap();
    assert_eq!(store.read(&system, "into"), Ok(vec![1]));
    assert_eq!(store.rename(&mut system, "from", "into"), Ok(()));
    assert_eq!(store.read(&system, "into"), Ok(vec![2]));
}

#[test]
fn seal_with_fixed_salt_and_nonce_is_deterministic() {
    let salt = b"abcdefghijklmnopqrstuv";
    let nonce = [7u8; 24];
    let a = seal_with(b"pw".to_vec(), salt, &nonce, b"secret").unwrap();
    let b = seal_with(b"pw".to_vec(), salt, &nonce, b"secret").unwrap();
    assert_eq!(a, b);
    let f = parse_frame(&a).unwrap();
    assert_eq!(f.salt, salt.to_vec());
    assert_eq!(f.nonce, nonce.to_vec());
    assert_ne!(f.ciphertext, b"secret".to_vec());
    assert_eq!(f.ciphertext.len(), b"secret".len() + 16);
    let format = Encrypt::new(XMachina);
    assert_eq!(format.open(Some(b"pw".to_vec()), &a).unwrap(), b"secret".to_vec());
}

#[test]
fn seal_with_short_salt_fails_to_derive() {
    let err = seal_with(b"pw".to_vec(), b"ab", &[0u8; 24], b"secret").unwrap_err();
    assert_eq!(err.kind(), EncryptErrorKind::Argon2);
}

#[test]
fn path_keys_follow_components() {
    assert_eq!(path_key("a//b/"), "a/b");
    assert_eq!(path_key("a/./b/."), "a/b");
    assert_eq!(path_key("./a/./b"), "./a/b");
    assert_eq!(path_key("./"), ".");
    assert_eq!(path_key("."), ".");
    assert_eq!(path_key(""), "");
    assert_eq!(path_key("/./a"), "/a");
    assert_eq!(path_key("//a"), "/a");
    assert_eq!(path_key("/"), "/");
    assert_eq!(path_key("a/../b"), "a/../b");
    assert_eq!(path_key(".hidden/x"), ".hidden/x");
}

#[test]
fn same_path_written_differently_hits_the_cache() {
    let mut system = MemorySystem::new();
    let mut store = storage("data/");
    assert_eq!(store.resolve("x//y/"), "data/x/y");
    store.write(&mut system, "x/y", &[4, 2]).unwrap();
    system.delete("data/x/y").unwrap();
    assert_eq!(store.read(&system, "x//./y/"), Ok(vec![4, 2]));
    assert_eq!(store.path_exists(&system, "./x/y"), Ok(true));
}

#[test]
fn truncated_sealed_bytes_give_an_unexpected_eof() {
    match parse_frame(b"1N4\x05") {
        Err(EncryptError::Io(error)) => assert_eq!(error.kind(), std::io::ErrorKind::UnexpectedEof),
        other => panic!("unexpected result: {other:?}"),
    }
}

#[test]
fn levels_above_ten_compress_as_ten() {
    let data = b"some bytes some bytes some bytes".to_vec();
    let high = Compress::new(XMachina, 200).compress(&data).unwrap();
    let ten = Compress::new(XMachina, 10).compress(&data).unwrap();
    assert_eq!(high, ten);
    assert_eq!(Compress::new(XMachina, 200).decompress(&high).unwrap(), data);
}
