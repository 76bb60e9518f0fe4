use freeways_launcher::resource_pack::LoadError;
use freeways_launcher::resource_pack::RawFile;
use freeways_launcher::resource_pack::ResourcePack;

fn build_tar(entries: &[(&str, &[u8], bool)]) -> Vec<u8> {
    let mut builder = tar::Builder::new(Vec::new());
    for (name, data, is_dir) in entries {
        let mut header = tar::Header::new_gnu();
        header.set_size(data.len() as u64);
        if *is_dir {
            header.set_entry_type(tar::EntryType::dir());
        }
        header.set_cksum();
        builder.append_data(&mut header, *name, *data).unwrap();
    }
    builder.into_inner().unwrap()
}

const META: &[u8] = b"name = Cool Pack\nauthor = Someone\nversion = 1.2\nextra = kept\n";

#[test]
fn well_formed_archive_loads() {
    let bytes = build_tar(&[
        ("pack.meta", META, false),
        ("assets/a.png", b"PNGDATA", false),
        ("readme.txt", b"hello", false),
    ]);
    let pack = ResourcePack::load(&bytes).unwrap();
    assert_eq!(pack.name, "Cool Pack");
    assert_eq!(pack.author, "Someone");
    assert_eq!(pack.version, "1.2");
    assert_eq!(pack.files.len(), 3);
    assert_eq!(pack.files[0].name, "pack.meta");
    assert_eq!(pack.files[1].name, "assets/a.png");
    assert_eq!(pack.files[1].data, b"PNGDATA");
    assert_eq!(pack.files[2].name, "readme.txt");
    assert_eq!(pack.files[2].data, b"hello");
}

#[test]
fn missing_required_key_gives_nothing() {
    let partial: &[u8] = b"name = Cool Pack\nauthor = Someone\n";
    let bytes = build_tar(&[("pack.meta", partial, false), ("a.txt", b"x", false)]);
    assert!(ResourcePack::load(&bytes).is_none());
}

#[test]
fn no_meta_entry_gives_nothing() {
    let bytes = build_tar(&[("a.txt", b"x", false), ("b.txt", b"y", false)]);
    assert!(ResourcePack::load(&bytes).is_none());
}

#[test]
fn first_meta_entry_wins() {
    let second: &[u8] = b"name = Other\nauthor = Nobody\nversion = 9.9\n";
    let bytes = build_tar(&[
        ("Pack.Meta", META, false),
        ("PACK.META", second, false),
    ]);
    let pack = ResourcePack::load(&bytes).unwrap();
    assert_eq!(pack.name, "Cool Pack");
    assert_eq!(pack.author, "Someone");
    assert_eq!(pack.version, "1.2");
    assert_eq!(pack.files.len(), 2);
    assert_eq!(pack.files[1].name, "PACK.META");
    assert_eq!(pack.files[1].data, second);
}

#[test]
fn directory_marker_is_kept() {
    let bytes = build_tar(&[
        ("pack.meta", META, false),
        ("assets/textures/", b"", true),
    ]);
    let pack = ResourcePack::load(&bytes).unwrap();
    assert_eq!(pack.files.len(), 2);
    assert_eq!(pack.files[1].name, "assets/textures/");
    assert!(pack.files[1].data.is_empty());
}

#[test]
fn loading_twice_is_identical() {
    let bytes = build_tar(&[
        ("pack.meta", META, false),
        ("assets/a.png", b"PNGDATA", false),
    ]);
    let p1 = ResourcePack::load(&bytes).unwrap();
    let p2 = ResourcePack::load(&bytes).unwrap();
    assert_eq!(p1.name, p2.name);
    assert_eq!(p1.author, p2.author);
    assert_eq!(p1.version, p2.version);
    assert_eq!(p1.files.len(), p2.files.len());
    for i in 0..p1.files.len() {
        assert_eq!(p1.files[i].name, p2.files[i].name);
        assert_eq!(p1.files[i].data, p2.files[i].data);
    }
}

#[test]
fn meta_name_matches_any_case() {
    let bytes = build_tar(&[("PACK.META", META, false)]);
    let pack = ResourcePack::load(&bytes).unwrap();
    assert_eq!(pack.name, "Cool Pack");
}

#[test]
fn meta_in_subdirectory_does_not_match() {
    let bytes = build_tar(&[("sub/pack.meta", META, false)]);
    assert!(ResourcePack::load(&bytes).is_none());
}

#[test]
fn crlf_and_comment_lines_are_accepted() {
    let meta: &[u8] = b"; the pack\r\nname = A\r\n\r\nauthor = B\r\nversion = 0.1\r\n";
    let bytes = build_tar(&[("pack.meta", meta, false)]);
    let pack = ResourcePack::load(&bytes).unwrap();
    assert_eq!(pack.name, "A");
    assert_eq!(pack.author, "B");
    assert_eq!(pack.version, "0.1");
}

#[test]
fn malformed_meta_line_gives_nothing() {
    let meta: &[u8] = b"name = A\nauthor B\nversion = 0.1\n";
    let bytes = build_tar(&[("pack.meta", meta, false)]);
    assert!(ResourcePack::load(&bytes).is_none());
}

#[test]
fn unreadable_archive_gives_nothing() {
    let garbage = vec![0xffu8; 1024];
    assert!(ResourcePack::load(&garbage).is_none());
}

#[test]
fn error_kinds_are_distinguished() {
    let garbage = vec![0xffu8; 1024];
    assert_eq!(
        ResourcePack::try_load(&garbage).err(),
        Some(LoadError::UnreadableArchive)
    );
    let no_meta = build_tar(&[("a.txt", b"x", false)]);
    assert_eq!(
        ResourcePack::try_load(&no_meta).err(),
        Some(LoadError::NoMetaEntry)
    );
    let bad_meta = build_tar(&[("pack.meta", b"broken line\n", false)]);
    assert_eq!(
        ResourcePack::try_load(&bad_meta).err(),
        Some(LoadError::MalformedMeta)
    );
    let partial = build_tar(&[("pack.meta", b"name = A\n", false)]);
    assert_eq!(
        ResourcePack::try_load(&partial).err(),
        Some(LoadError::MissingKey)
    );
}

#[test]
fn describe_shows_metadata_only() {
    let bytes = build_tar(&[("pack.meta", META, false)]);
    let pack = ResourcePack::load(&bytes).unwrap();
    assert_eq!(
        pack.describe(),
        "ResourcePack { name: Cool Pack, author: Someone, version: 1.2 }"
    );
}

#[test]
fn from_entries_without_meta_gives_nothing() {
    let files = vec![RawFile {
        name: String::from("a.txt"),
        data: vec![1, 2, 3],
    }];
    assert!(ResourcePack::from_entries(files).is_none());
}

#[test]
fn from_entries_reads_first_meta() {
    let files = vec![
        RawFile {
            name: String::from("data.bin"),
            data: vec![0, 1],
        },
        RawFile {
            name: String::from("pack.meta"),
            data: META.to_vec(),
        },
    ];
    let pack = ResourcePack::from_entries(files).unwrap();
    assert_eq!(pack.name, "Cool Pack");
    assert_eq!(pack.files.len(), 2);
    assert_eq!(pack.files[0].name, "data.bin");
}
