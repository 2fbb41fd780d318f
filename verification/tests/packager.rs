use bundler::exe_packager::{ExePackager, SetupManifest};
use bundler::footer::{decode_footer, encode_footer, FOOTER_LIMIT};
use bundler::metadata::{MetadataEntry, METADATA_OFFSET_SIZE};
use bundler::{ExtractError, PackError};

fn encode_manifest(manifest: &SetupManifest) -> Vec<u8> {
    let mut fields = serde_json::Map::new();
    fields.insert("name".to_string(), serde_json::Value::from(manifest.name.clone()));
    fields.insert("title".to_string(), serde_json::Value::from(manifest.title.clone()));
    fields.insert("version".to_string(), serde_json::Value::from(manifest.version.clone()));
    fields.insert(
        "identifier".to_string(),
        serde_json::Value::from(manifest.identifier.clone()),
    );
    fields.insert(
        "application".to_string(),
        serde_json::Value::from(manifest.application.clone()),
    );
    serde_json::to_vec(&serde_json::Value::Object(fields)).expect("Failed to serialize manifest")
}

fn decode_manifest(data: &[u8]) -> SetupManifest {
    let value: serde_json::Value =
        serde_json::from_slice(data).expect("Failed to deserialize manifest");
    SetupManifest {
        name: value["name"].as_str().unwrap().to_string(),
        title: value["title"].as_str().unwrap().to_string(),
        version: value["version"].as_str().unwrap().to_string(),
        identifier: value["identifier"].as_str().unwrap().to_string(),
        application: value["application"].as_str().unwrap().to_string(),
    }
}

fn encode_table(entries: &[MetadataEntry]) -> Vec<u8> {
    let rows: Vec<serde_json::Value> = entries
        .iter()
        .map(|entry| {
            let mut row = serde_json::Map::new();
            row.insert("name".to_string(), serde_json::Value::from(entry.name.clone()));
            row.insert("offset".to_string(), serde_json::Value::from(entry.offset));
            row.insert("size".to_string(), serde_json::Value::from(entry.size));
            serde_json::Value::Object(row)
        })
        .collect();
    serde_json::to_vec(&rows).expect("Failed to serialize metadata")
}

fn decode_table(data: &[u8]) -> Vec<MetadataEntry> {
    let value: serde_json::Value =
        serde_json::from_slice(data).expect("Failed to deserialize metadata");
    value
        .as_array()
        .unwrap()
        .iter()
        .map(|row| {
            MetadataEntry::new(
                row["name"].as_str().unwrap().to_string(),
                row["offset"].as_u64().unwrap(),
                row["size"].as_u64().unwrap(),
            )
        })
        .collect()
}

fn package(packager: &ExePackager) -> Result<Vec<u8>, PackError> {
    let entries = packager.entries()?;
    packager.package(&encode_table(&entries))
}

fn test_manifest() -> SetupManifest {
    SetupManifest {
        name: "TestApp".to_string(),
        title: "Test App".to_string(),
        version: "1.0.0".to_string(),
        identifier: "com.example.testapp".to_string(),
        application: "test.exe".to_string(),
    }
}

#[test]
fn test_add_file() {
    let exe_data = vec![0; 1000]; // Mock executable data
    let mut packager = ExePackager::new(exe_data);

    packager.add_file("test.txt", b"Hello, world!".to_vec());
    assert!(packager.has_file("test.txt"));
}

#[test]
fn test_add_manifest() {
    let exe_data = vec![0; 1000]; // Mock executable data
    let mut packager = ExePackager::new(exe_data);

    let manifest = test_manifest();

    packager.add_manifest(encode_manifest(&manifest));
    assert!(packager.has_manifest());
}

#[test]
fn test_package() {
    let exe_data = vec![0; 1000]; // Mock executable data
    let mut packager = ExePackager::new(exe_data);

    // Add files and manifest
    packager.add_file("file1.txt", b"Hello, world!".to_vec());
    packager.add_file("file2.txt", b"Rust is awesome!".to_vec());

    let manifest = test_manifest();
    packager.add_manifest(encode_manifest(&manifest));

    // Package the executable
    let packaged_data = package(&packager).expect("Failed to package");

    // Check the stub at the head of the package
    assert_eq!(&packaged_data[..1000], &[0; 1000]);

    // Check the appended files and manifest
    let metadata_offset = &packaged_data[packaged_data.len() - 16..];
    let metadata_offset: u64 = String::from_utf8_lossy(metadata_offset)
        .trim()
        .parse()
        .expect("Failed to parse metadata offset");

    let metadata =
        decode_table(&packaged_data[metadata_offset as usize..packaged_data.len() - 16]);
    assert_eq!(metadata.len(), 3);

    for entry in metadata {
        let data =
            &packaged_data[entry.offset as usize..entry.offset as usize + entry.size as usize];
        match entry.name.as_str() {
            "manifest" => {
                let manifest = decode_manifest(data);
                assert_eq!(manifest.name, "TestApp");
                assert_eq!(manifest.version, "1.0.0");
                assert_eq!(manifest.identifier, "com.example.testapp");
                assert_eq!(manifest.application, "test.exe");
            }
            "file1.txt" => assert_eq!(data, b"Hello, world!"),
            "file2.txt" => assert_eq!(data, b"Rust is awesome!"),
            _ => panic!("Unknown file in package: {}", entry.name),
        }
    }
}

#[test]
fn has_file_tells_names_apart() {
    let mut packager = ExePackager::new(vec![1, 2, 3]);
    assert!(!packager.has_file("a"));
    assert!(!packager.has_manifest());
    packager.add_file("a", vec![]);
    assert!(packager.has_file("a"));
    assert!(!packager.has_file("b"));
    assert!(!packager.has_file(""));
}

#[test]
fn entries_record_the_write_cursor() {
    let mut packager = ExePackager::new(vec![7; 100]);
    packager.add_file("a.txt", b"hello".to_vec());
    packager.add_file("b.bin", b"".to_vec());
    packager.add_file("c", vec![9; 11]);
    packager.add_manifest(vec![b'{', b'}']);

    let entries = packager.entries().expect("distinct names");
    let seen: Vec<(String, u64, u64)> = entries
        .iter()
        .map(|entry| (entry.name.clone(), entry.offset, entry.size))
        .collect();
    assert_eq!(
        seen,
        vec![
            ("manifest".to_string(), 100, 2),
            ("a.txt".to_string(), 102, 5),
            ("b.bin".to_string(), 107, 0),
            ("c".to_string(), 107, 11),
        ]
    );
}

#[test]
fn entries_without_manifest_start_at_the_stub_end() {
    let mut packager = ExePackager::new(vec![7; 3]);
    packager.add_file("x", vec![1, 2]);
    let entries = packager.entries().expect("distinct names");
    assert_eq!(entries.len(), 1);
    assert_eq!(entries[0].name, "x");
    assert_eq!(entries[0].offset, 3);
    assert_eq!(entries[0].size, 2);
}

#[test]
fn container_is_stub_payloads_table_footer() {
    let mut packager = ExePackager::new(vec![0xAA, 0xBB]);
    packager.add_file("one", vec![1]);
    packager.add_file("two", vec![2, 2]);
    packager.add_manifest(vec![b'M']);

    let table = b"TABLE".to_vec();
    let file = packager.package(&table).expect("distinct names");

    let mut expected = vec![0xAA, 0xBB, b'M', 1, 2, 2];
    expected.extend_from_slice(b"TABLE");
    expected.extend_from_slice(b"0000000000000006");
    assert_eq!(file, expected);
}

#[test]
fn footer_is_sixteen_digits_whatever_the_sizes() {
    for stub_len in [0usize, 1, 9, 10, 99, 100, 12345, 1_000_000] {
        for table_len in [0usize, 1, 17, 4096] {
            let mut packager = ExePackager::new(vec![0; stub_len]);
            packager.add_file("f", vec![1; 10]);
            let table = vec![b' '; table_len];
            let file = packager.package(&table).expect("distinct names");

            assert_eq!(file.len(), stub_len + 10 + table_len + METADATA_OFFSET_SIZE);
            let footer = &file[file.len() - METADATA_OFFSET_SIZE..];
            assert_eq!(footer.len(), 16);
            assert!(footer.iter().all(|b| b.is_ascii_digit()));
            let text = String::from_utf8(footer.to_vec()).unwrap();
            assert_eq!(text, format!("{:016}", stub_len + 10));
        }
    }
}

#[test]
fn empty_packager_packs_to_stub_table_footer() {
    let packager = ExePackager::new(vec![]);
    assert!(packager.entries().expect("no names").is_empty());
    let file = packager.package(b"[]").expect("no names");
    assert_eq!(file, b"[]0000000000000000".to_vec());
}

#[test]
fn duplicate_file_names_are_rejected() {
    let mut packager = ExePackager::new(vec![0; 10]);
    packager.add_file("same.txt", b"first".to_vec());
    packager.add_file("other.txt", b"second".to_vec());
    packager.add_file("same.txt", b"third".to_vec());

    assert_eq!(packager.entries().err(), Some(PackError::DuplicateName));
    assert_eq!(packager.package(b"[]").err(), Some(PackError::DuplicateName));
}

#[test]
fn file_named_manifest_beside_a_manifest_is_rejected() {
    let mut packager = ExePackager::new(vec![0; 10]);
    packager.add_file("manifest", b"{}".to_vec());
    packager.add_manifest(b"{}".to_vec());

    assert_eq!(packager.entries().err(), Some(PackError::DuplicateName));
    assert_eq!(packager.package(b"[]").err(), Some(PackError::DuplicateName));
}

#[test]
fn file_named_manifest_without_a_manifest_is_accepted() {
    let mut packager = ExePackager::new(vec![0; 10]);
    packager.add_file("manifest", b"{}".to_vec());

    let entries = packager.entries().expect("one name");
    assert_eq!(entries.len(), 1);
    assert_eq!(entries[0].name, "manifest");
    assert!(packager.package(b"[]").is_ok());
}

#[test]
fn later_manifest_replaces_the_earlier() {
    let mut packager = ExePackager::new(vec![]);
    packager.add_manifest(vec![1, 1, 1]);
    packager.add_manifest(vec![2]);
    let file = packager.package(b"").expect("one name");
    assert_eq!(file, {
        let mut expected = vec![2u8];
        expected.extend_from_slice(b"0000000000000001");
        expected
    });
}

#[test]
fn footer_limit_is_ten_to_the_sixteenth() {
    assert_eq!(FOOTER_LIMIT, 10u64.pow(16));
    assert_eq!(format!("{}", FOOTER_LIMIT - 1).len(), METADATA_OFFSET_SIZE);
}

#[test]
fn pack_scenario_output_size() {
    // {"a.txt": b"hello", "b.bin": b""} with a manifest into a 100-byte stub.
    let mut packager = ExePackager::new(vec![0x4D; 100]);
    packager.add_file("a.txt", b"hello".to_vec());
    packager.add_file("b.bin", b"".to_vec());
    let manifest = SetupManifest {
        name: "Foo".to_string(),
        title: String::new(),
        version: "1.0.0".to_string(),
        identifier: String::new(),
        application: String::new(),
    };
    let manifest_data = encode_manifest(&manifest);
    packager.add_manifest(manifest_data.clone());

    let entries = packager.entries().expect("distinct names");
    let table = encode_table(&entries);
    let file = packager.package(&table).expect("distinct names");

    assert_eq!(file.len(), 100 + manifest_data.len() + 5 + 0 + table.len() + 16);
}

#[test]
fn footer_for_an_offset_is_sixteen_digits() {
    assert_eq!(encode_footer(0), Ok(b"0000000000000000".to_vec()));
    assert_eq!(encode_footer(1234), Ok(b"0000000000001234".to_vec()));
    assert_eq!(encode_footer(FOOTER_LIMIT - 1), Ok(b"9999999999999999".to_vec()));
    for offset in [0u64, 9, 10, 99_999, 1 << 40, FOOTER_LIMIT - 1] {
        let footer = encode_footer(offset).unwrap();
        assert_eq!(footer.len(), 16);
        assert_eq!(footer, format!("{:016}", offset).into_bytes());
        assert_eq!(decode_footer(&footer), Ok(offset));
    }
}

#[test]
fn offset_of_seventeen_digits_cannot_be_written() {
    assert_eq!(encode_footer(FOOTER_LIMIT), Err(PackError::Write));
    assert_eq!(encode_footer(FOOTER_LIMIT + 1), Err(PackError::Write));
    assert_eq!(encode_footer(u64::MAX), Err(PackError::Write));
}

#[test]
fn footer_must_be_sixteen_digits_to_be_read() {
    assert_eq!(decode_footer(b"0000000000000042"), Ok(42));
    assert_eq!(decode_footer(b"000000000000042"), Err(ExtractError::Format));
    assert_eq!(decode_footer(b"00000000000000042"), Err(ExtractError::Format));
    assert_eq!(decode_footer(b""), Err(ExtractError::Format));
    assert_eq!(decode_footer(b"00000000000000 1"), Err(ExtractError::Format));
    assert_eq!(decode_footer(b"0x00000000000001"), Err(ExtractError::Format));
}
