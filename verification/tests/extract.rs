use bundler::exe_packager::{ExePackager, SetupManifest};
use bundler::metadata::{Blob, MetadataEntry};
use bundler::package::{extract_package, metadata_span, SetupPackage};
use bundler::{ExtractError, PackError};

fn encode_manifest(manifest: &SetupManifest) -> Vec<u8> {
    let mut fields = serde_json::Map::new();
    fields.insert("name".to_string(), serde_json::Value::from(manifest.name.clone()));
    fields.insert("title".to_string(), serde_json::Value::from(manifest.title.clone()));
    fields.insert("version".to_string(), serde_json::Value::from(manifest.version.clone()));
    fields.insert(
        "identifier".to_string(),
        serde_json::Value::from(manifest.identifier.clone()),
    );
    fields.insert(
        "application".to_string(),
        serde_json::Value::from(manifest.application.clone()),
    );
    serde_json::to_vec(&serde_json::Value::Object(fields)).expect("Failed to serialize manifest")
}

fn decode_manifest(data: &[u8]) -> Option<SetupManifest> {
    let value: serde_json::Value = serde_json::from_slice(data).ok()?;
    Some(SetupManifest {
        name: value.get("name")?.as_str()?.to_string(),
        title: value.get("title")?.as_str()?.to_string(),
        version: value.get("version")?.as_str()?.to_string(),
        identifier: value.get("identifier")?.as_str()?.to_string(),
        application: value.get("application")?.as_str()?.to_string(),
    })
}

fn encode_table(entries: &[MetadataEntry]) -> Vec<u8> {
    let rows: Vec<serde_json::Value> = entries
        .iter()
        .map(|entry| {
            let mut row = serde_json::Map::new();
            row.insert("name".to_string(), serde_json::Value::from(entry.name.clone()));
            row.insert("offset".to_string(), serde_json::Value::from(entry.offset));
            row.insert("size".to_string(), serde_json::Value::from(entry.size));
            serde_json::Value::Object(row)
        })
        .collect();
    serde_json::to_vec(&rows).expect("Failed to serialize metadata")
}

fn decode_table(data: &[u8]) -> Option<Vec<MetadataEntry>> {
    let value: serde_json::Value = serde_json::from_slice(data).ok()?;
    let mut entries = Vec::new();
    for row in value.as_array()? {
        entries.push(MetadataEntry::new(
            row.get("name")?.as_str()?.to_string(),
            row.get("offset")?.as_u64()?,
            row.get("size")?.as_u64()?,
        ));
    }
    Some(entries)
}

fn package(packager: &ExePackager) -> Result<Vec<u8>, PackError> {
    let entries = packager.entries()?;
    packager.package(&encode_table(&entries))
}

/// Reads a whole container: footer, table, payloads, manifest.
fn read_package(file: &[u8]) -> Result<SetupPackage, ExtractError> {
    let (start, end) = metadata_span(file)?;
    let entries = decode_table(&file[start..end]).ok_or(ExtractError::Format)?;
    let parts = extract_package(file, &entries)?;
    let manifest = decode_manifest(&parts.manifest).ok_or(ExtractError::Format)?;
    Ok(SetupPackage::new(manifest, parts.files))
}

fn names_and_data(files: &[Blob]) -> Vec<(String, Vec<u8>)> {
    files.iter().map(|blob| (blob.name.clone(), blob.data.clone())).collect()
}

fn with_footer(mut body: Vec<u8>, footer: &[u8]) -> Vec<u8> {
    body.extend_from_slice(footer);
    body
}

#[test]
fn test_extract_package() {
    let exe_data = vec![0; 1000]; // Mock executable data
    let mut packager = ExePackager::new(exe_data.clone());

    // Add files and manifest
    packager.add_file("file1.txt", b"Hello, world!".to_vec());
    packager.add_file("file2.txt", b"Rust is awesome!".to_vec());

    let manifest = SetupManifest {
        name: "TestApp".to_string(),
        title: "Test App".to_string(),
        version: "1.0.0".to_string(),
        identifier: "com.example.testapp".to_string(),
        application: "test.exe".to_string(),
    };

    packager.add_manifest(encode_manifest(&manifest));

    // Package the executable
    let output = package(&packager).expect("Failed to package");

    // Extract the packaged executable
    let setup_package = read_package(&output).expect("Failed to extract");
    let extracted_manifest = &setup_package.manifest;

    // Check the extracted manifest
    assert_eq!(extracted_manifest.name, "TestApp");
    assert_eq!(extracted_manifest.version, "1.0.0");
    assert_eq!(extracted_manifest.identifier, "com.example.testapp");

    // Check the extracted files
    assert_eq!(
        setup_package.find_file("file1.txt").unwrap(),
        b"Hello, world!".to_vec()
    );
    assert_eq!(
        setup_package.find_file("file2.txt").unwrap(),
        b"Rust is awesome!".to_vec()
    );
}

#[test]
fn test_extract_package_no_manifest() {
    let exe_data = vec![0; 1000]; // Mock executable data
    let mut packager = ExePackager::new(exe_data.clone());

    // Add files without manifest
    packager.add_file("file1.txt", b"Hello, world!".to_vec());
    packager.add_file("file2.txt", b"Rust is awesome!".to_vec());

    // Package the executable
    let output = package(&packager).expect("Failed to package");

    // Extract the packaged executable
    let result = read_package(&output);

    // Check that the extraction fails because there is no manifest
    assert!(result.is_err());
    assert_eq!(result.err(), Some(ExtractError::MissingManifest));
}

#[test]
fn test_extract_package_empty_exe() {
    // An empty executable file
    let output: Vec<u8> = Vec::new();

    // Extract the packaged executable
    let result = read_package(&output);

    // Check that the extraction fails because the executable is empty
    assert!(result.is_err());
    assert_eq!(result.err(), Some(ExtractError::Format));
}

#[test]
fn round_trip_keeps_names_bytes_and_order() {
    let cases: Vec<Vec<(&str, Vec<u8>)>> = vec![
        vec![],
        vec![("only", vec![])],
        vec![("a.txt", b"hello".to_vec()), ("b.bin", vec![])],
        vec![("z", vec![0; 300]), ("a", vec![255; 2]), ("", vec![1]), ("m", (0..=255).collect())],
    ];
    for stub in [vec![], vec![0x4D, 0x5A], vec![9; 777]] {
        for files in &cases {
            let mut packager = ExePackager::new(stub.clone());
            for (name, data) in files {
                packager.add_file(name, data.clone());
            }
            packager.add_manifest(b"manifest bytes".to_vec());
            let table = encode_table(&packager.entries().unwrap());
            let file = packager.package(&table).unwrap();

            let (start, end) = metadata_span(&file).unwrap();
            assert_eq!(&file[start..end], &table[..]);
            assert_eq!(&file[..stub.len()], &stub[..]);

            let entries = decode_table(&file[start..end]).unwrap();
            let parts = extract_package(&file, &entries).unwrap();
            assert_eq!(parts.manifest, b"manifest bytes".to_vec());
            let expected: Vec<(String, Vec<u8>)> = files
                .iter()
                .map(|(name, data)| (name.to_string(), data.clone()))
                .collect();
            assert_eq!(names_and_data(&parts.files), expected);
        }
    }
}

#[test]
fn pack_scenario_reads_back() {
    let mut packager = ExePackager::new(vec![0x4D; 100]);
    packager.add_file("a.txt", b"hello".to_vec());
    packager.add_file("b.bin", b"".to_vec());
    let manifest = SetupManifest {
        name: "Foo".to_string(),
        title: String::new(),
        version: "1.0.0".to_string(),
        identifier: String::new(),
        application: "a.txt".to_string(),
    };
    let manifest_data = encode_manifest(&manifest);
    packager.add_manifest(manifest_data.clone());
    let table = encode_table(&packager.entries().unwrap());
    let file = packager.package(&table).unwrap();
    assert_eq!(file.len(), 100 + manifest_data.len() + 5 + 0 + table.len() + 16);

    let package = read_package(&file).unwrap();
    assert_eq!(package.manifest.name, "Foo");
    assert_eq!(package.manifest.version, "1.0.0");
    assert_eq!(package.manifest.title, "");
    assert_eq!(package.manifest.identifier, "");
    assert_eq!(package.manifest.application, "a.txt");
    assert_eq!(
        names_and_data(&package.files),
        vec![
            ("a.txt".to_string(), b"hello".to_vec()),
            ("b.bin".to_string(), Vec::new()),
        ]
    );
    assert_eq!(package.get_file("a.txt"), b"hello".to_vec());
    assert_eq!(package.get_file("b.bin"), Vec::<u8>::new());
    assert_eq!(package.get_application(), b"hello".to_vec());
}

#[test]
fn only_a_manifest_reads_back() {
    let mut packager = ExePackager::new(vec![1, 2, 3]);
    packager.add_manifest(b"M".to_vec());
    let table = encode_table(&packager.entries().unwrap());
    let file = packager.package(&table).unwrap();
    let entries = decode_table(&table).unwrap();
    let parts = extract_package(&file, &entries).unwrap();
    assert_eq!(parts.manifest, b"M".to_vec());
    assert!(parts.files.is_empty());
}

#[test]
fn file_shorter_than_the_footer_is_malformed() {
    for len in 0..16usize {
        let file = vec![b'0'; len];
        assert_eq!(metadata_span(&file).err(), Some(ExtractError::Format));
        assert_eq!(extract_package(&file, &Vec::new()).err(), Some(ExtractError::Format));
    }
}

#[test]
fn footer_alone_is_an_empty_table_without_manifest() {
    let file = b"0000000000000000".to_vec();
    assert_eq!(metadata_span(&file), Ok((0, 0)));
    assert_eq!(extract_package(&file, &Vec::new()).err(), Some(ExtractError::MissingManifest));
}

#[test]
fn footer_that_is_not_all_digits_is_malformed() {
    let body = b"payload-and-table".to_vec();
    for footer in [
        &b"000000000000000x"[..],
        &b"x000000000000000"[..],
        &b"             123"[..],
        &b"123             "[..],
        &b"+000000000000001"[..],
        &b"-000000000000001"[..],
        &b"0000000/00000000"[..],
        &b"0000000:00000000"[..],
        &b"\0\0\0\0\0\0\0\0\0\0\0\0\0\0\0\0"[..],
    ] {
        let file = with_footer(body.clone(), footer);
        assert_eq!(metadata_span(&file).err(), Some(ExtractError::Format));
        assert_eq!(extract_package(&file, &Vec::new()).err(), Some(ExtractError::Format));
    }
}

#[test]
fn footer_that_points_past_itself_is_malformed() {
    let body = vec![7u8; 10];
    let at_end = with_footer(body.clone(), b"0000000000000010");
    assert_eq!(metadata_span(&at_end), Ok((10, 10)));
    let beyond = with_footer(body.clone(), b"0000000000000011");
    assert_eq!(metadata_span(&beyond).err(), Some(ExtractError::Format));
    let far = with_footer(body, b"9999999999999999");
    assert_eq!(metadata_span(&far).err(), Some(ExtractError::Format));
}

#[test]
fn metadata_span_gives_the_table_range() {
    let file = with_footer(b"STUBpayloadTABLE".to_vec(), b"0000000000000011");
    assert_eq!(metadata_span(&file), Ok((11, 16)));
    assert_eq!(&file[11..16], b"TABLE");
}

#[test]
fn entry_that_reaches_into_the_table_is_malformed() {
    // Ten bytes of payload, table begins at 10.
    let file = with_footer(b"0123456789[]".to_vec(), b"0000000000000010");
    let manifest = || MetadataEntry::new("manifest".to_string(), 0, 2);

    let fits = vec![manifest(), MetadataEntry::new("f".to_string(), 2, 8)];
    let parts = extract_package(&file, &fits).unwrap();
    assert_eq!(parts.manifest, b"01".to_vec());
    assert_eq!(names_and_data(&parts.files), vec![("f".to_string(), b"23456789".to_vec())]);

    let empty_at_table_start = vec![manifest(), MetadataEntry::new("f".to_string(), 10, 0)];
    let parts = extract_package(&file, &empty_at_table_start).unwrap();
    assert_eq!(names_and_data(&parts.files), vec![("f".to_string(), Vec::new())]);

    for (offset, size) in [
        (2u64, 9u64),
        (10, 1),
        (11, 0),
        (0, 11),
        (u64::MAX, 0),
        (0, u64::MAX),
        (u64::MAX, u64::MAX),
        (1, u64::MAX),
    ] {
        let entries = vec![manifest(), MetadataEntry::new("f".to_string(), offset, size)];
        assert_eq!(extract_package(&file, &entries).err(), Some(ExtractError::Format));
    }
}

#[test]
fn out_of_bounds_entry_is_reported_before_a_missing_manifest() {
    let file = with_footer(b"0123456789".to_vec(), b"0000000000000010");
    let entries = vec![MetadataEntry::new("f".to_string(), 5, 6)];
    assert_eq!(extract_package(&file, &entries).err(), Some(ExtractError::Format));
    let entries = vec![MetadataEntry::new("f".to_string(), 5, 5)];
    assert_eq!(extract_package(&file, &entries).err(), Some(ExtractError::MissingManifest));
}

#[test]
fn entries_that_share_a_name_are_malformed() {
    let file = with_footer(b"0123456789".to_vec(), b"0000000000000010");
    let entries = vec![
        MetadataEntry::new("manifest".to_string(), 0, 1),
        MetadataEntry::new("f".to_string(), 1, 1),
        MetadataEntry::new("f".to_string(), 2, 1),
    ];
    assert_eq!(extract_package(&file, &entries).err(), Some(ExtractError::Format));
    let entries = vec![
        MetadataEntry::new("manifest".to_string(), 0, 1),
        MetadataEntry::new("manifest".to_string(), 1, 1),
    ];
    assert_eq!(extract_package(&file, &entries).err(), Some(ExtractError::Format));
}

#[test]
fn manifest_entry_is_taken_out_of_the_files_wherever_it_stands() {
    let file = with_footer(b"aaBBBcccc".to_vec(), b"0000000000000009");
    let entries = vec![
        MetadataEntry::new("first".to_string(), 0, 2),
        MetadataEntry::new("manifest".to_string(), 2, 3),
        MetadataEntry::new("last".to_string(), 5, 4),
    ];
    let parts = extract_package(&file, &entries).unwrap();
    assert_eq!(parts.manifest, b"BBB".to_vec());
    assert_eq!(
        names_and_data(&parts.files),
        vec![
            ("first".to_string(), b"aa".to_vec()),
            ("last".to_string(), b"cccc".to_vec()),
        ]
    );
}

#[test]
fn package_lookups() {
    let manifest = SetupManifest {
        name: "N".to_string(),
        title: "T".to_string(),
        version: "V".to_string(),
        identifier: "I".to_string(),
        application: "app.exe".to_string(),
    };
    let files = vec![
        Blob::new("readme".to_string(), b"r".to_vec()),
        Blob::new("app.exe".to_string(), b"MZ".to_vec()),
        Blob::new("MicrosoftEdgeWebview2Setup.exe".to_string(), b"wv".to_vec()),
    ];
    let package = SetupPackage::new(manifest, files);
    assert_eq!(package.find_file("readme"), Some(b"r".to_vec()));
    assert_eq!(package.find_file("missing"), None);
    assert!(package.contains_file("readme"));
    assert!(package.contains_file("app.exe"));
    assert!(!package.contains_file("missing"));
    assert!(!package.contains_file(""));
    assert_eq!(package.get_file("app.exe"), b"MZ".to_vec());
    assert_eq!(package.get_application(), b"MZ".to_vec());
    assert_eq!(package.get_webview2(), Some(b"wv".to_vec()));
    assert_eq!(package.webview2_filename(), "MicrosoftEdgeWebview2Setup.exe");

    let manifest = SetupManifest {
        name: String::new(),
        title: String::new(),
        version: String::new(),
        identifier: String::new(),
        application: String::new(),
    };
    let bare = SetupPackage::new(manifest, Vec::new());
    assert_eq!(bare.get_webview2(), None);
    assert_eq!(bare.webview2_filename(), "MicrosoftEdgeWebview2Setup.exe");
}
