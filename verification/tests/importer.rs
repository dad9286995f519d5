use pyembed::ImporterError;
use pyembed::decoder::decode_blob;
use pyembed::lifecycle::{InitModuleState, ModuleState, module_init, module_setup};
use pyembed::registry::{
    ModuleFlavor, ModuleRegistry, PackageSet, build_registry, populate_packages,
};
use pyembed::resolver::{CodeAction, ExecAction, LocateAction, Resolver, SourceAction};

/// Packs (name, payload) entries into the container format: a little-endian
/// entry count, an index of (name length, payload length) pairs, all names,
/// then all payloads.
fn blob(entries: &[(&[u8], &[u8])]) -> Vec<u8> {
    let mut out = Vec::new();
    out.extend_from_slice(&(entries.len() as u32).to_le_bytes());
    for (name, payload) in entries {
        out.extend_from_slice(&(name.len() as u32).to_le_bytes());
        out.extend_from_slice(&(payload.len() as u32).to_le_bytes());
    }
    for (name, _) in entries {
        out.extend_from_slice(name);
    }
    for (_, payload) in entries {
        out.extend_from_slice(payload);
    }
    out
}

fn names(list: &[&[u8]]) -> Vec<Vec<u8>> {
    list.iter().map(|n| n.to_vec()).collect()
}

fn setup_resolver(
    py: Vec<u8>,
    pyc: Vec<u8>,
    native: &[&[u8]],
    precompiled: &[&[u8]],
) -> Resolver {
    let mut state = module_init(InitModuleState {
        py_data: py,
        pyc_data: pyc,
    });
    module_setup(&mut state, &names(native), &names(precompiled), 2).expect("setup failed")
}

#[test]
fn decode_round_trip() {
    let data = blob(&[(b"a", b"1234"), (b"pkg.sub", b"abcdef")]);
    let table = decode_blob(&data).expect("well-formed blob");
    assert_eq!(table.get(&b"a".to_vec()), Some(b"1234".to_vec()));
    assert_eq!(table.get(&b"pkg.sub".to_vec()), Some(b"abcdef".to_vec()));
    assert_eq!(table.get(&b"pkg".to_vec()), None);
    assert_eq!(table.get(&b"b".to_vec()), None);
}

#[test]
fn decode_uneven_entries() {
    let big = vec![0xABu8; 1000];
    let data = blob(&[
        (b"first", b"x"),
        (b"second.longer.name", &big),
        (b"", b"payload under the empty name"),
        (b"last", b""),
    ]);
    let table = decode_blob(&data).expect("well-formed blob");
    assert_eq!(table.get(&b"first".to_vec()), Some(b"x".to_vec()));
    assert_eq!(table.get(&b"second.longer.name".to_vec()), Some(big));
    assert_eq!(
        table.get(&b"".to_vec()),
        Some(b"payload under the empty name".to_vec())
    );
    assert_eq!(table.get(&b"last".to_vec()), Some(Vec::new()));
}

#[test]
fn decode_duplicate_last_wins() {
    let data = blob(&[(b"x", b"one"), (b"x", b"two")]);
    let table = decode_blob(&data).expect("well-formed blob");
    assert_eq!(table.get(&b"x".to_vec()), Some(b"two".to_vec()));
}

#[test]
fn decode_empty_blob() {
    let data = blob(&[]);
    let table = decode_blob(&data).expect("well-formed blob");
    assert_eq!(table.get(&b"a".to_vec()), None);
}

#[test]
fn decode_empty_names_and_payloads() {
    let data = blob(&[(b"", b""), (b"m", b"")]);
    let table = decode_blob(&data).expect("well-formed blob");
    assert_eq!(table.get(&b"".to_vec()), Some(Vec::new()));
    assert_eq!(table.get(&b"m".to_vec()), Some(Vec::new()));
}

#[test]
fn decode_too_short_fails() {
    let data = vec![0u8, 1, 2];
    assert!(matches!(decode_blob(&data), Err(ImporterError::Format)));
}

#[test]
fn decode_index_overrunning_buffer_fails() {
    // Declares one entry, but the buffer ends before the index does.
    let data = vec![1u8, 0, 0, 0];
    assert!(matches!(decode_blob(&data), Err(ImporterError::Format)));
    // Declares a huge entry count in an eight-byte buffer.
    let data = vec![0xE8u8, 3, 0, 0, 0, 0, 0, 0];
    assert!(matches!(decode_blob(&data), Err(ImporterError::Format)));
}

#[test]
fn decode_payload_overrunning_buffer_fails() {
    // One entry whose declared payload length exceeds what follows.
    let mut data = Vec::new();
    data.extend_from_slice(&1u32.to_le_bytes());
    data.extend_from_slice(&1u32.to_le_bytes());
    data.extend_from_slice(&100u32.to_le_bytes());
    data.extend_from_slice(b"a");
    data.extend_from_slice(b"123");
    assert!(matches!(decode_blob(&data), Err(ImporterError::Format)));
}

#[test]
fn populate_packages_derives_ancestors() {
    let mut packages = PackageSet::new();
    populate_packages(&mut packages, &b"a.b.c".to_vec());
    assert!(packages.contains(&b"a".to_vec()));
    assert!(packages.contains(&b"a.b".to_vec()));
    assert!(!packages.contains(&b"a.b.c".to_vec()));
    assert!(!packages.contains(&b"b".to_vec()));
}

#[test]
fn populate_packages_no_separator_no_ancestors() {
    let mut packages = PackageSet::new();
    populate_packages(&mut packages, &b"plain".to_vec());
    assert!(!packages.contains(&b"plain".to_vec()));
    assert!(!packages.contains(&b"p".to_vec()));
}

#[test]
fn registry_flavor_precedence() {
    let src = decode_blob(&blob(&[])).unwrap();
    let pyc = decode_blob(&blob(&[(b"c", b"\x01")])).unwrap();
    let (registry, _) = build_registry(
        &names(&[b"a", b"b", b"c"]),
        &names(&[b"b", b"c"]),
        &src,
        &pyc,
    );
    assert_eq!(
        registry.get(&b"a".to_vec()),
        Some(ModuleFlavor::NativelyLinked)
    );
    assert_eq!(registry.get(&b"b".to_vec()), Some(ModuleFlavor::Precompiled));
    assert_eq!(registry.get(&b"c".to_vec()), Some(ModuleFlavor::InMemory));
    assert_eq!(registry.get(&b"d".to_vec()), None);
}

#[test]
fn registry_packages_from_both_tables() {
    let src = decode_blob(&blob(&[(b"top.sub.mod", b"s")])).unwrap();
    let pyc = decode_blob(&blob(&[(b"other.leaf", b"b")])).unwrap();
    let (_, packages) = build_registry(&names(&[]), &names(&[]), &src, &pyc);
    assert!(packages.contains(&b"top".to_vec()));
    assert!(packages.contains(&b"top.sub".to_vec()));
    assert!(packages.contains(&b"other".to_vec()));
    assert!(!packages.contains(&b"top.sub.mod".to_vec()));
    assert!(!packages.contains(&b"other.leaf".to_vec()));
}

#[test]
fn locate_scenario() {
    // Source blob with "a" and "pkg.sub"; "pkg" itself is not packed, so it
    // is a package name but not an importable module.
    let py = blob(&[(b"a", b"1234"), (b"pkg.sub", b"abcdef")]);
    let resolver = setup_resolver(py, blob(&[]), &[], &[]);
    assert!(matches!(
        resolver.locate(&b"pkg.sub".to_vec()),
        LocateAction::BuildSpec { is_package: false }
    ));
    assert!(matches!(
        resolver.locate(&b"a".to_vec()),
        LocateAction::BuildSpec { is_package: false }
    ));
    assert!(matches!(
        resolver.locate(&b"pkg".to_vec()),
        LocateAction::NotFound
    ));
}

#[test]
fn locate_package_flag_when_package_is_packed() {
    let py = blob(&[(b"pkg", b"init"), (b"pkg.sub", b"abcdef")]);
    let resolver = setup_resolver(py, blob(&[]), &[], &[]);
    assert!(matches!(
        resolver.locate(&b"pkg".to_vec()),
        LocateAction::BuildSpec { is_package: true }
    ));
    assert!(matches!(
        resolver.locate(&b"pkg.sub".to_vec()),
        LocateAction::BuildSpec { is_package: false }
    ));
}

#[test]
fn locate_delegates_verbatim_targets() {
    let resolver = setup_resolver(blob(&[]), blob(&[]), &[b"sys"], &[b"zipimport"]);
    assert!(matches!(
        resolver.locate(&b"sys".to_vec()),
        LocateAction::DelegateToNative
    ));
    assert!(matches!(
        resolver.locate(&b"zipimport".to_vec()),
        LocateAction::DelegateToPrecompiled
    ));
    assert!(matches!(
        resolver.locate(&b"missing".to_vec()),
        LocateAction::NotFound
    ));
}

#[test]
fn execute_decisions() {
    let pyc = blob(&[(b"mod", b"\x63\x00")]);
    let resolver = setup_resolver(blob(&[]), pyc, &[b"sys"], &[b"zipimport"]);
    assert!(matches!(
        resolver.execute(&b"sys".to_vec()),
        Ok(ExecAction::DelegateToNative)
    ));
    assert!(matches!(
        resolver.execute(&b"zipimport".to_vec()),
        Ok(ExecAction::DelegateToPrecompiled)
    ));
    match resolver.execute(&b"mod".to_vec()) {
        Ok(ExecAction::RunBytecode(code)) => assert_eq!(code, b"\x63\x00".to_vec()),
        _ => panic!("expected the packed bytecode"),
    }
    assert!(matches!(
        resolver.execute(&b"unknown".to_vec()),
        Ok(ExecAction::Noop)
    ));
}

#[test]
fn missing_payload_errors() {
    // Registry says "x" is blob-packed, but neither table holds a payload:
    // an internal desynchronization every per-module operation reports.
    let mut registry = ModuleRegistry::new();
    registry.insert(b"x".to_vec(), ModuleFlavor::InMemory);
    let resolver = Resolver {
        registry,
        packages: PackageSet::new(),
        source_table: decode_blob(&blob(&[])).unwrap(),
        bytecode_table: decode_blob(&blob(&[])).unwrap(),
    };
    match resolver.execute(&b"x".to_vec()) {
        Err(ImporterError::MissingPayload { name }) => assert_eq!(name, b"x".to_vec()),
        _ => panic!("expected a missing-payload error"),
    }
    match resolver.code_for(&b"x".to_vec()) {
        Err(ImporterError::MissingPayload { name }) => assert_eq!(name, b"x".to_vec()),
        _ => panic!("expected a missing-payload error"),
    }
    match resolver.source_for(&b"x".to_vec()) {
        Err(ImporterError::MissingPayload { name }) => assert_eq!(name, b"x".to_vec()),
        _ => panic!("expected a missing-payload error"),
    }
}

#[test]
fn code_for_decisions() {
    let pyc = blob(&[(b"mod", b"\x63\x00")]);
    let resolver = setup_resolver(blob(&[]), pyc, &[b"sys"], &[b"zipimport"]);
    assert!(matches!(
        resolver.code_for(&b"sys".to_vec()),
        Ok(CodeAction::NoCode)
    ));
    assert!(matches!(
        resolver.code_for(&b"zipimport".to_vec()),
        Ok(CodeAction::FetchPrecompiled)
    ));
    match resolver.code_for(&b"mod".to_vec()) {
        Ok(CodeAction::Deserialize(code)) => assert_eq!(code, b"\x63\x00".to_vec()),
        _ => panic!("expected the packed bytecode"),
    }
    assert!(matches!(
        resolver.code_for(&b"unknown".to_vec()),
        Ok(CodeAction::NoCode)
    ));
}

#[test]
fn source_for_decisions() {
    let py = blob(&[(b"mod", b"x = 1\n")]);
    let pyc = blob(&[(b"mod", b"\x63\x00"), (b"compiled_only", b"\x63\x01")]);
    let resolver = setup_resolver(py, pyc, &[b"sys"], &[b"zipimport"]);
    match resolver.source_for(&b"mod".to_vec()) {
        Ok(SourceAction::DecodeSource(text)) => assert_eq!(text, b"x = 1\n".to_vec()),
        _ => panic!("expected the packed source"),
    }
    match resolver.source_for(&b"compiled_only".to_vec()) {
        Err(ImporterError::MissingPayload { name }) => {
            assert_eq!(name, b"compiled_only".to_vec())
        }
        _ => panic!("expected a missing-payload error"),
    }
    assert!(matches!(
        resolver.source_for(&b"sys".to_vec()),
        Ok(SourceAction::NoSource)
    ));
    assert!(matches!(
        resolver.source_for(&b"zipimport".to_vec()),
        Ok(SourceAction::NoSource)
    ));
    assert!(matches!(
        resolver.source_for(&b"unknown".to_vec()),
        Ok(SourceAction::NoSource)
    ));
}

#[test]
fn deprecated_and_noop_entry_points() {
    let resolver = setup_resolver(blob(&[]), blob(&[]), &[b"sys"], &[]);
    assert!(matches!(
        resolver.find_module(&b"sys".to_vec()),
        LocateAction::NotFound
    ));
    assert!(resolver.create_module().is_none());
    resolver.invalidate_caches();
}

#[test]
fn setup_guard_second_call_fails() {
    let py = blob(&[(b"a", b"1234")]);
    let mut state = module_init(InitModuleState {
        py_data: py,
        pyc_data: blob(&[]),
    });
    let resolver = module_setup(&mut state, &names(&[]), &names(&[]), 2).expect("first setup");
    assert!(matches!(
        module_setup(&mut state, &names(&[]), &names(&[]), 2),
        Err(ImporterError::Lifecycle)
    ));
    // The resolver from the first call is functionally unchanged.
    assert!(matches!(
        resolver.locate(&b"a".to_vec()),
        LocateAction::BuildSpec { is_package: false }
    ));
}

#[test]
fn setup_requires_two_delegates() {
    let mut state = module_init(InitModuleState {
        py_data: blob(&[]),
        pyc_data: blob(&[]),
    });
    assert!(matches!(
        module_setup(&mut state, &names(&[]), &names(&[]), 3),
        Err(ImporterError::Precondition)
    ));
}

#[test]
fn setup_rejects_malformed_blobs() {
    let mut state = module_init(InitModuleState {
        py_data: vec![1, 2, 3],
        pyc_data: blob(&[]),
    });
    assert!(matches!(
        module_setup(&mut state, &names(&[]), &names(&[]), 2),
        Err(ImporterError::Format)
    ));
    let mut state = module_init(InitModuleState {
        py_data: blob(&[]),
        pyc_data: vec![9, 9, 9],
    });
    assert!(matches!(
        module_setup(&mut state, &names(&[]), &names(&[]), 2),
        Err(ImporterError::Format)
    ));
}

#[test]
fn module_init_state() {
    let state: ModuleState = module_init(InitModuleState {
        py_data: vec![4, 0, 0, 0],
        pyc_data: vec![0, 0, 0, 0],
    });
    assert_eq!(state.py_data, vec![4, 0, 0, 0]);
    assert_eq!(state.pyc_data, vec![0, 0, 0, 0]);
    assert!(!state.setup_called);
}

#[test]
fn blob_shadowing_over_delegates() {
    // A packed module of the same name shadows a natively linked and a
    // precompiled one.
    let py = blob(&[(b"sys", b"custom = True\n")]);
    let resolver = setup_resolver(py, blob(&[]), &[b"sys"], &[b"sys"]);
    assert!(matches!(
        resolver.locate(&b"sys".to_vec()),
        LocateAction::BuildSpec { is_package: false }
    ));
}
