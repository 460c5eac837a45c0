//! Importing from containers-storage.
use std::collections::BTreeMap;

use composefs_sync::cstor::{
    can_make_config_key, config_key, import_from_containers_storage, import_image,
    parse_containers_storage_ref, storage_search_paths, store_paths, transfer_label, LayerFrames,
    ResolvedLayer, StorageAccess, StorageEnv, TransferError,
};
use composefs_sync::digest::{sha256_content_digest, ObjectId};
use composefs_sync::finalize::{FinalizeAction, FinalizeReply, StreamKey};
use composefs_sync::import::{ImageImport, ImportAction, ImportReply};
use composefs_sync::progress::{ProgressEvent, ProgressUnit};
use composefs_sync::resolve::{resolve_image_layers, ImageSearch, ResolveAction, ResolveReply};
use composefs_sync::stats::ImportStats;
use composefs_sync::varlink_types::{GetLayerParams, GetLayerReply, StorageLocator};

#[test]
fn test_parse_containers_storage_ref() {
    assert_eq!(
        parse_containers_storage_ref("containers-storage:sha256:abc123"),
        Some("sha256:abc123")
    );
    assert_eq!(
        parse_containers_storage_ref("containers-storage:quay.io/fedora:latest"),
        Some("quay.io/fedora:latest")
    );
    assert_eq!(
        parse_containers_storage_ref("docker://quay.io/fedora:latest"),
        None
    );
    assert_eq!(parse_containers_storage_ref("sha256:abc123"), None);
}

fn s(text: &str) -> String {
    text.to_string()
}

#[test]
fn access_depends_on_privileges() {
    match import_from_containers_storage(true, Some(s("/r")), vec![s("/a")]) {
        Ok(StorageAccess::Direct { storage_root, additional_image_stores }) => {
            assert_eq!(storage_root, Some(s("/r")));
            assert_eq!(additional_image_stores, vec![s("/a")]);
        }
        other => panic!("{other:?}"),
    }
    assert!(matches!(
        import_from_containers_storage(false, None, vec![]),
        Ok(StorageAccess::Proxied)
    ));
    for (root, stores) in [(Some(s("/r")), vec![]), (None, vec![s("/a")])] {
        match import_from_containers_storage(false, root, stores) {
            Err(e) => assert_eq!(
                e.message(),
                "storage_root and additional_image_stores are not supported in rootless mode"
            ),
            other => panic!("{other:?}"),
        }
    }
}

#[test]
fn search_paths_follow_the_environment() {
    let mut env = StorageEnv { storage_root: None, home: None, xdg_data_home: None, storage_opts: None };
    assert_eq!(storage_search_paths(&env), vec!["/var/lib/containers/storage"]);
    env.xdg_data_home = Some(s("/xdg"));
    assert_eq!(
        storage_search_paths(&env),
        vec!["/var/lib/containers/storage"],
        "XDG_DATA_HOME does not count without HOME"
    );
    env.home = Some(s("/home/u"));
    env.storage_root = Some(s("/root"));
    env.storage_opts = Some(s("overlay.x=y, additionalimagestore=/one ,additionalimagestore=/two,"));
    assert_eq!(
        storage_search_paths(&env),
        vec![
            "/root",
            "/xdg/containers/storage",
            "/home/u/.local/share/containers/storage",
            "/var/lib/containers/storage",
            "/one",
            "/two",
        ]
    );
    assert_eq!(
        store_paths(&env, &Some(s("/explicit")), &vec![s("/more")]),
        vec!["/explicit", "/more"]
    );
    assert_eq!(store_paths(&env, &None, &vec![s("/more")]).len(), 7);

    // The helper process looks where direct access without explicit paths does.
    let direct = StorageAccess::Direct { storage_root: None, additional_image_stores: vec![] };
    assert_eq!(StorageAccess::Proxied.store_paths(&env), direct.store_paths(&env));
    assert_eq!(StorageAccess::Proxied.store_paths(&env), storage_search_paths(&env));
    let explicit = StorageAccess::Direct {
        storage_root: Some(s("/explicit")),
        additional_image_stores: vec![s("/more")],
    };
    assert_eq!(explicit.store_paths(&env), vec!["/explicit", "/more"]);
}

#[test]
fn config_keys_are_base64() {
    assert!(can_make_config_key("abc123"));
    assert_eq!(config_key("abc123"), "c2hhMjU2OmFiYzEyMw==");
    assert_eq!(config_key("abc12"), "c2hhMjU2OmFiYzEy");
    assert_eq!(config_key("abc1234"), "c2hhMjU2OmFiYzEyMzQ=");
}

#[test]
fn labels() {
    let storage = StorageLocator { storage_path: s("/p"), layer_id: s("layer") };
    let both = GetLayerParams { diff_id: Some(s("diff")), storage: Some(storage) };
    assert_eq!(transfer_label(&both), "layer");
    let diff_only = GetLayerParams { diff_id: Some(s("diff")), storage: None };
    assert_eq!(transfer_label(&diff_only), "diff");
    let neither = GetLayerParams { diff_id: None, storage: None };
    assert_eq!(transfer_label(&neither), "");
}

#[test]
fn frames_are_put_together() {
    let mut frames: LayerFrames<u32> = LayerFrames::new();
    frames.push(GetLayerReply { dir_count: 9 }, vec![10, 11]);
    frames.push(GetLayerReply { dir_count: 2 }, vec![12, 13, 14]);
    let fds = frames.finish().unwrap_or_else(|e| panic!("{e:?}"));
    assert_eq!(fds.pipe_read, 10);
    assert_eq!(fds.dir_fds, vec![11, 12]);
    assert_eq!(fds.lifetime_fds, vec![13, 14]);

    let none: LayerFrames<u32> = LayerFrames::new();
    match none.finish() {
        Err(e) => assert_eq!(e.message(), "Oci.GetLayer yielded no frames"),
        Ok(_) => panic!("there are no frames"),
    }

    let mut few: LayerFrames<u32> = LayerFrames::new();
    few.push(GetLayerReply { dir_count: 2 }, vec![1, 2, 3]);
    match few.finish() {
        Err(e) => {
            assert_eq!(e, TransferError::TooFewFds { dir_count: 2, got: 3 });
            assert_eq!(
                e.message(),
                "Oci.GetLayer: expected at least 4 fds (1 pipe + 2 dirfd slots + 1 keepalive), got 3"
            );
        }
        Ok(_) => panic!("there is no keepalive fd"),
    }
}

/// Stores in memory.
struct Stores {
    open: Vec<&'static str>,
    by_id: Vec<&'static str>,
    by_name: Vec<&'static str>,
    layer_ids: Vec<&'static str>,
    diff_ids: Vec<String>,
    /// What `/a` says the layer IDs are.
    other_layer_ids: Vec<&'static str>,
    layers: BTreeMap<&'static str, Vec<&'static str>>,
}

fn digest_text(n: u8) -> String {
    sha256_content_digest(&[n]).as_str().to_string()
}

fn stores() -> Stores {
    Stores {
        open: vec!["/a", "/b"],
        by_id: vec![],
        by_name: vec!["/b"],
        layer_ids: vec!["l1", "l2"],
        diff_ids: vec![digest_text(1), digest_text(2)],
        other_layer_ids: vec!["l2", "l2"],
        layers: BTreeMap::from([("/a", vec!["l2"]), ("/b", vec!["l1", "l2"])]),
    }
}

impl Stores {
    fn run(&self, paths: &[&str]) -> Result<Vec<(String, String, String)>, String> {
        self.find(paths).map(|(_, layers)| layers)
    }

    fn find(
        &self,
        paths: &[&str],
    ) -> Result<((String, bool), Vec<(String, String, String)>), String> {
        let paths: Vec<String> = paths.iter().map(|p| s(p)).collect();
        let mut search: ImageSearch = resolve_image_layers("image", paths);
        let mut opened: Vec<String> = Vec::new();
        loop {
            let reply = match search.action() {
                ResolveAction::OpenStore { path } => {
                    if self.open.contains(&path.as_str()) {
                        opened.push(path);
                        ResolveReply::Store(Ok(()))
                    } else {
                        ResolveReply::Store(Err(s("not there")))
                    }
                }
                ResolveAction::OpenImage { store, image_id } => {
                    assert_eq!(image_id, "image");
                    ResolveReply::Image(self.by_id.contains(&opened[store].as_str()))
                }
                ResolveAction::FindImageByName { store, name } => {
                    assert_eq!(name, "image");
                    ResolveReply::Image(self.by_name.contains(&opened[store].as_str()))
                }
                ResolveAction::ListLayers { image } => {
                    let ids = if opened[image.store] == "/a" && !self.by_id.is_empty() {
                        &self.other_layer_ids
                    } else {
                        &self.layer_ids
                    };
                    ResolveReply::LayerIds(ids.iter().map(|l| s(l)).collect())
                }
                ResolveAction::ListDiffIds { .. } => ResolveReply::DiffIds(self.diff_ids.clone()),
                ResolveAction::OpenLayer { store, layer_id } => ResolveReply::Layer(
                    self.layers[opened[store].as_str()].contains(&layer_id.as_str()),
                ),
                ResolveAction::Resolved { image } => {
                    let layers = search
                        .into_layers()
                        .into_iter()
                        .map(|l| (l.storage_path, l.layer_id, s(l.diff_id.as_str())))
                        .collect();
                    return Ok(((opened[image.store].clone(), image.by_name), layers));
                }
                ResolveAction::Fail(e) => return Err(e.message()),
            };
            search = search.resume(reply);
        }
    }
}

#[test]
fn layers_are_found_in_the_first_store() {
    let found = stores().run(&["/x", "/a", "/b"]).unwrap();
    assert_eq!(
        found,
        vec![
            (s("/b"), s("l1"), digest_text(1)),
            (s("/a"), s("l2"), digest_text(2)),
        ]
    );
    let empty = Stores { layer_ids: vec![], diff_ids: vec![], ..stores() };
    assert_eq!(empty.run(&["/b"]).unwrap(), vec![]);
}

#[test]
fn the_image_of_the_first_store_is_taken() {
    let (image, _) = stores().find(&["/x", "/a", "/b"]).unwrap();
    assert_eq!(image, (s("/b"), true));
    // Both stores have an image of that name; its layers are read from the first.
    let both = Stores { by_id: vec!["/a", "/b"], ..stores() };
    let (image, layers) = both.find(&["/x", "/a", "/b"]).unwrap();
    assert_eq!(image, (s("/a"), false));
    assert_eq!(layers[0], (s("/a"), s("l2"), digest_text(1)));
    let (image, layers) = both.find(&["/b", "/a"]).unwrap();
    assert_eq!(image, (s("/b"), false));
    assert_eq!(layers[0], (s("/b"), s("l1"), digest_text(1)));
}

#[test]
fn resolve_errors() {
    assert_eq!(
        stores().run(&["/x", "/y"]).unwrap_err(),
        "Could not open any containers-storage root: /x: not there; /y: not there"
    );
    assert_eq!(
        stores().run(&[]).unwrap_err(),
        "Could not open any containers-storage root: "
    );
    assert_eq!(
        stores().run(&["/a"]).unwrap_err(),
        "Failed to find image image in any storage"
    );
    let by_id = Stores {
        by_id: vec!["/a"],
        other_layer_ids: vec!["l1", "l2"],
        ..stores()
    };
    assert_eq!(
        by_id.run(&["/a"]).unwrap_err(),
        "Could not find store containing layer l1"
    );
    let invalid = Stores { diff_ids: vec![digest_text(1), s("nonsense")], ..stores() };
    assert_eq!(invalid.run(&["/b"]).unwrap_err(), "parsing diff_id");
    let fewer = Stores { diff_ids: vec![digest_text(1)], ..stores() };
    assert_eq!(
        fewer.run(&["/b"]).unwrap_err(),
        "Layer count mismatch: 2 layers in storage, 1 diff_ids in config"
    );
}

fn resolved(n: u8, layer_id: &str) -> ResolvedLayer {
    ResolvedLayer {
        storage_path: s("/store"),
        layer_id: s(layer_id),
        diff_id: sha256_content_digest(&[n]),
    }
}

fn id(bytes: &[u8]) -> ObjectId {
    ObjectId::from_bytes(bytes.to_vec()).unwrap()
}

fn step(import: ImageImport, reply: ImportReply, reports: &mut Vec<ProgressEvent>) -> ImageImport {
    assert!(import.can_resume(&reply));
    let (next, events) = import.resume(reply);
    reports.extend(events);
    next
}

#[test]
fn import_skips_what_is_there() {
    let mut reports = Vec::new();
    let layers = vec![resolved(1, "l1"), resolved(2, "l2")];
    let mut import = import_image("abc123", layers, Some(s("name")), true);
    assert_eq!(import.stats().layers, 2);

    match import.action() {
        ImportAction::HasLayer { diff_id } => assert_eq!(diff_id.as_str(), digest_text(1)),
        other => panic!("{other:?}"),
    }
    import = step(import, ImportReply::Layer(Some(id(b"one"))), &mut reports);
    import = step(import, ImportReply::Layer(None), &mut reports);
    match import.action() {
        ImportAction::Transfer { diff_id, params, zerocopy } => {
            assert_eq!(diff_id.as_str(), digest_text(2));
            assert!(zerocopy);
            assert!(params.diff_id.is_none());
            let storage = params.storage.unwrap();
            assert_eq!(storage.storage_path, "/store");
            assert_eq!(storage.layer_id, "l2");
        }
        other => panic!("{other:?}"),
    }
    let stats = ImportStats { objects_copied: 3, bytes_copied: 300, ..ImportStats::default() };
    import = step(
        import,
        ImportReply::Transferred { id: id(b"two"), stats, transferred: 300 },
        &mut reports,
    );
    assert!(matches!(import.action(), ImportAction::CloseService));
    assert_eq!(import.stats().layers, 2);
    assert_eq!(import.stats().layers_already_present, 1);
    assert_eq!(import.stats().bytes_copied, 300);

    import = step(import, ImportReply::Closed, &mut reports);
    assert!(matches!(
        import.action(),
        ImportAction::ReadMetadata { key } if key == "c2hhMjU2OmFiYzEyMw=="
    ));
    import = step(import, ImportReply::Bytes(b"{config}".to_vec()), &mut reports);
    assert!(matches!(import.action(), ImportAction::ReadManifest));
    import = step(import, ImportReply::Bytes(b"{manifest}x".to_vec()), &mut reports);

    match import.action() {
        ImportAction::Finalize(FinalizeAction::HasStream(StreamKey::Config(d))) => {
            assert_eq!(d.as_str(), sha256_content_digest(b"{config}").as_str());
        }
        other => panic!("{other:?}"),
    }
    import = step(
        import,
        ImportReply::Finalize(FinalizeReply::Stream(None)),
        &mut reports,
    );
    match import.action() {
        ImportAction::Finalize(FinalizeAction::WriteStream { refs, content, .. }) => {
            assert_eq!(content, b"{config}");
            assert_eq!(refs.len(), 2);
            assert_eq!(refs[0].name, digest_text(1));
            assert_eq!(refs[0].id.as_bytes(), b"one");
            assert_eq!(refs[1].name, digest_text(2));
            assert_eq!(refs[1].id.as_bytes(), b"two");
        }
        other => panic!("{other:?}"),
    }
    for reply in [
        FinalizeReply::Written(id(b"c")),
        FinalizeReply::Stream(Some(id(b"m"))),
        FinalizeReply::Erofs(true),
    ] {
        import = step(import, ImportReply::Finalize(reply), &mut reports);
    }
    match import.action() {
        ImportAction::Finalize(FinalizeAction::Tag { name, .. }) => assert_eq!(name, "name"),
        other => panic!("{other:?}"),
    }
    for reply in [
        FinalizeReply::Tagged,
        FinalizeReply::Stream(Some(id(b"c2"))),
        FinalizeReply::Stream(Some(id(b"m2"))),
    ] {
        import = step(import, ImportReply::Finalize(reply), &mut reports);
    }
    match import.action() {
        ImportAction::Done(result) => {
            assert_eq!(result.config_verity.as_bytes(), b"c2");
            assert_eq!(result.manifest_verity.as_bytes(), b"m2");
        }
        other => panic!("{other:?}"),
    }

    let texts: Vec<String> = reports
        .iter()
        .map(|r| match r {
            ProgressEvent::Skipped { id } => format!("skipped {id}"),
            ProgressEvent::Started { id, total, unit } => {
                assert_eq!(*total, None);
                assert_eq!(*unit, ProgressUnit::Bytes);
                format!("started {id}")
            }
            ProgressEvent::Done { id, transferred } => format!("done {id} {transferred}"),
            ProgressEvent::Message(m) => m.clone(),
        })
        .collect();
    assert_eq!(
        texts,
        vec![
            format!("skipped {}", digest_text(1)),
            format!("started {}", digest_text(2)),
            format!("done {} 300", digest_text(2)),
            s("Layers imported"),
            s("Read config (8 bytes)"),
            s("Read manifest (11 bytes)"),
        ]
    );
}

#[test]
fn import_without_layers_and_with_missing_streams() {
    let mut reports = Vec::new();
    let mut import = import_image("i", vec![], None, false);
    assert!(matches!(import.action(), ImportAction::CloseService));
    // A reply out of turn changes nothing.
    import = step(import, ImportReply::Layer(None), &mut reports);
    assert!(reports.is_empty());
    import = step(import, ImportReply::Closed, &mut reports);
    import = step(import, ImportReply::Bytes(vec![]), &mut reports);
    import = step(import, ImportReply::Bytes(vec![]), &mut reports);
    for reply in [
        FinalizeReply::Stream(Some(id(b"c"))),
        FinalizeReply::Stream(Some(id(b"m"))),
        FinalizeReply::Erofs(true),
        FinalizeReply::Stream(None),
    ] {
        import = step(import, ImportReply::Finalize(reply), &mut reports);
    }
    assert!(matches!(import.action(), ImportAction::Fail(_)));
}

#[test]
fn full_counters_are_noticed() {
    let import = import_image("i", vec![resolved(1, "l")], None, false);
    let import = import.resume(ImportReply::Layer(None)).0;
    let full = ImportStats { layers: u64::MAX, ..ImportStats::default() };
    let reply = ImportReply::Transferred { id: id(b"x"), stats: full, transferred: 0 };
    assert!(!import.can_resume(&reply));
}
