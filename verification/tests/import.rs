//! Importing the same image in different ways.
use std::collections::BTreeMap;

use composefs_sync::cstor::{import_image, ResolvedLayer};
use composefs_sync::digest::{sha256_content_digest, ObjectId};
use composefs_sync::finalize::{FinalizeAction, FinalizeReply, FinalizeResult, StreamKey};
use composefs_sync::import::{ImageImport, ImportAction, ImportReply};
use composefs_sync::progress::ProgressEvent;
use composefs_sync::skopeo_varlink::import_via_skopeo_proxy;
use composefs_sync::stats::ImportStats;

const MANIFEST: &str = "{manifest}";
const CONFIG: &str = "{config}";

fn id(bytes: &[u8]) -> ObjectId {
    ObjectId::from_bytes(bytes.to_vec()).unwrap()
}

fn key_name(key: &StreamKey) -> String {
    match key {
        StreamKey::Layer(d) => format!("layer {}", d.as_str()),
        StreamKey::Config(d) => format!("config {}", d.as_str()),
        StreamKey::Manifest(d) => format!("manifest {}", d.as_str()),
    }
}

/// A repository of container images in memory.
#[derive(Default, Clone, PartialEq, Debug)]
struct Repo {
    streams: BTreeMap<String, Vec<u8>>,
    erofs: Vec<String>,
    tags: BTreeMap<String, String>,
}

impl Repo {
    fn answer(&mut self, action: FinalizeAction) -> FinalizeReply {
        match action {
            FinalizeAction::HasStream(key) => {
                FinalizeReply::Stream(self.streams.get(&key_name(&key)).map(|v| id(v)))
            }
            FinalizeAction::WriteStream { key, refs, content } => {
                let mut all = content;
                for r in refs {
                    all.extend_from_slice(r.name.as_bytes());
                    all.extend_from_slice(r.id.as_bytes());
                }
                self.streams.insert(key_name(&key), all.clone());
                FinalizeReply::Written(id(&all))
            }
            FinalizeAction::FindErofs { manifest_digest, .. } => {
                FinalizeReply::Erofs(self.erofs.contains(&manifest_digest.as_str().to_string()))
            }
            FinalizeAction::EnsureErofs { manifest_digest, name, .. } => {
                let manifest = manifest_digest.as_str().to_string();
                self.erofs.push(manifest.clone());
                if let Some(name) = name {
                    self.tags.insert(name, manifest);
                }
                FinalizeReply::Ensured(true)
            }
            FinalizeAction::Tag { manifest_digest, name } => {
                self.tags.insert(name, manifest_digest.as_str().to_string());
                FinalizeReply::Tagged
            }
            other => panic!("{other:?}"),
        }
    }
}

type Notes = Vec<(&'static str, String)>;

/// Runs an import. How many objects the service copies for a layer is up to it.
fn run(
    repo: &mut Repo,
    import: ImageImport,
    copied: u64,
) -> (FinalizeResult, ImportStats, Notes) {
    run_with(repo, import, copied, None)
}

/// Runs an import, and checks whether it insists on zero-copy storage.
fn run_with(
    repo: &mut Repo,
    mut import: ImageImport,
    copied: u64,
    insists: Option<bool>,
) -> (FinalizeResult, ImportStats, Notes) {
    let mut notes = Vec::new();
    loop {
        let reply = match import.action() {
            ImportAction::HasLayer { diff_id } => {
                let key = key_name(&StreamKey::Layer(diff_id));
                ImportReply::Layer(repo.streams.get(&key).map(|v| id(v)))
            }
            ImportAction::Transfer { diff_id, zerocopy, .. } => {
                if let Some(expected) = insists {
                    assert_eq!(zerocopy, expected);
                }
                let verity = diff_id.as_str().as_bytes().to_vec();
                repo.streams.insert(key_name(&StreamKey::Layer(diff_id)), verity.clone());
                let stats = ImportStats { objects_copied: copied, ..ImportStats::default() };
                ImportReply::Transferred { id: id(&verity), stats, transferred: copied }
            }
            ImportAction::CloseService => ImportReply::Closed,
            ImportAction::ReadMetadata { .. } => ImportReply::Bytes(CONFIG.as_bytes().to_vec()),
            ImportAction::ReadManifest => ImportReply::Bytes(MANIFEST.as_bytes().to_vec()),
            ImportAction::Finalize(action) => ImportReply::Finalize(repo.answer(action)),
            ImportAction::Done(result) => return (result, import.stats(), notes),
            ImportAction::Fail(e) => panic!("{}", e.message()),
        };
        assert!(import.can_resume(&reply));
        let (next, events) = import.resume(reply);
        for event in events {
            match event {
                ProgressEvent::Skipped { id } => notes.push(("skipped", id)),
                ProgressEvent::Started { id, .. } => notes.push(("started", id)),
                ProgressEvent::Done { id, .. } => notes.push(("done", id)),
                ProgressEvent::Message(_) => {}
            }
        }
        import = next;
    }
}

fn from_storage(contents: &[u8]) -> ImageImport {
    from_storage_with(contents, false)
}

fn from_storage_with(contents: &[u8], zerocopy: bool) -> ImageImport {
    let layers = contents
        .iter()
        .map(|n| ResolvedLayer {
            storage_path: "/store".to_string(),
            layer_id: format!("layer{n}"),
            diff_id: sha256_content_digest(&[*n]),
        })
        .collect();
    import_image("abc", layers, Some("name".to_string()), zerocopy)
}

fn from_skopeo(contents: &[u8]) -> ImageImport {
    let diff_ids: Vec<String> = contents
        .iter()
        .map(|n| sha256_content_digest(&[*n]).as_str().to_string())
        .collect();
    let storage_ids: Vec<String> = contents.iter().map(|n| format!("layer{n}")).collect();
    let name = Some("name".to_string());
    import_via_skopeo_proxy(&diff_ids, &storage_ids, MANIFEST, CONFIG, name, true)
        .unwrap_or_else(|e| panic!("{e:?}"))
}

/// A repository that has the layer made of one byte.
fn with_layer(n: u8) -> Repo {
    let mut repo = Repo::default();
    let key = key_name(&StreamKey::Layer(sha256_content_digest(&[n])));
    repo.streams.insert(key, vec![n; 4]);
    repo
}

#[test]
fn every_way_of_importing_gives_the_same_image() {
    let mut direct_repo = with_layer(2);
    let mut proxied_repo = with_layer(2);
    let mut skopeo_repo = with_layer(2);
    let direct = run(&mut direct_repo, from_storage(&[1, 2, 3]), 0);
    let proxied = run(&mut proxied_repo, from_storage(&[1, 2, 3]), 7);
    let skopeo = run(&mut skopeo_repo, from_skopeo(&[1, 2, 3]), 9);
    for (repo, other) in [(proxied_repo, &proxied), (skopeo_repo, &skopeo)] {
        assert_eq!(repo, direct_repo);
        assert_eq!(other.0.manifest_digest.as_str(), direct.0.manifest_digest.as_str());
        assert_eq!(other.0.config_digest.as_str(), direct.0.config_digest.as_str());
        assert_eq!(other.0.manifest_verity.as_bytes(), direct.0.manifest_verity.as_bytes());
        assert_eq!(other.0.config_verity.as_bytes(), direct.0.config_verity.as_bytes());
        assert_eq!(other.1.layers, 3);
        assert_eq!(other.1.layers_already_present, 1);
        assert_eq!(other.2, direct.2);
    }
    let digest = |n: u8| sha256_content_digest(&[n]).as_str().to_string();
    assert_eq!(
        direct.2,
        vec![
            ("started", digest(1)),
            ("done", digest(1)),
            ("skipped", digest(2)),
            ("started", digest(3)),
            ("done", digest(3)),
        ]
    );
    assert_eq!(direct_repo.tags["name"], direct.0.manifest_digest.as_str());
}

#[test]
fn a_layer_that_comes_twice_is_transferred_once() {
    let mut repo = Repo::default();
    let (_, stats, notes) = run(&mut repo, from_storage(&[5, 5]), 1);
    assert_eq!(stats.layers, 2);
    assert_eq!(stats.layers_already_present, 1);
    assert_eq!(stats.objects_copied, 1);
    assert_eq!(notes.len(), 3);
    // Once more: now both are there.
    let before = repo.clone();
    let (_, stats, _) = run(&mut repo, from_storage(&[5, 5]), 1);
    assert_eq!(stats.layers_already_present, 2);
    assert_eq!(stats.objects_copied, 0);
    assert_eq!(repo, before);
}

#[test]
fn every_layer_is_drained_with_the_setting_of_the_import() {
    for zerocopy in [false, true] {
        let import = from_storage_with(&[1, 2, 3], zerocopy);
        let (_, stats, _) = run_with(&mut with_layer(2), import, 1, Some(zerocopy));
        assert_eq!(stats.objects_copied, 2);
    }
    run_with(&mut with_layer(2), from_skopeo(&[1, 2, 3]), 0, Some(true));
}
