//! Finalizing images.
use std::collections::{BTreeMap, BTreeSet};

use composefs_sync::digest::{sha256_content_digest, ObjectId, OciDigest};
use composefs_sync::finalize::{
    finalize_oci_image, Finalization, FinalizeAction, FinalizeError, FinalizeReply,
    FinalizeResult, StreamKey,
};

/// How extended attributes are filtered in a boot variant.
#[derive(Clone, Copy, PartialEq, Eq, PartialOrd, Ord, Debug)]
enum XattrFiltering {
    Filtered,
    All,
}

impl Default for XattrFiltering {
    fn default() -> Self {
        XattrFiltering::Filtered
    }
}

/// A repository in memory.
#[derive(Default, Clone, PartialEq, Debug)]
struct Repo {
    streams: BTreeMap<String, Vec<u8>>,
    contents: BTreeMap<String, (Vec<(String, Vec<u8>)>, Vec<u8>)>,
    erofs: BTreeSet<String>,
    boot: BTreeSet<(String, XattrFiltering)>,
    tags: BTreeMap<String, String>,
    artifacts: BTreeSet<String>,
    writes: usize,
    generations: usize,
}

fn key_name(key: &StreamKey) -> String {
    match key {
        StreamKey::Layer(d) => format!("layer {}", d.as_str()),
        StreamKey::Config(d) => format!("config {}", d.as_str()),
        StreamKey::Manifest(d) => format!("manifest {}", d.as_str()),
    }
}

fn id(bytes: &[u8]) -> ObjectId {
    ObjectId::from_bytes(bytes.to_vec()).unwrap()
}

fn digest_bytes(data: &[u8]) -> Vec<u8> {
    sha256_content_digest(data).as_str().as_bytes().to_vec()
}

impl Repo {
    fn import_layer(&mut self, tar: &[u8]) -> (OciDigest, ObjectId) {
        let diff_id = sha256_content_digest(tar);
        let verity = digest_bytes(&[b"layer", tar].concat());
        self.streams
            .insert(key_name(&StreamKey::Layer(diff_id.clone())), verity.clone());
        (diff_id, id(&verity))
    }

    fn answer(&mut self, action: FinalizeAction<XattrFiltering>) -> FinalizeReply {
        match action {
            FinalizeAction::HasStream(key) => {
                FinalizeReply::Stream(self.streams.get(&key_name(&key)).map(|v| id(v)))
            }
            FinalizeAction::WriteStream { key, refs, content } => {
                let refs: Vec<(String, Vec<u8>)> = refs
                    .iter()
                    .map(|r| (r.name.clone(), r.id.as_bytes().clone()))
                    .collect();
                let mut all = content.clone();
                for (name, target) in &refs {
                    all.extend_from_slice(name.as_bytes());
                    all.extend_from_slice(target);
                }
                let verity = digest_bytes(&all);
                self.writes += 1;
                self.streams.insert(key_name(&key), verity.clone());
                self.contents.insert(key_name(&key), (refs, content));
                FinalizeReply::Written(id(&verity))
            }
            FinalizeAction::FindErofs { manifest_digest, manifest_verity } => {
                let key = key_name(&StreamKey::Manifest(manifest_digest.clone()));
                assert_eq!(&self.streams[&key], manifest_verity.as_bytes());
                FinalizeReply::Erofs(self.erofs.contains(manifest_digest.as_str()))
            }
            FinalizeAction::FindBootImage { manifest_digest, mode } => FinalizeReply::BootImage(
                self.boot_image_for_mode(manifest_digest.as_str(), mode),
            ),
            FinalizeAction::EnsureErofs { manifest_digest, name, boot, .. } => {
                let manifest = manifest_digest.as_str().to_string();
                if self.artifacts.contains(&manifest) {
                    return FinalizeReply::Ensured(false);
                }
                self.generations += 1;
                // The splitstreams are rewritten to refer to the image.
                for (key, verity) in self.streams.iter_mut() {
                    if !key.starts_with("layer") {
                        verity.push(boot.is_some() as u8);
                    }
                }
                self.erofs.insert(manifest.clone());
                if let Some(mode) = boot {
                    self.boot.insert((manifest.clone(), mode));
                }
                if let Some(name) = name {
                    self.tags.insert(name, manifest);
                }
                FinalizeReply::Ensured(true)
            }
            FinalizeAction::Tag { manifest_digest, name } => {
                self.tags.insert(name, manifest_digest.as_str().to_string());
                FinalizeReply::Tagged
            }
            FinalizeAction::Done(_) | FinalizeAction::Fail(_) => unreachable!(),
        }
    }

    fn boot_image_for_mode(&self, manifest: &str, mode: XattrFiltering) -> bool {
        self.boot.contains(&(manifest.to_string(), mode))
    }

    fn run(&mut self, mut f: Finalization<XattrFiltering>) -> Result<FinalizeResult, FinalizeError> {
        for _ in 0..11 {
            match f.action() {
                FinalizeAction::Done(result) => return Ok(result),
                FinalizeAction::Fail(e) => return Err(e),
                action => {
                    let reply = self.answer(action);
                    f = f.resume(reply);
                }
            }
        }
        panic!("too many rounds");
    }
}

fn make_config_json(diff_ids: &[String]) -> Vec<u8> {
    let list: Vec<String> = diff_ids.iter().map(|d| format!("\"{d}\"")).collect();
    format!(
        "{{\"architecture\":\"amd64\",\"os\":\"linux\",\"rootfs\":{{\"type\":\"layers\",\"diff_ids\":[{}]}}}}",
        list.join(",")
    )
    .into_bytes()
}

fn make_manifest_json(config_json: &[u8], config_digest: &str, diff_ids: &[String]) -> Vec<u8> {
    let layers: Vec<String> = diff_ids.iter().map(|d| format!("{{\"digest\":\"{d}\"}}")).collect();
    format!(
        "{{\"schemaVersion\":2,\"config\":{{\"digest\":\"{config_digest}\",\"size\":{}}},\"layers\":[{}]}}",
        config_json.len(),
        layers.join(",")
    )
    .into_bytes()
}

struct Image {
    manifest: Vec<u8>,
    config: Vec<u8>,
    layers: Vec<(OciDigest, ObjectId)>,
}

fn image(repo: &mut Repo, tars: &[Vec<u8>]) -> Image {
    let layers: Vec<(OciDigest, ObjectId)> = tars.iter().map(|t| repo.import_layer(t)).collect();
    let diff_ids: Vec<String> = layers.iter().map(|l| l.0.as_str().to_string()).collect();
    let config = make_config_json(&diff_ids);
    let config_digest = sha256_content_digest(&config);
    let manifest = make_manifest_json(&config, config_digest.as_str(), &diff_ids);
    Image { manifest, config, layers }
}

impl Image {
    fn finalize(
        &self,
        name: Option<&str>,
        boot: Option<XattrFiltering>,
    ) -> Finalization<XattrFiltering> {
        finalize_oci_image(
            self.manifest.clone(),
            self.config.clone(),
            self.layers.clone(),
            name.map(|n| n.to_string()),
            boot,
        )
    }
}

#[test]
fn test_finalize_oci_image() {
    let mut repo = Repo::default();
    let image = image(&mut repo, &[vec![1; 10], vec![2; 128 * 1024]]);

    let result = repo
        .run(image.finalize(Some("test:v1"), None))
        .unwrap_or_else(|e| panic!("finalize_oci_image: {e:?}"));

    // Digests must be non-empty.
    assert!(!result.manifest_digest.as_str().is_empty());
    assert!(!result.config_digest.as_str().is_empty());
    assert_eq!(
        result.manifest_digest.as_str(),
        sha256_content_digest(&image.manifest).as_str()
    );
    assert_eq!(
        result.config_digest.as_str(),
        sha256_content_digest(&image.config).as_str()
    );

    // Splitstreams must exist.
    let manifest_id = key_name(&StreamKey::Manifest(result.manifest_digest.clone()));
    let config_id = key_name(&StreamKey::Config(result.config_digest.clone()));
    assert!(
        repo.streams.contains_key(&manifest_id),
        "manifest splitstream must exist"
    );
    assert!(
        repo.streams.contains_key(&config_id),
        "config splitstream must exist"
    );

    // Verify the returned verities match what's stored.
    assert_eq!(
        result.manifest_verity.as_bytes(),
        &repo.streams[&manifest_id],
        "returned manifest_verity must match stored"
    );
    assert_eq!(
        result.config_verity.as_bytes(),
        &repo.streams[&config_id],
        "returned config_verity must match stored"
    );

    // EROFS must have been generated for this container image.
    assert!(
        repo.erofs.contains(result.manifest_digest.as_str()),
        "EROFS image must exist after finalize_oci_image for a container image"
    );
    assert_eq!(repo.tags["test:v1"], result.manifest_digest.as_str());

    // The references: layers under their diff-ids, and the config in the manifest.
    let layers: Vec<(String, Vec<u8>)> = image
        .layers
        .iter()
        .map(|(d, v)| (d.as_str().to_string(), v.as_bytes().clone()))
        .collect();
    let (config_refs, config_content) = repo.contents[&config_id].clone();
    assert_eq!(config_refs, layers);
    assert_eq!(config_content, image.config);
    let (manifest_refs, manifest_content) = repo.contents[&manifest_id].clone();
    assert_eq!(
        manifest_refs[0].0,
        format!("config:{}", result.config_digest.as_str())
    );
    assert_eq!(manifest_refs[1..], layers[..]);
    assert_eq!(manifest_content, image.manifest);

    // Idempotency: calling again must succeed and return the same digests.
    let before = repo.clone();
    let again = repo
        .run(image.finalize(Some("test:v1"), None))
        .unwrap_or_else(|e| panic!("finalize_oci_image idempotent: {e:?}"));
    assert_eq!(
        result.manifest_digest.as_str(),
        again.manifest_digest.as_str(),
        "idempotent call: manifest_digest"
    );
    assert_eq!(
        result.config_digest.as_str(),
        again.config_digest.as_str(),
        "idempotent call: config_digest"
    );
    assert_eq!(before, repo);
    assert_eq!(
        result.manifest_verity.as_bytes(),
        again.manifest_verity.as_bytes()
    );
}

#[test]
fn test_finalize_oci_image_generates_boot_on_reimport() {
    let mut repo = Repo::default();
    let image = image(&mut repo, &[b"/usr /boot /sysroot".to_vec()]);

    // First finalize: plain, no boot variant requested.
    let result = repo
        .run(image.finalize(None, None))
        .unwrap_or_else(|e| panic!("finalize_oci_image (plain): {e:?}"));
    let manifest = result.manifest_digest.as_str();

    assert!(
        repo.erofs.contains(manifest),
        "plain EROFS must exist after the first finalize"
    );
    assert!(
        !repo.boot_image_for_mode(manifest, XattrFiltering::default()),
        "no boot EROFS should exist before it was ever requested"
    );

    // Re-finalize the same manifest, this time requesting the boot variant. The
    // plain EROFS already existing must not cause this to be skipped.
    let boot_options = XattrFiltering::default();
    repo.run(image.finalize(None, Some(boot_options)))
        .unwrap_or_else(|e| panic!("finalize_oci_image (bootable re-finalize): {e:?}"));
    assert!(
        repo.boot_image_for_mode(manifest, XattrFiltering::default()),
        "boot EROFS must exist after re-finalizing with boot_options: Some(..)"
    );
    assert_eq!(repo.writes, 2);
    assert_eq!(repo.generations, 2);
    assert!(repo.tags.is_empty());

    // Now that both are there, nothing is generated any more.
    repo.run(image.finalize(None, Some(boot_options))).unwrap();
    assert_eq!(repo.generations, 2);
}

#[test]
fn a_boot_variant_for_another_mode_does_not_count() {
    let mut repo = Repo::default();
    let image = image(&mut repo, &[b"/usr".to_vec()]);
    let result = repo.run(image.finalize(None, Some(XattrFiltering::All))).unwrap();
    let manifest = result.manifest_digest.as_str();
    assert!(repo.boot_image_for_mode(manifest, XattrFiltering::All));
    assert!(!repo.boot_image_for_mode(manifest, XattrFiltering::Filtered));
    repo.run(image.finalize(None, Some(XattrFiltering::Filtered))).unwrap();
    assert!(repo.boot_image_for_mode(manifest, XattrFiltering::All));
    assert!(repo.boot_image_for_mode(manifest, XattrFiltering::Filtered));
    assert_eq!(repo.generations, 2);
}

#[test]
fn artifacts_are_tagged_directly() {
    let mut repo = Repo::default();
    let image = image(&mut repo, &[vec![7; 3]]);
    let manifest = sha256_content_digest(&image.manifest).as_str().to_string();
    repo.artifacts.insert(manifest.clone());
    let result = repo.run(image.finalize(Some("artifact"), Some(XattrFiltering::Filtered))).unwrap();
    assert_eq!(repo.tags["artifact"], manifest);
    assert!(repo.erofs.is_empty());
    assert_eq!(repo.generations, 0);
    assert_eq!(result.manifest_digest.as_str(), manifest);
}

#[test]
fn vanished_streams_are_reported() {
    let mut repo = Repo::default();
    let image = image(&mut repo, &[]);
    let mut f = image.finalize(None, None);
    f = f.resume(FinalizeReply::Stream(Some(id(b"c"))));
    f = f.resume(FinalizeReply::Stream(Some(id(b"m"))));
    f = f.resume(FinalizeReply::Erofs(true));
    assert!(matches!(f.action(), FinalizeAction::HasStream(StreamKey::Config(_))));
    f = f.resume(FinalizeReply::Tagged);
    f = f.resume(FinalizeReply::Stream(None));
    match f.action() {
        FinalizeAction::Fail(e) => {
            assert_eq!(e, FinalizeError::ConfigMissing);
            assert_eq!(e.message(), "config splitstream missing after finalization");
        }
        _ => panic!("the config is gone"),
    }

    let mut f = image.finalize(None, None);
    f = f.resume(FinalizeReply::Stream(Some(id(b"c"))));
    f = f.resume(FinalizeReply::Stream(Some(id(b"m"))));
    f = f.resume(FinalizeReply::Erofs(true));
    f = f.resume(FinalizeReply::Stream(Some(id(b"c"))));
    f = f.resume(FinalizeReply::Stream(None));
    match f.action() {
        FinalizeAction::Fail(e) => {
            assert_eq!(e, FinalizeError::ManifestMissing);
            assert_eq!(e.message(), "manifest splitstream missing after finalization");
        }
        _ => panic!("the manifest is gone"),
    }
}

#[test]
fn other_images_are_left_alone() {
    let mut repo = Repo::default();
    let first = image(&mut repo, &[vec![1; 3]]);
    repo.run(first.finalize(Some("first"), Some(XattrFiltering::Filtered))).unwrap();
    let second = image(&mut repo, &[vec![2; 3]]);
    let before = repo.clone();
    // An artifact, so that nothing is rewritten.
    let manifest = sha256_content_digest(&second.manifest).as_str().to_string();
    repo.artifacts.insert(manifest.clone());
    repo.run(second.finalize(Some("second"), None)).unwrap();
    for (key, verity) in &before.streams {
        assert_eq!(&repo.streams[key], verity);
    }
    assert_eq!(repo.erofs, before.erofs);
    assert_eq!(repo.boot, before.boot);
    assert_eq!(repo.tags["first"], before.tags["first"]);
    assert_eq!(repo.tags["second"], manifest);
}
