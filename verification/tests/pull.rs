use furukawa::image::memory::{merge_tags, strip_tags, MemoryImages};
use furukawa::image::store::{ImageMetadata, ImageMetadataStore};
use furukawa::image::Digest;
use furukawa::pull::{
    blob_digest, create_image_metadata, document_member, image_id, image_metadata, parse_created,
    parses_as_json, total_size, CreateImageParams,
};
use furukawa::pull::machine::{Pull, PullAction, PullReply, PullStage};
use furukawa::registry::manifest::{Descriptor, ManifestDescriptor, ManifestList, ManifestV2, Platform};

fn strings(v: &[&str]) -> Vec<String> {
    v.iter().map(|s| s.to_string()).collect()
}

#[test]
fn test_create_image_metadata_with_parent() {
    let config = "{\"created\": \"2023-01-01T00:00:00Z\", \"parent\": \"sha256:parent123\"}";

    let meta = create_image_metadata("id123", "lib/repo", "latest", config.as_bytes(), 1000, vec!["layer1".to_string()]);

    assert_eq!(meta.id, "id123");
    assert_eq!(meta.repo_tags, vec!["lib/repo:latest"]);
    assert_eq!(meta.parent_id, Some("sha256:parent123".to_string()));
    assert_eq!(meta.size, 1000);
    assert_eq!(meta.created, 1672531200);
}

#[test]
fn test_create_image_metadata_no_parent() {
    let config = "{\"created\": \"2023-01-01T00:00:00Z\"}";

    let meta = create_image_metadata("id123", "lib/repo", "latest", config.as_bytes(), 1000, vec![]);

    assert_eq!(meta.parent_id, None);
}

#[test]
fn created_falls_back_to_the_given_time() {
    assert_eq!(parse_created(b"{\"created\": \"2023-01-01T00:00:00Z\"}", 5), 1672531200);
    assert_eq!(parse_created(b"{\"created\": \"2023-01-01T01:00:00+01:00\"}", 5), 1672531200);
    assert_eq!(parse_created(b"{\"created\": \"yesterday\"}", 5), 5);
    assert_eq!(parse_created(b"{\"created\": 17}", 5), 5);
    assert_eq!(parse_created(b"{}", 5), 5);
    assert_eq!(parse_created(b"not json", 5), 5);
    assert_eq!(parse_created(b"[\"created\"]", 5), 5);
}

#[test]
fn metadata_without_readable_time_is_made_now() {
    let before = time::OffsetDateTime::now_utc().unix_timestamp();
    let meta = create_image_metadata("i", "r", "t", b"{\"parent\": 3}", 0, vec![]);
    let after = time::OffsetDateTime::now_utc().unix_timestamp();
    assert!(before <= meta.created && meta.created <= after);
    assert_eq!(meta.parent_id, None);
}

#[test]
fn image_metadata_takes_what_it_is_given() {
    let meta = image_metadata("id", "library/alpine", "3.19", 77, Some("p".to_string()), 12, strings(&["a", "b"]));
    assert_eq!(meta.id, "id");
    assert_eq!(meta.repo_tags, vec!["library/alpine:3.19"]);
    assert_eq!(meta.parent_id, Some("p".to_string()));
    assert_eq!(meta.created, 77);
    assert_eq!(meta.size, 12);
    assert_eq!(meta.layers, vec!["a", "b"]);
}

#[test]
fn repository_and_tag_defaults() {
    let p = CreateImageParams { from_image: "alpine".to_string(), tag: None };
    assert_eq!(p.repository(), "library/alpine");
    assert_eq!(p.tag_or_latest(), "latest");
    let p = CreateImageParams { from_image: "grafana/grafana".to_string(), tag: Some("10".to_string()) };
    assert_eq!(p.repository(), "grafana/grafana");
    assert_eq!(p.tag_or_latest(), "10");
}

#[test]
fn image_id_is_the_hex_part() {
    assert_eq!(image_id("sha256:abc"), "abc");
    assert_eq!(image_id("abc"), "abc");
    assert_eq!(image_id("md5:abc"), "md5:abc");
}

fn descriptor(digest: &str, size: i64) -> Descriptor {
    Descriptor { media_type: "application/octet-stream".to_string(), size, digest: digest.to_string(), urls: None }
}

fn manifest(config: &str, layers: &[(&str, i64)]) -> ManifestV2 {
    ManifestV2 {
        schema_version: 2,
        media_type: "application/vnd.docker.distribution.manifest.v2+json".to_string(),
        config: descriptor(config, 10),
        layers: layers.iter().map(|(d, s)| descriptor(d, *s)).collect(),
    }
}

fn entry(digest: &str, platform: Option<(&str, &str)>) -> ManifestDescriptor {
    ManifestDescriptor {
        media_type: "m".to_string(),
        size: 1,
        digest: digest.to_string(),
        platform: platform.map(|(os, arch)| Platform { architecture: arch.to_string(), os: os.to_string(), variant: None }),
    }
}

fn list(entries: Vec<ManifestDescriptor>) -> ManifestList {
    ManifestList { schema_version: 2, media_type: "l".to_string(), manifests: entries }
}

#[test]
fn total_size_is_the_sum_or_nothing() {
    assert_eq!(total_size(&vec![]), Some(0));
    assert_eq!(total_size(&vec![descriptor("a", 3), descriptor("b", 4)]), Some(7));
    assert_eq!(total_size(&vec![descriptor("a", i64::MAX), descriptor("b", 1)]), None);
    assert_eq!(total_size(&vec![descriptor("a", i64::MAX), descriptor("b", 1), descriptor("c", -1)]), None);
}

#[test]
fn select_takes_the_first_match() {
    let l = list(vec![
        entry("d0", None),
        entry("d1", Some(("linux", "arm64"))),
        entry("d2", Some(("linux", "amd64"))),
        entry("d3", Some(("linux", "amd64"))),
    ]);
    assert_eq!(l.select("linux", "amd64"), Some(2));
    assert_eq!(l.select("linux", "arm64"), Some(1));
    assert_eq!(l.select("windows", "amd64"), None);
}

/// Pull-and-list alpine:latest, with the host played by the test.
#[test]
fn pull_and_list_alpine() {
    let config_digest = "sha256:c0ffee";
    let config = b"{\"created\": \"2023-01-01T00:00:00Z\"}".to_vec();
    let mut pull = Pull::begin(&CreateImageParams { from_image: "alpine".to_string(), tag: None });
    let mut images = MemoryImages::new();
    let mut stored_layers: Vec<String> = Vec::new();
    let mut stored_config: Option<(String, Vec<u8>)> = None;
    let mut steps = 0;
    let outcome = loop {
        steps += 1;
        assert!(steps < 50);
        let reply = match pull.action() {
            PullAction::FetchManifest { repo, reference } => {
                assert_eq!(repo, "library/alpine");
                if reference == "latest" {
                    PullReply::List(list(vec![
                        entry("sha256:arm", Some(("linux", "arm64"))),
                        entry("sha256:amd", Some(("linux", "amd64"))),
                    ]))
                } else {
                    assert_eq!(reference, "sha256:amd");
                    PullReply::Manifest(manifest(config_digest, &[("sha256:l1", 100), ("sha256:l2", 23)]))
                }
            }
            PullAction::FetchConfig { repo, digest } => {
                assert_eq!(repo, "library/alpine");
                assert_eq!(digest, config_digest);
                PullReply::Config { digest, content: config.clone() }
            }
            PullAction::SaveConfig { image_id, content } => {
                stored_config = Some((image_id, content));
                PullReply::Done
            }
            PullAction::FetchLayer { repo, digest } => {
                assert_eq!(repo, "library/alpine");
                PullReply::Layer { digest }
            }
            PullAction::SaveLayer { digest } => {
                stored_layers.push(digest);
                PullReply::Done
            }
            PullAction::SaveMetadata(meta) => {
                // every layer that the record names is stored by now
                assert_eq!(meta.layers, stored_layers);
                images.save(&meta).unwrap();
                PullReply::Done
            }
            PullAction::Finish(outcome) => break outcome,
        };
        pull = pull.advance(reply);
    };
    assert_eq!(outcome.status, 200);
    assert_eq!(outcome.code, None);
    assert_eq!(outcome.message, "Pull complete");
    assert_eq!(stored_layers, vec!["sha256:l1", "sha256:l2"]);
    assert_eq!(stored_config, Some(("c0ffee".to_string(), config)));

    let all = images.list().unwrap();
    assert_eq!(all.len(), 1);
    assert_eq!(all[0].id, "c0ffee");
    assert!(all[0].repo_tags.contains(&"library/alpine:latest".to_string()));
    assert_eq!(all[0].size, 123);
    assert_eq!(all[0].created, 1672531200);
    assert_eq!(all[0].layers, vec!["sha256:l1", "sha256:l2"]);
    let summaries = furukawa::api::view::image_summaries(&all);
    assert_eq!(summaries.len(), 1);
    assert_eq!(summaries[0].id, "sha256:c0ffee");
    assert_eq!(summaries[0].repo_tags, Some(vec!["library/alpine:latest".to_string()]));
    assert_eq!(summaries[0].size, 123);
    assert_eq!(summaries[0].virtual_size, 123);
    assert_eq!(summaries[0].shared_size, -1);
    assert_eq!(summaries[0].containers, -1);
    assert_eq!(summaries[0].parent_id, "");
}

fn finish_of(p: &Pull) -> (u16, Option<String>, String) {
    match p.action() {
        PullAction::Finish(o) => (o.status, o.code, o.message),
        other => panic!("unexpected action {:?}", other),
    }
}

#[test]
fn manifest_list_without_platform_fails_with_400() {
    let pull = Pull::begin(&CreateImageParams { from_image: "alpine".to_string(), tag: None });
    let pull = pull.advance(PullReply::List(list(vec![
        entry("d1", Some(("linux", "arm64"))),
        entry("d2", Some(("windows", "amd64"))),
        entry("d3", None),
    ])));
    assert_eq!(pull.stage(), PullStage::Finished);
    assert_eq!(
        finish_of(&pull),
        (400, Some("REG_NO_MATCHING_PLATFORM".to_string()), "No linux/amd64 manifest found in list".to_string())
    );
    // a finished pull stays finished
    let pull = pull.advance(PullReply::Done);
    assert_eq!(finish_of(&pull).0, 400);
}

#[test]
fn pull_failures_name_what_failed() {
    let begin = || Pull::begin(&CreateImageParams { from_image: "a/b".to_string(), tag: Some("t".to_string()) });
    let failed = |m: &str| PullReply::Failed { code: "REG_NETWORK_ERROR".to_string(), message: m.to_string() };

    let p = begin().advance(failed("boom"));
    assert_eq!(finish_of(&p), (400, Some("REG_NETWORK_ERROR".to_string()), "Failed to get manifest: boom".to_string()));

    let p = begin().advance(PullReply::Unreadable("bad".to_string()));
    assert_eq!(finish_of(&p), (500, Some("REG_MANIFEST_INVALID".to_string()), "Failed to parse manifest: bad".to_string()));

    let p = begin().advance(PullReply::List(list(vec![entry("sha256:x", Some(("linux", "amd64")))])));
    assert_eq!(p.stage(), PullStage::FetchPlatformManifest);
    let q = p.advance(failed("gone"));
    assert_eq!(finish_of(&q).2, "Failed to fetch target manifest: gone");

    let m = manifest("sha256:cfg", &[("sha256:l1", 1)]);
    let p = begin().advance(PullReply::Manifest(m.clone()));
    assert_eq!(p.stage(), PullStage::FetchConfig);
    // an answer that does not fit changes nothing
    let p = p.advance(PullReply::Done);
    assert_eq!(p.stage(), PullStage::FetchConfig);
    let q = p.advance(PullReply::Config { digest: "sha256:other".to_string(), content: b"{}".to_vec() });
    assert_eq!(
        finish_of(&q),
        (500, Some("REG_DIGEST_MISMATCH".to_string()), "Failed to get config: Invalid digest: sha256:other".to_string())
    );

    let p = begin().advance(PullReply::Manifest(m.clone()));
    let q = p.advance(PullReply::Config { digest: "sha256:cfg".to_string(), content: b"{oops".to_vec() });
    assert_eq!(finish_of(&q), (500, Some("DB_SERIALIZATION_ERROR".to_string()), "Failed to parse config JSON".to_string()));

    let p = begin()
        .advance(PullReply::Manifest(m.clone()))
        .advance(PullReply::Config { digest: "sha256:cfg".to_string(), content: b"{}".to_vec() });
    assert_eq!(p.stage(), PullStage::SaveConfig);
    let q = p.advance(PullReply::Failed { code: "FS_IO_ERROR".to_string(), message: "disk".to_string() });
    assert_eq!(finish_of(&q), (500, Some("FS_IO_ERROR".to_string()), "Failed to save config: disk".to_string()));

    let at_layer = || {
        begin()
            .advance(PullReply::Manifest(m.clone()))
            .advance(PullReply::Config { digest: "sha256:cfg".to_string(), content: b"{}".to_vec() })
            .advance(PullReply::Done)
    };
    assert_eq!(at_layer().stage(), PullStage::FetchLayer(0));
    let q = at_layer().advance(failed("x"));
    assert_eq!(finish_of(&q).2, "Failed to get layer sha256:l1: x");
    let q = at_layer().advance(PullReply::Layer { digest: "sha256:zz".to_string() });
    assert_eq!(
        finish_of(&q),
        (500, Some("REG_DIGEST_MISMATCH".to_string()), "Failed to get layer sha256:l1: Invalid digest: sha256:zz".to_string())
    );
    let p = at_layer().advance(PullReply::Layer { digest: "sha256:l1".to_string() });
    assert_eq!(p.stage(), PullStage::SaveLayer(0));
    let q = p.advance(PullReply::Failed { code: "FS_IO_ERROR".to_string(), message: "full".to_string() });
    assert_eq!(finish_of(&q).2, "Failed to save layer sha256:l1: full");

    let p = at_layer().advance(PullReply::Layer { digest: "sha256:l1".to_string() }).advance(PullReply::Done);
    assert_eq!(p.stage(), PullStage::SaveMetadata);
    let q = p.advance(PullReply::Failed { code: "DB_ERROR".to_string(), message: "locked".to_string() });
    assert_eq!(finish_of(&q), (500, Some("DB_ERROR".to_string()), "Failed to save metadata: locked".to_string()));

    let big = manifest("sha256:cfg", &[("a", i64::MAX), ("b", 1)]);
    let q = begin().advance(PullReply::Manifest(big));
    assert_eq!(finish_of(&q).0, 500);
}

#[test]
fn pull_of_an_image_without_layers_goes_straight_to_the_record() {
    let p = Pull::begin(&CreateImageParams { from_image: "scratchy".to_string(), tag: None })
        .advance(PullReply::Manifest(manifest("sha256:cfg", &[])))
        .advance(PullReply::Config { digest: "sha256:cfg".to_string(), content: b"{\"parent\":\"sha256:p\"}".to_vec() })
        .advance_at(PullReply::Done, 99);
    match p.action() {
        PullAction::SaveMetadata(m) => {
            assert_eq!(m.id, "cfg");
            assert_eq!(m.repo_tags, vec!["library/scratchy:latest"]);
            assert_eq!(m.parent_id, Some("sha256:p".to_string()));
            assert_eq!(m.created, 99);
            assert_eq!(m.size, 0);
            assert!(m.layers.is_empty());
        }
        other => panic!("unexpected action {:?}", other),
    }
}

fn meta(id: &str, tags: &[&str]) -> ImageMetadata {
    ImageMetadata { id: id.to_string(), repo_tags: strings(tags), parent_id: None, created: 1, size: 2, layers: vec![] }
}

#[test]
fn merge_and_strip_tags() {
    assert_eq!(merge_tags(&strings(&["a", "b"]), &strings(&["b", "c", "c", "a", "d"])), vec!["a", "b", "c", "d"]);
    assert_eq!(merge_tags(&strings(&[]), &strings(&["x"])), vec!["x"]);
    assert_eq!(strip_tags(&strings(&["a", "b", "c", "a"]), &strings(&["a", "c"])), vec!["b"]);
    assert_eq!(strip_tags(&strings(&["a"]), &strings(&[])), vec!["a"]);
}

/// After a pull of a tag, exactly one image holds it.
#[test]
fn a_tag_names_one_image() {
    let mut images = MemoryImages::new();
    images.save(&meta("one", &["alpine:latest", "alpine:3"])).unwrap();
    images.save(&meta("two", &["busybox:latest"])).unwrap();
    // pulling alpine:latest again, now with another id
    images.save(&meta("three", &["alpine:latest"])).unwrap();
    let all = images.list().unwrap();
    let holders: Vec<&str> = all
        .iter()
        .filter(|m| m.repo_tags.contains(&"alpine:latest".to_string()))
        .map(|m| m.id.as_str())
        .collect();
    assert_eq!(holders, vec!["three"]);
    assert_eq!(images.get("one").unwrap().unwrap().repo_tags, vec!["alpine:3"]);
    assert_eq!(images.get("two").unwrap().unwrap().repo_tags, vec!["busybox:latest"]);
    // pulling a tag for the same id merges
    images.save(&meta("one", &["alpine:edge"])).unwrap();
    assert_eq!(images.get("one").unwrap().unwrap().repo_tags, vec!["alpine:edge", "alpine:3"]);
    assert!(images.has_image("one").unwrap());
    assert!(!images.has_image("four").unwrap());
    assert!(images.get("four").unwrap().is_none());
    assert_eq!(images.list().unwrap().len(), 3);
}

/// Lookups go by id: a tag or a digest with its prefix finds nothing.
#[test]
fn debug_get_image() {
    let mut store = MemoryImages::new();
    store
        .save(&meta("a40c03cbb81c59bfb0e0887ab0b1859727075da7b9cc576a1cec2c771f38c5fb", &["library/alpine:latest"]))
        .unwrap();
    let all = store.list().unwrap();
    for img in &all {
        println!(" - ID: {}, Tags: {:?}", img.id, img.repo_tags);
    }
    assert_eq!(all.len(), 1);
    assert!(store.get("alpine:latest").unwrap().is_none());
    assert!(store.get("library/alpine:latest").unwrap().is_none());
    assert!(store
        .get("sha256:a40c03cbb81c59bfb0e0887ab0b1859727075da7b9cc576a1cec2c771f38c5fb")
        .unwrap()
        .is_none());
    assert!(store
        .get("a40c03cbb81c59bfb0e0887ab0b1859727075da7b9cc576a1cec2c771f38c5fb")
        .unwrap()
        .is_some());
}

#[test]
fn blob_digests_are_sha256() {
    assert_eq!(blob_digest(b""), "sha256:e3b0c44298fc1c149afbf4c8996fb92427ae41e4649b934ca495991b7852b855");
    assert_eq!(blob_digest(b"abc"), "sha256:ba7816bf8f01cfea414140de5dae2223b00361a396177a9cb410ff61f20015ad");
    assert!(Digest::new(&blob_digest(b"anything at all")).is_ok());
}

#[test]
fn json_documents_and_their_members() {
    assert!(parses_as_json(b"{}"));
    assert!(parses_as_json(b"[1, 2]"));
    assert!(parses_as_json(b" \"text\" "));
    assert!(!parses_as_json(b"{"));
    assert!(!parses_as_json(b""));
    assert!(!parses_as_json(&[0xff, 0xfe]));
    assert_eq!(document_member(b"{\"a\": \"x\", \"b\": 1}", "a"), Some("x".to_string()));
    assert_eq!(document_member(b"{\"a\": \"x\", \"b\": 1}", "b"), None);
    assert_eq!(document_member(b"{\"a\": \"x\"}", "c"), None);
    assert_eq!(document_member(b"[\"a\"]", "a"), None);
    assert_eq!(document_member(b"{\"a\": {\"a\": \"inner\"}}", "a"), None);
    assert_eq!(document_member(b"nonsense", "a"), None);
}

/// A blob that is not what was asked for ends the pull, whatever the host says of it.
#[test]
fn fetched_blobs_are_checked_against_their_digests() {
    let config = b"{\"created\": \"2023-01-01T00:00:00Z\"}".to_vec();
    let layer = b"layer bytes".to_vec();
    let begin = || {
        Pull::begin(&CreateImageParams { from_image: "alpine".to_string(), tag: None })
            .advance(PullReply::Manifest(manifest(&blob_digest(&config), &[(&blob_digest(&layer), 11)])))
    };
    let p = begin().blob_fetched(&config);
    assert_eq!(p.stage(), PullStage::SaveConfig);
    match p.action() {
        PullAction::SaveConfig { image_id, content } => {
            assert_eq!(format!("sha256:{}", image_id), blob_digest(&config));
            assert_eq!(content, config);
        }
        other => panic!("unexpected action {:?}", other),
    }
    let p = p.advance(PullReply::Done);
    assert_eq!(p.stage(), PullStage::FetchLayer(0));
    let q = begin().blob_fetched(&config).advance(PullReply::Done).blob_fetched(b"other bytes");
    assert_eq!(finish_of(&q).1, Some("REG_DIGEST_MISMATCH".to_string()));
    let p = p.blob_fetched_at(&layer, 5);
    assert_eq!(p.stage(), PullStage::SaveLayer(0));
    let q = begin().blob_fetched(b"{}");
    assert_eq!(finish_of(&q).1, Some("REG_DIGEST_MISMATCH".to_string()));
}
