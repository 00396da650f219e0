use launch::errors::LaunchError;
use launch::manifest::{LayerMetadata, RegistryResponse};
use launch::materialize::{apply_layer, decode_layer, lookup_file, FsEntry};

fn gz_tar(files: &[(&str, &[u8])]) -> Vec<u8> {
    let mut builder = tar::Builder::new(Vec::new());
    for (path, data) in files {
        let mut header = tar::Header::new_gnu();
        header.set_size(data.len() as u64);
        header.set_mode(0o644);
        header.set_cksum();
        builder.append_data(&mut header, path, *data).unwrap();
    }
    let tar_bytes = builder.into_inner().unwrap();
    let mut encoder = flate2::write::GzEncoder::new(Vec::new(), flate2::Compression::default());
    std::io::Write::write_all(&mut encoder, &tar_bytes).unwrap();
    encoder.finish().unwrap()
}

#[test]
fn decode_layer_reads_archive() {
    let blob = gz_tar(&[("etc/hosts", b"127.0.0.1 localhost"), ("bin/sh", b"#!x")]);
    let entries = decode_layer(&blob).unwrap();
    assert_eq!(entries.len(), 2);
    assert_eq!(entries[0].path, "etc/hosts");
    assert_eq!(entries[0].data, b"127.0.0.1 localhost");
    assert_eq!(entries[1].path, "bin/sh");
    assert_eq!(entries[1].data, b"#!x");
}

#[test]
fn decode_layer_rejects_non_gzip() {
    let r = decode_layer(b"definitely not a gzip stream");
    assert!(matches!(r, Err(LaunchError::UnpackError)));
}

#[test]
fn decode_layer_rejects_gzip_of_non_tar() {
    let mut encoder = flate2::write::GzEncoder::new(Vec::new(), flate2::Compression::default());
    std::io::Write::write_all(&mut encoder, b"some bytes that are no tar archive").unwrap();
    let blob = encoder.finish().unwrap();
    let r = decode_layer(&blob);
    assert!(matches!(r, Err(LaunchError::UnpackError)));
}

#[test]
fn last_applied_layer_wins() {
    let d1 = gz_tar(&[("app/config", b"one"), ("app/base", b"keep")]);
    let d2 = gz_tar(&[("app/other", b"two")]);
    let d3 = gz_tar(&[("app/config", b"three")]);

    let mut root: Vec<FsEntry> = Vec::new();
    for blob in [&d1, &d2, &d3] {
        let mut layer = decode_layer(blob).unwrap();
        apply_layer(&mut root, &mut layer);
    }

    let config = lookup_file(&root, "app/config").unwrap();
    assert_eq!(config, b"three");
    let base = lookup_file(&root, "app/base").unwrap();
    assert_eq!(base, b"keep");
    let other = lookup_file(&root, "app/other").unwrap();
    assert_eq!(other, b"two");
    assert!(lookup_file(&root, "app/missing").is_none());
}

#[test]
fn get_layers_keeps_manifest_order() {
    let manifest = RegistryResponse {
        layers: vec![
            LayerMetadata { digest: "sha256:d1".to_string() },
            LayerMetadata { digest: "sha256:d2".to_string() },
            LayerMetadata { digest: "sha256:d3".to_string() },
        ],
    };
    let digests = manifest.get_layers();
    assert_eq!(digests, vec!["sha256:d1", "sha256:d2", "sha256:d3"]);
}
