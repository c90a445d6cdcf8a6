use std::io::Write;

use theia_plugins::errors::ErrorKind;
use theia_plugins::manifest::TheiaPluginLCL;

fn sample_zip() -> Vec<u8> {
    let mut cur = std::io::Cursor::new(Vec::new());
    {
        let mut zw = zip::ZipWriter::new(&mut cur);
        let exec_opts = zip::write::SimpleFileOptions::default().unix_permissions(0o755);
        let plain = zip::write::SimpleFileOptions::default();
        zw.add_directory("bin", plain).unwrap();
        zw.start_file("bin/tool", exec_opts).unwrap();
        zw.write_all(b"#!/bin/sh\necho hi\n").unwrap();
        zw.start_file("readme.txt", plain).unwrap();
        zw.write_all(b"hello").unwrap();
        zw.finish().unwrap();
    }
    cur.into_inner()
}

#[test]
fn extraction_plan_keeps_contents_and_modes() {
    let store = TheiaPluginLCL::new("/tmp/t");
    let writes = store.installing("plug", &sample_zip()).unwrap();
    assert_eq!(writes.len(), 2);
    assert_eq!(writes[0].path, "/tmp/t/plug/bin/tool");
    assert_eq!(writes[0].content, b"#!/bin/sh\necho hi\n".to_vec());
    assert_eq!(writes[0].unix_mode.map(|m| m & 0o777), Some(0o755));
    assert_eq!(writes[1].path, "/tmp/t/plug/readme.txt");
    assert_eq!(writes[1].content, b"hello".to_vec());
}

#[test]
fn malformed_archive_is_archive_format_error() {
    let store = TheiaPluginLCL::new("/tmp/t");
    let err = store.installing("plug", &vec![1, 2, 3]).unwrap_err();
    assert_eq!(err.kind(), ErrorKind::ArchiveFormat);
}

#[test]
fn distinct_names_plan_distinct_paths() {
    let store = TheiaPluginLCL::new("/tmp/t");
    let data = sample_zip();
    let w1 = store.installing("alpha", &data).unwrap();
    let w2 = store.installing("beta", &data).unwrap();
    for a in &w1 {
        for b in &w2 {
            assert_ne!(a.path, b.path);
        }
    }
}
