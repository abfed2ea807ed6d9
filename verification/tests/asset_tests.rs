use edgesite::asset::apply_read;
use edgesite::asset::classify_decoded;
use edgesite::asset::content_type_of;
use edgesite::asset::resolve;
use edgesite::asset::resolve_request;
use edgesite::asset::AssetError;

#[test]
fn test_static_dir_returns_404_except_images() {
    let rejected = [
        "something.txt",
        "index.html",
        "css/styles.css",
        "js/script.js",
        "assets/favicon.ico",
    ];
    for path in rejected {
        match resolve_request(path) {
            Err(e) => {
                assert_eq!(e, AssetError::PolicyRejected, "Path {} should be rejected", path);
                assert_eq!(e.status(), 404, "Path {} should return 404", path);
                assert_eq!(e.message(), "Not Found", "Path {} should return 'Not Found'", path);
            }
            Ok(_) => panic!("Path {} should not produce a plan", path),
        }
    }

    let plan = resolve_request("images/nonexistent.png").expect("images path is allowed by the prefix policy");
    match apply_read(plan, None) {
        Err(e) => {
            assert_eq!(e, AssetError::NotFoundOnDisk);
            assert_eq!(e.message(), "File not found", "Missing image should return 'File not found'");
        }
        Ok(_) => panic!("a failed read must not serve an asset"),
    }

    let plan = resolve_request("images/cce-logo.png").expect("images path is allowed by the prefix policy");
    assert_eq!(plan.content_type, "image/png");
}

#[test]
fn test_static_index_returns_404() {
    // The prefix policy rejects index.html even when the file exists beside the assets.
    let existing = Some(b"<!DOCTYPE html><html></html>".to_vec());
    match resolve("index.html", existing) {
        Err(e) => assert_eq!(e.message(), "Not Found"),
        Ok(_) => panic!("index.html must never be served from the asset route"),
    }
}

#[test]
fn test_policy_rejection_is_independent_of_file_state() {
    // Whether or not such a file exists, a wrong prefix is refused alike.
    let when_present = resolve("css/styles.css", Some(vec![1, 2, 3]));
    let when_absent = resolve("css/styles.css", None);
    assert_eq!(when_present.unwrap_err(), AssetError::PolicyRejected);
    assert_eq!(when_absent.unwrap_err(), AssetError::PolicyRejected);
}

#[test]
fn test_served_file_and_bytes() {
    let bytes = vec![0x89u8, 0x50, 0x4e, 0x47, 0x0d, 0x0a, 0x1a, 0x0a];
    let plan = resolve_request("images/cce-logo.png").expect("images path is allowed by the prefix policy");
    assert_eq!(plan.fs_path, "static/images/cce-logo.png");
    assert_eq!(plan.content_type, "image/png");
    let asset = apply_read(plan, Some(bytes.clone())).expect("a read that succeeds is served");
    assert_eq!(asset.bytes, bytes);
    assert_eq!(asset.content_type, "image/png");
}

#[test]
fn test_resolution_is_idempotent() {
    let bytes = vec![7u8, 8, 9];
    let first = resolve("images/cce-logo.png", Some(bytes.clone())).unwrap();
    let second = resolve("images/cce-logo.png", Some(bytes)).unwrap();
    assert_eq!(first.bytes, second.bytes);
    assert_eq!(first.content_type, second.content_type);
}

#[test]
fn test_traversal_components_are_rejected() {
    match resolve_request("images/../secret.txt") {
        Err(e) => {
            assert_eq!(e, AssetError::TraversalRejected);
            assert_eq!(e.message(), "Not Found");
        }
        Ok(_) => panic!("a parent-directory component must be rejected"),
    }
    // A trailing parent component is caught too.
    assert_eq!(resolve_request("images/..").unwrap_err(), AssetError::TraversalRejected);
    // Dots inside a component are not a parent reference.
    let plan = resolve_request("images/a..b.png").expect("dots inside a name are allowed");
    assert_eq!(plan.fs_path, "static/images/a..b.png");
}

#[test]
fn test_encoded_traversal_is_rejected() {
    // The %2e%2e and %2F sequences decode to `..` and `/` and must not escape.
    assert_eq!(
        resolve_request("images/%2e%2e/secret.txt").unwrap_err(),
        AssetError::TraversalRejected
    );
    assert_eq!(
        resolve_request("images/..%2Fsecret.txt").unwrap_err(),
        AssetError::TraversalRejected
    );
}

#[test]
fn test_gate_reads_the_decoded_first_segment() {
    // %69 decodes to `i`: the policy judges the decoded path, not the raw one.
    let plan = resolve_request("%69mages/logo.png").expect("decoded first segment is images");
    assert_eq!(plan.fs_path, "static/images/logo.png");
    // And an encoded slash cannot smuggle a second segment into the first.
    assert_eq!(
        resolve_request("imagesX%2Flogo.png").unwrap_err(),
        AssetError::PolicyRejected
    );
}

#[test]
fn test_percent_decoding_is_lossy_never_failing() {
    // 0xFF is no UTF-8; it becomes the replacement character, not an error.
    let plan = resolve_request("images/%FF.png").expect("malformed bytes are replaced");
    assert_eq!(plan.fs_path, "static/images/\u{FFFD}.png");
    // An ordinary encoded space round-trips into the planned path.
    let plan = resolve_request("images/my%20logo.png").unwrap();
    assert_eq!(plan.fs_path, "static/images/my logo.png");
}

#[test]
fn test_classify_decoded_paths() {
    assert_eq!(classify_decoded("images/logo.png").unwrap(), "static/images/logo.png");
    assert_eq!(classify_decoded("images").unwrap(), "static/images");
    assert_eq!(classify_decoded("imagesque/logo.png").unwrap_err(), AssetError::PolicyRejected);
    assert_eq!(classify_decoded("").unwrap_err(), AssetError::PolicyRejected);
    assert_eq!(classify_decoded("/images/logo.png").unwrap_err(), AssetError::PolicyRejected);
    assert_eq!(classify_decoded("images/../x").unwrap_err(), AssetError::TraversalRejected);
    assert_eq!(classify_decoded("..").unwrap_err(), AssetError::PolicyRejected);
}

#[test]
fn test_content_type_table() {
    assert_eq!(content_type_of("images/a.png"), "image/png");
    assert_eq!(content_type_of("images/a.jpg"), "image/jpeg");
    assert_eq!(content_type_of("images/a.jpeg"), "image/jpeg");
    assert_eq!(content_type_of("images/a.gif"), "image/gif");
    assert_eq!(content_type_of("images/a.svg"), "image/svg+xml");
    assert_eq!(content_type_of("images/a.html"), "text/html; charset=utf-8");
    assert_eq!(content_type_of("images/a.css"), "text/css");
    assert_eq!(content_type_of("images/a.js"), "application/javascript");
    assert_eq!(content_type_of("images/a.bin"), "application/octet-stream");
}

#[test]
fn test_content_type_edge_names() {
    // No extension, a hidden file's lone dot, and a trailing dot all fall
    // back to the opaque default.
    assert_eq!(content_type_of("images/logo"), "application/octet-stream");
    assert_eq!(content_type_of("images/.png"), "application/octet-stream");
    assert_eq!(content_type_of("images/logo."), "application/octet-stream");
    // Only the last dot of the file name counts, and case matters.
    assert_eq!(content_type_of("images/archive.tar.gz.png"), "image/png");
    assert_eq!(content_type_of("images/a.PNG"), "application/octet-stream");
    // The extension comes from the file name, not from a directory's dot.
    assert_eq!(content_type_of("images/v1.2/logo"), "application/octet-stream");
}
