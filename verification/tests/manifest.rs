use bird_routes::decimal::u32_to_string;
use bird_routes::manifest::{manifest, ManifestOutcome};

const TOML: &str = "application/toml";

fn rendered(out: ManifestOutcome) -> String {
    match out {
        ManifestOutcome::Rendered(s) => s,
        other => panic!("expected a rendered body, got {:?}", other),
    }
}

fn invalid_message(out: ManifestOutcome) -> String {
    match out {
        ManifestOutcome::InvalidManifest(m) => m,
        other => panic!("expected a client-input error, got {:?}", other),
    }
}

#[test]
fn two_orders_render_exactly() {
    let body = b"[package]\nname = \"gifts\"\n\n[[package.metadata.orders]]\nitem = \"A\"\nquantity = 1\n\n[[package.metadata.orders]]\nitem = \"B\"\nquantity = 2\n";
    let out = manifest(TOML, body);
    assert_eq!(rendered(out), "A: 1\nB: 2");
}

#[test]
fn order_of_orders_is_kept() {
    let body = b"[[package.metadata.orders]]\nitem = \"toy car\"\nquantity = 2\n\n[[package.metadata.orders]]\nitem = \"lego brick\"\nquantity = 230\n\n[[package.metadata.orders]]\nitem = \"doll\"\nquantity = 2\n";
    let out = manifest(TOML, body);
    assert_eq!(rendered(out), "toy car: 2\nlego brick: 230\ndoll: 2");
}

#[test]
fn extra_keys_are_ignored() {
    let body = b"[package]\nname = \"x\"\nversion = \"1.0\"\n\n[[package.metadata.orders]]\nitem = \"A\"\nquantity = 7\ncolor = \"red\"\n";
    let out = manifest(TOML, body);
    assert_eq!(rendered(out), "A: 7");
}

#[test]
fn zero_orders_give_no_content() {
    let body = b"[package.metadata]\norders = []\n";
    let out = manifest(TOML, body);
    assert!(matches!(out, ManifestOutcome::NoContent));
}

#[test]
fn malformed_document_is_a_client_error() {
    let body = b"not really toml %%%";
    let out = manifest(TOML, body);
    assert_eq!(invalid_message(out), "Invalid manifest");
}

#[test]
fn missing_orders_is_a_client_error() {
    let body = b"[package.metadata]\nname = \"x\"\n";
    let out = manifest(TOML, body);
    assert_eq!(invalid_message(out), "Invalid manifest");
}

#[test]
fn orders_that_are_no_array_are_a_client_error() {
    let body = b"[package.metadata]\norders = 5\n";
    let out = manifest(TOML, body);
    assert_eq!(invalid_message(out), "Invalid manifest");
}

#[test]
fn order_without_quantity_is_a_client_error() {
    let body = b"[[package.metadata.orders]]\nitem = \"A\"\n";
    let out = manifest(TOML, body);
    assert_eq!(invalid_message(out), "Invalid manifest");
}

#[test]
fn textual_quantity_is_a_client_error() {
    let body = b"[[package.metadata.orders]]\nitem = \"A\"\nquantity = \"2\"\n";
    let out = manifest(TOML, body);
    assert_eq!(invalid_message(out), "Invalid manifest");
}

#[test]
fn negative_quantity_is_a_client_error() {
    let body = b"[[package.metadata.orders]]\nitem = \"A\"\nquantity = -1\n";
    let out = manifest(TOML, body);
    assert_eq!(invalid_message(out), "Invalid manifest");
}

#[test]
fn too_large_quantity_is_a_client_error() {
    let body = b"[[package.metadata.orders]]\nitem = \"A\"\nquantity = 4294967296\n";
    let out = manifest(TOML, body);
    assert_eq!(invalid_message(out), "Invalid manifest");
}

#[test]
fn largest_quantity_renders() {
    let body = b"[[package.metadata.orders]]\nitem = \"A\"\nquantity = 4294967295\n";
    let out = manifest(TOML, body);
    assert_eq!(rendered(out), "A: 4294967295");
}

#[test]
fn invalid_utf8_body_is_a_client_error() {
    let body: &[u8] = &[0xff, 0xfe, 0x00, 0x41];
    let out = manifest(TOML, body);
    assert_eq!(invalid_message(out), "Invalid manifest");
}

#[test]
fn invalid_utf8_inside_item_is_replaced() {
    let mut body = b"[[package.metadata.orders]]\nitem = \"A".to_vec();
    body.push(0xff);
    body.extend_from_slice(b"\"\nquantity = 1\n");
    let out = manifest(TOML, &body);
    assert_eq!(rendered(out), "A\u{fffd}: 1");
}

#[test]
fn json_is_not_handled_yet() {
    let body = b"{\"package\": {}}";
    let out = manifest("application/json", body);
    assert!(matches!(out, ManifestOutcome::UnimplementedFormat));
}

#[test]
fn unknown_content_type_is_unsupported() {
    let good_body = b"[[package.metadata.orders]]\nitem = \"A\"\nquantity = 1\n";
    for ct in ["text/plain", "text/html", "application/xml", ""] {
        let out = manifest(ct, good_body);
        assert!(matches!(out, ManifestOutcome::UnsupportedMediaType));
        let out = manifest(ct, b"anything at all");
        assert!(matches!(out, ManifestOutcome::UnsupportedMediaType));
    }
}

#[test]
fn decimal_rendering_is_exact() {
    assert_eq!(u32_to_string(0), "0");
    assert_eq!(u32_to_string(7), "7");
    assert_eq!(u32_to_string(10), "10");
    assert_eq!(u32_to_string(230), "230");
    assert_eq!(u32_to_string(4294967295), "4294967295");
}
