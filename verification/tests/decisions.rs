use wick::{body_needs_reply, layer_media_type, list_remove_count, registry_auth, response_headers, reverse_message, RegistryAuth};

#[test]
fn auth_needs_both_user_and_password() {
    match registry_auth(Some("u".to_owned()), Some("p".to_owned())) {
        (RegistryAuth::Basic(u, p), false) => {
            assert_eq!(u, "u");
            assert_eq!(p, "p");
        },
        r => panic!("unexpected {:?}", r),
    }
    assert!(matches!(registry_auth(None, None), (RegistryAuth::Anonymous, false)));
    assert!(matches!(registry_auth(Some("u".to_owned()), None), (RegistryAuth::Anonymous, true)));
    assert!(matches!(registry_auth(None, Some("p".to_owned())), (RegistryAuth::Anonymous, true)));
}

#[test]
fn media_types_by_extension() {
    assert_eq!(layer_media_type("wasm").unwrap(), "application/vnd.wasm.content.layer.v1+wasm");
    assert_eq!(layer_media_type("tar").unwrap(), "application/vnd.oci.image.layer.v1.tar");
    assert_eq!(layer_media_type("yaml").unwrap(), "application/vnd.wick.manifest.layer.v1+yaml");
    assert_eq!(layer_media_type("wafl").unwrap(), "application/vnd.wick.manifest.layer.v1+wafl");
    assert_eq!(layer_media_type("zip").unwrap_err(), "Unknown file type 'zip'");
    assert_eq!(layer_media_type("").unwrap_err(), "Unknown file type ''");
    assert_eq!(layer_media_type("WASM").unwrap_err(), "Unknown file type 'WASM'");
}

#[test]
fn messages_are_reversed_by_character() {
    assert_eq!(reverse_message("hello"), "olleh");
    assert_eq!(reverse_message(""), "");
    assert_eq!(reverse_message("héllo wörld"), "dlröw olléh");
    assert_eq!(reverse_message(&reverse_message("round trip")), "round trip");
}

#[test]
fn json_response_headers() {
    let h = response_headers(27);
    assert_eq!(h.len(), 3);
    assert_eq!(h[0], ("Content-Type".to_owned(), vec!["application/json".to_owned()]));
    assert_eq!(h[1], ("Access-Control-Allow-Origin".to_owned(), vec!["*".to_owned()]));
    assert_eq!(h[2], ("Content-Length".to_owned(), vec!["27".to_owned()]));
    assert_eq!(response_headers(0)[2].1, vec!["0".to_owned()]);
}

#[test]
fn list_remove_counts() {
    assert_eq!(list_remove_count(0), 0);
    assert_eq!(list_remove_count(5), 5);
    assert_eq!(list_remove_count(u32::MAX), u32::MAX as isize);
}

#[test]
fn only_nonempty_bodies_are_answered() {
    assert!(!body_needs_reply(b""));
    assert!(body_needs_reply(b"{}"));
}
