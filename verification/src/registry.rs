use vstd::prelude::*;

verus! {

/// How to authenticate to an OCI registry.
#[derive(Debug)]
pub enum RegistryAuth {
    Anonymous,
    Basic(String, String),
}

/// The authentication for a push: basic authentication when both a user
/// name and a password are given, anonymous access otherwise.  The flag is
/// set when only one of the two was given, a case worth warning about.
pub fn registry_auth(username: Option<String>, password: Option<String>) -> (r: (RegistryAuth, bool))
    ensures
        match (username, password) {
            (Some(u), Some(p)) => r.0 == RegistryAuth::Basic(u, p) && !r.1,
            (None, None) => r.0 is Anonymous && !r.1,
            _ => r.0 is Anonymous && r.1,
        },
{
    match (username, password) {
        (Some(username), Some(password)) => (RegistryAuth::Basic(username, password), false),
        (None, None) => (RegistryAuth::Anonymous, false),
        _ => (RegistryAuth::Anonymous, true),
    }
}

/// The media type of a WebAssembly layer.
///
/// Trusted: returns `oci_distribution::manifest::WASM_LAYER_MEDIA_TYPE`,
/// which that crate defines as the literal below.
#[verifier::external_body]
fn wasm_layer_media_type() -> (r: String)
    ensures
        r@ == "application/vnd.wasm.content.layer.v1+wasm"@,
{
    oci_distribution::manifest::WASM_LAYER_MEDIA_TYPE.to_owned()
}

/// The media type of an image layer in tar format.
///
/// Trusted: returns `oci_distribution::manifest::IMAGE_LAYER_MEDIA_TYPE`,
/// which that crate defines as the literal below.
#[verifier::external_body]
fn image_layer_media_type() -> (r: String)
    ensures
        r@ == "application/vnd.oci.image.layer.v1.tar"@,
{
    oci_distribution::manifest::IMAGE_LAYER_MEDIA_TYPE.to_owned()
}

/// The media type under which a file with extension `extension` is pushed,
/// or the error for an extension that is not known.
pub open spec fn layer_media_type_spec(extension: Seq<char>) -> Result<Seq<char>, Seq<char>> {
    if extension == "wasm"@ {
        Ok("application/vnd.wasm.content.layer.v1+wasm"@)
    } else if extension == "tar"@ {
        Ok("application/vnd.oci.image.layer.v1.tar"@)
    } else if extension == "yaml"@ {
        Ok("application/vnd.wick.manifest.layer.v1+yaml"@)
    } else if extension == "wafl"@ {
        Ok("application/vnd.wick.manifest.layer.v1+wafl"@)
    } else {
        Err("Unknown file type '"@ + extension + "'"@)
    }
}

/// The media type of the layer for a file with extension `extension`:
/// WebAssembly for `wasm`, an image layer for `tar`, a wick manifest for
/// `yaml` and `wafl`; any other extension is refused.
pub fn layer_media_type(extension: &str) -> (r: Result<String, String>)
    ensures
        match layer_media_type_spec(extension@) {
            Ok(m) => r matches Ok(s) && s@ == m,
            Err(e) => r matches Err(s) && s@ == e,
        },
        extension@ == "wasm"@ ==> (r matches Ok(m) && m@ == "application/vnd.wasm.content.layer.v1+wasm"@),
        extension@ == "tar"@ ==> (r matches Ok(m) && m@ == "application/vnd.oci.image.layer.v1.tar"@),
        extension@ == "yaml"@ ==> (r matches Ok(m) && m@ == "application/vnd.wick.manifest.layer.v1+yaml"@),
        extension@ == "wafl"@ ==> (r matches Ok(m) && m@ == "application/vnd.wick.manifest.layer.v1+wafl"@),
        (extension@ != "wasm"@ && extension@ != "tar"@ && extension@ != "yaml"@ && extension@ != "wafl"@) ==> (
        r matches Err(e) && e@ == "Unknown file type '"@ + extension@ + "'"@),
        r is Ok <==> (extension@ == "wasm"@ || extension@ == "tar"@ || extension@ == "yaml"@ || extension@
            == "wafl"@),
{
    proof {
        reveal_strlit("wasm");
        reveal_strlit("tar");
        reveal_strlit("yaml");
        reveal_strlit("wafl");
        assert("wasm"@.len() == 4 && "tar"@.len() == 3 && "yaml"@.len() == 4 && "wafl"@.len() == 4);
        assert("wasm"@[0] == 'w' && "yaml"@[0] == 'y' && "wafl"@[0] == 'w');
        assert("wasm"@[2] == 's' && "wafl"@[2] == 'f');
        assert("tar"@ != "wasm"@ && "yaml"@ != "wasm"@ && "wafl"@ != "wasm"@);
        assert("yaml"@ != "tar"@ && "wafl"@ != "tar"@ && "wafl"@ != "yaml"@);
    }
    let ext = String::from_str(extension);
    if ext == String::from_str("wasm") {
        Ok(wasm_layer_media_type())
    } else if ext == String::from_str("tar") {
        Ok(image_layer_media_type())
    } else if ext == String::from_str("yaml") {
        Ok(String::from_str("application/vnd.wick.manifest.layer.v1+yaml"))
    } else if ext == String::from_str("wafl") {
        Ok(String::from_str("application/vnd.wick.manifest.layer.v1+wafl"))
    } else {
        let mut e = String::from_str("Unknown file type '");
        e.append(extension);
        e.append("'");
        Err(e)
    }
}

} // verus!
