use sculkr::env::{CF_API_KEY, Secret, curseforge_api_key, pack_root};
use sculkr::error::Error;

#[test]
fn a_secret_redacts_itself_in_both_formats() {
    let secret = Secret::new("hunter2".to_owned());

    assert_eq!(secret.to_display_string(), "<redacted>");
    assert_eq!(secret.to_debug_string(), "Secret(<redacted>)");
    assert_eq!(secret.expose(), "hunter2");
}

#[test]
fn a_long_key_fingerprints_to_its_ends() {
    let secret = Secret::new("$2a$10abcdefge345".to_owned());
    assert_eq!(secret.fingerprint(), "$2a$...e345");
}

#[test]
fn a_short_key_fingerprints_to_nothing() {
    let secret = Secret::new("hunter2".to_owned());
    assert_eq!(secret.fingerprint(), "...");
}

#[test]
fn pack_root_defaults_to_the_working_directory() {
    assert_eq!(pack_root(None), ".");
    assert_eq!(pack_root(Some("   ".to_owned())), ".");
    assert_eq!(pack_root(Some("\t\n".to_owned())), ".");
    assert_eq!(pack_root(Some("/packs/mine".to_owned())), "/packs/mine");
}

#[test]
fn a_blank_api_key_is_missing() {
    match curseforge_api_key(Some("  ".to_owned())) {
        Err(Error::MissingEnv(name)) => assert_eq!(name, CF_API_KEY),
        _ => panic!("a blank key should be missing"),
    }
    match curseforge_api_key(None) {
        Err(Error::MissingEnv(name)) => assert_eq!(name, "CF_API_KEY"),
        _ => panic!("an unset key should be missing"),
    }
    match curseforge_api_key(Some("abc".to_owned())) {
        Ok(key) => assert_eq!(key.expose(), "abc"),
        _ => panic!("a set key should be returned"),
    }
}
