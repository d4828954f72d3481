use workpool::static_files::{authorize, base_dir, FileError, FilePath};

fn path(absolute: bool, parts: &[&str]) -> FilePath {
    FilePath { absolute, parts: parts.iter().map(|p| p.to_string()).collect() }
}

#[test]
fn public_dir_is_relative() {
    assert_eq!(FilePath::public_dir(), path(false, &["public"]));
}

#[test]
fn relative_paths_resolve_below_the_public_directory() {
    assert_eq!(path(false, &["index.html"]).resolve(), path(false, &["public", "index.html"]));
    assert_eq!(
        path(false, &["public", "css", "a.css"]).resolve(),
        path(false, &["public", "public", "css", "a.css"])
    );
    assert_eq!(path(false, &[]).resolve(), path(false, &["public"]));
    assert_eq!(path(false, &["..", "x"]).resolve(), path(false, &["public", "..", "x"]));
}

#[test]
fn absolute_paths_resolve_to_themselves() {
    assert_eq!(path(true, &["etc", "passwd"]).resolve(), path(true, &["etc", "passwd"]));
    assert_eq!(path(true, &[]).resolve(), path(true, &[]));
}

#[test]
fn starts_with_compares_whole_components() {
    let base = path(true, &["srv", "public"]);
    assert!(path(true, &["srv", "public", "a.txt"]).starts_with(&base));
    assert!(path(true, &["srv", "public", "css", "a.css"]).starts_with(&base));
    assert!(path(true, &["srv", "public"]).starts_with(&base));
    assert!(!path(true, &["srv", "publicity", "a.txt"]).starts_with(&base));
    assert!(!path(true, &["srv", "pub"]).starts_with(&base));
    assert!(!path(true, &["srv"]).starts_with(&base));
    assert!(!path(true, &["etc", "passwd"]).starts_with(&base));
    assert!(!path(true, &["public", "srv"]).starts_with(&base));
    assert!(!path(false, &["srv", "public", "a.txt"]).starts_with(&base));
    assert!(path(true, &["x"]).starts_with(&path(true, &[])));
    assert!(!path(true, &["public"]).starts_with(&path(false, &["public"])));
    assert!(path(false, &["public", "x"]).starts_with(&path(false, &["public"])));
}

#[test]
fn base_is_the_canonical_public_directory_or_the_plain_one() {
    assert_eq!(base_dir(Ok(path(true, &["srv", "public"]))), path(true, &["srv", "public"]));
    assert_eq!(base_dir(Err(FileError::NotFound)), path(false, &["public"]));
    assert_eq!(base_dir(Err(FileError::Other)), path(false, &["public"]));
}

#[test]
fn failure_to_canonicalize_is_passed_on() {
    let base = path(true, &["srv", "public"]);
    assert_eq!(authorize(&base, &Err(FileError::NotFound)), Err(FileError::NotFound));
    assert_eq!(authorize(&base, &Err(FileError::Other)), Err(FileError::Other));
    assert_eq!(authorize(&base, &Err(FileError::Denied)), Err(FileError::Denied));
}

#[test]
fn path_outside_of_the_base_is_denied() {
    let base = path(true, &["srv", "public"]);
    assert_eq!(authorize(&base, &Ok(path(true, &["etc", "passwd"]))), Err(FileError::Denied));
    assert_eq!(authorize(&base, &Ok(path(true, &["srv", "secret"]))), Err(FileError::Denied));
    assert_eq!(authorize(&base, &Ok(path(true, &["srv"]))), Err(FileError::Denied));
    // the plain relative base never holds a canonical path
    let plain = base_dir(Err(FileError::NotFound));
    assert_eq!(authorize(&plain, &Ok(path(true, &["public", "a"]))), Err(FileError::Denied));
}

#[test]
fn path_below_the_base_is_served() {
    let base = path(true, &["srv", "public"]);
    assert_eq!(authorize(&base, &Ok(path(true, &["srv", "public", "index.html"]))), Ok(()));
    assert_eq!(authorize(&base, &Ok(path(true, &["srv", "public"]))), Ok(()));
}

#[test]
fn content_type_is_guessed_from_the_extension() {
    assert_eq!(path(true, &["srv", "public", "index.html"]).content_type(), "text/html");
    assert_eq!(path(true, &["srv", "public", "site.css"]).content_type(), "text/css");
    assert_eq!(path(true, &["a", "app.js"]).content_type(), "text/javascript");
    assert_eq!(path(true, &["a", "data.json"]).content_type(), "application/json");
    assert_eq!(path(true, &["a", "logo.png"]).content_type(), "image/png");
    assert_eq!(path(true, &["a", "photo.JPG"]).content_type(), "image/jpeg");
    assert_eq!(path(true, &["a", "notes.txt"]).content_type(), "text/plain");
    assert_eq!(path(true, &["a", "pic.svg"]).content_type(), "image/svg+xml");
    assert_eq!(path(false, &["archive.tar.png"]).content_type(), "image/png");
}

#[test]
fn content_type_without_known_extension_is_octet_stream() {
    assert_eq!(path(true, &["srv", "public", "README"]).content_type(), "application/octet-stream");
    assert_eq!(path(true, &["a.html", "b"]).content_type(), "application/octet-stream");
    assert_eq!(path(true, &["a", ".html"]).content_type(), "application/octet-stream");
    assert_eq!(path(true, &["a", "x.unknownext"]).content_type(), "application/octet-stream");
    assert_eq!(path(true, &["a", "x."]).content_type(), "application/octet-stream");
    assert_eq!(path(true, &[]).content_type(), "application/octet-stream");
}
