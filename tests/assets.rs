use pet_monitor_app::assets::{files, Bundle, BundleFile, FileKind};
use pet_monitor_app::routes::RouteError;

fn bundle(entries: &[(&str, &[u8])]) -> Bundle {
    Bundle {
        files: entries
            .iter()
            .map(|(p, c)| BundleFile { path: p.to_string(), contents: c.to_vec() })
            .collect(),
    }
}

#[test]
fn files_typed_by_extension() {
    let b = bundle(&[("index.html", b"<html>"), ("assets/app.js", b"let x;"), ("LICENSE", b"GPL")]);
    let r = files(&b, "assets/app.js").unwrap();
    assert_eq!(r.kind, FileKind::Extension(b"js".to_vec()));
    assert_eq!(r.body, "let x;");
    let r = files(&b, "LICENSE").unwrap();
    assert_eq!(r.kind, FileKind::Plain);
    assert_eq!(r.body, "GPL");
}

#[test]
fn files_unknown_path_gets_index() {
    let b = bundle(&[("index.html", b"<html>"), ("a.css", b"body{}")]);
    let r = files(&b, "settings").unwrap();
    assert_eq!(r.kind, FileKind::Html);
    assert_eq!(r.body, "<html>");
}

#[test]
fn files_dotfile_and_dotted_directory_have_no_extension() {
    let b = bundle(&[(".bashrc", b"x"), ("v1.2/readme", b"y"), ("a/.b.tar.gz", b"z")]);
    assert_eq!(files(&b, ".bashrc").unwrap().kind, FileKind::Plain);
    assert_eq!(files(&b, "v1.2/readme").unwrap().kind, FileKind::Plain);
    assert_eq!(files(&b, "a/.b.tar.gz").unwrap().kind, FileKind::Extension(b"gz".to_vec()));
}

#[test]
fn files_errors() {
    let b = bundle(&[("bin.dat", &[0xff, 0xfe])]);
    assert_eq!(files(&b, "bin.dat").unwrap_err(), RouteError::Internal);
    assert_eq!(files(&b, "missing").unwrap_err(), RouteError::Internal);
    let b = bundle(&[("index.html", &[0xc3])]);
    assert_eq!(files(&b, "missing").unwrap_err(), RouteError::Internal);
}
