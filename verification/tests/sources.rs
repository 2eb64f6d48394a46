use arcstr::ArcStr;
use par_lang::location::FileName;
use par_lang::playground::examples::{playground_example_paths, PlaygroundExample};
use par_lang::playground::sources::{
    discovery_error, normalized_path, same_path, LoadedPackageFile, SourceSet, SourceSetKind,
};

fn examples() -> SourceSet {
    let examples = playground_example_paths()
        .into_iter()
        .map(|path| PlaygroundExample {
            relative_path_from_src: path.to_owned(),
            source: format!("// {}", path),
        })
        .collect();
    SourceSet::bundled_examples(&examples)
}

fn file(name: &str, path: &str) -> LoadedPackageFile {
    LoadedPackageFile {
        name: FileName(ArcStr::from(name)),
        relative_path_from_src: path.to_owned(),
        source: format!("// {}", path),
    }
}

fn package() -> SourceSet {
    let files = vec![file("/p/src/A.par", "A.par"), file("/p/src/sub/B.par", "sub\\B.par")];
    SourceSet::from_package_layout(Ok(files), "/p/src", "\\P\\src\\sub\\b.par").unwrap()
}

#[test]
fn examples_come_in_order() {
    let set = examples();
    assert_eq!(set.kind(), SourceSetKind::BundledExamples);
    assert_eq!(set.buffer_count(), 3);
    assert_eq!(set.buffer_label(0), "Starter.par");
    assert_eq!(set.buffer_label(1), "PlaygroundChat.par");
    assert_eq!(set.buffer_label(2), "RockPaperScissors.par");
    assert!(set.is_active(0));
    assert_eq!(set.active_file_name().0.as_str(), "playground-examples/src/Starter.par");
    assert_eq!(set.active_source(), "// Starter.par");
    assert!(!set.can_save_active());
    assert_eq!(set.active_disk_path(), None);
    assert_eq!(SourceSet::bundled_package_id().as_str(), "playground_examples");
}

#[test]
fn active_source_changes() {
    let mut set = examples();
    assert!(!set.set_active(0));
    assert!(!set.set_active(3));
    assert!(set.is_active(0));
    assert!(set.set_active(2));
    assert!(set.is_active(2));
    assert_eq!(set.active_label(), "RockPaperScissors.par");
    set.active_source_mut().push('!');
    assert_eq!(set.active_source(), "// RockPaperScissors.par!");
    assert_eq!(set.active_label(), "RockPaperScissors.par *");
    assert_eq!(set.buffer_label(2), "RockPaperScissors.par *");
    assert_eq!(set.buffer_label(0), "Starter.par");
}

#[test]
fn package_files() {
    let set = package();
    assert_eq!(set.kind(), SourceSetKind::DiskPackage);
    assert!(set.is_active(1));
    assert_eq!(set.active_label(), "sub/B.par");
    assert_eq!(set.active_disk_path(), Some("/p/src/sub/B.par"));
    let files = set.loaded_files();
    assert_eq!(files.len(), 2);
    assert_eq!(files[1].name.0.as_str(), "/p/src/sub/B.par");
    assert_eq!(files[1].relative_path_from_src, "sub\\B.par");
    assert_eq!(files[0].source, "// A.par");
    assert_eq!(set.source_overrides()[0], ("/p/src/A.par".to_owned(), "// A.par".to_owned()));
    assert_eq!(set.source_overrides().len(), 2);
    assert!(examples().source_overrides().is_empty());
}

#[test]
fn package_errors() {
    let error = |r: Result<SourceSet, String>| r.err().unwrap();
    let failed = SourceSet::from_package_layout(Err("no".to_owned()), "/p/src", "/p/src/A.par");
    assert_eq!(error(failed), "no");
    let empty = SourceSet::from_package_layout(Ok(vec![]), "/p/src", "/p/src/A.par");
    assert_eq!(error(empty), "Package source directory contains no Par files: /p/src");
    let files = vec![file("/p/src/A.par", "A.par")];
    let other = SourceSet::from_package_layout(Ok(files), "/p/src", "/p/src/C.par");
    assert_eq!(error(other), "File is not a Par source file in its package: /p/src/C.par");
    assert_eq!(
        discovery_error(true, String::new()),
        "This file is not a part of a Par package. Create a package using `par new`."
    );
    assert_eq!(discovery_error(false, "why".to_owned()), "why");
}

#[test]
fn saving() {
    let mut set = package();
    set.active_source_mut().push('!');
    assert_eq!(set.active_save(), Some(("/p/src/sub/B.par", "// sub\\B.par!")));
    assert_eq!(set.save_active::<&str>(Err("full")), Err("full"));
    assert_eq!(set.active_label(), "sub/B.par *");
    assert_eq!(set.save_active::<&str>(Ok(Some(7))), Ok(()));
    assert_eq!(set.active_label(), "sub/B.par");
    assert!(set.active_reload_enabled());
    assert!(!set.needs_reload(Some(7)));
    let mut set = examples();
    set.active_source_mut().push('!');
    assert_eq!(set.active_save(), None);
    assert_eq!(set.save_active::<&str>(Err("unused")), Ok(()));
    assert_eq!(set.active_label(), "Starter.par *");
}

#[test]
fn reloading() {
    let mut set = package();
    assert!(!set.active_reload_enabled());
    assert_eq!(set.reload_path(), None);
    set.reload_active_if_changed(Some(9), Some("new".to_owned()));
    assert_eq!(set.active_source(), "// sub\\B.par");
    set.set_active_reload_enabled(true, Some(5));
    assert_eq!(set.reload_path(), Some("/p/src/sub/B.par"));
    assert!(!set.needs_reload(None));
    assert!(!set.needs_reload(Some(5)));
    assert!(set.needs_reload(Some(6)));
    set.reload_active_if_changed(Some(6), None);
    assert_eq!(set.active_source(), "// sub\\B.par");
    set.reload_active_if_changed(Some(6), Some("new".to_owned()));
    assert_eq!(set.active_source(), "new");
    assert_eq!(set.active_label(), "sub/B.par");
    assert!(!set.needs_reload(Some(6)));
    set.set_active_reload_enabled(false, Some(6));
    assert!(!set.active_reload_enabled());
    let mut set = examples();
    set.set_active_reload_enabled(true, Some(5));
    assert!(!set.active_reload_enabled());
}

#[test]
fn paths_that_count_as_the_same() {
    assert_eq!(normalized_path("C:\\A\\b.Par"), "c:/a/b.par");
    assert_eq!(normalized_path("\u{c4}B"), "\u{e4}b");
    assert!(same_path("C:\\A", "c:/a"));
    assert!(!same_path("a", "b"));
}
