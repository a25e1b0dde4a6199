use workspace_control::plugins::package::{
    check_package_depth, check_regular_file, root_entry_is_package, tally_package_entry,
    EntryKind, PackageTally, MAX_MANIFEST_BYTES, MAX_PACKAGE_BYTES,
};
use workspace_control::plugins::PluginError;

fn invalid<T>(message: &str) -> Result<T, PluginError> {
    Err(PluginError::InvalidPackage(message.to_owned()))
}

#[test]
fn the_plugin_root_holds_only_package_directories() {
    assert_eq!(root_entry_is_package("policy", EntryKind::Directory), Ok(true));
    assert_eq!(root_entry_is_package(".cache", EntryKind::File), Ok(false));
    assert_eq!(
        root_entry_is_package("policy", EntryKind::Symlink),
        invalid("plugin directory may contain only package directories")
    );
    assert_eq!(
        root_entry_is_package("notes.txt", EntryKind::File),
        invalid("plugin directory may contain only package directories")
    );
}

#[test]
fn packages_are_bounded_and_hold_no_links() {
    let start = PackageTally { files: 0, bytes: 0 };
    assert_eq!(
        tally_package_entry(start, EntryKind::File, 10),
        Ok(PackageTally { files: 1, bytes: 10 })
    );
    assert_eq!(tally_package_entry(start, EntryKind::Directory, 4096), Ok(start));
    assert_eq!(
        tally_package_entry(start, EntryKind::Symlink, 0),
        invalid("plugin packages cannot contain symlinks")
    );
    assert_eq!(
        tally_package_entry(start, EntryKind::Special, 0),
        invalid("plugin package contains a special file")
    );
    assert_eq!(
        tally_package_entry(PackageTally { files: 64, bytes: 0 }, EntryKind::File, 1),
        invalid("plugin package exceeds size limits")
    );
    assert_eq!(
        tally_package_entry(start, EntryKind::File, MAX_PACKAGE_BYTES + 1),
        invalid("plugin package exceeds size limits")
    );
    assert_eq!(check_package_depth(8), Ok(()));
    assert_eq!(check_package_depth(9), invalid("plugin package is too deeply nested"));
}

#[test]
fn manifests_and_components_are_regular_files() {
    assert_eq!(check_regular_file(EntryKind::File, 100, MAX_MANIFEST_BYTES, "manifest"), Ok(()));
    assert_eq!(
        check_regular_file(EntryKind::Symlink, 100, MAX_MANIFEST_BYTES, "manifest"),
        invalid("plugin manifest is invalid")
    );
    assert_eq!(
        check_regular_file(EntryKind::File, MAX_MANIFEST_BYTES + 1, MAX_MANIFEST_BYTES, "component"),
        invalid("plugin component is invalid")
    );
}

#[test]
fn discovered_ids_are_distinct() {
    use_distinct_ids();
}

fn use_distinct_ids() {
    let check = workspace_control::plugins::package::ensure_distinct_ids;
    assert_eq!(check(&vec!["a".to_owned(), "b".to_owned()]), Ok(()));
    assert_eq!(
        check(&vec!["a".to_owned(), "b".to_owned(), "a".to_owned()]),
        invalid("duplicate plugin id")
    );
}
