//! The three filesystem models and the filesystem scaffold.

use terra_os_kernel::basic_fs::TestFileSystem;
use terra_os_kernel::fs::{FileSystem as FsTrait, MemoryBlockDevice, SimpleFileSystem};
use terra_os_kernel::simple_fs::SimpleFS;
use terra_os_kernel::tree_fs::{format_size, FileSystem};

// --- the scaffold over the in-memory block device ---

#[test]
fn scaffold_answers_with_sample_data() {
    let device = MemoryBlockDevice::new();
    let mut fs = SimpleFileSystem::new(device);
    fs.init();

    let entries = fs.list_directory(0).unwrap();
    assert_eq!(entries.len(), 3);
    assert_eq!(entries[0], (".".to_string(), 0, true, 0));
    assert_eq!(entries[1], ("..".to_string(), 1, true, 0));
    assert_eq!(entries[2], ("example.txt".to_string(), 2, false, 1024));

    assert_eq!(fs.create_directory("d", 0), Ok(100));
    assert_eq!(fs.write("f", 0, &[1, 2, 3]), Ok(3));
    assert_eq!(fs.read("f", 0, 10), Ok(Vec::new()));
    assert_eq!(fs.create("f"), Ok(()));
    assert_eq!(fs.delete("f"), Ok(()));
    assert_eq!(fs.copy_item("a", "b", false), Ok(()));
    assert_eq!(fs.delete_item("a", false), Ok(()));
    assert_eq!(fs.move_item("a", "b"), Ok(()));
}

// --- the flat model ---

#[test]
fn flat_model_lists_creates_copies_moves_and_deletes() {
    let mut fs = SimpleFS::new();
    assert_eq!(fs.list_dir(), vec![".", "..", "README.txt"]);

    assert_eq!(fs.create_dir("documents"), Ok(()));
    assert_eq!(fs.create_dir("projects"), Ok(()));
    assert_eq!(fs.list_dir(), vec![".", "..", "README.txt", "documents", "projects"]);

    assert_eq!(fs.copy_item("README.txt", "README_backup.txt"), Ok(()));
    assert_eq!(fs.move_item("README_backup.txt", "README_old.txt"), Ok(()));
    assert_eq!(
        fs.list_dir(),
        vec![".", "..", "README.txt", "documents", "projects", "README_old.txt"]
    );

    assert_eq!(fs.delete_item("README_old.txt"), Ok(()));
    assert_eq!(fs.list_dir(), vec![".", "..", "README.txt", "documents", "projects"]);
}

#[test]
fn flat_model_reports_every_error() {
    let mut fs = SimpleFS::new();
    assert_eq!(fs.create_dir(""), Err("Empty name"));
    assert_eq!(fs.create_dir("README.txt"), Err("Already exists"));
    assert_eq!(fs.delete_item("."), Err("Cannot delete . or .."));
    assert_eq!(fs.delete_item(".."), Err("Cannot delete . or .."));
    assert_eq!(fs.delete_item("nonexistent"), Err("Not found"));
    assert_eq!(fs.move_item("nonexistent", "x"), Err("Source not found"));
    assert_eq!(fs.copy_item("nonexistent", "x"), Err("Source not found"));
}

// --- the flat registry ---

#[test]
fn registry_tracks_directories() {
    let mut fs = TestFileSystem::new();
    assert_eq!(fs.create_directory("test_dir"), Ok(()));
    assert_eq!(fs.list_directories(), vec!["test_dir"]);
    assert_eq!(fs.create_directory("test_dir"), Err("Directory already exists"));
    assert_eq!(fs.create_directory(""), Err("Directory name cannot be empty"));
    assert_eq!(fs.create_directory("another_dir"), Ok(()));
    assert_eq!(fs.list_directories(), vec!["test_dir", "another_dir"]);
    assert_eq!(fs.remove_directory("test_dir"), Ok(()));
    assert_eq!(fs.list_directories(), vec!["another_dir"]);
    assert_eq!(fs.remove_directory("test_dir"), Err("Directory not found"));
}

// --- the hierarchical model ---

#[test]
fn tree_model_walks_a_full_session() {
    let mut fs = FileSystem::new();

    let entries = fs.list_directory(false, false).unwrap();
    assert_eq!(entries, vec![".", "..", "bin", "etc", "README.txt"]);

    let entries = fs.list_directory(false, true).unwrap();
    assert_eq!(entries[2], "d rwxr-xr-x 1.0K bin");
    assert_eq!(entries[3], "d rwxr-xr-x 2.0K etc");
    assert_eq!(entries[4], "- rwxr-xr-x 512B README.txt");

    assert_eq!(fs.create_directory("test_dir"), Ok(()));
    let entries = fs.list_directory(false, false).unwrap();
    assert!(entries.contains(&"test_dir".to_string()));

    assert_eq!(fs.change_directory("test_dir"), Ok(()));
    assert_eq!(fs.get_current_path(), "/test_dir");

    assert_eq!(fs.change_directory(".."), Ok(()));
    assert_eq!(fs.get_current_path(), "/");

    assert_eq!(fs.copy_item("README.txt", "README_copy.txt", false), Ok(()));
    assert_eq!(fs.move_item("README_copy.txt", "MOVED_README.txt"), Ok(()));
    assert_eq!(fs.delete_item("MOVED_README.txt", false), Ok(()));

    let entries = fs.list_directory(false, false).unwrap();
    assert!(!entries.contains(&"MOVED_README.txt".to_string()));
    assert!(entries.contains(&"README.txt".to_string()));
}

#[test]
fn tree_model_reports_every_error() {
    let mut fs = FileSystem::new();
    assert_eq!(fs.create_directory(""), Err("Directory name cannot be empty"));
    assert_eq!(fs.create_directory("bin"), Err("Directory already exists"));
    assert_eq!(fs.delete_item(".", false), Err("Cannot delete . or .."));
    assert_eq!(fs.delete_item("ghost", false), Err("File or directory not found"));
    assert_eq!(fs.change_directory("README.txt"), Err("Not a directory"));
    assert_eq!(fs.change_directory("ghost"), Err("Directory not found"));
    assert_eq!(fs.move_item("ghost", "x"), Err("Source not found"));
    assert_eq!(fs.copy_item("x", "x", false), Err("Source and destination are the same"));
    assert_eq!(fs.copy_item("ghost", "x", false), Err("Source not found"));
}

#[test]
fn tree_model_navigates_nested_directories() {
    let mut fs = FileSystem::new();
    assert_eq!(fs.change_directory("bin"), Ok(()));
    assert_eq!(fs.get_current_path(), "/bin");
    assert_eq!(fs.create_directory("tools"), Ok(()));
    assert_eq!(fs.change_directory("tools"), Ok(()));
    assert_eq!(fs.get_current_path(), "/bin/tools");
    assert_eq!(fs.change_directory("/"), Ok(()));
    assert_eq!(fs.get_current_path(), "/");
    // The nested directory is still reachable afterwards.
    assert_eq!(fs.change_directory("bin"), Ok(()));
    let entries = fs.list_directory(false, false).unwrap();
    assert_eq!(entries, vec![".", "..", "tools"]);
}

#[test]
fn tree_model_hands_out_the_current_directory_for_mutation() {
    let mut fs = FileSystem::new();
    assert_eq!(fs.change_directory("etc"), Ok(()));
    let dir = fs.get_current_dir_mut();
    assert!(dir.is_directory);
    dir.size = 9999;
    assert_eq!(fs.get_current_dir().size, 9999);
    // The path into the rewritten directory still works.
    assert_eq!(fs.get_current_path(), "/etc");
    assert_eq!(fs.change_directory(".."), Ok(()));
}

#[test]
fn tree_model_hides_dot_entries_unless_asked() {
    let mut fs = FileSystem::new();
    assert_eq!(fs.create_directory(".hidden"), Ok(()));
    let plain = fs.list_directory(false, false).unwrap();
    assert!(!plain.contains(&".hidden".to_string()));
    let all = fs.list_directory(true, false).unwrap();
    assert!(all.contains(&".hidden".to_string()));
}

#[test]
fn size_formatting_matches_the_listing() {
    assert_eq!(format_size(512), "512B");
    assert_eq!(format_size(1024), "1.0K");
    assert_eq!(format_size(1536), "1.5K");
    assert_eq!(format_size(2048), "2.0K");
    assert_eq!(format_size(1572864), "1.5M");
}
