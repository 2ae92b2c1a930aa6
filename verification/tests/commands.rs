use backup_directories::commands::{copied_files_report, copy_command, is_success_code};
use backup_directories::platform::Platform;

fn excl(items: &[&str]) -> Vec<String> {
    items.iter().map(|s| s.to_string()).collect()
}

#[test]
fn rsync_copies_the_contents_of_the_source() {
    let c = copy_command(Platform::Linux, "/home/u/docs/", "/mnt/g/wsl/docs", &excl(&[" node_modules ", "*.log"]));
    assert_eq!(c.program, "rsync");
    assert_eq!(
        c.args,
        vec!["-a", "--itemize-changes", "--exclude=node_modules", "--exclude=*.log", "/home/u/docs/", "/mnt/g/wsl/docs"]
    );
    let c = copy_command(Platform::MacOS, "/a//", "/b", &excl(&[]));
    assert_eq!(c.args, vec!["-a", "--itemize-changes", "/a/", "/b"]);
}

#[test]
fn robocopy_excludes_directories() {
    let c = copy_command(Platform::Windows, "C:\\Users\\u", "G:\\C\\Users\\u", &excl(&["target", " .git\r"]));
    assert_eq!(c.program, "robocopy");
    assert_eq!(c.args, vec!["C:\\Users\\u", "G:\\C\\Users\\u", "/E", "/XD", "target", ".git"]);
    let c = copy_command(Platform::Windows, "D:\\", "G:\\D", &excl(&[]));
    assert_eq!(c.args, vec!["D:\\", "G:\\D", "/E"]);
}

#[test]
fn success_codes_per_tool() {
    assert!(is_success_code(Platform::Windows, Some(0)));
    assert!(is_success_code(Platform::Windows, Some(7)));
    assert!(!is_success_code(Platform::Windows, Some(8)));
    assert!(is_success_code(Platform::Linux, Some(0)));
    assert!(!is_success_code(Platform::Linux, Some(1)));
    assert!(!is_success_code(Platform::Linux, Some(23)));
    assert!(!is_success_code(Platform::MacOS, None));
    assert!(!is_success_code(Platform::Windows, None));
}

#[test]
fn output_keeps_lines_of_copied_files() {
    let rsync = "sending incremental file list\n>f+++++++++ a.txt\ncd+++++++++ dir/\n.d..t...... ./\n\nsent 1 bytes";
    assert_eq!(copied_files_report(Platform::Linux, rsync), vec![">f+++++++++ a.txt", "cd+++++++++ dir/"]);
    let robocopy = "  New Dir 2 C:\\x\\\r\n\t  New File  10 a.txt\r\n\t  Newer  20 b.txt\r\n  Same  c.txt\r\n";
    assert_eq!(
        copied_files_report(Platform::Windows, robocopy),
        vec!["\t  New File  10 a.txt", "\t  Newer  20 b.txt"]
    );
    assert!(copied_files_report(Platform::Linux, "").is_empty());
}
