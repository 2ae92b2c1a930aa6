use backup_directories::backup::{
    backup_transfers, log_file_path, logs_dir, parse_exclusions, power_action, LogKind,
    Operation, PowerAction,
};
use backup_directories::config::Config;
use backup_directories::platform::Platform;
use backup_directories::tools::structs::Fecha;

fn sample_config() -> Config {
    Config {
        rutas_origen_destino: vec![
            ("/home/lukasar/rust_projects/".to_string(), "wsl/rust_projects".to_string()),
            ("/home/lukasar/dioxus-spa/".to_string(), "wsl/dioxus-spa".to_string()),
        ],
        destino_final: "/mnt/g/".to_string(),
        name_disk: "BACKUP-LKS".to_string(),
    }
}

#[test]
fn exclusions_skip_blank_lines_and_comments() {
    let text = "node_modules\n\n# comentario\n  .git  \r\n\t\ntarget\n   # indentado\n*.log";
    let entries = parse_exclusions(text);
    assert_eq!(entries, vec!["node_modules", "  .git  ", "target", "*.log"]);
}

#[test]
fn exclusions_of_empty_and_trailing_newline_text() {
    assert!(parse_exclusions("").is_empty());
    assert!(parse_exclusions("\n\n\r\n").is_empty());
    assert_eq!(parse_exclusions("dist\n"), vec!["dist"]);
    assert_eq!(parse_exclusions("a\rb\n"), vec!["a\rb"]);
    assert_eq!(parse_exclusions("build\r"), vec!["build\r"]);
    assert_eq!(parse_exclusions("x#y\n#z"), vec!["x#y"]);
}

#[test]
fn exclusions_treat_unicode_spaces_as_blank() {
    assert!(parse_exclusions("\u{a0}\u{3000}\n\u{2003}#x").is_empty());
    assert_eq!(parse_exclusions("\u{a0}cache/"), vec!["\u{a0}cache/"]);
}

#[test]
fn backup_copies_each_route_to_its_destination() {
    let transfers = backup_transfers(&sample_config(), &Platform::Linux);
    assert_eq!(transfers.len(), 2);
    assert_eq!(transfers[0].origen, "/home/lukasar/rust_projects/");
    assert_eq!(transfers[0].destino, "/mnt/g/wsl/rust_projects");
    assert_eq!(transfers[1].origen, "/home/lukasar/dioxus-spa/");
    assert_eq!(transfers[1].destino, "/mnt/g/wsl/dioxus-spa");
}

#[test]
fn backup_of_no_routes_copies_nothing() {
    let config = Config {
        rutas_origen_destino: vec![],
        destino_final: "/mnt/g".to_string(),
        name_disk: "X".to_string(),
    };
    assert!(backup_transfers(&config, &Platform::Linux).is_empty());
}

#[test]
fn power_action_follows_the_setting_on_windows_only() {
    assert_eq!(power_action(Platform::Windows, "y"), PowerAction::Hibernate);
    assert_eq!(power_action(Platform::Windows, "S"), PowerAction::Hibernate);
    assert_eq!(power_action(Platform::Windows, "OFF"), PowerAction::ShutDown);
    assert_eq!(power_action(Platform::Windows, "Off"), PowerAction::ShutDown);
    assert_eq!(power_action(Platform::Windows, "n"), PowerAction::WaitForUser);
    assert_eq!(power_action(Platform::Windows, " y"), PowerAction::WaitForUser);
    assert_eq!(power_action(Platform::Windows, "yes"), PowerAction::WaitForUser);
    assert_eq!(power_action(Platform::Linux, "y"), PowerAction::WaitForUser);
    assert_eq!(power_action(Platform::MacOS, "off"), PowerAction::WaitForUser);
}

#[test]
fn log_files_are_named_by_date_and_hour() {
    let fecha = Fecha::from_parts(5, 7, 3, 2025, 9, 5, 7);
    assert_eq!(
        log_file_path(Platform::Linux, Operation::Backup, LogKind::Summary, "/home/u/logs/backup", &fecha, "09hor05min"),
        "/home/u/logs/backup/2025-3MAR-7_09hor05min_resumen_backup.txt"
    );
    assert_eq!(
        log_file_path(Platform::MacOS, Operation::Restore, LogKind::Detail, "/tmp/logs/backup", &fecha, "09hor05min"),
        "/tmp/logs/backup/2025-3MAR-7_09hor05min_log_restore.txt"
    );
    assert_eq!(
        log_file_path(Platform::Windows, Operation::Backup, LogKind::Summary, "", &fecha, "23hor59min"),
        "C:/xcopy/2025-3MAR-7_23hor59min_resumen_backup.txt"
    );
    assert_eq!(
        log_file_path(Platform::Windows, Operation::Restore, LogKind::Detail, "", &fecha, "23hor59min"),
        "C:/xcopy/logs/2025-3MAR-7_23hor59min_log_restore.txt"
    );
    let december = Fecha::from_parts(0, 31, 12, 1999, 0, 0, 0);
    assert_eq!(
        log_file_path(Platform::Linux, Operation::Backup, LogKind::Detail, "/d", &december, "00hor00min"),
        "/d/1999-12DIC-31_00hor00min_log_backup.txt"
    );
}

#[test]
fn logs_directory_falls_back_to_tmp() {
    assert_eq!(logs_dir(Some("/home/lukasar".to_string())), "/home/lukasar/logs/backup");
    assert_eq!(logs_dir(None), "/tmp/logs/backup");
}
