use backup_directories::backup::backup_transfers;
use backup_directories::config::Config;
use backup_directories::platform::Platform;
use backup_directories::restore::{restore_confirmed, restore_transfers};

fn sample_config() -> Config {
    Config {
        rutas_origen_destino: vec![
            ("/home/lukasar/rust_projects/".to_string(), "wsl/rust_projects".to_string()),
            ("/home/lukasar/dioxus-spa/".to_string(), "wsl/dioxus-spa".to_string()),
        ],
        destino_final: "/mnt/g".to_string(),
        name_disk: "BACKUP-LKS".to_string(),
    }
}

#[test]
fn restore_reverses_every_backup_copy() {
    let config = sample_config();
    let backup = backup_transfers(&config, &Platform::Linux);
    let restore = restore_transfers(&config, &Platform::Linux, None);
    assert_eq!(backup.len(), restore.len());
    for (b, r) in backup.iter().zip(restore.iter()) {
        assert_eq!(b.origen, r.destino);
        assert_eq!(b.destino, r.origen);
    }
    assert_eq!(restore[0].origen, "/mnt/g/wsl/rust_projects");
    assert_eq!(restore[0].destino, "/home/lukasar/rust_projects/");
}

#[test]
fn restore_filter_selects_by_destination() {
    let config = sample_config();
    let only = restore_transfers(&config, &Platform::Linux, Some("rust_projects"));
    assert_eq!(only.len(), 1);
    assert_eq!(only[0].origen, "/mnt/g/wsl/rust_projects");
    let dioxus = restore_transfers(&config, &Platform::Linux, Some("dioxus"));
    assert_eq!(dioxus.len(), 1);
    assert_eq!(dioxus[0].destino, "/home/lukasar/dioxus-spa/");
    assert_eq!(restore_transfers(&config, &Platform::Linux, Some("wsl")).len(), 2);
    assert_eq!(restore_transfers(&config, &Platform::Linux, Some("")).len(), 2);
    assert!(restore_transfers(&config, &Platform::Linux, Some("Documents")).is_empty());
    assert!(restore_transfers(&config, &Platform::Linux, Some("lukasar")).is_empty());
}

#[test]
fn restore_needs_an_affirmative_answer() {
    for yes in ["s", "si", "y", "yes", "S", "SI", " Yes \n", "YES\r\n", "sI"] {
        assert!(restore_confirmed(yes), "{:?}", yes);
    }
    for no in ["", "n", "no", "sí", "ye", "yess", "s i", "\n"] {
        assert!(!restore_confirmed(no), "{:?}", no);
    }
}
