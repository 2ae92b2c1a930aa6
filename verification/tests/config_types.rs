use backup_directories::config::Config;
use backup_directories::platform::Platform;

fn config_base(destino_final: &str) -> Config {
    Config {
        rutas_origen_destino: vec![],
        destino_final: destino_final.to_string(),
        name_disk: "BACKUP".to_string(),
    }
}

#[test]
fn test_ruta_destino_linux_basica() {
    let config = config_base("/mnt/g");
    let result = config.build_destination_path("wsl/rust_projects", &Platform::Linux);
    assert_eq!(result, "/mnt/g/wsl/rust_projects");
}

#[test]
fn test_ruta_destino_con_barra_final_no_duplica_separador() {
    let config = config_base("/mnt/g/");
    let result = config.build_destination_path("wsl/docs", &Platform::Linux);
    assert!(!result.contains("//"), "No debe haber doble barra");
    assert_eq!(result, "/mnt/g/wsl/docs");
}

#[test]
fn test_ruta_destino_con_doble_barra_final_se_normaliza() {
    let config = config_base("/mnt/g//");
    let result = config.build_destination_path("wsl/docs", &Platform::Linux);
    assert!(!result.contains("//"));
}

#[test]
fn test_ruta_destino_elimina_dos_puntos() {
    let config = config_base("/mnt/g");
    let result = config.build_destination_path("C:\\Users\\test", &Platform::Linux);
    assert!(!result.contains(':'), "El resultado no debe contener ':'");
}

#[test]
fn test_ruta_destino_windows_usa_backslash() {
    let config = config_base("G:\\backup");
    let result = config.build_destination_path("Users\\test", &Platform::Windows);
    assert!(result.contains('\\'));
    assert_eq!(result, "G:\\backup\\Users\\test");
}

#[test]
fn test_ruta_destino_windows_con_barra_final_no_duplica() {
    let config = config_base("G:\\backup\\");
    let result = config.build_destination_path("Users\\docs", &Platform::Windows);
    assert!(!result.contains("\\\\"), "No debe haber doble backslash de separador");
}

#[test]
fn test_normalize_linux_convierte_backslashes_en_rutas() {
    let mut config = Config {
        rutas_origen_destino: vec![("C:\\Users\\test".to_string(), "wsl\\test".to_string())],
        destino_final: "\\mnt\\g".to_string(),
        name_disk: "BACKUP".to_string(),
    };
    config.normalize_paths(&Platform::Linux);
    assert_eq!(config.rutas_origen_destino[0].0, "C:/Users/test");
    assert_eq!(config.rutas_origen_destino[0].1, "wsl/test");
    assert_eq!(config.destino_final, "/mnt/g");
}

#[test]
fn test_normalize_windows_convierte_forward_slashes_en_rutas() {
    let mut config = Config {
        rutas_origen_destino: vec![("/home/user/docs".to_string(), "home/user/docs".to_string())],
        destino_final: "/mnt/backup".to_string(),
        name_disk: "BACKUP".to_string(),
    };
    config.normalize_paths(&Platform::Windows);
    assert_eq!(config.rutas_origen_destino[0].0, "\\home\\user\\docs");
    assert_eq!(config.rutas_origen_destino[0].1, "home\\user\\docs");
    assert_eq!(config.destino_final, "\\mnt\\backup");
}

#[test]
fn test_normalize_multiples_rutas() {
    let mut config = Config {
        rutas_origen_destino: vec![
            ("/home/user/a".to_string(), "wsl/a".to_string()),
            ("/home/user/b".to_string(), "wsl/b".to_string()),
            ("/home/user/c".to_string(), "wsl/c".to_string()),
        ],
        destino_final: "/mnt/g".to_string(),
        name_disk: "BACKUP".to_string(),
    };
    config.normalize_paths(&Platform::Linux);
    assert_eq!(config.rutas_origen_destino[0].0, "/home/user/a");
    assert_eq!(config.rutas_origen_destino[2].1, "wsl/c");
}

#[test]
fn normalize_paths_keeps_disk_name_and_route_count() {
    let mut config = Config {
        rutas_origen_destino: vec![
            ("C:\\a".to_string(), "x\\y".to_string()),
            ("/b".to_string(), "z/w".to_string()),
        ],
        destino_final: "G:\\".to_string(),
        name_disk: "BACKUP-LKS".to_string(),
    };
    config.normalize_paths(&Platform::Windows);
    assert_eq!(config.rutas_origen_destino.len(), 2);
    assert_eq!(config.rutas_origen_destino[1].0, "\\b");
    assert_eq!(config.rutas_origen_destino[1].1, "z\\w");
    assert_eq!(config.destino_final, "G:\\");
    assert_eq!(config.name_disk, "BACKUP-LKS");
}

#[test]
fn destination_path_exact_values() {
    let config = config_base("G:\\");
    assert_eq!(
        config.build_destination_path("C\\Users\\lucas\\projects", &Platform::Windows),
        "G:\\C\\Users\\lucas\\projects"
    );
    let config = config_base("/mnt/e/");
    assert_eq!(
        config.build_destination_path("f2025/home/lukasar/Downloads", &Platform::Linux),
        "/mnt/e/f2025/home/lukasar/Downloads"
    );
    let config = config_base("/mnt/g");
    assert_eq!(
        config.build_destination_path("C:\\Users\\test", &Platform::Linux),
        "/mnt/g/C/Users/test"
    );
    let config = config_base("/mnt/g/\\/");
    assert_eq!(config.build_destination_path("d", &Platform::MacOS), "/mnt/g/d");
}

#[test]
fn destination_path_of_separator_only_base_and_empty_route() {
    let config = config_base("///");
    assert_eq!(config.build_destination_path("x", &Platform::Linux), "/x");
    let config = config_base("/mnt/g");
    assert_eq!(config.build_destination_path("", &Platform::Linux), "/mnt/g/");
    assert_eq!(config.build_destination_path(":::", &Platform::Windows), "/mnt/g\\");
}
