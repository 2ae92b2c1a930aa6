use backup_directories::platform::{detect_platform, Platform};

#[test]
fn test_separador_windows() {
    assert_eq!(Platform::Windows.path_separator(), "\\");
}

#[test]
fn test_separador_linux() {
    assert_eq!(Platform::Linux.path_separator(), "/");
}

#[test]
fn test_separador_macos() {
    assert_eq!(Platform::MacOS.path_separator(), "/");
}

#[test]
fn test_separador_unknown_usa_slash() {
    assert_eq!(Platform::Unknown.path_separator(), "/");
}

#[test]
fn test_normalize_linux_convierte_backslashes() {
    let result = Platform::Linux.normalize_path("C:\\Users\\test\\archivo.txt");
    assert_eq!(result, "C:/Users/test/archivo.txt");
}

#[test]
fn test_normalize_linux_no_altera_ruta_correcta() {
    let result = Platform::Linux.normalize_path("/home/user/docs");
    assert_eq!(result, "/home/user/docs");
}

#[test]
fn test_normalize_windows_convierte_forward_slashes() {
    let result = Platform::Windows.normalize_path("/home/user/docs");
    assert_eq!(result, "\\home\\user\\docs");
}

#[test]
fn test_normalize_windows_no_altera_ruta_correcta() {
    let result = Platform::Windows.normalize_path("C:\\Users\\test");
    assert_eq!(result, "C:\\Users\\test");
}

#[test]
fn test_normalize_unknown_se_comporta_como_linux() {
    let result = Platform::Unknown.normalize_path("C:\\folder\\file");
    assert_eq!(result, "C:/folder/file");
}

#[test]
fn test_is_windows_solo_verdadero_en_windows() {
    assert!(Platform::Windows.is_windows());
    assert!(!Platform::Linux.is_windows());
    assert!(!Platform::MacOS.is_windows());
    assert!(!Platform::Unknown.is_windows());
}

#[test]
fn test_detect_platform_en_windows() {
    assert_eq!(detect_platform("windows"), Platform::Windows);
}

#[test]
fn test_detect_platform_en_linux() {
    assert_eq!(detect_platform("linux"), Platform::Linux);
}

#[test]
fn test_detect_platform_en_macos() {
    assert_eq!(detect_platform("macos"), Platform::MacOS);
}

#[test]
fn detect_platform_of_other_systems_is_unknown() {
    assert_eq!(detect_platform("freebsd"), Platform::Unknown);
    assert_eq!(detect_platform(""), Platform::Unknown);
    assert_eq!(detect_platform("Linux"), Platform::Unknown);
    assert_eq!(detect_platform("linuxx"), Platform::Unknown);
}

#[test]
fn normalize_is_idempotent_on_mixed_separators() {
    let mixed = "a\\b/c\\\\d//e";
    for p in [Platform::Windows, Platform::Linux, Platform::MacOS, Platform::Unknown] {
        let once = p.normalize_path(mixed);
        let twice = p.normalize_path(&once);
        assert_eq!(once, twice);
        assert_eq!(once.chars().count(), mixed.chars().count());
    }
    assert_eq!(Platform::Windows.normalize_path(mixed), "a\\b\\c\\\\d\\\\e");
    assert_eq!(Platform::MacOS.normalize_path(mixed), "a/b/c//d//e");
}

#[test]
fn normalize_keeps_non_ascii_and_empty_text() {
    assert_eq!(Platform::Linux.normalize_path(""), "");
    assert_eq!(Platform::Linux.normalize_path("Año\\Canción"), "Año/Canción");
}
