use backup_directories::platform::Platform;
use backup_directories::tools::config_loader::{split_program_name, start_file_path};
use backup_directories::tools::structs::{fecha, hora_actual, Fecha};

#[test]
fn date_stamp_is_spelled_in_spanish() {
    let f = Fecha::from_parts(3, 5, 9, 2024, 14, 3, 9);
    assert_eq!(f.get_fecha_formateada(), "Miércoles, 5 de Septiembre de 2024 14:03:09");
    assert_eq!(f._get_dia_nombre(), "Miércoles");
    assert_eq!(f._get_mes_nombre(), "Septiembre");
    assert_eq!(f._get_hora_min_seg(), "14:03:09");
    assert_eq!(*f.get_dia_numero(), 5);
    assert_eq!(*f.get_mes_numero(), 9);
    assert_eq!(*f.get_anio(), 2024);
    assert_eq!(*f._get_hora12(), 14);
    assert_eq!(*f._get_minutos(), 3);
    assert_eq!(*f._get_segundos(), 9);
    assert_eq!(f._get_mes_nombre_corto(), "sep");
    assert_eq!(f.get_mes_nombre3letras(), "SEP");
}

#[test]
fn every_month_has_its_abbreviation() {
    let expected = ["ENE", "FEB", "MAR", "ABR", "MAY", "JUN", "JUL", "AGO", "SEP", "OCT", "NOV", "DIC"];
    for (i, abbr) in expected.iter().enumerate() {
        let f = Fecha::from_parts(0, 1, (i + 1) as u32, 2000, 0, 0, 0);
        assert_eq!(f.get_mes_nombre3letras(), *abbr);
    }
    let days = ["Domingo", "Lunes", "Martes", "Miércoles", "Jueves", "Viernes", "Sábado"];
    for (w, name) in days.iter().enumerate() {
        let f = Fecha::from_parts(w as u32, 1, 1, 2000, 0, 0, 0);
        assert_eq!(f._get_dia_nombre(), *name);
    }
}

#[test]
fn negative_years_carry_a_sign() {
    let f = Fecha::from_parts(6, 10, 1, -44, 0, 0, 0);
    assert_eq!(f.get_fecha_formateada(), "Sábado, 10 de Enero de -44 00:00:00");
}

#[test]
fn present_date_is_consistent() {
    let f = fecha();
    assert!((1..=12).contains(f.get_mes_numero()));
    assert!((1..=31).contains(f.get_dia_numero()));
    assert_eq!(f._get_hora_min_seg().len(), 8);
    let h = hora_actual();
    assert_eq!(h.len(), 10);
    assert_eq!(&h[2..5], "hor");
    assert!(h.ends_with("min"));
}

#[test]
fn program_name_is_split_at_stars_and_underscores() {
    assert_eq!(split_program_name("backup_directories_lukas"), vec!["backup", "directories", "lukas"]);
    assert_eq!(split_program_name("copy*dirs_iniciolukas_x"), vec!["copy", "dirs", "iniciolukas", "x"]);
    assert_eq!(split_program_name(""), vec![""]);
    assert_eq!(split_program_name("a__b_"), vec!["a", "", "b", ""]);
}

#[test]
fn start_file_is_named_by_the_third_part() {
    let parts = split_program_name("copy_directories_iniciolukas");
    assert_eq!(start_file_path(&parts, Platform::Linux), Some("./inputs-backup/iniciolukas.json".to_string()));
    assert_eq!(start_file_path(&parts, Platform::Windows), Some("c:\\xcopy\\tools\\iniciolukas.json".to_string()));
    let short = split_program_name("backup_directories");
    assert_eq!(start_file_path(&short, Platform::Linux), None);
}
