use backup_directories::platform::Platform;
use backup_directories::tools::check_drive_backup::{
    directory_step, disk_verdict, drive_check_for, drive_label, drive_step, extraer_letra_drive,
    mounted_from_devices, problem_message, write_probe_path, DirectoryEvent, DirectoryProblem,
    DirectoryStep, DiskVerdict, DriveCheck, DriveEvent, DriveStep,
};

#[test]
fn test_extrae_letra_g_de_ruta_windows() {
    assert_eq!(extraer_letra_drive("G:\\backup\\datos"), Some("G:\\".to_string()));
}

#[test]
fn test_extrae_letra_c_de_ruta_windows() {
    assert_eq!(extraer_letra_drive("C:\\xcopy\\tools"), Some("C:\\".to_string()));
}

#[test]
fn test_extrae_letra_d_de_ruta_windows() {
    assert_eq!(extraer_letra_drive("D:\\proyectos"), Some("D:\\".to_string()));
}

#[test]
fn test_multiples_letras_de_drive() {
    for (input, expected) in [
        ("G:\\datos", "G:\\"),
        ("D:\\proyectos", "D:\\"),
        ("E:\\backup", "E:\\"),
        ("F:\\musica", "F:\\"),
    ] {
        let result = extraer_letra_drive(input);
        assert_eq!(result, Some(expected.to_string()), "Falló para entrada: {}", input);
    }
}

#[test]
fn test_ruta_linux_sin_dos_puntos_retorna_none() {
    assert!(extraer_letra_drive("/mnt/g/backup").is_none(), "Ruta Linux no tiene letra de drive");
}

#[test]
fn test_ruta_linux_con_slash_retorna_none() {
    assert!(extraer_letra_drive("/home/user/docs").is_none());
}

#[test]
fn test_cadena_vacia_retorna_none() {
    assert!(extraer_letra_drive("").is_none());
}

#[test]
fn test_solo_letra_y_dos_puntos_es_valido() {
    assert_eq!(extraer_letra_drive("G:"), Some("G:\\".to_string()));
}

#[test]
fn drive_is_cut_at_the_first_colon() {
    assert_eq!(extraer_letra_drive("AB:c:d"), Some("AB:\\".to_string()));
    assert_eq!(extraer_letra_drive(":x"), Some(":\\".to_string()));
}

#[test]
fn drive_check_depends_on_platform() {
    assert_eq!(drive_check_for(Platform::Windows), DriveCheck::DriveLetter);
    assert_eq!(drive_check_for(Platform::Linux), DriveCheck::MountedDirectory);
    assert_eq!(drive_check_for(Platform::MacOS), DriveCheck::MountedDirectory);
    assert_eq!(drive_check_for(Platform::Unknown), DriveCheck::Unsupported);
}

#[test]
fn directory_messages_name_the_path() {
    let ruta = "/ruta/que/no/existe/abc123";
    let msg = problem_message(ruta, &DirectoryProblem::Missing);
    assert_eq!(msg, "El directorio de BACKUP '/ruta/que/no/existe/abc123' no existe");
    assert!(msg.contains("no existe"));
    assert_eq!(
        problem_message("/mnt/g", &DirectoryProblem::NotWritable("Permission denied".to_string())),
        "Sin permisos de escritura en '/mnt/g': Permission denied"
    );
    assert_eq!(
        problem_message("/mnt/g/", &DirectoryProblem::NotMounted),
        "El directorio '/mnt/g/' existe pero no hay ningún disco montado en él"
    );
}

#[test]
fn directory_checks_run_exists_mounted_writable() {
    assert!(matches!(directory_step(DirectoryEvent::Start), DirectoryStep::TestExists));
    assert!(matches!(directory_step(DirectoryEvent::Exists(true)), DirectoryStep::TestMounted));
    assert!(matches!(
        directory_step(DirectoryEvent::Exists(false)),
        DirectoryStep::Fail(DirectoryProblem::Missing)
    ));
    assert!(matches!(directory_step(DirectoryEvent::Mounted(true)), DirectoryStep::TestWritable));
    assert!(matches!(
        directory_step(DirectoryEvent::Mounted(false)),
        DirectoryStep::Fail(DirectoryProblem::NotMounted)
    ));
    assert!(matches!(directory_step(DirectoryEvent::Written(None)), DirectoryStep::Ready));
    match directory_step(DirectoryEvent::Written(Some("denied".to_string()))) {
        DirectoryStep::Fail(DirectoryProblem::NotWritable(e)) => assert_eq!(e, "denied"),
        _ => panic!("expected a write failure"),
    }
}

#[test]
fn windows_drive_check_steps() {
    match drive_step("G:\\backup", "BACKUP-LKS", DriveEvent::Start) {
        DriveStep::ProbeDrive(d) => assert_eq!(d, "G:\\"),
        _ => panic!("expected a drive probe"),
    }
    assert!(matches!(drive_step("/mnt/g", "BACKUP-LKS", DriveEvent::Start), DriveStep::NoDriveLetter));
    let unavailable = drive_step("G:\\backup", "BACKUP-LKS", DriveEvent::DriveProbed(false));
    assert!(unavailable.lists_drives());
    match unavailable {
        DriveStep::DriveUnavailable(d) => assert_eq!(d, "G:\\"),
        _ => panic!("expected an unavailable drive"),
    }
    match drive_step("G:\\backup", "BACKUP-LKS", DriveEvent::DriveProbed(true)) {
        DriveStep::ListDisks(d) => assert_eq!(d, "G:\\"),
        _ => panic!("expected a disk listing"),
    }
    let wrong = vec![("OTHER".to_string(), "G:\\".to_string())];
    let step = drive_step("G:\\backup", "BACKUP-LKS", DriveEvent::DisksListed(wrong));
    assert!(step.lists_drives());
    match step {
        DriveStep::WrongDisk(m) => assert_eq!(m, "G:\\"),
        _ => panic!("expected the wrong disk"),
    }
    let right = vec![("BACKUP-LKS".to_string(), "G:\\".to_string())];
    let ready = drive_step("G:\\backup", "BACKUP-LKS", DriveEvent::DisksListed(right));
    assert!(!ready.lists_drives());
    assert!(matches!(ready, DriveStep::Ready));
}

#[test]
fn write_probe_path_drops_trailing_slashes() {
    assert_eq!(write_probe_path("/mnt/g/"), "/mnt/g/test_write_permission");
    assert_eq!(write_probe_path("/mnt/g//"), "/mnt/g/test_write_permission");
    assert_eq!(write_probe_path("/tmp"), "/tmp/test_write_permission");
    assert_eq!(write_probe_path("/"), "/test_write_permission");
}

#[test]
fn mount_point_needs_two_known_different_devices() {
    assert!(mounted_from_devices(Some(5), Some(7)));
    assert!(!mounted_from_devices(Some(5), Some(5)));
    assert!(!mounted_from_devices(None, Some(5)));
    assert!(!mounted_from_devices(Some(5), None));
}

#[test]
fn first_disk_on_the_drive_decides() {
    let disks = vec![
        ("SYSTEM".to_string(), "C:\\".to_string()),
        ("OTHER".to_string(), "G:\\".to_string()),
        ("BACKUP-LKS".to_string(), "G:\\".to_string()),
    ];
    assert_eq!(disk_verdict(&disks, "G:\\", "BACKUP-LKS"), DiskVerdict::WrongDisk("G:\\".to_string()));
    assert_eq!(disk_verdict(&disks, "C:\\", "SYSTEM"), DiskVerdict::Matches);
    assert_eq!(disk_verdict(&disks, "E:\\", "BACKUP-LKS"), DiskVerdict::NotListed);
    assert_eq!(disk_verdict(&vec![], "G:\\", "BACKUP-LKS"), DiskVerdict::NotListed);
}

#[test]
fn drive_label_is_the_first_two_characters() {
    assert_eq!(drive_label("G:\\"), "G:");
    assert_eq!(drive_label("G"), "G");
    assert_eq!(drive_label(""), "");
}
