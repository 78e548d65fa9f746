use minecraft_k8s::error::AppError;
use minecraft_k8s::mods::{check_mod_file, handle_dir_entry, mods_mount_path, validate_mod_jar};
use minecraft_k8s::order::{bytes_le_exec, sorted_order};

#[test]
fn accepts_valid_jar() {
    validate_mod_jar("jei-1.20.1.jar").unwrap();
}

#[test]
fn rejects_non_jar() {
    let err = validate_mod_jar("readme.txt").unwrap_err();
    assert!(matches!(err, AppError::InvalidMod { .. }));
}

#[test]
fn rejects_sources_jar() {
    let err = validate_mod_jar("mod-1.0-sources.jar").unwrap_err();
    assert!(err.to_string().contains("source/dev"));
}

#[test]
fn rejects_hidden_file() {
    let err = validate_mod_jar(".secret.jar").unwrap_err();
    assert!(err.to_string().contains("hidden"));
}

#[test]
fn mods_mount_path_constant() {
    assert_eq!(mods_mount_path(), "/data/mods");
}

#[test]
fn rejects_path_without_file_name() {
    let err = validate_mod_jar("").unwrap_err();
    assert!(err.to_string().contains("missing file name"));
}

#[test]
fn validate_mod_jar_reads_final_component() {
    validate_mod_jar("mods/jei-1.20.1.jar").unwrap();
    assert!(validate_mod_jar("mods/.hidden/x.txt").is_err());
    let err = validate_mod_jar("mods/..").unwrap_err();
    assert!(err.to_string().contains("missing file name"));
    let err = validate_mod_jar("mods/Mod-DEV.JAR").unwrap_err();
    assert_eq!(
        err,
        AppError::InvalidMod {
            path: "mods/Mod-DEV.JAR".into(),
            reason: "source/dev jars are not runtime mods".into(),
        }
    );
    validate_mod_jar("mods/Upper.JAR").unwrap();
}

#[test]
fn check_mod_file_by_name() {
    assert!(check_mod_file("p", Some("a.jar")).is_ok());
    assert_eq!(
        check_mod_file("p", None).unwrap_err(),
        AppError::InvalidMod { path: "p".into(), reason: "missing file name".into() }
    );
    assert_eq!(
        check_mod_file("p", Some("a.zip")).unwrap_err(),
        AppError::InvalidMod { path: "p".into(), reason: "mods must be .jar files".into() }
    );
    assert_eq!(
        check_mod_file("p", Some(".a.zip")).unwrap_err(),
        AppError::InvalidMod { path: "p".into(), reason: "hidden files are not allowed".into() }
    );
}

#[test]
fn handle_dir_entry_skips_non_files() {
    assert_eq!(handle_dir_entry("mods/nested", false).unwrap(), None);
    assert_eq!(handle_dir_entry("mods/a.jar", true).unwrap(), Some("mods/a.jar".to_string()));
    assert!(handle_dir_entry("mods/notes.txt", true).is_err());
}

#[test]
fn sorted_order_is_a_stable_byte_sort() {
    let keys: Vec<Vec<u8>> =
        vec![b"mods/b.jar".to_vec(), b"mods/a.jar".to_vec(), b"mods/a.jar.x".to_vec(), b"mods/B.jar".to_vec(), b"mods/a.jar".to_vec()];
    assert_eq!(sorted_order(&keys), vec![3, 1, 4, 2, 0]);
    assert_eq!(sorted_order(&Vec::new()), Vec::<usize>::new());
    assert!(bytes_le_exec(&b"ab".to_vec(), &b"abc".to_vec()));
    assert!(!bytes_le_exec(&b"b".to_vec(), &b"abc".to_vec()));
    assert!(bytes_le_exec(&Vec::new(), &Vec::new()));
}

#[test]
fn validate_mod_jar_judges_last_component_after_slashes() {
    let err = validate_mod_jar("mods/.hidden.jar").unwrap_err();
    assert_eq!(
        err,
        AppError::InvalidMod { path: "mods/.hidden.jar".into(), reason: "hidden files are not allowed".into() }
    );
    let err = validate_mod_jar("x.jar/readme.txt").unwrap_err();
    assert_eq!(
        err,
        AppError::InvalidMod { path: "x.jar/readme.txt".into(), reason: "mods must be .jar files".into() }
    );
    validate_mod_jar("a/./b.jar/.").unwrap();
    validate_mod_jar("/srv/mods//c.jar/").unwrap();
    for p in ["/", "mods/sub/..", ".", ".."] {
        assert_eq!(
            validate_mod_jar(p).unwrap_err(),
            AppError::InvalidMod { path: p.into(), reason: "missing file name".into() }
        );
    }
    assert!(handle_dir_entry("mods/.hidden.jar", true).is_err());
    assert_eq!(handle_dir_entry("mods/sub/a.jar", true).unwrap(), Some("mods/sub/a.jar".to_string()));
}
