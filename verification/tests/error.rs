use minecraft_k8s::error::AppError;

#[test]
fn config_error_display() {
    let err = AppError::Config("missing field".into());
    assert_eq!(err.to_string(), "configuration error: missing field");
}

#[test]
fn invalid_mod_error_display() {
    let err = AppError::InvalidMod {
        path: "bad.txt".into(),
        reason: "not a jar".into(),
    };
    assert!(err.to_string().contains("bad.txt"));
    assert!(err.to_string().contains("not a jar"));
}

#[test]
fn manifest_error_display() {
    let err = AppError::Manifest("bad yaml".into());
    assert_eq!(err.to_string(), "manifest error: bad yaml");
}

#[test]
fn io_error_display() {
    let err = AppError::Io {
        path: "/tmp/x".into(),
        message: "denied".into(),
    };
    assert!(err.to_string().contains("/tmp/x"));
    assert!(err.to_string().contains("denied"));
}

#[test]
fn eula_error_display() {
    let err = AppError::EulaNotAccepted;
    assert_eq!(err.to_string(), "eula must be accepted (set eula=true)");
}

#[test]
fn probe_failed_error_display() {
    let err = AppError::ProbeFailed(1);
    assert_eq!(err.to_string(), "probe failed with exit code 1");
}

#[test]
fn error_messages_exact() {
    let err = AppError::InvalidMod {
        path: "bad.txt".into(),
        reason: "not a jar".into(),
    };
    assert_eq!(err.to_string(), "invalid mod file: bad.txt: not a jar");
    let err = AppError::Io {
        path: "/tmp/x".into(),
        message: "denied".into(),
    };
    assert_eq!(err.to_string(), "io error at /tmp/x: denied");
    assert_eq!(AppError::ProbeFailed(-12).to_string(), "probe failed with exit code -12");
    assert_eq!(AppError::ProbeFailed(i32::MIN).to_string(), "probe failed with exit code -2147483648");
    assert_eq!(AppError::Rcon("x".into()).to_string(), "rcon error: x");
    assert_eq!(AppError::Dashboard("y".into()).to_string(), "dashboard error: y");
}
