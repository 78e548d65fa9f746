use minecraft_k8s::cli::{cmd_probe, exit_code};
use minecraft_k8s::error::AppError;

#[test]
fn exit_code_mapping() {
    assert_eq!(exit_code(&AppError::EulaNotAccepted), 3);
    assert_eq!(exit_code(&AppError::Config("x".into())), 4);
    assert_eq!(
        exit_code(&AppError::InvalidMod {
            path: "a".into(),
            reason: "b".into(),
        }),
        5
    );
    assert_eq!(exit_code(&AppError::Manifest("x".into())), 6);
    assert_eq!(
        exit_code(&AppError::Io {
            path: "a".into(),
            message: "b".into(),
        }),
        7
    );
    assert_eq!(exit_code(&AppError::ProbeFailed(1)), 1);
}

#[test]
fn exit_code_of_service_errors() {
    assert_eq!(exit_code(&AppError::Rcon("x".into())), 1);
    assert_eq!(exit_code(&AppError::Dashboard("x".into())), 1);
    assert_eq!(exit_code(&AppError::ProbeFailed(2)), 2);
}

#[test]
fn cmd_probe_passes_only_code_zero() {
    assert!(cmd_probe(0).is_ok());
    assert_eq!(cmd_probe(1).unwrap_err(), AppError::ProbeFailed(1));
    assert_eq!(cmd_probe(2).unwrap_err(), AppError::ProbeFailed(2));
}
