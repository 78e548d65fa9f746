use minecraft_k8s::error::AppError;
use minecraft_k8s::eula::render_eula;
use minecraft_k8s::health::{check_probe_port, probe_exit_code};

#[test]
fn check_port_rejects_zero() {
    assert!(check_probe_port(0).is_err());
}

#[test]
fn check_probe_port_accepts_others() {
    assert!(check_probe_port(25565).is_ok());
    assert_eq!(
        check_probe_port(0).unwrap_err(),
        AppError::Config("port must be greater than 0".into())
    );
}

#[test]
fn probe_exit_code_values() {
    assert_eq!(probe_exit_code(&Ok(true)), 0);
    assert_eq!(probe_exit_code(&Ok(false)), 1);
    assert_eq!(probe_exit_code(&Err(AppError::Config("invalid address".into()))), 2);
}

#[test]
fn eula_rendering() {
    assert!(render_eula(true).unwrap().contains("eula=true"));
    assert_eq!(render_eula(false).unwrap_err(), AppError::EulaNotAccepted);
}
