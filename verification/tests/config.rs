use minecraft_k8s::config::{default_image, EnvVar, ModLoader, ServerConfig};
use minecraft_k8s::error::AppError;

/// The configuration a file naming a Forge server, its version and the
/// EULA reads as.
fn valid_forge() -> ServerConfig {
    let mut cfg = ServerConfig::new("survival", "minecraft", "1.20.1", ModLoader::Forge);
    cfg.forge_version = Some("47.2.0".into());
    cfg.eula = true;
    cfg
}

#[test]
fn validate_rejects_multiple_replicas() {
    let mut cfg = valid_forge();
    cfg.replicas = 2;
    let err = cfg.validate().unwrap_err();
    assert!(matches!(err, AppError::Config(_)));
}

#[test]
fn validate_requires_eula() {
    let mut cfg = valid_forge();
    cfg.eula = false;
    assert_eq!(cfg.validate().unwrap_err(), AppError::EulaNotAccepted);
}

#[test]
fn validate_requires_forge_version() {
    let cfg = ServerConfig::new("x", "minecraft", "1.20.1", ModLoader::Forge);
    assert!(cfg.validate().is_err());
}

#[test]
fn mod_loader_from_str() {
    assert_eq!("forge".parse::<ModLoader>().unwrap(), ModLoader::Forge);
    assert_eq!("fabric".parse::<ModLoader>().unwrap(), ModLoader::Fabric);
    assert!("unknown".parse::<ModLoader>().is_err());
}

#[test]
fn mod_loader_all_env_values() {
    assert_eq!(ModLoader::Forge.as_env_value(), "FORGE");
    assert_eq!(ModLoader::Fabric.as_env_value(), "FABRIC");
    assert_eq!(ModLoader::Quilt.as_env_value(), "QUILT");
    assert_eq!(ModLoader::Paper.as_env_value(), "PAPER");
    assert_eq!(ModLoader::Vanilla.as_env_value(), "VANILLA");
    assert!(ModLoader::Forge.supports_mods());
    assert!(!ModLoader::Vanilla.supports_mods());
}

#[test]
fn validate_rejects_empty_fields() {
    let mut cfg = valid_forge();
    cfg.name = String::new();
    assert!(cfg.validate().is_err());

    cfg = valid_forge();
    cfg.namespace = String::new();
    assert!(cfg.validate().is_err());

    cfg = valid_forge();
    cfg.minecraft_version = String::new();
    assert!(cfg.validate().is_err());

    cfg = valid_forge();
    cfg.port = 0;
    assert!(cfg.validate().is_err());
}

#[test]
fn container_env_includes_forge_and_modpack() {
    let mut cfg = valid_forge();
    cfg.modpack_url = Some("https://example.com/modpack.zip".into());
    let env = cfg.container_env();
    assert!(env.iter().any(|(k, v)| k == "FORGE_VERSION" && v == "47.2.0"));
    assert!(env.iter().any(|(k, _)| k == "MODPACK"));
    assert!(env.iter().any(|(k, v)| k == "EULA" && v == "TRUE"));
}

#[test]
fn full_image_and_defaults() {
    let cfg = valid_forge();
    assert!(cfg.full_image().contains("minecraft-k8s-server"));
    assert_eq!(cfg.port, 25565);
    assert_eq!(cfg.storage_size, "20Gi");
}

#[test]
fn extra_env_merged() {
    let mut cfg = ServerConfig::new("x", "minecraft", "1.20.1", ModLoader::Fabric);
    cfg.eula = true;
    cfg.extra_env.push(EnvVar {
        name: "FABRIC_LOADER_VERSION".into(),
        value: "0.15.11".into(),
    });
    assert!(cfg.validate().is_ok());
    let env = cfg.container_env();
    assert!(env.iter().any(|(k, v)| k == "FABRIC_LOADER_VERSION" && v == "0.15.11"));
}

#[test]
fn validate_accepts_valid_forge() {
    assert!(valid_forge().validate().is_ok());
}

#[test]
fn validate_error_messages() {
    let mut cfg = valid_forge();
    cfg.name = String::new();
    assert_eq!(cfg.validate().unwrap_err(), AppError::Config("name must not be empty".into()));
    let mut cfg = valid_forge();
    cfg.replicas = 0;
    assert_eq!(
        cfg.validate().unwrap_err(),
        AppError::Config("replicas must be 1 for stateful Minecraft servers".into())
    );
    let cfg = ServerConfig::new("x", "minecraft", "1.20.1", ModLoader::Forge);
    assert_eq!(
        cfg.validate().unwrap_err(),
        AppError::Config("forge_version is required when mod_loader is forge".into())
    );
    // The first broken rule is the one reported.
    let mut cfg = valid_forge();
    cfg.namespace = String::new();
    cfg.eula = false;
    assert_eq!(cfg.validate().unwrap_err(), AppError::Config("namespace must not be empty".into()));
}

#[test]
fn defaults_are_valid_for_non_forge_loaders() {
    for loader in [ModLoader::Fabric, ModLoader::Quilt, ModLoader::Paper, ModLoader::Vanilla] {
        assert!(ServerConfig::new("a", "b", "1.21", loader).validate().is_ok());
    }
    assert!(ServerConfig::new("a", "b", "1.21", ModLoader::Forge).validate().is_err());
}

#[test]
fn defaults_match_documented_values() {
    let cfg = ServerConfig::new("a", "b", "1.21", ModLoader::Paper);
    assert_eq!(cfg.memory, "4G");
    assert_eq!(cfg.replicas, 1);
    assert!(cfg.eula);
    assert_eq!(cfg.max_players, 20);
    assert_eq!(cfg.motd, "Modded Minecraft on Kubernetes");
    assert_eq!(cfg.image, default_image());
    assert_eq!(cfg.image_tag, "latest");
    assert_eq!(cfg.full_image(), "ghcr.io/brianlechthaler/minecraft-k8s-server:latest");
}

#[test]
fn mod_loader_parse_ignores_case_and_reports_lowercase() {
    assert_eq!("QuIlT".parse::<ModLoader>().unwrap(), ModLoader::Quilt);
    assert_eq!("VANILLA".parse::<ModLoader>().unwrap(), ModLoader::Vanilla);
    assert_eq!("Paper".parse::<ModLoader>().unwrap(), ModLoader::Paper);
    assert_eq!(
        ModLoader::parse("NeoForge").unwrap_err(),
        AppError::Config("unknown mod loader: neoforge".into())
    );
}

#[test]
fn container_env_exact_order() {
    let mut cfg = valid_forge();
    cfg.max_players = 123;
    cfg.extra_env.push(EnvVar { name: "A".into(), value: "1".into() });
    let env = cfg.container_env();
    let names: Vec<&str> = env.iter().map(|(k, _)| k.as_str()).collect();
    assert_eq!(
        names,
        vec![
            "EULA",
            "TYPE",
            "VERSION",
            "MEMORY",
            "MAX_PLAYERS",
            "MOTD",
            "ENABLE_RCON",
            "RCON_PASSWORD",
            "RCON_PORT",
            "USE_AIKAR_FLAGS",
            "SYNC_SKIP_NEWER_IN_DESTINATION",
            "FORGE_VERSION",
            "A"
        ]
    );
    assert_eq!(env[1].1, "FORGE");
    assert_eq!(env[4].1, "123");
    assert_eq!(env[7].1, "minecraft-k8s-rcon");
    assert_eq!(env[12].1, "1");
}

#[test]
fn env_values_parse_back() {
    for loader in [ModLoader::Forge, ModLoader::Fabric, ModLoader::Quilt, ModLoader::Paper, ModLoader::Vanilla] {
        assert_eq!(loader.as_env_value().parse::<ModLoader>().unwrap(), loader);
    }
}
