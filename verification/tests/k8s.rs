use minecraft_k8s::config::{ModLoader, ServerConfig};
use minecraft_k8s::json::Json;
use minecraft_k8s::k8s::{
    labels, render_all, render_dashboard_deployment, render_dashboard_service, render_deployment,
    render_pvc, render_rcon_secret, render_rcon_service, render_server_properties, render_service,
    APP_LABEL,
};
use minecraft_k8s::manifest::{frame_documents, read_header, validate_manifest_yaml};

fn sample_config() -> ServerConfig {
    let mut cfg = ServerConfig::new("test-server", "minecraft", "1.20.1", ModLoader::Forge);
    cfg.forge_version = Some("47.2.0".into());
    cfg.memory = "4G".into();
    cfg.port = 25565;
    cfg.replicas = 1;
    cfg.storage_size = "20Gi".into();
    cfg.eula = true;
    cfg.max_players = 10;
    cfg.motd = "Test".into();
    cfg.image = "example/mc".into();
    cfg.image_tag = "dev".into();
    cfg.modpack_url = None;
    cfg.extra_env = vec![];
    cfg
}

/// Follows a path of object keys.
fn at<'a>(j: &'a Json, path: &[&str]) -> &'a Json {
    let mut cur = j;
    for key in path {
        cur = cur.field(key).unwrap_or_else(|| panic!("missing {key}"));
    }
    cur
}

fn first_container(dep: &Json) -> &Json {
    at(dep, &["spec", "template", "spec", "containers"]).item(0).unwrap()
}

fn to_value(j: &Json) -> serde_json::Value {
    match j {
        Json::Bool(b) => serde_json::Value::Bool(*b),
        Json::Int(n) => serde_json::Value::from(*n),
        Json::Str(s) => serde_json::Value::String(s.clone()),
        Json::Array(items) => serde_json::Value::Array(items.iter().map(to_value).collect()),
        Json::Object(entries) => serde_json::Value::Object(
            entries.iter().map(|(k, v)| (k.clone(), to_value(v))).collect(),
        ),
    }
}

#[test]
fn render_all_produces_ten_documents() {
    let docs = render_all(&sample_config()).unwrap();
    assert_eq!(docs.len(), 10);
}

#[test]
fn render_all_refuses_invalid_config() {
    let mut cfg = sample_config();
    cfg.eula = false;
    assert!(render_all(&cfg).is_err());
}

#[test]
fn deployment_uses_rcon_secret() {
    let dep = render_deployment(&sample_config());
    let env = first_container(&dep).field("env").unwrap();
    let n = env.len().unwrap();
    assert!((0..n).any(|i| {
        let e = env.item(i).unwrap();
        e.field("name").and_then(Json::as_str) == Some("RCON_PASSWORD")
            && at(e, &["valueFrom", "secretKeyRef", "name"]).as_str() == Some("test-server-rcon")
    }));
    // The password itself is never a plain value.
    assert!((0..n).all(|i| {
        let e = env.item(i).unwrap();
        e.field("name").and_then(Json::as_str) != Some("RCON_PASSWORD") || e.field("value").is_none()
    }));
}

#[test]
fn dashboard_resources_reference_tools_image() {
    let dep = render_dashboard_deployment(&sample_config());
    assert!(first_container(&dep)
        .field("image")
        .unwrap()
        .as_str()
        .unwrap()
        .contains("minecraft-k8s-tools"));
    let svc = render_dashboard_service(&sample_config());
    assert_eq!(at(&svc, &["spec", "ports"]).item(0).unwrap().field("port").unwrap().as_int(), Some(8080));
}

#[test]
fn rcon_service_is_cluster_ip() {
    let svc = render_rcon_service(&sample_config());
    assert_eq!(at(&svc, &["spec", "type"]).as_str(), Some("ClusterIP"));
    assert_eq!(at(&svc, &["spec", "ports"]).item(0).unwrap().field("port").unwrap().as_int(), Some(25575));
}

#[test]
fn deployment_has_mod_volume() {
    let dep = render_deployment(&sample_config());
    let mounts = first_container(&dep).field("volumeMounts").unwrap();
    let n = mounts.len().unwrap();
    assert!((0..n).any(|i| mounts.item(i).unwrap().field("mountPath").unwrap().as_str() == Some("/data/mods")));
}

#[test]
fn yaml_roundtrip_and_validate() {
    let docs = render_all(&sample_config()).unwrap();
    let yamls: Vec<String> =
        docs.iter().map(|d| serde_yaml::to_string(&to_value(d)).unwrap()).collect();
    let yaml = frame_documents(&yamls);
    assert!(yaml.contains("kind: Deployment"));
    let count = validate_manifest_yaml(&yaml).unwrap();
    assert_eq!(count, 10);
}

#[test]
fn validate_rejects_empty() {
    assert!(validate_manifest_yaml("").is_err());
}

#[test]
fn validate_manifest_only_separators() {
    let err = validate_manifest_yaml(" \n---\n ").unwrap_err();
    assert_eq!(err.to_string(), "manifest error: no documents found");
}

#[test]
fn validate_rejects_empty_metadata_fields() {
    let yaml = "---\napiVersion: ''\nkind: Pod\nmetadata:\n  name: test\n";
    assert!(validate_manifest_yaml(yaml).is_err());
}

#[test]
fn validate_rejects_missing_api_version() {
    let yaml = "---\nkind: Pod\nmetadata:\n  name: test\n";
    assert!(validate_manifest_yaml(yaml).is_err());
}

#[test]
fn validate_rejects_missing_name() {
    let yaml = "---\napiVersion: v1\nkind: Pod\nmetadata: {}\n";
    assert!(validate_manifest_yaml(yaml).is_err());
}

#[test]
fn validate_manifest_messages() {
    assert_eq!(
        validate_manifest_yaml("---\napiVersion: v1\nkind: Pod\nmetadata: {}\n").unwrap_err().to_string(),
        "manifest error: Pod missing metadata.name"
    );
    assert_eq!(
        validate_manifest_yaml("---\nkind: Pod\n").unwrap_err().to_string(),
        "manifest error: missing apiVersion"
    );
    assert_eq!(
        validate_manifest_yaml("apiVersion: v1\nmetadata:\n  name: x\n").unwrap_err().to_string(),
        "manifest error: missing kind"
    );
    assert_eq!(validate_manifest_yaml("   \n ").unwrap_err().to_string(), "manifest error: empty manifest");
    let two = "apiVersion: v1\nkind: A\nmetadata:\n  name: a\n---\n\n---\napiVersion: v1\nkind: B\nmetadata:\n  name: b\n";
    assert_eq!(validate_manifest_yaml(two).unwrap(), 2);
    // Text that is not YAML is refused with the parser's message.
    let err = validate_manifest_yaml("key: [unclosed").unwrap_err();
    match err {
        minecraft_k8s::error::AppError::Manifest(m) => assert!(!m.is_empty()),
        other => panic!("unexpected {other:?}"),
    }
}

#[test]
fn labels_contain_app_name() {
    let lbl = labels(&sample_config());
    assert_eq!(lbl.get(APP_LABEL).map(String::as_str), Some("test-server"));
}

#[test]
fn service_exposes_port() {
    let svc = render_service(&sample_config());
    assert_eq!(at(&svc, &["spec", "ports"]).item(0).unwrap().field("port").unwrap().as_int(), Some(25565));
}

#[test]
fn server_properties_text() {
    assert_eq!(
        render_server_properties(&sample_config()),
        "motd=Test\nmax-players=10\nserver-port=25565\nonline-mode=true\nenable-rcon=true\n"
    );
}

#[test]
fn frame_documents_joins_with_separators() {
    assert_eq!(frame_documents(&vec!["a: 1\n".to_string(), "b: 2\n".to_string()]), "---\na: 1\n---\nb: 2\n");
    assert_eq!(frame_documents(&vec![]), "");
}

#[test]
fn dashboard_args_point_at_services() {
    let dep = render_dashboard_deployment(&sample_config());
    let args = first_container(&dep).field("args").unwrap();
    assert_eq!(args.len(), Some(15));
    assert_eq!(args.item(6).unwrap().as_str(), Some("test-server-mc.minecraft.svc.cluster.local"));
    assert_eq!(args.item(8).unwrap().as_str(), Some("25565"));
    assert_eq!(args.item(10).unwrap().as_str(), Some("test-server-rcon.minecraft.svc.cluster.local"));
}

#[test]
fn data_claim_is_the_mounted_volume() {
    let cfg = sample_config();
    let pvc = render_pvc(&cfg);
    assert_eq!(at(&pvc, &["kind"]).as_str(), Some("PersistentVolumeClaim"));
    assert_eq!(at(&pvc, &["metadata", "name"]).as_str(), Some("test-server-data"));
    assert_eq!(at(&pvc, &["metadata", "namespace"]).as_str(), Some("minecraft"));
    let modes = at(&pvc, &["spec", "accessModes"]);
    assert_eq!(modes.len(), Some(1));
    assert_eq!(modes.item(0).unwrap().as_str(), Some("ReadWriteOnce"));
    assert_eq!(at(&pvc, &["spec", "resources", "requests", "storage"]).as_str(), Some("20Gi"));
    let dep = render_deployment(&cfg);
    let volume = at(&dep, &["spec", "template", "spec", "volumes"]).item(0).unwrap();
    assert_eq!(volume.field("name").unwrap().as_str(), Some("data"));
    assert_eq!(
        at(volume, &["persistentVolumeClaim", "claimName"]).as_str(),
        at(&pvc, &["metadata", "name"]).as_str()
    );
}

#[test]
fn rcon_secret_feeds_both_deployments() {
    let cfg = sample_config();
    let secret = render_rcon_secret(&cfg);
    assert_eq!(at(&secret, &["kind"]).as_str(), Some("Secret"));
    assert_eq!(at(&secret, &["type"]).as_str(), Some("Opaque"));
    let name = at(&secret, &["metadata", "name"]).as_str().unwrap();
    assert_eq!(name, "test-server-rcon");
    let password = at(&secret, &["stringData", "password"]).as_str().unwrap();
    assert_eq!(password, "minecraft-k8s-rcon");
    let dep = render_deployment(&cfg);
    let env = first_container(&dep).field("env").unwrap();
    let last = env.item(env.len().unwrap() - 1).unwrap();
    assert_eq!(last.field("name").unwrap().as_str(), Some("RCON_PASSWORD"));
    assert_eq!(at(last, &["valueFrom", "secretKeyRef", "name"]).as_str(), Some(name));
    assert_eq!(at(last, &["valueFrom", "secretKeyRef", "key"]).as_str(), Some("password"));
    let dash = render_dashboard_deployment(&cfg);
    let args = first_container(&dash).field("args").unwrap();
    assert_eq!(args.item(13).unwrap().as_str(), Some("--rcon-password"));
    assert_eq!(args.item(14).unwrap().as_str(), Some(password));
}

#[test]
fn dashboard_follows_service_names_and_selects_its_pods() {
    let mut cfg = sample_config();
    cfg.name = "survival".into();
    cfg.namespace = "games".into();
    cfg.port = 25570;
    let dash = render_dashboard_deployment(&cfg);
    let args = first_container(&dash).field("args").unwrap();
    let host = |svc: &Json| {
        format!(
            "{}.{}.svc.cluster.local",
            at(svc, &["metadata", "name"]).as_str().unwrap(),
            at(svc, &["metadata", "namespace"]).as_str().unwrap()
        )
    };
    let game = render_service(&cfg);
    let rcon = render_rcon_service(&cfg);
    assert_eq!(args.item(5).unwrap().as_str(), Some("--minecraft-host"));
    assert_eq!(args.item(6).unwrap().as_str(), Some(host(&game).as_str()));
    assert_eq!(host(&game), "survival-mc.games.svc.cluster.local");
    assert_eq!(args.item(7).unwrap().as_str(), Some("--minecraft-port"));
    let game_port = at(&game, &["spec", "ports"]).item(0).unwrap().field("port").unwrap().as_int().unwrap();
    assert_eq!(args.item(8).unwrap().as_str(), Some(game_port.to_string().as_str()));
    assert_eq!(args.item(8).unwrap().as_str(), Some("25570"));
    assert_eq!(args.item(9).unwrap().as_str(), Some("--rcon-host"));
    assert_eq!(args.item(10).unwrap().as_str(), Some(host(&rcon).as_str()));
    assert_eq!(args.item(11).unwrap().as_str(), Some("--rcon-port"));
    let rcon_port = at(&rcon, &["spec", "ports"]).item(0).unwrap().field("port").unwrap().as_int().unwrap();
    assert_eq!(args.item(12).unwrap().as_str(), Some(rcon_port.to_string().as_str()));
    let selector = at(&dash, &["spec", "selector", "matchLabels"]);
    let pod_labels = at(&dash, &["spec", "template", "metadata", "labels"]);
    match selector {
        Json::Object(entries) => {
            assert!(!entries.is_empty());
            for (key, value) in entries {
                assert_eq!(pod_labels.field(key).and_then(Json::as_str), value.as_str());
            }
        }
        other => panic!("selector is not an object: {other:?}"),
    }
    assert_eq!(pod_labels.field(APP_LABEL).and_then(Json::as_str), Some("survival-dashboard"));
}

#[test]
fn services_select_their_pods() {
    let cfg = sample_config();
    let selects = |svc: &Json, dep: &Json| {
        let pod_labels = at(dep, &["spec", "template", "metadata", "labels"]);
        match at(svc, &["spec", "selector"]) {
            Json::Object(entries) => {
                !entries.is_empty()
                    && entries
                        .iter()
                        .all(|(k, v)| pod_labels.field(k).and_then(Json::as_str) == v.as_str())
            }
            _ => false,
        }
    };
    let dep = render_deployment(&cfg);
    let dash = render_dashboard_deployment(&cfg);
    assert!(selects(&render_service(&cfg), &dep));
    assert!(selects(&render_rcon_service(&cfg), &dep));
    assert!(selects(&render_dashboard_service(&cfg), &dash));
    assert!(!selects(&render_dashboard_service(&cfg), &dep));
}

#[test]
fn read_header_reads_the_named_fields() {
    let h = read_header("apiVersion: v1\nkind: Pod\nmetadata:\n  name: x\n  namespace: y\n").unwrap();
    assert_eq!(h.api_version.as_deref(), Some("v1"));
    assert_eq!(h.kind.as_deref(), Some("Pod"));
    assert_eq!(h.name.as_deref(), Some("x"));
    let h = read_header("kind: [Pod]\nmetadata: [name]\nname: top\n").unwrap();
    assert_eq!(h.api_version, None);
    assert_eq!(h.kind, None);
    assert_eq!(h.name, None);
    let h = read_header("apiVersion: 1\nkind: ''\nmetadata:\n  name: 7\n").unwrap();
    assert_eq!(h.api_version, None);
    assert_eq!(h.kind.as_deref(), Some(""));
    assert_eq!(h.name, None);
    assert!(!read_header("key: [unclosed").unwrap_err().is_empty());
}
