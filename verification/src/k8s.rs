//! The Kubernetes manifests of a server: its labels and the documents of
//! each of its resources, built as JSON trees.

use vstd::prelude::*;

use crate::config::{env_of, pairs_view, ServerConfig, ServerConfigView, DEFAULT_RCON_PASSWORD};
use crate::error::AppError;
use crate::json::{
    arr1, arr2, arr4, entries_view, field_of, items_view, lookup, obj1, obj2, obj3, obj4, obj5, obj8, obj9,
    push_item, put_owned, text_array, texts_view, Json, JsonView,
};
use crate::manifest::{header_of, header_verdict};
use crate::text::{decimal, decimal_string, owned, push_decimal, push_str, str_eq};

verus! {

/// Label naming the application a resource belongs to.
pub const APP_LABEL: &'static str = "app.kubernetes.io/name";

/// Label naming the tool that manages a resource.
pub const MANAGED_BY: &'static str = "app.kubernetes.io/managed-by";

/// Label naming the part of the application a resource is.
pub const COMPONENT_LABEL: &'static str = "app.kubernetes.io/component";

/// Image of the tools container that serves the dashboard.
pub const DEFAULT_TOOLS_IMAGE: &'static str = "ghcr.io/brianlechthaler/minecraft-k8s-tools";

/// A string value.
pub open spec fn js(s: Seq<char>) -> JsonView {
    JsonView::Str(s)
}

/// An integer value.
pub open spec fn jn(n: int) -> JsonView {
    JsonView::Int(n)
}

/// An object value.
pub open spec fn jo(entries: Seq<(Seq<char>, JsonView)>) -> JsonView {
    JsonView::Object(entries)
}

/// An array value.
pub open spec fn ja(items: Seq<JsonView>) -> JsonView {
    JsonView::Array(items)
}

/// Labels as key/value pairs; those built here are sorted by key, each key once.
pub struct Labels {
    pub entries: Vec<(String, String)>,
}

impl View for Labels {
    type V = Seq<(Seq<char>, Seq<char>)>;

    open spec fn view(&self) -> Seq<(Seq<char>, Seq<char>)> {
        pairs_view(self.entries@)
    }
}

/// The value of the label `key` in `l`, if set.
pub open spec fn label_value(l: Seq<(Seq<char>, Seq<char>)>, key: Seq<char>) -> Option<Seq<char>>
    decreases l.len(),
{
    if l.len() == 0 {
        None
    } else if l[0].0 == key {
        Some(l[0].1)
    } else {
        label_value(l.drop_first(), key)
    }
}

/// The labels of a resource of the application named `app`, in the given
/// component, sorted by key.
pub open spec fn labels_for(app: Seq<char>, component: Seq<char>) -> Seq<(Seq<char>, Seq<char>)> {
    seq![
        ("app.kubernetes.io/component"@, component),
        ("app.kubernetes.io/managed-by"@, "minecraft-k8s"@),
        ("app.kubernetes.io/name"@, app),
    ]
}

/// The labels of the server's resources.
pub open spec fn server_labels(c: ServerConfigView) -> Seq<(Seq<char>, Seq<char>)> {
    labels_for(c.name, "minecraft-server"@)
}

/// The labels of the dashboard's resources.
pub open spec fn dashboard_labels_of(c: ServerConfigView) -> Seq<(Seq<char>, Seq<char>)> {
    labels_for(c.name + "-dashboard"@, "dashboard"@)
}

/// Labels as a JSON object.
pub open spec fn labels_json(l: Seq<(Seq<char>, Seq<char>)>) -> JsonView {
    jo(l.map_values(|p: (Seq<char>, Seq<char>)| (p.0, js(p.1))))
}

/// Whether no key occurs twice among the labels.
pub open spec fn distinct_keys(l: Seq<(Seq<char>, Seq<char>)>) -> bool {
    forall|i: int, j: int| 0 <= i < j < l.len() ==> l[i].0 != l[j].0
}

/// Lemma: the labels of any resource have distinct keys.
pub proof fn lemma_labels_distinct(app: Seq<char>, component: Seq<char>)
    ensures
        distinct_keys(labels_for(app, component)),
{
    reveal_strlit("app.kubernetes.io/name");
    reveal_strlit("app.kubernetes.io/component");
    reveal_strlit("app.kubernetes.io/managed-by");
    let l = labels_for(app, component);
    assert(l[0].0[18] != l[1].0[18]);
    assert(l[0].0[18] != l[2].0[18]);
    assert(l[1].0[18] != l[2].0[18]);
}

fn make_labels(app: String, component: &str) -> (l: Labels)
    ensures
        l@ == labels_for(app@, component@),
        distinct_keys(l@),
{
    proof {
        lemma_labels_distinct(app@, component@);
    }
    let mut entries: Vec<(String, String)> = Vec::new();
    entries.push((owned(COMPONENT_LABEL), owned(component)));
    entries.push((owned(MANAGED_BY), owned("minecraft-k8s")));
    entries.push((owned(APP_LABEL), app));
    let l = Labels { entries };
    assert(l@ =~= labels_for(app@, component@));
    l
}

impl Labels {
    /// The value of the label `key`, if set.
    pub fn get(&self, key: &str) -> (r: Option<&String>)
        ensures
            match label_value(self@, key@) {
                Some(v) => r matches Some(x) && x@ == v,
                None => r is None,
            },
    {
        let mut i: usize = 0;
        assert(self@.subrange(0, self@.len() as int) =~= self@);
        while i < self.entries.len()
            invariant
                i <= self.entries@.len(),
                self@.len() == self.entries@.len(),
                label_value(self@, key@) == label_value(
                    self@.subrange(i as int, self@.len() as int),
                    key@,
                ),
            decreases self.entries@.len() - i,
        {
            let ghost rest = self@.subrange(i as int, self@.len() as int);
            assert(rest[0] == (self.entries@[i as int].0@, self.entries@[i as int].1@));
            if str_eq(self.entries[i].0.as_str(), key) {
                return Some(&self.entries[i].1);
            }
            assert(rest.drop_first() =~= self@.subrange(i + 1, self@.len() as int));
            i = i + 1;
        }
        None
    }

    /// The labels as a JSON object.
    pub fn to_json(&self) -> (j: Json)
        ensures
            j@ == labels_json(self@),
    {
        let mut o: Vec<(String, Json)> = Vec::new();
        let mut i: usize = 0;
        while i < self.entries.len()
            invariant
                i <= self.entries@.len(),
                self@.len() == self.entries@.len(),
                entries_view(o@) == self@.subrange(0, i as int).map_values(
                    |p: (Seq<char>, Seq<char>)| (p.0, js(p.1)),
                ),
            decreases self.entries@.len() - i,
        {
            let ghost before = entries_view(o@);
            put_owned(&mut o, self.entries[i].0.clone(), Json::string(self.entries[i].1.clone()));
            assert(self@.subrange(0, i + 1).map_values(|p: (Seq<char>, Seq<char>)| (p.0, js(p.1)))
                =~= before.push((self@[i as int].0, js(self@[i as int].1))));
            i = i + 1;
        }
        assert(self@.subrange(0, self@.len() as int) =~= self@);
        Json::object(o)
    }
}

/// The labels of the server's resources.
pub fn labels(cfg: &ServerConfig) -> (l: Labels)
    ensures
        l@ == server_labels(cfg@),
        distinct_keys(l@),
{
    make_labels(cfg.name.clone(), "minecraft-server")
}

/// The labels of the dashboard's resources.
pub fn dashboard_labels(cfg: &ServerConfig) -> (l: Labels)
    ensures
        l@ == dashboard_labels_of(cfg@),
        distinct_keys(l@),
{
    let mut app = cfg.name.clone();
    push_str(&mut app, "-dashboard");
    make_labels(app, "dashboard")
}

/// The metadata of a namespaced resource.
pub open spec fn meta(name: Seq<char>, namespace: Seq<char>, labels: Seq<(Seq<char>, Seq<char>)>) -> JsonView {
    jo(seq![("name"@, js(name)), ("namespace"@, js(namespace)), ("labels"@, labels_json(labels))])
}

/// The metadata of a namespaced resource.
fn metadata(name: String, namespace: &String, labels: &Labels) -> (j: Json)
    ensures
        j@ == meta(name@, namespace@, labels@),
{
    obj3(
        "name",
        Json::string(name),
        "namespace",
        Json::string(namespace.clone()),
        "labels",
        labels.to_json(),
    )
}

/// `base` followed by `suffix`.
fn suffixed(base: &String, suffix: &str) -> (s: String)
    ensures
        s@ == base@ + suffix@,
{
    let mut s = base.clone();
    push_str(&mut s, suffix);
    s
}

/// The document of the server's namespace.
pub open spec fn namespace_doc(c: ServerConfigView) -> JsonView {
    jo(
        seq![
            ("apiVersion"@, js("v1"@)),
            ("kind"@, js("Namespace"@)),
            ("metadata"@, jo(seq![("name"@, js(c.namespace)), ("labels"@, labels_json(server_labels(c)))])),
        ],
    )
}

/// Renders the server's namespace.
pub fn render_namespace(cfg: &ServerConfig) -> (d: Json)
    ensures
        d@ == namespace_doc(cfg@),
{
    obj3(
        "apiVersion",
        Json::text("v1"),
        "kind",
        Json::text("Namespace"),
        "metadata",
        obj2("name", Json::string(cfg.namespace.clone()), "labels", labels(cfg).to_json()),
    )
}

/// The `server.properties` file of the server.
pub open spec fn server_properties(c: ServerConfigView) -> Seq<char> {
    "motd="@ + c.motd + "\nmax-players="@ + decimal(c.max_players as nat) + "\nserver-port="@
        + decimal(c.port as nat) + "\nonline-mode=true\nenable-rcon=true\n"@
}

/// Renders the `server.properties` file of the server.
pub fn render_server_properties(cfg: &ServerConfig) -> (s: String)
    ensures
        s@ == server_properties(cfg@),
{
    let mut s = owned("motd=");
    push_str(&mut s, cfg.motd.as_str());
    push_str(&mut s, "\nmax-players=");
    push_decimal(&mut s, cfg.max_players as u64);
    push_str(&mut s, "\nserver-port=");
    push_decimal(&mut s, cfg.port as u64);
    push_str(&mut s, "\nonline-mode=true\nenable-rcon=true\n");
    assert(s@ =~= server_properties(cfg@));
    s
}

/// The document of the server's config map.
pub open spec fn config_map_doc(c: ServerConfigView) -> JsonView {
    jo(
        seq![
            ("apiVersion"@, js("v1"@)),
            ("kind"@, js("ConfigMap"@)),
            ("metadata"@, meta(c.name + "-config"@, c.namespace, server_labels(c))),
            ("data"@, jo(seq![("server.properties"@, js(server_properties(c)))])),
        ],
    )
}

/// Renders the server's config map, which holds `server.properties`.
pub fn render_config_map(cfg: &ServerConfig) -> (d: Json)
    ensures
        d@ == config_map_doc(cfg@),
{
    obj4(
        "apiVersion",
        Json::text("v1"),
        "kind",
        Json::text("ConfigMap"),
        "metadata",
        metadata(suffixed(&cfg.name, "-config"), &cfg.namespace, &labels(cfg)),
        "data",
        obj1("server.properties", Json::string(render_server_properties(cfg))),
    )
}

/// The document of a volume claim of the given name and size.
pub open spec fn claim_doc(c: ServerConfigView, name: Seq<char>, size: Seq<char>) -> JsonView {
    jo(
        seq![
            ("apiVersion"@, js("v1"@)),
            ("kind"@, js("PersistentVolumeClaim"@)),
            ("metadata"@, meta(name, c.namespace, server_labels(c))),
            (
                "spec"@,
                jo(
                    seq![
                        ("accessModes"@, ja(seq![js("ReadWriteOnce"@)])),
                        ("resources"@, jo(seq![("requests"@, jo(seq![("storage"@, js(size))]))])),
                    ],
                ),
            ),
        ],
    )
}

fn render_claim(cfg: &ServerConfig, name: String, size: String) -> (d: Json)
    ensures
        d@ == claim_doc(cfg@, name@, size@),
{
    obj4(
        "apiVersion",
        Json::text("v1"),
        "kind",
        Json::text("PersistentVolumeClaim"),
        "metadata",
        metadata(name, &cfg.namespace, &labels(cfg)),
        "spec",
        obj2(
            "accessModes",
            arr1(Json::text("ReadWriteOnce")),
            "resources",
            obj1("requests", obj1("storage", Json::string(size))),
        ),
    )
}

/// Renders the claim of the world-data volume.
pub fn render_pvc(cfg: &ServerConfig) -> (d: Json)
    ensures
        d@ == claim_doc(cfg@, cfg@.name + "-data"@, cfg@.storage_size),
{
    render_claim(cfg, suffixed(&cfg.name, "-data"), cfg.storage_size.clone())
}

/// Renders the claim of the mods volume.
pub fn render_mods_pvc(cfg: &ServerConfig) -> (d: Json)
    ensures
        d@ == claim_doc(cfg@, cfg@.name + "-mods"@, "5Gi"@),
{
    render_claim(cfg, suffixed(&cfg.name, "-mods"), owned("5Gi"))
}

/// A container port entry.
pub open spec fn container_port(name: Seq<char>, port: int) -> JsonView {
    jo(seq![("name"@, js(name)), ("containerPort"@, jn(port)), ("protocol"@, js("TCP"@))])
}

fn make_container_port(name: &str, port: i64) -> (j: Json)
    ensures
        j@ == container_port(name@, port as int),
{
    obj3("name", Json::text(name), "containerPort", Json::number(port), "protocol", Json::text("TCP"))
}

/// A volume backed by the claim `claim`.
pub open spec fn claim_volume(name: Seq<char>, claim: Seq<char>) -> JsonView {
    jo(seq![("name"@, js(name)), ("persistentVolumeClaim"@, jo(seq![("claimName"@, js(claim))]))])
}

fn make_claim_volume(name: &str, claim: String) -> (j: Json)
    ensures
        j@ == claim_volume(name@, claim@),
{
    obj2("name", Json::text(name), "persistentVolumeClaim", obj1("claimName", Json::string(claim)))
}

/// A volume mount.
pub open spec fn volume_mount(name: Seq<char>, path: Seq<char>) -> JsonView {
    jo(seq![("name"@, js(name)), ("mountPath"@, js(path))])
}

fn make_volume_mount(name: &str, path: &str) -> (j: Json)
    ensures
        j@ == volume_mount(name@, path@),
{
    obj2("name", Json::text(name), "mountPath", Json::text(path))
}

/// A resource amount of memory and CPU.
pub open spec fn amounts(memory: Seq<char>, cpu: Seq<char>) -> JsonView {
    jo(seq![("memory"@, js(memory)), ("cpu"@, js(cpu))])
}

fn make_amounts(memory: String, cpu: &str) -> (j: Json)
    ensures
        j@ == amounts(memory@, cpu@),
{
    obj2("memory", Json::string(memory), "cpu", Json::text(cpu))
}

/// The timings of the server's readiness probe, or of its liveness probe
/// when `kind` is `liveness`: initial delay, period and failure threshold.
pub open spec fn probe_timing(kind: Seq<char>) -> (int, int, int) {
    if kind == "liveness"@ {
        (120, 30, 6)
    } else {
        (60, 10, 12)
    }
}

/// The server's exec probe of the given kind, which runs the tool's
/// `probe` command against the game port.
pub open spec fn probe_doc(c: ServerConfigView, kind: Seq<char>) -> JsonView {
    let t = probe_timing(kind);
    jo(
        seq![
            (
                "exec"@,
                jo(
                    seq![
                        (
                            "command"@,
                            ja(
                                seq![
                                    js("/usr/local/bin/minecraft-k8s"@),
                                    js("probe"@),
                                    js("--port"@),
                                    js(decimal(c.port as nat)),
                                ],
                            ),
                        ),
                    ],
                ),
            ),
            ("initialDelaySeconds"@, jn(t.0)),
            ("periodSeconds"@, jn(t.1)),
            ("failureThreshold"@, jn(t.2)),
            ("timeoutSeconds"@, jn(5)),
        ],
    )
}

/// Renders the server's exec probe of the given kind.
pub fn probe(cfg: &ServerConfig, kind: &str) -> (j: Json)
    ensures
        j@ == probe_doc(cfg@, kind@),
{
    let (initial, period, failure): (i64, i64, i64) = if str_eq(kind, "liveness") {
        (120, 30, 6)
    } else {
        (60, 10, 12)
    };
    obj5(
        "exec",
        obj1(
            "command",
            arr4(
                Json::text("/usr/local/bin/minecraft-k8s"),
                Json::text("probe"),
                Json::text("--port"),
                Json::string(decimal_string(cfg.port as u64)),
            ),
        ),
        "initialDelaySeconds",
        Json::number(initial),
        "periodSeconds",
        Json::number(period),
        "failureThreshold",
        Json::number(failure),
        "timeoutSeconds",
        Json::number(5),
    )
}

/// One plain `name`/`value` entry of a container's environment.
pub open spec fn env_entry(p: (Seq<char>, Seq<char>)) -> JsonView {
    jo(seq![("name"@, js(p.0)), ("value"@, js(p.1))])
}

/// The plain entries of an environment, leaving out `RCON_PASSWORD`.
pub open spec fn plain_env(pairs: Seq<(Seq<char>, Seq<char>)>) -> Seq<JsonView>
    decreases pairs.len(),
{
    if pairs.len() == 0 {
        seq![]
    } else {
        let rest = plain_env(pairs.drop_last());
        if pairs.last().0 == "RCON_PASSWORD"@ {
            rest
        } else {
            rest.push(env_entry(pairs.last()))
        }
    }
}

/// The environment entry that reads the RCON password from the server's secret.
pub open spec fn secret_env(c: ServerConfigView) -> JsonView {
    jo(
        seq![
            ("name"@, js("RCON_PASSWORD"@)),
            (
                "valueFrom"@,
                jo(
                    seq![
                        (
                            "secretKeyRef"@,
                            jo(seq![("name"@, js(c.name + "-rcon"@)), ("key"@, js("password"@))]),
                        ),
                    ],
                ),
            ),
        ],
    )
}

/// The server container's environment: the configured variables but the
/// RCON password, which comes from the secret instead.
pub open spec fn deployment_env(c: ServerConfigView) -> Seq<JsonView> {
    plain_env(env_of(c)).push(secret_env(c))
}

fn make_deployment_env(cfg: &ServerConfig) -> (v: Vec<Json>)
    ensures
        items_view(v@) == deployment_env(cfg@),
{
    let env = cfg.container_env();
    let ghost pairs = pairs_view(env@);
    let mut out: Vec<Json> = Vec::new();
    let mut i: usize = 0;
    while i < env.len()
        invariant
            i <= env@.len(),
            pairs == pairs_view(env@),
            pairs == env_of(cfg@),
            items_view(out@) == plain_env(pairs.take(i as int)),
        decreases env@.len() - i,
    {
        assert(pairs.take(i + 1).drop_last() =~= pairs.take(i as int));
        assert(pairs.take(i + 1).last() == (env@[i as int].0@, env@[i as int].1@));
        if !str_eq(env[i].0.as_str(), "RCON_PASSWORD") {
            push_item(
                &mut out,
                obj2("name", Json::string(env[i].0.clone()), "value", Json::string(env[i].1.clone())),
            );
        }
        i = i + 1;
    }
    assert(pairs.take(env@.len() as int) =~= pairs);
    let secret = obj2(
        "name",
        Json::text("RCON_PASSWORD"),
        "valueFrom",
        obj1(
            "secretKeyRef",
            obj2("name", Json::string(suffixed(&cfg.name, "-rcon")), "key", Json::text("password")),
        ),
    );
    push_item(&mut out, secret);
    out
}

/// The server container.
pub open spec fn server_container(c: ServerConfigView) -> JsonView {
    jo(
        seq![
            ("name"@, js("minecraft"@)),
            ("image"@, js(c.image + ":"@ + c.image_tag)),
            ("imagePullPolicy"@, js("IfNotPresent"@)),
            (
                "ports"@,
                ja(seq![container_port("minecraft"@, c.port as int), container_port("rcon"@, 25575)]),
            ),
            ("env"@, ja(deployment_env(c))),
            (
                "resources"@,
                jo(
                    seq![
                        ("requests"@, amounts("2Gi"@, "500m"@)),
                        ("limits"@, amounts(c.memory, "2"@)),
                    ],
                ),
            ),
            (
                "volumeMounts"@,
                ja(seq![volume_mount("data"@, "/data"@), volume_mount("mods"@, "/data/mods"@)]),
            ),
            ("readinessProbe"@, probe_doc(c, "readiness"@)),
            ("livenessProbe"@, probe_doc(c, "liveness"@)),
        ],
    )
}

/// The document of the server's deployment.
pub open spec fn deployment_doc(c: ServerConfigView) -> JsonView {
    jo(
        seq![
            ("apiVersion"@, js("apps/v1"@)),
            ("kind"@, js("Deployment"@)),
            ("metadata"@, meta(c.name, c.namespace, server_labels(c))),
            (
                "spec"@,
                jo(
                    seq![
                        ("replicas"@, jn(c.replicas as int)),
                        ("strategy"@, jo(seq![("type"@, js("Recreate"@))])),
                        (
                            "selector"@,
                            jo(seq![("matchLabels"@, jo(seq![("app.kubernetes.io/name"@, js(c.name))]))]),
                        ),
                        (
                            "template"@,
                            jo(
                                seq![
                                    ("metadata"@, jo(seq![("labels"@, labels_json(server_labels(c)))])),
                                    (
                                        "spec"@,
                                        jo(
                                            seq![
                                                (
                                                    "securityContext"@,
                                                    jo(
                                                        seq![
                                                            ("fsGroup"@, jn(1000)),
                                                            ("runAsUser"@, jn(1000)),
                                                            ("runAsNonRoot"@, JsonView::Bool(true)),
                                                        ],
                                                    ),
                                                ),
                                                ("containers"@, ja(seq![server_container(c)])),
                                                (
                                                    "volumes"@,
                                                    ja(
                                                        seq![
                                                            claim_volume("data"@, c.name + "-data"@),
                                                            claim_volume("mods"@, c.name + "-mods"@),
                                                        ],
                                                    ),
                                                ),
                                            ],
                                        ),
                                    ),
                                ],
                            ),
                        ),
                    ],
                ),
            ),
        ],
    )
}

fn make_server_container(cfg: &ServerConfig) -> (j: Json)
    ensures
        j@ == server_container(cfg@),
{
    obj9(
        "name",
        Json::text("minecraft"),
        "image",
        Json::string(cfg.full_image()),
        "imagePullPolicy",
        Json::text("IfNotPresent"),
        "ports",
        arr2(
            make_container_port("minecraft", cfg.port as i64),
            make_container_port("rcon", 25575),
        ),
        "env",
        Json::array(make_deployment_env(cfg)),
        "resources",
        obj2(
            "requests",
            make_amounts(owned("2Gi"), "500m"),
            "limits",
            make_amounts(cfg.memory.clone(), "2"),
        ),
        "volumeMounts",
        arr2(make_volume_mount("data", "/data"), make_volume_mount("mods", "/data/mods")),
        "readinessProbe",
        probe(cfg, "readiness"),
        "livenessProbe",
        probe(cfg, "liveness"),
    )
}

/// Renders the server's deployment.
pub fn render_deployment(cfg: &ServerConfig) -> (d: Json)
    ensures
        d@ == deployment_doc(cfg@),
{
    let pod_spec = obj3(
        "securityContext",
        obj3(
            "fsGroup",
            Json::number(1000),
            "runAsUser",
            Json::number(1000),
            "runAsNonRoot",
            Json::boolean(true),
        ),
        "containers",
        arr1(make_server_container(cfg)),
        "volumes",
        arr2(
            make_claim_volume("data", suffixed(&cfg.name, "-data")),
            make_claim_volume("mods", suffixed(&cfg.name, "-mods")),
        ),
    );
    let spec = obj4(
        "replicas",
        Json::number(cfg.replicas as i64),
        "strategy",
        obj1("type", Json::text("Recreate")),
        "selector",
        obj1("matchLabels", obj1(APP_LABEL, Json::string(cfg.name.clone()))),
        "template",
        obj2("metadata", obj1("labels", labels(cfg).to_json()), "spec", pod_spec),
    );
    obj4(
        "apiVersion",
        Json::text("apps/v1"),
        "kind",
        Json::text("Deployment"),
        "metadata",
        metadata(cfg.name.clone(), &cfg.namespace, &labels(cfg)),
        "spec",
        spec,
    )
}

/// A service document.
pub open spec fn service_doc(
    c: ServerConfigView,
    name: Seq<char>,
    labels: Seq<(Seq<char>, Seq<char>)>,
    service_type: Seq<char>,
    selected: Seq<char>,
    port_name: Seq<char>,
    port: int,
) -> JsonView {
    jo(
        seq![
            ("apiVersion"@, js("v1"@)),
            ("kind"@, js("Service"@)),
            ("metadata"@, meta(name, c.namespace, labels)),
            (
                "spec"@,
                jo(
                    seq![
                        ("type"@, js(service_type)),
                        ("selector"@, jo(seq![("app.kubernetes.io/name"@, js(selected))])),
                        (
                            "ports"@,
                            ja(
                                seq![
                                    jo(
                                        seq![
                                            ("name"@, js(port_name)),
                                            ("port"@, jn(port)),
                                            ("targetPort"@, js(port_name)),
                                            ("protocol"@, js("TCP"@)),
                                        ],
                                    ),
                                ],
                            ),
                        ),
                    ],
                ),
            ),
        ],
    )
}

fn make_service(
    cfg: &ServerConfig,
    name: String,
    labels: &Labels,
    service_type: &str,
    selected: String,
    port_name: &str,
    port: i64,
) -> (d: Json)
    ensures
        d@ == service_doc(cfg@, name@, labels@, service_type@, selected@, port_name@, port as int),
{
    let port_entry = obj4(
        "name",
        Json::text(port_name),
        "port",
        Json::number(port),
        "targetPort",
        Json::text(port_name),
        "protocol",
        Json::text("TCP"),
    );
    obj4(
        "apiVersion",
        Json::text("v1"),
        "kind",
        Json::text("Service"),
        "metadata",
        metadata(name, &cfg.namespace, labels),
        "spec",
        obj3(
            "type",
            Json::text(service_type),
            "selector",
            obj1(APP_LABEL, Json::string(selected)),
            "ports",
            arr1(port_entry),
        ),
    )
}

/// The document of the service exposing the game port.
pub open spec fn game_service_doc(c: ServerConfigView) -> JsonView {
    service_doc(
        c,
        c.name + "-mc"@,
        server_labels(c),
        "LoadBalancer"@,
        c.name,
        "minecraft"@,
        c.port as int,
    )
}

/// Renders the load-balanced service exposing the game port.
pub fn render_service(cfg: &ServerConfig) -> (d: Json)
    ensures
        d@ == game_service_doc(cfg@),
{
    make_service(
        cfg,
        suffixed(&cfg.name, "-mc"),
        &labels(cfg),
        "LoadBalancer",
        cfg.name.clone(),
        "minecraft",
        cfg.port as i64,
    )
}

/// The document of the secret holding the RCON password.
pub open spec fn rcon_secret_doc(c: ServerConfigView) -> JsonView {
    jo(
        seq![
            ("apiVersion"@, js("v1"@)),
            ("kind"@, js("Secret"@)),
            ("metadata"@, meta(c.name + "-rcon"@, c.namespace, server_labels(c))),
            ("type"@, js("Opaque"@)),
            ("stringData"@, jo(seq![("password"@, js("minecraft-k8s-rcon"@))])),
        ],
    )
}

/// Renders the secret holding the RCON password.
pub fn render_rcon_secret(cfg: &ServerConfig) -> (d: Json)
    ensures
        d@ == rcon_secret_doc(cfg@),
{
    obj5(
        "apiVersion",
        Json::text("v1"),
        "kind",
        Json::text("Secret"),
        "metadata",
        metadata(suffixed(&cfg.name, "-rcon"), &cfg.namespace, &labels(cfg)),
        "type",
        Json::text("Opaque"),
        "stringData",
        obj1("password", Json::text(DEFAULT_RCON_PASSWORD)),
    )
}

/// The document of the cluster-internal RCON service.
pub open spec fn rcon_service_doc(c: ServerConfigView) -> JsonView {
    service_doc(c, c.name + "-rcon"@, server_labels(c), "ClusterIP"@, c.name, "rcon"@, 25575)
}

/// Renders the cluster-internal service exposing the RCON port.
pub fn render_rcon_service(cfg: &ServerConfig) -> (d: Json)
    ensures
        d@ == rcon_service_doc(cfg@),
{
    make_service(
        cfg,
        suffixed(&cfg.name, "-rcon"),
        &labels(cfg),
        "ClusterIP",
        cfg.name.clone(),
        "rcon",
        25575,
    )
}

/// The in-cluster host name of the service `service` of the server.
pub open spec fn service_host(c: ServerConfigView, service: Seq<char>) -> Seq<char> {
    c.name + service + "."@ + c.namespace + ".svc.cluster.local"@
}

fn make_service_host(cfg: &ServerConfig, service: &str) -> (s: String)
    ensures
        s@ == service_host(cfg@, service@),
{
    let mut s = cfg.name.clone();
    push_str(&mut s, service);
    push_str(&mut s, ".");
    push_str(&mut s, cfg.namespace.as_str());
    push_str(&mut s, ".svc.cluster.local");
    assert(s@ =~= service_host(cfg@, service@));
    s
}

/// The arguments of the dashboard container.
pub open spec fn dashboard_args(c: ServerConfigView) -> Seq<Seq<char>> {
    seq![
        "serve"@,
        "--bind-host"@,
        "0.0.0.0"@,
        "--bind-port"@,
        "8080"@,
        "--minecraft-host"@,
        service_host(c, "-mc"@),
        "--minecraft-port"@,
        decimal(c.port as nat),
        "--rcon-host"@,
        service_host(c, "-rcon"@),
        "--rcon-port"@,
        "25575"@,
        "--rcon-password"@,
        "minecraft-k8s-rcon"@,
    ]
}

fn make_dashboard_args(cfg: &ServerConfig) -> (v: Vec<String>)
    ensures
        v@.map_values(|s: String| s@) == dashboard_args(cfg@),
{
    let mut v: Vec<String> = Vec::new();
    v.push(owned("serve"));
    v.push(owned("--bind-host"));
    v.push(owned("0.0.0.0"));
    v.push(owned("--bind-port"));
    v.push(owned("8080"));
    v.push(owned("--minecraft-host"));
    v.push(make_service_host(cfg, "-mc"));
    v.push(owned("--minecraft-port"));
    v.push(decimal_string(cfg.port as u64));
    v.push(owned("--rcon-host"));
    v.push(make_service_host(cfg, "-rcon"));
    v.push(owned("--rcon-port"));
    v.push(owned("25575"));
    v.push(owned("--rcon-password"));
    v.push(owned(DEFAULT_RCON_PASSWORD));
    assert(v@.map_values(|s: String| s@) =~= dashboard_args(cfg@));
    v
}

/// An HTTP probe of the dashboard's status endpoint.
pub open spec fn http_probe(delay: int, period: int) -> JsonView {
    jo(
        seq![
            ("httpGet"@, jo(seq![("path"@, js("/api/status"@)), ("port"@, js("http"@))])),
            ("initialDelaySeconds"@, jn(delay)),
            ("periodSeconds"@, jn(period)),
        ],
    )
}

fn make_http_probe(delay: i64, period: i64) -> (j: Json)
    ensures
        j@ == http_probe(delay as int, period as int),
{
    obj3(
        "httpGet",
        obj2("path", Json::text("/api/status"), "port", Json::text("http")),
        "initialDelaySeconds",
        Json::number(delay),
        "periodSeconds",
        Json::number(period),
    )
}

/// The dashboard container.
pub open spec fn dashboard_container(c: ServerConfigView) -> JsonView {
    jo(
        seq![
            ("name"@, js("dashboard"@)),
            ("image"@, js("ghcr.io/brianlechthaler/minecraft-k8s-tools"@ + ":"@ + c.image_tag)),
            ("imagePullPolicy"@, js("IfNotPresent"@)),
            ("args"@, ja(texts_view(dashboard_args(c)))),
            (
                "ports"@,
                ja(
                    seq![
                        jo(
                            seq![
                                ("name"@, js("http"@)),
                                ("containerPort"@, jn(8080)),
                                ("protocol"@, js("TCP"@)),
                            ],
                        ),
                    ],
                ),
            ),
            ("readinessProbe"@, http_probe(5, 10)),
            ("livenessProbe"@, http_probe(10, 30)),
            (
                "resources"@,
                jo(
                    seq![
                        ("requests"@, amounts("64Mi"@, "50m"@)),
                        ("limits"@, amounts("128Mi"@, "200m"@)),
                    ],
                ),
            ),
        ],
    )
}

/// The document of the dashboard's deployment.
pub open spec fn dashboard_deployment_doc(c: ServerConfigView) -> JsonView {
    jo(
        seq![
            ("apiVersion"@, js("apps/v1"@)),
            ("kind"@, js("Deployment"@)),
            ("metadata"@, meta(c.name + "-dashboard"@, c.namespace, dashboard_labels_of(c))),
            (
                "spec"@,
                jo(
                    seq![
                        ("replicas"@, jn(1)),
                        (
                            "selector"@,
                            jo(
                                seq![
                                    (
                                        "matchLabels"@,
                                        jo(seq![("app.kubernetes.io/name"@, js(c.name + "-dashboard"@))]),
                                    ),
                                ],
                            ),
                        ),
                        (
                            "template"@,
                            jo(
                                seq![
                                    ("metadata"@, jo(seq![("labels"@, labels_json(dashboard_labels_of(c)))])),
                                    ("spec"@, jo(seq![("containers"@, ja(seq![dashboard_container(c)]))])),
                                ],
                            ),
                        ),
                    ],
                ),
            ),
        ],
    )
}

fn make_dashboard_container(cfg: &ServerConfig) -> (j: Json)
    ensures
        j@ == dashboard_container(cfg@),
{
    let mut image = owned(DEFAULT_TOOLS_IMAGE);
    push_str(&mut image, ":");
    push_str(&mut image, cfg.image_tag.as_str());
    obj8(
        "name",
        Json::text("dashboard"),
        "image",
        Json::string(image),
        "imagePullPolicy",
        Json::text("IfNotPresent"),
        "args",
        text_array(make_dashboard_args(cfg)),
        "ports",
        arr1(make_container_port("http", 8080)),
        "readinessProbe",
        make_http_probe(5, 10),
        "livenessProbe",
        make_http_probe(10, 30),
        "resources",
        obj2(
            "requests",
            make_amounts(owned("64Mi"), "50m"),
            "limits",
            make_amounts(owned("128Mi"), "200m"),
        ),
    )
}

/// Renders the dashboard's deployment.
pub fn render_dashboard_deployment(cfg: &ServerConfig) -> (d: Json)
    ensures
        d@ == dashboard_deployment_doc(cfg@),
{
    let app = suffixed(&cfg.name, "-dashboard");
    let spec = obj3(
        "replicas",
        Json::number(1),
        "selector",
        obj1("matchLabels", obj1(APP_LABEL, Json::string(app.clone()))),
        "template",
        obj2(
            "metadata",
            obj1("labels", dashboard_labels(cfg).to_json()),
            "spec",
            obj1("containers", arr1(make_dashboard_container(cfg))),
        ),
    );
    obj4(
        "apiVersion",
        Json::text("apps/v1"),
        "kind",
        Json::text("Deployment"),
        "metadata",
        metadata(app, &cfg.namespace, &dashboard_labels(cfg)),
        "spec",
        spec,
    )
}

/// The document of the dashboard's service.
pub open spec fn dashboard_service_doc(c: ServerConfigView) -> JsonView {
    service_doc(
        c,
        c.name + "-dashboard"@,
        dashboard_labels_of(c),
        "ClusterIP"@,
        c.name + "-dashboard"@,
        "http"@,
        8080,
    )
}

/// Renders the dashboard's cluster-internal service.
pub fn render_dashboard_service(cfg: &ServerConfig) -> (d: Json)
    ensures
        d@ == dashboard_service_doc(cfg@),
{
    make_service(
        cfg,
        suffixed(&cfg.name, "-dashboard"),
        &dashboard_labels(cfg),
        "ClusterIP",
        suffixed(&cfg.name, "-dashboard"),
        "http",
        8080,
    )
}

/// Every document of a server's manifests, in the order they are applied.
pub open spec fn all_docs(c: ServerConfigView) -> Seq<JsonView> {
    seq![
        namespace_doc(c),
        config_map_doc(c),
        rcon_secret_doc(c),
        claim_doc(c, c.name + "-data"@, c.storage_size),
        claim_doc(c, c.name + "-mods"@, "5Gi"@),
        deployment_doc(c),
        game_service_doc(c),
        rcon_service_doc(c),
        dashboard_deployment_doc(c),
        dashboard_service_doc(c),
    ]
}

/// Renders every document of a valid configuration's manifests; an invalid
/// configuration is refused with the error its validation gives.
pub fn render_all(cfg: &ServerConfig) -> (r: Result<Vec<Json>, AppError>)
    ensures
        match crate::config::config_verdict(cfg@) {
            Err(e) => r matches Err(x) && x@ == e,
            Ok(()) => r matches Ok(docs) && items_view(docs@) == all_docs(cfg@),
        },
{
    match cfg.validate() {
        Err(e) => {
            return Err(e);
        },
        Ok(()) => {},
    }
    let mut docs: Vec<Json> = Vec::new();
    push_item(&mut docs, render_namespace(cfg));
    push_item(&mut docs, render_config_map(cfg));
    push_item(&mut docs, render_rcon_secret(cfg));
    push_item(&mut docs, render_pvc(cfg));
    push_item(&mut docs, render_mods_pvc(cfg));
    push_item(&mut docs, render_deployment(cfg));
    push_item(&mut docs, render_service(cfg));
    push_item(&mut docs, render_rcon_service(cfg));
    push_item(&mut docs, render_dashboard_deployment(cfg));
    push_item(&mut docs, render_dashboard_service(cfg));
    assert(items_view(docs@) =~= all_docs(cfg@));
    Ok(docs)
}

/// Law: the server's resources carry the application's name under the
/// `app.kubernetes.io/name` label.
pub proof fn lemma_app_label(c: ServerConfigView)
    ensures
        label_value(server_labels(c), "app.kubernetes.io/name"@) == Some(c.name),
{
    reveal_strlit("app.kubernetes.io/name");
    reveal_strlit("app.kubernetes.io/component");
    reveal_strlit("app.kubernetes.io/managed-by");
    let l = server_labels(c);
    assert(l[0].0 != "app.kubernetes.io/name"@) by {
        assert(l[0].0[18] != "app.kubernetes.io/name"@[18]);
    }
    assert(l[1].0 != "app.kubernetes.io/name"@) by {
        assert(l[1].0[18] != "app.kubernetes.io/name"@[18]);
    }
    assert(l.drop_first()[0] == l[1]);
    assert(l.drop_first().drop_first()[0] == l[2]);
    reveal_with_fuel(label_value, 4);
}

/// The name under which an environment entry is declared.
pub open spec fn entry_name(e: JsonView) -> Option<JsonView> {
    field_of(e, "name"@)
}

/// Lemma: no plain environment entry is named `RCON_PASSWORD`.
proof fn lemma_plain_env_has_no_password(pairs: Seq<(Seq<char>, Seq<char>)>)
    ensures
        forall|j: int|
            0 <= j < plain_env(pairs).len() ==> #[trigger] plain_env(pairs)[j] == env_entry(
                (plain_env_names(pairs)[j], plain_env_values(pairs)[j]),
            ) && plain_env_names(pairs)[j] != "RCON_PASSWORD"@,
        plain_env_names(pairs).len() == plain_env(pairs).len(),
        plain_env_values(pairs).len() == plain_env(pairs).len(),
    decreases pairs.len(),
{
    if pairs.len() > 0 {
        lemma_plain_env_has_no_password(pairs.drop_last());
    }
}

/// The names of the plain environment entries, in order.
pub open spec fn plain_env_names(pairs: Seq<(Seq<char>, Seq<char>)>) -> Seq<Seq<char>>
    decreases pairs.len(),
{
    if pairs.len() == 0 {
        seq![]
    } else {
        let rest = plain_env_names(pairs.drop_last());
        if pairs.last().0 == "RCON_PASSWORD"@ {
            rest
        } else {
            rest.push(pairs.last().0)
        }
    }
}

/// The values of the plain environment entries, in order.
pub open spec fn plain_env_values(pairs: Seq<(Seq<char>, Seq<char>)>) -> Seq<Seq<char>>
    decreases pairs.len(),
{
    if pairs.len() == 0 {
        seq![]
    } else {
        let rest = plain_env_values(pairs.drop_last());
        if pairs.last().0 == "RCON_PASSWORD"@ {
            rest
        } else {
            rest.push(pairs.last().1)
        }
    }
}

/// Law: the server container never receives the RCON password as a plain
/// value.  Every environment entry but the last is a plain `name`/`value`
/// pair whose name is not `RCON_PASSWORD`, and the last one takes
/// `RCON_PASSWORD` from the key `password` of the secret `<name>-rcon`.
pub proof fn lemma_password_only_from_secret(c: ServerConfigView)
    ensures
        ({
            let env = deployment_env(c);
            &&& env.len() >= 1
            &&& env.last() == secret_env(c)
            &&& forall|j: int|
                0 <= j < env.len() - 1 ==> #[trigger] env[j] == env_entry(
                    (plain_env_names(env_of(c))[j], plain_env_values(env_of(c))[j]),
                ) && plain_env_names(env_of(c))[j] != "RCON_PASSWORD"@
        }),
{
    lemma_plain_env_has_no_password(env_of(c));
    let env = deployment_env(c);
    assert forall|j: int| 0 <= j < env.len() - 1 implies #[trigger] env[j] == env_entry(
        (plain_env_names(env_of(c))[j], plain_env_values(env_of(c))[j]),
    ) && plain_env_names(env_of(c))[j] != "RCON_PASSWORD"@ by {
        assert(env[j] == plain_env(env_of(c))[j]);
    }
}

/// Lemma: a document that starts with its API version, its kind and
/// metadata whose first entry is its name declares that header.
proof fn lemma_standard_header(e: Seq<(Seq<char>, JsonView)>, api: Seq<char>, kind: Seq<char>, name: Seq<char>)
    requires
        e.len() >= 3,
        e[0] == ("apiVersion"@, js(api)),
        e[1] == ("kind"@, js(kind)),
        e[2].0 == "metadata"@,
        e[2].1 matches JsonView::Object(m) && m.len() >= 1 && m[0] == ("name"@, js(name)),
    ensures
        header_of(jo(e)) == (Some(api), Some(kind), Some(name)),
{
    reveal_strlit("apiVersion");
    reveal_strlit("kind");
    reveal_strlit("metadata");
    assert("apiVersion"@.len() == 10);
    assert("kind"@.len() == 4);
    assert("metadata"@.len() == 8);
    assert("apiVersion"@ != "kind"@);
    assert("apiVersion"@ != "metadata"@);
    assert("kind"@ != "metadata"@);
    assert(e.drop_first()[0] == e[1]);
    assert(e.drop_first().drop_first()[0] == e[2]);
    assert(lookup(e, "apiVersion"@) == Some(js(api)));
    assert(lookup(e.drop_first(), "kind"@) == Some(js(kind)));
    assert(lookup(e, "kind"@) == Some(js(kind)));
    assert(lookup(e.drop_first().drop_first(), "metadata"@) == Some(e[2].1));
    assert(lookup(e.drop_first(), "metadata"@) == Some(e[2].1));
    assert(lookup(e, "metadata"@) == Some(e[2].1));
}

/// Law: every document rendered for a valid configuration declares an API
/// version, a kind and a name, all non-empty: the header a manifest check
/// accepts.
pub proof fn lemma_rendered_headers_accepted(c: ServerConfigView)
    requires
        crate::config::config_verdict(c) is Ok,
    ensures
        forall|i: int| 0 <= i < all_docs(c).len() ==> #[trigger] header_verdict(header_of(all_docs(c)[i])) is Ok,
{
    reveal_strlit("v1");
    reveal_strlit("apps/v1");
    reveal_strlit("Namespace");
    reveal_strlit("ConfigMap");
    reveal_strlit("Secret");
    reveal_strlit("PersistentVolumeClaim");
    reveal_strlit("Deployment");
    reveal_strlit("Service");
    let docs = all_docs(c);
    let labels = server_labels(c);
    lemma_standard_header(
        seq![
            ("apiVersion"@, js("v1"@)),
            ("kind"@, js("Namespace"@)),
            ("metadata"@, jo(seq![("name"@, js(c.namespace)), ("labels"@, labels_json(labels))])),
        ],
        "v1"@,
        "Namespace"@,
        c.namespace,
    );
    assert forall|i: int| 0 <= i < docs.len() implies #[trigger] header_verdict(header_of(docs[i])) is Ok by {
        if i == 0 {
        } else if i == 1 {
            if let JsonView::Object(e) = docs[i] {
                lemma_standard_header(e, "v1"@, "ConfigMap"@, c.name + "-config"@);
            }
        } else if i == 2 {
            if let JsonView::Object(e) = docs[i] {
                lemma_standard_header(e, "v1"@, "Secret"@, c.name + "-rcon"@);
            }
        } else if i == 3 {
            if let JsonView::Object(e) = docs[i] {
                lemma_standard_header(e, "v1"@, "PersistentVolumeClaim"@, c.name + "-data"@);
            }
        } else if i == 4 {
            if let JsonView::Object(e) = docs[i] {
                lemma_standard_header(e, "v1"@, "PersistentVolumeClaim"@, c.name + "-mods"@);
            }
        } else if i == 5 {
            if let JsonView::Object(e) = docs[i] {
                lemma_standard_header(e, "apps/v1"@, "Deployment"@, c.name);
            }
        } else if i == 6 {
            if let JsonView::Object(e) = docs[i] {
                lemma_standard_header(e, "v1"@, "Service"@, c.name + "-mc"@);
            }
        } else if i == 7 {
            if let JsonView::Object(e) = docs[i] {
                lemma_standard_header(e, "v1"@, "Service"@, c.name + "-rcon"@);
            }
        } else if i == 8 {
            if let JsonView::Object(e) = docs[i] {
                lemma_standard_header(e, "apps/v1"@, "Deployment"@, c.name + "-dashboard"@);
            }
        } else {
            if let JsonView::Object(e) = docs[i] {
                lemma_standard_header(e, "v1"@, "Service"@, c.name + "-dashboard"@);
            }
        }
    }
}

} // verus!
