//! How the documents of a server's manifests refer to one another (the names
//! one resource declares are the names the others use to reach it), and how
//! the manifest check answers a file of them.

use vstd::prelude::*;

use crate::config::{config_verdict, ServerConfigView};
use crate::error::AppErrorView;
use crate::json::{at_path, field_of, item_of, lemma_lookup_at, texts_view, JsonView};
use crate::k8s::{
    all_docs, claim_doc, claim_volume, dashboard_args, dashboard_container, dashboard_deployment_doc,
    dashboard_service_doc, deployment_doc, deployment_env, game_service_doc, ja, jo, js,
    labels_for, labels_json, lemma_rendered_headers_accepted, meta, rcon_secret_doc,
    rcon_service_doc, secret_env, server_container, server_labels, service_doc,
};
use crate::manifest::{
    doc_accepted, header_of, lemma_docs_accepted, manifest_verdict, yaml_value, HeaderView,
};
use crate::text::{
    decimal, find_from, is_ws, lemma_find_from, lemma_trim, lemma_trim_nonblank, split_from,
    split_on, trim,
};

verus! {

/// Lemma: the keys that the documents' lookups pass over differ from the
/// keys looked up.
proof fn lemma_keys_differ()
    ensures
        "apiVersion"@ != "kind"@,
        "apiVersion"@ != "metadata"@,
        "kind"@ != "metadata"@,
        "apiVersion"@ != "spec"@,
        "kind"@ != "spec"@,
        "metadata"@ != "spec"@,
        "apiVersion"@ != "type"@,
        "kind"@ != "type"@,
        "metadata"@ != "type"@,
        "apiVersion"@ != "stringData"@,
        "kind"@ != "stringData"@,
        "metadata"@ != "stringData"@,
        "type"@ != "stringData"@,
        "name"@ != "namespace"@,
        "name"@ != "labels"@,
        "namespace"@ != "labels"@,
        "accessModes"@ != "resources"@,
        "replicas"@ != "selector"@,
        "strategy"@ != "selector"@,
        "replicas"@ != "template"@,
        "strategy"@ != "template"@,
        "selector"@ != "template"@,
        "securityContext"@ != "containers"@,
        "securityContext"@ != "volumes"@,
        "containers"@ != "volumes"@,
        "name"@ != "persistentVolumeClaim"@,
        "name"@ != "env"@,
        "image"@ != "env"@,
        "imagePullPolicy"@ != "env"@,
        "ports"@ != "env"@,
        "name"@ != "args"@,
        "image"@ != "args"@,
        "imagePullPolicy"@ != "args"@,
        "name"@ != "valueFrom"@,
        "name"@ != "key"@,
        "type"@ != "ports"@,
        "selector"@ != "ports"@,
        "name"@ != "port"@,
        "type"@ != "selector"@,
{
    reveal_strlit("apiVersion");
    reveal_strlit("kind");
    reveal_strlit("metadata");
    reveal_strlit("spec");
    reveal_strlit("type");
    reveal_strlit("stringData");
    reveal_strlit("name");
    reveal_strlit("namespace");
    reveal_strlit("labels");
    reveal_strlit("accessModes");
    reveal_strlit("resources");
    reveal_strlit("replicas");
    reveal_strlit("strategy");
    reveal_strlit("selector");
    reveal_strlit("template");
    reveal_strlit("securityContext");
    reveal_strlit("containers");
    reveal_strlit("volumes");
    reveal_strlit("persistentVolumeClaim");
    reveal_strlit("env");
    reveal_strlit("image");
    reveal_strlit("imagePullPolicy");
    reveal_strlit("ports");
    reveal_strlit("args");
    reveal_strlit("valueFrom");
    reveal_strlit("key");
    reveal_strlit("port");
    assert("apiVersion"@.len() == 10);
    assert("kind"@.len() == 4);
    assert("metadata"@.len() == 8);
    assert("spec"@.len() == 4);
    assert("type"@.len() == 4);
    assert("stringData"@.len() == 10);
    assert("name"@.len() == 4);
    assert("namespace"@.len() == 9);
    assert("labels"@.len() == 6);
    assert("accessModes"@.len() == 11);
    assert("resources"@.len() == 9);
    assert("securityContext"@.len() == 15);
    assert("containers"@.len() == 10);
    assert("volumes"@.len() == 7);
    assert("persistentVolumeClaim"@.len() == 21);
    assert("env"@.len() == 3);
    assert("image"@.len() == 5);
    assert("imagePullPolicy"@.len() == 15);
    assert("ports"@.len() == 5);
    assert("args"@.len() == 4);
    assert("valueFrom"@.len() == 9);
    assert("key"@.len() == 3);
    assert("port"@.len() == 4);
    assert("selector"@.len() == 8);
    assert("name"@[0] != "args"@[0]);
    assert("name"@[0] != "port"@[0]);
    assert("kind"@[0] != "spec"@[0]);
    assert("kind"@[0] != "type"@[0]);
    assert("apiVersion"@[0] != "stringData"@[0]);
    assert("replicas"@[0] != "selector"@[0]);
    assert("strategy"@[1] != "selector"@[1]);
    assert("replicas"@[0] != "template"@[0]);
    assert("strategy"@[0] != "template"@[0]);
    assert("selector"@[0] != "template"@[0]);
}

/// Lemma: the fields of resource metadata.
proof fn lemma_meta_fields(name: Seq<char>, namespace: Seq<char>, labels: Seq<(Seq<char>, Seq<char>)>)
    ensures
        field_of(meta(name, namespace, labels), "name"@) == Some(js(name)),
        field_of(meta(name, namespace, labels), "namespace"@) == Some(js(namespace)),
        field_of(meta(name, namespace, labels), "labels"@) == Some(labels_json(labels)),
{
    lemma_keys_differ();
    let e = seq![("name"@, js(name)), ("namespace"@, js(namespace)), ("labels"@, labels_json(labels))];
    lemma_lookup_at(e, "name"@, 0);
    lemma_lookup_at(e, "namespace"@, 1);
    lemma_lookup_at(e, "labels"@, 2);
}

/// Lemma: the fields of a document that opens with its API version, its
/// kind, its metadata and its spec.
proof fn lemma_doc_fields(e: Seq<(Seq<char>, JsonView)>)
    requires
        e.len() >= 4,
        e[0].0 == "apiVersion"@,
        e[1].0 == "kind"@,
        e[2].0 == "metadata"@,
        e[3].0 == "spec"@,
    ensures
        field_of(jo(e), "kind"@) == Some(e[1].1),
        field_of(jo(e), "metadata"@) == Some(e[2].1),
        field_of(jo(e), "spec"@) == Some(e[3].1),
{
    lemma_keys_differ();
    lemma_lookup_at(e, "kind"@, 1);
    lemma_lookup_at(e, "metadata"@, 2);
    lemma_lookup_at(e, "spec"@, 3);
}

/// Law: the world-data claim is the one the server's deployment mounts.  The
/// claim is a `PersistentVolumeClaim` named `<name>-data` in the server's
/// namespace, with the server's labels, access mode `ReadWriteOnce` and the
/// configured storage size; the deployment's first volume is named `data`
/// and claims exactly the claim's name.
pub proof fn lemma_data_claim_is_mounted(c: ServerConfigView)
    ensures
        ({
            let pvc = claim_doc(c, c.name + "-data"@, c.storage_size);
            let volumes = at_path(deployment_doc(c), seq!["spec"@, "template"@, "spec"@, "volumes"@]);
            &&& at_path(pvc, seq!["kind"@]) == Some(js("PersistentVolumeClaim"@))
            &&& at_path(pvc, seq!["metadata"@, "name"@]) == Some(js(c.name + "-data"@))
            &&& at_path(pvc, seq!["metadata"@, "namespace"@]) == Some(js(c.namespace))
            &&& at_path(pvc, seq!["metadata"@, "labels"@]) == Some(labels_json(server_labels(c)))
            &&& at_path(pvc, seq!["spec"@, "accessModes"@]) == Some(ja(seq![js("ReadWriteOnce"@)]))
            &&& at_path(pvc, seq!["spec"@, "resources"@, "requests"@, "storage"@]) == Some(js(c.storage_size))
            &&& volumes matches Some(vs) && item_of(vs, 0) matches Some(v)
                && field_of(v, "name"@) == Some(js("data"@))
                && at_path(v, seq!["persistentVolumeClaim"@, "claimName"@])
                    == at_path(pvc, seq!["metadata"@, "name"@])
        }),
{
    lemma_keys_differ();
    reveal_with_fuel(at_path, 5);
    let name = c.name + "-data"@;
    let pvc = claim_doc(c, name, c.storage_size);
    let m = meta(name, c.namespace, server_labels(c));
    lemma_meta_fields(name, c.namespace, server_labels(c));
    if let JsonView::Object(e) = pvc {
        lemma_doc_fields(e);
    }
    let pvc_spec = jo(
        seq![
            ("accessModes"@, ja(seq![js("ReadWriteOnce"@)])),
            ("resources"@, jo(seq![("requests"@, jo(seq![("storage"@, js(c.storage_size))]))])),
        ],
    );
    if let JsonView::Object(e) = pvc_spec {
        lemma_lookup_at(e, "accessModes"@, 0);
        lemma_lookup_at(e, "resources"@, 1);
    }
    assert(field_of(pvc, "spec"@) == Some(pvc_spec));
    let dep = deployment_doc(c);
    if let JsonView::Object(e) = dep {
        lemma_doc_fields(e);
        if let JsonView::Object(s) = e[3].1 {
            lemma_lookup_at(s, "template"@, 3);
            if let JsonView::Object(t) = s[3].1 {
                lemma_lookup_at(t, "spec"@, 1);
                if let JsonView::Object(p) = t[1].1 {
                    lemma_lookup_at(p, "volumes"@, 2);
                }
            }
        }
    }
    let v = claim_volume("data"@, name);
    if let JsonView::Object(e) = v {
        lemma_lookup_at(e, "name"@, 0);
        lemma_lookup_at(e, "persistentVolumeClaim"@, 1);
    }
}

/// The path from a deployment document to its pod's containers.
pub open spec fn containers_path() -> Seq<Seq<char>> {
    seq!["spec"@, "template"@, "spec"@, "containers"@]
}

/// Lemma: the server deployment's pod runs the server container alone.
proof fn lemma_server_containers(c: ServerConfigView)
    ensures
        at_path(deployment_doc(c), containers_path()) == Some(ja(seq![server_container(c)])),
{
    lemma_keys_differ();
    reveal_with_fuel(at_path, 5);
    if let JsonView::Object(e) = deployment_doc(c) {
        lemma_doc_fields(e);
        if let JsonView::Object(s) = e[3].1 {
            lemma_lookup_at(s, "template"@, 3);
            if let JsonView::Object(t) = s[3].1 {
                lemma_lookup_at(t, "spec"@, 1);
                if let JsonView::Object(p) = t[1].1 {
                    lemma_lookup_at(p, "containers"@, 1);
                }
            }
        }
    }
}

/// Lemma: the dashboard deployment's pod runs the dashboard container alone.
proof fn lemma_dashboard_containers(c: ServerConfigView)
    ensures
        at_path(dashboard_deployment_doc(c), containers_path()) == Some(ja(seq![dashboard_container(c)])),
        at_path(dashboard_container(c), seq!["args"@]) == Some(ja(texts_view(dashboard_args(c)))),
{
    lemma_keys_differ();
    reveal_with_fuel(at_path, 5);
    if let JsonView::Object(e) = dashboard_deployment_doc(c) {
        lemma_doc_fields(e);
        if let JsonView::Object(s) = e[3].1 {
            lemma_lookup_at(s, "template"@, 2);
            if let JsonView::Object(t) = s[2].1 {
                lemma_lookup_at(t, "spec"@, 1);
                if let JsonView::Object(p) = t[1].1 {
                    lemma_lookup_at(p, "containers"@, 0);
                }
            }
        }
    }
    if let JsonView::Object(e) = dashboard_container(c) {
        lemma_lookup_at(e, "args"@, 3);
    }
}

/// Law: the RCON secret is where both deployments take the password from.
/// The secret is an `Opaque` `Secret` named `<name>-rcon` in the server's
/// namespace whose `stringData` holds the password under `password`; the
/// server container's last environment entry sets `RCON_PASSWORD` from the
/// key `password` of the secret of that very name; and the dashboard
/// container is started with `--rcon-password` followed by the same password.
pub proof fn lemma_rcon_secret_is_used(c: ServerConfigView)
    ensures
        ({
            let secret = rcon_secret_doc(c);
            let args = dashboard_args(c);
            &&& at_path(secret, seq!["kind"@]) == Some(js("Secret"@))
            &&& at_path(secret, seq!["type"@]) == Some(js("Opaque"@))
            &&& at_path(secret, seq!["metadata"@, "name"@]) == Some(js(c.name + "-rcon"@))
            &&& at_path(secret, seq!["metadata"@, "namespace"@]) == Some(js(c.namespace))
            &&& at_path(secret, seq!["stringData"@, "password"@]) == Some(js("minecraft-k8s-rcon"@))
            &&& at_path(deployment_doc(c), containers_path()) == Some(ja(seq![server_container(c)]))
            &&& at_path(server_container(c), seq!["env"@]) matches Some(JsonView::Array(env))
                && env.len() >= 1
                && at_path(env.last(), seq!["name"@]) == Some(js("RCON_PASSWORD"@))
                && at_path(env.last(), seq!["valueFrom"@, "secretKeyRef"@, "name"@])
                    == at_path(secret, seq!["metadata"@, "name"@])
                && at_path(env.last(), seq!["valueFrom"@, "secretKeyRef"@, "key"@]) == Some(js("password"@))
            &&& at_path(dashboard_deployment_doc(c), containers_path()) == Some(ja(seq![dashboard_container(c)]))
            &&& at_path(dashboard_container(c), seq!["args"@]) == Some(ja(texts_view(args)))
            &&& args[13] == "--rcon-password"@
            &&& at_path(secret, seq!["stringData"@, "password"@]) == Some(js(args[14]))
        }),
{
    lemma_keys_differ();
    reveal_with_fuel(at_path, 5);
    lemma_server_containers(c);
    lemma_dashboard_containers(c);
    let name = c.name + "-rcon"@;
    let secret = rcon_secret_doc(c);
    lemma_meta_fields(name, c.namespace, server_labels(c));
    if let JsonView::Object(e) = secret {
        lemma_lookup_at(e, "kind"@, 1);
        lemma_lookup_at(e, "metadata"@, 2);
        lemma_lookup_at(e, "type"@, 3);
        lemma_lookup_at(e, "stringData"@, 4);
        if let JsonView::Object(d) = e[4].1 {
            lemma_lookup_at(d, "password"@, 0);
        }
    }
    if let JsonView::Object(e) = server_container(c) {
        lemma_lookup_at(e, "env"@, 4);
    }
    let env = deployment_env(c);
    assert(env.last() == secret_env(c));
    if let JsonView::Object(e) = secret_env(c) {
        lemma_lookup_at(e, "name"@, 0);
        lemma_lookup_at(e, "valueFrom"@, 1);
        if let JsonView::Object(v) = e[1].1 {
            lemma_lookup_at(v, "secretKeyRef"@, 0);
            if let JsonView::Object(r) = v[0].1 {
                lemma_lookup_at(r, "name"@, 0);
                lemma_lookup_at(r, "key"@, 1);
            }
        }
    }
}

/// The host name under which the service `service` of the namespace
/// `namespace` is reached inside the cluster.
pub open spec fn cluster_host(service: Seq<char>, namespace: Seq<char>) -> Seq<char> {
    service + "."@ + namespace + ".svc.cluster.local"@
}

/// The port of a service document's first port entry.
pub open spec fn service_port(svc: JsonView) -> Option<JsonView> {
    match at_path(svc, seq!["spec"@, "ports"@]) {
        Some(ports) => match item_of(ports, 0) {
            Some(p) => field_of(p, "port"@),
            None => None,
        },
        None => None,
    }
}

/// The path from a deployment document to its pod's labels.
pub open spec fn pod_labels_path() -> Seq<Seq<char>> {
    seq!["spec"@, "template"@, "metadata"@, "labels"@]
}

/// Lemma: the name, namespace, port and selector of a service document.
proof fn lemma_service_fields(
    c: ServerConfigView,
    name: Seq<char>,
    labels: Seq<(Seq<char>, Seq<char>)>,
    service_type: Seq<char>,
    selected: Seq<char>,
    port_name: Seq<char>,
    port: int,
)
    ensures
        ({
            let svc = service_doc(c, name, labels, service_type, selected, port_name, port);
            &&& at_path(svc, seq!["metadata"@, "name"@]) == Some(js(name))
            &&& at_path(svc, seq!["metadata"@, "namespace"@]) == Some(js(c.namespace))
            &&& service_port(svc) == Some(JsonView::Int(port))
            &&& at_path(svc, seq!["spec"@, "selector"@]) == Some(
                jo(seq![("app.kubernetes.io/name"@, js(selected))]),
            )
        }),
{
    lemma_keys_differ();
    reveal_with_fuel(at_path, 3);
    lemma_meta_fields(name, c.namespace, labels);
    let svc = service_doc(c, name, labels, service_type, selected, port_name, port);
    if let JsonView::Object(e) = svc {
        lemma_doc_fields(e);
        if let JsonView::Object(s) = e[3].1 {
            lemma_lookup_at(s, "ports"@, 2);
            lemma_lookup_at(s, "selector"@, 1);
            if let JsonView::Array(ps) = s[2].1 {
                if let JsonView::Object(p) = ps[0] {
                    lemma_lookup_at(p, "port"@, 1);
                }
            }
        }
    }
}

/// Lemma: the labels of a resource name its application.
proof fn lemma_app_label_json(app: Seq<char>, component: Seq<char>)
    ensures
        field_of(labels_json(labels_for(app, component)), "app.kubernetes.io/name"@) == Some(js(app)),
{
    reveal_strlit("app.kubernetes.io/name");
    reveal_strlit("app.kubernetes.io/component");
    reveal_strlit("app.kubernetes.io/managed-by");
    let l = labels_for(app, component);
    let e = l.map_values(|p: (Seq<char>, Seq<char>)| (p.0, js(p.1)));
    assert(e[0].0[18] != "app.kubernetes.io/name"@[18]);
    assert(e[1].0[18] != "app.kubernetes.io/name"@[18]);
    lemma_lookup_at(e, "app.kubernetes.io/name"@, 2);
}

/// Law: the dashboard is pointed at the server's own services, and its
/// deployment selects its own pods.  The dashboard container is started with
/// `--minecraft-host` followed by the in-cluster host of the game service
/// (the service's name and namespace), `--minecraft-port` followed by the
/// decimal port that service exposes, `--rcon-host` followed by the host of
/// the RCON service and `--rcon-port` followed by that service's decimal
/// port; every
/// label the deployment's selector matches is set, with the same value, on
/// the pods its template makes.
pub proof fn lemma_dashboard_reaches_services(c: ServerConfigView)
    ensures
        ({
            let args = dashboard_args(c);
            let game = game_service_doc(c);
            let rcon = rcon_service_doc(c);
            let dash = dashboard_deployment_doc(c);
            &&& at_path(dash, containers_path()) == Some(ja(seq![dashboard_container(c)]))
            &&& at_path(dashboard_container(c), seq!["args"@]) == Some(ja(texts_view(args)))
            &&& at_path(game, seq!["metadata"@, "name"@]) == Some(js(c.name + "-mc"@))
            &&& at_path(game, seq!["metadata"@, "namespace"@]) == Some(js(c.namespace))
            &&& args[5] == "--minecraft-host"@
            &&& args[6] == cluster_host(c.name + "-mc"@, c.namespace)
            &&& args[7] == "--minecraft-port"@
            &&& service_port(game) == Some(JsonView::Int(c.port as int))
            &&& args[8] == decimal(c.port as nat)
            &&& at_path(rcon, seq!["metadata"@, "name"@]) == Some(js(c.name + "-rcon"@))
            &&& at_path(rcon, seq!["metadata"@, "namespace"@]) == Some(js(c.namespace))
            &&& args[9] == "--rcon-host"@
            &&& args[10] == cluster_host(c.name + "-rcon"@, c.namespace)
            &&& args[11] == "--rcon-port"@
            &&& service_port(rcon) == Some(JsonView::Int(25575))
            &&& args[12] == decimal(25575)
            &&& at_path(dash, seq!["spec"@, "selector"@, "matchLabels"@]) matches Some(JsonView::Object(ml))
                && ml.len() >= 1
                && forall|i: int|
                    0 <= i < ml.len() ==> at_path(dash, #[trigger] pod_labels_path().push(ml[i].0)) == Some(
                        ml[i].1,
                    )
        }),
{
    lemma_keys_differ();
    reveal_with_fuel(at_path, 6);
    lemma_dashboard_containers(c);
    lemma_service_fields(
        c,
        c.name + "-mc"@,
        server_labels(c),
        "LoadBalancer"@,
        c.name,
        "minecraft"@,
        c.port as int,
    );
    lemma_service_fields(c, c.name + "-rcon"@, server_labels(c), "ClusterIP"@, c.name, "rcon"@, 25575);
    assert(decimal(25575) == "25575"@) by {
        reveal_strlit("25575");
        reveal_with_fuel(decimal, 6);
        assert(decimal(2) == seq!['2']);
        assert(decimal(25) == seq!['2', '5']);
        assert(decimal(255) == seq!['2', '5', '5']);
        assert(decimal(2557) == seq!['2', '5', '5', '7']);
        assert(decimal(25575) =~= seq!['2', '5', '5', '7', '5']);
    }
    let app = c.name + "-dashboard"@;
    lemma_app_label_json(app, "dashboard"@);
    let dash = dashboard_deployment_doc(c);
    if let JsonView::Object(e) = dash {
        lemma_doc_fields(e);
        if let JsonView::Object(s) = e[3].1 {
            lemma_lookup_at(s, "selector"@, 1);
            lemma_lookup_at(s, "template"@, 2);
            if let JsonView::Object(sel) = s[1].1 {
                lemma_lookup_at(sel, "matchLabels"@, 0);
                if let JsonView::Object(ml) = sel[0].1 {
                    assert forall|i: int|
                        0 <= i < ml.len() implies at_path(dash, #[trigger] pod_labels_path().push(ml[i].0))
                        == Some(ml[i].1) by {
                        if let JsonView::Object(t) = s[2].1 {
                            lemma_lookup_at(t, "metadata"@, 0);
                            if let JsonView::Object(m) = t[0].1 {
                                lemma_lookup_at(m, "labels"@, 0);
                            }
                        }
                        assert(i == 0);
                    }
                }
            }
        }
    }
}

/// Whether every label that the service document `svc` selects on is set,
/// with the same value, on the pods that the deployment document `dep` makes.
pub open spec fn selects_pods_of(svc: JsonView, dep: JsonView) -> bool {
    at_path(svc, seq!["spec"@, "selector"@]) matches Some(JsonView::Object(sel)) && sel.len() >= 1
        && forall|i: int|
        0 <= i < sel.len() ==> at_path(dep, #[trigger] pod_labels_path().push(sel[i].0)) == Some(sel[i].1)
}

/// Lemma: a service selecting the application `app` selects the pods of a
/// deployment whose template carries the labels of `app`.
proof fn lemma_selects(svc: JsonView, dep: JsonView, app: Seq<char>, component: Seq<char>)
    requires
        at_path(svc, seq!["spec"@, "selector"@]) == Some(jo(seq![("app.kubernetes.io/name"@, js(app))])),
        at_path(dep, pod_labels_path()) == Some(labels_json(labels_for(app, component))),
    ensures
        selects_pods_of(svc, dep),
{
    reveal_with_fuel(at_path, 6);
    lemma_app_label_json(app, component);
    let p = pod_labels_path();
    let q = p.push("app.kubernetes.io/name"@);
    assert(q.drop_first() == p.drop_first().push("app.kubernetes.io/name"@));
    assert(q.drop_first().drop_first() == p.drop_first().drop_first().push("app.kubernetes.io/name"@));
    assert(q.drop_first().drop_first().drop_first() == p.drop_first().drop_first().drop_first().push(
        "app.kubernetes.io/name"@,
    ));
    assert(p.drop_first().drop_first().drop_first().drop_first().len() == 0);
}

/// Lemma: the selector of a service document, and the labels of the pods a
/// deployment document makes.
proof fn lemma_selector_and_pod_labels(c: ServerConfigView)
    ensures
        at_path(game_service_doc(c), seq!["spec"@, "selector"@]) == Some(
            jo(seq![("app.kubernetes.io/name"@, js(c.name))]),
        ),
        at_path(rcon_service_doc(c), seq!["spec"@, "selector"@]) == Some(
            jo(seq![("app.kubernetes.io/name"@, js(c.name))]),
        ),
        at_path(dashboard_service_doc(c), seq!["spec"@, "selector"@]) == Some(
            jo(seq![("app.kubernetes.io/name"@, js(c.name + "-dashboard"@))]),
        ),
        at_path(deployment_doc(c), pod_labels_path()) == Some(labels_json(server_labels(c))),
        at_path(dashboard_deployment_doc(c), pod_labels_path()) == Some(
            labels_json(labels_for(c.name + "-dashboard"@, "dashboard"@)),
        ),
{
    lemma_keys_differ();
    reveal_with_fuel(at_path, 5);
    lemma_service_fields(
        c,
        c.name + "-mc"@,
        server_labels(c),
        "LoadBalancer"@,
        c.name,
        "minecraft"@,
        c.port as int,
    );
    lemma_service_fields(c, c.name + "-rcon"@, server_labels(c), "ClusterIP"@, c.name, "rcon"@, 25575);
    lemma_service_fields(
        c,
        c.name + "-dashboard"@,
        labels_for(c.name + "-dashboard"@, "dashboard"@),
        "ClusterIP"@,
        c.name + "-dashboard"@,
        "http"@,
        8080,
    );
    if let JsonView::Object(e) = deployment_doc(c) {
        lemma_doc_fields(e);
        if let JsonView::Object(s) = e[3].1 {
            lemma_lookup_at(s, "template"@, 3);
            if let JsonView::Object(t) = s[3].1 {
                lemma_lookup_at(t, "metadata"@, 0);
                if let JsonView::Object(m) = t[0].1 {
                    lemma_lookup_at(m, "labels"@, 0);
                }
            }
        }
    }
    if let JsonView::Object(e) = dashboard_deployment_doc(c) {
        lemma_doc_fields(e);
        if let JsonView::Object(s) = e[3].1 {
            lemma_lookup_at(s, "template"@, 2);
            if let JsonView::Object(t) = s[2].1 {
                lemma_lookup_at(t, "metadata"@, 0);
                if let JsonView::Object(m) = t[0].1 {
                    lemma_lookup_at(m, "labels"@, 0);
                }
            }
        }
    }
}

/// Law: each service reaches the pods it is meant for.  The game service and
/// the RCON service select the pods of the server's deployment, and the
/// dashboard's service those of the dashboard's deployment: every label a
/// service selects on is set, with the same value, on those pods.
pub proof fn lemma_services_select_their_pods(c: ServerConfigView)
    ensures
        selects_pods_of(game_service_doc(c), deployment_doc(c)),
        selects_pods_of(rcon_service_doc(c), deployment_doc(c)),
        selects_pods_of(dashboard_service_doc(c), dashboard_deployment_doc(c)),
{
    lemma_selector_and_pod_labels(c);
    lemma_selects(game_service_doc(c), deployment_doc(c), c.name, "minecraft-server"@);
    lemma_selects(rcon_service_doc(c), deployment_doc(c), c.name, "minecraft-server"@);
    lemma_selects(
        dashboard_service_doc(c),
        dashboard_deployment_doc(c),
        c.name + "-dashboard"@,
        "dashboard"@,
    );
}

/// Whether the document text `d`, trimmed, reads as a value that declares
/// the header `h`.
pub open spec fn reads_with_header(d: Seq<char>, h: HeaderView) -> bool {
    match yaml_value(trim(d)) {
        Some(v) => header_of(v) == h,
        None => false,
    }
}

/// Law: a manifest file whose documents read back with the headers of the
/// documents rendered for a valid configuration passes the manifest check,
/// with every document counted.  What is assumed is only what `serde_yaml`
/// is relied on for: that each piece of the file between `\n---`
/// separators is not blank and reads as a value with the `apiVersion`,
/// `kind` and `metadata.name` of the rendered document in its place.
pub proof fn lemma_rendered_manifest_accepted(c: ServerConfigView, content: Seq<char>)
    requires
        config_verdict(c) is Ok,
        split_on(content, "\n---"@).len() == all_docs(c).len(),
        forall|i: int|
            0 <= i < all_docs(c).len() ==> trim(#[trigger] split_on(content, "\n---"@)[i]).len() > 0
                && reads_with_header(split_on(content, "\n---"@)[i], header_of(all_docs(c)[i])),
    ensures
        manifest_verdict(content) == Ok::<nat, AppErrorView>(all_docs(c).len()),
{
    let pieces = split_on(content, "\n---"@);
    lemma_rendered_headers_accepted(c);
    assert forall|i: int| 0 <= i < pieces.len() implies doc_accepted(#[trigger] pieces[i]) by {
        assert(reads_with_header(pieces[i], header_of(all_docs(c)[i])));
    }
    lemma_docs_accepted(pieces, 0);
    // The first piece is a prefix of the file and is not blank, so neither is the file.
    reveal_strlit("\n---");
    assert("\n---"@.len() == 4);
    let first = pieces[0];
    let m: int = match find_from(content, "\n---"@, 0) {
        None => content.len() as int,
        Some(i) => i,
    };
    assert(0 <= m <= content.len() && first == content.subrange(0, m)) by {
        lemma_find_from(content, "\n---"@, 0);
        match find_from(content, "\n---"@, 0) {
            None => {},
            Some(i) => {
                if 0 <= i && i + 4 <= content.len() {
                    assert(split_from(content, "\n---"@, 0)[0] == content.subrange(0, i));
                }
            },
        }
    }
    lemma_trim(first);
    let (a, b) = choose|a: int, b: int| 0 <= a <= b <= first.len() && trim(first) == first.subrange(a, b);
    assert(!is_ws(content[a]));
    lemma_trim_nonblank(content, a);
}

/// Law: the server's probes check the game port it is configured with.  The
/// pod runs the server container alone; its readiness and liveness probes
/// both run `minecraft-k8s probe --port` with the decimal configured port,
/// the port the container exposes as `minecraft` and the game service
/// serves.
pub proof fn lemma_probes_check_game_port(c: ServerConfigView)
    ensures
        at_path(deployment_doc(c), containers_path()) == Some(ja(seq![server_container(c)])),
        at_path(server_container(c), seq!["readinessProbe"@, "exec"@, "command"@]) == Some(
            ja(
                seq![
                    js("/usr/local/bin/minecraft-k8s"@),
                    js("probe"@),
                    js("--port"@),
                    js(decimal(c.port as nat)),
                ],
            ),
        ),
        at_path(server_container(c), seq!["livenessProbe"@, "exec"@, "command"@]) == Some(
            ja(
                seq![
                    js("/usr/local/bin/minecraft-k8s"@),
                    js("probe"@),
                    js("--port"@),
                    js(decimal(c.port as nat)),
                ],
            ),
        ),
        at_path(server_container(c), seq!["ports"@]) matches Some(ps) && item_of(ps, 0) matches Some(p)
            && field_of(p, "name"@) == Some(js("minecraft"@))
            && field_of(p, "containerPort"@) == Some(JsonView::Int(c.port as int)),
        service_port(game_service_doc(c)) == Some(JsonView::Int(c.port as int)),
{
    lemma_keys_differ();
    reveal_strlit("readinessProbe");
    reveal_strlit("livenessProbe");
    reveal_strlit("resources");
    reveal_strlit("volumeMounts");
    reveal_strlit("name");
    reveal_strlit("image");
    reveal_strlit("imagePullPolicy");
    reveal_strlit("ports");
    reveal_strlit("env");
    reveal_strlit("containerPort");
    assert("readinessProbe"@.len() == 14);
    assert("livenessProbe"@.len() == 13);
    assert("resources"@.len() == 9);
    assert("volumeMounts"@.len() == 12);
    assert("name"@.len() == 4);
    assert("image"@.len() == 5);
    assert("imagePullPolicy"@.len() == 15);
    assert("ports"@.len() == 5);
    assert("env"@.len() == 3);
    assert("containerPort"@.len() == 13);
    assert("ports"@[0] != "image"@[0]);
    reveal_with_fuel(at_path, 5);
    lemma_server_containers(c);
    lemma_service_fields(
        c,
        c.name + "-mc"@,
        server_labels(c),
        "LoadBalancer"@,
        c.name,
        "minecraft"@,
        c.port as int,
    );
    if let JsonView::Object(e) = server_container(c) {
        lemma_lookup_at(e, "ports"@, 3);
        lemma_lookup_at(e, "readinessProbe"@, 7);
        lemma_lookup_at(e, "livenessProbe"@, 8);
        if let JsonView::Array(ps) = e[3].1 {
            if let JsonView::Object(p) = ps[0] {
                lemma_lookup_at(p, "name"@, 0);
                lemma_lookup_at(p, "containerPort"@, 1);
            }
        }
        if let JsonView::Object(r) = e[7].1 {
            lemma_lookup_at(r, "exec"@, 0);
            if let JsonView::Object(x) = r[0].1 {
                lemma_lookup_at(x, "command"@, 0);
            }
        }
        if let JsonView::Object(r) = e[8].1 {
            lemma_lookup_at(r, "exec"@, 0);
            if let JsonView::Object(x) = r[0].1 {
                lemma_lookup_at(x, "command"@, 0);
            }
        }
    }
}

} // verus!
