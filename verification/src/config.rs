//! The server configuration: its defaults, its validation, and the
//! environment it gives the server container.

use vstd::prelude::*;

use crate::error::{config_error, outcome, AppError, AppErrorView};
use crate::text::{chars_eq, chars_of, decimal, lower, lower_range, owned, push_decimal, push_str};

verus! {

/// The password the server's RCON port is set up with.
pub const DEFAULT_RCON_PASSWORD: &'static str = "minecraft-k8s-rcon";

/// Supported mod loader backends for the Minecraft server container.
#[derive(Debug, Clone, Copy, PartialEq, Eq, Structural)]
pub enum ModLoader {
    Forge,
    Fabric,
    Quilt,
    Paper,
    Vanilla,
}

/// The value of the container's `TYPE` variable for a loader.
pub open spec fn loader_env(m: ModLoader) -> Seq<char> {
    match m {
        ModLoader::Forge => "FORGE"@,
        ModLoader::Fabric => "FABRIC"@,
        ModLoader::Quilt => "QUILT"@,
        ModLoader::Paper => "PAPER"@,
        ModLoader::Vanilla => "VANILLA"@,
    }
}

/// The loader a lowercase name stands for, if any.
pub open spec fn loader_named(name: Seq<char>) -> Option<ModLoader> {
    if name == "forge"@ {
        Some(ModLoader::Forge)
    } else if name == "fabric"@ {
        Some(ModLoader::Fabric)
    } else if name == "quilt"@ {
        Some(ModLoader::Quilt)
    } else if name == "paper"@ {
        Some(ModLoader::Paper)
    } else if name == "vanilla"@ {
        Some(ModLoader::Vanilla)
    } else {
        None
    }
}

/// What reading `s` as a loader name gives: the loader it names in any ASCII
/// case, or a configuration error quoting it in lowercase.
pub open spec fn loader_verdict(s: Seq<char>) -> Result<ModLoader, AppErrorView> {
    match loader_named(lower(s)) {
        Some(m) => Ok(m),
        None => Err(AppErrorView::Config("unknown mod loader: "@ + lower(s))),
    }
}

impl ModLoader {
    /// The value of the container's `TYPE` variable for this loader.
    pub fn as_env_value(self) -> (s: &'static str)
        ensures
            s@ == loader_env(self),
    {
        match self {
            ModLoader::Forge => "FORGE",
            ModLoader::Fabric => "FABRIC",
            ModLoader::Quilt => "QUILT",
            ModLoader::Paper => "PAPER",
            ModLoader::Vanilla => "VANILLA",
        }
    }

    /// Whether the loader runs mods.
    pub fn supports_mods(self) -> (b: bool)
        ensures
            b == (self == ModLoader::Forge || self == ModLoader::Fabric || self
                == ModLoader::Quilt),
    {
        match self {
            ModLoader::Forge | ModLoader::Fabric | ModLoader::Quilt => true,
            _ => false,
        }
    }

    /// Reads a loader name, in any ASCII case.
    pub fn parse(s: &str) -> (r: Result<ModLoader, AppError>)
        ensures
            outcome(r) == loader_verdict(s@),
    {
        let cs = chars_of(s);
        let low = lower_range(&cs, 0, cs.len());
        assert(cs@.subrange(0, cs@.len() as int) == cs@);
        if chars_eq(&low, &chars_of("forge")) {
            Ok(ModLoader::Forge)
        } else if chars_eq(&low, &chars_of("fabric")) {
            Ok(ModLoader::Fabric)
        } else if chars_eq(&low, &chars_of("quilt")) {
            Ok(ModLoader::Quilt)
        } else if chars_eq(&low, &chars_of("paper")) {
            Ok(ModLoader::Paper)
        } else if chars_eq(&low, &chars_of("vanilla")) {
            Ok(ModLoader::Vanilla)
        } else {
            let mut m = owned("unknown mod loader: ");
            let mut i: usize = 0;
            while i < low.len()
                invariant
                    i <= low@.len(),
                    m@ == "unknown mod loader: "@ + low@.subrange(0, i as int),
                decreases low@.len() - i,
            {
                crate::text::string_push(&mut m, low[i]);
                i = i + 1;
                assert(m@ =~= "unknown mod loader: "@ + low@.subrange(0, i as int));
            }
            assert(low@.subrange(0, low@.len() as int) == low@);
            Err(AppError::Config(m))
        }
    }
}

impl std::str::FromStr for ModLoader {
    type Err = AppError;

    /// Reads a loader name, in any ASCII case.
    fn from_str(s: &str) -> (r: Result<ModLoader, AppError>)
        ensures
            outcome(r) == loader_verdict(s@),
    {
        ModLoader::parse(s)
    }
}

/// An extra environment variable for the server container.
#[derive(Debug, Clone, PartialEq)]
pub struct EnvVar {
    pub name: String,
    pub value: String,
}

/// Top-level server configuration consumed by the CLI and manifest renderer.
#[derive(Debug, Clone, PartialEq)]
pub struct ServerConfig {
    pub name: String,
    pub namespace: String,
    pub minecraft_version: String,
    pub mod_loader: ModLoader,
    pub forge_version: Option<String>,
    pub memory: String,
    pub port: u16,
    pub replicas: u32,
    pub storage_size: String,
    pub eula: bool,
    pub max_players: u32,
    pub motd: String,
    pub image: String,
    pub image_tag: String,
    pub modpack_url: Option<String>,
    pub extra_env: Vec<EnvVar>,
}

/// A `ServerConfig` with its texts seen as character sequences.
pub struct ServerConfigView {
    pub name: Seq<char>,
    pub namespace: Seq<char>,
    pub minecraft_version: Seq<char>,
    pub mod_loader: ModLoader,
    pub forge_version: Option<Seq<char>>,
    pub memory: Seq<char>,
    pub port: u16,
    pub replicas: u32,
    pub storage_size: Seq<char>,
    pub eula: bool,
    pub max_players: u32,
    pub motd: Seq<char>,
    pub image: Seq<char>,
    pub image_tag: Seq<char>,
    pub modpack_url: Option<Seq<char>>,
    pub extra_env: Seq<(Seq<char>, Seq<char>)>,
}

/// An optional text seen as an optional character sequence.
pub open spec fn opt_text(o: Option<String>) -> Option<Seq<char>> {
    match o {
        Some(s) => Some(s@),
        None => None,
    }
}

/// A list of text pairs seen as pairs of character sequences.
pub open spec fn pairs_view(v: Seq<(String, String)>) -> Seq<(Seq<char>, Seq<char>)> {
    v.map_values(|p: (String, String)| (p.0@, p.1@))
}

impl View for ServerConfig {
    type V = ServerConfigView;

    open spec fn view(&self) -> ServerConfigView {
        ServerConfigView {
            name: self.name@,
            namespace: self.namespace@,
            minecraft_version: self.minecraft_version@,
            mod_loader: self.mod_loader,
            forge_version: opt_text(self.forge_version),
            memory: self.memory@,
            port: self.port,
            replicas: self.replicas,
            storage_size: self.storage_size@,
            eula: self.eula,
            max_players: self.max_players,
            motd: self.motd@,
            image: self.image@,
            image_tag: self.image_tag@,
            modpack_url: opt_text(self.modpack_url),
            extra_env: self.extra_env@.map_values(|e: EnvVar| (e.name@, e.value@)),
        }
    }
}

/// Default memory limit of the server.
pub fn default_memory() -> (s: String)
    ensures
        s@ == "4G"@,
{
    owned("4G")
}

/// Default game port.
pub fn default_port() -> (p: u16)
    ensures
        p == 25565,
{
    25565
}

/// Default number of replicas.
pub fn default_replicas() -> (n: u32)
    ensures
        n == 1,
{
    1
}

/// Default size of the world volume.
pub fn default_storage() -> (s: String)
    ensures
        s@ == "20Gi"@,
{
    owned("20Gi")
}

/// Default for flags that are on unless turned off.
pub fn default_true() -> (b: bool)
    ensures
        b,
{
    true
}

/// Default player limit.
pub fn default_max_players() -> (n: u32)
    ensures
        n == 20,
{
    20
}

/// Default message of the day.
pub fn default_motd() -> (s: String)
    ensures
        s@ == "Modded Minecraft on Kubernetes"@,
{
    owned("Modded Minecraft on Kubernetes")
}

/// Default server image.
pub fn default_image() -> (s: String)
    ensures
        s@ == "ghcr.io/brianlechthaler/minecraft-k8s-server"@,
{
    owned("ghcr.io/brianlechthaler/minecraft-k8s-server")
}

/// Default server image tag.
pub fn default_image_tag() -> (s: String)
    ensures
        s@ == "latest"@,
{
    owned("latest")
}

/// What validating a configuration gives: the first rule it breaks, in the
/// order below, or success.
pub open spec fn config_verdict(c: ServerConfigView) -> Result<(), AppErrorView> {
    if c.name.len() == 0 {
        Err(AppErrorView::Config("name must not be empty"@))
    } else if c.namespace.len() == 0 {
        Err(AppErrorView::Config("namespace must not be empty"@))
    } else if c.minecraft_version.len() == 0 {
        Err(AppErrorView::Config("minecraft_version must not be empty"@))
    } else if !c.eula {
        Err(AppErrorView::EulaNotAccepted)
    } else if c.replicas != 1 {
        Err(AppErrorView::Config("replicas must be 1 for stateful Minecraft servers"@))
    } else if c.port == 0 {
        Err(AppErrorView::Config("port must be greater than 0"@))
    } else if c.mod_loader == ModLoader::Forge && c.forge_version is None {
        Err(AppErrorView::Config("forge_version is required when mod_loader is forge"@))
    } else {
        Ok(())
    }
}

/// The fixed part of the container environment.
pub open spec fn base_env(c: ServerConfigView) -> Seq<(Seq<char>, Seq<char>)> {
    seq![
        ("EULA"@, "TRUE"@),
        ("TYPE"@, loader_env(c.mod_loader)),
        ("VERSION"@, c.minecraft_version),
        ("MEMORY"@, c.memory),
        ("MAX_PLAYERS"@, decimal(c.max_players as nat)),
        ("MOTD"@, c.motd),
        ("ENABLE_RCON"@, "true"@),
        ("RCON_PASSWORD"@, "minecraft-k8s-rcon"@),
        ("RCON_PORT"@, "25575"@),
        ("USE_AIKAR_FLAGS"@, "true"@),
        ("SYNC_SKIP_NEWER_IN_DESTINATION"@, "false"@),
    ]
}

/// A one-entry list when the value is present, an empty one otherwise.
pub open spec fn optional_entry(name: Seq<char>, value: Option<Seq<char>>) -> Seq<(Seq<char>, Seq<char>)> {
    match value {
        Some(v) => seq![(name, v)],
        None => seq![],
    }
}

/// The environment of the server container: the fixed variables, then the
/// Forge version and the modpack URL when set, then the extra variables in
/// their order.
pub open spec fn env_of(c: ServerConfigView) -> Seq<(Seq<char>, Seq<char>)> {
    base_env(c) + optional_entry("FORGE_VERSION"@, c.forge_version) + optional_entry(
        "MODPACK"@,
        c.modpack_url,
    ) + c.extra_env
}

/// Appends one environment entry.
fn push_pair(env: &mut Vec<(String, String)>, name: &str, value: String)
    ensures
        pairs_view(final(env)@) == pairs_view(old(env)@).push((name@, value@)),
{
    env.push((owned(name), value));
    assert(pairs_view(env@) =~= pairs_view(old(env)@).push((name@, value@)));
}

impl ServerConfig {
    /// A configuration naming only the required fields, every other field
    /// holding its default, as in a file that sets nothing else.
    pub fn new(name: &str, namespace: &str, minecraft_version: &str, mod_loader: ModLoader) -> (c:
        ServerConfig)
        ensures
            c@.name == name@,
            c@.namespace == namespace@,
            c@.minecraft_version == minecraft_version@,
            c@.mod_loader == mod_loader,
            c@.forge_version is None,
            c@.memory == "4G"@,
            c@.port == 25565,
            c@.replicas == 1,
            c@.storage_size == "20Gi"@,
            c@.eula,
            c@.max_players == 20,
            c@.motd == "Modded Minecraft on Kubernetes"@,
            c@.image == "ghcr.io/brianlechthaler/minecraft-k8s-server"@,
            c@.image_tag == "latest"@,
            c@.modpack_url is None,
            c@.extra_env.len() == 0,
    {
        ServerConfig {
            name: owned(name),
            namespace: owned(namespace),
            minecraft_version: owned(minecraft_version),
            mod_loader,
            forge_version: None,
            memory: default_memory(),
            port: default_port(),
            replicas: default_replicas(),
            storage_size: default_storage(),
            eula: default_true(),
            max_players: default_max_players(),
            motd: default_motd(),
            image: default_image(),
            image_tag: default_image_tag(),
            modpack_url: None,
            extra_env: Vec::new(),
        }
    }

    /// Checks the configuration against the rules of a deployable server.
    pub fn validate(&self) -> (r: Result<(), AppError>)
        ensures
            outcome(r) == config_verdict(self@),
    {
        if self.name.as_str().is_empty() {
            return Err(config_error("name must not be empty"));
        }
        if self.namespace.as_str().is_empty() {
            return Err(config_error("namespace must not be empty"));
        }
        if self.minecraft_version.as_str().is_empty() {
            return Err(config_error("minecraft_version must not be empty"));
        }
        if !self.eula {
            return Err(AppError::EulaNotAccepted);
        }
        if self.replicas != 1 {
            return Err(config_error("replicas must be 1 for stateful Minecraft servers"));
        }
        if self.port == 0 {
            return Err(config_error("port must be greater than 0"));
        }
        if self.mod_loader == ModLoader::Forge && self.forge_version.is_none() {
            return Err(config_error("forge_version is required when mod_loader is forge"));
        }
        Ok(())
    }

    /// The server image with its tag, `image:tag`.
    pub fn full_image(&self) -> (s: String)
        ensures
            s@ == self@.image + ":"@ + self@.image_tag,
    {
        let mut s = owned(self.image.as_str());
        push_str(&mut s, ":");
        push_str(&mut s, self.image_tag.as_str());
        s
    }

    /// The environment variables of the server container.
    pub fn container_env(&self) -> (env: Vec<(String, String)>)
        ensures
            pairs_view(env@) == env_of(self@),
    {
        let mut env: Vec<(String, String)> = Vec::new();
        push_pair(&mut env, "EULA", owned("TRUE"));
        push_pair(&mut env, "TYPE", owned(self.mod_loader.as_env_value()));
        push_pair(&mut env, "VERSION", self.minecraft_version.clone());
        push_pair(&mut env, "MEMORY", self.memory.clone());
        let mut players = String::new();
        push_decimal(&mut players, self.max_players as u64);
        assert(players@ =~= decimal(self.max_players as nat));
        push_pair(&mut env, "MAX_PLAYERS", players);
        push_pair(&mut env, "MOTD", self.motd.clone());
        push_pair(&mut env, "ENABLE_RCON", owned("true"));
        push_pair(&mut env, "RCON_PASSWORD", owned(DEFAULT_RCON_PASSWORD));
        push_pair(&mut env, "RCON_PORT", owned("25575"));
        push_pair(&mut env, "USE_AIKAR_FLAGS", owned("true"));
        push_pair(&mut env, "SYNC_SKIP_NEWER_IN_DESTINATION", owned("false"));
        assert(pairs_view(env@) =~= base_env(self@));
        if let Some(forge) = &self.forge_version {
            push_pair(&mut env, "FORGE_VERSION", forge.clone());
        }
        assert(pairs_view(env@) =~= base_env(self@) + optional_entry(
            "FORGE_VERSION"@,
            self@.forge_version,
        ));
        if let Some(url) = &self.modpack_url {
            push_pair(&mut env, "MODPACK", url.clone());
        }
        let ghost head = pairs_view(env@);
        assert(head =~= base_env(self@) + optional_entry("FORGE_VERSION"@, self@.forge_version)
            + optional_entry("MODPACK"@, self@.modpack_url));
        let mut i: usize = 0;
        while i < self.extra_env.len()
            invariant
                i <= self@.extra_env.len(),
                self@.extra_env.len() == self.extra_env@.len(),
                pairs_view(env@) == head + self@.extra_env.subrange(0, i as int),
            decreases self.extra_env@.len() - i,
        {
            let extra = &self.extra_env[i];
            let ghost before = pairs_view(env@);
            env.push((extra.name.clone(), extra.value.clone()));
            assert(pairs_view(env@) =~= before.push((extra.name@, extra.value@)));
            i = i + 1;
            assert(pairs_view(env@) =~= head + self@.extra_env.subrange(0, i as int));
        }
        assert(self@.extra_env.subrange(0, i as int) =~= self@.extra_env);
        env
    }
}

/// Law: a configuration that names a server, its namespace and its game
/// version, and leaves every other field at its default, is valid unless it
/// runs Forge without a Forge version.
pub proof fn lemma_defaults_are_valid(c: ServerConfigView)
    requires
        c.name.len() > 0,
        c.namespace.len() > 0,
        c.minecraft_version.len() > 0,
        c.port == 25565,
        c.replicas == 1,
        c.eula,
    ensures
        config_verdict(c) is Ok <==> (c.mod_loader != ModLoader::Forge || c.forge_version is Some),
{
}

/// Law: the name a loader gives the container's `TYPE` variable reads back
/// as that loader.
pub proof fn lemma_env_value_parses_back(m: ModLoader)
    ensures
        loader_verdict(loader_env(m)) == Ok::<ModLoader, AppErrorView>(m),
{
    reveal_strlit("FORGE");
    reveal_strlit("FABRIC");
    reveal_strlit("QUILT");
    reveal_strlit("PAPER");
    reveal_strlit("VANILLA");
    reveal_strlit("forge");
    reveal_strlit("fabric");
    reveal_strlit("quilt");
    reveal_strlit("paper");
    reveal_strlit("vanilla");
    assert(lower("FORGE"@) =~= "forge"@);
    assert(lower("FABRIC"@) =~= "fabric"@);
    assert(lower("QUILT"@) =~= "quilt"@);
    assert(lower("PAPER"@) =~= "paper"@);
    assert(lower("VANILLA"@) =~= "vanilla"@);
    assert("forge"@ != "fabric"@);
    assert("forge"@ != "quilt"@) by {
        assert("forge"@[0] != "quilt"@[0]);
    }
    assert("forge"@ != "paper"@) by {
        assert("forge"@[0] != "paper"@[0]);
    }
    assert("forge"@ != "vanilla"@);
    assert("fabric"@ != "quilt"@);
    assert("fabric"@ != "paper"@);
    assert("fabric"@ != "vanilla"@);
    assert("quilt"@ != "paper"@) by {
        assert("quilt"@[0] != "paper"@[0]);
    }
    assert("quilt"@ != "vanilla"@);
    assert("paper"@ != "vanilla"@);
}

/// Law: the server container's environment starts with the fixed entries,
/// carrying the configured values: `EULA=TRUE`, then `TYPE`, then `VERSION`
/// the Minecraft version, `MEMORY` the configured memory, `MAX_PLAYERS` the
/// decimal player limit and `MOTD` the message of the day; the configured
/// extra variables come last, in their order.
pub proof fn lemma_env_carries_config(c: ServerConfigView)
    ensures
        env_of(c).len() >= 11 + c.extra_env.len(),
        env_of(c)[0] == ("EULA"@, "TRUE"@),
        env_of(c)[1].0 == "TYPE"@,
        env_of(c)[2] == ("VERSION"@, c.minecraft_version),
        env_of(c)[3] == ("MEMORY"@, c.memory),
        env_of(c)[4] == ("MAX_PLAYERS"@, decimal(c.max_players as nat)),
        env_of(c)[5] == ("MOTD"@, c.motd),
        env_of(c).subrange(env_of(c).len() - c.extra_env.len(), env_of(c).len() as int) == c.extra_env,
{
    let e = env_of(c);
    let head = base_env(c) + optional_entry("FORGE_VERSION"@, c.forge_version) + optional_entry(
        "MODPACK"@,
        c.modpack_url,
    );
    assert(e == head + c.extra_env);
    assert(e.subrange(head.len() as int, e.len() as int) =~= c.extra_env);
}

/// Law: a configuration is valid exactly when it names a server, its
/// namespace and its game version, accepts the EULA, runs one replica on a
/// non-zero port, and gives a Forge version when it runs Forge.  A
/// configuration that names all three but refuses the EULA is refused for
/// the EULA; each other broken rule gives a configuration error.
pub proof fn lemma_validity(c: ServerConfigView)
    ensures
        config_verdict(c) is Ok <==> (c.name.len() > 0 && c.namespace.len() > 0
            && c.minecraft_version.len() > 0 && c.eula && c.replicas == 1 && c.port != 0 && !(
        c.mod_loader == ModLoader::Forge && c.forge_version is None)),
        c.name.len() > 0 && c.namespace.len() > 0 && c.minecraft_version.len() > 0 && !c.eula
            ==> config_verdict(c) == Err::<(), AppErrorView>(AppErrorView::EulaNotAccepted),
        c.eula && (c.name.len() == 0 || c.namespace.len() == 0 || c.minecraft_version.len() == 0
            || c.replicas != 1 || c.port == 0 || (c.mod_loader == ModLoader::Forge
            && c.forge_version is None)) ==> config_verdict(c) matches Err(AppErrorView::Config(_)),
{
}

} // verus!
