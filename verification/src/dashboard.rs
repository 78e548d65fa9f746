//! The web dashboard's decisions: which console commands it lets through,
//! and how it assembles the server status from its probes.

use std::sync::Arc;
use std::time::Duration;

use vstd::prelude::*;

use crate::error::{dashboard_error, AppError, AppErrorView};
use crate::rcon::{parse_player_list, player_list};
use crate::text::{
    chars_eq, chars_of, is_whitespace, is_ws, lower, lower_range, owned, push_range, push_str,
    trim, trim_range, trim_start,
};

verus! {

/// std's `Clone` for `Duration`, which the type derives alongside `Copy`:
/// claimed to give back an equal duration.
pub assume_specification[<std::time::Duration as std::clone::Clone>::clone](d: &std::time::Duration) -> (r: std::time::Duration)
    ensures
        r == *d,
;

/// Runtime configuration for the web dashboard.
#[derive(Debug, Clone)]
pub struct DashboardConfig {
    pub bind_host: String,
    pub bind_port: u16,
    pub minecraft_host: String,
    pub minecraft_port: u16,
    pub rcon_host: String,
    pub rcon_port: u16,
    pub rcon_password: String,
    pub max_players: u32,
    pub motd: String,
    pub probe_timeout: Duration,
}

/// The state shared by the dashboard's request handlers.
#[derive(Clone)]
pub struct AppState {
    pub config: Arc<DashboardConfig>,
}

/// The server status reported by the dashboard.
#[derive(Debug, PartialEq, Eq)]
pub struct StatusResponse {
    pub online: bool,
    pub players: Vec<String>,
    pub player_count: usize,
    pub max_players: u32,
    pub motd: String,
    pub rcon_available: bool,
}

/// A console command sent to the dashboard.
#[derive(Debug, PartialEq, Eq)]
pub struct CommandRequest {
    pub command: String,
}

/// The server's answer to a console command.
#[derive(Debug, PartialEq, Eq)]
pub struct CommandResponse {
    pub output: String,
}

/// The characters of `t` up to its first whitespace.
pub open spec fn word_prefix(t: Seq<char>) -> Seq<char>
    decreases t.len(),
{
    if t.len() == 0 || is_ws(t[0]) {
        seq![]
    } else {
        seq![t[0]] + word_prefix(t.drop_first())
    }
}

/// The first whitespace-separated word of `s`, empty when there is none.
pub open spec fn first_word(s: Seq<char>) -> Seq<char> {
    word_prefix(trim_start(s))
}

/// Whether a console command may be run from the dashboard: its first word,
/// in any ASCII case, is one of the allowed commands.
pub open spec fn allowed_command(s: Seq<char>) -> bool {
    let head = lower(first_word(s));
    ||| head == "list"@
    ||| head == "say"@
    ||| head == "stop"@
    ||| head == "save-all"@
    ||| head == "whitelist"@
    ||| head == "kick"@
    ||| head == "ban"@
}

/// Whether a console command may be run from the dashboard.
pub fn is_allowed_command(command: &str) -> (b: bool)
    ensures
        b == allowed_command(command@),
{
    let cs = chars_of(command);
    let n = cs.len();
    let mut i: usize = 0;
    assert(cs@.subrange(0, n as int) =~= cs@);
    while i < n && is_whitespace(cs[i])
        invariant
            i <= n == cs@.len(),
            trim_start(cs@) == trim_start(cs@.subrange(i as int, n as int)),
        decreases n - i,
    {
        assert(cs@.subrange(i as int, n as int).drop_first() == cs@.subrange(i + 1, n as int));
        i = i + 1;
    }
    assert(trim_start(cs@) == cs@.subrange(i as int, n as int));
    let mut j = i;
    while j < n && !is_whitespace(cs[j])
        invariant
            i <= j <= n == cs@.len(),
            word_prefix(cs@.subrange(i as int, n as int)) == cs@.subrange(i as int, j as int)
                + word_prefix(cs@.subrange(j as int, n as int)),
        decreases n - j,
    {
        assert(cs@.subrange(j as int, n as int).drop_first() == cs@.subrange(j + 1, n as int));
        assert(cs@.subrange(i as int, j + 1) =~= cs@.subrange(i as int, j as int) + seq![cs@[j as int]]);
        j = j + 1;
    }
    assert(word_prefix(cs@.subrange(j as int, n as int)) =~= Seq::<char>::empty());
    assert(cs@.subrange(i as int, j as int) + Seq::<char>::empty() =~= cs@.subrange(i as int, j as int));
    let head = lower_range(&cs, i, j);
    chars_eq(&head, &chars_of("list")) || chars_eq(&head, &chars_of("say")) || chars_eq(
        &head,
        &chars_of("stop"),
    ) || chars_eq(&head, &chars_of("save-all")) || chars_eq(&head, &chars_of("whitelist"))
        || chars_eq(&head, &chars_of("kick")) || chars_eq(&head, &chars_of("ban"))
}

/// An RCON command to run for the dashboard: where to connect and what to send.
#[derive(Debug)]
pub struct RconCall {
    pub host: String,
    pub port: u16,
    pub password: String,
    pub timeout: Duration,
    pub command: String,
}

/// What a console command sent to the dashboard is answered before anything
/// is sent: the trimmed command when it is allowed, else why not.
pub open spec fn command_verdict(command: Seq<char>) -> Result<Seq<char>, AppErrorView> {
    let c = trim(command);
    if c.len() == 0 {
        Err(AppErrorView::Dashboard("command must not be empty"@))
    } else if !allowed_command(c) {
        Err(AppErrorView::Dashboard("command not allowed: "@ + c))
    } else {
        Ok(c)
    }
}

/// Decides whether a console command may run, and if so the RCON call that
/// runs it: the trimmed command, sent to the configured RCON endpoint.
pub fn execute_command(config: &DashboardConfig, command: &str) -> (r: Result<RconCall, AppError>)
    ensures
        match command_verdict(command@) {
            Ok(c) => r matches Ok(call) && call.command@ == c && call.host@ == config.rcon_host@
                && call.port == config.rcon_port && call.password@ == config.rcon_password@
                && call.timeout == config.probe_timeout,
            Err(e) => r matches Err(x) && x@ == e,
        },
{
    let cs = chars_of(command);
    let (a, b) = trim_range(&cs, 0, cs.len());
    assert(cs@.subrange(0, cs@.len() as int) =~= cs@);
    let mut trimmed = String::new();
    push_range(&mut trimmed, &cs, a, b);
    assert(trimmed@ =~= trim(command@));
    if a == b {
        return Err(dashboard_error("command must not be empty"));
    }
    if !is_allowed_command(trimmed.as_str()) {
        let mut m = owned("command not allowed: ");
        push_str(&mut m, trimmed.as_str());
        return Err(AppError::Dashboard(m));
    }
    Ok(RconCall {
        host: config.rcon_host.clone(),
        port: config.rcon_port,
        password: config.rcon_password.clone(),
        timeout: config.probe_timeout,
        command: trimmed,
    })
}

/// The step a status collection waits for.
#[derive(Debug, Clone, Copy, PartialEq, Eq, Structural)]
pub enum StatusStep {
    /// Check whether the game port accepts connections.
    CheckPort,
    /// Log in to the RCON port.
    ConnectRcon,
    /// Run `list` over RCON.
    ListPlayers,
    /// Nothing more to ask: the status can be reported.
    Report,
}

/// A status collection in progress: what has been learned, and the step it
/// waits for.  RCON is only tried once the game port answers, and the player
/// list only read once RCON is logged in.
pub struct StatusCollector {
    pub online: bool,
    pub rcon_available: bool,
    pub players: Vec<String>,
    pub step: StatusStep,
}

/// The names as character sequences.
pub open spec fn names_view(v: Seq<String>) -> Seq<Seq<char>> {
    v.map_values(|n: String| n@)
}

impl StatusCollector {
    /// The collector's invariant: RCON counts as available only for an
    /// online server, players are only known through RCON, and each step is
    /// reached only by the answers that lead to it.
    pub open spec fn wf(&self) -> bool {
        &&& self.rcon_available ==> self.online
        &&& self.players@.len() > 0 ==> self.rcon_available
        &&& self.step == StatusStep::CheckPort ==> !self.online && !self.rcon_available
        &&& self.step == StatusStep::ConnectRcon ==> self.online && !self.rcon_available
        &&& self.step == StatusStep::ListPlayers ==> self.rcon_available && self.players@.len() == 0
    }

    /// A collection that has learned nothing and first checks the game port.
    pub fn new() -> (c: StatusCollector)
        ensures
            c.wf(),
            c.step == StatusStep::CheckPort,
            !c.online,
            !c.rcon_available,
            c.players@.len() == 0,
    {
        StatusCollector {
            online: false,
            rcon_available: false,
            players: Vec::new(),
            step: StatusStep::CheckPort,
        }
    }

    /// Takes the outcome of the game-port check: the server is online when
    /// the port accepted the connection, and RCON is tried next only then.
    /// Outside the port-check step nothing changes.
    pub fn port_checked(&mut self, check: &Result<bool, AppError>)
        requires
            old(self).wf(),
        ensures
            final(self).wf(),
            old(self).step != StatusStep::CheckPort ==> *final(self) == *old(self),
            old(self).step == StatusStep::CheckPort ==> {
                let online = check matches Ok(true);
                &&& final(self).online == online
                &&& final(self).rcon_available == old(self).rcon_available
                &&& final(self).players == old(self).players
                &&& final(self).step == if online {
                    StatusStep::ConnectRcon
                } else {
                    StatusStep::Report
                }
            },
    {
        if self.step != StatusStep::CheckPort {
            return;
        }
        let online = match check {
            Ok(true) => true,
            _ => false,
        };
        self.online = online;
        self.step = if online {
            StatusStep::ConnectRcon
        } else {
            StatusStep::Report
        };
    }

    /// Takes whether the RCON login succeeded; the player list is read next
    /// only then.  Outside the login step nothing changes.
    pub fn rcon_connected(&mut self, connected: bool)
        requires
            old(self).wf(),
        ensures
            final(self).wf(),
            old(self).step != StatusStep::ConnectRcon ==> *final(self) == *old(self),
            old(self).step == StatusStep::ConnectRcon ==> {
                &&& final(self).online == old(self).online
                &&& final(self).rcon_available == connected
                &&& final(self).players == old(self).players
                &&& final(self).step == if connected {
                    StatusStep::ListPlayers
                } else {
                    StatusStep::Report
                }
            },
    {
        if self.step != StatusStep::ConnectRcon {
            return;
        }
        self.rcon_available = connected;
        self.step = if connected {
            StatusStep::ListPlayers
        } else {
            StatusStep::Report
        };
    }

    /// Takes the reply to `list`: the players named in it, or none when the
    /// command failed.  Outside the listing step nothing changes.
    pub fn players_listed(&mut self, reply: &Result<String, AppError>)
        requires
            old(self).wf(),
        ensures
            final(self).wf(),
            old(self).step != StatusStep::ListPlayers ==> *final(self) == *old(self),
            old(self).step == StatusStep::ListPlayers ==> {
                &&& final(self).online == old(self).online
                &&& final(self).rcon_available == old(self).rcon_available
                &&& names_view(final(self).players@) == match reply {
                    Ok(text) => player_list(text@),
                    Err(_) => Seq::<Seq<char>>::empty(),
                }
                &&& final(self).step == StatusStep::Report
            },
    {
        if self.step != StatusStep::ListPlayers {
            return;
        }
        match reply {
            Ok(text) => {
                self.players = parse_player_list(text.as_str());
            },
            Err(_) => {
                assert(names_view(self.players@) =~= Seq::<Seq<char>>::empty());
            },
        }
        self.step = StatusStep::Report;
    }
}

fn copy_names(v: &Vec<String>) -> (out: Vec<String>)
    ensures
        names_view(out@) == names_view(v@),
{
    let mut out: Vec<String> = Vec::new();
    let mut i: usize = 0;
    while i < v.len()
        invariant
            i <= v@.len(),
            names_view(out@) == names_view(v@.subrange(0, i as int)),
        decreases v@.len() - i,
    {
        let ghost before = names_view(out@);
        out.push(owned(v[i].as_str()));
        assert(names_view(out@) =~= before.push(v@[i as int]@));
        assert(names_view(v@.subrange(0, i + 1)) =~= names_view(v@.subrange(0, i as int)).push(
            v@[i as int]@,
        ));
        i = i + 1;
    }
    assert(v@.subrange(0, v@.len() as int) =~= v@);
    out
}

/// The status the dashboard reports from what a collection learned.
pub fn collect_status(config: &DashboardConfig, collector: &StatusCollector) -> (s: StatusResponse)
    requires
        collector.wf(),
    ensures
        s.online == collector.online,
        s.rcon_available == collector.rcon_available,
        names_view(s.players@) == names_view(collector.players@),
        s.player_count == s.players@.len(),
        s.max_players == config.max_players,
        s.motd@ == config.motd@,
        s.rcon_available ==> s.online,
        s.player_count > 0 ==> s.rcon_available,
{
    let players = copy_names(&collector.players);
    let count = players.len();
    assert(names_view(players@).len() == players@.len());
    assert(names_view(collector.players@).len() == collector.players@.len());
    StatusResponse {
        online: collector.online,
        players,
        player_count: count,
        max_players: config.max_players,
        motd: owned(config.motd.as_str()),
        rcon_available: collector.rcon_available,
    }
}

proof fn lemma_trim_start_lower(s: Seq<char>)
    ensures
        trim_start(lower(s)) == lower(trim_start(s)),
    decreases s.len(),
{
    if s.len() > 0 {
        assert(lower(s)[0] == crate::text::ascii_lower(s[0]));
        assert(lower(s).drop_first() =~= lower(s.drop_first()));
        lemma_trim_start_lower(s.drop_first());
    } else {
        assert(lower(s) =~= s);
    }
}

proof fn lemma_word_prefix_lower(t: Seq<char>)
    ensures
        word_prefix(lower(t)) == lower(word_prefix(t)),
    decreases t.len(),
{
    if t.len() > 0 {
        assert(lower(t)[0] == crate::text::ascii_lower(t[0]));
        assert(lower(t).drop_first() =~= lower(t.drop_first()));
        lemma_word_prefix_lower(t.drop_first());
        if !is_ws(t[0]) {
            assert(lower(seq![t[0]] + word_prefix(t.drop_first())) =~= seq![crate::text::ascii_lower(t[0])]
                + lower(word_prefix(t.drop_first())));
        } else {
            assert(lower(Seq::<char>::empty()) =~= Seq::<char>::empty());
        }
    } else {
        assert(lower(t) =~= t);
        assert(lower(Seq::<char>::empty()) =~= Seq::<char>::empty());
    }
}

/// Law: the allowlist ignores ASCII case: a command is allowed exactly when
/// its lowercase form is.
pub proof fn lemma_allowlist_ignores_case(s: Seq<char>)
    ensures
        allowed_command(lower(s)) == allowed_command(s),
{
    lemma_trim_start_lower(s);
    lemma_word_prefix_lower(trim_start(s));
    let w = first_word(s);
    assert(lower(lower(w)) =~= lower(w));
}

/// Lemma: a word of lowercase ASCII letters and `-`, followed by nothing or
/// by whitespace, is the first word, and is its own lowercase form.
proof fn lemma_leading_word(w: Seq<char>, rest: Seq<char>)
    requires
        w.len() > 0,
        forall|i: int| 0 <= i < w.len() ==> ('a' <= #[trigger] w[i] <= 'z' || w[i] == '-'),
        rest.len() == 0 || is_ws(rest[0]),
    ensures
        first_word(w + rest) == w,
        lower(w) == w,
{
    let s = w + rest;
    assert(!is_ws(s[0])) by {
        assert(s[0] == w[0]);
    }
    assert(trim_start(s) == s);
    lemma_word_prefix_of(w, rest);
    assert(lower(w) =~= w);
}

/// Lemma: `word_prefix` stops at the end of a word without whitespace.
proof fn lemma_word_prefix_of(w: Seq<char>, rest: Seq<char>)
    requires
        forall|i: int| 0 <= i < w.len() ==> ('a' <= #[trigger] w[i] <= 'z' || w[i] == '-'),
        rest.len() == 0 || is_ws(rest[0]),
    ensures
        word_prefix(w + rest) == w,
    decreases w.len(),
{
    let s = w + rest;
    if w.len() == 0 {
        assert(s =~= rest);
    } else {
        assert(s[0] == w[0]);
        assert(s.drop_first() =~= w.drop_first() + rest);
        lemma_word_prefix_of(w.drop_first(), rest);
        assert(w =~= seq![w[0]] + w.drop_first());
    }
}

/// Law: the dashboard runs exactly the console commands `list`, `say`,
/// `stop`, `save-all`, `whitelist`, `kick` and `ban`, given alone or followed
/// by a space and anything, and refuses others such as `op`.
pub proof fn lemma_allowed_commands(r: Seq<char>)
    ensures
        allowed_command("list"@),
        allowed_command("say"@),
        allowed_command("stop"@),
        allowed_command("save-all"@),
        allowed_command("whitelist"@),
        allowed_command("kick"@),
        allowed_command("ban"@),
        allowed_command("list"@ + seq![' '] + r),
        allowed_command("say"@ + seq![' '] + r),
        allowed_command("stop"@ + seq![' '] + r),
        allowed_command("save-all"@ + seq![' '] + r),
        allowed_command("whitelist"@ + seq![' '] + r),
        allowed_command("kick"@ + seq![' '] + r),
        allowed_command("ban"@ + seq![' '] + r),
        !allowed_command("op"@ + seq![' '] + r),
        !allowed_command("deop"@ + seq![' '] + r),
{
    reveal_strlit("list");
    reveal_strlit("say");
    reveal_strlit("stop");
    reveal_strlit("save-all");
    reveal_strlit("whitelist");
    reveal_strlit("kick");
    reveal_strlit("ban");
    reveal_strlit("op");
    reveal_strlit("deop");
    let words = seq!["list"@, "say"@, "stop"@, "save-all"@, "whitelist"@, "kick"@, "ban"@, "op"@, "deop"@];
    let sp = seq![' '];
    assert(is_ws(' '));
    assert forall|k: int| 0 <= k < words.len() implies first_word(#[trigger] words[k]) == words[k] && first_word(
        words[k] + sp + r,
    ) == words[k] && lower(words[k]) == words[k] by {
        let w = words[k];
        assert(w.len() > 0);
        assert forall|i: int| 0 <= i < w.len() implies ('a' <= #[trigger] w[i] <= 'z' || w[i] == '-') by {}
        lemma_leading_word(w, Seq::empty());
        assert(w + Seq::<char>::empty() =~= w);
        lemma_leading_word(w, sp + r);
        assert(w + sp + r =~= w + (sp + r));
    }
    assert(words[0] == "list"@);
    assert(words[1] == "say"@);
    assert(words[2] == "stop"@);
    assert(words[3] == "save-all"@);
    assert(words[4] == "whitelist"@);
    assert(words[5] == "kick"@);
    assert(words[6] == "ban"@);
    assert(words[7] == "op"@);
    assert(words[8] == "deop"@);
    assert("op"@.len() == 2 && "deop"@.len() == 4);
    assert("say"@.len() == 3 && "ban"@.len() == 3);
    assert("list"@.len() == 4 && "stop"@.len() == 4 && "kick"@.len() == 4);
    assert("deop"@[0] != "list"@[0] && "deop"@[0] != "stop"@[0] && "deop"@[0] != "kick"@[0]);
    assert("save-all"@.len() == 8 && "whitelist"@.len() == 9);
}

} // verus!
