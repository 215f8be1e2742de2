//! Launch orchestration: the command that starts the game through the
//! runner, and the session that tracks the running game.

use vstd::prelude::*;
use crate::error::ErrorCode;
use crate::paths::{join_of, join_path};
use crate::presets::{is_warhammer3_preset, DefaultGameInfo};
use crate::provision::UmuAvailability;
use crate::text::{chars_of, str_eq};

verus! {

/// A character of the Unicode White_Space property, as `char::is_whitespace`
/// documents it.
pub open spec fn is_white_space(c: char) -> bool {
    let v = c as u32;
    (0x9 <= v <= 0xD) || v == 0x20 || v == 0x85 || v == 0xA0 || v == 0x1680 || (0x2000 <= v <= 0x200A)
        || v == 0x2028 || v == 0x2029 || v == 0x202F || v == 0x205F || v == 0x3000
}

/// `s` without its leading white space.
pub open spec fn trim_start_of(s: Seq<char>) -> Seq<char>
    decreases s.len(),
{
    if s.len() > 0 && is_white_space(s[0]) {
        trim_start_of(s.drop_first())
    } else {
        s
    }
}

/// `s` without its trailing white space.
pub open spec fn trim_end_of(s: Seq<char>) -> Seq<char>
    decreases s.len(),
{
    if s.len() > 0 && is_white_space(s.last()) {
        trim_end_of(s.drop_last())
    } else {
        s
    }
}

/// `s` without leading and trailing white space.
pub open spec fn trim_of(s: Seq<char>) -> Seq<char> {
    trim_end_of(trim_start_of(s))
}

fn white_space(c: char) -> (r: bool)
    ensures
        r == is_white_space(c),
{
    let v = c as u32;
    (0x9 <= v && v <= 0xD) || v == 0x20 || v == 0x85 || v == 0xA0 || v == 0x1680 || (0x2000 <= v && v <= 0x200A)
        || v == 0x2028 || v == 0x2029 || v == 0x202F || v == 0x205F || v == 0x3000
}

/// `s` with leading and trailing white space removed.
pub fn trim(s: &str) -> (r: String)
    ensures
        r@ == trim_of(s@),
{
    let cs = chars_of(s);
    let n = cs.len();
    let mut a: usize = 0;
    assert(s@.subrange(0, n as int) == s@);
    while a < n && white_space(cs[a])
        invariant
            a <= n,
            cs@ == s@,
            n == s@.len(),
            trim_start_of(s@) == trim_start_of(s@.subrange(a as int, n as int)),
        decreases n - a,
    {
        assert(s@.subrange(a as int, n as int).drop_first() == s@.subrange(a + 1, n as int));
        a = a + 1;
    }
    let mut b: usize = n;
    assert(trim_start_of(s@.subrange(a as int, n as int)) == s@.subrange(a as int, n as int));
    while b > a && white_space(cs[b - 1])
        invariant
            a <= b <= n,
            cs@ == s@,
            n == s@.len(),
            trim_of(s@) == trim_end_of(s@.subrange(a as int, b as int)),
        decreases b,
    {
        assert(s@.subrange(a as int, b as int).drop_last() == s@.subrange(a as int, b - 1));
        b = b - 1;
    }
    assert(trim_end_of(s@.subrange(a as int, b as int)) == s@.subrange(a as int, b as int));
    String::from_str(s.substring_char(a, b))
}

/// A process invocation, for the caller to spawn.
#[derive(Clone, Debug)]
pub struct LaunchCommand {
    pub program: String,
    pub args: Vec<String>,
    pub current_dir: Option<String>,
    pub env: Vec<(String, String)>,
}

/// The launcher variants.
#[derive(Clone, Copy, Debug, PartialEq, Eq, Structural)]
pub enum LauncherKind {
    /// Runs the game binary directly; not implemented on any platform.
    Native,
    /// Runs the game through the provisioned runner.
    CompatibilityLayer,
}

/// The compatibility prefix of a game: where it is, and the tool version
/// recorded in it, as read from its version file.
#[derive(Clone, Debug)]
pub struct CompatPrefix {
    pub path: String,
    pub version_text: String,
}

/// The name of the load-order artifact, as passed to the runner.
pub open spec fn load_order_arg() -> Seq<char> {
    "used_mods.txt;"@
}

/// `c` lies on a path: some component of `p` is exactly `c`.
pub open spec fn has_component(p: Seq<char>, c: Seq<char>) -> bool {
    exists|i: int| #[trigger] component_at(p, c, i)
}

/// The component of `p` that starts at `i` is exactly `c`.
pub open spec fn component_at(p: Seq<char>, c: Seq<char>, i: int) -> bool {
    0 <= i && i + c.len() <= p.len() && p.subrange(i, i + c.len()) == c && (i == 0 || p[i - 1] == '/')
        && (i + c.len() == p.len() || p[i + c.len()] == '/')
}

/// Whether the game sits in a tree that a compatibility prefix manages.
pub fn needs_compat_prefix(game_path: &str) -> (r: bool)
    ensures
        r == has_component(game_path@, "Steam"@),
{
    let cs = chars_of(game_path);
    let n = cs.len();
    let target = "Steam";
    let m = target.unicode_len();
    proof {
        reveal_strlit("Steam");
    }
    if m > n {
        assert forall|j: int| !#[trigger] component_at(game_path@, target@, j) by {}
        return false;
    }
    let mut i: usize = 0;
    while i <= n - m
        invariant
            n == game_path@.len(),
            cs@ == game_path@,
            m == target@.len(),
            target@ == "Steam"@,
            m == 5,
            m <= n,
            i <= n - m + 1,
            forall|j: int| 0 <= j < i ==> !#[trigger] component_at(game_path@, target@, j),
        decreases n - m + 1 - i,
    {
        let starts = i == 0 || cs[i - 1] == '/';
        let ends = i + m == n || cs[i + m] == '/';
        if starts && ends && str_eq(game_path.substring_char(i, i + m), target) {
            assert(component_at(game_path@, target@, i as int));
            assert(target@ == "Steam"@);
            return true;
        }
        i = i + 1;
    }
    assert forall|j: int| !#[trigger] component_at(game_path@, target@, j) by {
        if 0 <= j < i {
        }
    }
    false
}

/// The compatibility prefix directory of a game under a Steam root.
pub fn wine_prefix_path(steam_root: &str, game_id: &str) -> (r: String)
    ensures
        r@ == join_of(join_of(steam_root@, "steamapps/compatdata"@), game_id@),
{
    let base = join_path(steam_root, "steamapps/compatdata");
    join_path(base.as_str(), game_id)
}

/// The roaming data directory of a game inside its compatibility prefix,
/// under which its saves are kept.
pub fn retrieve_saves_absolute_path(steam_root: &str, game_id: &str) -> (r: String)
    ensures
        r@ == join_of(join_of(join_of(steam_root@, "steamapps/compatdata"@), game_id@), "pfx/drive_c/users/steamuser/AppData/Roaming"@),
{
    let pfx = wine_prefix_path(steam_root, game_id);
    join_path(pfx.as_str(), "pfx/drive_c/users/steamuser/AppData/Roaming")
}

/// The workshop directory of a game under a Steam root.
pub fn retrieve_steam_workshop_path(steam_root: &str, game_id: &str) -> (r: String)
    ensures
        r@ == join_of(join_of(steam_root@, "steamapps/workshop/content"@), game_id@),
{
    let base = join_path(steam_root, "steamapps/workshop/content");
    join_path(base.as_str(), game_id)
}

/// The base invocation of the runner: the runner on the search path, or the
/// local runner script through the Python interpreter.
pub fn generate_umu_command(availability: UmuAvailability, runner_path: &str) -> (r: Result<LaunchCommand, ErrorCode>)
    ensures
        match availability {
            UmuAvailability::Global => r matches Ok(c) && c.program@ == "umu-run"@ && c.args.len() == 0 && c.env.len() == 0
                && c.current_dir is None,
            UmuAvailability::Local => r matches Ok(c) && c.program@ == "python"@ && c.args.len() == 1 && c.args[0]@ == runner_path@
                && c.env.len() == 0 && c.current_dir is None,
            UmuAvailability::NotAvailable => r == Err::<LaunchCommand, ErrorCode>(ErrorCode::ExternalToolError),
        },
{
    match availability {
        UmuAvailability::Global => Ok(LaunchCommand {
            program: String::from_str("umu-run"),
            args: Vec::new(),
            current_dir: None,
            env: Vec::new(),
        }),
        UmuAvailability::Local => {
            let mut args: Vec<String> = Vec::new();
            args.push(String::from_str(runner_path));
            Ok(LaunchCommand { program: String::from_str("python"), args, current_dir: None, env: Vec::new() })
        },
        UmuAvailability::NotAvailable => Err(ErrorCode::ExternalToolError),
    }
}

/// The environment a game gets inside its compatibility prefix.
pub open spec fn compat_env(prefix: CompatPrefix, game_id: Seq<char>, env: Seq<(String, String)>) -> bool {
    &&& env.len() == 3
    &&& env[0].0@ == "PROTONPATH"@ && env[0].1@ == trim_of(prefix.version_text@)
    &&& env[1].0@ == "WINEPREFIX"@ && env[1].1@ == join_of(prefix.path@, "pfx/"@)
    &&& env[2].0@ == "SteamGameId"@ && env[2].1@ == game_id
}

/// The full invocation of the game from the runner's base invocation: run in
/// the game directory, with the prefix's environment when the game sits in a
/// prefix-managed tree, naming the game's executable and the load-order
/// artifact.
pub open spec fn launch_command_of(
    base: LaunchCommand,
    game_id: Seq<char>,
    game_path: Seq<char>,
    prefix: Option<CompatPrefix>,
    c: LaunchCommand,
) -> bool {
    &&& c.program == base.program
    &&& c.current_dir matches Some(d) && d@ == game_path
    &&& c.args.len() == base.args.len() + 2
    &&& forall|i: int| 0 <= i < base.args.len() ==> #[trigger] c.args[i] == base.args[i]
    &&& c.args[base.args.len() as int]@ == "Warhammer3.exe"@
    &&& c.args[base.args.len() + 1]@ == load_order_arg()
    &&& if has_component(game_path, "Steam"@) {
        prefix matches Some(p) && compat_env(p, game_id, c.env@.subrange(base.env.len() as int, c.env.len() as int))
            && c.env@.subrange(0, base.env.len() as int) == base.env@
    } else {
        c.env@ == base.env@
    }
}

/// Builds the invocation of the game. Fails with `InternalError` when the
/// game sits in a prefix-managed tree and no prefix is given, and with
/// `NotFound` when the game is not supported.
pub fn build_launch_command(
    base: LaunchCommand,
    game_id: &str,
    game_path: &str,
    prefix: Option<CompatPrefix>,
) -> (r: Result<LaunchCommand, ErrorCode>)
    ensures
        match r {
            Ok(c) => game_id@ == "1142710"@ && launch_command_of(base, game_id@, game_path@, prefix, c),
            Err(e) => (e == ErrorCode::InternalError && has_component(game_path@, "Steam"@) && prefix is None)
                || (e == ErrorCode::NotFound && game_id@ != "1142710"@ && !(has_component(game_path@, "Steam"@)
                && prefix is None)),
        },
{
    let ghost b = base;
    let mut command = base;
    command.current_dir = Some(String::from_str(game_path));
    if needs_compat_prefix(game_path) {
        let p = match prefix {
            Some(p) => p,
            None => return Err(ErrorCode::InternalError),
        };
        let ghost n0 = command.env@;
        command.env.push((String::from_str("PROTONPATH"), trim(p.version_text.as_str())));
        command.env.push((String::from_str("WINEPREFIX"), join_path(p.path.as_str(), "pfx/")));
        command.env.push((String::from_str("SteamGameId"), String::from_str(game_id)));
        assert(command.env@.subrange(0, n0.len() as int) == n0);
        assert(compat_env(p, game_id@, command.env@.subrange(n0.len() as int, command.env.len() as int)));
    }
    let preset = match DefaultGameInfo::find_by_id(game_id) {
        Some(g) => g,
        None => return Err(ErrorCode::NotFound),
    };
    command.args.push(preset.executable_name);
    command.args.push(String::from_str("used_mods.txt;"));
    Ok(command)
}

/// A process on the host, as the process table lists it.
#[derive(Clone, Debug)]
pub struct ProcessInfo {
    pub pid: u32,
    pub name: String,
}

/// The processes whose name is exactly `exe`, in listing order.
pub open spec fn matching_pids(procs: Seq<ProcessInfo>, exe: Seq<char>) -> Seq<u32>
    decreases procs.len(),
{
    if procs.len() == 0 {
        Seq::empty()
    } else {
        let r = matching_pids(procs.drop_last(), exe);
        if procs.last().name@ == exe {
            r.push(procs.last().pid)
        } else {
            r
        }
    }
}

/// The ids of every process named exactly `exe`: all of them are to be
/// signalled.
pub fn processes_to_kill(procs: &Vec<ProcessInfo>, exe: &str) -> (r: Vec<u32>)
    ensures
        r@ == matching_pids(procs@, exe@),
{
    let mut r: Vec<u32> = Vec::new();
    let mut i: usize = 0;
    while i < procs.len()
        invariant
            i <= procs.len(),
            r@ == matching_pids(procs@.subrange(0, i as int), exe@),
        decreases procs.len() - i,
    {
        assert(procs@.subrange(0, i + 1).drop_last() == procs@.subrange(0, i as int));
        if str_eq(procs[i].name.as_str(), exe) {
            r.push(procs[i].pid);
        }
        i = i + 1;
    }
    assert(procs@.subrange(0, procs.len() as int) == procs@);
    r
}

/// Whether the platform client must be started: no process of that name runs.
pub fn client_start_needed(procs: &Vec<ProcessInfo>, client: &str) -> (r: bool)
    ensures
        r == (matching_pids(procs@, client@).len() == 0),
{
    processes_to_kill(procs, client).len() == 0
}

/// Builds the invocation for a launcher variant; the native variant is not
/// implemented and fails with `ExternalToolError`.
pub fn build_command(
    kind: LauncherKind,
    base: LaunchCommand,
    game_id: &str,
    game_path: &str,
    prefix: Option<CompatPrefix>,
) -> (r: Result<LaunchCommand, ErrorCode>)
    ensures
        kind == LauncherKind::Native ==> r == Err::<LaunchCommand, ErrorCode>(ErrorCode::ExternalToolError),
        kind == LauncherKind::CompatibilityLayer ==> match r {
            Ok(c) => game_id@ == "1142710"@ && launch_command_of(base, game_id@, game_path@, prefix, c),
            Err(e) => (e == ErrorCode::InternalError && has_component(game_path@, "Steam"@) && prefix is None)
                || (e == ErrorCode::NotFound && game_id@ != "1142710"@ && !(has_component(game_path@, "Steam"@)
                && prefix is None)),
        },
{
    match kind {
        LauncherKind::Native => Err(ErrorCode::ExternalToolError),
        LauncherKind::CompatibilityLayer => build_launch_command(base, game_id, game_path, prefix),
    }
}

/// Where a launch stands.
#[derive(Clone, Copy, Debug, PartialEq, Eq, Structural)]
pub enum LaunchPhase {
    Idle,
    Launching,
    Running,
    Stopped,
}

/// Signals sent to the interface as a launch proceeds.
#[derive(Clone, Copy, Debug, PartialEq, Eq, Structural)]
pub enum LifecycleSignal {
    LaunchStarted,
    LaunchFailed,
    LaunchSucceeded,
    GameClosed,
}

/// The session context: the launch phase and the executable of the game
/// being watched, if any.
#[derive(Clone, Debug)]
pub struct GameSession {
    pub phase: LaunchPhase,
    pub running_exe: Option<String>,
}

impl GameSession {
    /// A session with nothing launched.
    pub fn new() -> (r: GameSession)
        ensures
            r.phase == LaunchPhase::Idle,
            r.running_exe is None,
    {
        GameSession { phase: LaunchPhase::Idle, running_exe: None }
    }

    /// Starts a launch. Fails with `Conflict`, changing nothing, while a
    /// launch is under way or a game is being watched.
    pub fn begin_launch(&mut self) -> (r: Result<LifecycleSignal, ErrorCode>)
        ensures
            (old(self).phase == LaunchPhase::Launching || old(self).running_exe is Some) ==> {
                &&& r == Err::<LifecycleSignal, ErrorCode>(ErrorCode::Conflict)
                &&& final(self).phase == old(self).phase
                &&& final(self).running_exe == old(self).running_exe
            },
            !(old(self).phase == LaunchPhase::Launching || old(self).running_exe is Some) ==> {
                &&& r == Ok::<LifecycleSignal, ErrorCode>(LifecycleSignal::LaunchStarted)
                &&& final(self).phase == LaunchPhase::Launching
                &&& final(self).running_exe is None
            },
    {
        let busy = match self.phase {
            LaunchPhase::Launching => true,
            _ => self.running_exe.is_some(),
        };
        if busy {
            return Err(ErrorCode::Conflict);
        }
        self.phase = LaunchPhase::Launching;
        Ok(LifecycleSignal::LaunchStarted)
    }

    /// Ends a launch with its outcome: a spawned game is watched under its
    /// executable name, a failure returns the session to idle.
    pub fn finish_launch(&mut self, outcome: Result<String, ErrorCode>) -> (r: LifecycleSignal)
        requires
            old(self).phase == LaunchPhase::Launching,
        ensures
            match outcome {
                Ok(exe) => r == LifecycleSignal::LaunchSucceeded && final(self).phase == LaunchPhase::Running
                    && final(self).running_exe == Some(exe),
                Err(_) => r == LifecycleSignal::LaunchFailed && final(self).phase == LaunchPhase::Idle
                    && final(self).running_exe == old(self).running_exe,
            },
    {
        match outcome {
            Ok(exe) => {
                self.phase = LaunchPhase::Running;
                self.running_exe = Some(exe);
                LifecycleSignal::LaunchSucceeded
            },
            Err(_) => {
                self.phase = LaunchPhase::Idle;
                LifecycleSignal::LaunchFailed
            },
        }
    }

    /// Records a running game by its executable name.
    pub fn track(&mut self, exe: String)
        ensures
            final(self).phase == LaunchPhase::Running,
            final(self).running_exe == Some(exe),
    {
        self.phase = LaunchPhase::Running;
        self.running_exe = Some(exe);
    }

    /// Stops watching the game and hands back its executable name, whose
    /// processes are then to be signalled. Fails with `NotFound`, changing
    /// nothing, when no game is watched. The record is cleared whether or not
    /// any process turns out to match.
    pub fn kill_running(&mut self) -> (r: Result<String, ErrorCode>)
        ensures
            match old(self).running_exe {
                Some(exe) => r == Ok::<String, ErrorCode>(exe) && final(self).running_exe is None
                    && final(self).phase == LaunchPhase::Stopped,
                None => r == Err::<String, ErrorCode>(ErrorCode::NotFound) && final(self).running_exe is None
                    && final(self).phase == old(self).phase,
            },
    {
        match self.running_exe.take() {
            Some(exe) => {
                self.phase = LaunchPhase::Stopped;
                Ok(exe)
            },
            None => Err(ErrorCode::NotFound),
        }
    }
}

} // verus!
