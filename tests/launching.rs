use mod_manager::error::ErrorCode;
use mod_manager::launch::{
    build_command, build_launch_command, client_start_needed, generate_umu_command, needs_compat_prefix,
    processes_to_kill, retrieve_steam_workshop_path, wine_prefix_path, CompatPrefix, GameSession, LaunchCommand,
    LaunchPhase, LauncherKind, LifecycleSignal, ProcessInfo, trim,
};
use mod_manager::presets::{supported_games, DefaultGameInfo, DEFAULT_GAME_ID};
use mod_manager::provision::UmuAvailability;

fn base() -> LaunchCommand {
    generate_umu_command(UmuAvailability::Local, "/data/umu-launcher/umu/umu-run").unwrap()
}

#[test]
fn runner_commands() {
    let g = generate_umu_command(UmuAvailability::Global, "/ignored").unwrap();
    assert_eq!(g.program, "umu-run");
    assert!(g.args.is_empty());
    let l = base();
    assert_eq!(l.program, "python");
    assert_eq!(l.args, vec!["/data/umu-launcher/umu/umu-run".to_string()]);
    assert_eq!(generate_umu_command(UmuAvailability::NotAvailable, "/x").unwrap_err(), ErrorCode::ExternalToolError);
}

#[test]
fn steam_component_detection() {
    assert!(needs_compat_prefix("/home/u/.local/share/Steam/steamapps/common/Total War WARHAMMER III"));
    assert!(needs_compat_prefix("Steam"));
    assert!(!needs_compat_prefix("/home/u/SteamLibrary/common/game"));
    assert!(!needs_compat_prefix("/opt/games/tww3"));
    assert!(!needs_compat_prefix(""));
}

#[test]
fn launch_in_prefix_sets_environment() {
    let game_path = "/home/u/.local/share/Steam/steamapps/common/TWW3";
    let prefix = CompatPrefix {
        path: "/home/u/.local/share/Steam/steamapps/compatdata/1142710".to_string(),
        version_text: "  GE-Proton9-20\n".to_string(),
    };
    let c = build_launch_command(base(), "1142710", game_path, Some(prefix)).unwrap();
    assert_eq!(c.program, "python");
    assert_eq!(c.current_dir.as_deref(), Some(game_path));
    assert_eq!(
        c.args,
        vec!["/data/umu-launcher/umu/umu-run".to_string(), "Warhammer3.exe".to_string(), "used_mods.txt;".to_string()]
    );
    assert_eq!(
        c.env,
        vec![
            ("PROTONPATH".to_string(), "GE-Proton9-20".to_string()),
            ("WINEPREFIX".to_string(), "/home/u/.local/share/Steam/steamapps/compatdata/1142710/pfx/".to_string()),
            ("SteamGameId".to_string(), "1142710".to_string()),
        ]
    );
}

#[test]
fn launch_outside_prefix_has_no_environment() {
    let c = build_launch_command(base(), "1142710", "/opt/games/tww3", None).unwrap();
    assert!(c.env.is_empty());
    assert_eq!(c.args.len(), 3);
}

#[test]
fn launch_errors() {
    let steam = "/home/u/Steam/common/TWW3";
    assert_eq!(build_launch_command(base(), "1142710", steam, None).unwrap_err(), ErrorCode::InternalError);
    assert_eq!(build_launch_command(base(), "42", "/opt/g", None).unwrap_err(), ErrorCode::NotFound);
    assert_eq!(
        build_command(LauncherKind::Native, base(), "1142710", "/opt/g", None).unwrap_err(),
        ErrorCode::ExternalToolError
    );
    assert!(build_command(LauncherKind::CompatibilityLayer, base(), "1142710", "/opt/g", None).is_ok());
}

#[test]
fn steam_paths() {
    assert_eq!(wine_prefix_path("/home/u/.steam", "1142710"), "/home/u/.steam/steamapps/compatdata/1142710");
    assert_eq!(
        retrieve_steam_workshop_path("/home/u/.steam/", "1142710"),
        "/home/u/.steam/steamapps/workshop/content/1142710"
    );
}

#[test]
fn presets() {
    let g = DefaultGameInfo::find_by_id(DEFAULT_GAME_ID).unwrap();
    assert_eq!(g.executable_name, "Warhammer3.exe");
    assert_eq!(g.mods_path, "data/");
    assert!(DefaultGameInfo::find_by_id("1").is_none());
    assert_eq!(supported_games().len(), 1);
}

#[test]
fn kill_matches_exact_names_only() {
    let procs = vec![
        ProcessInfo { pid: 10, name: "Warhammer3.exe".to_string() },
        ProcessInfo { pid: 11, name: "steam".to_string() },
        ProcessInfo { pid: 12, name: "Warhammer3.exe".to_string() },
        ProcessInfo { pid: 13, name: "Warhammer3.exe.bak".to_string() },
    ];
    assert_eq!(processes_to_kill(&procs, "Warhammer3.exe"), vec![10, 12]);
    assert!(processes_to_kill(&procs, "nothing").is_empty());
    assert!(!client_start_needed(&procs, "steam"));
    assert!(client_start_needed(&procs[..1].to_vec(), "steam"));
}

#[test]
fn session_lifecycle() {
    let mut s = GameSession::new();
    assert_eq!(s.phase, LaunchPhase::Idle);
    assert_eq!(s.kill_running().unwrap_err(), ErrorCode::NotFound);
    assert_eq!(s.begin_launch().unwrap(), LifecycleSignal::LaunchStarted);
    assert_eq!(s.begin_launch().unwrap_err(), ErrorCode::Conflict);
    assert_eq!(s.finish_launch(Ok("Warhammer3.exe".to_string())), LifecycleSignal::LaunchSucceeded);
    assert_eq!(s.phase, LaunchPhase::Running);
    assert_eq!(s.begin_launch().unwrap_err(), ErrorCode::Conflict);
    assert_eq!(s.kill_running().unwrap(), "Warhammer3.exe");
    assert_eq!(s.phase, LaunchPhase::Stopped);
    assert!(s.running_exe.is_none());
    assert_eq!(s.kill_running().unwrap_err(), ErrorCode::NotFound);
}

#[test]
fn failed_launch_returns_to_idle() {
    let mut s = GameSession::new();
    s.begin_launch().unwrap();
    assert_eq!(s.finish_launch(Err(ErrorCode::InternalError)), LifecycleSignal::LaunchFailed);
    assert_eq!(s.phase, LaunchPhase::Idle);
    assert!(s.running_exe.is_none());
    s.track("x.exe".to_string());
    assert_eq!(s.phase, LaunchPhase::Running);
    assert_eq!(s.running_exe.as_deref(), Some("x.exe"));
}

#[test]
fn trim_agrees_with_std() {
    for t in ["", "   ", " a ", "\u{3000}x\u{a0}", "\t\nGE-Proton9\r\n", "a \u{2009} b", "\u{200b}z"] {
        assert_eq!(trim(t), t.trim());
    }
}
