use gamepin::PlanError;
use gamepin::ditect_app_id;
use gamepin::ditect_steam_game;
use gamepin::plan_preload;
use gamepin::plan_run;

fn strings(args: &[&str]) -> Vec<String> {
    args.iter().map(|a| a.to_string()).collect()
}

#[test]
fn detects_game_layout_from_absolute_path() {
    let args = strings(&["/data/steamapps/common/My Game/game.exe"]);
    let g = ditect_steam_game(&args).unwrap();
    assert_eq!(g.exefile_path, "/data/steamapps/common/My Game/game.exe");
    assert_eq!(g.game_dir, "/data/steamapps/common/My Game");
    assert_eq!(g.common_dir, "/data/steamapps/common");
    assert_eq!(g.steamapps_dir, "/data/steamapps");
}

#[test]
fn detects_game_layout_from_relative_path() {
    let args = strings(&["--flag", "steamapps/common/Game/app.exe"]);
    let g = ditect_steam_game(&args).unwrap();
    assert_eq!(g.game_dir, "steamapps/common/Game");
    assert_eq!(g.common_dir, "steamapps/common");
    assert_eq!(g.steamapps_dir, "steamapps");
}

#[test]
fn longest_matching_ancestor_wins() {
    // A game directory that itself contains a `common` subdirectory: the
    // scan walks ancestors from the longest down, so the deepest match is
    // taken.
    let args = strings(&["/s/steamapps/common/G/common/x/bin"]);
    let g = ditect_steam_game(&args).unwrap();
    assert_eq!(g.game_dir, "/s/steamapps/common/G/common/x");
    assert_eq!(g.common_dir, "/s/steamapps/common/G/common");
    assert_eq!(g.steamapps_dir, "/s/steamapps/common/G");
}

#[test]
fn a_later_argument_can_reveal_the_layout() {
    // The first argument mentions `steamapps` but has no `common` ancestor;
    // the scan moves on to the next argument.
    let args = strings(&["steamapps_nothing", "/s/steamapps/common/G/a"]);
    let g = ditect_steam_game(&args).unwrap();
    assert_eq!(g.exefile_path, "/s/steamapps/common/G/a");
    assert_eq!(g.game_dir, "/s/steamapps/common/G");
    assert_eq!(g.steamapps_dir, "/s/steamapps");
}

#[test]
fn no_steamapps_token_means_no_game() {
    let args = strings(&["/data/apps/common/Game/app.exe"]);
    assert!(ditect_steam_game(&args).is_none());
}

#[test]
fn steamapps_token_without_common_parent_means_no_game() {
    let args = strings(&["/data/steamapps/Game/app.exe"]);
    assert!(ditect_steam_game(&args).is_none());
}

#[test]
fn app_id_is_taken_from_the_first_tagged_argument() {
    let args = strings(&["cmd", "AppId=123", "AppId=999"]);
    assert_eq!(ditect_app_id(&args).unwrap(), "123");
}

#[test]
fn app_id_is_stripped_and_trimmed() {
    let args = strings(&[" AppId= 457 "]);
    assert_eq!(ditect_app_id(&args).unwrap(), "457");
}

#[test]
fn app_id_removes_every_token() {
    let args = strings(&["AppId=AppId=55"]);
    assert_eq!(ditect_app_id(&args).unwrap(), "55");
}

#[test]
fn bare_app_id_token_yields_an_empty_id() {
    let args = strings(&["AppId="]);
    assert_eq!(ditect_app_id(&args).unwrap(), "");
}

#[test]
fn no_app_id_token_means_none() {
    let args = strings(&["cmd", "appid=1"]);
    assert!(ditect_app_id(&args).is_none());
}

#[test]
fn plan_for_a_compatibility_layer_game_has_four_roots() {
    let args = strings(&["steamapps/common/Game/app.exe", "AppId=123"]);
    let roots = plan_preload(&args).unwrap();
    assert_eq!(
        roots,
        vec![
            "steamapps/common/Game".to_string(),
            "steamapps/shadercache/123".to_string(),
            "steamapps/common/Steam.dll".to_string(),
            "steamapps/compatdata/123".to_string(),
        ]
    );
}

#[test]
fn plan_for_a_native_game_has_two_roots() {
    let args = strings(&["/lib/steamapps/common/Game/game.bin", "AppId=70"]);
    let roots = plan_preload(&args).unwrap();
    assert_eq!(
        roots,
        vec![
            "/lib/steamapps/common/Game".to_string(),
            "/lib/steamapps/shadercache/70".to_string(),
        ]
    );
}

#[test]
fn a_bare_dot_exe_name_is_no_compatibility_layer_sign() {
    // `.exe` alone has an empty stem, so it carries no extension.
    let args = strings(&["steamapps/common/G/.exe", "AppId=3"]);
    let roots = plan_preload(&args).unwrap();
    assert_eq!(roots.len(), 2);
}

#[test]
fn plan_fails_without_a_detectable_layout() {
    let args = strings(&["game", "AppId=1"]);
    assert_eq!(plan_preload(&args), Err(PlanError::NoSteamGame));
}

#[test]
fn plan_fails_without_an_app_id() {
    let args = strings(&["steamapps/common/G/x"]);
    assert_eq!(plan_preload(&args), Err(PlanError::NoAppId));
}

#[test]
fn run_plan_needs_a_command_and_arguments() {
    assert!(matches!(plan_run(&strings(&["prog"])), Err(PlanError::NotEnoughArgs)));
    assert!(matches!(plan_run(&strings(&["prog", "cmd"])), Err(PlanError::NotEnoughArgs)));
}

#[test]
fn run_plan_splits_command_and_arguments() {
    let args = strings(&["prog", "run", "steamapps/common/G/a.out", "AppId=9"]);
    let plan = plan_run(&args).unwrap();
    assert_eq!(plan.command, "run");
    assert_eq!(plan.command_args, strings(&["steamapps/common/G/a.out", "AppId=9"]));
    assert_eq!(
        plan.roots,
        vec!["steamapps/common/G".to_string(), "steamapps/shadercache/9".to_string()]
    );
}

#[test]
fn run_plan_propagates_detection_failures() {
    let args = strings(&["prog", "cmd", "nothing", "AppId=9"]);
    assert!(matches!(plan_run(&args), Err(PlanError::NoSteamGame)));
    let args = strings(&["prog", "cmd", "steamapps/common/G/a"]);
    assert!(matches!(plan_run(&args), Err(PlanError::NoAppId)));
}
