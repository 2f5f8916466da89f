//! The command line.
use mctui::config::{
    is_local_server, server_host, ArgumentError, ConfigError, Flag, LiveConfig, Mode, RenderConfig,
    Request, StartError,
};

fn parse(args: &[&str]) -> Result<Request<u32, u64>, ArgumentError> {
    let args: Vec<String> = args.iter().map(|argument| argument.to_string()).collect();
    let angles: Vec<Option<u32>> = args.iter().map(|argument| argument.parse().ok()).collect();
    let distances: Vec<Option<u64>> = args.iter().map(|argument| argument.parse().ok()).collect();
    LiveConfig::parse_arguments(&args, &angles, &distances, 75, 48)
}

fn run(args: &[&str]) -> LiveConfig<u32, u64> {
    match parse(args) {
        Ok(Request::Run(config)) => config,
        other => panic!("{other:?}"),
    }
}

#[test]
fn an_empty_command_line_gives_the_defaults() {
    assert_eq!(
        run(&[]),
        LiveConfig {
            server: "127.0.0.1:25565".to_owned(),
            username: "mctui".to_owned(),
            online_account: false,
            allow_public_server: false,
            mode: Mode::Render,
            render: RenderConfig {
                width: 80,
                height: 24,
                horizontal_fov_degrees: 75,
                max_distance: 48,
                procedural_textures: false,
            },
            target_fps: 12,
            view_distance: 8,
            render_entities: false,
        }
    );
}

#[test]
fn every_flag_is_read() {
    let config = run(&[
        "--server", "localhost:1", "--username", "me", "--mode", "ray", "--width", "120",
        "--height", "36", "--fps", "10", "--distance", "80", "--fov", "90", "--view-distance",
        "12", "--entities", "--textures", "--online", "--allow-public-server",
    ]);
    assert_eq!(
        config,
        LiveConfig {
            server: "localhost:1".to_owned(),
            username: "me".to_owned(),
            online_account: true,
            allow_public_server: true,
            mode: Mode::Ray,
            render: RenderConfig {
                width: 120,
                height: 36,
                horizontal_fov_degrees: 90,
                max_distance: 80,
                procedural_textures: true,
            },
            target_fps: 10,
            view_distance: 12,
            render_entities: true,
        }
    );
    assert_eq!(run(&["--fps", "1", "--fps", "2"]).target_fps, 2);
    // A value may look like a flag.
    assert_eq!(run(&["--username", "--online"]).username, "--online");
}

#[test]
fn the_first_problem_decides() {
    assert_eq!(parse(&["--help", "--nope"]), Ok(Request::Help));
    assert_eq!(parse(&["--entities", "-h"]), Ok(Request::Help));
    assert_eq!(
        parse(&["--nope", "--help"]),
        Err(ArgumentError::UnknownArgument { at: 0 })
    );
    assert_eq!(
        parse(&["--entities", "--width"]),
        Err(ArgumentError::MissingValue { flag: Flag::Width })
    );
    assert_eq!(
        parse(&["--fps", "70000"]),
        Err(ArgumentError::InvalidValue { flag: Flag::Fps, at: 1 })
    );
    assert_eq!(
        parse(&["--online", "--fov", "wide"]),
        Err(ArgumentError::InvalidValue { flag: Flag::Fov, at: 2 })
    );
    assert_eq!(parse(&["--mode", "fast"]), Err(ArgumentError::UnknownMode { at: 1 }));
}

#[test]
fn modes_and_flags_have_names() {
    for mode in [Mode::Monitor, Mode::Minimap, Mode::Ray, Mode::Render] {
        assert_eq!(Mode::from_name(mode.name()), Some(mode));
    }
    assert_eq!(Mode::from_name("Render"), None);
    assert_eq!(Mode::Minimap.name(), "minimap");
    assert_eq!(Flag::ViewDistance.name(), "--view-distance");
    assert_eq!(Flag::from_argument("--view-distance"), Some(Flag::ViewDistance));
    assert!(Flag::ViewDistance.needs_value());
    assert!(!Flag::Textures.needs_value());
}

#[test]
fn hosts_are_found_in_addresses() {
    for (address, host) in [
        ("127.0.0.1:25565", "127.0.0.1"),
        ("localhost", "localhost"),
        ("[::1]:25565", "::1"),
        ("  [::1]  ", "::1"),
        ("[::1", "[:"),
        ("[localhost]", "localhost"),
        ("::1", ":"),
        ("example.org:1:2", "example.org:1"),
        (" host:1", " host"),
        ("", ""),
        ("[[a]]:3", "a"),
        ("]a[", "a"),
    ] {
        assert_eq!(server_host(address), host.trim_matches(['[', ']']), "{address:?}");
    }
}

#[test]
fn only_this_machine_is_local() {
    assert!(is_local_server("localhost:25565", false));
    assert!(!is_local_server("0.0.0.0:25565", false));
    assert!(is_local_server("[::1]:25565", false));
    assert!(is_local_server("127.8.9.10:25565", true));
    assert!(!is_local_server("example.org:25565", false));
    assert!(!is_local_server("8.8.8.8:25565", false));
}

#[test]
fn configurations_are_validated() {
    let config = run(&[]);
    assert_eq!(config.validate(true, true, true), Ok(()));
    assert_eq!(config.validate(false, true, true), Err(ConfigError::PublicServer));
    assert_eq!(config.validate(true, false, false), Err(ConfigError::FieldOfView));
    assert_eq!(config.validate(true, true, false), Err(ConfigError::Distance));
    for args in [["--width", "0"], ["--width", "241"], ["--height", "0"], ["--height", "81"]] {
        assert_eq!(run(&args).validate(true, false, true), Err(ConfigError::Dimensions));
    }
    let unspecified = run(&["--server", "0.0.0.0:25565"]);
    assert_eq!(unspecified.validate(false, true, true), Err(ConfigError::PublicServer));
    let public = run(&["--server", "example.org:25565", "--allow-public-server"]);
    assert_eq!(public.validate(false, true, true), Ok(()));
}

fn start(args: &[&str]) -> Result<Request<u32, u64>, StartError> {
    let args: Vec<String> = args.iter().map(|argument| argument.to_string()).collect();
    let angles: Vec<Option<u32>> = args.iter().map(|argument| argument.parse().ok()).collect();
    let distances: Vec<Option<u64>> = args.iter().map(|argument| argument.parse().ok()).collect();
    LiveConfig::parse_env(
        &args,
        &angles,
        &distances,
        75,
        48,
        |host: &str| host.starts_with("127."),
        |degrees: u32| (30..=140).contains(&degrees),
        |blocks: u64| (1..=256).contains(&blocks),
    )
}

#[test]
fn only_valid_configurations_start() {
    assert_eq!(start(&[]), Ok(Request::Run(run(&[]))));
    assert_eq!(start(&["--fov", "7", "--help"]), Ok(Request::Help));
    let refused = |server: &str, error| Err(StartError::Refused { server: server.to_owned(), error });
    for server in ["0.0.0.0:25565", "example.org:25565", "8.8.8.8"] {
        assert_eq!(start(&["--server", server]), refused(server, ConfigError::PublicServer));
        let consented = ["--server", server, "--allow-public-server"];
        assert_eq!(start(&consented), Ok(Request::Run(run(&consented))));
    }
    for server in ["localhost:1", "[::1]:1", "127.9.9.9:1"] {
        assert_eq!(start(&["--server", server]), Ok(Request::Run(run(&["--server", server]))));
    }
    let local = "127.0.0.1:25565";
    assert_eq!(start(&["--width", "241"]), refused(local, ConfigError::Dimensions));
    assert_eq!(start(&["--fov", "29"]), refused(local, ConfigError::FieldOfView));
    assert_eq!(start(&["--distance", "257"]), refused(local, ConfigError::Distance));
    assert_eq!(
        start(&["--fps"]),
        Err(StartError::Arguments(ArgumentError::MissingValue { flag: Flag::Fps }))
    );
}
