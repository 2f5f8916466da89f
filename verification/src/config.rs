//! Command-line configuration.
use vstd::prelude::*;

use crate::text::{
    chars_of, first_of, is_white_space, lemma_first_of, parse_unsigned, same_text, unsigned_value,
    white_space,
};

verus! {

/// The live program mode. Each mode makes one part of the program
/// independently verifiable against a local server.
#[derive(Clone, Copy, Debug, PartialEq, Eq, Structural)]
pub enum Mode {
    Monitor,
    Minimap,
    Ray,
    Render,
}

/// The name of a mode on the command line.
pub open spec fn mode_name(mode: Mode) -> Seq<char> {
    match mode {
        Mode::Monitor => "monitor"@,
        Mode::Minimap => "minimap"@,
        Mode::Ray => "ray"@,
        Mode::Render => "render"@,
    }
}

/// The mode with the given name, if there is one.
pub open spec fn mode_named(name: Seq<char>) -> Option<Mode> {
    if name == "monitor"@ {
        Some(Mode::Monitor)
    } else if name == "minimap"@ {
        Some(Mode::Minimap)
    } else if name == "ray"@ {
        Some(Mode::Ray)
    } else if name == "render"@ {
        Some(Mode::Render)
    } else {
        None
    }
}

impl Mode {
    /// The name of this mode.
    pub fn name(self) -> (name: &'static str)
        ensures
            name@ == mode_name(self),
    {
        match self {
            Mode::Monitor => "monitor",
            Mode::Minimap => "minimap",
            Mode::Ray => "ray",
            Mode::Render => "render",
        }
    }

    /// The mode with the given name.
    pub fn from_name(name: &str) -> (mode: Option<Mode>)
        ensures
            mode == mode_named(name@),
    {
        if same_text(name, "monitor") {
            Some(Mode::Monitor)
        } else if same_text(name, "minimap") {
            Some(Mode::Minimap)
        } else if same_text(name, "ray") {
            Some(Mode::Ray)
        } else if same_text(name, "render") {
            Some(Mode::Render)
        } else {
            None
        }
    }
}

/// A mode is found under its own name, and under no other.
pub proof fn law_mode_names(mode: Mode, name: Seq<char>)
    ensures
        mode_named(name) == Some(mode) <==> name == mode_name(mode),
{
    reveal_strlit("monitor");
    reveal_strlit("minimap");
    reveal_strlit("ray");
    reveal_strlit("render");
    assert("monitor"@[1] != "minimap"@[1]);
    assert("ray"@.len() != "render"@.len());
    assert("monitor"@.len() != "render"@.len());
    assert("minimap"@.len() != "render"@.len());
}

/// Dimensions and perspective settings for one terminal frame. `A` is the
/// caller's type for angles, `D` the one for distances.
#[derive(Clone, Copy, Debug, PartialEq, Eq)]
pub struct RenderConfig<A, D> {
    pub width: usize,
    /// Terminal character rows. Each row represents two ray samples.
    pub height: usize,
    pub horizontal_fov_degrees: A,
    pub max_distance: D,
    /// Whether procedural textures were asked for. The status line shows it;
    /// no pixel depends on it.
    pub procedural_textures: bool,
}

impl<A, D> RenderConfig<A, D> {
    /// The settings that hold unless the command line says otherwise.
    pub fn with_defaults(horizontal_fov_degrees: A, max_distance: D) -> (config: Self)
        ensures
            config == (RenderConfig {
                width: 80,
                height: 24,
                horizontal_fov_degrees,
                max_distance,
                procedural_textures: false,
            }),
    {
        RenderConfig {
            width: 80,
            height: 24,
            horizontal_fov_degrees,
            max_distance,
            procedural_textures: false,
        }
    }
}

/// Command-line configuration for one local-server session.
#[derive(Clone, Debug, PartialEq, Eq)]
pub struct LiveConfig<A, D> {
    pub server: String,
    pub username: String,
    pub online_account: bool,
    pub allow_public_server: bool,
    pub mode: Mode,
    pub render: RenderConfig<A, D>,
    pub target_fps: u16,
    pub view_distance: u8,
    pub render_entities: bool,
}

/// A configuration with its texts as sequences of characters.
pub struct ConfigView<A, D> {
    pub server: Seq<char>,
    pub username: Seq<char>,
    pub online_account: bool,
    pub allow_public_server: bool,
    pub mode: Mode,
    pub render: RenderConfig<A, D>,
    pub target_fps: u16,
    pub view_distance: u8,
    pub render_entities: bool,
}

impl<A, D> View for LiveConfig<A, D> {
    type V = ConfigView<A, D>;

    open spec fn view(&self) -> ConfigView<A, D> {
        ConfigView {
            server: self.server@,
            username: self.username@,
            online_account: self.online_account,
            allow_public_server: self.allow_public_server,
            mode: self.mode,
            render: self.render,
            target_fps: self.target_fps,
            view_distance: self.view_distance,
            render_entities: self.render_entities,
        }
    }
}

/// The configuration of an empty command line.
pub open spec fn default_config<A, D>(fov: A, distance: D) -> ConfigView<A, D> {
    ConfigView {
        server: "127.0.0.1:25565"@,
        username: "mctui"@,
        online_account: false,
        allow_public_server: false,
        mode: Mode::Render,
        render: RenderConfig {
            width: 80,
            height: 24,
            horizontal_fov_degrees: fov,
            max_distance: distance,
            procedural_textures: false,
        },
        target_fps: 12,
        view_distance: 8,
        render_entities: false,
    }
}

/// The command-line flags.
#[derive(Clone, Copy, Debug, PartialEq, Eq, Structural)]
pub enum Flag {
    Server,
    Username,
    Mode,
    Width,
    Height,
    Fps,
    Distance,
    Fov,
    ViewDistance,
    Entities,
    Textures,
    Online,
    AllowPublicServer,
    Help,
}

/// How a flag is written.
pub open spec fn flag_name(flag: Flag) -> Seq<char> {
    match flag {
        Flag::Server => "--server"@,
        Flag::Username => "--username"@,
        Flag::Mode => "--mode"@,
        Flag::Width => "--width"@,
        Flag::Height => "--height"@,
        Flag::Fps => "--fps"@,
        Flag::Distance => "--distance"@,
        Flag::Fov => "--fov"@,
        Flag::ViewDistance => "--view-distance"@,
        Flag::Entities => "--entities"@,
        Flag::Textures => "--textures"@,
        Flag::Online => "--online"@,
        Flag::AllowPublicServer => "--allow-public-server"@,
        Flag::Help => "--help"@,
    }
}

/// The flag that an argument is. Help also has a short form.
pub open spec fn flag_named(argument: Seq<char>) -> Option<Flag> {
    if argument == "--server"@ {
        Some(Flag::Server)
    } else if argument == "--username"@ {
        Some(Flag::Username)
    } else if argument == "--mode"@ {
        Some(Flag::Mode)
    } else if argument == "--width"@ {
        Some(Flag::Width)
    } else if argument == "--height"@ {
        Some(Flag::Height)
    } else if argument == "--fps"@ {
        Some(Flag::Fps)
    } else if argument == "--distance"@ {
        Some(Flag::Distance)
    } else if argument == "--fov"@ {
        Some(Flag::Fov)
    } else if argument == "--view-distance"@ {
        Some(Flag::ViewDistance)
    } else if argument == "--entities"@ {
        Some(Flag::Entities)
    } else if argument == "--textures"@ {
        Some(Flag::Textures)
    } else if argument == "--online"@ {
        Some(Flag::Online)
    } else if argument == "--allow-public-server"@ {
        Some(Flag::AllowPublicServer)
    } else if argument == "--help"@ || argument == "-h"@ {
        Some(Flag::Help)
    } else {
        None
    }
}

/// Whether a flag is followed by a value.
pub open spec fn takes_value(flag: Flag) -> bool {
    match flag {
        Flag::Entities => false,
        Flag::Textures => false,
        Flag::Online => false,
        Flag::AllowPublicServer => false,
        Flag::Help => false,
        _ => true,
    }
}

/// Why a command line is not understood. `at` is the place of the offending
/// argument.
#[derive(Clone, Copy, Debug, PartialEq, Eq, Structural)]
pub enum ArgumentError {
    UnknownArgument { at: usize },
    MissingValue { flag: Flag },
    InvalidValue { flag: Flag, at: usize },
    UnknownMode { at: usize },
}

/// A configuration in which a flag without a value was set.
pub open spec fn with_switch<A, D>(config: ConfigView<A, D>, flag: Flag) -> ConfigView<A, D> {
    match flag {
        Flag::Entities => ConfigView { render_entities: true, ..config },
        Flag::Textures => ConfigView {
            render: RenderConfig { procedural_textures: true, ..config.render },
            ..config
        },
        Flag::Online => ConfigView { online_account: true, ..config },
        Flag::AllowPublicServer => ConfigView { allow_public_server: true, ..config },
        _ => config,
    }
}

/// A configuration in which a flag was given a value, if the value fits.
/// `angle` and `distance` are what the value denotes as such.
pub open spec fn with_value<A, D>(
    config: ConfigView<A, D>,
    flag: Flag,
    value: Seq<char>,
    angle: Option<A>,
    distance: Option<D>,
) -> Option<ConfigView<A, D>> {
    match flag {
        Flag::Server => Some(ConfigView { server: value, ..config }),
        Flag::Username => Some(ConfigView { username: value, ..config }),
        Flag::Mode => match mode_named(value) {
            Some(mode) => Some(ConfigView { mode, ..config }),
            None => None,
        },
        Flag::Width => match unsigned_value(value, usize::MAX as nat) {
            Some(width) => Some(
                ConfigView {
                    render: RenderConfig { width: width as usize, ..config.render },
                    ..config
                },
            ),
            None => None,
        },
        Flag::Height => match unsigned_value(value, usize::MAX as nat) {
            Some(height) => Some(
                ConfigView {
                    render: RenderConfig { height: height as usize, ..config.render },
                    ..config
                },
            ),
            None => None,
        },
        Flag::Fps => match unsigned_value(value, u16::MAX as nat) {
            Some(fps) => Some(ConfigView { target_fps: fps as u16, ..config }),
            None => None,
        },
        Flag::Distance => match distance {
            Some(max_distance) => Some(
                ConfigView { render: RenderConfig { max_distance, ..config.render }, ..config },
            ),
            None => None,
        },
        Flag::Fov => match angle {
            Some(horizontal_fov_degrees) => Some(
                ConfigView {
                    render: RenderConfig { horizontal_fov_degrees, ..config.render },
                    ..config
                },
            ),
            None => None,
        },
        Flag::ViewDistance => match unsigned_value(value, u8::MAX as nat) {
            Some(chunks) => Some(ConfigView { view_distance: chunks as u8, ..config }),
            None => None,
        },
        _ => Some(config),
    }
}

/// What a command line asks for.
pub enum Outcome<A, D> {
    Run(ConfigView<A, D>),
    Help,
    Fail(ArgumentError),
}

/// What the arguments from place `i` on ask for, after `config` was read.
/// Arguments are read in order, and the first one that asks for help or is not
/// understood decides.
pub open spec fn outcome<A, D>(
    args: Seq<String>,
    angles: Seq<Option<A>>,
    distances: Seq<Option<D>>,
    config: ConfigView<A, D>,
    i: nat,
) -> Outcome<A, D>
    decreases args.len() - i,
{
    if i >= args.len() {
        Outcome::Run(config)
    } else {
        match flag_named(args[i as int]@) {
            None => Outcome::Fail(ArgumentError::UnknownArgument { at: i as usize }),
            Some(Flag::Help) => Outcome::Help,
            Some(flag) => if !takes_value(flag) {
                outcome(args, angles, distances, with_switch(config, flag), i + 1)
            } else if i + 1 >= args.len() {
                Outcome::Fail(ArgumentError::MissingValue { flag })
            } else {
                match with_value(
                    config,
                    flag,
                    args[i as int + 1]@,
                    angles[i as int + 1],
                    distances[i as int + 1],
                ) {
                    Some(next) => outcome(args, angles, distances, next, i + 2),
                    None => Outcome::Fail(
                        if flag == Flag::Mode {
                            ArgumentError::UnknownMode { at: (i + 1) as usize }
                        } else {
                            ArgumentError::InvalidValue { flag, at: (i + 1) as usize }
                        },
                    ),
                }
            },
        }
    }
}

/// What a command line asks for, if it is understood.
#[derive(Clone, Debug, PartialEq, Eq)]
pub enum Request<A, D> {
    Run(LiveConfig<A, D>),
    Help,
}

impl Flag {
    /// How this flag is written.
    pub fn name(self) -> (name: &'static str)
        ensures
            name@ == flag_name(self),
    {
        match self {
            Flag::Server => "--server",
            Flag::Username => "--username",
            Flag::Mode => "--mode",
            Flag::Width => "--width",
            Flag::Height => "--height",
            Flag::Fps => "--fps",
            Flag::Distance => "--distance",
            Flag::Fov => "--fov",
            Flag::ViewDistance => "--view-distance",
            Flag::Entities => "--entities",
            Flag::Textures => "--textures",
            Flag::Online => "--online",
            Flag::AllowPublicServer => "--allow-public-server",
            Flag::Help => "--help",
        }
    }

    /// The flag that an argument is.
    pub fn from_argument(argument: &str) -> (flag: Option<Flag>)
        ensures
            flag == flag_named(argument@),
    {
        if same_text(argument, "--server") {
            Some(Flag::Server)
        } else if same_text(argument, "--username") {
            Some(Flag::Username)
        } else if same_text(argument, "--mode") {
            Some(Flag::Mode)
        } else if same_text(argument, "--width") {
            Some(Flag::Width)
        } else if same_text(argument, "--height") {
            Some(Flag::Height)
        } else if same_text(argument, "--fps") {
            Some(Flag::Fps)
        } else if same_text(argument, "--distance") {
            Some(Flag::Distance)
        } else if same_text(argument, "--fov") {
            Some(Flag::Fov)
        } else if same_text(argument, "--view-distance") {
            Some(Flag::ViewDistance)
        } else if same_text(argument, "--entities") {
            Some(Flag::Entities)
        } else if same_text(argument, "--textures") {
            Some(Flag::Textures)
        } else if same_text(argument, "--online") {
            Some(Flag::Online)
        } else if same_text(argument, "--allow-public-server") {
            Some(Flag::AllowPublicServer)
        } else if same_text(argument, "--help") || same_text(argument, "-h") {
            Some(Flag::Help)
        } else {
            None
        }
    }

    /// Whether this flag is followed by a value.
    pub fn needs_value(self) -> (needed: bool)
        ensures
            needed == takes_value(self),
    {
        match self {
            Flag::Entities
            | Flag::Textures
            | Flag::Online
            | Flag::AllowPublicServer
            | Flag::Help => false,
            _ => true,
        }
    }
}

impl<A: Copy, D: Copy> LiveConfig<A, D> {
    /// The configuration of an empty command line.
    pub fn with_defaults(fov: A, distance: D) -> (config: Self)
        ensures
            config@ == default_config(fov, distance),
    {
        LiveConfig {
            server: "127.0.0.1:25565".to_owned(),
            username: "mctui".to_owned(),
            online_account: false,
            allow_public_server: false,
            mode: Mode::Render,
            render: RenderConfig::with_defaults(fov, distance),
            target_fps: 12,
            view_distance: 8,
            render_entities: false,
        }
    }

    /// Sets a flag that has no value.
    fn switch_on(&mut self, flag: Flag)
        ensures
            final(self)@ == with_switch(old(self)@, flag),
    {
        match flag {
            Flag::Entities => {
                self.render_entities = true;
            },
            Flag::Textures => {
                self.render.procedural_textures = true;
            },
            Flag::Online => {
                self.online_account = true;
            },
            Flag::AllowPublicServer => {
                self.allow_public_server = true;
            },
            _ => {},
        }
    }

    /// Gives a flag its value, and says whether the value fits.
    fn parse_flag(&mut self, flag: Flag, value: &str, angle: Option<A>, distance: Option<D>) -> (fits:
        bool)
        ensures
            fits == (with_value(old(self)@, flag, value@, angle, distance) is Some),
            fits ==> with_value(old(self)@, flag, value@, angle, distance) == Some(final(self)@),
    {
        match flag {
            Flag::Server => {
                self.server = value.to_owned();
                true
            },
            Flag::Username => {
                self.username = value.to_owned();
                true
            },
            Flag::Mode => match Mode::from_name(value) {
                Some(mode) => {
                    self.mode = mode;
                    true
                },
                None => false,
            },
            Flag::Width => match parse_unsigned(value, usize::MAX as u64) {
                Some(width) => {
                    self.render.width = width as usize;
                    true
                },
                None => false,
            },
            Flag::Height => match parse_unsigned(value, usize::MAX as u64) {
                Some(height) => {
                    self.render.height = height as usize;
                    true
                },
                None => false,
            },
            Flag::Fps => match parse_unsigned(value, u16::MAX as u64) {
                Some(fps) => {
                    self.target_fps = fps as u16;
                    true
                },
                None => false,
            },
            Flag::Distance => match distance {
                Some(max_distance) => {
                    self.render.max_distance = max_distance;
                    true
                },
                None => false,
            },
            Flag::Fov => match angle {
                Some(horizontal_fov_degrees) => {
                    self.render.horizontal_fov_degrees = horizontal_fov_degrees;
                    true
                },
                None => false,
            },
            Flag::ViewDistance => match parse_unsigned(value, u8::MAX as u64) {
                Some(chunks) => {
                    self.view_distance = chunks as u8;
                    true
                },
                None => false,
            },
            _ => true,
        }
    }

    /// Reads a command line. For each argument `angles` and `distances` hold
    /// what it denotes as an angle and as a distance, if anything; `fov` and
    /// `distance` are the defaults.
    pub fn parse_arguments(
        args: &Vec<String>,
        angles: &Vec<Option<A>>,
        distances: &Vec<Option<D>>,
        fov: A,
        distance: D,
    ) -> (request: Result<Request<A, D>, ArgumentError>)
        requires
            angles@.len() == args@.len(),
            distances@.len() == args@.len(),
        ensures
            match outcome(args@, angles@, distances@, default_config(fov, distance), 0) {
                Outcome::Run(view) => request matches Ok(Request::Run(config)) && config@ == view,
                Outcome::Help => request == Ok::<Request<A, D>, ArgumentError>(Request::Help),
                Outcome::Fail(error) => request == Err::<Request<A, D>, ArgumentError>(error),
            },
    {
        let mut config = LiveConfig::with_defaults(fov, distance);
        let mut i: usize = 0;
        while i < args.len()
            invariant
                i <= args@.len(),
                angles@.len() == args@.len(),
                distances@.len() == args@.len(),
                outcome(args@, angles@, distances@, default_config(fov, distance), 0) == outcome(
                    args@,
                    angles@,
                    distances@,
                    config@,
                    i as nat,
                ),
            decreases args@.len() - i,
        {
            match Flag::from_argument(args[i].as_str()) {
                None => {
                    return Err(ArgumentError::UnknownArgument { at: i });
                },
                Some(Flag::Help) => {
                    return Ok(Request::Help);
                },
                Some(flag) => {
                    if !flag.needs_value() {
                        config.switch_on(flag);
                        i = i + 1;
                    } else if args.len() - i < 2 {
                        return Err(ArgumentError::MissingValue { flag });
                    } else {
                        let at: usize = i + 1;
                        if !config.parse_flag(flag, args[at].as_str(), angles[at], distances[at]) {
                            return Err(
                                if flag == Flag::Mode {
                                    ArgumentError::UnknownMode { at }
                                } else {
                                    ArgumentError::InvalidValue { flag, at }
                                },
                            );
                        }
                        i = i + 2;
                    }
                },
            }
        }
        Ok(Request::Run(config))
    }
}

/// Where the first character after leading white space stands.
pub open spec fn after_space(text: Seq<char>, from: int) -> int
    decreases text.len() - from,
{
    if 0 <= from < text.len() && white_space(text[from]) {
        after_space(text, from + 1)
    } else {
        from
    }
}

/// Where a character last occurs before `end`; minus one if it does not.
pub open spec fn last_of(text: Seq<char>, character: char, end: int) -> int
    decreases end,
{
    if 0 < end <= text.len() && text[end - 1] != character {
        last_of(text, character, end - 1)
    } else {
        end - 1
    }
}

/// Whether a character is a square bracket.
pub open spec fn bracket(c: char) -> bool {
    c == '[' || c == ']'
}

/// A text without the square brackets at its ends.
pub open spec fn without_brackets(text: Seq<char>) -> Seq<char>
    decreases text.len(),
{
    if text.len() > 0 && bracket(text[0]) {
        without_brackets(text.skip(1))
    } else if text.len() > 0 && bracket(text.last()) {
        without_brackets(text.drop_last())
    } else {
        text
    }
}

/// The host of an address: what stands in leading square brackets, else what
/// stands before the last colon, else the whole address.
pub open spec fn host_of(address: Seq<char>) -> Seq<char> {
    let start = after_space(address, 0);
    let close = first_of(address, ']', start + 1);
    let colon = last_of(address, ':', address.len() as int);
    without_brackets(
        if start < address.len() && address[start] == '[' && close < address.len() {
            address.subrange(start + 1, close)
        } else if colon >= 0 {
            address.take(colon)
        } else {
            address
        },
    )
}

/// Whether a host is this machine. `loopback_ip` says whether the host is an
/// IP address of the loopback network.
pub open spec fn local_host(host: Seq<char>, loopback_ip: bool) -> bool {
    host == "localhost"@ || host == "::1"@ || loopback_ip
}

/// A text without the square brackets at its ends.
fn trim_brackets<'a>(text: &'a str) -> (trimmed: &'a str)
    ensures
        trimmed@ == without_brackets(text@),
{
    let chars = chars_of(text);
    let mut start: usize = 0;
    assert(text@.skip(0) =~= text@);
    while start < chars.len() && (chars[start] == '[' || chars[start] == ']')
        invariant
            start <= chars@.len(),
            chars@ == text@,
            without_brackets(text@.skip(start as int)) == without_brackets(text@),
        decreases chars@.len() - start,
    {
        assert(text@.skip(start as int).skip(1) =~= text@.skip(start + 1));
        start = start + 1;
    }
    let mut end: usize = chars.len();
    assert(text@.skip(start as int) =~= text@.subrange(start as int, end as int));
    while end > start && (chars[end - 1] == '[' || chars[end - 1] == ']')
        invariant
            start <= end <= chars@.len(),
            chars@ == text@,
            start < chars@.len() ==> !bracket(text@[start as int]),
            without_brackets(text@.subrange(start as int, end as int)) == without_brackets(text@),
        decreases end,
    {
        let ghost now = text@.subrange(start as int, end as int);
        assert(now[0] == text@[start as int]);
        assert(now.drop_last() =~= text@.subrange(start as int, end - 1));
        end = end - 1;
    }
    text.substring_char(start, end)
}

/// The host of an address, without port and brackets.
pub fn server_host<'a>(address: &'a str) -> (host: &'a str)
    ensures
        host@ == host_of(address@),
{
    let chars = chars_of(address);
    let mut start: usize = 0;
    while start < chars.len() && is_white_space(chars[start])
        invariant
            start <= chars@.len(),
            chars@ == address@,
            after_space(address@, start as int) == after_space(address@, 0),
        decreases chars@.len() - start,
    {
        start = start + 1;
    }
    if start < chars.len() && chars[start] == '[' {
        let mut close: usize = start + 1;
        while close < chars.len() && chars[close] != ']'
            invariant
                start < close <= chars@.len(),
                chars@ == address@,
                first_of(address@, ']', close as int) == first_of(address@, ']', start + 1),
            decreases chars@.len() - close,
        {
            close = close + 1;
        }
        if close < chars.len() {
            return trim_brackets(address.substring_char(start + 1, close));
        }
    }
    let mut end: usize = chars.len();
    while end > 0 && chars[end - 1] != ':'
        invariant
            end <= chars@.len(),
            chars@ == address@,
            last_of(address@, ':', end as int) == last_of(address@, ':', chars@.len() as int),
        decreases end,
    {
        end = end - 1;
    }
    if end > 0 {
        let host = address.substring_char(0, end - 1);
        assert(host@ =~= address@.take(end - 1));
        trim_brackets(host)
    } else {
        trim_brackets(address)
    }
}

/// Whether an address is one of this machine. `loopback_ip` says whether its
/// host is an IP address of the loopback network.
pub fn is_local_server(address: &str, loopback_ip: bool) -> (local: bool)
    ensures
        local == local_host(host_of(address@), loopback_ip),
{
    let host = server_host(address);
    same_text(host, "localhost") || same_text(host, "::1") || loopback_ip
}

/// Why a configuration is refused.
#[derive(Clone, Copy, Debug, PartialEq, Eq, Structural)]
pub enum ConfigError {
    /// The server is not on this machine, and that was not allowed.
    PublicServer,
    /// The frame must be 1 to 240 columns wide and 1 to 80 rows high.
    Dimensions,
    /// The field of view must be between 30 and 140 degrees.
    FieldOfView,
    /// The ray distance must be between 1 and 256 blocks.
    Distance,
}

/// Why a configuration is refused, if it is. The arguments say whether its
/// host is a loopback IP address, and whether its angle and its distance are
/// in range.
pub open spec fn refusal<A, D>(
    config: ConfigView<A, D>,
    loopback_ip: bool,
    fov_in_range: bool,
    distance_in_range: bool,
) -> Option<ConfigError> {
    if !local_host(host_of(config.server), loopback_ip) && !config.allow_public_server {
        Some(ConfigError::PublicServer)
    } else if !(1 <= config.render.width <= 240 && 1 <= config.render.height <= 80) {
        Some(ConfigError::Dimensions)
    } else if !fov_in_range {
        Some(ConfigError::FieldOfView)
    } else if !distance_in_range {
        Some(ConfigError::Distance)
    } else {
        None
    }
}

impl<A, D> LiveConfig<A, D> {
    /// Refuses a configuration that the program cannot or should not run with.
    pub fn validate(&self, loopback_ip: bool, fov_in_range: bool, distance_in_range: bool) -> (result:
        Result<(), ConfigError>)
        ensures
            result == (match refusal(self@, loopback_ip, fov_in_range, distance_in_range) {
                Some(error) => Err::<(), ConfigError>(error),
                None => Ok::<(), ConfigError>(()),
            }),
    {
        if !is_local_server(self.server.as_str(), loopback_ip) && !self.allow_public_server {
            return Err(ConfigError::PublicServer);
        }
        if !(1 <= self.render.width && self.render.width <= 240 && 1 <= self.render.height
            && self.render.height <= 80) {
            return Err(ConfigError::Dimensions);
        }
        if !fov_in_range {
            return Err(ConfigError::FieldOfView);
        }
        if !distance_in_range {
            return Err(ConfigError::Distance);
        }
        Ok(())
    }
}

/// Why the program does not start.
#[derive(Clone, Debug, PartialEq, Eq)]
pub enum StartError {
    /// The command line is not understood.
    Arguments(ArgumentError),
    /// The configuration is refused.
    Refused { server: String, error: ConfigError },
}

/// Whether tests that a caller supplies can answer as given on the host, the
/// angle and the distance of a configuration.
pub open spec fn tested<A, D, L: Fn(&str) -> bool, F: Fn(A) -> bool, R: Fn(D) -> bool>(
    config: ConfigView<A, D>,
    is_loopback: L,
    fov_in_range: F,
    distance_in_range: R,
    host: &str,
    answers: (bool, bool, bool),
) -> bool {
    &&& host@ == host_of(config.server)
    &&& call_ensures(is_loopback, (host,), answers.0)
    &&& call_ensures(fov_in_range, (config.render.horizontal_fov_degrees,), answers.1)
    &&& call_ensures(distance_in_range, (config.render.max_distance,), answers.2)
}

/// Whether `start` is what a command line leads to: the configuration that it
/// asks for unless that is refused, help where it asks for help, and else why
/// it is not understood.
pub open spec fn is_start<A, D, L: Fn(&str) -> bool, F: Fn(A) -> bool, R: Fn(D) -> bool>(
    asked: Outcome<A, D>,
    is_loopback: L,
    fov_in_range: F,
    distance_in_range: R,
    start: Result<Request<A, D>, StartError>,
) -> bool {
    match asked {
        Outcome::Run(view) => exists|host: &str, answers: (bool, bool, bool)|
            #[trigger] tested(view, is_loopback, fov_in_range, distance_in_range, host, answers)
                && match refusal(view, answers.0, answers.1, answers.2) {
                None => start matches Ok(Request::Run(config)) && config@ == view,
                Some(reason) => start matches Err(StartError::Refused { server, error })
                    && server@ == view.server && error == reason,
            },
        Outcome::Help => start == Ok::<Request<A, D>, StartError>(Request::Help),
        Outcome::Fail(error) => start == Err::<Request<A, D>, StartError>(
            StartError::Arguments(error),
        ),
    }
}

impl<A: Copy, D: Copy> LiveConfig<A, D> {
    /// Reads and validates the command line that the environment holds. For
    /// each argument `angles` and `distances` hold what it denotes as an angle
    /// and as a distance, if anything; `fov` and `distance` are the defaults.
    /// The three tests answer whether a host is an IP address of the loopback
    /// network, and whether an angle and a distance are in range.
    pub fn parse_env<L: Fn(&str) -> bool, F: Fn(A) -> bool, R: Fn(D) -> bool>(
        args: &Vec<String>,
        angles: &Vec<Option<A>>,
        distances: &Vec<Option<D>>,
        fov: A,
        distance: D,
        is_loopback: L,
        fov_in_range: F,
        distance_in_range: R,
    ) -> (start: Result<Request<A, D>, StartError>)
        requires
            angles@.len() == args@.len(),
            distances@.len() == args@.len(),
            forall|host: &str| call_requires(is_loopback, (host,)),
            forall|angle: A| call_requires(fov_in_range, (angle,)),
            forall|distance: D| call_requires(distance_in_range, (distance,)),
        ensures
            is_start(
                outcome(args@, angles@, distances@, default_config(fov, distance), 0),
                is_loopback,
                fov_in_range,
                distance_in_range,
                start,
            ),
    {
        match LiveConfig::parse_arguments(args, angles, distances, fov, distance) {
            Err(error) => Err(StartError::Arguments(error)),
            Ok(Request::Help) => Ok(Request::Help),
            Ok(Request::Run(config)) => {
                let host = server_host(config.server.as_str());
                let loopback_ip = is_loopback(host);
                let angle_fits = fov_in_range(config.render.horizontal_fov_degrees);
                let distance_fits = distance_in_range(config.render.max_distance);
                assert(tested(
                    config@,
                    is_loopback,
                    fov_in_range,
                    distance_in_range,
                    host,
                    (loopback_ip, angle_fits, distance_fits),
                ));
                match config.validate(loopback_ip, angle_fits, distance_fits) {
                    Ok(()) => Ok(Request::Run(config)),
                    Err(error) => Err(StartError::Refused { server: config.server, error }),
                }
            },
        }
    }
}

/// The program runs only with the configuration that the command line asks
/// for, and only with one that is valid: on a loopback host unless another was
/// consented to, with a frame, an angle and a distance in range.
pub proof fn law_only_valid_configurations_run<
    A,
    D,
    L: Fn(&str) -> bool,
    F: Fn(A) -> bool,
    R: Fn(D) -> bool,
>(
    asked: Outcome<A, D>,
    is_loopback: L,
    fov_in_range: F,
    distance_in_range: R,
    config: LiveConfig<A, D>,
)
    requires
        is_start(asked, is_loopback, fov_in_range, distance_in_range, Ok(Request::Run(config))),
    ensures
        asked == Outcome::Run(config@),
        config.allow_public_server || host_of(config.server@) == "localhost"@ || host_of(
            config.server@,
        ) == "::1"@ || exists|host: &str|
            host@ == host_of(config.server@) && #[trigger] call_ensures(is_loopback, (host,), true),
        1 <= config.render.width <= 240,
        1 <= config.render.height <= 80,
        call_ensures(fov_in_range, (config.render.horizontal_fov_degrees,), true),
        call_ensures(distance_in_range, (config.render.max_distance,), true),
{
}

/// Without explicit consent only loopback hosts are accepted: `localhost`,
/// `::1`, or an IP address of the loopback network.
pub proof fn law_only_loopback_without_consent<A, D>(
    config: ConfigView<A, D>,
    loopback_ip: bool,
    fov_in_range: bool,
    distance_in_range: bool,
)
    requires
        !config.allow_public_server,
        refusal(config, loopback_ip, fov_in_range, distance_in_range) is None,
    ensures
        host_of(config.server) == "localhost"@ || host_of(config.server) == "::1"@ || loopback_ip,
{
}

/// A public server is accepted only with explicit consent, whatever else the
/// configuration holds.
pub proof fn law_public_servers_need_consent<A, D>(
    config: ConfigView<A, D>,
    fov_in_range: bool,
    distance_in_range: bool,
)
    requires
        !local_host(host_of(config.server), false),
    ensures
        refusal(config, false, fov_in_range, distance_in_range) == Some(ConfigError::PublicServer)
            <==> !config.allow_public_server,
{
}

/// What `last_of` finds is the last occurrence.
proof fn lemma_last_of(text: Seq<char>, character: char, end: int)
    requires
        0 <= end <= text.len(),
    ensures
        ({
            let at = last_of(text, character, end);
            &&& -1 <= at < end
            &&& at >= 0 ==> text[at] == character
            &&& forall|i: int| at < i < end ==> #[trigger] text[i] != character
        }),
    decreases end,
{
    if end > 0 && text[end - 1] != character {
        lemma_last_of(text, character, end - 1);
    }
}

proof fn lemma_no_brackets(text: Seq<char>)
    requires
        forall|i: int| 0 <= i < text.len() ==> !bracket(#[trigger] text[i]),
    ensures
        without_brackets(text) == text,
{
}

/// The port does not matter: an address with a port has the host that stands
/// before it.
pub proof fn law_port_is_dropped(host: Seq<char>, port: Seq<char>)
    requires
        forall|i: int| 0 <= i < host.len() ==> !bracket(#[trigger] host[i]),
        forall|i: int| 0 <= i < port.len() ==> #[trigger] port[i] != ':' && !bracket(port[i]),
    ensures
        host_of(host + seq![':'] + port) == host,
{
    let address = host + seq![':'] + port;
    let start = after_space(address, 0);
    lemma_after_space(address, 0);
    if start < address.len() {
        assert(address[start] != '[') by {
            if start < host.len() {
                assert(address[start] == host[start]);
            } else if start > host.len() {
                assert(address[start] == port[start - host.len() - 1]);
            }
        }
    }
    lemma_last_of(address, ':', address.len() as int);
    let colon = last_of(address, ':', address.len() as int);
    assert(address[host.len() as int] == ':');
    if colon > host.len() {
        assert(address[colon] == port[colon - host.len() - 1]);
    }
    assert(address.take(colon) =~= host);
    lemma_no_brackets(host);
}

proof fn lemma_after_space(text: Seq<char>, from: int)
    requires
        0 <= from <= text.len(),
    ensures
        from <= after_space(text, from) <= text.len(),
    decreases text.len() - from,
{
    if from < text.len() && white_space(text[from]) {
        lemma_after_space(text, from + 1);
    }
}

/// An address with its host in square brackets has that host, whatever
/// follows the brackets.
pub proof fn law_bracketed_host(host: Seq<char>, rest: Seq<char>)
    requires
        forall|i: int| 0 <= i < host.len() ==> !bracket(#[trigger] host[i]),
    ensures
        host_of(seq!['['] + host + seq![']'] + rest) == host,
{
    let address = seq!['['] + host + seq![']'] + rest;
    assert(address[0] == '[');
    assert(after_space(address, 0) == 0);
    lemma_first_of(address, ']', 1);
    let close = first_of(address, ']', 1);
    assert(address[host.len() as int + 1] == ']');
    if close < host.len() + 1 {
        assert(address[close] == host[close - 1]);
    }
    assert(address.subrange(1, close) =~= host);
    lemma_no_brackets(host);
}

/// A flag is recognised by the name under which it is written.
pub proof fn law_flags_are_recognised(flag: Flag)
    ensures
        flag_named(flag_name(flag)) == Some(flag),
{
    reveal_strlit("--server");
    reveal_strlit("--username");
    reveal_strlit("--mode");
    reveal_strlit("--width");
    reveal_strlit("--height");
    reveal_strlit("--fps");
    reveal_strlit("--distance");
    reveal_strlit("--fov");
    reveal_strlit("--view-distance");
    reveal_strlit("--entities");
    reveal_strlit("--textures");
    reveal_strlit("--online");
    reveal_strlit("--allow-public-server");
    reveal_strlit("--help");
    // Names of the same length differ in their third or fourth character.
    assert("--server"@[2] == 's' && "--height"@[2] == 'h' && "--online"@[2] == 'o');
    assert("--username"@[2] == 'u' && "--distance"@[2] == 'd' && "--entities"@[2] == 'e'
        && "--textures"@[2] == 't');
    assert("--mode"@[2] == 'm' && "--help"@[2] == 'h');
    assert("--fps"@[3] == 'p' && "--fov"@[3] == 'o');
    assert("--server"@.len() == 8 && "--height"@.len() == 8 && "--online"@.len() == 8);
    assert("--username"@.len() == 10 && "--distance"@.len() == 10 && "--entities"@.len() == 10
        && "--textures"@.len() == 10);
    assert("--mode"@.len() == 6 && "--help"@.len() == 6 && "--width"@.len() == 7);
    assert("--fps"@.len() == 5 && "--fov"@.len() == 5);
    assert("--view-distance"@.len() == 15 && "--allow-public-server"@.len() == 21);
}

/// A later value of a flag replaces an earlier one: the earlier value leaves
/// no trace.
pub proof fn law_later_value_replaces<A, D>(
    config: ConfigView<A, D>,
    flag: Flag,
    earlier: Seq<char>,
    earlier_angle: Option<A>,
    earlier_distance: Option<D>,
    value: Seq<char>,
    angle: Option<A>,
    distance: Option<D>,
)
    requires
        with_value(config, flag, earlier, earlier_angle, earlier_distance) is Some,
    ensures
        with_value(
            with_value(config, flag, earlier, earlier_angle, earlier_distance)->0,
            flag,
            value,
            angle,
            distance,
        ) == with_value(config, flag, value, angle, distance),
{
}

/// The order of flags without values does not matter, nor does repeating one.
pub proof fn law_switches_commute<A, D>(config: ConfigView<A, D>, a: Flag, b: Flag)
    ensures
        with_switch(with_switch(config, a), b) == with_switch(with_switch(config, b), a),
        with_switch(with_switch(config, a), a) == with_switch(config, a),
{
}

/// How the flags are spelled, and which of them are followed by a value.
pub proof fn law_flags_are_spelled(flag: Flag)
    ensures
        match flag {
            Flag::Server => flag_name(flag) == "--server"@ && takes_value(flag),
            Flag::Username => flag_name(flag) == "--username"@ && takes_value(flag),
            Flag::Mode => flag_name(flag) == "--mode"@ && takes_value(flag),
            Flag::Width => flag_name(flag) == "--width"@ && takes_value(flag),
            Flag::Height => flag_name(flag) == "--height"@ && takes_value(flag),
            Flag::Fps => flag_name(flag) == "--fps"@ && takes_value(flag),
            Flag::Distance => flag_name(flag) == "--distance"@ && takes_value(flag),
            Flag::Fov => flag_name(flag) == "--fov"@ && takes_value(flag),
            Flag::ViewDistance => flag_name(flag) == "--view-distance"@ && takes_value(flag),
            Flag::Entities => flag_name(flag) == "--entities"@ && !takes_value(flag),
            Flag::Textures => flag_name(flag) == "--textures"@ && !takes_value(flag),
            Flag::Online => flag_name(flag) == "--online"@ && !takes_value(flag),
            Flag::AllowPublicServer => flag_name(flag) == "--allow-public-server"@ && !takes_value(
                flag,
            ),
            Flag::Help => flag_name(flag) == "--help"@ && !takes_value(flag),
        },
{
}

/// A value goes to the setting of its flag and to no other. Texts are taken as
/// they are; numbers must be within the range of their setting, and modes must
/// exist.
pub proof fn law_values_go_to_their_setting<A, D>(
    config: ConfigView<A, D>,
    value: Seq<char>,
    angle: A,
    distance: D,
)
    ensures
        with_value(config, Flag::Server, value, Some(angle), Some(distance)) == Some(
            ConfigView { server: value, ..config },
        ),
        with_value(config, Flag::Username, value, Some(angle), Some(distance)) == Some(
            ConfigView { username: value, ..config },
        ),
        match with_value(config, Flag::Width, value, Some(angle), Some(distance)) {
            Some(next) => unsigned_value(value, usize::MAX as nat) == Some(next.render.width as nat)
                && next == (ConfigView {
                render: RenderConfig { width: next.render.width, ..config.render },
                ..config
            }),
            None => unsigned_value(value, usize::MAX as nat) is None,
        },
        match with_value(config, Flag::Height, value, Some(angle), Some(distance)) {
            Some(next) => unsigned_value(value, usize::MAX as nat) == Some(
                next.render.height as nat,
            ) && next == (ConfigView {
                render: RenderConfig { height: next.render.height, ..config.render },
                ..config
            }),
            None => unsigned_value(value, usize::MAX as nat) is None,
        },
        match with_value(config, Flag::Fps, value, Some(angle), Some(distance)) {
            Some(next) => unsigned_value(value, u16::MAX as nat) == Some(next.target_fps as nat)
                && next == (ConfigView { target_fps: next.target_fps, ..config }),
            None => unsigned_value(value, u16::MAX as nat) is None,
        },
        match with_value(config, Flag::ViewDistance, value, Some(angle), Some(distance)) {
            Some(next) => unsigned_value(value, u8::MAX as nat) == Some(next.view_distance as nat)
                && next == (ConfigView { view_distance: next.view_distance, ..config }),
            None => unsigned_value(value, u8::MAX as nat) is None,
        },
        with_value(config, Flag::Distance, value, Some(angle), Some(distance)) == Some(
            ConfigView {
                render: RenderConfig { max_distance: distance, ..config.render },
                ..config
            },
        ),
        with_value(config, Flag::Fov, value, Some(angle), Some(distance)) == Some(
            ConfigView {
                render: RenderConfig { horizontal_fov_degrees: angle, ..config.render },
                ..config
            },
        ),
        with_value::<A, D>(config, Flag::Distance, value, Some(angle), None) is None,
        with_value::<A, D>(config, Flag::Fov, value, None, Some(distance)) is None,
        match with_value(config, Flag::Mode, value, Some(angle), Some(distance)) {
            Some(next) => value == mode_name(next.mode) && next == (ConfigView {
                mode: next.mode,
                ..config
            }),
            None => forall|mode: Mode| value != #[trigger] mode_name(mode),
        },
{
    assert forall|mode: Mode| mode_named(value) is None implies value != #[trigger] mode_name(
        mode,
    ) by {
        law_mode_names(mode, value);
    }
    if let Some(mode) = mode_named(value) {
        law_mode_names(mode, value);
    }
}

/// A switch turns on its own setting and changes no other.
pub proof fn law_switches_turn_on_their_setting<A, D>(config: ConfigView<A, D>)
    ensures
        with_switch(config, Flag::Entities) == (ConfigView { render_entities: true, ..config }),
        with_switch(config, Flag::Online) == (ConfigView { online_account: true, ..config }),
        with_switch(config, Flag::AllowPublicServer) == (ConfigView {
            allow_public_server: true,
            ..config
        }),
        with_switch(config, Flag::Textures).render.procedural_textures,
        with_switch(config, Flag::Textures) == (ConfigView {
            render: with_switch(config, Flag::Textures).render,
            ..config
        }),
        with_switch(config, Flag::Textures).render.width == config.render.width,
        with_switch(config, Flag::Textures).render.height == config.render.height,
{
}

/// Without arguments the program shows the view of a server on this machine:
/// the configuration is accepted as it is, for the mode that renders, and
/// nothing optional is on.
pub proof fn law_defaults_are_local<A, D>(fov: A, distance: D)
    ensures
        ({
            let config = default_config(fov, distance);
            &&& host_of(config.server) == "127.0.0.1"@
            &&& refusal(config, true, true, true) is None
            &&& !config.allow_public_server && !config.online_account && !config.render_entities
                && !config.render.procedural_textures
            &&& config.mode == Mode::Render
            &&& config.render.horizontal_fov_degrees == fov && config.render.max_distance
                == distance
        }),
        outcome(Seq::empty(), Seq::empty(), Seq::empty(), default_config(fov, distance), 0)
            == Outcome::Run(default_config(fov, distance)),
{
    reveal_strlit("127.0.0.1:25565");
    reveal_strlit("127.0.0.1");
    reveal_strlit("25565");
    assert("127.0.0.1:25565"@ =~= "127.0.0.1"@ + seq![':'] + "25565"@);
    assert forall|i: int| 0 <= i < "127.0.0.1"@.len() implies !bracket(
        #[trigger] "127.0.0.1"@[i],
    ) by {
        assert("127.0.0.1"@ =~= seq!['1', '2', '7', '.', '0', '.', '0', '.', '1']);
    }
    assert forall|i: int| 0 <= i < "25565"@.len() implies #[trigger] "25565"@[i] != ':' && !bracket(
        "25565"@[i],
    ) by {
        assert("25565"@ =~= seq!['2', '5', '5', '6', '5']);
    }
    law_port_is_dropped("127.0.0.1"@, "25565"@);
}

/// An address without a port is its own host.
pub proof fn law_plain_address_is_its_host(address: Seq<char>)
    requires
        forall|i: int|
            0 <= i < address.len() ==> #[trigger] address[i] != ':' && !bracket(address[i]),
    ensures
        host_of(address) == address,
{
    lemma_after_space(address, 0);
    lemma_last_of(address, ':', address.len() as int);
    lemma_no_brackets(address);
}

/// A configuration is accepted exactly if its host is of the loopback network
/// or another one is consented to, its frame is at most 240 by 80 and not
/// empty, and its angle and its distance are in range. The first of these that
/// fails is named.
pub proof fn law_refusals_name_the_first_fault<A, D>(
    config: ConfigView<A, D>,
    loopback_ip: bool,
    fov_in_range: bool,
    distance_in_range: bool,
)
    ensures
        ({
            let host = host_of(config.server);
            let local = host == "localhost"@ || host == "::1"@ || loopback_ip
                || config.allow_public_server;
            let sized = 1 <= config.render.width <= 240 && 1 <= config.render.height <= 80;
            let refused = refusal(config, loopback_ip, fov_in_range, distance_in_range);
            &&& refused is None <==> local && sized && fov_in_range && distance_in_range
            &&& refused == Some(ConfigError::PublicServer) <==> !local
            &&& refused == Some(ConfigError::Dimensions) <==> local && !sized
            &&& refused == Some(ConfigError::FieldOfView) <==> local && sized && !fov_in_range
            &&& refused == Some(ConfigError::Distance) <==> local && sized && fov_in_range
                && !distance_in_range
        }),
{
}

/// Arguments are read one after the other, a flag with its value or a switch by
/// itself, each on top of what was read before. The first one that cannot be
/// read is named with its place, and help ends the reading.
pub proof fn law_arguments_are_read_in_order<A, D>(
    args: Seq<String>,
    angles: Seq<Option<A>>,
    distances: Seq<Option<D>>,
    config: ConfigView<A, D>,
    i: nat,
    flag: Flag,
)
    requires
        i < args.len() <= usize::MAX,
    ensures
        args[i as int]@ == "-h"@ || args[i as int]@ == "--help"@ ==> outcome(
            args,
            angles,
            distances,
            config,
            i,
        ) == Outcome::<A, D>::Help,
        args[i as int]@ == flag_name(flag) && flag != Flag::Help && !takes_value(flag) ==> outcome(
            args,
            angles,
            distances,
            config,
            i,
        ) == outcome(args, angles, distances, with_switch(config, flag), i + 1),
        args[i as int]@ == flag_name(flag) && takes_value(flag) && i + 1 == args.len() ==> outcome(
            args,
            angles,
            distances,
            config,
            i,
        ) == Outcome::<A, D>::Fail(ArgumentError::MissingValue { flag }),
        args[i as int]@ == flag_name(flag) && takes_value(flag) && i + 1 < args.len() ==> {
            let next = with_value(
                config,
                flag,
                args[i as int + 1]@,
                angles[i as int + 1],
                distances[i as int + 1],
            );
            &&& next matches Some(read) ==> outcome(args, angles, distances, config, i) == outcome(
                args,
                angles,
                distances,
                read,
                i + 2,
            )
            &&& next is None && flag == Flag::Mode ==> outcome(args, angles, distances, config, i)
                == Outcome::<A, D>::Fail(ArgumentError::UnknownMode { at: (i + 1) as usize })
            &&& next is None && flag != Flag::Mode ==> outcome(args, angles, distances, config, i)
                == Outcome::<A, D>::Fail(
                ArgumentError::InvalidValue { flag, at: (i + 1) as usize },
            )
        },
        (args[i as int]@ != "-h"@ && forall|known: Flag| args[i as int]@ != #[trigger] flag_name(
            known,
        )) ==> outcome(args, angles, distances, config, i) == Outcome::<A, D>::Fail(
            ArgumentError::UnknownArgument { at: i as usize },
        ),
{
    law_flags_are_recognised(flag);
    law_flags_are_recognised(Flag::Help);
    lemma_short_help();
    if forall|known: Flag| args[i as int]@ != #[trigger] flag_name(known) {
        assert(args[i as int]@ != flag_name(Flag::Server));
        assert(args[i as int]@ != flag_name(Flag::Username));
        assert(args[i as int]@ != flag_name(Flag::Mode));
        assert(args[i as int]@ != flag_name(Flag::Width));
        assert(args[i as int]@ != flag_name(Flag::Height));
        assert(args[i as int]@ != flag_name(Flag::Fps));
        assert(args[i as int]@ != flag_name(Flag::Distance));
        assert(args[i as int]@ != flag_name(Flag::Fov));
        assert(args[i as int]@ != flag_name(Flag::ViewDistance));
        assert(args[i as int]@ != flag_name(Flag::Entities));
        assert(args[i as int]@ != flag_name(Flag::Textures));
        assert(args[i as int]@ != flag_name(Flag::Online));
        assert(args[i as int]@ != flag_name(Flag::AllowPublicServer));
        assert(args[i as int]@ != flag_name(Flag::Help));
    }
}

/// The short form of help is no other flag.
proof fn lemma_short_help()
    ensures
        flag_named("-h"@) == Some(Flag::Help),
{
    reveal_strlit("-h");
    assert("-h"@.len() == 2);
    reveal_strlit("--server");
    assert("--server"@.len() == 8);
    reveal_strlit("--username");
    assert("--username"@.len() == 10);
    reveal_strlit("--mode");
    assert("--mode"@.len() == 6);
    reveal_strlit("--width");
    assert("--width"@.len() == 7);
    reveal_strlit("--height");
    assert("--height"@.len() == 8);
    reveal_strlit("--fps");
    assert("--fps"@.len() == 5);
    reveal_strlit("--distance");
    assert("--distance"@.len() == 10);
    reveal_strlit("--fov");
    assert("--fov"@.len() == 5);
    reveal_strlit("--view-distance");
    assert("--view-distance"@.len() == 15);
    reveal_strlit("--entities");
    assert("--entities"@.len() == 10);
    reveal_strlit("--textures");
    assert("--textures"@.len() == 10);
    reveal_strlit("--online");
    assert("--online"@.len() == 8);
    reveal_strlit("--allow-public-server");
    assert("--allow-public-server"@.len() == 21);
}

/// A command line that asks for a valid configuration runs it: help, faults in
/// the arguments and refusals come only where they are due.
pub proof fn law_valid_configurations_run<
    A,
    D,
    L: Fn(&str) -> bool,
    F: Fn(A) -> bool,
    R: Fn(D) -> bool,
>(
    asked: Outcome<A, D>,
    is_loopback: L,
    fov_in_range: F,
    distance_in_range: R,
    start: Result<Request<A, D>, StartError>,
)
    requires
        is_start(asked, is_loopback, fov_in_range, distance_in_range, start),
    ensures
        asked matches Outcome::Run(view) ==> {
            let accepted = (forall|angle: A, fits: bool| #[trigger]
                call_ensures(fov_in_range, (angle,), fits) ==> fits) && (forall|
                distance: D,
                fits: bool,
            | #[trigger]
                call_ensures(distance_in_range, (distance,), fits) ==> fits);
            let local = view.allow_public_server || host_of(view.server) == "localhost"@ || host_of(
                view.server,
            ) == "::1"@ || forall|host: &str, answer: bool| #[trigger]
                call_ensures(is_loopback, (host,), answer) ==> answer;
            let sized = 1 <= view.render.width <= 240 && 1 <= view.render.height <= 80;
            &&& accepted && local && sized ==> (start matches Ok(Request::Run(config)) && config@
                == view)
            &&& !sized ==> start is Err
            &&& start matches Err(error) ==> (error matches StartError::Refused { server, .. }
                && server@ == view.server)
        },
        asked is Help <==> start == Ok::<Request<A, D>, StartError>(Request::Help),
        asked matches Outcome::Fail(fault) ==> (start matches Err(StartError::Arguments(error))
            && error == fault),
{
    if let Outcome::Run(view) = asked {
        let (host, answers) = choose|host: &str, answers: (bool, bool, bool)|
            #[trigger] tested(view, is_loopback, fov_in_range, distance_in_range, host, answers)
                && match refusal(view, answers.0, answers.1, answers.2) {
                None => start matches Ok(Request::Run(config)) && config@ == view,
                Some(reason) => start matches Err(StartError::Refused { server, error })
                    && server@ == view.server && error == reason,
            };
        assert(tested(view, is_loopback, fov_in_range, distance_in_range, host, answers));
    }
}

/// White space before a bracketed host is skipped.
pub proof fn law_leading_space_is_skipped(space: Seq<char>, host: Seq<char>, rest: Seq<char>)
    requires
        forall|i: int|
            0 <= i < space.len() ==> #[trigger] space[i] == ' ' || space[i] == '\t' || space[i]
                == '\n' || space[i] == '\r',
        forall|i: int| 0 <= i < host.len() ==> !bracket(#[trigger] host[i]),
    ensures
        host_of(space + (seq!['['] + host + seq![']'] + rest)) == host,
{
    let address = space + (seq!['['] + host + seq![']'] + rest);
    let n = space.len() as int;
    lemma_spaces(address, n, 0);
    assert(address[n] == '[');
    lemma_first_of(address, ']', n + 1);
    let close = first_of(address, ']', n + 1);
    assert(address[n + 1 + host.len()] == ']');
    if close < n + 1 + host.len() {
        assert(address[close] == host[close - n - 1]);
    }
    assert(address.subrange(n + 1, close) =~= host);
    lemma_no_brackets(host);
}

/// White space up to `end` is skipped.
proof fn lemma_spaces(text: Seq<char>, end: int, from: int)
    requires
        0 <= from <= end < text.len(),
        forall|i: int|
            from <= i < end ==> #[trigger] text[i] == ' ' || text[i] == '\t' || text[i] == '\n'
                || text[i] == '\r',
        text[end] == '[',
    ensures
        after_space(text, from) == end,
    decreases end - from,
{
    if from < end {
        assert(white_space(text[from]));
        lemma_spaces(text, end, from + 1);
    }
}

} // verus!
