//! The optional `rusthome.toml` of a data directory: rules preset, runtime parameters, run
//! limits and the Zigbee2MQTT section; validation, merging with defaults, and resolution
//! against command-line overrides.
use vstd::prelude::*;
use crate::config::{ConfigSnapshot, PhysicalProjectionMode};
use crate::pipeline::RunLimits;
use crate::text::{
    ascii_lower_seq, concat2, concat3, contains_char, debug_str, debug_text, dec_text, int_text,
    i64_text, owned, str_eq, to_ascii_lowercase, trim, trim_ws, u64_text,
};

verus! {

/// `[zigbee2mqtt]`: bridge control when Zigbee2MQTT shares the broker.
#[derive(PartialEq, Eq, Debug, Default)]
pub struct Zigbee2MqttConfig {
    /// Topic prefix (e.g. `zigbee2mqtt`).
    pub mqtt_topic_prefix: Option<String>,
    /// Default permit-join duration in seconds, 1–900.
    pub permit_join_seconds: Option<u64>,
}

impl Clone for Zigbee2MqttConfig {
    fn clone(&self) -> (r: Self)
        ensures
            r == *self,
    {
        Zigbee2MqttConfig {
            mqtt_topic_prefix: match &self.mqtt_topic_prefix {
                Some(p) => Some(p.clone()),
                None => None,
            },
            permit_join_seconds: self.permit_join_seconds,
        }
    }
}

/// The prefix used when none (or only white space) is configured.
pub open spec fn resolved_prefix_spec(p: Option<String>) -> Seq<char> {
    match p {
        Some(s) => if trim_ws(s@).len() > 0 {
            trim_ws(s@)
        } else {
            "zigbee2mqtt"@
        },
        None => "zigbee2mqtt"@,
    }
}

impl Zigbee2MqttConfig {
    /// Effective topic prefix (non-empty).
    pub fn resolved_topic_prefix(&self) -> (r: String)
        ensures
            r@ == resolved_prefix_spec(self.mqtt_topic_prefix),
    {
        match &self.mqtt_topic_prefix {
            Some(p) => {
                let t = trim(p.as_str());
                if t.as_str().is_empty() {
                    owned("zigbee2mqtt")
                } else {
                    t
                }
            },
            None => owned("zigbee2mqtt"),
        }
    }

    /// Effective permit-join duration: the configured one (120 when absent) clamped to 1–900.
    pub fn resolved_permit_join_seconds(&self) -> (r: u64)
        ensures
            ({
                let v = match self.permit_join_seconds {
                    Some(v) => v,
                    None => 120,
                };
                r == if v < 1 {
                    1
                } else if v > 900 {
                    900
                } else {
                    v
                }
            }),
    {
        let v = match self.permit_join_seconds {
            Some(v) => v,
            None => 120,
        };
        if v < 1 {
            1
        } else if v > 900 {
            900
        } else {
            v
        }
    }
}

/// `[run_limits]`: omitted fields keep the engine defaults.
#[derive(PartialEq, Eq, Debug, Default)]
pub struct RunLimitsConfig {
    pub max_events_per_run: Option<u64>,
    pub max_events_generated_per_root: Option<u64>,
    pub max_wall_ms_per_run: Option<u64>,
    pub max_pending_events: Option<usize>,
}

/// Parsed `rusthome.toml` (every field optional).
#[derive(PartialEq, Eq, Debug, Default)]
pub struct RusthomeFile {
    pub rules_preset: Option<String>,
    /// `simulation` or `io_anchored`.
    pub physical_projection_mode: Option<String>,
    /// Logical time delta of `Dispatched.logical_deadline`.
    pub io_timeout_logical_delta: Option<i64>,
    pub run_limits: Option<RunLimitsConfig>,
    pub zigbee2mqtt: Option<Zigbee2MqttConfig>,
}

/// Accepted physical projection modes, for messages.
pub const PHYSICAL_MODES_HELP: &'static str = "simulation, io_anchored";

// ------------------------------------------------------------------ rules presets

/// Rule bundles a data directory can select.
#[derive(Clone, Copy, PartialEq, Eq, Structural, Debug)]
pub enum RulesPreset {
    V0,
    Home,
    Minimal,
}

/// The preset an identifier names.
pub open spec fn preset_of(s: Seq<char>) -> Option<RulesPreset> {
    if s == "v0"@ {
        Some(RulesPreset::V0)
    } else if s == "home"@ {
        Some(RulesPreset::Home)
    } else if s == "minimal"@ {
        Some(RulesPreset::Minimal)
    } else {
        None
    }
}

/// The message for an unknown preset identifier.
pub open spec fn unknown_preset_message(s: Seq<char>) -> Seq<char> {
    "unknown rules preset "@ + debug_text(s)
}

impl RulesPreset {
    /// The identifiers, for messages.
    pub const PRESET_IDS: &'static str = "v0, home, minimal";

    /// Parses a preset identifier.
    pub fn parse(s: &str) -> (r: Result<RulesPreset, String>)
        ensures
            match preset_of(s@) {
                Some(p) => r == Ok::<RulesPreset, String>(p),
                None => r matches Err(m) && m@ == unknown_preset_message(s@),
            },
    {
        if str_eq(s, "v0") {
            Ok(RulesPreset::V0)
        } else if str_eq(s, "home") {
            Ok(RulesPreset::Home)
        } else if str_eq(s, "minimal") {
            Ok(RulesPreset::Minimal)
        } else {
            let d = debug_str(s);
            Err(concat2("unknown rules preset ", d.as_str()))
        }
    }

    /// The identifier of the preset.
    pub fn as_str(&self) -> (r: &'static str)
        ensures
            r@ == match *self {
                RulesPreset::V0 => "v0"@,
                RulesPreset::Home => "home"@,
                RulesPreset::Minimal => "minimal"@,
            },
    {
        match self {
            RulesPreset::V0 => "v0",
            RulesPreset::Home => "home",
            RulesPreset::Minimal => "minimal",
        }
    }

    /// Snapshot rules digest of the preset.
    pub fn default_rules_digest(&self) -> (r: &'static str)
        ensures
            r@ == match *self {
                RulesPreset::V0 => "rules-v0"@,
                RulesPreset::Home => "rules-home"@,
                RulesPreset::Minimal => "rules-minimal"@,
            },
    {
        match self {
            RulesPreset::V0 => "rules-v0",
            RulesPreset::Home => "rules-home",
            RulesPreset::Minimal => "rules-minimal",
        }
    }
}

// ------------------------------------------------------------------ validation

/// The physical projection mode a (trimmed, ASCII case-insensitive) value names.
pub open spec fn mode_of(s: Seq<char>) -> Option<PhysicalProjectionMode> {
    let t = ascii_lower_seq(trim_ws(s));
    if t == "simulation"@ {
        Some(PhysicalProjectionMode::Simulation)
    } else if t == "io_anchored"@ {
        Some(PhysicalProjectionMode::IoAnchored)
    } else {
        None
    }
}

/// Parses a physical projection mode.
pub fn parse_physical_projection_mode(s: &str) -> (r: Option<PhysicalProjectionMode>)
    ensures
        r == mode_of(s@),
{
    let t = trim(s);
    let l = to_ascii_lowercase(t.as_str());
    if str_eq(l.as_str(), "simulation") {
        Some(PhysicalProjectionMode::Simulation)
    } else if str_eq(l.as_str(), "io_anchored") {
        Some(PhysicalProjectionMode::IoAnchored)
    } else {
        None
    }
}

/// The first problem of a `[zigbee2mqtt]` section, if any.
pub open spec fn zigbee2mqtt_error(z: Zigbee2MqttConfig) -> Option<Seq<char>> {
    let prefix_err = match z.mqtt_topic_prefix {
        Some(p) => {
            let t = trim_ws(p@);
            if t.len() == 0 {
                Some("zigbee2mqtt.mqtt_topic_prefix: must not be empty when set"@)
            } else if t.contains('#') || t.contains('+') || t.contains(' ') {
                Some("zigbee2mqtt.mqtt_topic_prefix: must not contain #, +, or spaces"@)
            } else {
                None
            }
        },
        None => None,
    };
    match prefix_err {
        Some(e) => Some(e),
        None => match z.permit_join_seconds {
            Some(s) => if s == 0 || s > 900 {
                Some(
                    "zigbee2mqtt.permit_join_seconds: must be between 1 and 900, got "@ + dec_text(
                        s as nat,
                    ),
                )
            } else {
                None
            },
            None => None,
        },
    }
}

/// Validates a `[zigbee2mqtt]` section.
pub fn validate_zigbee2mqtt_config(z: &Zigbee2MqttConfig) -> (r: Result<(), String>)
    ensures
        match zigbee2mqtt_error(*z) {
            None => r is Ok,
            Some(m) => r matches Err(e) && e@ == m,
        },
{
    match &z.mqtt_topic_prefix {
        Some(p) => {
            let t = trim(p.as_str());
            if t.as_str().is_empty() {
                return Err(owned("zigbee2mqtt.mqtt_topic_prefix: must not be empty when set"));
            }
            if contains_char(t.as_str(), '#') || contains_char(t.as_str(), '+') || contains_char(
                t.as_str(),
                ' ',
            ) {
                return Err(
                    owned("zigbee2mqtt.mqtt_topic_prefix: must not contain #, +, or spaces"),
                );
            }
        },
        None => {},
    }
    match z.permit_join_seconds {
        Some(s) => {
            if s == 0 || s > 900 {
                let n = u64_text(s);
                return Err(
                    concat2(
                        "zigbee2mqtt.permit_join_seconds: must be between 1 and 900, got ",
                        n.as_str(),
                    ),
                );
            }
        },
        None => {},
    }
    Ok(())
}

/// The first zero limit of a `[run_limits]` section, if any.
pub open spec fn run_limits_error(rl: RunLimitsConfig) -> Option<Seq<char>> {
    if rl.max_events_per_run == Some(0u64) {
        Some("run_limits.max_events_per_run: must be > 0"@)
    } else if rl.max_events_generated_per_root == Some(0u64) {
        Some("run_limits.max_events_generated_per_root: must be > 0"@)
    } else if rl.max_wall_ms_per_run == Some(0u64) {
        Some("run_limits.max_wall_ms_per_run: must be > 0"@)
    } else if rl.max_pending_events == Some(0usize) {
        Some("run_limits.max_pending_events: must be > 0"@)
    } else {
        None
    }
}

/// Validates a `[run_limits]` section: every set limit is positive.
pub fn validate_run_limits_config(rl: &RunLimitsConfig) -> (r: Result<(), String>)
    ensures
        match run_limits_error(*rl) {
            None => r is Ok,
            Some(m) => r matches Err(e) && e@ == m,
        },
{
    if rl.max_events_per_run == Some(0u64) {
        return Err(owned("run_limits.max_events_per_run: must be > 0"));
    }
    if rl.max_events_generated_per_root == Some(0u64) {
        return Err(owned("run_limits.max_events_generated_per_root: must be > 0"));
    }
    if rl.max_wall_ms_per_run == Some(0u64) {
        return Err(owned("run_limits.max_wall_ms_per_run: must be > 0"));
    }
    if rl.max_pending_events == Some(0usize) {
        return Err(owned("run_limits.max_pending_events: must be > 0"));
    }
    Ok(())
}

/// The first problem of a `rusthome.toml`, if any: unknown rules preset, unknown physical mode,
/// non-positive IO timeout, zero run limit, bad `[zigbee2mqtt]`.
pub open spec fn rusthome_file_error(file: RusthomeFile) -> Option<Seq<char>> {
    let preset_err = match file.rules_preset {
        Some(s) => {
            let t = trim_ws(s@);
            if t.len() > 0 && preset_of(t) is None {
                Some(
                    "rules_preset: "@ + unknown_preset_message(t) + " (expected one of: "@
                        + "v0, home, minimal"@ + ")"@,
                )
            } else {
                None
            }
        },
        None => None,
    };
    let mode_err = match file.physical_projection_mode {
        Some(s) => {
            let t = trim_ws(s@);
            if t.len() > 0 && mode_of(t) is None {
                Some(
                    "physical_projection_mode: unknown value "@ + debug_text(t) + " (expected "@
                        + "simulation, io_anchored"@ + ")"@,
                )
            } else {
                None
            }
        },
        None => None,
    };
    let delta_err = match file.io_timeout_logical_delta {
        Some(d) => if d <= 0 {
            Some("io_timeout_logical_delta: must be > 0, got "@ + int_text(d as int))
        } else {
            None
        },
        None => None,
    };
    if preset_err is Some {
        preset_err
    } else if mode_err is Some {
        mode_err
    } else if delta_err is Some {
        delta_err
    } else if file.run_limits is Some && run_limits_error(file.run_limits->Some_0) is Some {
        run_limits_error(file.run_limits->Some_0)
    } else if file.zigbee2mqtt is Some {
        zigbee2mqtt_error(file.zigbee2mqtt->Some_0)
    } else {
        None
    }
}

/// Validates the fields that are set (typos, values out of domain).
pub fn validate_rusthome_file(file: &RusthomeFile) -> (r: Result<(), String>)
    ensures
        match rusthome_file_error(*file) {
            None => r is Ok,
            Some(m) => r matches Err(e) && e@ == m,
        },
{
    proof {
        reveal_strlit("v0, home, minimal");
        reveal_strlit("simulation, io_anchored");
    }
    match &file.rules_preset {
        Some(s) => {
            let t = trim(s.as_str());
            if !t.as_str().is_empty() {
                match RulesPreset::parse(t.as_str()) {
                    Ok(_) => {},
                    Err(e) => {
                        let a = concat3("rules_preset: ", e.as_str(), " (expected one of: ");
                        return Err(concat3(a.as_str(), RulesPreset::PRESET_IDS, ")"));
                    },
                }
            }
        },
        None => {},
    }
    match &file.physical_projection_mode {
        Some(s) => {
            let t = trim(s.as_str());
            if !t.as_str().is_empty() {
                if parse_physical_projection_mode(t.as_str()).is_none() {
                    let d = debug_str(t.as_str());
                    let a = concat3("physical_projection_mode: unknown value ", d.as_str(), " (expected ");
                    return Err(concat3(a.as_str(), PHYSICAL_MODES_HELP, ")"));
                }
            }
        },
        None => {},
    }
    match file.io_timeout_logical_delta {
        Some(d) => {
            if d <= 0 {
                let n = i64_text(d);
                return Err(concat2("io_timeout_logical_delta: must be > 0, got ", n.as_str()));
            }
        },
        None => {},
    }
    match &file.run_limits {
        Some(rl) => {
            match validate_run_limits_config(rl) {
                Ok(()) => {},
                Err(e) => {
                    return Err(e);
                },
            }
        },
        None => {},
    }
    match &file.zigbee2mqtt {
        Some(z) => validate_zigbee2mqtt_config(z),
        None => Ok(()),
    }
}

// ------------------------------------------------------------------ merging

/// `[run_limits]` merged over the engine defaults.
pub fn build_run_limits(file: &RusthomeFile) -> (lim: RunLimits)
    ensures
        match file.run_limits {
            None => lim == (RunLimits {
                max_events_per_run: 10_000,
                max_events_generated_per_root: 500,
                max_wall_ms_per_run: 30_000,
                max_pending_events: 50_000,
            }),
            Some(rl) => {
                &&& lim.max_events_per_run == match rl.max_events_per_run {
                    Some(v) => v,
                    None => 10_000,
                }
                &&& lim.max_events_generated_per_root == match rl.max_events_generated_per_root {
                    Some(v) => v,
                    None => 500,
                }
                &&& lim.max_wall_ms_per_run == match rl.max_wall_ms_per_run {
                    Some(v) => v,
                    None => 30_000,
                }
                &&& lim.max_pending_events == match rl.max_pending_events {
                    Some(v) => v,
                    None => 50_000,
                }
            },
        },
{
    let mut lim = RunLimits::default();
    let rl = match &file.run_limits {
        Some(rl) => rl,
        None => {
            return lim;
        },
    };
    match rl.max_events_per_run {
        Some(v) => {
            lim.max_events_per_run = v;
        },
        None => {},
    }
    match rl.max_events_generated_per_root {
        Some(v) => {
            lim.max_events_generated_per_root = v;
        },
        None => {},
    }
    match rl.max_wall_ms_per_run {
        Some(v) => {
            lim.max_wall_ms_per_run = v;
        },
        None => {},
    }
    match rl.max_pending_events {
        Some(v) => {
            lim.max_pending_events = v;
        },
        None => {},
    }
    lim
}

/// Runtime configuration: `io_anchored_cli` forces `IoAnchored`; otherwise the file's mode, else
/// `Simulation`. The IO timeout comes from the file, else 60.
pub fn build_runtime_config(file: &RusthomeFile, io_anchored_cli: bool) -> (cfg: ConfigSnapshot)
    ensures
        cfg.io_timeout_logical_delta == match file.io_timeout_logical_delta {
            Some(d) => d,
            None => 60,
        },
        cfg.physical_projection_mode == if io_anchored_cli {
            PhysicalProjectionMode::IoAnchored
        } else {
            match file.physical_projection_mode {
                Some(s) => if trim_ws(s@).len() > 0 && mode_of(trim_ws(s@)) is Some {
                    mode_of(trim_ws(s@))->Some_0
                } else {
                    PhysicalProjectionMode::Simulation
                },
                None => PhysicalProjectionMode::Simulation,
            }
        },
{
    let mut cfg = ConfigSnapshot::default();
    match file.io_timeout_logical_delta {
        Some(d) => {
            cfg.io_timeout_logical_delta = d;
        },
        None => {},
    }
    cfg.physical_projection_mode = if io_anchored_cli {
        PhysicalProjectionMode::IoAnchored
    } else {
        match &file.physical_projection_mode {
            Some(s) => {
                let t = trim(s.as_str());
                if t.as_str().is_empty() {
                    PhysicalProjectionMode::Simulation
                } else {
                    match parse_physical_projection_mode(t.as_str()) {
                        Some(m) => m,
                        None => PhysicalProjectionMode::Simulation,
                    }
                }
            },
            None => PhysicalProjectionMode::Simulation,
        }
    };
    cfg
}

/// The preset identifier in force: the command line's if non-empty, else the file's if
/// non-empty, else `v0` (each trimmed).
pub open spec fn preset_choice(cli: Option<Seq<char>>, file: RusthomeFile) -> Seq<char> {
    match cli {
        Some(c) if trim_ws(c).len() > 0 => trim_ws(c),
        _ => match file.rules_preset {
            Some(s) if trim_ws(s@).len() > 0 => trim_ws(s@),
            _ => "v0"@,
        },
    }
}

/// Resolves the rules preset: command line, then file, then `v0`.
pub fn resolve_rules_preset(cli_preset: Option<&str>, file: &RusthomeFile) -> (r: Result<
    RulesPreset,
    String,
>)
    ensures
        ({
            let cli = match cli_preset {
                Some(c) => Some(c@),
                None => None,
            };
            let s = preset_choice(cli, *file);
            match preset_of(s) {
                Some(p) => r == Ok::<RulesPreset, String>(p),
                None => r matches Err(m) && m@ == unknown_preset_message(s),
            }
        }),
{
    let from_cli: Option<String> = match cli_preset {
        Some(c) => {
            let t = trim(c);
            if t.as_str().is_empty() {
                None
            } else {
                Some(t)
            }
        },
        None => None,
    };
    let s = match from_cli {
        Some(t) => t,
        None => {
            let from_file: Option<String> = match &file.rules_preset {
                Some(p) => {
                    let t = trim(p.as_str());
                    if t.as_str().is_empty() {
                        None
                    } else {
                        Some(t)
                    }
                },
                None => None,
            };
            match from_file {
                Some(t) => t,
                None => owned(RulesPreset::V0.as_str()),
            }
        },
    };
    RulesPreset::parse(s.as_str())
}

/// Snapshot digest: the command line's if non-empty (trimmed), else the preset's default.
pub fn resolve_rules_digest(cli_digest: Option<&str>, preset: RulesPreset) -> (r: String)
    ensures
        r@ == match cli_digest {
            Some(c) if trim_ws(c@).len() > 0 => trim_ws(c@),
            _ => match preset {
                RulesPreset::V0 => "rules-v0"@,
                RulesPreset::Home => "rules-home"@,
                RulesPreset::Minimal => "rules-minimal"@,
            },
        },
{
    match cli_digest {
        Some(c) => {
            let t = trim(c);
            if !t.as_str().is_empty() {
                return t;
            }
        },
        None => {},
    }
    owned(preset.default_rules_digest())
}

} // verus!
