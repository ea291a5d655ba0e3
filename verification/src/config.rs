//! System configuration.
//!
//! Parameters come from `~/.config/kensho/config.toml` (created with defaults on
//! first boot), overridable by `KENSHO_*` environment variables. Paths are Unix
//! paths, held as text.

use vstd::prelude::*;

use crate::text::{blank, is_blank, views};

verus! {

/// Default dev team for delegation.
pub const DEFAULT_TEAM: [&'static str; 3] = ["Waldston", "Joãozinho", "Rafaela"];

/// Smallest context window that is used.
pub const MIN_CONTEXT_SIZE: u32 = 256;

/// Shortest heartbeat interval that is used, in seconds.
pub const MIN_HEARTBEAT_SECS: u64 = 10;

/// Lowest sample rate that is used, in hertz.
pub const MIN_SAMPLE_RATE: u32 = 8000;

/// On-disk / env-overridable configuration schema.
#[derive(Debug)]
pub struct KenshoConfig {
    /// Path to the local Qwen `.gguf`. Empty → `<data_dir>/models/qwen.gguf`.
    pub model_path: String,
    pub always_on_top: bool,
    pub max_tokens: usize,
    pub context_size: u32,
    pub heartbeat_secs: u64,
    pub piper_bin: String,
    pub piper_model: String,
    pub piper_sample_rate: u32,
    pub mcp_port: u16,
    /// Valid delegation targets (the dev team).
    pub team_members: Vec<String>,
    /// Global hotkey, parsed by the shortcut plugin (e.g. "Ctrl+Shift+K").
    pub global_shortcut: String,
}

/// A configuration as a value.
#[verifier::ext_equal]
pub struct Settings {
    pub model_path: Seq<char>,
    pub always_on_top: bool,
    pub max_tokens: usize,
    pub context_size: u32,
    pub heartbeat_secs: u64,
    pub piper_bin: Seq<char>,
    pub piper_model: Seq<char>,
    pub piper_sample_rate: u32,
    pub mcp_port: u16,
    pub team_members: Seq<Seq<char>>,
    pub global_shortcut: Seq<char>,
}

impl View for KenshoConfig {
    type V = Settings;

    open spec fn view(&self) -> Settings {
        Settings {
            model_path: self.model_path@,
            always_on_top: self.always_on_top,
            max_tokens: self.max_tokens,
            context_size: self.context_size,
            heartbeat_secs: self.heartbeat_secs,
            piper_bin: self.piper_bin@,
            piper_model: self.piper_model@,
            piper_sample_rate: self.piper_sample_rate,
            mcp_port: self.mcp_port,
            team_members: views(self.team_members@),
            global_shortcut: self.global_shortcut@,
        }
    }
}

/// The default settings.
pub open spec fn default_settings() -> Settings {
    Settings {
        model_path: Seq::empty(),
        always_on_top: true,
        max_tokens: 512,
        context_size: 2048,
        heartbeat_secs: 300,
        piper_bin: "piper"@,
        piper_model: Seq::empty(),
        piper_sample_rate: 22050,
        mcp_port: 8181,
        team_members: DEFAULT_TEAM@.map_values(|name: &'static str| name@),
        global_shortcut: "Ctrl+Shift+K"@,
    }
}

impl Default for KenshoConfig {
    fn default() -> (r: Self)
        ensures
            r@ == default_settings(),
    {
        let team = DEFAULT_TEAM;
        let mut team_members: Vec<String> = Vec::new();
        let mut i: usize = 0;
        while i < team.len()
            invariant
                i <= team.len(),
                team_members@.len() == i,
                forall|j: int| 0 <= j < i ==> (#[trigger] team_members@[j])@ == team@[j]@,
            decreases team.len() - i,
        {
            team_members.push(team[i].to_string());
            i += 1;
        }
        let r = KenshoConfig {
            model_path: String::new(),
            always_on_top: true,
            max_tokens: 512,
            context_size: 2048,
            heartbeat_secs: 300,
            piper_bin: "piper".to_string(),
            piper_model: String::new(),
            piper_sample_rate: 22050,
            mcp_port: 8181,
            team_members,
            global_shortcut: "Ctrl+Shift+K".to_string(),
        };
        assert(r@.team_members =~= default_settings().team_members);
        r
    }
}

/// What is done about the config file before the settings are put together.
#[derive(Debug, Clone, Copy, PartialEq, Eq, Structural)]
pub enum ConfigFile {
    /// There is no place for one: the defaults and the environment stand alone.
    Nowhere,
    /// It is missing: write it with the defaults, then read it.
    Create,
    /// Read it.
    Read,
}

impl KenshoConfig {
    /// What to do about the config file, given whether there is a place for it and
    /// whether it is there.
    pub fn config_file(has_place: bool, present: bool) -> (r: ConfigFile)
        ensures
            r == if !has_place {
                ConfigFile::Nowhere
            } else if present {
                ConfigFile::Read
            } else {
                ConfigFile::Create
            },
    {
        if !has_place {
            ConfigFile::Nowhere
        } else if present {
            ConfigFile::Read
        } else {
            ConfigFile::Create
        }
    }

    /// The settings to run with, given what came of merging the defaults, the
    /// config file and the environment: an invalid configuration is replaced by
    /// the defaults.
    pub fn load(merged: Result<KenshoConfig, String>) -> (r: Self)
        ensures
            match merged {
                Ok(cfg) => r == cfg,
                Err(_) => r@ == default_settings(),
            },
    {
        match merged {
            Ok(cfg) => cfg,
            Err(_) => KenshoConfig::default(),
        }
    }
}

/// The path of `name`, a relative path, under the directory `base`.
pub open spec fn under(base: Seq<char>, name: Seq<char>) -> Seq<char> {
    if base.len() == 0 || base.last() == '/' {
        base + name
    } else {
        base.push('/') + name
    }
}

/// The path of `name`, a relative path, under the directory `base`.
fn path_under(base: &str, name: &str) -> (r: String)
    ensures
        r@ == under(base@, name@),
{
    let mut r = base.to_string();
    let n: usize = base.unicode_len();
    if n > 0 && base.get_char(n - 1) != '/' {
        r.push('/');
    }
    r.concat(name)
}

/// Resolved runtime configuration for the whole application.
#[derive(Debug)]
pub struct SystemConfig {
    pub data_dir: String,
    pub database_path: String,
    pub model_path: String,
    pub always_on_top: bool,
    pub max_tokens: usize,
    pub context_size: u32,
    pub heartbeat_secs: u64,
    pub piper_bin: String,
    pub piper_model: String,
    pub piper_sample_rate: u32,
    pub mcp_port: u16,
    pub team_members: Vec<String>,
    pub global_shortcut: String,
}

/// A resolved configuration as a value.
#[verifier::ext_equal]
pub struct Resolved {
    pub data_dir: Seq<char>,
    pub database_path: Seq<char>,
    pub model_path: Seq<char>,
    pub always_on_top: bool,
    pub max_tokens: usize,
    pub context_size: u32,
    pub heartbeat_secs: u64,
    pub piper_bin: Seq<char>,
    pub piper_model: Seq<char>,
    pub piper_sample_rate: u32,
    pub mcp_port: u16,
    pub team_members: Seq<Seq<char>>,
    pub global_shortcut: Seq<char>,
}

impl View for SystemConfig {
    type V = Resolved;

    open spec fn view(&self) -> Resolved {
        Resolved {
            data_dir: self.data_dir@,
            database_path: self.database_path@,
            model_path: self.model_path@,
            always_on_top: self.always_on_top,
            max_tokens: self.max_tokens,
            context_size: self.context_size,
            heartbeat_secs: self.heartbeat_secs,
            piper_bin: self.piper_bin@,
            piper_model: self.piper_model@,
            piper_sample_rate: self.piper_sample_rate,
            mcp_port: self.mcp_port,
            team_members: views(self.team_members@),
            global_shortcut: self.global_shortcut@,
        }
    }
}

/// The model file that is used: the configured path as it stands, or the usual
/// place under the data directory where none is configured.
pub open spec fn model_file(data_dir: Seq<char>, configured: Seq<char>) -> Seq<char> {
    if blank(configured) {
        under(under(data_dir, "models"@), "qwen.gguf"@)
    } else {
        configured
    }
}

/// The larger of two numbers.
pub open spec fn larger(a: int, b: int) -> int {
    if a >= b {
        a
    } else {
        b
    }
}

/// The runtime configuration that settings come to under `data_dir`.
pub open spec fn resolved(data_dir: Seq<char>, cfg: Settings) -> Resolved {
    Resolved {
        data_dir,
        database_path: under(data_dir, "kensho.sqlite"@),
        model_path: model_file(data_dir, cfg.model_path),
        always_on_top: cfg.always_on_top,
        max_tokens: cfg.max_tokens,
        context_size: larger(cfg.context_size as int, MIN_CONTEXT_SIZE as int) as u32,
        heartbeat_secs: larger(cfg.heartbeat_secs as int, MIN_HEARTBEAT_SECS as int) as u64,
        piper_bin: cfg.piper_bin,
        piper_model: cfg.piper_model,
        piper_sample_rate: larger(cfg.piper_sample_rate as int, MIN_SAMPLE_RATE as int) as u32,
        mcp_port: cfg.mcp_port,
        team_members: cfg.team_members,
        global_shortcut: cfg.global_shortcut,
    }
}

impl SystemConfig {
    /// Settle the configuration (file + env) and resolve runtime paths under
    /// `data_dir`.
    pub fn from_data_dir(data_dir: String, merged: Result<KenshoConfig, String>) -> (r: Self)
        ensures
            r@ == resolved(
                data_dir@,
                match merged {
                    Ok(cfg) => cfg@,
                    Err(_) => default_settings(),
                },
            ),
    {
        SystemConfig::resolve(data_dir, KenshoConfig::load(merged))
    }

    /// Resolve runtime paths under `data_dir`, and raise values that are too low.
    pub fn resolve(data_dir: String, cfg: KenshoConfig) -> (r: Self)
        ensures
            r@ == resolved(data_dir@, cfg@),
    {
        let model_path = if is_blank(cfg.model_path.as_str()) {
            path_under(path_under(data_dir.as_str(), "models").as_str(), "qwen.gguf")
        } else {
            cfg.model_path
        };
        let context_size: u32 = if cfg.context_size < MIN_CONTEXT_SIZE {
            MIN_CONTEXT_SIZE
        } else {
            cfg.context_size
        };
        let heartbeat_secs: u64 = if cfg.heartbeat_secs < MIN_HEARTBEAT_SECS {
            MIN_HEARTBEAT_SECS
        } else {
            cfg.heartbeat_secs
        };
        let piper_sample_rate: u32 = if cfg.piper_sample_rate < MIN_SAMPLE_RATE {
            MIN_SAMPLE_RATE
        } else {
            cfg.piper_sample_rate
        };
        SystemConfig {
            database_path: path_under(data_dir.as_str(), "kensho.sqlite"),
            data_dir,
            model_path,
            always_on_top: cfg.always_on_top,
            max_tokens: cfg.max_tokens,
            context_size,
            heartbeat_secs,
            piper_bin: cfg.piper_bin,
            piper_model: cfg.piper_model,
            piper_sample_rate,
            mcp_port: cfg.mcp_port,
            team_members: cfg.team_members,
            global_shortcut: cfg.global_shortcut,
        }
    }
}

/// Whatever is configured, the values that have a lower limit respect it.
pub proof fn law_limits_hold(data_dir: Seq<char>, cfg: Settings)
    ensures
        resolved(data_dir, cfg).context_size >= MIN_CONTEXT_SIZE,
        resolved(data_dir, cfg).heartbeat_secs >= MIN_HEARTBEAT_SECS,
        resolved(data_dir, cfg).piper_sample_rate >= MIN_SAMPLE_RATE,
{
}

/// The default settings.
pub proof fn law_defaults()
    ensures
        ({
            let d = default_settings();
            &&& d.model_path.len() == 0
            &&& d.always_on_top
            &&& d.max_tokens == 512
            &&& d.context_size == 2048
            &&& d.heartbeat_secs == 300
            &&& d.piper_bin == "piper"@
            &&& d.piper_model.len() == 0
            &&& d.piper_sample_rate == 22050
            &&& d.mcp_port == 8181
            &&& d.team_members == seq!["Waldston"@, "Joãozinho"@, "Rafaela"@]
            &&& d.global_shortcut == "Ctrl+Shift+K"@
        }),
{
    assert(default_settings().team_members =~= seq!["Waldston"@, "Joãozinho"@, "Rafaela"@]);
}

/// What is configured is what is run with: only values under their limit are raised
/// to it, and only a blank model path is filled in.
pub proof fn law_settings_are_kept(data_dir: Seq<char>, cfg: Settings)
    ensures
        ({
            let r = resolved(data_dir, cfg);
            &&& r.data_dir == data_dir
            &&& !blank(cfg.model_path) ==> r.model_path == cfg.model_path
            &&& r.always_on_top == cfg.always_on_top
            &&& r.max_tokens == cfg.max_tokens
            &&& r.context_size == if cfg.context_size < 256 {
                256
            } else {
                cfg.context_size
            }
            &&& r.heartbeat_secs == if cfg.heartbeat_secs < 10 {
                10
            } else {
                cfg.heartbeat_secs
            }
            &&& r.piper_bin == cfg.piper_bin
            &&& r.piper_model == cfg.piper_model
            &&& r.piper_sample_rate == if cfg.piper_sample_rate < 8000 {
                8000
            } else {
                cfg.piper_sample_rate
            }
            &&& r.mcp_port == cfg.mcp_port
            &&& r.team_members == cfg.team_members
            &&& r.global_shortcut == cfg.global_shortcut
        }),
{
}

/// The database, and the model where none is configured, lie under the data
/// directory: behind its path and one slash. A path that ends with a slash, or is
/// empty, gets no other.
pub proof fn law_paths_lie_under_the_data_dir(data_dir: Seq<char>, cfg: Settings)
    ensures
        ({
            let r = resolved(data_dir, cfg);
            let slash = if data_dir.len() == 0 || data_dir.last() == '/' {
                Seq::<char>::empty()
            } else {
                seq!['/']
            };
            &&& r.database_path == data_dir + slash + "kensho.sqlite"@
            &&& blank(cfg.model_path) ==> r.model_path == data_dir + slash + "models/qwen.gguf"@
        }),
{
    reveal_strlit("models");
    reveal_strlit("qwen.gguf");
    reveal_strlit("models/qwen.gguf");
    let slash = if data_dir.len() == 0 || data_dir.last() == '/' {
        Seq::<char>::empty()
    } else {
        seq!['/']
    };
    let models = under(data_dir, "models"@);
    assert(models =~= data_dir + slash + "models"@);
    assert(models.last() == 's');
    assert("models/qwen.gguf"@ =~= "models"@.push('/') + "qwen.gguf"@);
    assert(under(models, "qwen.gguf"@) =~= data_dir + slash + "models/qwen.gguf"@);
    assert(under(data_dir, "kensho.sqlite"@) =~= data_dir + slash + "kensho.sqlite"@);
}

/// Settings as a value hold all that the configuration holds.
pub proof fn law_settings_are_the_config(c: KenshoConfig)
    ensures
        c@.model_path == c.model_path@,
        c@.always_on_top == c.always_on_top,
        c@.max_tokens == c.max_tokens,
        c@.context_size == c.context_size,
        c@.heartbeat_secs == c.heartbeat_secs,
        c@.piper_bin == c.piper_bin@,
        c@.piper_model == c.piper_model@,
        c@.piper_sample_rate == c.piper_sample_rate,
        c@.mcp_port == c.mcp_port,
        c@.team_members.len() == c.team_members@.len(),
        forall|i: int|
            0 <= i < c.team_members@.len() ==> #[trigger] c@.team_members[i] == c.team_members@[i]@,
        c@.global_shortcut == c.global_shortcut@,
{
}

/// A resolved configuration as a value holds all that it holds.
pub proof fn law_resolved_is_the_config(c: SystemConfig)
    ensures
        c@.data_dir == c.data_dir@,
        c@.database_path == c.database_path@,
        c@.model_path == c.model_path@,
        c@.always_on_top == c.always_on_top,
        c@.max_tokens == c.max_tokens,
        c@.context_size == c.context_size,
        c@.heartbeat_secs == c.heartbeat_secs,
        c@.piper_bin == c.piper_bin@,
        c@.piper_model == c.piper_model@,
        c@.piper_sample_rate == c.piper_sample_rate,
        c@.mcp_port == c.mcp_port,
        c@.team_members.len() == c.team_members@.len(),
        forall|i: int|
            0 <= i < c.team_members@.len() ==> #[trigger] c@.team_members[i] == c.team_members@[i]@,
        c@.global_shortcut == c.global_shortcut@,
{
}

} // verus!
