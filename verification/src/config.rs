use vstd::prelude::*;
use vstd::string::*;
use crate::input::{eq_lowered, matches_lowered};
use crate::save::{joined_path, path_join};

verus! {

/// A log level limit, from `Off` (nothing is logged) to `Trace`
/// (everything is).
#[derive(Debug, Clone, Copy, PartialEq, Eq, Structural)]
pub enum LogLevel {
    Off,
    Error,
    Warn,
    Info,
    Debug,
    Trace,
}

/// The level a name stands for: one of `off`, `error`, `warn`, `info`,
/// `debug`, `trace`, in any mix of ASCII case.
pub open spec fn level_named(s: Seq<char>) -> Option<LogLevel> {
    if matches_lowered(s, seq!['o', 'f', 'f']) {
        Some(LogLevel::Off)
    } else if matches_lowered(s, seq!['e', 'r', 'r', 'o', 'r']) {
        Some(LogLevel::Error)
    } else if matches_lowered(s, seq!['w', 'a', 'r', 'n']) {
        Some(LogLevel::Warn)
    } else if matches_lowered(s, seq!['i', 'n', 'f', 'o']) {
        Some(LogLevel::Info)
    } else if matches_lowered(s, seq!['d', 'e', 'b', 'u', 'g']) {
        Some(LogLevel::Debug)
    } else if matches_lowered(s, seq!['t', 'r', 'a', 'c', 'e']) {
        Some(LogLevel::Trace)
    } else {
        None
    }
}

impl LogLevel {
    /// The level `s` names, if it names one.
    pub fn parse(s: &str) -> (r: Option<LogLevel>)
        ensures
            r == level_named(s@),
    {
        proof {
            reveal_strlit("off");
            reveal_strlit("error");
            reveal_strlit("warn");
            reveal_strlit("info");
            reveal_strlit("debug");
            reveal_strlit("trace");
            assert("off"@ =~= seq!['o', 'f', 'f']);
            assert("error"@ =~= seq!['e', 'r', 'r', 'o', 'r']);
            assert("warn"@ =~= seq!['w', 'a', 'r', 'n']);
            assert("info"@ =~= seq!['i', 'n', 'f', 'o']);
            assert("debug"@ =~= seq!['d', 'e', 'b', 'u', 'g']);
            assert("trace"@ =~= seq!['t', 'r', 'a', 'c', 'e']);
        }
        if eq_lowered(s, "off") {
            Some(LogLevel::Off)
        } else if eq_lowered(s, "error") {
            Some(LogLevel::Error)
        } else if eq_lowered(s, "warn") {
            Some(LogLevel::Warn)
        } else if eq_lowered(s, "info") {
            Some(LogLevel::Info)
        } else if eq_lowered(s, "debug") {
            Some(LogLevel::Debug)
        } else if eq_lowered(s, "trace") {
            Some(LogLevel::Trace)
        } else {
            None
        }
    }
}

/// The command line of the engine.
#[derive(Debug, Clone)]
pub struct Args {
    /// off, error, warn, info, debug, trace
    pub log_level: String,
    /// The file to log to.
    pub file_log: String,
    /// Whether the log goes to the console.
    pub verbose: bool,
}

impl Default for Args {
    fn default() -> (r: Self)
        ensures
            r.log_level@ == "info"@,
            r.file_log@ == "./log.log"@,
            r.verbose,
    {
        Args {
            log_level: String::from_str("info"),
            file_log: String::from_str("./log.log"),
            verbose: true,
        }
    }
}

impl Args {
    /// The level to log at: the one the command line names, or `Info` when
    /// it names none.
    pub fn level(&self) -> (r: LogLevel)
        ensures
            r == match level_named(self.log_level@) {
                Some(l) => l,
                None => LogLevel::Info,
            },
    {
        match LogLevel::parse(self.log_level.as_str()) {
            Some(l) => l,
            None => LogLevel::Info,
        }
    }
}

/// The user's picture and document directories, where the system has them.
#[derive(Debug, Clone)]
pub struct UserDirs {
    pub picture_dir: Option<String>,
    pub document_dir: Option<String>,
}

/// Why the engine's directories could not be worked out.
#[derive(Debug, Clone, Copy, PartialEq, Eq, Structural)]
pub enum ConfigError {
    /// The system reports no home directory.
    NoUserDirs,
}

/// The game's name and its directories, and the frame rate.
#[derive(Debug, Clone)]
pub struct BaseConfig {
    pub name: String,
    pub capture_path: String,
    pub save_path: String,
    pub assets_path: String,
    pub fps: u32,
}

/// `dir`, or `fallback` where there is no `dir`.
pub open spec fn dir_or(dir: Option<String>, fallback: Seq<char>) -> Seq<char> {
    match dir {
        Some(d) => d@,
        None => fallback,
    }
}

impl BaseConfig {
    /// The configuration with its directories resolved: screenshots go
    /// under the picture directory, saves under the document directory,
    /// each in a folder named after the game (the directory of the
    /// executable stands in for a missing one); assets are found relative
    /// to the directory of the executable. Fails when the system has no
    /// user directories at all.
    pub fn build(&self, user_dirs: Option<UserDirs>, current_dir: &str) -> (r: Result<
        BaseConfig,
        ConfigError,
    >)
        ensures
            user_dirs is None ==> r == Err::<BaseConfig, ConfigError>(ConfigError::NoUserDirs),
            user_dirs matches Some(d) ==> r matches Ok(c) && c.name@ == self.name@ && c.fps
                == self.fps && c.capture_path@ == joined_path(
                joined_path(dir_or(d.picture_dir, current_dir@), self.name@),
                self.capture_path@,
            ) && c.save_path@ == joined_path(
                joined_path(dir_or(d.document_dir, current_dir@), self.name@),
                self.save_path@,
            ) && c.assets_path@ == joined_path(current_dir@, self.assets_path@),
    {
        match user_dirs {
            None => Err(ConfigError::NoUserDirs),
            Some(d) => {
                let pic_base = match &d.picture_dir {
                    Some(p) => p.as_str(),
                    None => current_dir,
                };
                let doc_base = match &d.document_dir {
                    Some(p) => p.as_str(),
                    None => current_dir,
                };
                let pic_game = path_join(pic_base, self.name.as_str());
                let pic_dir = path_join(pic_game.as_str(), self.capture_path.as_str());
                let doc_game = path_join(doc_base, self.name.as_str());
                let save_dir = path_join(doc_game.as_str(), self.save_path.as_str());
                let assets_dir = path_join(current_dir, self.assets_path.as_str());
                Ok(BaseConfig {
                    name: crate::text::to_string(self.name.as_str()),
                    capture_path: pic_dir,
                    save_path: save_dir,
                    assets_path: assets_dir,
                    fps: self.fps,
                })
            },
        }
    }
}

/// Finds assets on disk, relative to the assets directory.
#[derive(Debug, Clone)]
pub struct FSFallBack {
    pub asset_path: String,
}

impl FSFallBack {
    /// The file the asset called `key` is read from.
    pub fn full_path(&self, key: &str) -> (r: String)
        ensures
            r@ == joined_path(self.asset_path@, key@),
    {
        path_join(self.asset_path.as_str(), key)
    }
}

} // verus!
