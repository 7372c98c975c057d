//! Command-line model and the location of the two configuration files.
use vstd::prelude::*;

verus! {

/// The two configuration files.
#[derive(Clone, Copy, PartialEq, Eq, Structural, Debug)]
pub enum ConfigType {
    /// The routine registry.
    Schedule,
    /// The completion record.
    State,
}

/// What the user asked for.
pub enum Command {
    /// List the agenda; `verbose` lists every upcoming routine.
    Show { verbose: bool },
    /// Complete the given routines, in order.
    Done { ids: Vec<String> },
    /// Print where a configuration file lives.
    Path { config_type: ConfigType },
}

/// A parsed command line.
pub struct Cli {
    /// Folder holding `schedule.toml` and `state.toml`, when given.
    pub config_folder: Option<String>,
    pub command: Command,
}

impl ConfigType {
    /// The file's base name.
    pub open spec fn stem(self) -> Seq<char> {
        match self {
            ConfigType::Schedule => "schedule"@,
            ConfigType::State => "state"@,
        }
    }

    /// The file's base name.
    pub fn file_stem(&self) -> (r: &'static str)
        ensures
            r@ == self.stem(),
    {
        match self {
            ConfigType::Schedule => "schedule",
            ConfigType::State => "state",
        }
    }

    /// Where the file lives: `<folder>/<stem>.toml` in the given folder, or else
    /// `<home>/.config/looper/<stem>.toml`; an error when neither is known.
    pub fn get_path(&self, config_folder: Option<&String>, home: Option<&String>) -> (r: Result<
        String,
        String,
    >)
        ensures
            config_folder matches Some(folder) ==> (r matches Ok(path) && path@ == folder@ + "/"@
                + self.stem() + ".toml"@),
            config_folder is None ==> (home matches Some(home) ==> (r matches Ok(path) && path@
                == home@ + "/.config/looper/"@ + self.stem() + ".toml"@)),
            config_folder is None && home is None ==> (r matches Err(message) && message@
                == "Environment variable $HOME not set"@),
    {
        let mut path = match config_folder {
            Some(folder) => {
                let mut path = folder.clone();
                path.append("/");
                path
            },
            None => match home {
                Some(home) => {
                    let mut path = home.clone();
                    path.append("/.config/looper/");
                    path
                },
                None => return Err("Environment variable $HOME not set".to_owned()),
            },
        };
        path.append(self.file_stem());
        path.append(".toml");
        Ok(path)
    }
}

} // verus!
