//! The birthday file: its records, where it is looked for, and the entries
//! derived from it.

use crate::entry::{ConfigEntry, Entry, EntryError};
use crate::text::{push_str, string_from_chars};
use crate::zone::{known_zone, INSTANT_RANGE};
use directories::BaseDirs;
use vstd::prelude::*;

verus! {

/// The birthday file in the configuration directory, after its path.
pub const CONFIG_DIR_FILE: &'static str = "/bday.toml";

/// The birthday file in the current directory.
pub const WORKING_DIR_FILE: &'static str = "./bday.toml";

/// The birthday file under `.config` in a home directory, after the home path.
pub const HOME_CONFIG_FILE: &'static str = "/.config/bday.toml";

/// The birthday file directly in a home directory, after the home path.
pub const HOME_FILE: &'static str = "/.bday.toml";

/// The birthday file written when no configuration directory is known.
pub const FALLBACK_FILE: &'static str = "~/.config/bday.toml";

/// The records of the birthday file, in the order in which they were added.
pub struct Config {
    pub birthdays: Vec<ConfigEntry>,
}

impl Config {
    /// Every record holds a valid birthday.
    pub open spec fn wf(self) -> bool {
        forall|i: int| 0 <= i < self.birthdays@.len() ==> (#[trigger] self.birthdays@[i]).date.wf()
    }

    /// Appends a record.
    pub fn add_entry(&mut self, entry: ConfigEntry)
        ensures
            final(self).birthdays@ == old(self).birthdays@.push(entry),
    {
        self.birthdays.push(entry);
    }
}

impl Default for Config {
    fn default() -> (r: Config)
        ensures
            r.birthdays@.len() == 0,
    {
        Config { birthdays: Vec::new() }
    }
}

/// The birthday file: where it is and what it holds.
pub struct ConfigFile {
    pub path: String,
    pub config: Config,
}

/// Relies on directories' `BaseDirs::new` and `BaseDirs::config_dir`: the
/// user's configuration directory, when a home directory is known and the
/// path is valid Unicode.
#[verifier::external_body]
fn user_config_dir() -> (r: Option<String>) {
    BaseDirs::new().and_then(|dirs| dirs.config_dir().to_str().map(String::from))
}

/// Relies on directories' `BaseDirs::new` and `BaseDirs::home_dir`: the
/// user's home directory, when it is known and the path is valid Unicode.
#[verifier::external_body]
fn user_home_dir() -> (r: Option<String>) {
    BaseDirs::new().and_then(|dirs| dirs.home_dir().to_str().map(String::from))
}

/// A place where the birthday file is looked for or written.
#[derive(Clone, Copy, Debug, PartialEq, Eq, Structural)]
pub enum ConfigLocation {
    /// `bday.toml` in the current directory.
    WorkingDir,
    /// `bday.toml` in the user's configuration directory.
    ConfigDir,
    /// `bday.toml` in `.config` under the home directory.
    HomeConfigDir,
    /// `.bday.toml` in the home directory.
    Home,
    /// `bday.toml` under the literal path `~/.config/`, when no configuration
    /// directory is known.
    FallbackConfigDir,
}

/// The places searched for the birthday file, in order; those whose
/// directory is not known are left out.
pub open spec fn search_order(config_dir_known: bool, home_known: bool) -> Seq<ConfigLocation> {
    seq![ConfigLocation::WorkingDir] + (if config_dir_known {
        seq![ConfigLocation::ConfigDir]
    } else {
        Seq::<ConfigLocation>::empty()
    }) + (if home_known {
        seq![ConfigLocation::HomeConfigDir, ConfigLocation::Home]
    } else {
        Seq::<ConfigLocation>::empty()
    })
}

/// Where the birthday file is written when none was found.
pub open spec fn default_location(config_dir_known: bool) -> ConfigLocation {
    if config_dir_known {
        ConfigLocation::ConfigDir
    } else {
        ConfigLocation::FallbackConfigDir
    }
}

/// The directory that a location lies in, or the empty text for the two
/// locations given by a fixed path.
pub open spec fn location_dir(
    location: ConfigLocation,
    config_dir: Option<String>,
    home: Option<String>,
) -> Seq<char> {
    match location {
        ConfigLocation::ConfigDir => match config_dir {
            Some(d) => d@,
            None => Seq::<char>::empty(),
        },
        ConfigLocation::HomeConfigDir | ConfigLocation::Home => match home {
            Some(h) => h@,
            None => Seq::<char>::empty(),
        },
        _ => Seq::<char>::empty(),
    }
}

/// The path of the birthday file at `location`: the directory, the
/// separator and the file's name.
pub open spec fn location_text(
    location: ConfigLocation,
    config_dir: Option<String>,
    home: Option<String>,
) -> Seq<char> {
    location_dir(location, config_dir, home) + match location {
        ConfigLocation::WorkingDir => WORKING_DIR_FILE@,
        ConfigLocation::ConfigDir => CONFIG_DIR_FILE@,
        ConfigLocation::HomeConfigDir => HOME_CONFIG_FILE@,
        ConfigLocation::Home => HOME_FILE@,
        ConfigLocation::FallbackConfigDir => FALLBACK_FILE@,
    }
}

/// The user's configuration directory and home directory, where known.
pub fn known_directories() -> (r: (Option<String>, Option<String>)) {
    (user_config_dir(), user_home_dir())
}

/// The path of the birthday file at `location`, given the known directories.
pub fn location_path(
    location: ConfigLocation,
    config_dir: &Option<String>,
    home: &Option<String>,
) -> (r: String)
    ensures
        r@ == location_text(location, *config_dir, *home),
{
    let mut out: Vec<char> = Vec::new();
    match location {
        ConfigLocation::ConfigDir => match config_dir {
            Some(d) => push_str(d.as_str(), &mut out),
            None => {},
        },
        ConfigLocation::HomeConfigDir | ConfigLocation::Home => match home {
            Some(h) => push_str(h.as_str(), &mut out),
            None => {},
        },
        _ => {},
    }
    assert(out@ =~= location_dir(location, *config_dir, *home));
    let name = match location {
        ConfigLocation::WorkingDir => WORKING_DIR_FILE,
        ConfigLocation::ConfigDir => CONFIG_DIR_FILE,
        ConfigLocation::HomeConfigDir => HOME_CONFIG_FILE,
        ConfigLocation::Home => HOME_FILE,
        ConfigLocation::FallbackConfigDir => FALLBACK_FILE,
    };
    push_str(name, &mut out);
    string_from_chars(&out)
}

impl ConfigFile {
    /// Where the birthday file is written when none was found: the user's
    /// configuration directory, else `~/.config/`.
    pub fn default_path(config_dir: &Option<String>) -> (r: (ConfigLocation, String))
        ensures
            r.0 == default_location(config_dir is Some),
            r.1@ == location_text(r.0, *config_dir, None),
    {
        let location = match config_dir {
            Some(_) => ConfigLocation::ConfigDir,
            None => ConfigLocation::FallbackConfigDir,
        };
        (location, location_path(location, config_dir, &None))
    }
}

impl Default for ConfigFile {
    /// An empty birthday file at the default place for the user's
    /// configuration directory, as the platform reports it.
    fn default() -> (r: ConfigFile)
        ensures
            r.config.birthdays@.len() == 0,
            exists|config_dir: Option<String>|
                r.path@ == #[trigger] location_text(
                    default_location(config_dir is Some),
                    config_dir,
                    None,
                ),
    {
        let config_dir = user_config_dir();
        let (_, path) = ConfigFile::default_path(&config_dir);
        ConfigFile { path, config: Config::default() }
    }
}

/// The places where the birthday file is looked for, in order: the current
/// directory, the user's configuration directory, `.config` in the home
/// directory, and the home directory itself. Places whose directory is not
/// known are left out.
pub fn config_candidates(config_dir: &Option<String>, home: &Option<String>) -> (r: Vec<
    (ConfigLocation, String),
>)
    ensures
        r@.len() == search_order(config_dir is Some, home is Some).len(),
        forall|i: int|
            0 <= i < r@.len() ==> {
                &&& (#[trigger] r@[i]).0 == search_order(config_dir is Some, home is Some)[i]
                &&& r@[i].1@ == location_text(r@[i].0, *config_dir, *home)
            },
{
    let ghost order = search_order(config_dir is Some, home is Some);
    let mut r: Vec<(ConfigLocation, String)> = Vec::new();
    let mut locations: Vec<ConfigLocation> = Vec::new();
    locations.push(ConfigLocation::WorkingDir);
    if config_dir.is_some() {
        locations.push(ConfigLocation::ConfigDir);
    }
    if home.is_some() {
        locations.push(ConfigLocation::HomeConfigDir);
        locations.push(ConfigLocation::Home);
    }
    assert(locations@ =~= order);
    let mut i: usize = 0;
    while i < locations.len()
        invariant
            i <= locations@.len(),
            locations@ == order,
            order == search_order(config_dir is Some, home is Some),
            r@.len() == i,
            forall|k: int|
                0 <= k < i ==> {
                    &&& (#[trigger] r@[k]).0 == order[k]
                    &&& r@[k].1@ == location_text(r@[k].0, *config_dir, *home)
                },
        decreases locations@.len() - i,
    {
        let location = locations[i];
        let path = location_path(location, config_dir, home);
        r.push((location, path));
        i = i + 1;
    }
    r
}

/// The first place whose file exists, given for each place whether it does.
pub fn first_existing(exists: &Vec<bool>) -> (r: Option<usize>)
    ensures
        r matches Some(i) ==> i < exists@.len() && exists@[i as int] && forall|j: int|
            0 <= j < i ==> !exists@[j],
        r is None ==> forall|j: int| 0 <= j < exists@.len() ==> !exists@[j],
{
    let mut i: usize = 0;
    while i < exists.len()
        invariant
            i <= exists@.len(),
            forall|j: int| 0 <= j < i ==> !exists@[j],
        decreases exists@.len() - i,
    {
        if exists[i] {
            return Some(i);
        }
        i = i + 1;
    }
    None
}

/// The zone of every record is known to the zone database, where it has one.
pub open spec fn zones_known(birthdays: Seq<ConfigEntry>) -> bool {
    forall|i: int|
        0 <= i < birthdays.len() ==> ((#[trigger] birthdays[i]).timezone matches Some(n)
            ==> known_zone(n@))
}

/// The entries of every record at instant `now`, in order; the first record
/// that cannot become an entry gives the error.
pub fn entries_from_config(config: Config, now: i64) -> (r: Result<Vec<Entry>, EntryError>)
    requires
        config.wf(),
        -INSTANT_RANGE <= now <= INSTANT_RANGE,
    ensures
        config.birthdays@.len() == 0 ==> (r matches Ok(v) && v@.len() == 0),
        !zones_known(config.birthdays@) ==> r is Err,
        zones_known(config.birthdays@) ==> !(r matches Err(EntryError::TimezoneParseError(_))),
        r matches Err(EntryError::TimezoneParseError(s)) ==> exists|i: int|
            0 <= i < config.birthdays@.len() && (#[trigger] config.birthdays@[i]).timezone == Some(s)
                && !known_zone(s@),
        r matches Ok(v) ==> {
            &&& zones_known(config.birthdays@)
            &&& v@.len() == config.birthdays@.len()
            &&& forall|i: int|
                0 <= i < v@.len() ==> (#[trigger] v@[i]).derived_from(config.birthdays@[i])
        },
{
    let ghost records = config.birthdays@;
    let mut rest = config.birthdays;
    let mut out: Vec<Entry> = Vec::new();
    let mut i: usize = 0;
    let total = rest.len();
    assert(rest@ =~= records.subrange(0, records.len() as int));
    while rest.len() > 0
        invariant
            i + rest@.len() == records.len(),
            records.len() == total,
            records == config.birthdays@,
            -INSTANT_RANGE <= now <= INSTANT_RANGE,
            rest@ == records.subrange(i as int, records.len() as int),
            forall|k: int| 0 <= k < records.len() ==> (#[trigger] records[k]).date.wf(),
            out@.len() == i,
            zones_known(records.subrange(0, i as int)),
            forall|k: int| 0 <= k < i ==> (#[trigger] out@[k]).derived_from(records[k]),
        decreases rest@.len(),
    {
        let record = rest.remove(0);
        assert(record == records[i as int]);
        let result = Entry::try_from(record, now);
        assert((result matches Err(EntryError::TimezoneParseError(_))) ==> (
        records[i as int].timezone matches Some(n) && !known_zone(n@)));
        match result {
            Ok(e) => {
                out.push(e);
            },
            Err(err) => {
                assert(zones_known(records) ==> (records[i as int].timezone matches Some(n)
                    ==> known_zone(n@)));
                assert(err matches EntryError::TimezoneParseError(s) ==> (
                records[i as int].timezone == Some(s) && !known_zone(s@)));
                return Err(err);
            },
        }
        assert(records.subrange(i + 1 as int, records.len() as int) =~= rest@);
        assert(zones_known(records.subrange(0, i + 1 as int))) by {
            assert forall|k: int| 0 <= k < i + 1 implies ((#[trigger] records.subrange(0, i + 1 as int)[k]).timezone matches Some(n) ==> known_zone(n@)) by {
                if k < i {
                    assert(records.subrange(0, i + 1 as int)[k] == records.subrange(0, i as int)[k]);
                }
            }
        }
        i = i + 1;
    }
    assert(records.subrange(0, i as int) =~= records);
    Ok(out)
}

} // verus!
