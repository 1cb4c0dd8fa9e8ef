//! The directories of a gateway installation.

use vstd::prelude::*;
use vstd::string::StringExecFns;

verus! {

/// The path of the entry `name` in the directory `dir`.
pub open spec fn child_path(dir: Seq<char>, name: Seq<char>) -> Seq<char> {
    dir + "/"@ + name
}

/// The path of the entry `name` in the directory `dir`.
pub fn join(dir: &str, name: &str) -> (path: String)
    ensures
        path@ == child_path(dir@, name@),
{
    let mut path = dir.to_owned();
    path.append("/");
    path.append(name);
    path
}

/// The base directory that is used where none is configured:
/// `.webthings2` in the user's home directory.
pub fn default_base_dir(home: &str) -> (path: String)
    ensures
        path@ == child_path(home@, ".webthings2"@),
{
    join(home, ".webthings2")
}

/// The directories that an add-on is told about.
#[derive(Debug, Clone, PartialEq, Eq)]
pub struct UserProfile {
    pub addons_dir: String,
    pub base_dir: String,
    pub config_dir: String,
    pub data_dir: String,
    pub gateway_dir: String,
    pub log_dir: String,
    pub media_dir: String,
}

impl UserProfile {
    /// The layout below a base directory: `config`, `addons`, `data`, `log`
    /// and `media` are its subdirectories, and the gateway's own directory is
    /// the base directory itself.
    pub fn new(base_dir: &str) -> (profile: UserProfile)
        ensures
            profile.base_dir@ == base_dir@,
            profile.gateway_dir@ == base_dir@,
            profile.addons_dir@ == child_path(base_dir@, "addons"@),
            profile.config_dir@ == child_path(base_dir@, "config"@),
            profile.data_dir@ == child_path(base_dir@, "data"@),
            profile.log_dir@ == child_path(base_dir@, "log"@),
            profile.media_dir@ == child_path(base_dir@, "media"@),
    {
        UserProfile {
            addons_dir: join(base_dir, "addons"),
            base_dir: base_dir.to_owned(),
            config_dir: join(base_dir, "config"),
            data_dir: join(base_dir, "data"),
            gateway_dir: base_dir.to_owned(),
            log_dir: join(base_dir, "log"),
            media_dir: join(base_dir, "media"),
        }
    }

    /// A copy of the profile.
    pub fn duplicate(&self) -> (copy: UserProfile)
        ensures
            copy == *self,
    {
        UserProfile {
            addons_dir: self.addons_dir.clone(),
            base_dir: self.base_dir.clone(),
            config_dir: self.config_dir.clone(),
            data_dir: self.data_dir.clone(),
            gateway_dir: self.gateway_dir.clone(),
            log_dir: self.log_dir.clone(),
            media_dir: self.media_dir.clone(),
        }
    }

    /// The directory of the add-on `id`: its entry in the add-ons directory.
    pub fn addon_dir(&self, id: &str) -> (path: String)
        ensures
            path@ == child_path(self.addons_dir@, id@),
    {
        join(self.addons_dir.as_str(), id)
    }

    /// The path of the database file: `db.sqlite3` in the configuration
    /// directory.
    pub fn database_path(&self) -> (path: String)
        ensures
            path@ == child_path(self.config_dir@, "db.sqlite3"@),
    {
        join(self.config_dir.as_str(), "db.sqlite3")
    }
}

} // verus!
