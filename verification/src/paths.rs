//! Where files lie: a root that the system knows, and the names below it.

use vstd::prelude::*;

verus! {

/// The systems that the program runs on.
#[derive(Debug, Clone, Copy)]
pub enum Platform {
    Windows,
    MacOs,
}

/// A directory that only the system knows.
#[derive(Debug, Clone, Copy, PartialEq, Eq, Structural)]
pub enum Root {
    /// The directory of the running executable.
    Executable,
    /// The user's home directory.
    Home,
}

/// A file or directory: the names that lead to it from a root.
pub struct Location {
    pub root: Root,
    pub names: Vec<&'static str>,
}

/// The texts of a list of names.
pub open spec fn name_texts(names: Seq<&'static str>) -> Seq<Seq<char>> {
    names.map_values(|name: &'static str| name@)
}

impl Location {
    /// The texts of the names.
    pub open spec fn texts(self) -> Seq<Seq<char>> {
        name_texts(self.names@)
    }

    /// The entry `name` of the directory.
    fn join(self, name: &'static str) -> (r: Location)
        ensures
            r.root == self.root,
            r.texts() == self.texts().push(name@),
    {
        let mut names = self.names;
        names.push(name);
        let r = Location { root: self.root, names };
        assert(r.texts() =~= self.texts().push(name@));
        r
    }
}

/// The directory of the running executable.
pub fn app_base_dir() -> (r: Location)
    ensures
        r.root == Root::Executable,
        r.texts() == Seq::<Seq<char>>::empty(),
{
    let r = Location { root: Root::Executable, names: Vec::new() };
    assert(r.texts() =~= Seq::<Seq<char>>::empty());
    r
}

/// The user's home directory.
fn home() -> (r: Location)
    ensures
        r.root == Root::Home,
        r.texts() == Seq::<Seq<char>>::empty(),
{
    let r = Location { root: Root::Home, names: Vec::new() };
    assert(r.texts() =~= Seq::<Seq<char>>::empty());
    r
}

/// The file of settings, beside the executable.
pub fn config_path() -> (r: Location)
    ensures
        r.root == Root::Executable,
        r.texts() =~= seq!["config.json"@],
{
    app_base_dir().join("config.json")
}

/// The directory of the program's own files, beside the executable.
pub fn data_dir() -> (r: Location)
    ensures
        r.root == Root::Executable,
        r.texts() =~= seq!["data"@],
{
    app_base_dir().join("data")
}

/// The file of stored tokens.
pub fn auth_tokens_path() -> (r: Location)
    ensures
        r.root == Root::Executable,
        r.texts() =~= seq!["data"@, "auth.json"@],
{
    data_dir().join("auth.json")
}

/// The file that keeps a second instance from starting.
pub fn instance_lock_path() -> (r: Location)
    ensures
        r.root == Root::Executable,
        r.texts() =~= seq!["data"@, "instance.lock"@],
{
    data_dir().join("instance.lock")
}

/// The directory in which a system's programs keep a user's data.
pub open spec fn user_data_texts(platform: Platform) -> Seq<Seq<char>> {
    match platform {
        Platform::Windows => seq!["AppData"@, "Local"@],
        Platform::MacOs => seq!["Library"@, "Application Support"@],
    }
}

fn user_data_dir(platform: Platform) -> (r: Location)
    ensures
        r.root == Root::Home,
        r.texts() =~= user_data_texts(platform),
{
    match platform {
        Platform::Windows => home().join("AppData").join("Local"),
        Platform::MacOs => home().join("Library").join("Application Support"),
    }
}

/// The log of the game.
pub fn riot_log_path(platform: Platform) -> (r: Location)
    ensures
        r.root == Root::Home,
        r.texts() =~= user_data_texts(platform) + seq![
            "VALORANT"@,
            "Saved"@,
            "Logs"@,
            "ShooterGame.log"@,
        ],
{
    user_data_dir(platform).join("VALORANT").join("Saved").join("Logs").join("ShooterGame.log")
}

/// The directory of the Riot client's settings.
pub fn riot_client_config_dir(platform: Platform) -> (r: Location)
    ensures
        r.root == Root::Home,
        r.texts() =~= user_data_texts(platform) + seq!["Riot Games"@, "Riot Client"@, "Config"@],
{
    user_data_dir(platform).join("Riot Games").join("Riot Client").join("Config")
}

/// The Riot client's lockfile.
pub fn lockfile_path(platform: Platform) -> (r: Location)
    ensures
        r.root == Root::Home,
        r.texts() =~= user_data_texts(platform) + seq![
            "Riot Games"@,
            "Riot Client"@,
            "Config"@,
            "lockfile"@,
        ],
{
    riot_client_config_dir(platform).join("lockfile")
}

} // verus!
