//! Where the history lives on disk: the XDG data directory, or
//! `~/.local/share` when that is unset, empty or relative.
use vstd::prelude::*;

use crate::text::chars_of;

verus! {

/// Neither `XDG_DATA_HOME` nor `HOME` gives a usable data directory.
#[derive(Clone, Copy, Debug, Eq, PartialEq, Structural)]
pub struct DataPathError;

impl DataPathError {
    pub fn message(&self) -> (text: &'static str)
        ensures
            text@ == "neither XDG_DATA_HOME nor HOME provides a usable data directory"@,
    {
        "neither XDG_DATA_HOME nor HOME provides a usable data directory"
    }
}

/// A directory setting that can be used: present, non-empty and absolute,
/// so nothing resolves against the working directory.
pub open spec fn usable_directory(value: Option<Seq<char>>) -> bool {
    value matches Some(path) && path.len() > 0 && path[0] == '/'
}

/// `rel` appended to `base` with one separator, as a path join does.
pub open spec fn join_path(base: Seq<char>, rel: Seq<char>) -> Seq<char> {
    if base.len() > 0 && base.last() == '/' {
        base + rel
    } else {
        base + "/"@ + rel
    }
}

/// The data directory: `XDG_DATA_HOME` when usable, else `HOME/.local/share`
/// when `HOME` is usable.
pub open spec fn data_home(xdg_data_home: Option<Seq<char>>, home: Option<Seq<char>>) -> Option<
    Seq<char>,
> {
    if usable_directory(xdg_data_home) {
        xdg_data_home
    } else if usable_directory(home) {
        Some(join_path(home->0, ".local/share"@))
    } else {
        None
    }
}

pub open spec fn opt_view(value: Option<&str>) -> Option<Seq<char>> {
    match value {
        Some(s) => Some(s@),
        None => None,
    }
}

fn is_usable_directory(value: Option<&str>) -> (usable: bool)
    ensures
        usable == usable_directory(opt_view(value)),
{
    match value {
        Some(path) => {
            let chars = chars_of(path);
            chars.len() > 0 && chars[0] == '/'
        },
        None => false,
    }
}

/// Joins `rel` to `base` with one separator.
pub fn join(base: &str, rel: &str) -> (path: String)
    ensures
        path@ == join_path(base@, rel@),
{
    let chars = chars_of(base);
    let mut path = String::from_str(base);
    if !(chars.len() > 0 && chars[chars.len() - 1] == '/') {
        path.append("/");
    }
    path.append(rel);
    proof {
        if base@.len() > 0 {
            assert(base@.last() == chars@[chars@.len() - 1]);
        }
    }
    path
}

/// The data directory chosen from the two environment values.
pub fn data_home_from(xdg_data_home: Option<&str>, home: Option<&str>) -> (dir: Result<
    String,
    DataPathError,
>)
    ensures
        match dir {
            Ok(path) => data_home(opt_view(xdg_data_home), opt_view(home)) == Some(path@),
            Err(_) => data_home(opt_view(xdg_data_home), opt_view(home)) is None,
        },
{
    if is_usable_directory(xdg_data_home) {
        return Ok(String::from_str(xdg_data_home.unwrap()));
    }
    if is_usable_directory(home) {
        return Ok(join(home.unwrap(), ".local/share"));
    }
    Err(DataPathError)
}

/// The history database: `lionclip/lionclip.db` under the data directory.
pub fn database_path_from(xdg_data_home: Option<&str>, home: Option<&str>) -> (path: Result<
    String,
    DataPathError,
>)
    ensures
        match path {
            Ok(p) => data_home(opt_view(xdg_data_home), opt_view(home)) matches Some(dir) && p@
                == join_path(dir, "lionclip/lionclip.db"@),
            Err(_) => data_home(opt_view(xdg_data_home), opt_view(home)) is None,
        },
{
    match data_home_from(xdg_data_home, home) {
        Ok(dir) => Ok(join(dir.as_str(), "lionclip/lionclip.db")),
        Err(error) => Err(error),
    }
}

/// The files of one LionClip data directory.
#[derive(Clone, Debug, Eq, PartialEq)]
pub struct StoragePaths {
    root: String,
}

impl View for StoragePaths {
    type V = Seq<char>;

    closed spec fn view(&self) -> Seq<char> {
        self.root@
    }
}

impl StoragePaths {
    /// The files under `root`, the `lionclip` directory itself.
    pub fn for_root(root: String) -> (paths: Self)
        ensures
            paths@ == root@,
    {
        Self { root }
    }

    /// The files under the data directory chosen from the environment.
    pub fn from_environment(xdg_data_home: Option<&str>, home: Option<&str>) -> (paths: Result<
        Self,
        DataPathError,
    >)
        ensures
            match paths {
                Ok(p) => data_home(opt_view(xdg_data_home), opt_view(home)) matches Some(dir) && p@
                    == join_path(dir, "lionclip"@),
                Err(_) => data_home(opt_view(xdg_data_home), opt_view(home)) is None,
            },
    {
        match data_home_from(xdg_data_home, home) {
            Ok(dir) => Ok(Self { root: join(dir.as_str(), "lionclip") }),
            Err(error) => Err(error),
        }
    }

    pub fn root(&self) -> (root: &str)
        ensures
            root@ == self@,
    {
        self.root.as_str()
    }

    pub fn database(&self) -> (path: String)
        ensures
            path@ == join_path(self@, "lionclip.db"@),
    {
        join(self.root.as_str(), "lionclip.db")
    }

    /// The directory of image originals, named by content hash.
    pub fn blobs(&self) -> (path: String)
        ensures
            path@ == join_path(self@, "blobs"@),
    {
        join(self.root.as_str(), "blobs")
    }

    /// The directory of image thumbnails, named by content hash.
    pub fn thumbnails(&self) -> (path: String)
        ensures
            path@ == join_path(self@, "thumbnails"@),
    {
        join(self.root.as_str(), "thumbnails")
    }
}

/// A relative or empty setting never counts, so the data directory is
/// always absolute.
pub proof fn law_data_home_is_absolute(xdg_data_home: Option<Seq<char>>, home: Option<Seq<char>>)
    ensures
        data_home(xdg_data_home, home) matches Some(dir) ==> dir.len() > 0 && dir[0] == '/',
{
    if !usable_directory(xdg_data_home) && usable_directory(home) {
        let h = home->0;
        reveal_strlit("/");
        assert(join_path(h, ".local/share"@)[0] == h[0]);
    }
}

} // verus!
