use vstd::prelude::*;
use crate::error::WsError;
use crate::text::{join_path, joined};

verus! {

/// The data directory: `<xdg>/ws` when `XDG_DATA_HOME` is set and not empty,
/// else `<home>/.local/share/ws`; `None` when neither is known.
pub open spec fn data_dir_spec(xdg: Option<Seq<char>>, home: Option<Seq<char>>) -> Option<Seq<char>> {
    match xdg {
        Some(x) if x.len() > 0 => Some(joined(x, "ws"@)),
        _ => match home {
            Some(h) => Some(joined(joined(joined(h, ".local"@), "share"@), "ws"@)),
            None => None,
        },
    }
}

pub open spec fn opt_view(o: Option<&str>) -> Option<Seq<char>> {
    match o {
        Some(s) => Some(s@),
        None => None,
    }
}

/// Resolves the data directory from the value of `XDG_DATA_HOME` and the home directory.
pub fn data_dir_with(xdg_data_home: Option<&str>, home: Option<&str>) -> (r: Result<String, WsError>)
    ensures
        match data_dir_spec(opt_view(xdg_data_home), opt_view(home)) {
            Some(d) => r matches Ok(s) && s@ == d,
            None => r matches Err(WsError::NoHome),
        },
{
    if let Some(x) = xdg_data_home {
        if x.unicode_len() > 0 {
            return Ok(join_path(x, "ws"));
        }
    }
    match home {
        Some(h) => {
            let a = join_path(h, ".local");
            let b = join_path(a.as_str(), "share");
            Ok(join_path(b.as_str(), "ws"))
        },
        None => Err(WsError::NoHome),
    }
}

/// The configuration file inside the data directory.
pub fn config_path(data_dir: &str) -> (r: String)
    ensures
        r@ == joined(data_dir@, "config.yaml"@),
{
    join_path(data_dir, "config.yaml")
}

/// The root under which all bare mirrors live.
pub fn mirrors_dir(data_dir: &str) -> (r: String)
    ensures
        r@ == joined(data_dir@, "mirrors"@),
{
    join_path(data_dir, "mirrors")
}

/// `<home>/dev/workspaces`, the default root of all workspaces.
pub fn default_workspaces_dir_with(home: Option<&str>) -> (r: Result<String, WsError>)
    ensures
        match home {
            Some(h) => r matches Ok(s) && s@ == joined(joined(h@, "dev"@), "workspaces"@),
            None => r matches Err(WsError::NoHome),
        },
{
    match home {
        Some(h) => {
            let a = join_path(h, "dev");
            Ok(join_path(a.as_str(), "workspaces"))
        },
        None => Err(WsError::NoHome),
    }
}

/// A group of registered repositories, by identity.
#[derive(Clone, Debug)]
pub struct GroupEntry {
    pub repos: Vec<String>,
}

} // verus!
