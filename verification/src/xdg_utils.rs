//! The XDG base directories the launcher reads and writes, from the values
//! of the environment variables that set them.

use vstd::prelude::*;
use crate::icon::{joined_path, path_join};
use crate::text::{split, split_char};

verus! {

/// The data directories: those of `XDG_DATA_DIRS` (by default
/// `/usr/local/share:/usr/share`), then `XDG_DATA_HOME` or else
/// `$HOME/.local/share`, each joined with `dir`.
pub open spec fn data_dirs_spec(data_dirs: Option<Seq<char>>, data_home: Option<Seq<char>>, home: Option<Seq<char>>, dir: Seq<char>) -> Seq<Seq<char>> {
    let listed = split_char(
        match data_dirs {
            Some(d) => d,
            None => "/usr/local/share:/usr/share"@,
        },
        ':',
    );
    let all = match data_home {
        Some(h) => listed.push(h),
        None => match home {
            Some(h) => listed.push(joined_path(h, ".local/share"@)),
            None => listed,
        },
    };
    all.map_values(|p: Seq<char>| joined_path(p, dir))
}

/// The directories where `dir` (such as `applications` or `icons`) is
/// looked for, by order of preference (see `data_dirs_spec`); the
/// arguments are the values of `XDG_DATA_DIRS`, `XDG_DATA_HOME` and `HOME`.
pub fn xdg_directories(data_dirs: Option<String>, data_home: Option<String>, home: Option<String>, dir: &str) -> (r: Vec<String>)
    ensures
        r@.map_values(|s: String| s@) == data_dirs_spec(
            match data_dirs {
                Some(d) => Some(d@),
                None => None,
            },
            match data_home {
                Some(d) => Some(d@),
                None => None,
            },
            match home {
                Some(d) => Some(d@),
                None => None,
            },
            dir@,
        ),
{
    let list = match &data_dirs {
        Some(d) => split(d.as_str(), ':'),
        None => split("/usr/local/share:/usr/share", ':'),
    };
    let mut all = list;
    match &data_home {
        Some(h) => all.push(h.clone()),
        None => match &home {
            Some(h) => all.push(path_join(h.as_str(), ".local/share")),
            None => {},
        },
    }
    let ghost all_view = all@.map_values(|s: String| s@);
    let mut out: Vec<String> = Vec::new();
    let mut i: usize = 0;
    while i < all.len()
        invariant
            0 <= i <= all.len(),
            all_view == all@.map_values(|s: String| s@),
            out@.map_values(|s: String| s@) == all_view.take(i as int).map_values(|p: Seq<char>| joined_path(p, dir@)),
        decreases all.len() - i,
    {
        let ghost before = out@;
        out.push(path_join(all[i].as_str(), dir));
        proof {
            assert(all_view.take(i + 1) =~= all_view.take(i as int).push(all_view[i as int]));
            assert(out@.map_values(|s: String| s@) =~= before.map_values(|s: String| s@).push(
                joined_path(all_view[i as int], dir@),
            ));
        }
        i += 1;
    }
    proof {
        assert(all_view.take(all.len() as int) =~= all_view);
        match &data_home {
            Some(h) => {
                assert(all_view =~= list_view(data_dirs).push(h@));
            },
            None => match &home {
                Some(h) => {
                    assert(all_view =~= list_view(data_dirs).push(joined_path(h@, ".local/share"@)));
                },
                None => {
                    assert(all_view =~= list_view(data_dirs));
                },
            },
        }
    }
    out
}

/// The listed data directories.
spec fn list_view(data_dirs: Option<String>) -> Seq<Seq<char>> {
    split_char(
        match data_dirs {
            Some(d) => d@,
            None => "/usr/local/share:/usr/share"@,
        },
        ':',
    )
}

/// The directory of the launcher under a base directory: the base from its
/// variable, else `$HOME` joined with `fallback`; then `keal`. `None` when
/// neither is set.
pub open spec fn keal_dir_spec(base: Option<Seq<char>>, home: Option<Seq<char>>, fallback: Seq<char>) -> Option<Seq<char>> {
    match base {
        Some(b) => Some(joined_path(b, "keal"@)),
        None => match home {
            Some(h) => Some(joined_path(joined_path(h, fallback), "keal"@)),
            None => None,
        },
    }
}

fn keal_dir(base: Option<String>, home: Option<String>, fallback: &str) -> (r: Option<String>)
    ensures
        match r {
            Some(d) => keal_dir_spec(
                match base {
                    Some(b) => Some(b@),
                    None => None,
                },
                match home {
                    Some(h) => Some(h@),
                    None => None,
                },
                fallback@,
            ) == Some(d@),
            None => base is None && home is None,
        },
{
    match base {
        Some(b) => Some(path_join(b.as_str(), "keal")),
        None => match home {
            Some(h) => {
                let d = path_join(h.as_str(), fallback);
                Some(path_join(d.as_str(), "keal"))
            },
            None => None,
        },
    }
}

/// The configuration directory `~/.config/keal`, from the values of
/// `XDG_CONFIG_HOME` and `HOME`.
pub fn config_dir(config_home: Option<String>, home: Option<String>) -> (r: Result<String, &'static str>)
    ensures
        match r {
            Ok(d) => keal_dir_spec(
                match config_home {
                    Some(b) => Some(b@),
                    None => None,
                },
                match home {
                    Some(h) => Some(h@),
                    None => None,
                },
                ".config"@,
            ) == Some(d@),
            Err(e) => config_home is None && home is None && e@ == "neither $XDG_CONFIG_HOME nor $HOME are defined"@,
        },
{
    match keal_dir(config_home, home, ".config") {
        Some(d) => Ok(d),
        None => Err("neither $XDG_CONFIG_HOME nor $HOME are defined"),
    }
}

/// The state directory `~/.local/state/keal`, from the values of
/// `XDG_STATE_HOME` and `HOME`.
pub fn state_dir(state_home: Option<String>, home: Option<String>) -> (r: Result<String, &'static str>)
    ensures
        match r {
            Ok(d) => keal_dir_spec(
                match state_home {
                    Some(b) => Some(b@),
                    None => None,
                },
                match home {
                    Some(h) => Some(h@),
                    None => None,
                },
                ".local/state"@,
            ) == Some(d@),
            Err(e) => state_home is None && home is None && e@ == "neither $XDG_STATE_HOME nor $HOME are defined"@,
        },
{
    match keal_dir(state_home, home, ".local/state") {
        Some(d) => Ok(d),
        None => Err("neither $XDG_STATE_HOME nor $HOME are defined"),
    }
}

/// The directories searched for icons, by order of preference: each icon
/// theme under each icon directory, then `/usr/share/pixmaps`.
pub fn icon_search_dirs(themes: &Vec<String>, icon_dirs: &Vec<String>) -> (r: Vec<String>)
    ensures
        r@.len() == themes@.len() * icon_dirs@.len() + 1,
        forall|t: int, d: int|
            0 <= t < themes@.len() && 0 <= d < icon_dirs@.len() ==> #[trigger] r@[t * icon_dirs@.len() + d]@
                == joined_path(icon_dirs@[d]@, themes@[t]@),
        r@[r@.len() - 1]@ == "/usr/share/pixmaps"@,
{
    let mut out: Vec<String> = Vec::new();
    let n = icon_dirs.len();
    let mut t: usize = 0;
    while t < themes.len()
        invariant
            0 <= t <= themes.len(),
            n == icon_dirs@.len(),
            out@.len() == t * n,
            forall|tt: int, d: int|
                0 <= tt < t && 0 <= d < n ==> #[trigger] out@[tt * n + d]@ == joined_path(icon_dirs@[d]@, themes@[tt]@),
        decreases themes.len() - t,
    {
        let mut d: usize = 0;
        let ghost base = out@;
        while d < n
            invariant
                0 <= d <= n,
                n == icon_dirs@.len(),
                t < themes@.len(),
                out@.len() == t * n + d,
                forall|k: int| 0 <= k < t * n ==> #[trigger] out@[k] == base[k],
                base.len() == t * n,
                forall|dd: int| 0 <= dd < d ==> #[trigger] out@[t * n + dd]@ == joined_path(icon_dirs@[dd]@, themes@[t as int]@),
            decreases n - d,
        {
            out.push(path_join(icon_dirs[d].as_str(), themes[t].as_str()));
            d += 1;
        }
        proof {
            assert forall|tt: int, dd: int| 0 <= tt < t + 1 && 0 <= dd < n implies #[trigger] out@[tt * n + dd]@
                == joined_path(icon_dirs@[dd]@, themes@[tt]@) by {
                if tt < t {
                    assert(tt * n + dd < t * n) by (nonlinear_arith)
                        requires
                            tt < t,
                            dd < n,
                            0 <= tt,
                            0 <= dd,
                    ;
                    assert(0 <= tt * n + dd) by (nonlinear_arith)
                        requires
                            0 <= tt,
                            0 <= dd,
                            0 <= n,
                    ;
                    assert(out@[tt * n + dd] == base[tt * n + dd]);
                }
            }
            assert((t + 1) * n == t * n + n) by (nonlinear_arith);
        }
        t += 1;
    }
    out.push("/usr/share/pixmaps".to_owned());
    proof {
        assert forall|tt: int, dd: int| 0 <= tt < themes@.len() && 0 <= dd < n implies #[trigger] out@[tt * n + dd]@
            == joined_path(icon_dirs@[dd]@, themes@[tt]@) by {
            assert(tt * n + dd < themes@.len() * n) by (nonlinear_arith)
                requires
                    tt < themes@.len(),
                    dd < n,
                    0 <= tt,
                    0 <= dd,
            ;
            assert(0 <= tt * n + dd) by (nonlinear_arith)
                requires
                    0 <= tt,
                    0 <= dd,
                    0 <= n,
            ;
        }
    }
    out
}

} // verus!
