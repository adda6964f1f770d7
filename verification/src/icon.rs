//! Icons: a name looked up in the icon theme, or a path to a file.

use vstd::prelude::*;
use crate::assoc::{assoc_find, assoc_get, assoc_insert, unique_keys};
use crate::text::{chars_of, rsplit_once, starts_with, str_eq, string_of_range};

verus! {

/// What `Path::extension` returns for the path `p`: the part of the file
/// name after its last dot, if any.
pub uninterp spec fn path_extension(p: Seq<char>) -> Option<Seq<char>>;

/// The part of a path after its last `/` (the whole path when it has none).
pub open spec fn last_component(p: Seq<char>) -> Seq<char> {
    match rsplit_once(p, '/') {
        Some((_, after)) => after,
        None => p,
    }
}

/// The extension of a file name: what follows its last dot, unless it has
/// no dot or its only dot starts it.
pub open spec fn name_extension(n: Seq<char>) -> Option<Seq<char>> {
    match rsplit_once(n, '.') {
        Some((before, after)) => if before.len() == 0 {
            None
        } else {
            Some(after)
        },
        None => None,
    }
}

/// Calls `Path::extension` on `p`. When the path ends in a file name (the
/// text after its last `/` is neither empty, `.` nor `..`), the result is
/// that name's extension. Otherwise it is named, not stated: it depends on
/// how the path splits into components (trailing `/` and `.` are skipped).
#[verifier::external_body]
fn extension(p: &str) -> (r: Option<String>)
    ensures
        match r {
            Some(e) => path_extension(p@) == Some(e@),
            None => path_extension(p@) is None,
        },
        ({
            let n = last_component(p@);
            n.len() > 0 && n != seq!['.'] && n != seq!['.', '.'] ==> match r {
                Some(e) => name_extension(n) == Some(e@),
                None => name_extension(n) is None,
            }
        }),
{
    std::path::Path::new(p).extension().map(|e| e.to_string_lossy().into_owned())
}

/// A file that holds an icon.
#[derive(Debug)]
pub enum Icon {
    Svg(String),
    Other(String),
}

/// An icon to show: a name to look up, or a file.
#[derive(Debug)]
pub enum IconPath {
    Name(String),
    Path(Icon),
}

/// The icon for a file: vector when its extension is `svg`.
pub open spec fn icon_of_path(p: Seq<char>) -> (bool, Seq<char>) {
    (path_extension(p) == Some("svg"@), p)
}

/// An icon seen as whether it is a vector image, and its path.
pub open spec fn icon_view(i: Icon) -> (bool, Seq<char>) {
    match i {
        Icon::Svg(p) => (true, p@),
        Icon::Other(p) => (false, p@),
    }
}

/// `cwd` joined with the relative path `p` (`Path::join`): a `/` goes between
/// unless `cwd` is empty or already ends with one.
pub open spec fn join_path(cwd: Seq<char>, p: Seq<char>) -> Seq<char> {
    if cwd.len() == 0 || cwd.last() == '/' {
        cwd + p
    } else {
        cwd + seq!['/'] + p
    }
}

/// `Path::join` of `dir` and `p`: `p` itself when it is absolute, else `p`
/// after `dir` (see `join_path`).
pub open spec fn joined_path(dir: Seq<char>, p: Seq<char>) -> Seq<char> {
    if p.len() > 0 && p[0] == '/' {
        p
    } else {
        join_path(dir, p)
    }
}

/// Joins the path `p` to the directory `dir` (see `joined_path`).
pub fn path_join(dir: &str, p: &str) -> (r: String)
    ensures
        r@ == joined_path(dir@, p@),
{
    let v = chars_of(p);
    if v.len() > 0 && v[0] == '/' {
        return p.to_owned();
    }
    let d = chars_of(dir);
    proof {
        reveal_strlit("");
        reveal_strlit("/");
    }
    if d.len() == 0 || d[d.len() - 1] == '/' {
        let r = crate::utf8_text::concat3(dir, "", p);
        assert(dir@ + ""@ + p@ =~= join_path(dir@, p@));
        r
    } else {
        let r = crate::utf8_text::concat3(dir, "/", p);
        assert(dir@ + "/"@ + p@ =~= join_path(dir@, p@));
        r
    }
}

/// A path whose first component is `.` (`Path::starts_with("./")`).
pub open spec fn starts_with_current_dir(p: Seq<char>) -> bool {
    p == seq!['.'] || starts_with(p, seq!['.', '/'])
}

/// The kind of icon a value gives: `Some((is_svg, path))` for a file, `None` for a name.
pub open spec fn icon_path_of(value: Seq<char>, cwd: Option<Seq<char>>) -> Option<(bool, Seq<char>)> {
    if value.len() > 0 && value[0] == '/' {
        Some(icon_of_path(value))
    } else if starts_with_current_dir(value) && cwd is Some {
        Some(icon_of_path(join_path(cwd->0, value)))
    } else {
        None
    }
}

/// An icon path seen as `Some((is_svg, path))` for a file, `None` for a name.
pub open spec fn icon_path_view(i: IconPath) -> Option<(bool, Seq<char>)> {
    match i {
        IconPath::Name(_) => None,
        IconPath::Path(icon) => Some(icon_view(icon)),
    }
}

/// An icon path seen as: whether it is a file, whether that file is a
/// vector image, and the path or name.
pub open spec fn icon_path_model(i: IconPath) -> (bool, bool, Seq<char>) {
    match i {
        IconPath::Name(n) => (false, false, n@),
        IconPath::Path(icon) => (true, icon_view(icon).0, icon_view(icon).1),
    }
}

/// The icon path `IconPath::new` gives for `value`, seen as `icon_path_model` does.
pub open spec fn icon_model_of(value: Seq<char>, cwd: Option<Seq<char>>) -> (bool, bool, Seq<char>) {
    match icon_path_of(value, cwd) {
        Some((svg, p)) => (true, svg, p),
        None => (false, false, value),
    }
}

impl Icon {
    /// The icon in the file at `path`.
    pub fn from_path(path: String) -> (r: Self)
        ensures
            icon_view(r) == icon_of_path(path@),
    {
        let is_svg = match extension(path.as_str()) {
            Some(e) => str_eq(e.as_str(), "svg"),
            None => false,
        };
        if is_svg {
            Icon::Svg(path)
        } else {
            Icon::Other(path)
        }
    }

    /// The path of the file.
    pub fn path(&self) -> (r: &String)
        ensures
            r@ == icon_view(*self).1,
    {
        match self {
            Icon::Svg(p) => p,
            Icon::Other(p) => p,
        }
    }

    /// A copy of the icon.
    pub fn duplicate(&self) -> (r: Self)
        ensures
            r == *self,
    {
        match self {
            Icon::Svg(p) => Icon::Svg(p.clone()),
            Icon::Other(p) => Icon::Other(p.clone()),
        }
    }
}

impl IconPath {
    /// Reads an icon value: an absolute path, a path starting with `./`
    /// (relative to `cwd`), or else an icon name. `cwd` is the directory of
    /// the plugin, or the process's working directory.
    pub fn new(value: String, cwd: Option<String>) -> (r: Self)
        ensures
            icon_path_view(r) == icon_path_of(value@, opt_chars(cwd)),
            icon_path_model(r) == icon_model_of(value@, opt_chars(cwd)),
            icon_path_of(value@, opt_chars(cwd)) is None ==> r == IconPath::Name(value),
    {
        let v = chars_of(value.as_str());
        if v.len() > 0 && v[0] == '/' {
            return IconPath::Path(Icon::from_path(value));
        }
        let current = v.len() == 1 && v[0] == '.' || v.len() >= 2 && v[0] == '.' && v[1] == '/';
        proof {
            if v.len() == 1 && v[0] == '.' {
                assert(v@ =~= seq!['.']);
            }
            if v.len() >= 2 && v[0] == '.' && v[1] == '/' {
                assert(v@.take(2) =~= seq!['.', '/']);
            }
            if starts_with_current_dir(v@) && !(v.len() == 1 && v[0] == '.') {
                assert(v@.take(2)[0] == v@[0]);
                assert(v@.take(2)[1] == v@[1]);
            }
        }
        match cwd {
            Some(dir) if current => {
                let d = chars_of(dir.as_str());
                let joined = if d.len() == 0 || d[d.len() - 1] == '/' {
                    crate::utf8_text::concat3(dir.as_str(), "", value.as_str())
                } else {
                    crate::utf8_text::concat3(dir.as_str(), "/", value.as_str())
                };
                proof {
                    reveal_strlit("");
                    reveal_strlit("/");
                    if d.len() == 0 || d@.last() == '/' {
                        assert(dir@ + ""@ + value@ =~= join_path(dir@, value@));
                    } else {
                        assert(dir@ + "/"@ + value@ =~= join_path(dir@, value@));
                    }
                }
                IconPath::Path(Icon::from_path(joined))
            },
            _ => IconPath::Name(value),
        }
    }

    /// A copy of the icon path.
    pub fn duplicate(&self) -> (r: Self)
        ensures
            r == *self,
    {
        match self {
            IconPath::Name(n) => IconPath::Name(n.clone()),
            IconPath::Path(i) => IconPath::Path(i.duplicate()),
        }
    }
}

/// An optional string seen as characters.
pub open spec fn opt_chars(o: Option<String>) -> Option<Seq<char>> {
    match o {
        Some(s) => Some(s@),
        None => None,
    }
}

/// Icons of the theme, by name; each name once.
pub struct IconCache {
    icons: Vec<(String, Icon)>,
}

/// Icons by name, seen as characters.
pub open spec fn icons_view(v: Seq<(String, Icon)>) -> Seq<(Seq<char>, (bool, Seq<char>))> {
    v.map_values(|p: (String, Icon)| (p.0@, icon_view(p.1)))
}

impl IconCache {
    #[verifier::type_invariant]
    spec fn inv(self) -> bool {
        unique_keys(icons_view(self.icons@))
    }

    /// The icons by name.
    pub closed spec fn icons(self) -> Seq<(Seq<char>, (bool, Seq<char>))> {
        icons_view(self.icons@)
    }

    /// A cache without icons.
    pub fn new() -> (r: Self)
        ensures
            r.icons() == Seq::<(Seq<char>, (bool, Seq<char>))>::empty(),
    {
        let r = IconCache { icons: Vec::new() };
        assert(icons_view(r.icons@) =~= Seq::<(Seq<char>, (bool, Seq<char>))>::empty());
        r
    }

    /// Index of the icon called `name`, or the number of icons.
    fn find(&self, name: &str) -> (i: usize)
        ensures
            i <= self.icons().len(),
            i < self.icons().len() ==> assoc_find(self.icons(), name@) == i,
            i == self.icons().len() ==> assoc_find(self.icons(), name@) < 0,
    {
        let ghost s = self.icons();
        let mut i = self.icons.len();
        assert(s.take(s.len() as int) =~= s);
        while i > 0
            invariant
                i <= self.icons.len(),
                s == icons_view(self.icons@),
                assoc_find(s, name@) == assoc_find(s.take(i as int), name@),
            decreases i,
        {
            if str_eq(self.icons[i - 1].0.as_str(), name) {
                assert(s.take(i as int).last() == s[i - 1]);
                return i - 1;
            }
            assert(s.take(i as int).drop_last() =~= s.take(i - 1));
            i -= 1;
        }
        assert(s.take(0) =~= Seq::<(Seq<char>, (bool, Seq<char>))>::empty());
        self.icons.len()
    }

    /// Records an icon found on disk, unless an icon of that name was found
    /// before (earlier themes take precedence). Returns whether it was added.
    pub fn insert_found(&mut self, name: String, icon: Icon) -> (added: bool)
        ensures
            added == (assoc_get(old(self).icons(), name@) is None),
            final(self).icons() == if added {
                assoc_insert(old(self).icons(), name@, icon_view(icon))
            } else {
                old(self).icons()
            },
    {
        proof {
            use_type_invariant(&*self);
        }
        let i = self.find(name.as_str());
        if i < self.icons.len() {
            return false;
        }
        let ghost s = self.icons();
        let ghost entry = (name@, icon_view(icon));
        proof {
            crate::assoc::lemma_assoc_insert(s, name@, icon_view(icon));
        }
        let mut icons: Vec<(String, Icon)> = Vec::new();
        std::mem::swap(&mut icons, &mut self.icons);
        icons.push((name, icon));
        assert(icons_view(icons@) =~= s.push(entry));
        self.icons = icons;
        true
    }

    /// The file of an icon: looked up by name, or the given file.
    pub fn get<'a>(&'a self, icon: &'a IconPath) -> (r: Option<&'a Icon>)
        ensures
            match icon {
                IconPath::Name(n) => match r {
                    Some(i) => assoc_get(self.icons(), n@) == Some(icon_view(*i)),
                    None => assoc_get(self.icons(), n@) is None,
                },
                IconPath::Path(i) => r == Some(i),
            },
    {
        match icon {
            IconPath::Name(n) => {
                let i = self.find(n.as_str());
                if i < self.icons.len() {
                    Some(&self.icons[i].1)
                } else {
                    None
                }
            },
            IconPath::Path(i) => Some(i),
        }
    }
}

} // verus!
