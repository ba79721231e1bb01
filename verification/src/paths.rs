//! Where the files of the program lie. The directories come from the user's
//! environment; what is under them is fixed.

use crate::text::to_chars;
use vstd::prelude::*;

verus! {

/// A name below a directory, with `/` between them.
pub open spec fn below(dir: Seq<char>, name: Seq<char>) -> Seq<char> {
    if dir.len() == 0 {
        name
    } else if dir.last() == '/' {
        dir + name
    } else {
        dir + "/"@ + name
    }
}

pub fn path_below(dir: &str, name: &str) -> (r: String)
    ensures
        r@ == below(dir@, name@),
{
    let d = to_chars(dir);
    let n: usize = d.len();
    if n == 0 {
        return name.to_owned();
    }
    let mut s = dir.to_owned();
    if d[n - 1] != '/' {
        s.append("/");
    }
    s.append(name);
    s
}

/// A directory of the user, or the current one where the system names none.
pub open spec fn or_here(base: Option<Seq<char>>) -> Seq<char> {
    match base {
        Some(b) => b,
        None => "."@,
    }
}

/// The program's own directory in a directory of the user.
pub open spec fn app_dir(base: Option<Seq<char>>) -> Seq<char> {
    below(or_here(base), "zcode-cli"@)
}

/// A file in the program's own directory.
pub open spec fn app_file(base: Option<Seq<char>>, name: Seq<char>) -> Seq<char> {
    below(app_dir(base), name)
}

/// A file in the program's directory below `base`.
pub fn app_file_in(base: Option<&str>, name: &str) -> (r: String)
    ensures
        r@ == app_file(
            match base {
                Some(b) => Some(b@),
                None => None,
            },
            name@,
        ),
{
    let dir = match base {
        Some(b) => path_below(b, "zcode-cli"),
        None => path_below(".", "zcode-cli"),
    };
    path_below(dir.as_str(), name)
}

/// The models file of the desktop application below a home directory.
pub open spec fn gui_models_file(home: Option<Seq<char>>) -> Seq<char> {
    below(below(below(or_here(home), ".zcode"@), "cli"@), "config.json"@)
}

pub fn gui_models_in(home: Option<&str>) -> (r: String)
    ensures
        r@ == gui_models_file(
            match home {
                Some(h) => Some(h@),
                None => None,
            },
        ),
{
    let a = match home {
        Some(h) => path_below(h, ".zcode"),
        None => path_below(".", ".zcode"),
    };
    let b = path_below(a.as_str(), "cli");
    path_below(b.as_str(), "config.json")
}

/// `dirs::data_dir`: the user's data directory, `None` where the system names
/// none. Which directory it is rests on the environment, so nothing is claimed;
/// what is not UTF-8 in its path comes out as replacement characters.
#[verifier::external_body]
pub(crate) fn user_data_dir() -> (r: Option<String>)
{
    match dirs::data_dir() {
        Some(p) => Some(p.to_string_lossy().into_owned()),
        None => None,
    }
}

/// `dirs::config_dir`: the user's configuration directory, `None` where the
/// system names none. Which directory it is rests on the environment, so
/// nothing is claimed; what is not UTF-8 in its path comes out as replacement
/// characters.
#[verifier::external_body]
pub(crate) fn user_config_dir() -> (r: Option<String>)
{
    match dirs::config_dir() {
        Some(p) => Some(p.to_string_lossy().into_owned()),
        None => None,
    }
}

/// `dirs::home_dir`: the user's home directory, `None` where the system names
/// none. Which directory it is rests on the environment, so nothing is claimed;
/// what is not UTF-8 in its path comes out as replacement characters.
#[verifier::external_body]
pub(crate) fn user_home_dir() -> (r: Option<String>)
{
    match dirs::home_dir() {
        Some(p) => Some(p.to_string_lossy().into_owned()),
        None => None,
    }
}

/// A file in the program's data directory.
pub(crate) fn data_file(name: &str) -> (r: String)
    ensures
        exists|base: Option<Seq<char>>| r@ == #[trigger] app_file(base, name@),
{
    let base = user_data_dir();
    let r = match &base {
        Some(b) => app_file_in(Some(b.as_str()), name),
        None => app_file_in(None, name),
    };
    assert(r@ == app_file(base.deep_view(), name@));
    r
}

/// The log file, which also takes the reports of crashes.
pub fn log_file_path() -> (r: String)
    ensures
        exists|base: Option<Seq<char>>| r@ == #[trigger] app_file(base, "log.txt"@),
{
    data_file("log.txt")
}

/// The models file of the desktop application.
pub fn gui_models_path() -> (r: String)
    ensures
        exists|home: Option<Seq<char>>| r@ == #[trigger] gui_models_file(home),
{
    let home = user_home_dir();
    let r = match &home {
        Some(h) => gui_models_in(Some(h.as_str())),
        None => gui_models_in(None),
    };
    assert(r@ == gui_models_file(home.deep_view()));
    r
}

// ---------------------------------------------------------------- laws

/// A path below a folder begins with the folder and ends with the name, and two
/// names below one folder are two paths.
pub proof fn law_below(dir: Seq<char>, name: Seq<char>, other: Seq<char>)
    ensures
        dir.is_prefix_of(below(dir, name)),
        name.is_suffix_of(below(dir, name)),
        below(dir, name) == below(dir, other) ==> name == other,
        dir.len() > 0 && dir.last() != '/' ==> below(dir, name) == dir.push('/') + name,
{
    reveal_strlit("/");
    let p = below(dir, name);
    let n = p.len() - name.len();
    assert(p.subrange(n, p.len() as int) =~= name);
    assert(p.subrange(0, dir.len() as int) =~= dir);
    if below(dir, name) == below(dir, other) {
        assert(below(dir, other).len() - other.len() == n);
        assert(below(dir, other).subrange(n, p.len() as int) =~= other);
    }
    if dir.len() > 0 && dir.last() != '/' {
        assert(p =~= dir.push('/') + name);
    }
}

/// The files of the program stand below its own folder, each under its name.
pub proof fn law_app_files(base: Seq<char>, name: Seq<char>, other: Seq<char>)
    ensures
        base.is_prefix_of(app_file(Some(base), name)),
        name.is_suffix_of(app_file(Some(base), name)),
        app_file(Some(base), name) == app_file(Some(base), other) ==> name == other,
        app_dir(Some(base)).is_prefix_of(app_file(Some(base), name)),
{
    law_below(base, "zcode-cli"@, "zcode-cli"@);
    law_below(app_dir(Some(base)), name, other);
    let d = app_dir(Some(base));
    let f = app_file(Some(base), name);
    assert(f.subrange(0, base.len() as int) =~= d.subrange(0, base.len() as int));
}

} // verus!
