//! Where the application keeps its settings.
use vstd::prelude::*;
use crate::text::is_prefix;

verus! {

/// A name that is not absolute, holds no separator on any platform and is
/// neither `.` nor `..` nor any other run of dots.
pub open spec fn is_plain_name(name: Seq<char>) -> bool {
    &&& name.len() > 0
    &&& exists|i: int| 0 <= i < name.len() && #[trigger] name[i] != '.'
    &&& forall|i: int|
        0 <= i < name.len() ==> {
            let c = #[trigger] name[i];
            ('0' <= c && c <= '9') || ('a' <= c && c <= 'z') || ('A' <= c && c <= 'Z') || c
                == '.' || c == '_' || c == '-'
        }
}

/// `s` ends with `t`.
pub open spec fn is_suffix(t: Seq<char>, s: Seq<char>) -> bool {
    t.len() <= s.len() && s.subrange(s.len() - t.len(), s.len() as int) == t
}

/// The prefix that marks a Windows verbatim path, under which joining also
/// normalises the path.
pub open spec fn verbatim_prefix() -> Seq<char> {
    "\\\\?\\"@
}

/// Relies on `std::path::Path::join`: a relative name is appended to the
/// directory, after a separator where one is needed; only a Windows verbatim
/// directory is rewritten on the way.
#[verifier::external_body]
fn join_path(dir: &str, name: &str) -> (r: String)
    requires
        is_plain_name(name@),
    ensures
        !is_prefix(verbatim_prefix(), dir@) ==> is_prefix(dir@, r@),
        is_suffix(name@, r@),
{
    std::path::Path::new(dir).join(name).to_string_lossy().into_owned()
}

/// The settings directory.
#[derive(Clone, Debug, Default)]
pub struct Config {
    config_dir: String,
}

impl Config {
    pub closed spec fn dir(&self) -> Seq<char> {
        self.config_dir@
    }

    /// Settings kept in `config_dir`.
    pub fn at(config_dir: String) -> (r: Config)
        ensures
            r.dir() == config_dir@,
    {
        Config { config_dir }
    }

    /// The file that holds the profiles.
    pub fn get_config_file_path(&self) -> (r: String)
        ensures
            !is_prefix(verbatim_prefix(), self.dir()) ==> is_prefix(self.dir(), r@),
            is_suffix("profiles.json"@, r@),
    {
        proof {
            reveal_strlit("profiles.json");
            assert("profiles.json"@[0] != '.');
        }
        join_path(self.config_dir.as_str(), "profiles.json")
    }

    /// The file that holds the cookies.
    pub fn get_cookies_file_path(&self) -> (r: String)
        ensures
            !is_prefix(verbatim_prefix(), self.dir()) ==> is_prefix(self.dir(), r@),
            is_suffix("cookies.json"@, r@),
    {
        proof {
            reveal_strlit("cookies.json");
            assert("cookies.json"@[0] != '.');
        }
        join_path(self.config_dir.as_str(), "cookies.json")
    }
}

} // verus!
