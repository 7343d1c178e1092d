//! The platform capability object: which separator the platform prefers,
//! and the home directory, current directory, drive letter and environment
//! map that path construction consumes. Values are injected, so tests run
//! both platforms in one process with fixed fixtures.

use vstd::prelude::*;
use vstd::string::StringExecFns;

verus! {

/// The platform family a path value belongs to.
#[derive(Clone, Copy, PartialEq, Eq, Structural, Debug)]
pub enum Os {
    Posix,
    Windows,
}

/// The preferred separator of a platform.
pub open spec fn spec_sep(os: Os) -> char {
    match os {
        Os::Posix => '/',
        Os::Windows => '\\',
    }
}

/// Exec twin of [`spec_sep`].
pub fn sep_of(os: Os) -> (r: char)
    ensures
        r == spec_sep(os),
{
    match os {
        Os::Posix => '/',
        Os::Windows => '\\',
    }
}

/// The capabilities a platform provides to path construction. `home` and
/// `cwd` may be absent, in which case paths that need them fail with the
/// corresponding error. `vars` is the environment map, searched front to
/// back.
pub struct Platform {
    pub os: Os,
    pub home: Option<String>,
    pub cwd: Option<String>,
    pub drive: char,
    pub vars: Vec<(String, String)>,
}

/// The value `vars` associates with `name`: the first matching pair wins.
pub open spec fn spec_lookup(vars: Seq<(String, String)>, name: Seq<char>) -> Option<Seq<char>>
    decreases vars.len(),
{
    if vars.len() == 0 {
        None
    } else if vars[0].0@ == name {
        Some(vars[0].1@)
    } else {
        spec_lookup(vars.skip(1), name)
    }
}

/// Are two character vectors equal?
pub fn chars_eq(a: &Vec<char>, b: &Vec<char>) -> (r: bool)
    ensures
        r == (a@ == b@),
{
    if a.len() != b.len() {
        proof {
            assert(a@ != b@);
        }
        return false;
    }
    let mut i: usize = 0;
    while i < a.len()
        invariant
            a@.len() == b@.len(),
            i <= a@.len(),
            forall|j: int| 0 <= j < i ==> a@[j] == b@[j],
        decreases a@.len() - i,
    {
        if a[i] != b[i] {
            return false;
        }
        i = i + 1;
    }
    proof {
        assert(a@ =~= b@);
    }
    true
}

impl Platform {
    /// A platform object is well formed when its drive letter is an ASCII
    /// letter.
    pub open spec fn wf(&self) -> bool {
        crate::drive::spec_is_alpha(self.drive)
    }

    /// Look `name` up in the environment map.
    pub fn lookup(&self, name: &Vec<char>) -> (r: Option<String>)
        ensures
            match r {
                Some(v) => spec_lookup(self.vars@, name@) == Some(v@),
                None => spec_lookup(self.vars@, name@) is None,
            },
    {
        let mut i: usize = 0;
        proof {
            assert(self.vars@.skip(0) =~= self.vars@);
        }
        while i < self.vars.len()
            invariant
                i <= self.vars@.len(),
                spec_lookup(self.vars@, name@) == spec_lookup(self.vars@.skip(i as int), name@),
            decreases self.vars@.len() - i,
        {
            let key = crate::strutil::chars_of(self.vars[i].0.as_str());
            proof {
                assert(self.vars@.skip(i as int)[0] == self.vars@[i as int]);
            }
            if chars_eq(&key, name) {
                return Some(self.vars[i].1.clone());
            }
            i = i + 1;
            proof {
                assert(self.vars@.skip(i as int - 1).skip(1) =~= self.vars@.skip(i as int));
            }
        }
        proof {
            assert(self.vars@.skip(self.vars@.len() as int) =~= Seq::<(String, String)>::empty());
        }
        None
    }

    /// The Posix test fixture: `home=/home/test`, `cwd=/var/test`, and one
    /// environment variable `HI==hi=`.
    pub fn lin_test() -> (r: Platform)
        ensures
            r.os == Os::Posix,
            r.home matches Some(h) && h@ == "/home/test"@,
            r.cwd matches Some(c) && c@ == "/var/test"@,
            r.drive == 'C',
            r.vars@.len() == 1,
            r.vars@[0].0@ == "HI"@ && r.vars@[0].1@ == "=hi="@,
    {
        let mut vars: Vec<(String, String)> = Vec::new();
        vars.push((String::from_str("HI"), String::from_str("=hi=")));
        Platform {
            os: Os::Posix,
            home: Some(String::from_str("/home/test")),
            cwd: Some(String::from_str("/var/test")),
            drive: 'C',
            vars,
        }
    }

    /// The Windows test fixture: `home=C:\User\test\`, `cwd=C:\current`,
    /// drive `C`, and one environment variable `HI==hi=`.
    pub fn win_test() -> (r: Platform)
        ensures
            r.os == Os::Windows,
            r.home matches Some(h) && h@ == "C:\\User\\test\\"@,
            r.cwd matches Some(c) && c@ == "C:\\current"@,
            r.drive == 'C',
            r.vars@.len() == 1,
            r.vars@[0].0@ == "HI"@ && r.vars@[0].1@ == "=hi="@,
    {
        let mut vars: Vec<(String, String)> = Vec::new();
        vars.push((String::from_str("HI"), String::from_str("=hi=")));
        Platform {
            os: Os::Windows,
            home: Some(String::from_str("C:\\User\\test\\")),
            cwd: Some(String::from_str("C:\\current")),
            drive: 'C',
            vars,
        }
    }
}

} // verus!
