//! The site: its directories and its external build tools ("runners").

use vstd::prelude::*;
use crate::path::{SitePath, PathView, parse_spec};

verus! {

/// When a runner runs: on a plain build, or in development (watch) mode.
#[derive(Debug, Clone, Copy, PartialEq, Eq, Structural)]
pub enum RunMode {
    Build,
    Dev,
}

impl RunMode {
    /// The mode named exactly `Build` or `Dev`.
    pub fn from_name(s: &str) -> (r: Option<RunMode>)
        ensures
            s@ == "Build"@ ==> r == Some(RunMode::Build),
            s@ == "Dev"@ ==> r == Some(RunMode::Dev),
            s@ != "Build"@ && s@ != "Dev"@ ==> r is None,
    {
        proof {
            reveal_strlit("Build");
            reveal_strlit("Dev");
            assert("Build"@.len() != "Dev"@.len());
        }
        if crate::text::str_eq(s, "Build") {
            Some(RunMode::Build)
        } else if crate::text::str_eq(s, "Dev") {
            Some(RunMode::Dev)
        } else {
            None
        }
    }
}

/// A set of run modes.
#[derive(Debug, Clone, Copy, PartialEq, Eq, Structural)]
pub struct RunModes {
    pub build: bool,
    pub dev: bool,
}

impl RunModes {
    /// The modes as a set.
    pub open spec fn set(self) -> Set<RunMode> {
        Set::new(|m: RunMode| (m is Build && self.build) || (m is Dev && self.dev))
    }

    /// No mode.
    pub fn none() -> (r: RunModes)
        ensures
            r.set() == Set::<RunMode>::empty(),
    {
        let r = RunModes { build: false, dev: false };
        assert(r.set() =~= Set::<RunMode>::empty());
        r
    }

    /// Whether `m` is among the modes.
    pub fn contains(&self, m: RunMode) -> (r: bool)
        ensures
            r == self.set().contains(m),
    {
        match m {
            RunMode::Build => self.build,
            RunMode::Dev => self.dev,
        }
    }

    /// Adds `m` to the modes.
    pub fn insert(&mut self, m: RunMode)
        ensures
            final(self).set() == old(self).set().insert(m),
    {
        match m {
            RunMode::Build => self.build = true,
            RunMode::Dev => self.dev = true,
        }
        assert(final(self).set() =~= old(self).set().insert(m));
    }

    /// The modes in a fixed order, `Build` before `Dev`.
    pub fn to_vec(&self) -> (r: Vec<RunMode>)
        ensures
            r@ == (if self.build {
                seq![RunMode::Build]
            } else {
                Seq::empty()
            }) + (if self.dev {
                seq![RunMode::Dev]
            } else {
                Seq::empty()
            }),
    {
        let mut r: Vec<RunMode> = Vec::new();
        if self.build {
            r.push(RunMode::Build);
        }
        if self.dev {
            r.push(RunMode::Dev);
        }
        assert(r@ =~= (if self.build {
            seq![RunMode::Build]
        } else {
            Seq::empty()
        }) + (if self.dev {
            seq![RunMode::Dev]
        } else {
            Seq::empty()
        }));
        r
    }
}

/// A program to start: what, where, and with which arguments.
#[derive(Debug)]
pub struct Invocation {
    pub program: String,
    pub cwd: SitePath,
    pub args: Vec<String>,
}

/// An external build tool.
#[derive(Debug)]
pub struct Runner {
    pub name: String,
    pub cwd: Option<String>,
    pub cmd: String,
    pub args: Option<Vec<String>>,
    pub watch_args: Option<Vec<String>>,
    pub run_on: RunModes,
}

/// The directory a runner works in: its `cwd` below the root, else the root.
pub open spec fn runner_dir(cwd: Option<String>, root: PathView) -> PathView {
    match cwd {
        Some(c) => root.join(parse_spec(c@)),
        None => root,
    }
}

/// The arguments of an optional list, none when absent.
pub open spec fn args_view(args: Option<Vec<String>>) -> Seq<Seq<char>> {
    match args {
        Some(a) => crate::path::names_view(a@),
        None => Seq::empty(),
    }
}

/// A copy of an optional list of strings.
pub fn copy_args(args: &Option<Vec<String>>) -> (r: Vec<String>)
    ensures
        crate::path::names_view(r@) == args_view(*args),
{
    match args {
        Some(a) => crate::path::copy_names(a),
        None => {
            let r: Vec<String> = Vec::new();
            assert(crate::path::names_view(r@) =~= Seq::<Seq<char>>::empty());
            r
        },
    }
}

impl Runner {
    /// The runner's name.
    pub fn name(&self) -> (r: &str)
        ensures
            r@ == self.name@,
    {
        self.name.as_str()
    }

    /// Whether the runner runs in mode `run_mode`.
    pub fn has_run_mode(&self, run_mode: &RunMode) -> (r: bool)
        ensures
            r == self.run_on.set().contains(*run_mode),
    {
        self.run_on.contains(*run_mode)
    }

    /// The directory the runner works in, for a site rooted at `root_dir`.
    pub fn working_dir(&self, root_dir: &SitePath) -> (r: SitePath)
        ensures
            r@ == runner_dir(self.cwd, root_dir@),
    {
        match &self.cwd {
            Some(c) => root_dir.join(&SitePath::parse(c.as_str())),
            None => root_dir.duplicate(),
        }
    }

    /// How to start the runner for a build: its command with `args`.
    pub fn build_invocation(&self, root_dir: &SitePath) -> (r: Invocation)
        ensures
            r.program@ == self.cmd@,
            r.cwd@ == runner_dir(self.cwd, root_dir@),
            crate::path::names_view(r.args@) == args_view(self.args),
    {
        Invocation {
            program: self.cmd.clone(),
            cwd: self.working_dir(root_dir),
            args: copy_args(&self.args),
        }
    }

    /// How to start the runner in watch mode: its command with `watch_args`,
    /// else with `args`.
    pub fn watch_invocation(&self, root_dir: &SitePath) -> (r: Invocation)
        ensures
            r.program@ == self.cmd@,
            r.cwd@ == runner_dir(self.cwd, root_dir@),
            crate::path::names_view(r.args@) == (if self.watch_args is Some {
                args_view(self.watch_args)
            } else {
                args_view(self.args)
            }),
    {
        let args = if self.watch_args.is_some() {
            copy_args(&self.watch_args)
        } else {
            copy_args(&self.args)
        };
        Invocation { program: self.cmd.clone(), cwd: self.working_dir(root_dir), args }
    }
}

/// The site: where it lives, where its content is read from, where the
/// output goes, and its runners.
#[derive(Debug)]
pub struct Site {
    pub root_dir: SitePath,
    pub content_dir: SitePath,
    pub dist_dir: SitePath,
    pub runners: Option<Vec<Runner>>,
}

impl Site {
    /// The site's root directory.
    pub fn root_dir(&self) -> (r: &SitePath)
        ensures
            r@ == self.root_dir@,
    {
        &self.root_dir
    }

    /// The directory content is read from.
    pub fn content_dir(&self) -> (r: &SitePath)
        ensures
            r@ == self.content_dir@,
    {
        &self.content_dir
    }

    /// The directory output goes to.
    pub fn dist_dir(&self) -> (r: &SitePath)
        ensures
            r@ == self.dist_dir@,
    {
        &self.dist_dir
    }

    /// The runners, if the settings declare any.
    pub fn runners(&self) -> (r: Option<&Vec<Runner>>)
        ensures
            match r {
                Some(v) => self.runners == Some(*v),
                None => self.runners is None,
            },
    {
        self.runners.as_ref()
    }

    /// Whether a path found under the content directory is content: not in
    /// the output directory, and not the settings file.
    pub fn valid_content_path(&self, path: &SitePath) -> (r: bool)
        ensures
            r == content_path(self.dist_dir@, path@),
    {
        if path.starts_with(&self.dist_dir) {
            return false;
        }
        let n = path.parts.len();
        if n == 0 {
            return true;
        }
        !crate::text::str_eq(path.parts[n - 1].as_str(), "ssite.toml")
    }
}

/// Content paths: outside the output directory, and not the settings file.
pub open spec fn content_path(dist: PathView, p: PathView) -> bool {
    !p.starts_with(dist) && !(p.parts.len() > 0 && p.parts.last() == "ssite.toml"@)
}

/// Checks that `path` is a directory (`present`, `is_dir`), else
/// `SiteDirMissing` naming it.
pub fn assert_valid_dir(path: &SitePath, present: bool, is_dir: bool) -> (r: Result<(), crate::error::Error>)
    ensures
        present && is_dir ==> r is Ok,
        !(present && is_dir) ==> (r matches Err(crate::error::Error::SiteDirMissing(d)) && d@ == path@.text()),
{
    if !present || !is_dir {
        Err(crate::error::Error::SiteDirMissing(path.to_text()))
    } else {
        Ok(())
    }
}

} // verus!
