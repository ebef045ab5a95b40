//! The site's settings, read from a TOML document.

use vstd::prelude::*;
use crate::error::Error;
use crate::path::{SitePath, PathView, names_view, parse_spec};
use crate::site::{RunMode, RunModes, Runner, Site};

verus! {

#[verifier::external_type_specification]
#[verifier::external_body]
pub struct ExTomlValue(toml::Value);

/// What a TOML value holds, as far as the settings read it: a string, an
/// array, a table (its entries in iteration order), or anything else.
pub enum TomlModel {
    Text(Seq<char>),
    List(Seq<TomlModel>),
    Table(Seq<(Seq<char>, TomlModel)>),
    Other,
}

/// What a `toml::Value` holds.
pub uninterp spec fn toml_model(v: toml::Value) -> TomlModel;

/// The value of the first entry with key `key`.
pub open spec fn entry_of(entries: Seq<(Seq<char>, TomlModel)>, key: Seq<char>) -> Option<TomlModel>
    decreases entries.len(),
{
    if entries.len() == 0 {
        None
    } else if entries[0].0 == key {
        Some(entries[0].1)
    } else {
        entry_of(entries.drop_first(), key)
    }
}

/// The entry `key` of a table; none for a table without it or another value.
pub open spec fn child(m: TomlModel, key: Seq<char>) -> Option<TomlModel> {
    match m {
        TomlModel::Table(entries) => entry_of(entries, key),
        _ => None,
    }
}

/// Relies on `toml::Value::get` with a string key: the entry of that key in
/// a table; none in a table without it, or in any other value.
#[verifier::external_body]
fn toml_child<'a>(v: &'a toml::Value, key: &str) -> (r: Option<&'a toml::Value>)
    ensures
        match r {
            Some(c) => child(toml_model(*v), key@) == Some(toml_model(*c)),
            None => child(toml_model(*v), key@) is None,
        },
{
    v.get(key)
}

/// The text of a string value.
pub open spec fn text_of(m: TomlModel) -> Option<Seq<char>> {
    match m {
        TomlModel::Text(t) => Some(t),
        _ => None,
    }
}

/// Relies on `toml::Value::as_str`: the text of a string, none for any
/// other value.
#[verifier::external_body]
fn toml_text(v: &toml::Value) -> (r: Option<&str>)
    ensures
        match r {
            Some(t) => text_of(toml_model(*v)) == Some(t@),
            None => text_of(toml_model(*v)) is None,
        },
{
    v.as_str()
}

/// The models of a sequence of values.
pub open spec fn models(v: Seq<toml::Value>) -> Seq<TomlModel> {
    v.map_values(|x: toml::Value| toml_model(x))
}

/// Relies on `toml::Value::as_array`: the items of an array, in order; none
/// for any other value.
#[verifier::external_body]
fn toml_items(v: &toml::Value) -> (r: Option<&Vec<toml::Value>>)
    ensures
        match toml_model(*v) {
            TomlModel::List(items) => r is Some && models(r.unwrap()@) == items,
            _ => r is None,
        },
{
    v.as_array()
}

/// The keys of table entries, in order.
pub open spec fn entry_keys(entries: Seq<(Seq<char>, TomlModel)>) -> Seq<Seq<char>> {
    entries.map_values(|e: (Seq<char>, TomlModel)| e.0)
}

/// Relies on `toml::Value::as_table` and the iteration order of its keys:
/// the keys of a table, in that order; none for any other value.
#[verifier::external_body]
fn toml_keys(v: &toml::Value) -> (r: Option<Vec<String>>)
    ensures
        match toml_model(*v) {
            TomlModel::Table(entries) => r is Some && names_view(r.unwrap()@) == entry_keys(entries),
            _ => r is None,
        },
{
    v.as_table().map(|t| t.keys().cloned().collect())
}

/// What a TOML document parses to, if it is valid.
pub uninterp spec fn toml_document(text: Seq<char>) -> Option<TomlModel>;

/// Relies on `toml::from_str` into a `toml::Value`: the parsed document, or
/// the parser's message.
#[verifier::external_body]
fn parse_toml(text: &str) -> (r: Result<toml::Value, String>)
    ensures
        match r {
            Ok(v) => toml_document(text@) == Some(toml_model(v)),
            Err(_) => toml_document(text@) is None,
        },
{
    toml::from_str::<toml::Value>(text).map_err(|e| e.to_string())
}

/// The value at the end of a key path.
pub open spec fn deep(m: TomlModel, keys: Seq<Seq<char>>) -> Option<TomlModel>
    decreases keys.len(),
{
    if keys.len() == 0 {
        Some(m)
    } else {
        match child(m, keys[0]) {
            Some(c) => deep(c, keys.drop_first()),
            None => None,
        }
    }
}

/// The views of a sequence of string slices.
pub open spec fn strs_view(v: Seq<&str>) -> Seq<Seq<char>> {
    v.map_values(|s: &str| s@)
}

/// Names joined by `.`, as in `source.content_dir`.
pub open spec fn dotted(parts: Seq<Seq<char>>) -> Seq<char>
    decreases parts.len(),
{
    if parts.len() == 0 {
        Seq::empty()
    } else if parts.len() == 1 {
        parts[0]
    } else {
        dotted(parts.drop_last()) + seq!['.'] + parts.last()
    }
}

/// The texts of the items of an array, an item that is no string read as
/// the empty text.
pub open spec fn texts_or_empty(items: Seq<TomlModel>) -> Seq<Seq<char>> {
    items.map_values(
        |m: TomlModel|
            match m {
                TomlModel::Text(t) => t,
                _ => Seq::empty(),
            },
    )
}

/// The text at a key path.
pub open spec fn deep_text(m: TomlModel, keys: Seq<Seq<char>>) -> Option<Seq<char>> {
    match deep(m, keys) {
        Some(TomlModel::Text(t)) => Some(t),
        _ => None,
    }
}

/// The texts of the array at a key path.
pub open spec fn deep_texts(m: TomlModel, keys: Seq<Seq<char>>) -> Option<Seq<Seq<char>>> {
    match deep(m, keys) {
        Some(TomlModel::List(items)) => Some(texts_or_empty(items)),
        _ => None,
    }
}

/// `Error::TomlMissingValue` naming `key`.
pub open spec fn missing_value(e: Error, key: Seq<char>) -> bool {
    e matches Error::TomlMissingValue(k) && k@ == key
}

/// `Error::MissingConfigProperty` naming `key`.
pub open spec fn missing_property(e: Error, key: Seq<char>) -> bool {
    e matches Error::MissingConfigProperty(k) && k@ == key
}

/// The names joined by `.`.
pub fn join_dotted(arr: &[&str]) -> (r: String)
    ensures
        r@ == dotted(strs_view(arr@)),
{
    let mut r = String::new();
    let mut i: usize = 0;
    while i < arr.len()
        invariant
            i <= arr@.len(),
            r@ == dotted(strs_view(arr@).subrange(0, i as int)),
        decreases arr@.len() - i,
    {
        let ghost before = strs_view(arr@).subrange(0, i as int);
        let ghost after = strs_view(arr@).subrange(0, i + 1);
        assert(after.drop_last() == before);
        if i > 0 {
            r.append(".");
            proof {
                reveal_strlit(".");
            }
        }
        r.append(arr[i]);
        proof {
            if i == 0 {
                assert(after.len() == 1);
                assert(r@ == after[0]);
            } else {
                assert(r@ == dotted(before) + seq!['.'] + after.last());
            }
        }
        i = i + 1;
    }
    assert(strs_view(arr@).subrange(0, arr@.len() as int) == strs_view(arr@));
    r
}

/// Reading values out of a TOML document by key path.
pub trait DeepGet {
    /// What the document holds.
    spec fn tree(&self) -> TomlModel;

    /// The value at the key path `arr`.
    fn deep_get<'v>(&'v self, arr: &[&str]) -> (r: Option<&'v toml::Value>)
        ensures
            match r {
                Some(v) => deep(self.tree(), strs_view(arr@)) == Some(toml_model(*v)),
                None => deep(self.tree(), strs_view(arr@)) is None,
            },
    ;

    /// The text at the key path `arr`, or `TomlMissingValue` naming it.
    fn deep_string(&self, arr: &[&str]) -> (r: Result<String, Error>)
        ensures
            match deep_text(self.tree(), strs_view(arr@)) {
                Some(t) => r matches Ok(s) && s@ == t,
                None => r matches Err(e) && missing_value(e, dotted(strs_view(arr@))),
            },
    ;

    /// The text at the key path `arr`, or `TomlMissingValue` naming it.
    fn deep_str<'v>(&'v self, arr: &[&str]) -> (r: Result<&'v str, Error>)
        ensures
            match deep_text(self.tree(), strs_view(arr@)) {
                Some(t) => r matches Ok(s) && s@ == t,
                None => r matches Err(e) && missing_value(e, dotted(strs_view(arr@))),
            },
    ;

    /// The texts of the array at the key path `arr` (an item that is no
    /// string gives the empty text), or `TomlMissingValue` naming it.
    fn deep_vec_string(&self, arr: &[&str]) -> (r: Result<Vec<String>, Error>)
        ensures
            match deep_texts(self.tree(), strs_view(arr@)) {
                Some(ts) => r matches Ok(v) && names_view(v@) == ts,
                None => r matches Err(e) && missing_value(e, dotted(strs_view(arr@))),
            },
    ;
}

impl DeepGet for toml::Value {
    open spec fn tree(&self) -> TomlModel {
        toml_model(*self)
    }

    fn deep_get<'v>(&'v self, arr: &[&str]) -> (r: Option<&'v toml::Value>) {
        toml_as_option_value(self, arr)
    }

    fn deep_string(&self, arr: &[&str]) -> (r: Result<String, Error>) {
        match self.deep_get(arr) {
            Some(v) => match toml_text(v) {
                Some(t) => Ok(t.to_owned()),
                None => Err(Error::TomlMissingValue(join_dotted(arr))),
            },
            None => Err(Error::TomlMissingValue(join_dotted(arr))),
        }
    }

    fn deep_str<'v>(&'v self, arr: &[&str]) -> (r: Result<&'v str, Error>) {
        match self.deep_get(arr) {
            Some(v) => match toml_text(v) {
                Some(t) => Ok(t),
                None => Err(Error::TomlMissingValue(join_dotted(arr))),
            },
            None => Err(Error::TomlMissingValue(join_dotted(arr))),
        }
    }

    fn deep_vec_string(&self, arr: &[&str]) -> (r: Result<Vec<String>, Error>) {
        let items = match self.deep_get(arr) {
            Some(v) => match toml_items(v) {
                Some(items) => items,
                None => return Err(Error::TomlMissingValue(join_dotted(arr))),
            },
            None => return Err(Error::TomlMissingValue(join_dotted(arr))),
        };
        let mut out: Vec<String> = Vec::new();
        let mut i: usize = 0;
        while i < items.len()
            invariant
                i <= items@.len(),
                names_view(out@) == texts_or_empty(models(items@)).subrange(0, i as int),
            decreases items@.len() - i,
        {
            let t = match toml_text(&items[i]) {
                Some(t) => t.to_owned(),
                None => String::new(),
            };
            let ghost before = out@;
            out.push(t);
            assert(names_view(out@) == names_view(before).push(t@));
            assert(texts_or_empty(models(items@)).subrange(0, i + 1) == texts_or_empty(
                models(items@),
            ).subrange(0, i as int).push(texts_or_empty(models(items@))[i as int]));
            i = i + 1;
        }
        assert(texts_or_empty(models(items@)).subrange(0, items@.len() as int) == texts_or_empty(
            models(items@),
        ));
        Ok(out)
    }
}

/// The value at the key path `arr`, if there is one.
pub fn toml_as_option_value<'v>(root: &'v toml::Value, arr: &[&str]) -> (r: Option<&'v toml::Value>)
    ensures
        arr@.len() == 0 ==> r == Some(root),
        match r {
            Some(v) => deep(toml_model(*root), strs_view(arr@)) == Some(toml_model(*v)),
            None => deep(toml_model(*root), strs_view(arr@)) is None,
        },
{
    let mut value: &toml::Value = root;
    let mut i: usize = 0;
    assert(strs_view(arr@).subrange(0, arr@.len() as int) == strs_view(arr@));
    while i < arr.len()
        invariant
            i <= arr@.len(),
            i == 0 ==> value == root,
            deep(toml_model(*root), strs_view(arr@)) == deep(
                toml_model(*value),
                strs_view(arr@).subrange(i as int, arr@.len() as int),
            ),
        decreases arr@.len() - i,
    {
        let ghost keys = strs_view(arr@).subrange(i as int, arr@.len() as int);
        assert(keys[0] == arr@[i as int]@);
        assert(keys.drop_first() == strs_view(arr@).subrange(i + 1, arr@.len() as int));
        value = match toml_child(value, arr[i]) {
            Some(v) => v,
            None => return None,
        };
        i = i + 1;
    }
    assert(strs_view(arr@).subrange(arr@.len() as int, arr@.len() as int).len() == 0);
    Some(value)
}

/// The text at the key path `arr`, if there is one.
pub fn toml_as_option_string(root: &toml::Value, arr: &[&str]) -> (r: Option<String>)
    ensures
        match r {
            Some(s) => deep_text(toml_model(*root), strs_view(arr@)) == Some(s@),
            None => deep_text(toml_model(*root), strs_view(arr@)) is None,
        },
{
    let value = toml_as_option_value(root, arr)?;
    match toml_text(value) {
        Some(t) => Some(t.to_owned()),
        None => None,
    }
}

/// The text at the key path `arr`, or `MissingConfigProperty` naming it.
pub fn toml_as_string(root: &toml::Value, arr: &[&str]) -> (r: Result<String, Error>)
    ensures
        match deep_text(toml_model(*root), strs_view(arr@)) {
            Some(t) => r matches Ok(s) && s@ == t,
            None => r matches Err(e) && missing_property(e, dotted(strs_view(arr@))),
        },
{
    match toml_as_option_string(root, arr) {
        Some(s) => Ok(s),
        None => Err(Error::MissingConfigProperty(join_dotted(arr))),
    }
}

/// The run mode named exactly `name`.
pub open spec fn mode_of(name: Seq<char>) -> Option<RunMode> {
    if name == "Build"@ {
        Some(RunMode::Build)
    } else if name == "Dev"@ {
        Some(RunMode::Dev)
    } else {
        None
    }
}

/// The first name, from position `i` on, that names no run mode.
pub open spec fn first_bad_mode(names: Seq<Seq<char>>, i: int) -> Option<Seq<char>>
    decreases names.len() - i,
{
    if i < 0 || i >= names.len() {
        None
    } else if mode_of(names[i]) is None {
        Some(names[i])
    } else {
        first_bad_mode(names, i + 1)
    }
}

/// The run modes named among the first `n` names.
pub open spec fn modes_named(names: Seq<Seq<char>>, n: int) -> Set<RunMode> {
    Set::new(|m: RunMode| exists|k: int| 0 <= k < n && mode_of(#[trigger] names[k]) == Some(m))
}

/// The run modes of a runner without `run_on`: `Build`, and `Dev` too when it
/// has watch arguments.
pub open spec fn default_modes(has_watch_args: bool) -> Set<RunMode> {
    if has_watch_args {
        set![RunMode::Build, RunMode::Dev]
    } else {
        set![RunMode::Build]
    }
}

/// The view of an optional string.
pub open spec fn opt_text(o: Option<String>) -> Option<Seq<char>> {
    match o {
        Some(s) => Some(s@),
        None => None,
    }
}

/// The view of an optional list of strings.
pub open spec fn opt_names(o: Option<Vec<String>>) -> Option<Seq<Seq<char>>> {
    match o {
        Some(v) => Some(names_view(v@)),
        None => None,
    }
}

/// The settings of one runner.
#[derive(Debug)]
pub struct RunnerConfig {
    pub name: String,
    pub cwd: Option<String>,
    pub cmd: String,
    pub args: Option<Vec<String>>,
    pub watch_args: Option<Vec<String>>,
    pub run_modes: RunModes,
}

/// Why a runner's settings are refused.
pub enum RunnerFault {
    BadRunMode(Seq<char>),
    NoCmd,
}

/// What is wrong with a runner's settings, if anything: a `run_on` entry
/// that names no mode (the first one), else a missing `cmd`.
pub open spec fn runner_fault(m: TomlModel) -> Option<RunnerFault> {
    let bad = match deep_texts(m, seq!["run_on"@]) {
        Some(names) => first_bad_mode(names, 0),
        None => None,
    };
    if bad is Some {
        Some(RunnerFault::BadRunMode(bad.unwrap()))
    } else if deep_text(m, seq!["cmd"@]) is None {
        Some(RunnerFault::NoCmd)
    } else {
        None
    }
}

/// The error reported for a fault.
pub open spec fn fault_error(f: RunnerFault, e: Error) -> bool {
    match f {
        RunnerFault::BadRunMode(s) => e matches Error::RunnerConfigErrorRunOn(x) && x@ == s,
        RunnerFault::NoCmd => missing_value(e, "cmd"@),
    }
}

/// `c` is what the settings `m` of the runner `name` say.
pub open spec fn runner_fits(name: Seq<char>, m: TomlModel, c: RunnerConfig) -> bool {
    &&& c.name@ == name
    &&& deep_text(m, seq!["cmd"@]) == Some(c.cmd@)
    &&& opt_text(c.cwd) == deep_text(m, seq!["cwd"@])
    &&& opt_names(c.args) == deep_texts(m, seq!["args"@])
    &&& opt_names(c.watch_args) == deep_texts(m, seq!["watch_args"@])
    &&& c.run_modes.set() == match deep_texts(m, seq!["run_on"@]) {
        Some(names) => modes_named(names, names.len() as int),
        None => default_modes(deep_texts(m, seq!["watch_args"@]) is Some),
    }
}

/// The run modes named by `names`, or the error for the first name that
/// names none.
pub fn modes_from_names(names: &Vec<String>) -> (r: Result<RunModes, Error>)
    ensures
        match first_bad_mode(names_view(names@), 0) {
            Some(bad) => r matches Err(Error::RunnerConfigErrorRunOn(x)) && x@ == bad,
            None => r matches Ok(m) && m.set() == modes_named(
                names_view(names@),
                names@.len() as int,
            ),
        },
{
    let ghost nv = names_view(names@);
    let mut modes = RunModes::none();
    let mut i: usize = 0;
    assert(modes_named(nv, 0) =~= Set::<RunMode>::empty());
    while i < names.len()
        invariant
            nv == names_view(names@),
            i <= names@.len(),
            first_bad_mode(nv, 0) == first_bad_mode(nv, i as int),
            modes.set() == modes_named(nv, i as int),
        decreases names@.len() - i,
    {
        proof {
            reveal_strlit("Build");
            reveal_strlit("Dev");
        }
        match RunMode::from_name(names[i].as_str()) {
            Some(m) => {
                assert(mode_of(nv[i as int]) == Some(m));
                modes.insert(m);
                assert(modes.set() =~= modes_named(nv, i + 1)) by {
                    assert forall|x: RunMode| modes_named(nv, i + 1).contains(x) implies modes.set().contains(x) by {
                        let k = choose|k: int| 0 <= k < i + 1 && mode_of(#[trigger] nv[k]) == Some(x);
                        if k < i {
                            assert(modes_named(nv, i as int).contains(x));
                        }
                    }
                    assert forall|x: RunMode| modes.set().contains(x) implies modes_named(nv, i + 1).contains(x) by {
                        if x != m {
                            assert(modes_named(nv, i as int).contains(x));
                            let k = choose|k: int| 0 <= k < i && mode_of(#[trigger] nv[k]) == Some(x);
                            assert(0 <= k < i + 1);
                        } else {
                            assert(mode_of(nv[i as int]) == Some(x));
                        }
                    }
                }
            },
            None => {
                assert(mode_of(nv[i as int]) is None);
                return Err(Error::RunnerConfigErrorRunOn(names[i].clone()));
            },
        }
        i = i + 1;
    }
    Ok(modes)
}

/// The list at `key` of a runner's settings, if any.
fn texts_at(toml: &toml::Value, key: &str) -> (r: Option<Vec<String>>)
    ensures
        opt_names(r) == deep_texts(toml_model(*toml), seq![key@]),
{
    let keys = [key];
    assert(strs_view(keys@) =~= seq![key@]);
    match toml.deep_vec_string(&keys) {
        Ok(v) => Some(v),
        Err(_) => None,
    }
}

/// The text at `key` of a runner's settings, if any.
fn text_at(toml: &toml::Value, key: &str) -> (r: Option<String>)
    ensures
        opt_text(r) == deep_text(toml_model(*toml), seq![key@]),
{
    let keys = [key];
    assert(strs_view(keys@) =~= seq![key@]);
    match toml.deep_string(&keys) {
        Ok(v) => Some(v),
        Err(_) => None,
    }
}

impl RunnerConfig {
    /// The settings of the runner `runner_name` from its table `toml`.
    ///
    /// `run_on` lists the modes; without it a runner runs on builds, and in
    /// development too when it has `watch_args`. A `run_on` entry that names
    /// no mode gives `RunnerConfigErrorRunOn`; else a missing `cmd` gives
    /// `TomlMissingValue("cmd")`.
    pub fn from_value(runner_name: &str, toml: &toml::Value) -> (r: Result<RunnerConfig, Error>)
        ensures
            match runner_fault(toml_model(*toml)) {
                Some(f) => r matches Err(e) && fault_error(f, e),
                None => r matches Ok(c) && runner_fits(runner_name@, toml_model(*toml), c),
            },
    {
        proof {
            reveal_strlit("watch_args");
            reveal_strlit("args");
            reveal_strlit("run_on");
            reveal_strlit("cwd");
            reveal_strlit("cmd");
        }
        let watch_args = texts_at(toml, "watch_args");
        let run_on = texts_at(toml, "run_on");
        let run_modes = match &run_on {
            Some(v) => modes_from_names(v)?,
            None => {
                let mut m = RunModes::none();
                m.insert(RunMode::Build);
                if watch_args.is_some() {
                    m.insert(RunMode::Dev);
                }
                assert(m.set() =~= default_modes(watch_args is Some));
                m
            },
        };
        let cwd = text_at(toml, "cwd");
        let cmd = match text_at(toml, "cmd") {
            Some(c) => c,
            None => {
                proof {
                    reveal_strlit("cmd");
                }
                return Err(Error::TomlMissingValue(String::from_str("cmd")));
            },
        };
        let args = texts_at(toml, "args");
        Ok(RunnerConfig { name: runner_name.to_owned(), cwd, cmd, args, watch_args, run_modes })
    }
}

/// The entries of the `runner` table, if there is one.
pub open spec fn runner_entries(m: TomlModel) -> Option<Seq<(Seq<char>, TomlModel)>> {
    match child(m, "runner"@) {
        Some(TomlModel::Table(entries)) => Some(entries),
        _ => None,
    }
}

/// The settings of the runner of entry `i`.
pub open spec fn runner_props(entries: Seq<(Seq<char>, TomlModel)>, i: int) -> TomlModel {
    entry_of(entries, entries[i].0).unwrap()
}

/// The first runner fault from entry `i` on.
pub open spec fn first_runner_fault(entries: Seq<(Seq<char>, TomlModel)>, i: int) -> Option<
    RunnerFault,
>
    decreases entries.len() - i,
{
    if i < 0 || i >= entries.len() {
        None
    } else if runner_fault(runner_props(entries, i)) is Some {
        runner_fault(runner_props(entries, i))
    } else {
        first_runner_fault(entries, i + 1)
    }
}

/// The site's settings.
#[derive(Debug)]
pub struct SiteConfig {
    pub root_dir: SitePath,
    pub content_dir: SitePath,
    pub dist_dir: SitePath,
    pub runner_configs: Option<Vec<RunnerConfig>>,
}

/// `r` is what the settings document `m` of a site rooted at `root` gives:
/// the first runner fault if any; else `TomlMissingValue` for a missing
/// `source.content_dir`, then for a missing `source.dist_dir`; else the two
/// directories below the root, and the runners in table order.
pub open spec fn site_config_answers(root: PathView, m: TomlModel, r: Result<SiteConfig, Error>) -> bool {
    let fault = match runner_entries(m) {
        Some(entries) => first_runner_fault(entries, 0),
        None => None,
    };
    let content = deep_text(m, seq!["source"@, "content_dir"@]);
    let dist = deep_text(m, seq!["source"@, "dist_dir"@]);
    if fault is Some {
        r matches Err(e) && fault_error(fault.unwrap(), e)
    } else if content is None {
        r matches Err(e) && missing_value(e, dotted(seq!["source"@, "content_dir"@]))
    } else if dist is None {
        r matches Err(e) && missing_value(e, dotted(seq!["source"@, "dist_dir"@]))
    } else {
        &&& r is Ok
        &&& r.unwrap().root_dir@ == root
        &&& r.unwrap().content_dir@ == root.join(parse_spec(content.unwrap()))
        &&& r.unwrap().dist_dir@ == root.join(parse_spec(dist.unwrap()))
        &&& match runner_entries(m) {
            None => r.unwrap().runner_configs is None,
            Some(entries) => r.unwrap().runner_configs matches Some(v) && v@.len() == entries.len()
                && forall|i: int|
                0 <= i < entries.len() ==> runner_fits(
                    entries[i].0,
                    runner_props(entries, i),
                    #[trigger] v@[i],
                ),
        }
    }
}

proof fn lemma_entry_found(entries: Seq<(Seq<char>, TomlModel)>, i: int)
    requires
        0 <= i < entries.len(),
    ensures
        entry_of(entries, entries[i].0) is Some,
    decreases entries.len(),
{
    if entries[0].0 != entries[i].0 {
        lemma_entry_found(entries.drop_first(), i - 1);
    }
}

/// The settings of each runner of the table `table`, or the first fault.
fn runner_configs_of(table: &toml::Value) -> (r: Result<Vec<RunnerConfig>, Error>)
    requires
        toml_model(*table) is Table,
    ensures
        ({
            let entries = toml_model(*table)->Table_0;
            match first_runner_fault(entries, 0) {
                Some(f) => r matches Err(e) && fault_error(f, e),
                None => r matches Ok(v) && v@.len() == entries.len() && forall|i: int|
                    0 <= i < entries.len() ==> runner_fits(
                        entries[i].0,
                        runner_props(entries, i),
                        #[trigger] v@[i],
                    ),
            }
        }),
{
    let ghost entries = toml_model(*table)->Table_0;
    let keys = match toml_keys(table) {
        Some(k) => k,
        None => {
            return Err(Error::MissingConfigProperty(String::from_str("runner")));
        },
    };
    assert(names_view(keys@) == entry_keys(entries));
    let mut out: Vec<RunnerConfig> = Vec::new();
    let mut i: usize = 0;
    while i < keys.len()
        invariant
            toml_model(*table) is Table,
            entries == toml_model(*table)->Table_0,
            names_view(keys@) == entry_keys(entries),
            i <= keys@.len(),
            out@.len() == i,
            first_runner_fault(entries, 0) == first_runner_fault(entries, i as int),
            forall|k: int|
                0 <= k < i ==> runner_fits(
                    entries[k].0,
                    runner_props(entries, k),
                    #[trigger] out@[k],
                ),
        decreases keys@.len() - i,
    {
        assert(names_view(keys@)[i as int] == keys@[i as int]@);
        assert(names_view(keys@).len() == keys@.len());
        assert(entry_keys(entries).len() == entries.len());
        assert(entry_keys(entries)[i as int] == entries[i as int].0);
        assert(keys@[i as int]@ == entries[i as int].0);
        proof {
            lemma_entry_found(entries, i as int);
            assert(toml_model(*table) == TomlModel::Table(entries));
            assert(child(toml_model(*table), keys@[i as int]@) is Some);
        }
        let props = match toml_child(table, keys[i].as_str()) {
            Some(p) => p,
            None => {
                return Err(Error::MissingConfigProperty(keys[i].clone()));
            },
        };
        let c = RunnerConfig::from_value(keys[i].as_str(), props)?;
        assert(runner_fits(entries[i as int].0, runner_props(entries, i as int), c));
        let ghost before = out@;
        out.push(c);
        assert(forall|k: int| 0 <= k < i ==> out@[k] == before[k]);
        i = i + 1;
    }
    assert(names_view(keys@).len() == keys@.len());
    assert(entry_keys(entries).len() == entries.len());
    Ok(out)
}

impl SiteConfig {
    /// The settings of a site rooted at `root_dir` from its settings document
    /// `toml`: the content and output directories (relative to the root)
    /// under `source`, and the runners of the `runner` table.
    pub fn from_value(root_dir: SitePath, toml: &toml::Value) -> (r: Result<SiteConfig, Error>)
        ensures
            site_config_answers(root_dir@, toml_model(*toml), r),
    {
        proof {
            reveal_strlit("runner");
            reveal_strlit("source");
            reveal_strlit("content_dir");
            reveal_strlit("dist_dir");
        }
        let runner_configs = match toml_child(toml, "runner") {
            Some(t) => {
                if toml_keys(t).is_some() {
                    Some(runner_configs_of(t)?)
                } else {
                    None
                }
            },
            None => None,
        };
        let content_keys = ["source", "content_dir"];
        assert(strs_view(content_keys@) =~= seq!["source"@, "content_dir"@]);
        let content_dir = toml.deep_string(&content_keys)?;
        let dist_keys = ["source", "dist_dir"];
        assert(strs_view(dist_keys@) =~= seq!["source"@, "dist_dir"@]);
        let dist_dir = toml.deep_string(&dist_keys)?;
        let content_dir = root_dir.join(&SitePath::parse(content_dir.as_str()));
        let dist_dir = root_dir.join(&SitePath::parse(dist_dir.as_str()));
        Ok(SiteConfig { root_dir, content_dir, dist_dir, runner_configs })
    }
}

impl Runner {
    /// The runner that the settings `c` describe.
    pub fn from_config(c: RunnerConfig) -> (r: Runner)
        ensures
            r.name == c.name,
            r.cwd == c.cwd,
            r.cmd == c.cmd,
            r.args == c.args,
            r.watch_args == c.watch_args,
            r.run_on == c.run_modes,
    {
        Runner {
            name: c.name,
            cwd: c.cwd,
            cmd: c.cmd,
            args: c.args,
            watch_args: c.watch_args,
            run_on: c.run_modes,
        }
    }
}

/// `r` is the site the settings `c` describe.
pub open spec fn site_of(c: SiteConfig, r: Site) -> bool {
    &&& r.root_dir@ == c.root_dir@
    &&& r.content_dir@ == c.content_dir@
    &&& r.dist_dir@ == c.dist_dir@
    &&& match c.runner_configs {
        None => r.runners is None,
        Some(v) => r.runners matches Some(w) && w@.len() == v@.len() && forall|i: int|
            0 <= i < v@.len() ==> (#[trigger] w@[i]).name == v@[i].name && w@[i].cwd == v@[i].cwd
                && w@[i].cmd == v@[i].cmd && w@[i].args == v@[i].args && w@[i].watch_args
                == v@[i].watch_args && w@[i].run_on == v@[i].run_modes,
    }
}

impl Site {
    /// The site that the settings `config` describe.
    pub fn from_config(config: SiteConfig) -> (r: Site)
        ensures
            site_of(config, r),
    {
        let ghost c0 = config;
        let SiteConfig { root_dir, content_dir, dist_dir, runner_configs } = config;
        let runners = match runner_configs {
            Some(v) => {
                let ghost v0 = v@;
                let mut v = v;
                let mut w: Vec<Runner> = Vec::new();
                let mut rev: Vec<RunnerConfig> = Vec::new();
                while v.len() > 0
                    invariant
                        rev@.len() + v@.len() == v0.len(),
                        forall|i: int| 0 <= i < v@.len() ==> v@[i] == v0[i],
                        forall|i: int| 0 <= i < rev@.len() ==> rev@[i] == v0[v0.len() - 1 - i],
                    decreases v@.len(),
                {
                    let c = v.pop().unwrap();
                    rev.push(c);
                }
                while rev.len() > 0
                    invariant
                        w@.len() + rev@.len() == v0.len(),
                        forall|i: int| 0 <= i < rev@.len() ==> rev@[i] == v0[v0.len() - 1 - i],
                        forall|i: int|
                            0 <= i < w@.len() ==> (#[trigger] w@[i]).name == v0[i].name && w@[i].cwd
                                == v0[i].cwd && w@[i].cmd == v0[i].cmd && w@[i].args == v0[i].args
                                && w@[i].watch_args == v0[i].watch_args && w@[i].run_on
                                == v0[i].run_modes,
                    decreases rev@.len(),
                {
                    let c = rev.pop().unwrap();
                    w.push(Runner::from_config(c));
                }
                Some(w)
            },
            None => None,
        };
        Site { root_dir, content_dir, dist_dir, runners }
    }

    /// The site rooted at `root_dir`, from the text of its settings file
    /// (none when the file is missing).
    ///
    /// A missing file gives `MissingConfigFile` naming the root; a document
    /// that does not parse gives `TomlError`; otherwise the settings decide,
    /// as `SiteConfig::from_value` says.
    pub fn from_dir(root_dir: &SitePath, config_text: Option<&str>) -> (r: Result<Site, Error>)
        ensures
            match config_text {
                None => r matches Err(Error::MissingConfigFile(d)) && d@ == root_dir@.text(),
                Some(t) => match toml_document(t@) {
                    None => r matches Err(Error::TomlError(_)),
                    Some(m) => exists|c: Result<SiteConfig, Error>|
                        #[trigger] site_config_answers(root_dir@, m, c) && match c {
                            Ok(cfg) => r matches Ok(site) && site_of(cfg, site),
                            Err(e) => r == Err::<Site, Error>(e),
                        },
                },
            },
    {
        let text = match config_text {
            Some(t) => t,
            None => return Err(Error::MissingConfigFile(root_dir.to_text())),
        };
        let toml = match parse_toml(text) {
            Ok(v) => v,
            Err(msg) => return Err(Error::TomlError(msg)),
        };
        let config = SiteConfig::from_value(root_dir.duplicate(), &toml);
        let ghost c = config;
        let r = match config {
            Ok(cfg) => Ok(Site::from_config(cfg)),
            Err(e) => Err(e),
        };
        assert(site_config_answers(root_dir@, toml_model(toml), c));
        r
    }
}

} // verus!
