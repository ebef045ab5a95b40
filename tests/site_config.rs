use ssite::config::{toml_as_option_string, toml_as_option_value, toml_as_string, DeepGet};
use ssite::config::{RunnerConfig, SiteConfig};
use ssite::error::Error;
use ssite::path::SitePath;
use ssite::site::{RunMode, Site};

const SITE_TOML: &str = r#"
		[source]
		content_dir = "content/"
		dist_dir = "_site"
		
		[runner.pcss]
    cmd = "echo"
    args = ["pcss", "args"]
    watch_args = ["pcss", "watch"]

		[runner.rollup]
    cmd = "rollup"
    args = ["rollup", "-c"]
    watch_args = ["rollup", "-w"]  		
  "#;

const TESTS_DATA_DIR: &str = ".tests-data/site-a";

fn parse(text: &str) -> toml::Value {
    toml::from_str::<toml::Value>(text).expect("valid toml")
}

#[test]
fn test_site_config_site_config_test_from_toml() {
    let toml = parse(SITE_TOML);
    let root_dir = SitePath::parse(".tests-data/site-a");
    let site_config = SiteConfig::from_value(root_dir, &toml).unwrap();

    assert_eq!(".tests-data/site-a", site_config.root_dir.to_text());
    let content_dir = site_config.content_dir.to_text();
    let idx = content_dir.len() - ".tests-data/site-a/content".len();
    assert_eq!(".tests-data/site-a/content", &content_dir[idx..]);

    let r_configs = site_config.runner_configs.as_ref().unwrap();
    let runner = r_configs.get(0).unwrap();
    assert_eq!("pcss", runner.name);
    assert_eq!("echo", runner.cmd);
    assert_eq!(&vec!["pcss", "args"], runner.args.as_ref().unwrap());
}

#[test]
fn tests_site_config_site_config_test_from_toml() {
    let toml = parse(SITE_TOML);
    let root_dir = SitePath::parse(TESTS_DATA_DIR);
    let site_config = SiteConfig::from_value(root_dir, &toml).unwrap();

    assert_eq!(TESTS_DATA_DIR, site_config.root_dir.to_text());
    let content_dir = site_config.content_dir.to_text();
    let end_with = format!("{}/content", &TESTS_DATA_DIR[1..]);
    assert!(content_dir.ends_with(&end_with));

    let r_configs = site_config.runner_configs.as_ref().unwrap();
    let runner = r_configs.get(0).unwrap();
    assert_eq!("pcss", runner.name);
    assert_eq!("echo", runner.cmd);
    assert_eq!(&vec!["pcss", "args"], runner.args.as_ref().unwrap());
}

const RUNNER_SIMPLE: &str = r#"
    cmd = "echo"
    args = ["pcss", "args"]
    watch_args = ["pcss", "watch"]  
  "#;

const RUNNER_WITH_RUN_ON: &str = r#"
    cmd = "echo"
    args = ["pcss", "args"]
    watch_args = ["pcss", "watch"]  
    run_on = ["Dev", "Build"]
  "#;

#[test]
fn test_site_config_site_config_test_runner_config_parse_simple() {
    let toml = parse(RUNNER_SIMPLE);
    let runner_config = RunnerConfig::from_value("test_runner", &toml).unwrap();

    assert_eq!("echo", runner_config.cmd);
    assert_eq!(&vec!["pcss", "args"], runner_config.args.as_ref().unwrap());
    assert_eq!(&vec!["pcss", "watch"], runner_config.watch_args.as_ref().unwrap());
    assert_eq!(&RunMode::Build, runner_config.run_modes.to_vec().iter().next().unwrap());
}

#[test]
fn tests_site_config_site_config_test_runner_config_parse_simple() {
    let toml = parse(RUNNER_SIMPLE);
    let runner_config = RunnerConfig::from_value("test_runner", &toml).unwrap();

    assert_eq!("echo", runner_config.cmd);
    assert_eq!(&vec!["pcss", "args"], runner_config.args.as_ref().unwrap());
    assert_eq!(&vec!["pcss", "watch"], runner_config.watch_args.as_ref().unwrap());
    assert_eq!(&RunMode::Build, runner_config.run_modes.to_vec().iter().next().unwrap());
}

#[test]
fn test_site_config_site_config_test_runner_config_parse_with_run_on() {
    let toml = parse(RUNNER_WITH_RUN_ON);
    let runner_config = RunnerConfig::from_value("test_runner", &toml).unwrap();

    assert_eq!("echo", runner_config.cmd);
    assert_eq!(&vec!["pcss", "args"], runner_config.args.as_ref().unwrap());
    assert_eq!(&vec!["pcss", "watch"], runner_config.watch_args.as_ref().unwrap());
    assert!(runner_config.run_modes.contains(RunMode::Dev));
    assert!(runner_config.run_modes.contains(RunMode::Build));
    assert_eq!(vec![RunMode::Build, RunMode::Dev], runner_config.run_modes.to_vec());
}

#[test]
fn tests_site_config_site_config_test_runner_config_parse_with_run_on() {
    let toml = parse(RUNNER_WITH_RUN_ON);
    let runner_config = RunnerConfig::from_value("test_runner", &toml).unwrap();

    assert_eq!("echo", runner_config.cmd);
    assert_eq!(&vec!["pcss", "args"], runner_config.args.as_ref().unwrap());
    assert_eq!(&vec!["pcss", "watch"], runner_config.watch_args.as_ref().unwrap());
    assert!(runner_config.run_modes.contains(RunMode::Dev));
    assert!(runner_config.run_modes.contains(RunMode::Build));
    assert_eq!(vec![RunMode::Build, RunMode::Dev], runner_config.run_modes.to_vec());
}

#[test]
fn site_test_site_from_dir() {
    let site = Site::from_dir(&SitePath::parse(TESTS_DATA_DIR), Some(SITE_TOML));
    println!("->> site {:?}", site);
    assert!(site.is_ok());
}

#[test]
fn runner_without_run_on_or_watch_args_builds_only() {
    let toml = parse("cmd = \"make\"\nargs = [\"all\"]\n");
    let c = RunnerConfig::from_value("m", &toml).unwrap();
    assert_eq!(vec![RunMode::Build], c.run_modes.to_vec());
    assert!(c.watch_args.is_none());
    assert!(c.cwd.is_none());
}

#[test]
fn runner_bad_run_on_is_refused() {
    let toml = parse("cmd = \"make\"\nrun_on = [\"Build\", \"Deploy\"]\n");
    let r = RunnerConfig::from_value("m", &toml);
    assert_eq!(Err(Error::RunnerConfigErrorRunOn("Deploy".to_string())), r.map(|_| ()));
}

#[test]
fn runner_bad_run_on_comes_before_missing_cmd() {
    let toml = parse("run_on = [\"build\"]\n");
    let r = RunnerConfig::from_value("m", &toml);
    assert_eq!(Err(Error::RunnerConfigErrorRunOn("build".to_string())), r.map(|_| ()));
}

#[test]
fn runner_without_cmd_is_refused() {
    let toml = parse("args = [\"x\"]\n");
    let r = RunnerConfig::from_value("m", &toml);
    assert_eq!(Err(Error::TomlMissingValue("cmd".to_string())), r.map(|_| ()));
}

#[test]
fn runner_non_string_args_read_as_empty() {
    let toml = parse("cmd = \"x\"\nargs = [\"a\", 3, \"b\"]\n");
    let c = RunnerConfig::from_value("m", &toml).unwrap();
    assert_eq!(&vec!["a", "", "b"], c.args.as_ref().unwrap());
}

#[test]
fn site_config_without_content_dir_is_refused() {
    let toml = parse("[source]\ndist_dir = \"_site\"\n");
    let r = SiteConfig::from_value(SitePath::parse("/site"), &toml);
    assert_eq!(
        Err(Error::TomlMissingValue("source.content_dir".to_string())),
        r.map(|_| ())
    );
}

#[test]
fn site_config_without_dist_dir_is_refused() {
    let toml = parse("[source]\ncontent_dir = \"content\"\n");
    let r = SiteConfig::from_value(SitePath::parse("/site"), &toml);
    assert_eq!(Err(Error::TomlMissingValue("source.dist_dir".to_string())), r.map(|_| ()));
}

#[test]
fn site_config_without_runners_has_none() {
    let toml = parse("[source]\ncontent_dir = \"content\"\ndist_dir = \"out/site\"\n");
    let c = SiteConfig::from_value(SitePath::parse("/site"), &toml).unwrap();
    assert!(c.runner_configs.is_none());
    assert_eq!("/site/content", c.content_dir.to_text());
    assert_eq!("/site/out/site", c.dist_dir.to_text());
}

#[test]
fn site_from_dir_without_settings_file() {
    let r = Site::from_dir(&SitePath::parse("/my/site"), None);
    assert_eq!(Err(Error::MissingConfigFile("/my/site".to_string())), r.map(|_| ()));
}

#[test]
fn site_from_dir_with_broken_settings() {
    let r = Site::from_dir(&SitePath::parse("/my/site"), Some("[source\n"));
    assert!(matches!(r, Err(Error::TomlError(_))));
}

#[test]
fn site_from_dir_keeps_runners_in_table_order() {
    let site = Site::from_dir(&SitePath::parse("/s"), Some(SITE_TOML)).unwrap();
    let names: Vec<&str> = site.runners().unwrap().iter().map(|r| r.name()).collect();
    assert_eq!(vec!["pcss", "rollup"], names);
    assert_eq!("/s/content", site.content_dir().to_text());
    assert_eq!("/s/_site", site.dist_dir().to_text());
}

#[test]
fn runner_invocations() {
    let toml = parse("cmd = \"npm\"\ncwd = \"web\"\nargs = [\"run\", \"build\"]\n");
    let c = RunnerConfig::from_value("web", &toml).unwrap();
    let r = ssite::site::Runner::from_config(c);
    let root = SitePath::parse("/s");
    let b = r.build_invocation(&root);
    assert_eq!("npm", b.program);
    assert_eq!("/s/web", b.cwd.to_text());
    assert_eq!(vec!["run", "build"], b.args);
    let w = r.watch_invocation(&root);
    assert_eq!(vec!["run", "build"], w.args);
    assert!(r.has_run_mode(&RunMode::Build));
    assert!(!r.has_run_mode(&RunMode::Dev));
}

#[test]
fn deep_get_reads_nested_values() {
    let toml = parse(SITE_TOML);
    assert_eq!(Ok("_site".to_string()), toml.deep_string(&["source", "dist_dir"]));
    assert_eq!(Ok("content/"), toml.deep_str(&["source", "content_dir"]));
    assert_eq!(
        Ok(vec!["rollup".to_string(), "-w".to_string()]),
        toml.deep_vec_string(&["runner", "rollup", "watch_args"])
    );
    assert!(toml.deep_get(&["runner", "nope"]).is_none());
    assert!(toml_as_option_value(&toml, &["runner", "pcss"]).is_some());
    assert_eq!(Some("echo".to_string()), toml_as_option_string(&toml, &["runner", "pcss", "cmd"]));
    assert_eq!(
        Err(Error::MissingConfigProperty("source.nope".to_string())),
        toml_as_string(&toml, &["source", "nope"])
    );
    assert_eq!(
        Err(Error::TomlMissingValue("runner.pcss.args".to_string())),
        toml.deep_string(&["runner", "pcss", "args"])
    );
}
