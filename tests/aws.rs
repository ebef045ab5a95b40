use ssite::aws::{extract_aws_cred_from_profile, extract_id_secret_from_aws_config, extract_region_from_aws_config, lines, parse_aws_block, parse_aws_regex_block, setting};
use ssite::error::Error;
use ssite::path::SitePath;
use ssite::x_string::{DispStr, XStr, XString, W};

const CREDENTIALS: &str = "[other]\naws_access_key_id = other-id\naws_secret_access_key = other-key\n\n[jc-user]\naws_access_key_id = id-1\naws_secret_access_key = key-1\n";
const CONFIG: &str = "[profile other]\nregion = eu-west-1\n\n[profile jc-user]\nregion = us-west-2\noutput = json\n";

#[test]
fn cred_from_profile() {
    let c = extract_aws_cred_from_profile("jc-user", CREDENTIALS, CONFIG).unwrap();
    assert_eq!("id-1", c.id);
    assert_eq!("key-1", c.secret);
    assert_eq!("us-west-2", c.region);
}

#[test]
fn cred_without_region_is_invalid() {
    let r = extract_aws_cred_from_profile("jc-user", CREDENTIALS, "[profile other]\nregion = x\n");
    assert!(matches!(r, Err(Error::InvalidS3Config)));
}

#[test]
fn cred_of_unknown_profile_is_invalid() {
    assert!(matches!(
        extract_aws_cred_from_profile("nobody", CREDENTIALS, CONFIG),
        Err(Error::InvalidS3Config)
    ));
    assert!(extract_id_secret_from_aws_config("nobody", CREDENTIALS).is_none());
    assert_eq!(Some("eu-west-1".to_string()), extract_region_from_aws_config("other", CONFIG));
}

#[test]
fn cred_with_bad_pattern_is_invalid() {
    assert!(matches!(
        extract_aws_cred_from_profile("(", CREDENTIALS, CONFIG),
        Err(Error::InvalidS3Config)
    ));
}

#[test]
fn block_settings_last_one_wins() {
    let pairs = parse_aws_block("a = 1\r\nb=2=3\nnoeq\n a = 4 ");
    let expected: Vec<(String, String)> = vec![
        ("a".to_string(), "1".to_string()),
        ("b".to_string(), "2=3".to_string()),
        ("a".to_string(), "4".to_string()),
    ];
    assert_eq!(expected, pairs);
    assert_eq!(Some("4".to_string()), setting(&pairs, "a"));
    assert_eq!(None, setting(&pairs, "c"));
}

#[test]
fn regex_block_is_captured() {
    let pairs = parse_aws_regex_block(r"\[x\][\r\n]+([^\[]+)", "[w]\nk = 0\n[x]\nk = 1\n[y]\nk = 2\n");
    assert_eq!(vec![("k".to_string(), "1".to_string())], pairs);
    assert!(parse_aws_regex_block(r"\[z\][\r\n]+([^\[]+)", "[x]\nk = 1\n").is_empty());
}

#[test]
fn lines_like_std() {
    for s in ["", "a", "a\n", "a\n\n", "\n", "a\r\nb", "a\rb\r", "x\r\n\r\ny"] {
        let expected: Vec<String> = s.lines().map(|l| l.to_string()).collect();
        assert_eq!(expected, lines(s), "{s:?}");
    }
}

#[test]
fn string_helpers() {
    let p = SitePath::parse("/a/b");
    assert_eq!(Some("/a/b".to_string()), p.x_string());
    assert_eq!(None, None::<SitePath>.x_string());
    assert_eq!(Some("/a/b".to_string()), Some(SitePath::parse("/a/b")).x_string());
    assert_eq!(Some("x"), Some("x".to_string()).x_str());
    assert_eq!("", None::<String>.disp_str());
    assert_eq!("y", Some("y".to_string()).disp_str());
    let w = W(3u8);
    assert_eq!(3, w.0);
}
