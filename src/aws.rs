//! AWS credentials of a named profile, read from the texts of the AWS
//! `credentials` and `config` files.

use vstd::prelude::*;
use crate::error::Error;
use crate::text::{trim_of, trimmed};

verus! {

/// The credentials of an AWS profile.
#[derive(Debug)]
pub struct AwsCred {
    pub id: String,
    pub secret: String,
    pub region: String,
}

/// Group 1 of the first match of the regular expression `pattern` in
/// `content`, when the pattern compiles and matches.
pub uninterp spec fn first_capture(pattern: Seq<char>, content: Seq<char>) -> Option<Seq<char>>;

/// Relies on `regex::Regex::new` and `Regex::captures`: group 1 of the first
/// match (empty when the group took no part), none when the pattern does not
/// compile or does not match. The result depends on the two texts alone.
#[verifier::external_body]
fn capture_block(pattern: &str, content: &str) -> (r: Option<String>)
    ensures
        match r {
            Some(b) => first_capture(pattern@, content@) == Some(b@),
            None => first_capture(pattern@, content@) is None,
        },
{
    let re = regex::Regex::new(pattern).ok()?;
    let caps = re.captures(content)?;
    Some(caps.get(1).map_or("", |m| m.as_str()).to_owned())
}

/// The text of a line ending before `end`, a carriage return before the
/// line feed dropped.
pub open spec fn line_text(s: Seq<char>, start: int, end: int) -> Seq<char> {
    let seg = s.subrange(start, end);
    if seg.len() > 0 && seg.last() == '\r' {
        seg.drop_last()
    } else {
        seg
    }
}

/// The lines of `s` from position `i` on, the current one starting at
/// `start`, after those in `acc`.
pub open spec fn lines_from(s: Seq<char>, i: int, start: int, acc: Seq<Seq<char>>) -> Seq<Seq<char>>
    decreases s.len() - i,
{
    if i >= s.len() {
        if start < s.len() {
            acc.push(s.subrange(start, s.len() as int))
        } else {
            acc
        }
    } else if s[i] == '\n' {
        lines_from(s, i + 1, i + 1, acc.push(line_text(s, start, i)))
    } else {
        lines_from(s, i + 1, start, acc)
    }
}

/// The lines of `s`, as `str::lines` documents them: split at `\n` or
/// `\r\n`, the last line ending optional.
pub open spec fn lines_of(s: Seq<char>) -> Seq<Seq<char>> {
    lines_from(s, 0, 0, Seq::empty())
}

/// Index of the first `=` of `s`, or -1.
pub open spec fn first_eq(s: Seq<char>, i: int) -> int
    decreases s.len() - i,
{
    if i < 0 || i >= s.len() {
        -1
    } else if s[i] == '=' {
        i
    } else {
        first_eq(s, i + 1)
    }
}

/// The setting of a `name = value` line, both sides trimmed; none for a
/// line without `=`.
pub open spec fn pair_of(line: Seq<char>) -> Option<(Seq<char>, Seq<char>)> {
    let k = first_eq(line, 0);
    if k < 0 {
        None
    } else {
        Some((trim_of(line.subrange(0, k)), trim_of(line.subrange(k + 1, line.len() as int))))
    }
}

/// The settings of a sequence of lines, in order.
pub open spec fn pairs_of(lines: Seq<Seq<char>>) -> Seq<(Seq<char>, Seq<char>)>
    decreases lines.len(),
{
    if lines.len() == 0 {
        Seq::empty()
    } else {
        let rest = pairs_of(lines.drop_last());
        match pair_of(lines.last()) {
            Some(p) => rest.push(p),
            None => rest,
        }
    }
}

/// The value of the last setting named `key`.
pub open spec fn value_of(pairs: Seq<(Seq<char>, Seq<char>)>, key: Seq<char>) -> Option<Seq<char>>
    decreases pairs.len(),
{
    if pairs.len() == 0 {
        None
    } else if pairs.last().0 == key {
        Some(pairs.last().1)
    } else {
        value_of(pairs.drop_last(), key)
    }
}

/// The views of a sequence of pairs of strings.
pub open spec fn pairs_view(v: Seq<(String, String)>) -> Seq<(Seq<char>, Seq<char>)> {
    v.map_values(|p: (String, String)| (p.0@, p.1@))
}

/// The lines of `s`.
pub fn lines(s: &str) -> (r: Vec<String>)
    ensures
        crate::path::names_view(r@) == lines_of(s@),
{
    let n = s.unicode_len();
    let mut out: Vec<String> = Vec::new();
    let mut start: usize = 0;
    let mut i: usize = 0;
    assert(crate::path::names_view(out@) =~= Seq::<Seq<char>>::empty());
    while i < n
        invariant
            n == s@.len(),
            start <= i <= n,
            lines_of(s@) == lines_from(s@, i as int, start as int, crate::path::names_view(out@)),
        decreases n - i,
    {
        if s.get_char(i) == '\n' {
            let mut end = i;
            if end > start && s.get_char(end - 1) == '\r' {
                end = end - 1;
            }
            let line = s.substring_char(start, end).to_owned();
            proof {
                let seg = s@.subrange(start as int, i as int);
                if end < i {
                    assert(seg.last() == '\r');
                    assert(line@ =~= seg.drop_last());
                } else {
                    assert(line@ =~= seg);
                    if seg.len() > 0 {
                        assert(seg.last() == s@[i - 1]);
                    }
                }
                assert(line@ == line_text(s@, start as int, i as int));
            }
            let ghost before = out@;
            out.push(line);
            assert(crate::path::names_view(out@) == crate::path::names_view(before).push(line@));
            start = i + 1;
        }
        i = i + 1;
    }
    if start < n {
        let line = s.substring_char(start, n).to_owned();
        let ghost before = out@;
        out.push(line);
        assert(crate::path::names_view(out@) == crate::path::names_view(before).push(line@));
    }
    out
}

/// The setting of one line, if it has a `=`.
fn parse_line(line: &str) -> (r: Option<(String, String)>)
    ensures
        match r {
            Some(p) => pair_of(line@) == Some((p.0@, p.1@)),
            None => pair_of(line@) is None,
        },
{
    let n = line.unicode_len();
    let mut k: usize = 0;
    while k < n
        invariant
            n == line@.len(),
            k <= n,
            first_eq(line@, 0) == first_eq(line@, k as int),
        decreases n - k,
    {
        if line.get_char(k) == '=' {
            let name = trimmed(line.substring_char(0, k)).to_owned();
            let value = trimmed(line.substring_char(k + 1, n)).to_owned();
            return Some((name, value));
        }
        k = k + 1;
    }
    None
}

/// The `name = value` settings of a block of lines, in order.
pub fn parse_aws_block(block: &str) -> (r: Vec<(String, String)>)
    ensures
        pairs_view(r@) == pairs_of(lines_of(block@)),
{
    let ls = lines(block);
    let ghost lv = crate::path::names_view(ls@);
    let mut out: Vec<(String, String)> = Vec::new();
    let mut i: usize = 0;
    assert(pairs_view(out@) =~= Seq::<(Seq<char>, Seq<char>)>::empty());
    while i < ls.len()
        invariant
            lv == crate::path::names_view(ls@),
            lv == lines_of(block@),
            i <= ls@.len(),
            pairs_view(out@) == pairs_of(lv.subrange(0, i as int)),
        decreases ls@.len() - i,
    {
        let ghost seen = lv.subrange(0, i + 1);
        assert(seen.drop_last() == lv.subrange(0, i as int));
        assert(seen.last() == ls@[i as int]@);
        match parse_line(ls[i].as_str()) {
            Some(p) => {
                let ghost before = out@;
                let ghost pv = (p.0@, p.1@);
                out.push(p);
                assert(pairs_view(out@) == pairs_view(before).push(pv));
            },
            None => {},
        }
        i = i + 1;
    }
    assert(lv.subrange(0, ls@.len() as int) == lv);
    out
}

/// The value of the last setting named `key`.
pub fn setting(pairs: &Vec<(String, String)>, key: &str) -> (r: Option<String>)
    ensures
        match r {
            Some(v) => value_of(pairs_view(pairs@), key@) == Some(v@),
            None => value_of(pairs_view(pairs@), key@) is None,
        },
{
    let mut i: usize = pairs.len();
    assert(pairs_view(pairs@).subrange(0, pairs@.len() as int) == pairs_view(pairs@));
    while i > 0
        invariant
            i <= pairs@.len(),
            value_of(pairs_view(pairs@), key@) == value_of(
                pairs_view(pairs@).subrange(0, i as int),
                key@,
            ),
        decreases i,
    {
        let ghost seen = pairs_view(pairs@).subrange(0, i as int);
        assert(seen.drop_last() == pairs_view(pairs@).subrange(0, i - 1));
        assert(seen.last() == (pairs@[i - 1].0@, pairs@[i - 1].1@));
        if crate::text::str_eq(pairs[i - 1].0.as_str(), key) {
            return Some(pairs[i - 1].1.clone());
        }
        i = i - 1;
    }
    None
}

/// The settings of the first block of `content` that the regular expression
/// `pattern` captures; none when nothing is captured.
pub fn parse_aws_regex_block(pattern: &str, content: &str) -> (r: Vec<(String, String)>)
    ensures
        pairs_view(r@) == match first_capture(pattern@, content@) {
            Some(b) => pairs_of(lines_of(b)),
            None => Seq::empty(),
        },
{
    match capture_block(pattern, content) {
        Some(b) => parse_aws_block(b.as_str()),
        None => {
            let r: Vec<(String, String)> = Vec::new();
            assert(pairs_view(r@) =~= Seq::<(Seq<char>, Seq<char>)>::empty());
            r
        },
    }
}

/// The pattern of a profile's block in the credentials file.
pub open spec fn credentials_pattern(profile: Seq<char>) -> Seq<char> {
    "\\["@ + profile + "\\][\\r\\n]+([^\\[]+)"@
}

/// The pattern of a profile's block in the config file.
pub open spec fn config_pattern(profile: Seq<char>) -> Seq<char> {
    "\\[profile\\W"@ + profile + "\\][\\r\\n]+([^\\[]+)"@
}

/// The settings of the profile's block of a file, by pattern.
pub open spec fn block_settings(pattern: Seq<char>, content: Seq<char>) -> Seq<(Seq<char>, Seq<char>)> {
    match first_capture(pattern, content) {
        Some(b) => pairs_of(lines_of(b)),
        None => Seq::empty(),
    }
}

/// The access key id and secret of `profile` in the text of the credentials
/// file, when both are set.
pub fn extract_id_secret_from_aws_config(profile: &str, credentials: &str) -> (r: Option<(String, String)>)
    ensures
        ({
            let s = block_settings(credentials_pattern(profile@), credentials@);
            let id = value_of(s, "aws_access_key_id"@);
            let secret = value_of(s, "aws_secret_access_key"@);
            match r {
                Some(p) => id == Some(p.0@) && secret == Some(p.1@),
                None => id is None || secret is None,
            }
        }),
{
    let pattern = String::from_str("\\[").concat(profile).concat("\\][\\r\\n]+([^\\[]+)");
    let data = parse_aws_regex_block(pattern.as_str(), credentials);
    let id = setting(&data, "aws_access_key_id");
    let secret = setting(&data, "aws_secret_access_key");
    match (id, secret) {
        (Some(id), Some(secret)) => Some((id, secret)),
        _ => None,
    }
}

/// The region of `profile` in the text of the config file, if set.
pub fn extract_region_from_aws_config(profile: &str, config: &str) -> (r: Option<String>)
    ensures
        match r {
            Some(v) => value_of(block_settings(config_pattern(profile@), config@), "region"@) == Some(v@),
            None => value_of(block_settings(config_pattern(profile@), config@), "region"@) is None,
        },
{
    let pattern = String::from_str("\\[profile\\W").concat(profile).concat(
        "\\][\\r\\n]+([^\\[]+)",
    );
    let data = parse_aws_regex_block(pattern.as_str(), config);
    setting(&data, "region")
}

/// The credentials of `profile` from the texts of the AWS credentials and
/// config files: `InvalidS3Config` unless the key id, the secret and the
/// region are all set.
pub fn extract_aws_cred_from_profile(profile: &str, credentials: &str, config: &str) -> (r: Result<AwsCred, Error>)
    ensures
        ({
            let s = block_settings(credentials_pattern(profile@), credentials@);
            let id = value_of(s, "aws_access_key_id"@);
            let secret = value_of(s, "aws_secret_access_key"@);
            let region = value_of(block_settings(config_pattern(profile@), config@), "region"@);
            if id is Some && secret is Some && region is Some {
                r matches Ok(c) && c.id@ == id.unwrap() && c.secret@ == secret.unwrap() && c.region@
                    == region.unwrap()
            } else {
                r matches Err(Error::InvalidS3Config)
            }
        }),
{
    let region = extract_region_from_aws_config(profile, config);
    let id_secret = extract_id_secret_from_aws_config(profile, credentials);
    match (region, id_secret) {
        (Some(region), Some((id, secret))) => Ok(AwsCred { region, id, secret }),
        _ => Err(Error::InvalidS3Config),
    }
}

} // verus!
