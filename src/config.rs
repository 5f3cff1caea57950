//! The bot's connection configuration and the Blizzard API credentials file.

use vstd::prelude::*;
use crate::text::{trim, trimmed};

verus! {

/// A tracked character.
#[derive(Debug)]
pub struct Character {
    pub name: String,
    pub realm: String,
    pub region: String,
}

/// The bot's connection configuration.
#[derive(Debug)]
pub struct Config {
    pub token: Option<String>,
    pub client_id: String,
    pub guild_id: String,
    pub token_channel: String,
    pub characters: Vec<Character>,
}

impl Config {
    /// The configuration written on first run: everything empty, no token.
    pub fn blank() -> (r: Config)
        ensures
            r.token is None,
            r.client_id@.len() == 0,
            r.guild_id@.len() == 0,
            r.token_channel@.len() == 0,
            r.characters@.len() == 0,
    {
        Config {
            token: None,
            client_id: String::new(),
            guild_id: String::new(),
            token_channel: String::new(),
            characters: Vec::new(),
        }
    }
}

/// The configuration to save: the given one, whose missing token is taken
/// from the configuration already on disk.
pub fn preserve_token(config: Config, existing_token: Option<String>) -> (r: Config)
    ensures
        r.token == (if config.token is Some {
            config.token
        } else {
            existing_token
        }),
        r.client_id == config.client_id,
        r.guild_id == config.guild_id,
        r.token_channel == config.token_channel,
        r.characters == config.characters,
{
    match config.token {
        Some(_) => config,
        None => Config { token: existing_token, ..config },
    }
}

/// Blizzard API credentials, kept in an environment file.
#[derive(Debug)]
pub struct BlizzardCredentials {
    pub client_id: String,
    pub client_secret: String,
}

pub open spec fn client_id_key() -> Seq<char> {
    "BLIZZARD_CLIENT_ID"@
}

pub open spec fn client_secret_key() -> Seq<char> {
    "BLIZZARD_CLIENT_SECRET"@
}

/// The lines of `s` from `start` on, where `s[start..i]` holds no newline.
pub open spec fn text_lines_from(s: Seq<char>, start: int, i: int) -> Seq<Seq<char>>
    decreases s.len() - i,
{
    if i >= s.len() {
        seq![s.subrange(start, s.len() as int)]
    } else if s[i] == '\n' {
        seq![s.subrange(start, i)] + text_lines_from(s, i + 1, i + 1)
    } else {
        text_lines_from(s, start, i + 1)
    }
}

/// The pieces of a text between newlines.
pub open spec fn text_lines(s: Seq<char>) -> Seq<Seq<char>> {
    text_lines_from(s, 0, 0)
}

/// The position of the first `=` in a line.
pub open spec fn first_equals(line: Seq<char>) -> Option<int>
    decreases line.len(),
{
    if line.len() == 0 {
        None
    } else {
        match first_equals(line.drop_last()) {
            Some(k) => Some(k),
            None => if line.last() == '=' {
                Some(line.len() - 1)
            } else {
                None
            },
        }
    }
}

/// The (key, value) that a line `key=value` assigns, both trimmed.
pub open spec fn assignment(line: Seq<char>) -> Option<(Seq<char>, Seq<char>)> {
    match first_equals(line) {
        Some(k) => Some(
            (trimmed(line.subrange(0, k)), trimmed(line.subrange(k + 1, line.len() as int))),
        ),
        None => None,
    }
}

/// The value the last line assigning `key` gives it.
pub open spec fn env_value(lines: Seq<Seq<char>>, key: Seq<char>) -> Option<Seq<char>>
    decreases lines.len(),
{
    if lines.len() == 0 {
        None
    } else {
        match assignment(lines.last()) {
            Some((k, v)) => if k == key {
                Some(v)
            } else {
                env_value(lines.drop_last(), key)
            },
            None => env_value(lines.drop_last(), key),
        }
    }
}

pub open spec fn value_or_empty(v: Option<Seq<char>>) -> Seq<char> {
    match v {
        Some(s) => s,
        None => Seq::empty(),
    }
}

fn split_text_lines(s: &str) -> (r: Vec<String>)
    ensures
        r@.map_values(|l: String| l@) == text_lines(s@),
{
    let n = s.unicode_len();
    let mut r: Vec<String> = Vec::new();
    let mut start: usize = 0;
    let mut i: usize = 0;
    while i < n
        invariant
            n == s@.len(),
            start <= i <= n,
            r@.map_values(|l: String| l@) + text_lines_from(s@, start as int, i as int) == text_lines(
                s@,
            ),
        decreases n - i,
    {
        if s.get_char(i) == '\n' {
            let piece = String::from_str(s.substring_char(start, i));
            proof {
                let before = r@.map_values(|l: String| l@);
                assert(r@.push(piece).map_values(|l: String| l@) == before.push(piece@));
                assert(before.push(piece@) + text_lines_from(s@, i + 1, i + 1) =~= before
                    + text_lines_from(s@, start as int, i as int));
            }
            r.push(piece);
            start = i + 1;
        }
        i = i + 1;
    }
    let piece = String::from_str(s.substring_char(start, n));
    proof {
        assert(r@.push(piece).map_values(|l: String| l@) =~= r@.map_values(|l: String| l@)
            + text_lines_from(s@, start as int, i as int));
    }
    r.push(piece);
    r
}

fn find_equals(line: &str) -> (r: Option<usize>)
    ensures
        match r {
            Some(k) => first_equals(line@) == Some(k as int) && k < line@.len(),
            None => first_equals(line@) is None,
        },
{
    let n = line.unicode_len();
    let mut i: usize = 0;
    while i < n
        invariant
            n == line@.len(),
            i <= n,
            first_equals(line@.subrange(0, i as int)) is None,
        decreases n - i,
    {
        proof {
            assert(line@.subrange(0, i + 1).drop_last() == line@.subrange(0, i as int));
        }
        if line.get_char(i) == '=' {
            proof {
                lemma_first_equals_extend(line@, i + 1);
            }
            return Some(i);
        }
        i = i + 1;
    }
    proof {
        assert(line@.subrange(0, n as int) == line@);
    }
    None
}

proof fn lemma_first_equals_extend(line: Seq<char>, j: int)
    requires
        0 <= j <= line.len(),
        first_equals(line.subrange(0, j)) is Some,
    ensures
        first_equals(line) == first_equals(line.subrange(0, j)),
    decreases line.len(),
{
    if j < line.len() {
        assert(line.drop_last().subrange(0, j) == line.subrange(0, j));
        lemma_first_equals_extend(line.drop_last(), j);
    } else {
        assert(line.subrange(0, j) == line);
    }
}

fn line_assignment(line: &str) -> (r: Option<(String, String)>)
    ensures
        match r {
            Some((k, v)) => assignment(line@) == Some((k@, v@)),
            None => assignment(line@) is None,
        },
{
    match find_equals(line) {
        Some(k) => {
            let n = line.unicode_len();
            let key = trim(line.substring_char(0, k));
            let value = trim(line.substring_char(k + 1, n));
            Some((key, value))
        },
        None => None,
    }
}

/// Reads the credentials from the text of the environment file: each line
/// `KEY=value` (key and value trimmed) assigns a key, the last assignment
/// wins, and a key never assigned reads as empty.
pub fn parse_credentials(content: &str) -> (r: BlizzardCredentials)
    ensures
        r.client_id@ == value_or_empty(env_value(text_lines(content@), client_id_key())),
        r.client_secret@ == value_or_empty(env_value(text_lines(content@), client_secret_key())),
{
    let lines = split_text_lines(content);
    let ghost ls = lines@.map_values(|l: String| l@);
    let id_key = String::from_str("BLIZZARD_CLIENT_ID");
    let secret_key = String::from_str("BLIZZARD_CLIENT_SECRET");
    let mut client_id = String::new();
    let mut client_secret = String::new();
    let mut i: usize = 0;
    while i < lines.len()
        invariant
            i <= lines@.len(),
            ls == lines@.map_values(|l: String| l@),
            id_key@ == client_id_key(),
            secret_key@ == client_secret_key(),
            client_id@ == value_or_empty(env_value(ls.subrange(0, i as int), client_id_key())),
            client_secret@ == value_or_empty(
                env_value(ls.subrange(0, i as int), client_secret_key()),
            ),
        decreases lines@.len() - i,
    {
        proof {
            reveal_strlit("BLIZZARD_CLIENT_ID");
            reveal_strlit("BLIZZARD_CLIENT_SECRET");
            assert(client_id_key().len() != client_secret_key().len());
            assert(ls.subrange(0, i + 1).drop_last() == ls.subrange(0, i as int));
            assert(ls.subrange(0, i + 1).last() == lines@[i as int]@);
        }
        match line_assignment(lines[i].as_str()) {
            Some((k, v)) => {
                if k == id_key {
                    client_id = v;
                } else if k == secret_key {
                    client_secret = v;
                }
            },
            None => {},
        }
        i = i + 1;
    }
    proof {
        assert(ls.subrange(0, i as int) == ls);
    }
    BlizzardCredentials { client_id, client_secret }
}

/// The text of the environment file for the given credentials.
pub fn format_credentials(c: &BlizzardCredentials) -> (r: String)
    ensures
        r@ == client_id_key() + "="@ + c.client_id@ + "\n"@ + client_secret_key() + "="@
            + c.client_secret@ + "\n"@,
{
    let mut r = String::from_str("BLIZZARD_CLIENT_ID=");
    r.append(c.client_id.as_str());
    r.append("\nBLIZZARD_CLIENT_SECRET=");
    r.append(c.client_secret.as_str());
    r.append("\n");
    proof {
        reveal_strlit("BLIZZARD_CLIENT_ID=");
        reveal_strlit("BLIZZARD_CLIENT_ID");
        reveal_strlit("\nBLIZZARD_CLIENT_SECRET=");
        reveal_strlit("BLIZZARD_CLIENT_SECRET");
        reveal_strlit("=");
        reveal_strlit("\n");
        assert(r@ =~= client_id_key() + "="@ + c.client_id@ + "\n"@ + client_secret_key() + "="@
            + c.client_secret@ + "\n"@);
    }
    r
}

} // verus!
