//! Registering and deleting the bot's slash commands: where the deploy
//! script and command files are looked for, and the Discord requests.

use vstd::prelude::*;
use crate::launch::{Location, Root};
use crate::text::ends_with;

verus! {

/// A configuration field the Discord requests need.
#[derive(Clone, Copy, Debug, PartialEq, Eq, Structural)]
pub enum ConfigField {
    ClientId,
    GuildId,
    Token,
}

/// Why a Discord request could not be prepared.
#[derive(Clone, Copy, Debug, PartialEq, Eq, Structural)]
pub enum DiscordError {
    /// The configuration lacks this field (or it is not text).
    Missing(ConfigField),
}

/// What identifies the bot to Discord.
#[derive(Debug)]
pub struct DiscordCredentials {
    pub client_id: String,
    pub guild_id: String,
    pub token: String,
}

/// Takes the three fields from the configuration; the first missing one, in
/// the order client id, guild id, token, is reported.
pub fn discord_credentials(
    client_id: Option<String>,
    guild_id: Option<String>,
    token: Option<String>,
) -> (r: Result<DiscordCredentials, DiscordError>)
    ensures
        client_id is None ==> r == Err::<DiscordCredentials, DiscordError>(
            DiscordError::Missing(ConfigField::ClientId),
        ),
        client_id is Some && guild_id is None ==> r == Err::<DiscordCredentials, DiscordError>(
            DiscordError::Missing(ConfigField::GuildId),
        ),
        client_id is Some && guild_id is Some && token is None ==> r == Err::<
            DiscordCredentials,
            DiscordError,
        >(DiscordError::Missing(ConfigField::Token)),
        match (client_id, guild_id, token) {
            (Some(c), Some(g), Some(t)) => match r {
                Ok(d) => d.client_id == c && d.guild_id == g && d.token == t,
                Err(_) => false,
            },
            _ => true,
        },
{
    match client_id {
        None => Err(DiscordError::Missing(ConfigField::ClientId)),
        Some(c) => match guild_id {
            None => Err(DiscordError::Missing(ConfigField::GuildId)),
            Some(g) => match token {
                None => Err(DiscordError::Missing(ConfigField::Token)),
                Some(t) => Ok(DiscordCredentials { client_id: c, guild_id: g, token: t }),
            },
        },
    }
}

pub open spec fn commands_url_spec(client_id: Seq<char>, guild_id: Seq<char>) -> Seq<char> {
    "https://discord.com/api/v9/applications/"@ + client_id + "/guilds/"@ + guild_id
        + "/commands"@
}

/// The URL listing the bot's commands in a guild.
pub fn commands_url(d: &DiscordCredentials) -> (r: String)
    ensures
        r@ == commands_url_spec(d.client_id@, d.guild_id@),
{
    let mut r = String::from_str("https://discord.com/api/v9/applications/");
    r.append(d.client_id.as_str());
    r.append("/guilds/");
    r.append(d.guild_id.as_str());
    r.append("/commands");
    r
}

/// The URL of one command.
pub fn command_url(d: &DiscordCredentials, command_id: &str) -> (r: String)
    ensures
        r@ == commands_url_spec(d.client_id@, d.guild_id@) + "/"@ + command_id@,
{
    let mut r = commands_url(d);
    r.append("/");
    r.append(command_id);
    r
}

/// The value of the `Authorization` header.
pub fn authorization(d: &DiscordCredentials) -> (r: String)
    ensures
        r@ == "Bot "@ + d.token@,
{
    let mut r = String::from_str("Bot ");
    r.append(d.token.as_str());
    r
}

fn resource_location(parts: Vec<&str>) -> (r: Location)
    ensures
        r@.0 == Root::ResourceDir,
        r@.1 == parts@.map_values(|p: &str| p@),
{
    let mut segments: Vec<String> = Vec::new();
    let mut i: usize = 0;
    while i < parts.len()
        invariant
            i <= parts@.len(),
            segments@.len() == i,
            forall|j: int| 0 <= j < i ==> #[trigger] segments@[j]@ == parts@[j]@,
        decreases parts@.len() - i,
    {
        segments.push(String::from_str(parts[i]));
        i = i + 1;
    }
    proof {
        assert(segments@.map_values(|s: String| s@) =~= parts@.map_values(|p: &str| p@));
    }
    Location { root: Root::ResourceDir, segments }
}

/// Where the bundled backend may be, in the order checked: `dist-backend`
/// of the resource directory, then `_up_/dist-backend`.
pub fn backend_locations() -> (r: Vec<Location>)
    ensures
        r@.len() == 2,
        r@[0]@ == (Root::ResourceDir, seq!["dist-backend"@]),
        r@[1]@ == (Root::ResourceDir, seq!["_up_"@, "dist-backend"@]),
{
    vec![resource_location(vec!["dist-backend"]), resource_location(vec!["_up_", "dist-backend"])]
}

/// Where the bundled command files may be, in the order checked: the
/// `commands` directory of each backend location.
pub fn command_source_locations() -> (r: Vec<Location>)
    ensures
        r@.len() == 2,
        r@[0]@ == (Root::ResourceDir, seq!["dist-backend"@, "commands"@]),
        r@[1]@ == (Root::ResourceDir, seq!["_up_"@, "dist-backend"@, "commands"@]),
{
    vec![
        resource_location(vec!["dist-backend", "commands"]),
        resource_location(vec!["_up_", "dist-backend", "commands"]),
    ]
}

/// Command files are the `.js` files.
pub fn is_command_file(name: &str) -> (r: bool)
    ensures
        r == (name@.len() >= 3 && name@.subrange(name@.len() - 3, name@.len() as int) == ".js"@),
{
    proof {
        reveal_strlit(".js");
    }
    ends_with(name, ".js")
}

} // verus!
