//! Where the bot's key-value stores live on disk.

use vstd::prelude::*;
use crate::text::{decimal, push_decimal, push_char};

verus! {

/// The directory that holds every store.
pub open spec fn data_root() -> Seq<char> {
    "./data/"@
}

/// The directory of a guild's own stores.
pub open spec fn guild_dir(guild_id: nat) -> Seq<char> {
    data_root() + decimal(guild_id) + seq!['/']
}

/// The directory of a guild's own stores: `./data/<guild id>/`.
pub fn guild_data_dir(guild_id: u64) -> (dir: String)
    ensures
        dir@ == guild_dir(guild_id as nat),
{
    let mut dir = String::from_str("./data/");
    push_decimal(&mut dir, guild_id);
    push_char(&mut dir, '/');
    dir
}

/// The path of the store `db_name` of a guild:
/// `./data/<guild id>/<db_name>`. The directory must exist before the store
/// is opened.
pub fn construct_data_path(guild_id: u64, db_name: &str) -> (path: String)
    ensures
        path@ == guild_dir(guild_id as nat) + db_name@,
{
    let mut path = guild_data_dir(guild_id);
    path.append(db_name);
    path
}

/// The path of the store `db_name` shared by all guilds: `./data/<db_name>`.
pub fn global_data_path(db_name: &str) -> (path: String)
    ensures
        path@ == data_root() + db_name@,
{
    let mut path = String::from_str("./data/");
    path.append(db_name);
    path
}

} // verus!
