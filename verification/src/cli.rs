//! Command line surface: what the user asked for, once parsed.

use vstd::prelude::*;
use crate::text::{join, join_strings, views};

verus! {

/// The whole command line.
#[derive(Clone, Debug)]
pub struct Cli {
    /// Destination: a saved place, "lat,lon", or an address to look up,
    /// collected word by word so that an address needs no quotes.
    pub destination: Vec<String>,
    pub common: Common,
    pub command: Option<Command>,
}

/// Flags shared by every command.
#[derive(Clone, Debug)]
pub struct Common {
    /// Where to start from. Defaults to the current position.
    pub from: Option<String>,
    /// Refresh continuously in a full-screen view.
    pub watch: bool,
    /// Print raw JSON instead of a rendered board.
    pub json: bool,
    /// How many results to show.
    pub count: Option<usize>,
    /// Limit to these transport modes.
    pub modes: Option<Vec<String>>,
    /// Do not try Core Location.
    pub no_gps: bool,
    /// Do not fall back to IP geolocation.
    pub no_ip: bool,
    /// `auto`, `always` or `never`.
    pub color: Option<String>,
}

/// Whether `--color` forces colour on (`always`) or off (`never`); `None`
/// leaves it to the environment.
pub open spec fn spec_colour_override(color: Option<String>) -> Option<bool> {
    match color {
        Some(c) => if c@ == "always"@ {
            Some(true)
        } else if c@ == "never"@ {
            Some(false)
        } else {
            None
        },
        None => None,
    }
}

impl Common {
    /// `None` means "decide from the environment".
    pub fn colour_override(&self) -> (out: Option<bool>)
        ensures
            out == spec_colour_override(self.color),
    {
        match &self.color {
            Some(c) => if crate::text::str_eq(c.as_str(), "always") {
                Some(true)
            } else if crate::text::str_eq(c.as_str(), "never") {
                Some(false)
            } else {
                None
            },
            None => None,
        }
    }
}

/// A subcommand.
#[derive(Clone, Debug)]
pub enum Command {
    /// Departures from stops near you.
    Near {
        /// Search radius in metres.
        radius: u32,
        /// How many stops to show.
        stops: usize,
    },
    /// Manage saved places and settings.
    Config { action: ConfigAction },
    /// Manage saved routes that go via specific stops.
    Route { action: RouteAction },
    /// Show where the position comes from.
    Where,
    /// Check for a newer version and install it.
    Upgrade {
        /// Only report whether a new version exists.
        check: bool,
    },
}

/// `ruter route ...`
#[derive(Clone, Debug)]
pub enum RouteAction {
    /// Save a route; its start is the global `--from`, or wherever you are.
    Add { name: String, to: String, via: Vec<String>, yes: bool },
    /// List saved routes.
    List,
    /// Remove a saved route.
    Remove { name: String },
}

/// `ruter config ...`
#[derive(Clone, Debug)]
pub enum ConfigAction {
    /// Look up an address and save it under a name.
    Add { name: String, query: Vec<String>, yes: bool },
    /// List saved places.
    List,
    /// Remove a saved place.
    Remove { name: String },
    /// Print the path to the config file.
    Path,
}

/// The destination the words name: nothing for no words, else the words
/// joined back with single spaces.
pub open spec fn spec_destination_text(words: Seq<String>) -> Option<Seq<char>> {
    if words.len() == 0 {
        None
    } else {
        Some(join(views(words), " "@))
    }
}

impl Cli {
    /// The destination as one string, `ruter Brekkelia 3D` being the same as
    /// `ruter "Brekkelia 3D"`.
    pub fn destination_text(&self) -> (out: Option<String>)
        ensures
            match (out, spec_destination_text(self.destination@)) {
                (Some(a), Some(b)) => a@ == b,
                (None, None) => true,
                _ => false,
            },
    {
        if self.destination.len() == 0 {
            None
        } else {
            Some(join_strings(self.destination.as_slice(), " "))
        }
    }
}

} // verus!
