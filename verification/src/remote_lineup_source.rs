//! Where the official lineup lists of each mode are published.
use vstd::prelude::*;
use crate::text::{cat, push_str, str_eq};

verus! {

/// Remote lineup lists.
pub struct RemoteLineupSource;

/// `(mode, version path, channel)` of each mode with a remote list.
pub open spec fn remote_configs() -> Seq<(Seq<char>, Seq<char>, Seq<char>)> {
    seq![("17"@, "m18"@, "11"@), ("16"@, "m17"@, "11"@), ("4"@, "m17"@, "11"@)]
}

/// The first remote configuration of `mode`.
pub open spec fn remote_config(mode: Seq<char>) -> Option<(Seq<char>, Seq<char>, Seq<char>)> {
    if mode == "17"@ {
        Some(remote_configs()[0])
    } else if mode == "16"@ {
        Some(remote_configs()[1])
    } else if mode == "4"@ {
        Some(remote_configs()[2])
    } else {
        None
    }
}

/// The address of the list of a configuration.
pub open spec fn cdn_url_text(c: (Seq<char>, Seq<char>, Seq<char>)) -> Seq<char> {
    "https://game.gtimg.cn/images/lol/act/jkzlkauto/json/lineupJson/"@ + c.1 + "/"@ + c.2 + "/"@ + c.0
        + "/lineup_detail_total.json"@
}

/// The remote configurations, as `(mode, version path, channel)`.
pub fn mode_remote_configs() -> (r: Vec<(&'static str, &'static str, &'static str)>)
    ensures
        r@.map_values(|c: (&str, &str, &str)| (c.0@, c.1@, c.2@)) == remote_configs(),
{
    let r = vec![("17", "m18", "11"), ("16", "m17", "11"), ("4", "m17", "11")];
    proof {
        reveal_strlit("17");
        reveal_strlit("16");
        reveal_strlit("4");
        reveal_strlit("m18");
        reveal_strlit("m17");
        reveal_strlit("11");
    }
    assert(r@.map_values(|c: (&str, &str, &str)| (c.0@, c.1@, c.2@)) =~= remote_configs());
    r
}

impl RemoteLineupSource {
    /// The address of the remote lineup list of `mode`, if it has one.
    pub fn cdn_url(mode: &str) -> (r: Option<String>)
        ensures
            match remote_config(mode@) {
                Some(c) => r matches Some(u) && u@ == cdn_url_text(c),
                None => r is None,
            },
    {
        let (version_path, channel, id) = if str_eq(mode, "17") {
            ("m18", "11", "17")
        } else if str_eq(mode, "16") {
            ("m17", "11", "16")
        } else if str_eq(mode, "4") {
            ("m17", "11", "4")
        } else {
            return None;
        };
        let mut u = cat("https://game.gtimg.cn/images/lol/act/jkzlkauto/json/lineupJson/", version_path);
        push_str(&mut u, "/");
        push_str(&mut u, channel);
        push_str(&mut u, "/");
        push_str(&mut u, id);
        push_str(&mut u, "/lineup_detail_total.json");
        Some(u)
    }

    /// Whether `mode` has a remote lineup list.
    pub fn supports_remote(mode: &str) -> (b: bool)
        ensures
            b == (remote_config(mode@) is Some),
    {
        str_eq(mode, "17") || str_eq(mode, "16") || str_eq(mode, "4")
    }
}

} // verus!
