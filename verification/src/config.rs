//! The configuration record: credentials, the OAuth redirect, the poll
//! interval and the lyric timing offset. Reading and writing the file is
//! the surrounding program's concern; the record and its defaults are
//! fixed here.
use vstd::prelude::*;

verus! {

/// The user's configuration, as the configuration file holds it.
#[derive(Clone)]
pub struct Config {
    pub client_id: String,
    pub client_secret: String,
    pub redirect_uri: String,
    pub poll_interval_secs: u64,
    pub lyrics_offset_ms: i64,
}

impl Default for Config {
    /// Empty credentials, the local callback address, a five second poll
    /// interval, and no lyric offset.
    fn default() -> (r: Self)
        ensures
            r.client_id@ == Seq::<char>::empty(),
            r.client_secret@ == Seq::<char>::empty(),
            r.redirect_uri@ == "http://127.0.0.1:8888/callback"@,
            r.poll_interval_secs == 5,
            r.lyrics_offset_ms == 0,
    {
        Config {
            client_id: String::new(),
            client_secret: String::new(),
            redirect_uri: "http://127.0.0.1:8888/callback".to_owned(),
            poll_interval_secs: 5,
            lyrics_offset_ms: 0,
        }
    }
}

} // verus!
