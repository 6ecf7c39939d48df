use vstd::prelude::*;

verus! {

/// The session-wide configuration a client is built with: where to
/// connect, the default database that qualifies bare table commands,
/// and the retry budget of each submission.
pub struct SessionConfig {
    pub host: String,
    pub port: u16,
    pub db: String,
    pub user: String,
    pub password: String,
    pub timeout_secs: u64,
    pub retries: u64,
}

impl SessionConfig {
    pub fn new(
        host: String,
        port: u16,
        db: String,
        user: String,
        password: String,
        timeout_secs: u64,
        retries: u64,
    ) -> (r: SessionConfig)
        requires
            retries >= 1,
        ensures
            r.host@ == host@,
            r.port == port,
            r.db@ == db@,
            r.user@ == user@,
            r.password@ == password@,
            r.timeout_secs == timeout_secs,
            r.retries == retries,
    {
        SessionConfig { host, port, db, user, password, timeout_secs, retries }
    }
}

} // verus!
