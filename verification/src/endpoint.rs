//! Resolution of the command-line endpoint flag to a connection address.
//!
//! The program accepts exactly two flag values, one for a service running on
//! the host machine and one for a service reachable under a container
//! service name. Every other value is rejected before any connection is
//! attempted.

use vstd::prelude::*;

verus! {

/// Which database host the program should connect to.
#[derive(Clone, Copy, Debug, PartialEq, Eq, Structural)]
pub enum DbHost {
    Local,
    Docker,
}

/// The textual flag value that selects each host.
pub open spec fn flag_of(h: DbHost) -> Seq<char> {
    match h {
        DbHost::Local => "local"@,
        DbHost::Docker => "docker"@,
    }
}

/// The connection address that each host resolves to.
pub open spec fn uri_of(h: DbHost) -> Seq<char> {
    match h {
        DbHost::Local => "http://localhost:6334"@,
        DbHost::Docker => "http://qdrant:6334"@,
    }
}

impl DbHost {
    /// The flag value this host is selected by, as shown in usage text.
    pub fn to_possible_value(&self) -> (r: Option<&str>)
        ensures
            r is Some,
            r->0@ == flag_of(*self),
    {
        match self {
            DbHost::Local => Some("local"),
            DbHost::Docker => Some("docker"),
        }
    }

    /// Parses a flag value; every string other than the two recognized
    /// values is rejected.
    pub fn from_flag(s: &str) -> (r: Option<DbHost>)
        ensures
            r == Some(DbHost::Local) <==> s@ == flag_of(DbHost::Local),
            r == Some(DbHost::Docker) <==> s@ == flag_of(DbHost::Docker),
            r is None <==> (s@ != flag_of(DbHost::Local) && s@ != flag_of(DbHost::Docker)),
    {
        proof {
            reveal_strlit("local");
            reveal_strlit("docker");
            assert(flag_of(DbHost::Local).len() == 5);
            assert(flag_of(DbHost::Docker).len() == 6);
        }
        let owned = s.to_owned();
        if owned == "local".to_owned() {
            Some(DbHost::Local)
        } else if owned == "docker".to_owned() {
            Some(DbHost::Docker)
        } else {
            None
        }
    }

    /// The connection address derived from this host; no other input takes
    /// part in the derivation.
    pub fn db_uri(&self) -> (r: &str)
        ensures
            r@ == uri_of(*self),
    {
        match self {
            DbHost::Local => "http://localhost:6334",
            DbHost::Docker => "http://qdrant:6334",
        }
    }
}

/// The two recognized flag values select distinct hosts and distinct
/// addresses: resolution is injective in both directions.
pub proof fn lemma_flag_and_uri_distinct()
    ensures
        flag_of(DbHost::Local) != flag_of(DbHost::Docker),
        uri_of(DbHost::Local) != uri_of(DbHost::Docker),
{
    reveal_strlit("local");
    reveal_strlit("docker");
    reveal_strlit("http://localhost:6334");
    reveal_strlit("http://qdrant:6334");
    assert(flag_of(DbHost::Local).len() == 5);
    assert(flag_of(DbHost::Docker).len() == 6);
    assert(uri_of(DbHost::Local).len() == 21);
    assert(uri_of(DbHost::Docker).len() == 18);
}

} // verus!
