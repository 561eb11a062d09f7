//! Start-up settings of an application.

use vstd::prelude::*;

verus! {

/// Whether tables are created at start-up.
#[derive(Clone, Copy, Debug, Default, PartialEq, Eq, Structural)]
pub enum MigratePolicy {
    #[default]
    Auto,
    Skip,
}

/// Settings of an application: a database URL, if any, and the migration policy.
#[derive(Clone, Debug)]
pub struct Acacia {
    pub database_url: Option<String>,
    pub migrate_policy: MigratePolicy,
}

impl Acacia {
    /// No database, automatic migration.
    pub fn new() -> (r: Acacia)
        ensures
            r.database_url is None,
            r.migrate_policy == MigratePolicy::Auto,
    {
        Acacia { database_url: None, migrate_policy: MigratePolicy::Auto }
    }

    pub fn database(self, url: &str) -> (r: Acacia)
        ensures
            r.database_url matches Some(u) && u@ == url@,
            r.migrate_policy == self.migrate_policy,
    {
        Acacia { database_url: Some(String::from_str(url)), migrate_policy: self.migrate_policy }
    }

    pub fn migrate(self, policy: MigratePolicy) -> (r: Acacia)
        ensures
            r.migrate_policy == policy,
            r.database_url == self.database_url,
    {
        Acacia { migrate_policy: policy, ..self }
    }
}

} // verus!
