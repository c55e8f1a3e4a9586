//! The wiki's configuration, as read from its configuration file.

use vstd::prelude::*;

verus! {

/// The wiki's settings.
pub struct ConfigurationStruct {
    /// Set where the file system, and so page names, are case sensitive;
    /// if in doubt, leave it off.
    pub case_sensitive: bool,
    /// If true, users who are not logged in can read wiki pages.
    pub authenticationequired_for_read: bool,
    /// If true, users who are not logged in may write debug output to the
    /// log (a potential denial of service vector).
    pub authentication_required_for_logging: bool,
    /// Whether uploads may overwrite media files.
    pub allow_media_overwrite: bool,
    /// The page shown first.
    pub start_page: String,
    /// How many pages may be locked for editing at once.
    pub number_of_concurrent_locks: u32,
    /// The largest number of users.
    pub max_number_of_users: u32,
    /// Least time in nanoseconds between authenticated requests from one address.
    pub max_velocity: u32,
    /// Least time in nanoseconds between unauthenticated requests from one address.
    pub unauth_max_velocity: u32,
    /// The names of the administrators.
    pub admin_users: Vec<String>,
    /// The pages and calls that only administrators may use.
    pub admin_pages: Vec<String>,
}

impl Default for ConfigurationStruct {
    /// Every flag off, every number zero, every text and list empty.
    fn default() -> (r: ConfigurationStruct)
        ensures
            !r.case_sensitive,
            !r.authenticationequired_for_read,
            !r.authentication_required_for_logging,
            !r.allow_media_overwrite,
            r.start_page@ == Seq::<char>::empty(),
            r.number_of_concurrent_locks == 0,
            r.max_number_of_users == 0,
            r.max_velocity == 0,
            r.unauth_max_velocity == 0,
            r.admin_users@ == Seq::<String>::empty(),
            r.admin_pages@ == Seq::<String>::empty(),
    {
        ConfigurationStruct {
            case_sensitive: false,
            authenticationequired_for_read: false,
            authentication_required_for_logging: false,
            allow_media_overwrite: false,
            start_page: String::new(),
            number_of_concurrent_locks: 0,
            max_number_of_users: 0,
            max_velocity: 0,
            unauth_max_velocity: 0,
            admin_users: Vec::new(),
            admin_pages: Vec::new(),
        }
    }
}

} // verus!
