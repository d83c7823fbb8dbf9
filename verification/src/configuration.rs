use vstd::prelude::*;

verus! {

/// Process configuration, constructed once at startup and passed to the
/// components that need it; never read from global state inside handlers.
pub struct Settings {
    pub database: DatabaseSettings,
    pub application: ApplicationSettings,
}

/// Where the server listens.
pub struct ApplicationSettings {
    pub port: u16,
    pub host: String,
}

/// Where the persistent table lives.
pub struct DatabaseSettings {
    pub path: String,
}

/// The possible runtime environments for the application.
pub enum Environment {
    Local,
    Production,
}

/// What Unicode lowercasing yields for a given text; the result depends on
/// the characters alone.
pub uninterp spec fn lower_of(s: Seq<char>) -> Seq<char>;

/// Relies on str::to_lowercase: the lowercased text, a function of the
/// input characters alone.
#[verifier::external_body]
fn lowercase(s: &str) -> (r: String)
    ensures
        r@ == lower_of(s@),
{
    s.to_lowercase()
}

impl Environment {
    /// The configuration-file stem this environment selects.
    pub fn as_str(&self) -> (r: &'static str)
        ensures
            self matches Environment::Local ==> r@ == "local"@,
            self matches Environment::Production ==> r@ == "production"@,
    {
        match self {
            Environment::Local => "local",
            Environment::Production => "production",
        }
    }

    /// Reads an environment name, case-insensitively: exactly the texts
    /// that lowercase to `local` or `production` are accepted, and anything
    /// else is rejected with a message naming the offending value.
    pub fn try_from(s: String) -> (r: Result<Environment, String>)
        ensures
            lower_of(s@) == "local"@ ==> r matches Ok(Environment::Local),
            lower_of(s@) == "production"@ ==> r matches Ok(Environment::Production),
            lower_of(s@) != "local"@ && lower_of(s@) != "production"@ ==> (r matches Err(m) && m@
                == lower_of(s@)
                + " is not a supported environment. Use either `local` or `production`."@),
    {
        proof {
            reveal_strlit("local");
            reveal_strlit("production");
            assert("local"@.len() == 5);
            assert("production"@.len() == 10);
        }
        let lowered = lowercase(s.as_str());
        if lowered == "local".to_string() {
            Ok(Environment::Local)
        } else if lowered == "production".to_string() {
            Ok(Environment::Production)
        } else {
            Err(
                lowered.concat(
                    " is not a supported environment. Use either `local` or `production`.",
                ),
            )
        }
    }
}

} // verus!
