//! Process configuration threaded through the adapter and the engine:
//! the display time zone, held as an IANA zone name and validated against
//! the zone table before it is adopted. The value is passed by reference
//! down the call sites, so readers share it freely and a writer holds it
//! exclusively for the duration of the change.

use vstd::prelude::*;

verus! {

pub struct Config {
    timezone: String,
}

/// The zone names the compiled-in IANA table knows.
pub uninterp spec fn known_timezone(name: Seq<char>) -> bool;

/// Relies on `chrono_tz::Tz::from_str`: parsing succeeds exactly for the
/// names in the compiled-in IANA zone table, a fixed function of the
/// name.
#[verifier::external_body]
fn timezone_exists(name: &str) -> (r: bool)
    ensures
        r == known_timezone(name@),
{
    name.parse::<chrono_tz::Tz>().is_ok()
}

impl Config {
    pub closed spec fn timezone_name(&self) -> Seq<char> {
        self.timezone@
    }

    /// The default configuration: the Central European zone.
    pub fn new() -> (r: Config)
        ensures
            r.timezone_name() == "Europe/Prague"@,
    {
        Config { timezone: String::from_str("Europe/Prague") }
    }

    pub fn get_timezone(&self) -> (r: &str)
        ensures
            r@ == self.timezone_name(),
    {
        self.timezone.as_str()
    }

    /// Switches the display time zone. A name the zone table does not
    /// know is rejected and the configuration is left unchanged.
    pub fn change_timezone(&mut self, new_timezone: &str) -> (r: Result<(), String>)
        ensures
            r is Ok <==> known_timezone(new_timezone@),
            r is Ok ==> final(self).timezone_name() == new_timezone@,
            r is Err ==> *final(self) == *old(self) && r->Err_0@ == "Invalid timezone: "@
                + new_timezone@,
    {
        if timezone_exists(new_timezone) {
            self.timezone = String::from_str(new_timezone);
            Ok(())
        } else {
            let mut msg = String::from_str("Invalid timezone: ");
            msg.append(new_timezone);
            Err(msg)
        }
    }
}

} // verus!
