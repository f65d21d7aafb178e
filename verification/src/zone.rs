//! IANA time-zone names, checked against the zone database of `chrono_tz`.

use vstd::prelude::*;

verus! {

/// Whether the zone database compiled into `chrono_tz` holds a zone of
/// exactly this name. Names are case-sensitive.
pub uninterp spec fn known_zone(name: Seq<char>) -> bool;

/// The text with which the zone parser turns down a name it does not know.
pub open spec fn unknown_zone_text(name: Seq<char>) -> Seq<char> {
    seq!['\''] + name + "' is not a valid timezone"@
}

/// The parser's complaint is never empty, whatever the name.
pub proof fn lemma_unknown_zone_text_nonempty(name: Seq<char>)
    ensures
        unknown_zone_text(name).len() > 0,
{
}

/// Calls `<chrono_tz::Tz as FromStr>::from_str` and hands the zone back by
/// `Tz::name`, which is also what `Tz` displays as.
///
/// Trusted: the parse succeeds exactly on the names of the compiled zone
/// database; the zone found is the one registered under the given name, so
/// its name is the argument; a failure carries the text
/// `'<name>' is not a valid timezone`.
#[verifier::external_body]
fn parse_tz(name: &str) -> (r: Result<String, String>)
    ensures
        r is Ok <==> known_zone(name@),
        r matches Ok(canonical) ==> canonical@ == name@,
        r matches Err(text) ==> text@ == unknown_zone_text(name@),
{
    match name.parse::<chrono_tz::Tz>() {
        Ok(tz) => Ok(tz.name().to_owned()),
        Err(text) => Err(text),
    }
}

/// A time zone that the zone database knows, held by its IANA name.
#[derive(Debug)]
pub struct Zone {
    name: String,
}

impl View for Zone {
    type V = Seq<char>;

    closed spec fn view(&self) -> Seq<char> {
        self.name@
    }
}

impl Clone for Zone {
    fn clone(&self) -> (r: Self)
        ensures
            r@ == self@,
    {
        proof {
            use_type_invariant(self);
        }
        Zone { name: self.name.clone() }
    }
}

impl Zone {
    #[verifier::type_invariant]
    spec fn is_known(self) -> bool {
        known_zone(self.name@)
    }

    /// Validates `name`; on failure gives the parser's own error text.
    pub fn parse(name: &str) -> (r: Result<Zone, String>)
        ensures
            r is Ok <==> known_zone(name@),
            r matches Ok(zone) ==> zone@ == name@,
            r matches Err(text) ==> text@ == unknown_zone_text(name@),
    {
        match parse_tz(name) {
            Ok(canonical) => Ok(Zone { name: canonical }),
            Err(text) => Err(text),
        }
    }

    /// The zone's IANA name.
    pub fn name(&self) -> (r: &str)
        ensures
            r@ == self@,
            known_zone(r@),
    {
        proof {
            use_type_invariant(self);
        }
        self.name.as_str()
    }
}

} // verus!
