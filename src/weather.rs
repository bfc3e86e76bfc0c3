use vstd::prelude::*;
use crate::intent::DONE_INTENT;
use crate::text::text_eq;

verus! {

/// The line shown for a weather snapshot.
pub open spec fn weather_line(place: Seq<char>, description: Seq<char>) -> Seq<char> {
    "weather in "@ + place + ": "@ + description
}

/// The text shown for a fetched snapshot: `weather in {place}: {description}`.
pub fn weather_text(place: &str, description: &str) -> (r: String)
    ensures
        r@ == weather_line(place@, description@),
{
    let mut out = String::from_str("weather in ");
    out.append(place);
    out.append(": ");
    out.append(description);
    assert(out@ =~= weather_line(place@, description@));
    out
}

/// The place that the weather lookup is asked for: `{location},{country}`.
pub fn weather_query(location: &str, country: &str) -> (r: String)
    ensures
        r@ == location@ + seq![','] + country@,
{
    let mut out = String::from_str(location);
    proof {
        reveal_strlit(",");
    }
    out.append(",");
    out.append(country);
    assert(out@ =~= location@ + seq![','] + country@);
    out
}

/// Whether the weather display can run: the key, the location and the
/// country were all given at startup.
pub fn weather_enabled(key: &Option<String>, location: &Option<String>, country: &Option<String>) -> (r:
    bool)
    ensures
        r == (key is Some && location is Some && country is Some),
{
    key.is_some() && location.is_some() && country.is_some()
}

/// Whether a received intent ends the weather display; no other intent
/// changes what it shows.
pub fn weather_step(intent: &str) -> (r: bool)
    ensures
        r == (intent@ == DONE_INTENT@),
{
    text_eq(intent, DONE_INTENT)
}

} // verus!
