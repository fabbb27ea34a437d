//! Values that entities are given when they are created: random ids, random
//! words, and the current time.
use vstd::prelude::*;

verus! {

/// Whether `s` is a UUID in hyphenated lower-case form, like
/// `67e55044-10b1-426f-9247-bb680e5fe0c8`.
pub open spec fn is_hyphenated_uuid(s: Seq<char>) -> bool {
    &&& s.len() == 36
    &&& forall|i: int| 0 <= i < 36 ==> {
        if i == 8 || i == 13 || i == 18 || i == 23 {
            #[trigger] s[i] == '-'
        } else {
            ('0' <= s[i] <= '9') || ('a' <= s[i] <= 'f')
        }
    }
}

/// Whether `s` is a hyphenated version 4 UUID: the version digit `4` at
/// position 14, and one of `8`, `9`, `a`, `b` (the RFC 4122 variant) at
/// position 19.
pub open spec fn is_v4_uuid(s: Seq<char>) -> bool {
    &&& is_hyphenated_uuid(s)
    &&& s[14] == '4'
    &&& (s[19] == '8' || s[19] == '9' || s[19] == 'a' || s[19] == 'b')
}

/// `Uuid::new_v4` written by `uuid`'s `Display`: a random version 4 UUID in
/// hyphenated lower-case form (`new_v4` masks in the version and variant
/// bits). Which UUID comes back is left open.
#[verifier::external_body]
pub(crate) fn random_uuid() -> (s: String)
    ensures
        is_v4_uuid(s@),
{
    uuid::Uuid::new_v4().to_string()
}

/// A decimal digit.
pub open spec fn is_digit(c: char) -> bool {
    '0' <= c <= '9'
}

/// Whether every character of `s` is a decimal digit.
pub open spec fn all_digits(s: Seq<char>) -> bool {
    forall|i: int| 0 <= i < s.len() ==> is_digit(#[trigger] s[i])
}

/// The year of an RFC 3339 date: four digits, or a sign and at least four
/// digits for a year outside 0 to 9999.
pub open spec fn is_rfc3339_year(y: Seq<char>) -> bool {
    ||| (y.len() == 4 && all_digits(y))
    ||| (y.len() >= 5 && (y[0] == '+' || y[0] == '-') && all_digits(y.drop_first()))
}

/// `-MM-DDThh:mm:ss`: the rest of the date and the time of day, two digits each.
pub open spec fn is_rfc3339_clock(c: Seq<char>) -> bool {
    &&& c.len() == 15
    &&& c[0] == '-' && c[3] == '-' && c[6] == 'T' && c[9] == ':' && c[12] == ':'
    &&& forall|i: int| 0 <= i < 15 && i != 0 && i != 3 && i != 6 && i != 9 && i != 12 ==> is_digit(#[trigger] c[i])
}

/// The fraction of a second: nothing, or a point and three, six or nine digits.
pub open spec fn is_rfc3339_fraction(f: Seq<char>) -> bool {
    ||| f.len() == 0
    ||| ((f.len() == 4 || f.len() == 7 || f.len() == 10) && f[0] == '.' && all_digits(f.drop_first()))
}

/// A UTC date and time in RFC 3339 form, as `to_rfc3339` writes it: year,
/// `-MM-DDThh:mm:ss`, an optional fraction, and the offset `+00:00`.
pub open spec fn is_rfc3339_utc(s: Seq<char>) -> bool {
    exists|year: Seq<char>, clock: Seq<char>, fraction: Seq<char>|
        #![trigger is_rfc3339_year(year), is_rfc3339_clock(clock), is_rfc3339_fraction(fraction)]
        {
            &&& is_rfc3339_year(year)
            &&& is_rfc3339_clock(clock)
            &&& is_rfc3339_fraction(fraction)
            &&& s == year + clock + fraction + seq!['+', '0', '0', ':', '0', '0']
        }
}

/// The current time from `chrono`'s `Utc::now`, written by `to_rfc3339`:
/// RFC 3339 form with the offset `+00:00` (the offset of `Utc` is zero, and
/// `to_rfc3339` does not write `Z`). Which time comes back is left open.
#[verifier::external_body]
pub(crate) fn now_rfc3339() -> (s: String)
    ensures
        is_rfc3339_utc(s@),
{
    chrono::Utc::now().to_rfc3339()
}

/// The business-speak adjectives of `fake`'s English locale.
pub open spec fn bs_adjectives() -> Seq<Seq<char>> {
    seq![
        "clicks-and-mortar"@, "value-added"@, "vertical"@, "proactive"@, "robust"@,
        "revolutionary"@, "scalable"@, "leading-edge"@, "innovative"@, "intuitive"@, "strategic"@,
        "e-business"@, "mission-critical"@, "sticky"@, "one-to-one"@, "24/7"@, "end-to-end"@,
        "global"@, "B2B"@, "B2C"@, "granular"@, "frictionless"@, "virtual"@, "viral"@, "dynamic"@,
        "24/365"@, "best-of-breed"@, "killer"@, "magnetic"@, "bleeding-edge"@, "web-enabled"@,
        "interactive"@, "dot-com"@, "sexy"@, "back-end"@, "real-time"@, "efficient"@, "front-end"@,
        "distributed"@, "seamless"@, "extensible"@, "turn-key"@, "world-class"@, "open-source"@,
        "cross-platform"@, "cross-media"@, "synergistic"@, "bricks-and-clicks"@, "out-of-the-box"@,
        "enterprise"@, "integrated"@, "impactful"@, "wireless"@, "transparent"@,
        "next-generation"@, "cutting-edge"@, "user-centric"@, "visionary"@, "customized"@,
        "ubiquitous"@, "plug-and-play"@, "collaborative"@, "compelling"@, "holistic"@, "rich"@
    ]
}

/// The business-speak nouns of `fake`'s English locale.
pub open spec fn bs_nouns() -> Seq<Seq<char>> {
    seq![
        "synergies"@, "web-readiness"@, "paradigms"@, "markets"@, "partnerships"@,
        "infrastructures"@, "platforms"@, "initiatives"@, "channels"@, "eyeballs"@, "communities"@,
        "ROI"@, "solutions"@, "e-tailers"@, "e-services"@, "action-items"@, "portals"@, "niches"@,
        "technologies"@, "content"@, "vortals"@, "supply-chains"@, "convergence"@,
        "relationships"@, "architectures"@, "interfaces"@, "e-markets"@, "e-commerce"@, "systems"@,
        "bandwidth"@, "infomediaries"@, "models"@, "mindshare"@, "deliverables"@, "users"@,
        "schemas"@, "networks"@, "applications"@, "metrics"@, "e-business"@, "functionalities"@,
        "experiences"@, "web services"@, "methodologies"@
    ]
}

/// A business-speak adjective from `fake`'s `company::en::BsAdj`: one of the
/// locale's adjectives, chosen at random.
#[verifier::external_body]
pub(crate) fn random_bs_adjective() -> (s: String)
    ensures
        bs_adjectives().contains(s@),
{
    fake::Fake::fake::<String>(&fake::faker::company::en::BsAdj())
}

/// A business-speak noun from `fake`'s `company::en::BsNoun`: one of the
/// locale's nouns, chosen at random.
#[verifier::external_body]
pub(crate) fn random_bs_noun() -> (s: String)
    ensures
        bs_nouns().contains(s@),
{
    fake::Fake::fake::<String>(&fake::faker::company::en::BsNoun())
}

} // verus!
