//! Weather conditions, the two adjacency relations between them, and the
//! mapping from provider weather codes to conditions.

use vstd::prelude::*;

verus! {

/// A closed enumeration of weather conditions, compared by value equality.
#[derive(Clone, Copy, Debug, PartialEq, Eq, Structural)]
pub enum Weather {
    Clear,
    Cloudy,
    Overcast,
    Rain,
    Thunderstorm,
    Snow,
    Fog,
}

/// The "adjacent" tier of condition similarity: a fixed, hand-authored,
/// symmetric table of unordered pairs. Not reflexive and not transitive.
pub open spec fn adjacent(a: Weather, b: Weather) -> bool {
    match (a, b) {
        (Weather::Clear, Weather::Cloudy) | (Weather::Cloudy, Weather::Clear) => true,
        (Weather::Cloudy, Weather::Overcast) | (Weather::Overcast, Weather::Cloudy) => true,
        (Weather::Rain, Weather::Thunderstorm) | (Weather::Thunderstorm, Weather::Rain) => true,
        (Weather::Snow, Weather::Cloudy) | (Weather::Cloudy, Weather::Snow) => true,
        (Weather::Fog, Weather::Overcast) | (Weather::Overcast, Weather::Fog) => true,
        _ => false,
    }
}

/// The "loosely adjacent" tier: a second, weaker hand-authored table.
/// {Fog, Overcast} appears here as well as in `adjacent`; the overlap is kept
/// as configured, so the stronger tier always resolves that pair first.
pub open spec fn loosely_adjacent(a: Weather, b: Weather) -> bool {
    match (a, b) {
        (Weather::Clear, Weather::Overcast) | (Weather::Overcast, Weather::Clear) => true,
        (Weather::Cloudy, Weather::Rain) | (Weather::Rain, Weather::Cloudy) => true,
        (Weather::Cloudy, Weather::Thunderstorm) | (Weather::Thunderstorm, Weather::Cloudy) => true,
        (Weather::Snow, Weather::Clear) | (Weather::Clear, Weather::Snow) => true,
        (Weather::Rain, Weather::Overcast) | (Weather::Overcast, Weather::Rain) => true,
        (Weather::Fog, Weather::Overcast) | (Weather::Overcast, Weather::Fog) => true,
        _ => false,
    }
}

/// Decides whether `a` and `b` are adjacent conditions.
pub fn is_similar_weather(a: &Weather, b: &Weather) -> (r: bool)
    ensures
        r == adjacent(*a, *b),
{
    match (*a, *b) {
        (Weather::Clear, Weather::Cloudy) | (Weather::Cloudy, Weather::Clear) => true,
        (Weather::Cloudy, Weather::Overcast) | (Weather::Overcast, Weather::Cloudy) => true,
        (Weather::Rain, Weather::Thunderstorm) | (Weather::Thunderstorm, Weather::Rain) => true,
        (Weather::Snow, Weather::Cloudy) | (Weather::Cloudy, Weather::Snow) => true,
        (Weather::Fog, Weather::Overcast) | (Weather::Overcast, Weather::Fog) => true,
        _ => false,
    }
}

/// Decides whether `a` and `b` are loosely adjacent conditions.
pub fn is_less_similar_weather(a: &Weather, b: &Weather) -> (r: bool)
    ensures
        r == loosely_adjacent(*a, *b),
{
    match (*a, *b) {
        (Weather::Clear, Weather::Overcast) | (Weather::Overcast, Weather::Clear) => true,
        (Weather::Cloudy, Weather::Rain) | (Weather::Rain, Weather::Cloudy) => true,
        (Weather::Cloudy, Weather::Thunderstorm) | (Weather::Thunderstorm, Weather::Cloudy) => true,
        (Weather::Snow, Weather::Clear) | (Weather::Clear, Weather::Snow) => true,
        (Weather::Rain, Weather::Overcast) | (Weather::Overcast, Weather::Rain) => true,
        (Weather::Fog, Weather::Overcast) | (Weather::Overcast, Weather::Fog) => true,
        _ => false,
    }
}

/// The condition a provider weather code stands for: a fixed lookup table,
/// with Clear as the fallback for unknown codes. Sleet and freezing drizzle
/// count as Snow.
pub open spec fn condition_of_code(code: int) -> Weather {
    if code == 1000 {
        Weather::Clear
    } else if code == 1003 || code == 1006 || code == 1063 || code == 1066 || code == 1069 {
        Weather::Cloudy
    } else if code == 1009 {
        Weather::Overcast
    } else if code == 1030 || code == 1135 || code == 1147 {
        Weather::Fog
    } else if code == 1150 || code == 1153 || code == 1168 || code == 1171
        || code == 1180 || code == 1183 || code == 1186 || code == 1189 || code == 1192 || code == 1195
        || code == 1198 || code == 1201
        || code == 1240 || code == 1243 || code == 1246 {
        Weather::Rain
    } else if code == 1087 || code == 1273 || code == 1276 {
        Weather::Thunderstorm
    } else if code == 1114 || code == 1117
        || code == 1204 || code == 1207
        || code == 1210 || code == 1213 || code == 1216 || code == 1219 || code == 1222 || code == 1225
        || code == 1237
        || code == 1255 || code == 1258
        || code == 1261 || code == 1264
        || code == 1279 || code == 1282
        || code == 1072 || code == 1249 || code == 1252 {
        Weather::Snow
    } else {
        Weather::Clear
    }
}

/// Maps a provider weather code to the closest condition.
pub fn map_weather_code_to_enum(code: i32) -> (r: Weather)
    ensures
        r == condition_of_code(code as int),
{
    match code {
        1000 => Weather::Clear,
        1003 => Weather::Cloudy,
        1006 | 1063 | 1066 | 1069 => Weather::Cloudy,
        1009 => Weather::Overcast,
        1030 | 1135 | 1147 => Weather::Fog,
        1150 | 1153 | 1168 | 1171
        | 1180 | 1183 | 1186 | 1189 | 1192 | 1195
        | 1198 | 1201
        | 1240 | 1243 | 1246 => Weather::Rain,
        1087 | 1273 | 1276 => Weather::Thunderstorm,
        1114 | 1117
        | 1204 | 1207
        | 1210 | 1213 | 1216 | 1219 | 1222 | 1225
        | 1237
        | 1255 | 1258
        | 1261 | 1264
        | 1279 | 1282 => Weather::Snow,
        1072 | 1249 | 1252 => Weather::Snow,
        _ => Weather::Clear,
    }
}

/// Neither relation holds between a condition and itself.
pub proof fn lemma_adjacency_irreflexive(c: Weather)
    ensures
        !adjacent(c, c),
        !loosely_adjacent(c, c),
{
}

/// Both relations are symmetric.
pub proof fn lemma_adjacency_symmetric(a: Weather, b: Weather)
    ensures
        adjacent(a, b) == adjacent(b, a),
        loosely_adjacent(a, b) == loosely_adjacent(b, a),
{
}

} // verus!
