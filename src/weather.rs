use vstd::prelude::*;

verus! {

/// The kind of precipitation of a datapoint.
#[derive(Clone, Copy, PartialEq, Eq, Debug, Structural)]
pub enum PrecipitationType {
    Rain,
    Sleet,
    Snow,
}

/// The weather condition category of a datapoint.
#[derive(Clone, Copy, PartialEq, Eq, Debug, Structural)]
pub enum Icon {
    ClearDay,
    ClearNight,
    Cloudy,
    Fog,
    Hail,
    PartlyCloudyDay,
    PartlyCloudyNight,
    Rain,
    Sleet,
    Snow,
    Thunderstorm,
    Tornado,
    Wind,
}

/// The eight sectors of the compass rose, 45 degrees each.
#[derive(Clone, Copy, PartialEq, Eq, Debug, Structural)]
pub enum WindDirection {
    North,
    NorthEast,
    East,
    SouthEast,
    South,
    SouthWest,
    West,
    NorthWest,
}

/// The condition icons that have a bitmap.
#[derive(Clone, Copy, PartialEq, Eq, Debug, Structural)]
pub enum ConditionIcon {
    ClearDay,
    ClearNight,
    PartlyCloudyDay,
}

/// The sector of a bearing in whole degrees clockwise from north. Sector
/// boundaries lie at 22, 67, 112, ... degrees and each boundary belongs to
/// the sector that begins there; the north sector wraps across 0; anything
/// outside 0..360 falls back to north.
pub open spec fn sector_of(bearing: int) -> WindDirection {
    if 22 <= bearing < 67 {
        WindDirection::NorthEast
    } else if 67 <= bearing < 112 {
        WindDirection::East
    } else if 112 <= bearing < 157 {
        WindDirection::SouthEast
    } else if 157 <= bearing < 202 {
        WindDirection::South
    } else if 202 <= bearing < 247 {
        WindDirection::SouthWest
    } else if 247 <= bearing < 292 {
        WindDirection::West
    } else if 292 <= bearing < 337 {
        WindDirection::NorthWest
    } else {
        WindDirection::North
    }
}

/// Picks the direction arrow for a wind bearing.
pub fn bearing_sector(bearing: i32) -> (r: WindDirection)
    ensures
        r == sector_of(bearing as int),
{
    if 337 <= bearing && bearing < 360 || 0 <= bearing && bearing < 22 {
        WindDirection::North
    } else if 22 <= bearing && bearing < 67 {
        WindDirection::NorthEast
    } else if 67 <= bearing && bearing < 112 {
        WindDirection::East
    } else if 112 <= bearing && bearing < 157 {
        WindDirection::SouthEast
    } else if 157 <= bearing && bearing < 202 {
        WindDirection::South
    } else if 202 <= bearing && bearing < 247 {
        WindDirection::SouthWest
    } else if 247 <= bearing && bearing < 292 {
        WindDirection::West
    } else if 292 <= bearing && bearing < 337 {
        WindDirection::NorthWest
    } else {
        WindDirection::North
    }
}

/// The bitmap drawn for a condition category, if it has one.
pub open spec fn condition_of(icon: Option<Icon>) -> Option<ConditionIcon> {
    match icon {
        Some(Icon::ClearDay) => Some(ConditionIcon::ClearDay),
        Some(Icon::ClearNight) => Some(ConditionIcon::ClearNight),
        Some(Icon::PartlyCloudyDay) => Some(ConditionIcon::PartlyCloudyDay),
        _ => None,
    }
}

/// Picks the condition bitmap for a category; the other categories draw
/// nothing.
pub fn condition_icon(icon: Option<Icon>) -> (r: Option<ConditionIcon>)
    ensures
        r == condition_of(icon),
{
    match icon {
        Some(Icon::ClearDay) => Some(ConditionIcon::ClearDay),
        Some(Icon::ClearNight) => Some(ConditionIcon::ClearNight),
        Some(Icon::PartlyCloudyDay) => Some(ConditionIcon::PartlyCloudyDay),
        _ => None,
    }
}

/// What the scene reads of one datapoint. Numbers arrive as the text of
/// their value rounded to whole units; the bearing in whole degrees.
#[derive(Debug)]
pub struct Datapoint {
    pub temperature: Option<String>,
    pub precip_probability: Option<String>,
    pub wind_speed: Option<String>,
    pub wind_bearing: Option<i32>,
    pub summary: Option<String>,
    pub icon: Option<Icon>,
    pub precip_type: Option<PrecipitationType>,
}

/// A block of datapoints with its own summary.
#[derive(Debug)]
pub struct Datablock {
    pub data: Option<Vec<Datapoint>>,
    pub icon: Option<Icon>,
    pub summary: Option<String>,
}

/// The summary of the first datapoint of a block, if there is one.
pub open spec fn first_summary(block: Option<Datablock>) -> Option<Seq<char>> {
    match block {
        Some(b) => match b.data {
            Some(v) => if v@.len() > 0 {
                match v@[0].summary {
                    Some(s) => Some(s@),
                    None => None,
                }
            } else {
                None
            },
            None => None,
        },
        None => None,
    }
}

} // verus!
