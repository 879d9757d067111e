//! The fields of the forecast that are read from a page, where in the page
//! each is found, and what can go wrong while reading them.

use vstd::prelude::*;

verus! {

/// One attribute of the forecast, read from the page by a scan of its own.
#[derive(Debug, Clone, Copy, PartialEq, Eq, Structural)]
pub enum Field {
    Hour,
    Icon,
    Temperature,
    Windchill,
    WindDirection,
    WindSpeed,
    WindGust,
    PrecipProbability,
    PrecipAmount,
    Night,
}

/// Selector of the labels of the hourly header.
pub const HOUR_SELECTOR: &'static str = "#hourly_forecast .times td span";

/// Selector of the images of the icon row.
pub const ICON_SELECTOR: &'static str = "#hourly_forecast .pictos-1h img";

/// Selector of the cells of the temperature row.
pub const TEMPERATURE_SELECTOR: &'static str = "#hourly_forecast .temps td span";

/// Selector of the cells of the perceived-temperature row.
pub const WINDCHILL_SELECTOR: &'static str = "#hourly_forecast .temperature-felt td";

/// Selector of the wind-direction glyphs.
pub const WIND_DIRECTION_SELECTOR: &'static str = ".windspeeds .glyph.winddir";

/// Selector of the cells of the wind-speed row.
pub const WIND_SPEED_SELECTOR: &'static str = "#hourly_forecast .windspeed td";

/// Selector of the cells of the gust row.
pub const WIND_GUST_SELECTOR: &'static str = "#hourly_forecast .windgust td";

/// Selector of the cells of the precipitation-probability row.
pub const PRECIP_PROBABILITY_SELECTOR: &'static str = "#hourly_forecast .precip-prop td span";

/// Selector of the cells of the precipitation row.
pub const PRECIP_AMOUNT_SELECTOR: &'static str = "#hourly_forecast .precip td span";

/// Selector of the icon cells, whose classes tell day from night.
pub const NIGHT_SELECTOR: &'static str = ".picto.hourly-view .icons .cell .pictoicon";

/// The selector by which `field` is found in a page.
pub open spec fn selector_text(field: Field) -> Seq<char> {
    match field {
        Field::Hour => HOUR_SELECTOR@,
        Field::Icon => ICON_SELECTOR@,
        Field::Temperature => TEMPERATURE_SELECTOR@,
        Field::Windchill => WINDCHILL_SELECTOR@,
        Field::WindDirection => WIND_DIRECTION_SELECTOR@,
        Field::WindSpeed => WIND_SPEED_SELECTOR@,
        Field::WindGust => WIND_GUST_SELECTOR@,
        Field::PrecipProbability => PRECIP_PROBABILITY_SELECTOR@,
        Field::PrecipAmount => PRECIP_AMOUNT_SELECTOR@,
        Field::Night => NIGHT_SELECTOR@,
    }
}

/// The selector by which `field` is found in a page.
pub fn selector_of(field: Field) -> (text: &'static str)
    ensures
        text@ == selector_text(field),
{
    match field {
        Field::Hour => HOUR_SELECTOR,
        Field::Icon => ICON_SELECTOR,
        Field::Temperature => TEMPERATURE_SELECTOR,
        Field::Windchill => WINDCHILL_SELECTOR,
        Field::WindDirection => WIND_DIRECTION_SELECTOR,
        Field::WindSpeed => WIND_SPEED_SELECTOR,
        Field::WindGust => WIND_GUST_SELECTOR,
        Field::PrecipProbability => PRECIP_PROBABILITY_SELECTOR,
        Field::PrecipAmount => PRECIP_AMOUNT_SELECTOR,
        Field::Night => NIGHT_SELECTOR,
    }
}

/// Why no forecast could be extracted. There is no partial result: the first
/// failure ends the extraction.
#[derive(Debug, Clone, Copy, PartialEq, Eq, Structural)]
pub enum ExtractError {
    /// The selector of `field` is not a valid selector.
    InvalidSelector { field: Field },
    /// The match at position `index` of the scan for `field` holds no value
    /// that its decoding rule accepts.
    Decode { field: Field, index: usize },
    /// The match at position `index` of the scan for `field` lacks an
    /// attribute that the field is read from.
    MissingAttribute { field: Field, index: usize },
}

} // verus!
