//! The alignment engine: every field is scanned once, each scan is decoded, and
//! the values are merged by position into one forecast of twenty-four slots.

use vstd::math::min;
use vstd::prelude::*;
use crate::column::{
    amounts_in, attribute_failure, decode_amount_column, decode_degrees_column,
    decode_direction_column, decode_failure, decode_hour_column, decode_icon_column,
    decode_night_column, decode_percent_column, decode_speed_column, degrees_in, directions_in,
    hours_in, icons_in, nights_in, percents_in, speeds_in,
};
use crate::decode::{hour_of, night_of};
use crate::document::{
    attribute_pairs_of, attributes_of, compiled_selector, matching, parsed_document, texts_of,
    Document,
};
use crate::field::{selector_of, selector_text, ExtractError, Field};
use crate::forecast::{empty_slot, Forecast, SlotView, SLOT_COUNT};
use crate::number::real_number;
use crate::text::{trim, unsigned_value};

verus! {

/// What the scans of a page found: for each field its matches, in the order
/// of the scan, each match as the text or the attributes that the field is
/// read from. No scan is held to any number of matches.
#[derive(Debug, Default, PartialEq, Eq)]
pub struct Scans {
    /// Texts of the labels of the hourly header.
    pub hours: Vec<String>,
    /// `src` and `title` attributes of the images of the icon row.
    pub icons: Vec<(Option<String>, Option<String>)>,
    /// Texts of the cells of the temperature row.
    pub temperatures: Vec<String>,
    /// Texts of the cells of the perceived-temperature row.
    pub windchills: Vec<String>,
    /// Texts of the wind-direction glyphs.
    pub wind_directions: Vec<String>,
    /// Texts of the cells of the wind-speed row.
    pub wind_speeds: Vec<String>,
    /// Texts of the cells of the gust row.
    pub wind_gusts: Vec<String>,
    /// Texts of the cells of the precipitation-probability row.
    pub precip_probabilities: Vec<String>,
    /// Texts of the cells of the precipitation row.
    pub precip_amounts: Vec<String>,
    /// `class` attributes of the icon cells.
    pub icon_classes: Vec<Option<String>>,
}

/// The mathematical value of [`Scans`].
pub struct ScansView {
    pub hours: Seq<Seq<char>>,
    pub icons: Seq<(Option<Seq<char>>, Option<Seq<char>>)>,
    pub temperatures: Seq<Seq<char>>,
    pub windchills: Seq<Seq<char>>,
    pub wind_directions: Seq<Seq<char>>,
    pub wind_speeds: Seq<Seq<char>>,
    pub wind_gusts: Seq<Seq<char>>,
    pub precip_probabilities: Seq<Seq<char>>,
    pub precip_amounts: Seq<Seq<char>>,
    pub icon_classes: Seq<Option<Seq<char>>>,
}

impl View for Scans {
    type V = ScansView;

    open spec fn view(&self) -> ScansView {
        ScansView {
            hours: self.hours.deep_view(),
            icons: self.icons.deep_view(),
            temperatures: self.temperatures.deep_view(),
            windchills: self.windchills.deep_view(),
            wind_directions: self.wind_directions.deep_view(),
            wind_speeds: self.wind_speeds.deep_view(),
            wind_gusts: self.wind_gusts.deep_view(),
            precip_probabilities: self.precip_probabilities.deep_view(),
            precip_amounts: self.precip_amounts.deep_view(),
            icon_classes: self.icon_classes.deep_view(),
        }
    }
}

/// The mathematical value of the outcome of an extraction.
pub open spec fn outcome(result: Result<Forecast, ExtractError>) -> Result<
    Seq<SlotView>,
    ExtractError,
> {
    match result {
        Ok(forecast) => Ok(forecast@),
        Err(error) => Err(error),
    }
}

/// The name of the attribute that holds the reference of an icon.
pub const SOURCE_ATTRIBUTE: &'static str = "src";

/// The name of the attribute that holds the title of an icon.
pub const TITLE_ATTRIBUTE: &'static str = "title";

/// The name of the attribute that holds the classes of an icon cell.
pub const CLASS_ATTRIBUTE: &'static str = "class";

/// Whether the selector of `field` compiles.
pub open spec fn selector_valid(field: Field) -> bool {
    compiled_selector(selector_text(field)) is Ok
}

/// The elements of the page written as `markup` that the selector of `field`
/// matches, where that selector compiles.
pub open spec fn matches_of(markup: Seq<char>, field: Field) -> Seq<
    scraper::ElementRef<'static>,
> {
    matching(parsed_document(markup), selector_text(field))
}

/// The first field, in the order of the scans, whose selector does not
/// compile.
pub open spec fn selector_failure() -> Option<ExtractError> {
    if !selector_valid(Field::Hour) {
        Some(ExtractError::InvalidSelector { field: Field::Hour })
    } else if !selector_valid(Field::Icon) {
        Some(ExtractError::InvalidSelector { field: Field::Icon })
    } else if !selector_valid(Field::Temperature) {
        Some(ExtractError::InvalidSelector { field: Field::Temperature })
    } else if !selector_valid(Field::Windchill) {
        Some(ExtractError::InvalidSelector { field: Field::Windchill })
    } else if !selector_valid(Field::WindDirection) {
        Some(ExtractError::InvalidSelector { field: Field::WindDirection })
    } else if !selector_valid(Field::WindSpeed) {
        Some(ExtractError::InvalidSelector { field: Field::WindSpeed })
    } else if !selector_valid(Field::WindGust) {
        Some(ExtractError::InvalidSelector { field: Field::WindGust })
    } else if !selector_valid(Field::PrecipProbability) {
        Some(ExtractError::InvalidSelector { field: Field::PrecipProbability })
    } else if !selector_valid(Field::PrecipAmount) {
        Some(ExtractError::InvalidSelector { field: Field::PrecipAmount })
    } else if !selector_valid(Field::Night) {
        Some(ExtractError::InvalidSelector { field: Field::Night })
    } else {
        None
    }
}

/// What the scans find in the page written as `markup`, where every selector
/// compiles.
pub open spec fn scans_of(markup: Seq<char>) -> ScansView {
    ScansView {
        hours: texts_of(matches_of(markup, Field::Hour)),
        icons: attribute_pairs_of(
            matches_of(markup, Field::Icon),
            SOURCE_ATTRIBUTE@,
            TITLE_ATTRIBUTE@,
        ),
        temperatures: texts_of(matches_of(markup, Field::Temperature)),
        windchills: texts_of(matches_of(markup, Field::Windchill)),
        wind_directions: texts_of(matches_of(markup, Field::WindDirection)),
        wind_speeds: texts_of(matches_of(markup, Field::WindSpeed)),
        wind_gusts: texts_of(matches_of(markup, Field::WindGust)),
        precip_probabilities: texts_of(matches_of(markup, Field::PrecipProbability)),
        precip_amounts: texts_of(matches_of(markup, Field::PrecipAmount)),
        icon_classes: attributes_of(matches_of(markup, Field::Night), CLASS_ATTRIBUTE@),
    }
}

/// The outcome of scanning the page written as `markup`.
pub open spec fn scanned(markup: Seq<char>) -> Result<ScansView, ExtractError> {
    match selector_failure() {
        Some(error) => Err(error),
        None => Ok(scans_of(markup)),
    }
}

/// The first failure of decoding `scans`, the fields taken in the order of
/// the scans and the matches of a field in the order of its scan.
pub open spec fn first_failure(scans: ScansView) -> Option<ExtractError> {
    if decode_failure(Field::Hour, hours_in(scans.hours)) is Some {
        decode_failure(Field::Hour, hours_in(scans.hours))
    } else if attribute_failure(Field::Icon, icons_in(scans.icons)) is Some {
        attribute_failure(Field::Icon, icons_in(scans.icons))
    } else if decode_failure(Field::Temperature, degrees_in(scans.temperatures)) is Some {
        decode_failure(Field::Temperature, degrees_in(scans.temperatures))
    } else if decode_failure(Field::Windchill, degrees_in(scans.windchills)) is Some {
        decode_failure(Field::Windchill, degrees_in(scans.windchills))
    } else if decode_failure(Field::WindSpeed, speeds_in(scans.wind_speeds)) is Some {
        decode_failure(Field::WindSpeed, speeds_in(scans.wind_speeds))
    } else if decode_failure(Field::WindGust, speeds_in(scans.wind_gusts)) is Some {
        decode_failure(Field::WindGust, speeds_in(scans.wind_gusts))
    } else if decode_failure(Field::PrecipProbability, percents_in(scans.precip_probabilities))
        is Some {
        decode_failure(Field::PrecipProbability, percents_in(scans.precip_probabilities))
    } else if decode_failure(Field::PrecipAmount, amounts_in(scans.precip_amounts)) is Some {
        decode_failure(Field::PrecipAmount, amounts_in(scans.precip_amounts))
    } else {
        attribute_failure(Field::Night, nights_in(scans.icon_classes))
    }
}

/// The slot at position `k` of the forecast that `scans` decode to. Every
/// field but the hour is read from the match at position `k` of its scan. The
/// hour is read from the match at position `k - 1`, as the first label of a
/// page describes its second slot; slot 0 has hour 0. A field whose scan has
/// no match for the slot is zero, empty, absent or false.
pub open spec fn slot_at(scans: ScansView, k: int) -> SlotView {
    SlotView {
        hour: if 1 <= k <= scans.hours.len() {
            hours_in(scans.hours)[k - 1]->0
        } else {
            0
        },
        icon: if k < scans.icons.len() {
            icons_in(scans.icons)[k]->0
        } else {
            empty_slot().icon
        },
        temperature: if k < scans.temperatures.len() {
            degrees_in(scans.temperatures)[k]->0
        } else {
            0
        },
        windchill: if k < scans.windchills.len() {
            degrees_in(scans.windchills)[k]->0
        } else {
            0
        },
        precip_amount: if k < scans.precip_amounts.len() {
            amounts_in(scans.precip_amounts)[k]->0
        } else {
            None
        },
        precip_probability: if k < scans.precip_probabilities.len() {
            percents_in(scans.precip_probabilities)[k]->0
        } else {
            0
        },
        wind_direction: if k < scans.wind_directions.len() {
            directions_in(scans.wind_directions)[k]
        } else {
            Seq::empty()
        },
        wind_speed: (
            if k < scans.wind_speeds.len() {
                speeds_in(scans.wind_speeds)[k]->0
            } else {
                0
            },
            if k < scans.wind_gusts.len() {
                speeds_in(scans.wind_gusts)[k]->0
            } else {
                0
            },
        ),
        is_night: if k < scans.icon_classes.len() {
            nights_in(scans.icon_classes)[k]->0
        } else {
            false
        },
    }
}

/// The twenty-four slots that `scans` decode to, where every match decodes.
pub open spec fn aligned(scans: ScansView) -> Seq<SlotView> {
    Seq::new(SLOT_COUNT as nat, |k: int| slot_at(scans, k))
}

/// The outcome of decoding `scans` and merging them: the first failure if a
/// match does not decode, else the aligned slots.
pub open spec fn assembled(scans: ScansView) -> Result<Seq<SlotView>, ExtractError> {
    match first_failure(scans) {
        Some(error) => Err(error),
        None => Ok(aligned(scans)),
    }
}

/// The outcome of extracting the forecast from the page written as `markup`.
pub open spec fn extracted(markup: Seq<char>) -> Result<Seq<SlotView>, ExtractError> {
    match scanned(markup) {
        Ok(scans) => assembled(scans),
        Err(error) => Err(error),
    }
}

/// Scans `document` for the texts of `field`. Fails if the selector of `field`
/// does not compile.
fn scan_texts(document: &Document, field: Field) -> (result: Result<Vec<String>, ExtractError>)
    ensures
        match result {
            Ok(texts) => selector_valid(field) && texts.deep_view() == texts_of(
                matching(document@, selector_text(field)),
            ),
            Err(error) => !selector_valid(field) && error == (ExtractError::InvalidSelector {
                field,
            }),
        },
{
    match document.texts(selector_of(field)) {
        Ok(texts) => Ok(texts),
        Err(_) => Err(ExtractError::InvalidSelector { field }),
    }
}

/// Scans `document` for the attribute `name` of `field`. Fails if the selector
/// of `field` does not compile.
fn scan_attributes(document: &Document, field: Field, name: &str) -> (result: Result<
    Vec<Option<String>>,
    ExtractError,
>)
    ensures
        match result {
            Ok(values) => selector_valid(field) && values.deep_view() == attributes_of(
                matching(document@, selector_text(field)),
                name@,
            ),
            Err(error) => !selector_valid(field) && error == (ExtractError::InvalidSelector {
                field,
            }),
        },
{
    match document.attributes(selector_of(field), name) {
        Ok(values) => Ok(values),
        Err(_) => Err(ExtractError::InvalidSelector { field }),
    }
}

/// Scans `document` for the attributes `first` and `second` of `field`. Fails
/// if the selector of `field` does not compile.
fn scan_attribute_pairs(
    document: &Document,
    field: Field,
    first: &str,
    second: &str,
) -> (result: Result<Vec<(Option<String>, Option<String>)>, ExtractError>)
    ensures
        match result {
            Ok(pairs) => selector_valid(field) && pairs.deep_view() == attribute_pairs_of(
                matching(document@, selector_text(field)),
                first@,
                second@,
            ),
            Err(error) => !selector_valid(field) && error == (ExtractError::InvalidSelector {
                field,
            }),
        },
{
    match document.attribute_pairs(selector_of(field), first, second) {
        Ok(pairs) => Ok(pairs),
        Err(_) => Err(ExtractError::InvalidSelector { field }),
    }
}

/// Parses `markup` and scans the page for every field: one scan per field, in
/// the order hour, icon, temperature, perceived temperature, wind direction,
/// wind speed, gusts, probability and amount of precipitation, night. Markup
/// with errors is no failure. Fails only if a selector does not compile.
pub fn scan_document(markup: &str) -> (result: Result<Scans, ExtractError>)
    ensures
        scanned(markup@) == match result {
            Ok(scans) => Ok(scans@),
            Err(error) => Err(error),
        },
{
    let document = Document::parse(markup);
    let hours = scan_texts(&document, Field::Hour)?;
    let icons = scan_attribute_pairs(&document, Field::Icon, SOURCE_ATTRIBUTE, TITLE_ATTRIBUTE)?;
    let temperatures = scan_texts(&document, Field::Temperature)?;
    let windchills = scan_texts(&document, Field::Windchill)?;
    let wind_directions = scan_texts(&document, Field::WindDirection)?;
    let wind_speeds = scan_texts(&document, Field::WindSpeed)?;
    let wind_gusts = scan_texts(&document, Field::WindGust)?;
    let precip_probabilities = scan_texts(&document, Field::PrecipProbability)?;
    let precip_amounts = scan_texts(&document, Field::PrecipAmount)?;
    let icon_classes = scan_attributes(&document, Field::Night, CLASS_ATTRIBUTE)?;
    Ok(
        Scans {
            hours,
            icons,
            temperatures,
            windchills,
            wind_directions,
            wind_speeds,
            wind_gusts,
            precip_probabilities,
            precip_amounts,
            icon_classes,
        },
    )
}

/// Decodes the scans of a page and merges them by position into a forecast.
/// Every match of every scan is decoded, also those beyond the last slot, and
/// the first that does not decode fails the whole: there is no partial
/// forecast.
pub fn assemble(scans: &Scans) -> (result: Result<Forecast, ExtractError>)
    ensures
        outcome(result) == assembled(scans@),
        result matches Ok(forecast) ==> forecast@.len() == SLOT_COUNT,
{
    let hours = decode_hour_column(&scans.hours)?;
    let icons = decode_icon_column(&scans.icons)?;
    let temperatures = decode_degrees_column(Field::Temperature, &scans.temperatures)?;
    let windchills = decode_degrees_column(Field::Windchill, &scans.windchills)?;
    let directions = decode_direction_column(&scans.wind_directions);
    let speeds = decode_speed_column(Field::WindSpeed, &scans.wind_speeds)?;
    let gusts = decode_speed_column(Field::WindGust, &scans.wind_gusts)?;
    let probabilities = decode_percent_column(&scans.precip_probabilities)?;
    let amounts = decode_amount_column(&scans.precip_amounts)?;
    let nights = decode_night_column(&scans.icon_classes)?;
    let mut forecast = Forecast::new();
    forecast.set_hours(&hours);
    forecast.set_icons(&icons);
    forecast.set_temperatures(&temperatures);
    forecast.set_windchills(&windchills);
    forecast.set_wind_directions(&directions);
    forecast.set_wind_speeds(&speeds);
    forecast.set_wind_gusts(&gusts);
    forecast.set_precip_probabilities(&probabilities);
    forecast.set_precip_amounts(&amounts);
    forecast.set_night_flags(&nights);
    assert forall|k: int| 0 <= k < SLOT_COUNT implies forecast@[k] == slot_at(scans@, k) by {
        if k < directions.len() {
            assert(directions.deep_view()[k] == directions[k]@);
        }
    }
    assert(forecast@ =~= aligned(scans@));
    Ok(forecast)
}

/// Extracts the forecast from the markup of a page: scans the page, decodes
/// the scans and merges them. The forecast has twenty-four slots whatever the
/// scans matched.
pub fn extract_forecast(markup: &str) -> (result: Result<Forecast, ExtractError>)
    ensures
        outcome(result) == extracted(markup@),
        result matches Ok(forecast) ==> forecast@.len() == SLOT_COUNT,
{
    let scans = scan_document(markup)?;
    assemble(&scans)
}

/// A forecast has exactly twenty-four slots, however many matches the scans
/// hold.
pub proof fn lemma_slot_count(scans: ScansView)
    ensures
        assembled(scans) matches Ok(slots) ==> slots.len() == SLOT_COUNT,
{
}

/// Hour alignment: slot 0 has hour 0, and the slot at position `k` from 1 on
/// has the hour of the label at position `k - 1`, the number on the label
/// divided by 100.
pub proof fn lemma_hour_alignment(scans: ScansView, k: int)
    requires
        assembled(scans) is Ok,
        1 <= k < SLOT_COUNT,
        k <= scans.hours.len(),
    ensures
        assembled(scans)->Ok_0[0].hour == 0,
        hour_of(scans.hours[k - 1]) is Some,
        assembled(scans)->Ok_0[k].hour == hour_of(scans.hours[k - 1])->0,
        assembled(scans)->Ok_0[k].hour == unsigned_value(
            trim(scans.hours[k - 1]),
            u32::MAX as nat,
        )->0 / 100,
{
    assert(hours_in(scans.hours)[k - 1] is Some);
}

/// Each field of a slot is read from the scan of that field and from no
/// other, so the order in which the scans are taken and merged does not
/// matter.
pub proof fn lemma_fields_are_independent(scans: ScansView, others: ScansView, k: int)
    ensures
        scans.hours == others.hours ==> slot_at(scans, k).hour == slot_at(others, k).hour,
        scans.icons == others.icons ==> slot_at(scans, k).icon == slot_at(others, k).icon,
        scans.temperatures == others.temperatures ==> slot_at(scans, k).temperature == slot_at(
            others,
            k,
        ).temperature,
        scans.windchills == others.windchills ==> slot_at(scans, k).windchill == slot_at(
            others,
            k,
        ).windchill,
        scans.wind_directions == others.wind_directions ==> slot_at(scans, k).wind_direction
            == slot_at(others, k).wind_direction,
        scans.wind_speeds == others.wind_speeds ==> slot_at(scans, k).wind_speed.0 == slot_at(
            others,
            k,
        ).wind_speed.0,
        scans.wind_gusts == others.wind_gusts ==> slot_at(scans, k).wind_speed.1 == slot_at(
            others,
            k,
        ).wind_speed.1,
        scans.precip_probabilities == others.precip_probabilities ==> slot_at(
            scans,
            k,
        ).precip_probability == slot_at(others, k).precip_probability,
        scans.precip_amounts == others.precip_amounts ==> slot_at(scans, k).precip_amount
            == slot_at(others, k).precip_amount,
        scans.icon_classes == others.icon_classes ==> slot_at(scans, k).is_night == slot_at(
            others,
            k,
        ).is_night,
{
}

/// Precipitation absence: a slot whose precipitation cell is empty but for
/// white space has no amount; any other cell gives the slot its trimmed text.
pub proof fn lemma_precipitation_absence(scans: ScansView, k: int)
    requires
        assembled(scans) is Ok,
        0 <= k < SLOT_COUNT,
        k < scans.precip_amounts.len(),
    ensures
        trim(scans.precip_amounts[k]).len() == 0 ==> assembled(scans)->Ok_0[k].precip_amount
            is None,
        trim(scans.precip_amounts[k]).len() > 0 ==> assembled(scans)->Ok_0[k].precip_amount
            == Some(trim(scans.precip_amounts[k])),
{
    assert(amounts_in(scans.precip_amounts)[k] is Some);
}

/// Night detection: a slot is a night slot exactly if a token of the class
/// attribute of its icon cell contains the night marker.
pub proof fn lemma_night_detection(scans: ScansView, k: int)
    requires
        assembled(scans) is Ok,
        0 <= k < SLOT_COUNT,
        k < scans.icon_classes.len(),
    ensures
        scans.icon_classes[k] is Some,
        assembled(scans)->Ok_0[k].is_night == night_of(scans.icon_classes[k]->0),
{
    assert(nights_in(scans.icon_classes)[k] is Some);
}

/// Every amount of precipitation in a forecast writes a real number.
pub proof fn lemma_amounts_are_numbers(scans: ScansView, k: int)
    requires
        assembled(scans) is Ok,
        0 <= k < SLOT_COUNT,
    ensures
        assembled(scans)->Ok_0[k].precip_amount matches Some(amount) ==> real_number(amount),
{
    if k < scans.precip_amounts.len() {
        assert(amounts_in(scans.precip_amounts)[k] is Some);
    }
}

/// A slot for which no scan has a match is empty: every field of it is zero,
/// empty, absent or false.
pub proof fn lemma_unmatched_slot_is_empty(scans: ScansView, k: int)
    requires
        assembled(scans) is Ok,
        1 <= k < SLOT_COUNT,
        scans.hours.len() < k,
        scans.icons.len() <= k,
        scans.temperatures.len() <= k,
        scans.windchills.len() <= k,
        scans.wind_directions.len() <= k,
        scans.wind_speeds.len() <= k,
        scans.wind_gusts.len() <= k,
        scans.precip_probabilities.len() <= k,
        scans.precip_amounts.len() <= k,
        scans.icon_classes.len() <= k,
    ensures
        assembled(scans)->Ok_0[k] == empty_slot(),
{
}

/// The first `count` of `cells`, or all of them where they are fewer.
pub open spec fn first_cells<T>(cells: Seq<T>, count: int) -> Seq<T> {
    cells.take(min(count, cells.len() as int))
}

/// The first matches of `scans`, up to `count` of each field.
pub open spec fn first_matches(scans: ScansView, count: int) -> ScansView {
    ScansView {
        hours: first_cells(scans.hours, count),
        icons: first_cells(scans.icons, count),
        temperatures: first_cells(scans.temperatures, count),
        windchills: first_cells(scans.windchills, count),
        wind_directions: first_cells(scans.wind_directions, count),
        wind_speeds: first_cells(scans.wind_speeds, count),
        wind_gusts: first_cells(scans.wind_gusts, count),
        precip_probabilities: first_cells(scans.precip_probabilities, count),
        precip_amounts: first_cells(scans.precip_amounts, count),
        icon_classes: first_cells(scans.icon_classes, count),
    }
}

/// Below `count`, the first cells are the cells.
proof fn lemma_first_cells<T>(cells: Seq<T>, count: int, k: int)
    requires
        0 <= k < count,
    ensures
        k < first_cells(cells, count).len() <==> k < cells.len(),
        k < cells.len() ==> first_cells(cells, count)[k] == cells[k],
{
}

/// Matches beyond the last slot do not reach the forecast: the slots that
/// scans decode to are those of their first twenty-four matches.
pub proof fn lemma_extra_matches_are_dropped(scans: ScansView)
    ensures
        aligned(scans) == aligned(first_matches(scans, SLOT_COUNT as int)),
{
    let count = SLOT_COUNT as int;
    let first = first_matches(scans, count);
    assert forall|k: int| 0 <= k < count implies slot_at(scans, k) == slot_at(first, k) by {
        if k >= 1 {
            lemma_first_cells(scans.hours, count, k - 1);
        }
        lemma_first_cells(scans.icons, count, k);
        lemma_first_cells(scans.temperatures, count, k);
        lemma_first_cells(scans.windchills, count, k);
        lemma_first_cells(scans.wind_directions, count, k);
        lemma_first_cells(scans.wind_speeds, count, k);
        lemma_first_cells(scans.wind_gusts, count, k);
        lemma_first_cells(scans.precip_probabilities, count, k);
        lemma_first_cells(scans.precip_amounts, count, k);
        lemma_first_cells(scans.icon_classes, count, k);
    }
    assert(aligned(scans) =~= aligned(first));
}

/// Extraction is a function of the markup: two runs on the same markup have
/// the same outcome, slot by slot and field by field.
pub proof fn lemma_extraction_repeats(
    markup: Seq<char>,
    first: Result<Forecast, ExtractError>,
    second: Result<Forecast, ExtractError>,
)
    requires
        outcome(first) == extracted(markup),
        outcome(second) == extracted(markup),
    ensures
        outcome(first) == outcome(second),
        first is Ok ==> second is Ok && first->Ok_0@ == second->Ok_0@,
        first is Err ==> second == first,
{
}

} // verus!
