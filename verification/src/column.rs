//! Decoding a column: the cells that the scan for one field matched, in the
//! order of the matches. A column decodes as a whole or not at all.

use vstd::prelude::*;
use crate::decode::{
    amount_of, decode_amount, decode_degrees, decode_direction, decode_hour, decode_night,
    decode_percent, decode_speed, degrees_of, direction_of, hour_of, night_of, percent_of,
    speed_of,
};
use crate::field::{ExtractError, Field};

verus! {

/// Whether every cell of a decoded column holds a value.
pub open spec fn complete<T>(cells: Seq<Option<T>>) -> bool {
    forall|i: int| 0 <= i < cells.len() ==> (#[trigger] cells[i]) is Some
}

/// Whether `k` is the first position of a decoded column that holds no value.
pub open spec fn is_first_gap<T>(cells: Seq<Option<T>>, k: int) -> bool {
    &&& 0 <= k < cells.len()
    &&& cells[k] is None
    &&& forall|i: int| 0 <= i < k ==> (#[trigger] cells[i]) is Some
}

/// The first position of a decoded column that holds no value, where there is
/// one.
pub open spec fn first_gap<T>(cells: Seq<Option<T>>) -> int {
    choose|k: int| is_first_gap(cells, k)
}

/// A column has at most one first gap.
pub proof fn lemma_first_gap<T>(cells: Seq<Option<T>>, k: int)
    requires
        is_first_gap(cells, k),
    ensures
        first_gap(cells) == k,
        !complete(cells),
{
    let chosen = first_gap(cells);
    assert(is_first_gap(cells, chosen));
    if chosen < k {
        assert(cells[chosen] is Some);
    } else if k < chosen {
        assert(cells[k] is Some);
    }
}

/// The failure of a column whose cells did not all decode: it names the first
/// cell that did not.
pub open spec fn decode_failure<T>(field: Field, cells: Seq<Option<T>>) -> Option<ExtractError> {
    if complete(cells) {
        None
    } else {
        Some(ExtractError::Decode { field, index: first_gap(cells) as usize })
    }
}

/// The failure of a column whose matches do not all have the attributes that
/// the field is read from: it names the first match that lacks one.
pub open spec fn attribute_failure<T>(field: Field, cells: Seq<Option<T>>) -> Option<
    ExtractError,
> {
    if complete(cells) {
        None
    } else {
        Some(ExtractError::MissingAttribute { field, index: first_gap(cells) as usize })
    }
}

/// What the labels of the hourly header decode to, one by one.
pub open spec fn hours_in(labels: Seq<Seq<char>>) -> Seq<Option<nat>> {
    Seq::new(labels.len(), |i: int| hour_of(labels[i]))
}

/// What the cells of a temperature row decode to, one by one.
pub open spec fn degrees_in(cells: Seq<Seq<char>>) -> Seq<Option<int>> {
    Seq::new(cells.len(), |i: int| degrees_of(cells[i]))
}

/// What the cells of the probability row decode to, one by one.
pub open spec fn percents_in(cells: Seq<Seq<char>>) -> Seq<Option<nat>> {
    Seq::new(cells.len(), |i: int| percent_of(cells[i]))
}

/// What the cells of a wind-speed row decode to, one by one.
pub open spec fn speeds_in(cells: Seq<Seq<char>>) -> Seq<Option<nat>> {
    Seq::new(cells.len(), |i: int| speed_of(cells[i]))
}

/// What the cells of the wind-direction row decode to, one by one.
pub open spec fn directions_in(cells: Seq<Seq<char>>) -> Seq<Seq<char>> {
    Seq::new(cells.len(), |i: int| direction_of(cells[i]))
}

/// What the cells of the precipitation row decode to, one by one.
pub open spec fn amounts_in(cells: Seq<Seq<char>>) -> Seq<Option<Option<Seq<char>>>> {
    Seq::new(cells.len(), |i: int| amount_of(cells[i]))
}

/// The icon that an image shows: its `src` and `title` attributes as they
/// stand, if it has both.
pub open spec fn icon_of(attributes: (Option<Seq<char>>, Option<Seq<char>>)) -> Option<
    (Seq<char>, Seq<char>),
> {
    match attributes {
        (Some(source), Some(title)) => Some((source, title)),
        _ => None,
    }
}

/// What the images of the icon row decode to, one by one.
pub open spec fn icons_in(images: Seq<(Option<Seq<char>>, Option<Seq<char>>)>) -> Seq<
    Option<(Seq<char>, Seq<char>)>,
> {
    Seq::new(images.len(), |i: int| icon_of(images[i]))
}

/// What the class attributes of the icon cells decode to, one by one.
pub open spec fn nights_in(classes: Seq<Option<Seq<char>>>) -> Seq<Option<bool>> {
    Seq::new(
        classes.len(),
        |i: int|
            match classes[i] {
                Some(class) => Some(night_of(class)),
                None => None,
            },
    )
}

/// Decodes the labels of the hourly header. Fails at the first label that is
/// no number.
pub fn decode_hour_column(labels: &Vec<String>) -> (result: Result<Vec<u32>, ExtractError>)
    ensures
        match result {
            Ok(values) => {
                &&& decode_failure(Field::Hour, hours_in(labels.deep_view())) is None
                &&& values.len() == labels.len()
                &&& forall|i: int|
                    #![trigger values[i]]
                    #![trigger hours_in(labels.deep_view())[i]]
                    0 <= i < values.len() ==> hours_in(labels.deep_view())[i] == Some(
                        values[i] as nat,
                    )
            },
            Err(error) => decode_failure(Field::Hour, hours_in(labels.deep_view())) == Some(
                error,
            ),
        },
{
    let ghost decoded = hours_in(labels.deep_view());
    let mut values: Vec<u32> = Vec::new();
    let mut i: usize = 0;
    while i < labels.len()
        invariant
            i <= labels.len(),
            values.len() == i,
            decoded == hours_in(labels.deep_view()),
            forall|j: int| 0 <= j < i ==> (#[trigger] decoded[j]) == Some(values[j] as nat),
        decreases labels.len() - i,
    {
        assert(decoded[i as int] == hour_of(labels[i as int]@));
        match decode_hour(labels[i].as_str()) {
            Some(value) => {
                values.push(value);
            },
            None => {
                proof {
                    lemma_first_gap(decoded, i as int);
                }
                return Err(ExtractError::Decode { field: Field::Hour, index: i });
            },
        }
        i += 1;
    }
    Ok(values)
}

/// Decodes the cells of a temperature row, that of `field`. Fails at the first
/// cell that shows no degrees.
pub fn decode_degrees_column(field: Field, cells: &Vec<String>) -> (result: Result<Vec<i8>, ExtractError>)
    ensures
        match result {
            Ok(values) => {
                &&& decode_failure(field, degrees_in(cells.deep_view())) is None
                &&& values.len() == cells.len()
                &&& forall|i: int|
                    #![trigger values[i]]
                    #![trigger degrees_in(cells.deep_view())[i]]
                    0 <= i < values.len() ==> degrees_in(cells.deep_view())[i] == Some(
                        values[i] as int,
                    )
            },
            Err(error) => decode_failure(field, degrees_in(cells.deep_view())) == Some(
                error,
            ),
        },
{
    let ghost decoded = degrees_in(cells.deep_view());
    let mut values: Vec<i8> = Vec::new();
    let mut i: usize = 0;
    while i < cells.len()
        invariant
            i <= cells.len(),
            values.len() == i,
            decoded == degrees_in(cells.deep_view()),
            forall|j: int| 0 <= j < i ==> (#[trigger] decoded[j]) == Some(values[j] as int),
        decreases cells.len() - i,
    {
        assert(decoded[i as int] == degrees_of(cells[i as int]@));
        match decode_degrees(cells[i].as_str()) {
            Some(value) => {
                values.push(value);
            },
            None => {
                proof {
                    lemma_first_gap(decoded, i as int);
                }
                return Err(ExtractError::Decode { field: field, index: i });
            },
        }
        i += 1;
    }
    Ok(values)
}

/// Decodes the cells of the probability row. Fails at the first cell that
/// shows no percentage.
pub fn decode_percent_column(cells: &Vec<String>) -> (result: Result<Vec<u8>, ExtractError>)
    ensures
        match result {
            Ok(values) => {
                &&& decode_failure(Field::PrecipProbability, percents_in(cells.deep_view())) is None
                &&& values.len() == cells.len()
                &&& forall|i: int|
                    #![trigger values[i]]
                    #![trigger percents_in(cells.deep_view())[i]]
                    0 <= i < values.len() ==> percents_in(cells.deep_view())[i] == Some(
                        values[i] as nat,
                    )
            },
            Err(error) => decode_failure(Field::PrecipProbability, percents_in(cells.deep_view())) == Some(
                error,
            ),
        },
{
    let ghost decoded = percents_in(cells.deep_view());
    let mut values: Vec<u8> = Vec::new();
    let mut i: usize = 0;
    while i < cells.len()
        invariant
            i <= cells.len(),
            values.len() == i,
            decoded == percents_in(cells.deep_view()),
            forall|j: int| 0 <= j < i ==> (#[trigger] decoded[j]) == Some(values[j] as nat),
        decreases cells.len() - i,
    {
        assert(decoded[i as int] == percent_of(cells[i as int]@));
        match decode_percent(cells[i].as_str()) {
            Some(value) => {
                values.push(value);
            },
            None => {
                proof {
                    lemma_first_gap(decoded, i as int);
                }
                return Err(ExtractError::Decode { field: Field::PrecipProbability, index: i });
            },
        }
        i += 1;
    }
    Ok(values)
}

/// Decodes the cells of a wind-speed row, that of `field`. Fails at the first
/// cell that shows no speed.
pub fn decode_speed_column(field: Field, cells: &Vec<String>) -> (result: Result<Vec<u8>, ExtractError>)
    ensures
        match result {
            Ok(values) => {
                &&& decode_failure(field, speeds_in(cells.deep_view())) is None
                &&& values.len() == cells.len()
                &&& forall|i: int|
                    #![trigger values[i]]
                    #![trigger speeds_in(cells.deep_view())[i]]
                    0 <= i < values.len() ==> speeds_in(cells.deep_view())[i] == Some(
                        values[i] as nat,
                    )
            },
            Err(error) => decode_failure(field, speeds_in(cells.deep_view())) == Some(
                error,
            ),
        },
{
    let ghost decoded = speeds_in(cells.deep_view());
    let mut values: Vec<u8> = Vec::new();
    let mut i: usize = 0;
    while i < cells.len()
        invariant
            i <= cells.len(),
            values.len() == i,
            decoded == speeds_in(cells.deep_view()),
            forall|j: int| 0 <= j < i ==> (#[trigger] decoded[j]) == Some(values[j] as nat),
        decreases cells.len() - i,
    {
        assert(decoded[i as int] == speed_of(cells[i as int]@));
        match decode_speed(cells[i].as_str()) {
            Some(value) => {
                values.push(value);
            },
            None => {
                proof {
                    lemma_first_gap(decoded, i as int);
                }
                return Err(ExtractError::Decode { field: field, index: i });
            },
        }
        i += 1;
    }
    Ok(values)
}

/// Decodes the cells of the wind-direction row.
pub fn decode_direction_column(cells: &Vec<String>) -> (directions: Vec<String>)
    ensures
        directions.len() == cells.len(),
        directions.deep_view() == directions_in(cells.deep_view()),
{
    let mut directions: Vec<String> = Vec::new();
    let mut i: usize = 0;
    while i < cells.len()
        invariant
            i <= cells.len(),
            directions.len() == i,
            forall|j: int| 0 <= j < i ==> (#[trigger] directions[j])@ == direction_of(cells[j]@),
        decreases cells.len() - i,
    {
        directions.push(decode_direction(cells[i].as_str()));
        i += 1;
    }
    assert(directions.deep_view() =~= directions_in(cells.deep_view()));
    directions
}

/// Decodes the cells of the precipitation row. Fails at the first cell that
/// is not empty and writes no real number.
pub fn decode_amount_column(cells: &Vec<String>) -> (result: Result<
    Vec<Option<String>>,
    ExtractError,
>)
    ensures
        match result {
            Ok(amounts) => {
                &&& decode_failure(Field::PrecipAmount, amounts_in(cells.deep_view())) is None
                &&& amounts.len() == cells.len()
                &&& forall|i: int|
                    #![trigger amounts[i]]
                    #![trigger amounts_in(cells.deep_view())[i]]
                    0 <= i < amounts.len() ==> amounts_in(cells.deep_view())[i] == Some(
                        amounts[i].deep_view(),
                    )
            },
            Err(error) => decode_failure(Field::PrecipAmount, amounts_in(cells.deep_view()))
                == Some(error),
        },
{
    let ghost decoded = amounts_in(cells.deep_view());
    let mut amounts: Vec<Option<String>> = Vec::new();
    let mut i: usize = 0;
    while i < cells.len()
        invariant
            i <= cells.len(),
            amounts.len() == i,
            decoded == amounts_in(cells.deep_view()),
            forall|j: int| 0 <= j < i ==> (#[trigger] decoded[j]) == Some(amounts[j].deep_view()),
        decreases cells.len() - i,
    {
        assert(decoded[i as int] == amount_of(cells[i as int]@));
        match decode_amount(cells[i].as_str()) {
            Some(amount) => {
                amounts.push(amount);
            },
            None => {
                proof {
                    lemma_first_gap(decoded, i as int);
                }
                return Err(ExtractError::Decode { field: Field::PrecipAmount, index: i });
            },
        }
        i += 1;
    }
    Ok(amounts)
}

/// Decodes the images of the icon row, each given by its `src` and `title`
/// attributes. Fails at the first image that lacks one of the two.
pub fn decode_icon_column(images: &Vec<(Option<String>, Option<String>)>) -> (result: Result<
    Vec<(String, String)>,
    ExtractError,
>)
    ensures
        match result {
            Ok(icons) => {
                &&& attribute_failure(Field::Icon, icons_in(images.deep_view())) is None
                &&& icons.len() == images.len()
                &&& forall|i: int|
                    #![trigger icons[i]]
                    #![trigger icons_in(images.deep_view())[i]]
                    0 <= i < icons.len() ==> icons_in(images.deep_view())[i] == Some(
                        icons[i].deep_view(),
                    )
            },
            Err(error) => attribute_failure(Field::Icon, icons_in(images.deep_view())) == Some(
                error,
            ),
        },
{
    let ghost decoded = icons_in(images.deep_view());
    let mut icons: Vec<(String, String)> = Vec::new();
    let mut i: usize = 0;
    while i < images.len()
        invariant
            i <= images.len(),
            icons.len() == i,
            decoded == icons_in(images.deep_view()),
            forall|j: int| 0 <= j < i ==> (#[trigger] decoded[j]) == Some(icons[j].deep_view()),
        decreases images.len() - i,
    {
        assert(decoded[i as int] == icon_of(images[i as int].deep_view()));
        let image = &images[i];
        match &image.0 {
            Some(source) => match &image.1 {
                Some(title) => {
                    icons.push((source.clone(), title.clone()));
                },
                None => {
                    proof {
                        lemma_first_gap(decoded, i as int);
                    }
                    return Err(ExtractError::MissingAttribute { field: Field::Icon, index: i });
                },
            },
            None => {
                proof {
                    lemma_first_gap(decoded, i as int);
                }
                return Err(ExtractError::MissingAttribute { field: Field::Icon, index: i });
            },
        }
        i += 1;
    }
    Ok(icons)
}

/// Decodes the class attributes of the icon cells. Fails at the first cell
/// that has no class attribute.
pub fn decode_night_column(classes: &Vec<Option<String>>) -> (result: Result<
    Vec<bool>,
    ExtractError,
>)
    ensures
        match result {
            Ok(nights) => {
                &&& attribute_failure(Field::Night, nights_in(classes.deep_view())) is None
                &&& nights.len() == classes.len()
                &&& forall|i: int|
                    #![trigger nights[i]]
                    #![trigger nights_in(classes.deep_view())[i]]
                    0 <= i < nights.len() ==> nights_in(classes.deep_view())[i] == Some(nights[i])
            },
            Err(error) => attribute_failure(Field::Night, nights_in(classes.deep_view()))
                == Some(error),
        },
{
    let ghost decoded = nights_in(classes.deep_view());
    let mut nights: Vec<bool> = Vec::new();
    let mut i: usize = 0;
    while i < classes.len()
        invariant
            i <= classes.len(),
            nights.len() == i,
            decoded == nights_in(classes.deep_view()),
            forall|j: int| 0 <= j < i ==> (#[trigger] decoded[j]) == Some(nights[j]),
        decreases classes.len() - i,
    {
        assert(classes.deep_view()[i as int] == classes[i as int].deep_view());
        match &classes[i] {
            Some(class) => {
                nights.push(decode_night(class.as_str()));
            },
            None => {
                proof {
                    lemma_first_gap(decoded, i as int);
                }
                return Err(ExtractError::MissingAttribute { field: Field::Night, index: i });
            },
        }
        i += 1;
    }
    Ok(nights)
}

} // verus!
