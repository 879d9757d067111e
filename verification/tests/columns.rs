use hourly_forecast::column::{
    decode_amount_column, decode_degrees_column, decode_direction_column, decode_hour_column,
    decode_icon_column, decode_night_column, decode_percent_column, decode_speed_column,
};
use hourly_forecast::field::{ExtractError, Field};

fn texts(cells: &[&str]) -> Vec<String> {
    cells.iter().map(|cell| cell.to_string()).collect()
}

fn some(text: &str) -> Option<String> {
    Some(text.to_string())
}

#[test]
fn hour_column_decodes_every_label() {
    assert_eq!(decode_hour_column(&texts(&["200", " 300 ", "400"])), Ok(vec![2, 3, 4]));
    assert_eq!(decode_hour_column(&texts(&[])), Ok(vec![]));
}

#[test]
fn hour_column_fails_at_the_first_bad_label() {
    assert_eq!(
        decode_hour_column(&texts(&["200", "x", "400", "y"])),
        Err(ExtractError::Decode { field: Field::Hour, index: 1 })
    );
    assert_eq!(
        decode_hour_column(&texts(&[""])),
        Err(ExtractError::Decode { field: Field::Hour, index: 0 })
    );
}

#[test]
fn degrees_column_names_its_field() {
    let cells = texts(&["-5\u{b0}", "5\u{b0}C", "n/a"]);
    assert_eq!(
        decode_degrees_column(Field::Temperature, &cells),
        Err(ExtractError::Decode { field: Field::Temperature, index: 2 })
    );
    assert_eq!(
        decode_degrees_column(Field::Windchill, &cells),
        Err(ExtractError::Decode { field: Field::Windchill, index: 2 })
    );
    assert_eq!(decode_degrees_column(Field::Temperature, &cells[..2].to_vec()), Ok(vec![5, 5]));
}

#[test]
fn percent_column_decodes_or_fails() {
    assert_eq!(decode_percent_column(&texts(&["10%", "0%", "100%"])), Ok(vec![10, 0, 100]));
    assert_eq!(
        decode_percent_column(&texts(&["10%", "0%", "300%"])),
        Err(ExtractError::Decode { field: Field::PrecipProbability, index: 2 })
    );
}

#[test]
fn speed_column_decodes_or_fails() {
    assert_eq!(decode_speed_column(Field::WindSpeed, &texts(&["7", " 12 "])), Ok(vec![7, 12]));
    assert_eq!(
        decode_speed_column(Field::WindGust, &texts(&["7", "12 km/h"])),
        Err(ExtractError::Decode { field: Field::WindGust, index: 1 })
    );
    assert_eq!(
        decode_speed_column(Field::WindSpeed, &texts(&["", "12"])),
        Err(ExtractError::Decode { field: Field::WindSpeed, index: 0 })
    );
}

#[test]
fn direction_column_trims_every_cell() {
    assert_eq!(
        decode_direction_column(&texts(&[" NNW ", "SE", "\nE\n", ""])),
        texts(&["NNW", "SE", "E", ""])
    );
}

#[test]
fn amount_column_keeps_gaps() {
    assert_eq!(
        decode_amount_column(&texts(&["", "2.5", "  ", " 0.1 "])),
        Ok(vec![None, some("2.5"), None, some("0.1")])
    );
}

#[test]
fn amount_column_fails_at_the_first_cell_that_is_no_number() {
    assert_eq!(
        decode_amount_column(&texts(&["", "2.5", "a lot", "?"])),
        Err(ExtractError::Decode { field: Field::PrecipAmount, index: 2 })
    );
}

#[test]
fn icon_column_takes_both_attributes_verbatim() {
    let images = vec![(some(" a.svg "), some("Clear sky")), (some(""), some(""))];
    assert_eq!(
        decode_icon_column(&images),
        Ok(vec![
            (" a.svg ".to_string(), "Clear sky".to_string()),
            (String::new(), String::new())
        ])
    );
}

#[test]
fn icon_column_fails_at_the_first_image_that_lacks_an_attribute() {
    let images = vec![
        (some("a.svg"), some("Clear")),
        (some("b.svg"), None),
        (None, some("Rain")),
    ];
    assert_eq!(
        decode_icon_column(&images),
        Err(ExtractError::MissingAttribute { field: Field::Icon, index: 1 })
    );
    let images = vec![(None, None)];
    assert_eq!(
        decode_icon_column(&images),
        Err(ExtractError::MissingAttribute { field: Field::Icon, index: 0 })
    );
}

#[test]
fn night_column_decodes_every_class() {
    let classes = vec![some("pictoicon sun"), some("pictoicon night-clear"), some("")];
    assert_eq!(decode_night_column(&classes), Ok(vec![false, true, false]));
}

#[test]
fn night_column_fails_without_a_class_attribute() {
    let classes = vec![some("pictoicon sun"), None, None];
    assert_eq!(
        decode_night_column(&classes),
        Err(ExtractError::MissingAttribute { field: Field::Night, index: 1 })
    );
}
