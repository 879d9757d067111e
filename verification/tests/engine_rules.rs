use hourly_forecast::engine::{assemble, Scans};
use hourly_forecast::field::{ExtractError, Field};

fn texts(count: usize, cell: impl Fn(usize) -> String) -> Vec<String> {
    (0..count).map(cell).collect()
}

fn full_scans(matches: usize) -> Scans {
    Scans {
        hours: texts(matches + 1, |i| format!(" {} ", (i + 1) * 100)),
        icons: (0..matches)
            .map(|i| (Some(format!("icon-{i}.svg")), Some(format!("Title {i}"))))
            .collect(),
        temperatures: texts(matches, |i| format!("-{}\u{b0}", i)),
        windchills: texts(matches, |i| format!("{}\u{b0}C", i + 1)),
        wind_directions: texts(matches, |i| if i % 2 == 0 { " NNW ".into() } else { "SE".into() }),
        wind_speeds: texts(matches, |i| format!("\n{}\n", i + 2)),
        wind_gusts: texts(matches, |i| format!("{}", i + 10)),
        precip_probabilities: texts(matches, |i| format!("{}%", i * 4)),
        precip_amounts: texts(matches, |i| if i % 3 == 0 { format!("{}.5", i) } else { " ".into() }),
        icon_classes: (0..matches)
            .map(|i| Some(if i < 6 { "pictoicon night-clear".into() } else { "pictoicon sun".into() }))
            .collect(),
    }
}

#[test]
fn forecast_has_twenty_four_slots_for_full_scans() {
    let forecast = assemble(&full_scans(24)).unwrap();
    assert_eq!(forecast.slots().len(), 24);
}

#[test]
fn forecast_has_twenty_four_slots_whatever_the_scans_hold() {
    for matches in [0, 1, 23, 24, 25, 40] {
        let forecast = assemble(&full_scans(matches)).unwrap();
        assert_eq!(forecast.slots().len(), 24, "{matches} matches");
    }
    assert_eq!(assemble(&Scans::default()).unwrap().slots().len(), 24);
}

#[test]
fn hour_labels_align_with_the_following_slot() {
    let mut scans = Scans::default();
    scans.hours = (2..=26).map(|h| format!("{}", h * 100)).collect();
    let forecast = assemble(&scans).unwrap();
    let hours: Vec<u32> = forecast.slots().iter().map(|slot| slot.hour).collect();
    let mut expected = vec![0];
    expected.extend(2..=24);
    assert_eq!(hours, expected);
}

#[test]
fn full_scans_fill_every_field_of_every_slot() {
    let forecast = assemble(&full_scans(24)).unwrap();
    for (k, slot) in forecast.slots().iter().enumerate() {
        assert_eq!(slot.hour, k as u32, "slot {k}");
        assert_eq!(slot.icon, (format!("icon-{k}.svg"), format!("Title {k}")));
        assert_eq!(slot.temperature, k as i8);
        assert_eq!(slot.windchill, k as i8 + 1);
        assert_eq!(slot.wind_direction, if k % 2 == 0 { "NNW" } else { "SE" });
        assert_eq!(slot.wind_speed, (k as u8 + 2, k as u8 + 10));
        assert_eq!(slot.precip_probability, k as u8 * 4);
        assert_eq!(slot.precip_amount, if k % 3 == 0 { Some(format!("{k}.5")) } else { None });
        assert_eq!(slot.is_night, k < 6);
    }
}

#[test]
fn matches_beyond_the_last_slot_change_nothing() {
    assert_eq!(assemble(&full_scans(24)), assemble(&full_scans(31)));
}

#[test]
fn short_scans_leave_later_slots_empty() {
    let forecast = assemble(&full_scans(3)).unwrap();
    let slots = forecast.slots();
    assert_eq!(slots[2].temperature, 2);
    assert_eq!(slots[3].hour, 3);
    assert_eq!(slots[4].hour, 4);
    assert_eq!(slots[5].hour, 0);
    for slot in &slots[5..] {
        assert_eq!(*slot, hourly_forecast::forecast::HourlySlot::default());
    }
    assert_eq!(slots[3].temperature, 0);
    assert_eq!(slots[3].wind_direction, "");
    assert_eq!(slots[3].precip_amount, None);
}

#[test]
fn bad_cell_beyond_the_last_slot_still_fails() {
    let mut scans = full_scans(30);
    scans.temperatures[29] = "n/a".into();
    assert_eq!(
        assemble(&scans),
        Err(ExtractError::Decode { field: Field::Temperature, index: 29 })
    );
}

#[test]
fn each_numeric_field_reports_its_own_failure() {
    let cases: [(Field, fn(&mut Scans)); 7] = [
        (Field::Hour, |scans| scans.hours[5] = "noon".into()),
        (Field::Temperature, |scans| scans.temperatures[5] = "".into()),
        (Field::Windchill, |scans| scans.windchills[5] = "cold".into()),
        (Field::WindSpeed, |scans| scans.wind_speeds[5] = "5 km/h".into()),
        (Field::WindGust, |scans| scans.wind_gusts[5] = "-".into()),
        (Field::PrecipProbability, |scans| scans.precip_probabilities[5] = "%".into()),
        (Field::PrecipAmount, |scans| scans.precip_amounts[5] = "2.5 mm".into()),
    ];
    for (field, spoil) in cases {
        let mut scans = full_scans(24);
        spoil(&mut scans);
        assert_eq!(assemble(&scans), Err(ExtractError::Decode { field, index: 5 }));
    }
}

#[test]
fn missing_attributes_are_reported() {
    let mut scans = full_scans(24);
    scans.icons[7].1 = None;
    assert_eq!(
        assemble(&scans),
        Err(ExtractError::MissingAttribute { field: Field::Icon, index: 7 })
    );
    let mut scans = full_scans(24);
    scans.icon_classes[0] = None;
    assert_eq!(
        assemble(&scans),
        Err(ExtractError::MissingAttribute { field: Field::Night, index: 0 })
    );
}

#[test]
fn first_failure_goes_by_field_order_then_by_position() {
    let mut scans = full_scans(24);
    scans.icon_classes[0] = None;
    assert_eq!(
        assemble(&scans),
        Err(ExtractError::MissingAttribute { field: Field::Night, index: 0 })
    );
    scans.precip_amounts[23] = "?".into();
    assert_eq!(
        assemble(&scans),
        Err(ExtractError::Decode { field: Field::PrecipAmount, index: 23 })
    );
    scans.precip_probabilities[1] = "?".into();
    scans.wind_gusts[2] = "?".into();
    scans.wind_speeds[3] = "?".into();
    scans.windchills[4] = "?".into();
    scans.temperatures[9] = "?".into();
    scans.temperatures[6] = "?".into();
    assert_eq!(
        assemble(&scans),
        Err(ExtractError::Decode { field: Field::Temperature, index: 6 })
    );
    scans.icons[20] = (None, None);
    assert_eq!(
        assemble(&scans),
        Err(ExtractError::MissingAttribute { field: Field::Icon, index: 20 })
    );
    scans.hours[24] = "?".into();
    assert_eq!(assemble(&scans), Err(ExtractError::Decode { field: Field::Hour, index: 24 }));
}

#[test]
fn assembling_twice_gives_the_same_forecast() {
    let scans = full_scans(24);
    assert_eq!(assemble(&scans), assemble(&scans));
}
