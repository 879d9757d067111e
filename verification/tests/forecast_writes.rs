use hourly_forecast::forecast::{Forecast, HourlySlot, SLOT_COUNT};

fn range(count: usize) -> Vec<u8> {
    (0..count).map(|k| k as u8 + 1).collect()
}

#[test]
fn new_forecast_has_twenty_four_empty_slots() {
    let forecast = Forecast::new();
    assert_eq!(SLOT_COUNT, 24);
    assert_eq!(forecast.slots().len(), 24);
    for slot in forecast.slots() {
        assert_eq!(*slot, HourlySlot::default());
        assert_eq!(slot.hour, 0);
        assert_eq!(slot.icon, (String::new(), String::new()));
        assert_eq!(slot.temperature, 0);
        assert_eq!(slot.windchill, 0);
        assert_eq!(slot.precip_amount, None);
        assert_eq!(slot.precip_probability, 0);
        assert_eq!(slot.wind_direction, "");
        assert_eq!(slot.wind_speed, (0, 0));
        assert!(!slot.is_night);
    }
}

#[test]
fn slot_lookup_ends_at_the_last_slot() {
    let mut forecast = Forecast::new();
    forecast.set_temperatures(&(0..24).collect());
    assert_eq!(forecast.slot(0).map(|slot| slot.temperature), Some(0));
    assert_eq!(forecast.slot(23).map(|slot| slot.temperature), Some(23));
    assert!(forecast.slot(24).is_none());
    assert!(forecast.slot(usize::MAX).is_none());
}

#[test]
fn hours_are_shifted_by_one_slot() {
    let mut forecast = Forecast::new();
    forecast.set_hours(&vec![2, 3, 4]);
    let hours: Vec<u32> = forecast.slots().iter().map(|slot| slot.hour).collect();
    let mut expected = vec![0, 2, 3, 4];
    expected.resize(24, 0);
    assert_eq!(hours, expected);
}

#[test]
fn hours_force_slot_zero_to_zero() {
    let mut forecast = Forecast::new();
    forecast.set_hours(&vec![7; 23]);
    forecast.set_hours(&vec![]);
    assert_eq!(forecast.slots()[0].hour, 0);
    assert_eq!(forecast.slots()[1].hour, 7);
    assert_eq!(forecast.slots()[23].hour, 7);
}

#[test]
fn hours_beyond_the_last_slot_are_dropped() {
    let mut forecast = Forecast::new();
    let values: Vec<u32> = (1..=25).collect();
    forecast.set_hours(&values);
    let hours: Vec<u32> = forecast.slots().iter().map(|slot| slot.hour).collect();
    let expected: Vec<u32> = (0..24).collect();
    assert_eq!(hours, expected);
}

#[test]
fn values_go_to_the_slot_of_their_position() {
    let mut forecast = Forecast::new();
    forecast.set_temperatures(&vec![5, -6, 7]);
    forecast.set_windchills(&vec![1, 2]);
    forecast.set_precip_probabilities(&vec![10, 20, 30, 40]);
    forecast.set_night_flags(&vec![true, false, true]);
    let slots = forecast.slots();
    assert_eq!((slots[0].temperature, slots[1].temperature, slots[2].temperature), (5, -6, 7));
    assert_eq!(slots[3].temperature, 0);
    assert_eq!((slots[0].windchill, slots[1].windchill, slots[2].windchill), (1, 2, 0));
    assert_eq!(slots[3].precip_probability, 40);
    assert_eq!(slots[4].precip_probability, 0);
    assert_eq!((slots[0].is_night, slots[1].is_night, slots[2].is_night), (true, false, true));
    assert!(!slots[23].is_night);
}

#[test]
fn values_beyond_the_last_slot_are_dropped() {
    let mut forecast = Forecast::new();
    forecast.set_wind_speeds(&range(30));
    forecast.set_wind_gusts(&range(24));
    assert_eq!(forecast.slots().len(), 24);
    for (k, slot) in forecast.slots().iter().enumerate() {
        assert_eq!(slot.wind_speed, (k as u8 + 1, k as u8 + 1));
    }
}

#[test]
fn speed_and_gust_share_a_pair_without_disturbing_each_other() {
    let mut forecast = Forecast::new();
    forecast.set_wind_gusts(&vec![9, 8]);
    forecast.set_wind_speeds(&vec![3]);
    assert_eq!(forecast.slots()[0].wind_speed, (3, 9));
    assert_eq!(forecast.slots()[1].wind_speed, (0, 8));
    assert_eq!(forecast.slots()[2].wind_speed, (0, 0));
}

#[test]
fn texts_are_written_as_they_are() {
    let mut forecast = Forecast::new();
    forecast.set_icons(&vec![("a.svg".to_string(), "Clear sky".to_string())]);
    forecast.set_wind_directions(&vec!["NNW".to_string(), "SE".to_string()]);
    assert_eq!(forecast.slots()[0].icon, ("a.svg".to_string(), "Clear sky".to_string()));
    assert_eq!(forecast.slots()[1].icon, (String::new(), String::new()));
    assert_eq!(forecast.slots()[0].wind_direction, "NNW");
    assert_eq!(forecast.slots()[1].wind_direction, "SE");
    assert_eq!(forecast.slots()[2].wind_direction, "");
}

#[test]
fn absent_amounts_leave_the_slot_as_it_is() {
    let mut forecast = Forecast::new();
    forecast.set_precip_amounts(&vec![Some("2.5".to_string()), None, Some("0.1".to_string())]);
    forecast.set_precip_amounts(&vec![None, Some("1".to_string())]);
    let amounts: Vec<Option<String>> =
        forecast.slots().iter().take(4).map(|slot| slot.precip_amount.clone()).collect();
    assert_eq!(
        amounts,
        vec![Some("2.5".to_string()), Some("1".to_string()), Some("0.1".to_string()), None]
    );
}

#[test]
fn writes_of_different_fields_commute() {
    let mut first = Forecast::new();
    first.set_hours(&vec![2, 3]);
    first.set_temperatures(&vec![5, 6, 7]);
    first.set_night_flags(&vec![true]);
    let mut second = Forecast::new();
    second.set_night_flags(&vec![true]);
    second.set_temperatures(&vec![5, 6, 7]);
    second.set_hours(&vec![2, 3]);
    assert_eq!(first, second);
}

#[test]
fn slot_copies_are_equal() {
    let mut forecast = Forecast::new();
    forecast.set_icons(&vec![("a.svg".to_string(), "Clear sky".to_string())]);
    forecast.set_precip_amounts(&vec![Some("2.5".to_string())]);
    let slot = forecast.slots()[0].clone();
    assert_eq!(slot, forecast.slots()[0]);
}
