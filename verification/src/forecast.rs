//! The forecast record: twenty-four hourly slots, filled in field by field.

use vstd::prelude::*;

verus! {

/// The number of slots in a forecast.
pub const SLOT_COUNT: usize = 24;

/// The forecast for one hour.
#[derive(Debug, PartialEq, Eq)]
pub struct HourlySlot {
    /// Hour-of-day label of the slot.
    pub hour: u32,
    /// Icon reference and human-readable title.
    pub icon: (String, String),
    /// Temperature in degrees.
    pub temperature: i8,
    /// Perceived temperature in degrees.
    pub windchill: i8,
    /// Precipitation in millimetres: a real number in decimal notation, kept
    /// as the page writes it. `None` where the page reports no precipitation,
    /// which is not the same as zero.
    pub precip_amount: Option<String>,
    /// Probability of precipitation in percent.
    pub precip_probability: u8,
    /// Compass bearing of the wind, such as `NNW`.
    pub wind_direction: String,
    /// Sustained wind speed and gust speed.
    pub wind_speed: (u8, u8),
    /// Whether the slot's icon is a night variant.
    pub is_night: bool,
}

/// The mathematical value of an [`HourlySlot`].
pub struct SlotView {
    pub hour: nat,
    pub icon: (Seq<char>, Seq<char>),
    pub temperature: int,
    pub windchill: int,
    pub precip_amount: Option<Seq<char>>,
    pub precip_probability: nat,
    pub wind_direction: Seq<char>,
    pub wind_speed: (nat, nat),
    pub is_night: bool,
}

/// The slot in which no field has been filled in: zero, empty, absent, false.
pub open spec fn empty_slot() -> SlotView {
    SlotView {
        hour: 0,
        icon: (Seq::empty(), Seq::empty()),
        temperature: 0,
        windchill: 0,
        precip_amount: None,
        precip_probability: 0,
        wind_direction: Seq::empty(),
        wind_speed: (0, 0),
        is_night: false,
    }
}

impl View for HourlySlot {
    type V = SlotView;

    open spec fn view(&self) -> SlotView {
        SlotView {
            hour: self.hour as nat,
            icon: (self.icon.0@, self.icon.1@),
            temperature: self.temperature as int,
            windchill: self.windchill as int,
            precip_amount: match self.precip_amount {
                Some(amount) => Some(amount@),
                None => None,
            },
            precip_probability: self.precip_probability as nat,
            wind_direction: self.wind_direction@,
            wind_speed: (self.wind_speed.0 as nat, self.wind_speed.1 as nat),
            is_night: self.is_night,
        }
    }
}

impl Default for HourlySlot {
    fn default() -> (slot: HourlySlot)
        ensures
            slot@ == empty_slot(),
    {
        HourlySlot {
            hour: 0,
            icon: (String::new(), String::new()),
            temperature: 0,
            windchill: 0,
            precip_amount: None,
            precip_probability: 0,
            wind_direction: String::new(),
            wind_speed: (0, 0),
            is_night: false,
        }
    }
}

impl Clone for HourlySlot {
    fn clone(&self) -> (copy: HourlySlot)
        ensures
            copy@ == self@,
    {
        HourlySlot {
            hour: self.hour,
            icon: (self.icon.0.clone(), self.icon.1.clone()),
            temperature: self.temperature,
            windchill: self.windchill,
            precip_amount: match &self.precip_amount {
                Some(amount) => Some(amount.clone()),
                None => None,
            },
            precip_probability: self.precip_probability,
            wind_direction: self.wind_direction.clone(),
            wind_speed: self.wind_speed,
            is_night: self.is_night,
        }
    }
}

/// A forecast: exactly twenty-four hourly slots, in order of position.
#[derive(Debug, PartialEq, Eq)]
pub struct Forecast {
    slots: Vec<HourlySlot>,
}

impl View for Forecast {
    type V = Seq<SlotView>;

    closed spec fn view(&self) -> Seq<SlotView> {
        Seq::new(self.slots@.len(), |k: int| self.slots@[k]@)
    }
}

impl Forecast {
    #[verifier::type_invariant]
    spec fn well_formed(&self) -> bool {
        self.slots@.len() == SLOT_COUNT
    }

    /// The forecast in which no field of any slot has been filled in.
    pub fn new() -> (forecast: Forecast)
        ensures
            forecast@ == Seq::new(SLOT_COUNT as nat, |k: int| empty_slot()),
    {
        let mut slots: Vec<HourlySlot> = Vec::new();
        while slots.len() < SLOT_COUNT
            invariant
                slots.len() <= SLOT_COUNT,
                forall|k: int| 0 <= k < slots.len() ==> (#[trigger] slots[k])@ == empty_slot(),
            decreases SLOT_COUNT - slots.len(),
        {
            slots.push(HourlySlot::default());
        }
        let forecast = Forecast { slots };
        assert(forecast@ =~= Seq::new(SLOT_COUNT as nat, |k: int| empty_slot()));
        forecast
    }

    /// The slots, in order of position.
    pub fn slots(&self) -> (slots: &Vec<HourlySlot>)
        ensures
            slots.len() == SLOT_COUNT,
            self@.len() == SLOT_COUNT,
            forall|k: int| 0 <= k < SLOT_COUNT ==> (#[trigger] slots[k])@ == self@[k],
    {
        proof {
            use_type_invariant(self);
        }
        &self.slots
    }

    /// The slot at `position`, if the forecast has one there.
    pub fn slot(&self, position: usize) -> (slot: Option<&HourlySlot>)
        ensures
            self@.len() == SLOT_COUNT,
            position < SLOT_COUNT ==> slot is Some && slot->0@ == self@[position as int],
            position >= SLOT_COUNT ==> slot is None,
    {
        proof {
            use_type_invariant(self);
        }
        if position < SLOT_COUNT {
            Some(&self.slots[position])
        } else {
            None
        }
    }

    /// Writes the hours. The hour at position `k` of `values` goes to slot
    /// `k + 1`: the first label of a page describes its second slot. Slot 0 gets
    /// hour 0. A slot without a value keeps its own; a value without a slot is
    /// dropped.
    pub fn set_hours(&mut self, values: &Vec<u32>)
        ensures
            final(self)@.len() == SLOT_COUNT,
            forall|k: int|
                0 <= k < SLOT_COUNT ==> #[trigger] final(self)@[k] == (SlotView {
                    hour: if k == 0 {
                        0
                    } else if k - 1 < values.len() {
                        values[k - 1] as nat
                    } else {
                        old(self)@[k].hour
                    },
                    ..old(self)@[k]
                }),
    {
        proof {
            use_type_invariant(&*self);
        }
        let ghost before = self@;
        self.slots[0].hour = 0;
        let n: usize = if values.len() < SLOT_COUNT - 1 {
            values.len()
        } else {
            SLOT_COUNT - 1
        };
        let mut i: usize = 0;
        while i < n
            invariant
                i <= n <= SLOT_COUNT - 1,
                n <= values.len(),
                self.slots.len() == SLOT_COUNT,
                before.len() == SLOT_COUNT,
                self.slots[0]@ == (SlotView { hour: 0, ..before[0] }),
                forall|j: int|
                    1 <= j <= i ==> (#[trigger] self.slots[j])@ == (SlotView {
                        hour: values[j - 1] as nat,
                        ..before[j]
                    }),
                forall|j: int| i < j < SLOT_COUNT ==> (#[trigger] self.slots[j])@ == before[j],
            decreases n - i,
        {
            self.slots[i + 1].hour = values[i];
            i += 1;
        }
    }

    /// Writes the icons. The value at position `k` of `values` goes to slot `k`.
    /// A slot without a value keeps its own; a value without a slot is dropped.
    pub fn set_icons(&mut self, values: &Vec<(String, String)>)
        ensures
            final(self)@.len() == SLOT_COUNT,
            forall|k: int|
                0 <= k < SLOT_COUNT ==> #[trigger] final(self)@[k] == (SlotView {
                    icon: if k < values.len() {
                        (values[k].0@, values[k].1@)
                    } else {
                        old(self)@[k].icon
                    },
                    ..old(self)@[k]
                }),
    {
        proof {
            use_type_invariant(&*self);
        }
        let ghost before = self@;
        let n: usize = if values.len() < SLOT_COUNT {
            values.len()
        } else {
            SLOT_COUNT
        };
        let mut k: usize = 0;
        while k < n
            invariant
                k <= n <= SLOT_COUNT,
                n <= values.len(),
                self.slots.len() == SLOT_COUNT,
                before.len() == SLOT_COUNT,
                forall|j: int|
                    0 <= j < k ==> (#[trigger] self.slots[j])@ == (SlotView {
                        icon: (values[j].0@, values[j].1@),
                        ..before[j]
                    }),
                forall|j: int| k <= j < SLOT_COUNT ==> (#[trigger] self.slots[j])@ == before[j],
            decreases n - k,
        {
            self.slots[k].icon = (values[k].0.clone(), values[k].1.clone());
            k += 1;
        }
    }

    /// Writes the temperatures. The value at position `k` of `values` goes to slot `k`.
    /// A slot without a value keeps its own; a value without a slot is dropped.
    pub fn set_temperatures(&mut self, values: &Vec<i8>)
        ensures
            final(self)@.len() == SLOT_COUNT,
            forall|k: int|
                0 <= k < SLOT_COUNT ==> #[trigger] final(self)@[k] == (SlotView {
                    temperature: if k < values.len() {
                        values[k] as int
                    } else {
                        old(self)@[k].temperature
                    },
                    ..old(self)@[k]
                }),
    {
        proof {
            use_type_invariant(&*self);
        }
        let ghost before = self@;
        let n: usize = if values.len() < SLOT_COUNT {
            values.len()
        } else {
            SLOT_COUNT
        };
        let mut k: usize = 0;
        while k < n
            invariant
                k <= n <= SLOT_COUNT,
                n <= values.len(),
                self.slots.len() == SLOT_COUNT,
                before.len() == SLOT_COUNT,
                forall|j: int|
                    0 <= j < k ==> (#[trigger] self.slots[j])@ == (SlotView {
                        temperature: values[j] as int,
                        ..before[j]
                    }),
                forall|j: int| k <= j < SLOT_COUNT ==> (#[trigger] self.slots[j])@ == before[j],
            decreases n - k,
        {
            self.slots[k].temperature = values[k];
            k += 1;
        }
    }

    /// Writes the perceived temperatures. The value at position `k` of `values` goes to slot `k`.
    /// A slot without a value keeps its own; a value without a slot is dropped.
    pub fn set_windchills(&mut self, values: &Vec<i8>)
        ensures
            final(self)@.len() == SLOT_COUNT,
            forall|k: int|
                0 <= k < SLOT_COUNT ==> #[trigger] final(self)@[k] == (SlotView {
                    windchill: if k < values.len() {
                        values[k] as int
                    } else {
                        old(self)@[k].windchill
                    },
                    ..old(self)@[k]
                }),
    {
        proof {
            use_type_invariant(&*self);
        }
        let ghost before = self@;
        let n: usize = if values.len() < SLOT_COUNT {
            values.len()
        } else {
            SLOT_COUNT
        };
        let mut k: usize = 0;
        while k < n
            invariant
                k <= n <= SLOT_COUNT,
                n <= values.len(),
                self.slots.len() == SLOT_COUNT,
                before.len() == SLOT_COUNT,
                forall|j: int|
                    0 <= j < k ==> (#[trigger] self.slots[j])@ == (SlotView {
                        windchill: values[j] as int,
                        ..before[j]
                    }),
                forall|j: int| k <= j < SLOT_COUNT ==> (#[trigger] self.slots[j])@ == before[j],
            decreases n - k,
        {
            self.slots[k].windchill = values[k];
            k += 1;
        }
    }

    /// Writes the wind directions. The value at position `k` of `values` goes to slot `k`.
    /// A slot without a value keeps its own; a value without a slot is dropped.
    pub fn set_wind_directions(&mut self, values: &Vec<String>)
        ensures
            final(self)@.len() == SLOT_COUNT,
            forall|k: int|
                0 <= k < SLOT_COUNT ==> #[trigger] final(self)@[k] == (SlotView {
                    wind_direction: if k < values.len() {
                        values[k]@
                    } else {
                        old(self)@[k].wind_direction
                    },
                    ..old(self)@[k]
                }),
    {
        proof {
            use_type_invariant(&*self);
        }
        let ghost before = self@;
        let n: usize = if values.len() < SLOT_COUNT {
            values.len()
        } else {
            SLOT_COUNT
        };
        let mut k: usize = 0;
        while k < n
            invariant
                k <= n <= SLOT_COUNT,
                n <= values.len(),
                self.slots.len() == SLOT_COUNT,
                before.len() == SLOT_COUNT,
                forall|j: int|
                    0 <= j < k ==> (#[trigger] self.slots[j])@ == (SlotView {
                        wind_direction: values[j]@,
                        ..before[j]
                    }),
                forall|j: int| k <= j < SLOT_COUNT ==> (#[trigger] self.slots[j])@ == before[j],
            decreases n - k,
        {
            self.slots[k].wind_direction = values[k].clone();
            k += 1;
        }
    }

    /// Writes the probabilities of precipitation. The value at position `k` of `values` goes to slot `k`.
    /// A slot without a value keeps its own; a value without a slot is dropped.
    pub fn set_precip_probabilities(&mut self, values: &Vec<u8>)
        ensures
            final(self)@.len() == SLOT_COUNT,
            forall|k: int|
                0 <= k < SLOT_COUNT ==> #[trigger] final(self)@[k] == (SlotView {
                    precip_probability: if k < values.len() {
                        values[k] as nat
                    } else {
                        old(self)@[k].precip_probability
                    },
                    ..old(self)@[k]
                }),
    {
        proof {
            use_type_invariant(&*self);
        }
        let ghost before = self@;
        let n: usize = if values.len() < SLOT_COUNT {
            values.len()
        } else {
            SLOT_COUNT
        };
        let mut k: usize = 0;
        while k < n
            invariant
                k <= n <= SLOT_COUNT,
                n <= values.len(),
                self.slots.len() == SLOT_COUNT,
                before.len() == SLOT_COUNT,
                forall|j: int|
                    0 <= j < k ==> (#[trigger] self.slots[j])@ == (SlotView {
                        precip_probability: values[j] as nat,
                        ..before[j]
                    }),
                forall|j: int| k <= j < SLOT_COUNT ==> (#[trigger] self.slots[j])@ == before[j],
            decreases n - k,
        {
            self.slots[k].precip_probability = values[k];
            k += 1;
        }
    }

    /// Writes the night flags. The value at position `k` of `values` goes to slot `k`.
    /// A slot without a value keeps its own; a value without a slot is dropped.
    pub fn set_night_flags(&mut self, values: &Vec<bool>)
        ensures
            final(self)@.len() == SLOT_COUNT,
            forall|k: int|
                0 <= k < SLOT_COUNT ==> #[trigger] final(self)@[k] == (SlotView {
                    is_night: if k < values.len() {
                        values[k]
                    } else {
                        old(self)@[k].is_night
                    },
                    ..old(self)@[k]
                }),
    {
        proof {
            use_type_invariant(&*self);
        }
        let ghost before = self@;
        let n: usize = if values.len() < SLOT_COUNT {
            values.len()
        } else {
            SLOT_COUNT
        };
        let mut k: usize = 0;
        while k < n
            invariant
                k <= n <= SLOT_COUNT,
                n <= values.len(),
                self.slots.len() == SLOT_COUNT,
                before.len() == SLOT_COUNT,
                forall|j: int|
                    0 <= j < k ==> (#[trigger] self.slots[j])@ == (SlotView {
                        is_night: values[j],
                        ..before[j]
                    }),
                forall|j: int| k <= j < SLOT_COUNT ==> (#[trigger] self.slots[j])@ == before[j],
            decreases n - k,
        {
            self.slots[k].is_night = values[k];
            k += 1;
        }
    }

    /// Writes the sustained wind speeds. The value at position `k` of `values` goes to slot `k`.
    /// A slot without a value keeps its own; a value without a slot is dropped.
    pub fn set_wind_speeds(&mut self, values: &Vec<u8>)
        ensures
            final(self)@.len() == SLOT_COUNT,
            forall|k: int|
                0 <= k < SLOT_COUNT ==> #[trigger] final(self)@[k] == (SlotView {
                    wind_speed: if k < values.len() {
                        (values[k] as nat, old(self)@[k].wind_speed.1)
                    } else {
                        old(self)@[k].wind_speed
                    },
                    ..old(self)@[k]
                }),
    {
        proof {
            use_type_invariant(&*self);
        }
        let ghost before = self@;
        let n: usize = if values.len() < SLOT_COUNT {
            values.len()
        } else {
            SLOT_COUNT
        };
        let mut k: usize = 0;
        while k < n
            invariant
                k <= n <= SLOT_COUNT,
                n <= values.len(),
                self.slots.len() == SLOT_COUNT,
                before.len() == SLOT_COUNT,
                forall|j: int|
                    0 <= j < k ==> (#[trigger] self.slots[j])@ == (SlotView {
                        wind_speed: (values[j] as nat, before[j].wind_speed.1),
                        ..before[j]
                    }),
                forall|j: int| k <= j < SLOT_COUNT ==> (#[trigger] self.slots[j])@ == before[j],
            decreases n - k,
        {
            self.slots[k].wind_speed.0 = values[k];
            k += 1;
        }
    }

    /// Writes the gust speeds. The value at position `k` of `values` goes to slot `k`.
    /// A slot without a value keeps its own; a value without a slot is dropped.
    pub fn set_wind_gusts(&mut self, values: &Vec<u8>)
        ensures
            final(self)@.len() == SLOT_COUNT,
            forall|k: int|
                0 <= k < SLOT_COUNT ==> #[trigger] final(self)@[k] == (SlotView {
                    wind_speed: if k < values.len() {
                        (old(self)@[k].wind_speed.0, values[k] as nat)
                    } else {
                        old(self)@[k].wind_speed
                    },
                    ..old(self)@[k]
                }),
    {
        proof {
            use_type_invariant(&*self);
        }
        let ghost before = self@;
        let n: usize = if values.len() < SLOT_COUNT {
            values.len()
        } else {
            SLOT_COUNT
        };
        let mut k: usize = 0;
        while k < n
            invariant
                k <= n <= SLOT_COUNT,
                n <= values.len(),
                self.slots.len() == SLOT_COUNT,
                before.len() == SLOT_COUNT,
                forall|j: int|
                    0 <= j < k ==> (#[trigger] self.slots[j])@ == (SlotView {
                        wind_speed: (before[j].wind_speed.0, values[j] as nat),
                        ..before[j]
                    }),
                forall|j: int| k <= j < SLOT_COUNT ==> (#[trigger] self.slots[j])@ == before[j],
            decreases n - k,
        {
            self.slots[k].wind_speed.1 = values[k];
            k += 1;
        }
    }

    /// Writes the amounts of precipitation. The value at position `k` of
    /// `values` goes to slot `k`, where it is an amount: a slot whose value is
    /// `None` keeps its own, as does a slot without a value. A value without a
    /// slot is dropped.
    pub fn set_precip_amounts(&mut self, values: &Vec<Option<String>>)
        ensures
            final(self)@.len() == SLOT_COUNT,
            forall|k: int|
                0 <= k < SLOT_COUNT ==> #[trigger] final(self)@[k] == (SlotView {
                    precip_amount: if k < values.len() && values[k] is Some {
                        values[k].deep_view()
                    } else {
                        old(self)@[k].precip_amount
                    },
                    ..old(self)@[k]
                }),
    {
        proof {
            use_type_invariant(&*self);
        }
        let ghost before = self@;
        let n: usize = if values.len() < SLOT_COUNT {
            values.len()
        } else {
            SLOT_COUNT
        };
        let mut k: usize = 0;
        while k < n
            invariant
                k <= n <= SLOT_COUNT,
                n <= values.len(),
                self.slots.len() == SLOT_COUNT,
                before.len() == SLOT_COUNT,
                forall|j: int|
                    0 <= j < k ==> (#[trigger] self.slots[j])@ == (SlotView {
                        precip_amount: if values[j] is Some {
                            values[j].deep_view()
                        } else {
                            before[j].precip_amount
                        },
                        ..before[j]
                    }),
                forall|j: int| k <= j < SLOT_COUNT ==> (#[trigger] self.slots[j])@ == before[j],
            decreases n - k,
        {
            match &values[k] {
                Some(amount) => {
                    self.slots[k].precip_amount = Some(amount.clone());
                },
                None => {},
            }
            k += 1;
        }
    }
}

} // verus!
