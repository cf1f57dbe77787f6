//! Sensor readings and temperature validation.
//!
//! Temperatures are carried as signed tenths of a degree Celsius so that the
//! plausibility check and all comparisons are exact integer arithmetic.

use vstd::prelude::*;

verus! {

/// Lowest plausible sensor reading, in tenths of a degree Celsius.
pub const MIN_PLAUSIBLE_DECI_CELSIUS: i64 = -300;

/// Highest plausible sensor reading, in tenths of a degree Celsius.
pub const MAX_PLAUSIBLE_DECI_CELSIUS: i64 = 2000;

/// A reading is plausible only inside the fixed physical range.
pub open spec fn temp_in_range(t: i64) -> bool {
    MIN_PLAUSIBLE_DECI_CELSIUS <= t <= MAX_PLAUSIBLE_DECI_CELSIUS
}

/// What normalization returns: the reading itself when plausible, absent otherwise.
pub open spec fn spec_normalize(value: Option<i64>) -> Option<i64> {
    match value {
        Some(t) => if temp_in_range(t) {
            Some(t)
        } else {
            None
        },
        None => None,
    }
}

/// Discards readings outside the plausible physical range (never clamps).
pub fn normalize_temperature(value: Option<i64>) -> (r: Option<i64>)
    ensures
        r == spec_normalize(value),
{
    match value {
        Some(t) => {
            if MIN_PLAUSIBLE_DECI_CELSIUS <= t && t <= MAX_PLAUSIBLE_DECI_CELSIUS {
                Some(t)
            } else {
                None
            }
        },
        None => None,
    }
}

/// One labeled temperature reading reported by the platform's sensor facility.
pub struct SensorReading {
    /// The sensor's reported label, as raw bytes.
    pub label: Vec<u8>,
    /// The reading, in tenths of a degree Celsius.
    pub temperature: i64,
}

/// ASCII lower-casing of a single byte.
pub open spec fn lower_byte(b: u8) -> u8 {
    if 65 <= b <= 90 {
        (b + 32) as u8
    } else {
        b
    }
}

/// The keyword occurs in the label once the label is ASCII-lowercased,
/// starting at offset `k`.
pub open spec fn keyword_match_at(label: Seq<u8>, keyword: Seq<u8>, k: int) -> bool {
    &&& 0 <= k
    &&& k + keyword.len() <= label.len()
    &&& forall|j: int| 0 <= j < keyword.len() ==> lower_byte(label[k + j]) == keyword[j]
}

/// The keyword occurs somewhere in the ASCII-lowercased label.
pub open spec fn label_contains_keyword(label: Seq<u8>, keyword: Seq<u8>) -> bool {
    exists|k: int| keyword_match_at(label, keyword, k)
}

/// Some keyword of the list occurs in the ASCII-lowercased label.
pub open spec fn label_matches(label: Seq<u8>, keywords: Seq<Seq<u8>>) -> bool {
    exists|i: int| 0 <= i < keywords.len() && label_contains_keyword(label, keywords[i])
}

/// The views of a list of byte keywords.
pub open spec fn keyword_views(keywords: Seq<Vec<u8>>) -> Seq<Seq<u8>> {
    keywords.map_values(|k: Vec<u8>| k@)
}

/// The maximum temperature among the readings whose label matches one of the
/// keywords; absent when none matches.
pub open spec fn spec_find_temperature(readings: Seq<SensorReading>, keywords: Seq<Seq<u8>>) -> Option<i64>
    decreases readings.len(),
{
    if readings.len() == 0 {
        None
    } else {
        let rest = spec_find_temperature(readings.drop_last(), keywords);
        let last = readings.last();
        if label_matches(last.label@, keywords) {
            match rest {
                Some(best) => if last.temperature > best {
                    Some(last.temperature)
                } else {
                    Some(best)
                },
                None => Some(last.temperature),
            }
        } else {
            rest
        }
    }
}

/// What the sensor scan returns is exactly the maximum over the readings
/// whose label matches: absent exactly when no label matches, and otherwise
/// the temperature of some matching reading that no matching reading
/// exceeds.
pub proof fn lemma_find_temperature_is_max(readings: Seq<SensorReading>, keywords: Seq<Seq<u8>>)
    ensures
        (spec_find_temperature(readings, keywords) is None) == (forall|i: int|
            0 <= i < readings.len() ==> !label_matches(readings[i].label@, keywords)),
        spec_find_temperature(readings, keywords) matches Some(t) ==> (exists|i: int|
            0 <= i < readings.len() && label_matches(readings[i].label@, keywords)
                && readings[i].temperature == t),
        spec_find_temperature(readings, keywords) matches Some(t) ==> (forall|i: int|
            0 <= i < readings.len() && label_matches(readings[i].label@, keywords)
                ==> readings[i].temperature <= t),
    decreases readings.len(),
{
    if readings.len() > 0 {
        lemma_find_temperature_is_max(readings.drop_last(), keywords);
        assert(forall|i: int|
            0 <= i < readings.len() - 1 ==> readings.drop_last()[i] == readings[i]);
        if let Some(t) = spec_find_temperature(readings, keywords) {
            let rest = spec_find_temperature(readings.drop_last(), keywords);
            if label_matches(readings.last().label@, keywords) {
                match rest {
                    Some(b) => {
                        let wit = choose|i: int|
                            0 <= i < readings.len() - 1 && label_matches(
                                readings.drop_last()[i].label@,
                                keywords,
                            ) && readings.drop_last()[i].temperature == b;
                        if readings.last().temperature > b {
                            assert(readings[readings.len() - 1].temperature == t);
                        } else {
                            assert(readings[wit].temperature == t);
                        }
                    },
                    None => {
                        assert(readings[readings.len() - 1].temperature == t);
                    },
                }
            } else {
                let b = rest->0;
                let wit = choose|i: int|
                    0 <= i < readings.len() - 1 && label_matches(
                        readings.drop_last()[i].label@,
                        keywords,
                    ) && readings.drop_last()[i].temperature == b;
                assert(readings[wit].temperature == t);
            }
        }
    }
}

/// Whether the keyword occurs in the ASCII-lowercased label.
fn contains_keyword(label: &Vec<u8>, keyword: &Vec<u8>) -> (r: bool)
    ensures
        r == label_contains_keyword(label@, keyword@),
{
    if keyword.len() > label.len() {
        assert(forall|k: int| !keyword_match_at(label@, keyword@, k));
        return false;
    }
    let mut k: usize = 0;
    while k <= label.len() - keyword.len()
        invariant
            keyword.len() <= label.len(),
            k <= label.len() - keyword.len() + 1,
            forall|k0: int| 0 <= k0 < k ==> !keyword_match_at(label@, keyword@, k0),
        decreases label.len() - keyword.len() + 1 - k,
    {
        let mut j: usize = 0;
        let mut all: bool = true;
        while j < keyword.len()
            invariant
                all ==> forall|j0: int| 0 <= j0 < j ==> lower_byte(label@[k + j0]) == keyword@[j0],
                !all ==> !keyword_match_at(label@, keyword@, k as int),
                j <= keyword.len(),
                k + keyword.len() <= label.len(),
            decreases keyword.len() - j,
        {
            let b = label[k + j];
            let low: u8 = if 65 <= b && b <= 90 {
                b + 32
            } else {
                b
            };
            if low != keyword[j] {
                all = false;
            }
            j += 1;
        }
        if all {
            assert(keyword_match_at(label@, keyword@, k as int));
            return true;
        }
        k += 1;
    }
    assert(forall|k0: int| !keyword_match_at(label@, keyword@, k0));
    false
}

/// Whether some keyword of the list matches the label.
fn matches_any(label: &Vec<u8>, keywords: &Vec<Vec<u8>>) -> (r: bool)
    ensures
        r == label_matches(label@, keyword_views(keywords@)),
{
    let mut i: usize = 0;
    while i < keywords.len()
        invariant
            i <= keywords.len(),
            forall|i0: int| 0 <= i0 < i ==> !label_contains_keyword(
                label@,
                keyword_views(keywords@)[i0],
            ),
        decreases keywords.len() - i,
    {
        if contains_keyword(label, &keywords[i]) {
            assert(label_contains_keyword(label@, keyword_views(keywords@)[i as int]));
            return true;
        }
        i += 1;
    }
    false
}

/// The maximum of a list of readings; absent when the list is empty.
pub open spec fn spec_best_reading(readings: Seq<i64>) -> Option<i64>
    decreases readings.len(),
{
    if readings.len() == 0 {
        None
    } else {
        match spec_best_reading(readings.drop_last()) {
            Some(best) => if readings.last() > best {
                Some(readings.last())
            } else {
                Some(best)
            },
            None => Some(readings.last()),
        }
    }
}

/// Picks the maximum reading across duplicate sensors of one domain, as the
/// vendor-interface queries do when several devices report.
pub fn best_reading(readings: &Vec<i64>) -> (r: Option<i64>)
    ensures
        r == spec_best_reading(readings@),
{
    let mut best: Option<i64> = None;
    let mut i: usize = 0;
    while i < readings.len()
        invariant
            i <= readings.len(),
            best == spec_best_reading(readings@.take(i as int)),
        decreases readings.len() - i,
    {
        assert(readings@.take(i + 1).drop_last() =~= readings@.take(i as int));
        best = match best {
            Some(b) => {
                if readings[i] > b {
                    Some(readings[i])
                } else {
                    Some(b)
                }
            },
            None => Some(readings[i]),
        };
        i += 1;
    }
    assert(readings@.take(readings.len() as int) =~= readings@);
    best
}

/// Scans the readings for labels matching one of the keywords and returns the
/// maximum matching temperature, or absent when no label matches.
pub fn find_temperature(readings: &Vec<SensorReading>, keywords: &Vec<Vec<u8>>) -> (r: Option<i64>)
    ensures
        r == spec_find_temperature(readings@, keyword_views(keywords@)),
{
    let mut best: Option<i64> = None;
    let mut i: usize = 0;
    while i < readings.len()
        invariant
            i <= readings.len(),
            best == spec_find_temperature(readings@.take(i as int), keyword_views(keywords@)),
        decreases readings.len() - i,
    {
        let reading = &readings[i];
        assert(readings@.take(i + 1).drop_last() =~= readings@.take(i as int));
        assert(readings@.take(i + 1).last() == readings@[i as int]);
        if matches_any(&reading.label, keywords) {
            best = match best {
                Some(current) => {
                    if reading.temperature > current {
                        Some(reading.temperature)
                    } else {
                        Some(current)
                    }
                },
                None => Some(reading.temperature),
            };
        }
        i += 1;
    }
    assert(readings@.take(readings.len() as int) =~= readings@);
    best
}

} // verus!
