//! Device-facing decision logic: discovery deduplication, the hardware-code
//! table, picture identifiers, and the pure parts of the draw commands.

use vstd::prelude::*;

use crate::models::{DivoomDevice, TextConfig};

verus! {

/// The view of an optional string.
pub open spec fn opt_str_view(o: Option<String>) -> Option<Seq<char>> {
    match o {
        Some(s) => Some(s@),
        None => None,
    }
}

/// Whether two optional strings hold the same text.
fn opt_str_eq(a: &Option<String>, b: &Option<String>) -> (r: bool)
    ensures
        r == (opt_str_view(*a) == opt_str_view(*b)),
{
    match (a, b) {
        (Some(x), Some(y)) => *x == *y,
        (None, None) => true,
        _ => false,
    }
}

/// A device duplicates an already-kept one when it has an address — network
/// or hardware — that a kept device shows too.
pub open spec fn duplicate_pair(kept: DivoomDevice, d: DivoomDevice) -> bool {
    ||| (d.ip_address is Some && opt_str_view(kept.ip_address) == opt_str_view(d.ip_address))
    ||| (d.mac_address is Some && opt_str_view(kept.mac_address) == opt_str_view(d.mac_address))
}

/// The device duplicates some kept device.
pub open spec fn is_dup(d: DivoomDevice, kept: Seq<DivoomDevice>) -> bool {
    exists|i: int| 0 <= i < kept.len() && duplicate_pair(kept[i], d)
}

/// Walks the devices in order, keeping each one that duplicates none kept
/// before it.
pub open spec fn spec_dedup_from(
    devs: Seq<DivoomDevice>,
    i: int,
    kept: Seq<DivoomDevice>,
) -> Seq<DivoomDevice>
    decreases devs.len() - i,
    when 0 <= i <= devs.len()
{
    if i >= devs.len() {
        kept
    } else if is_dup(devs[i], kept) {
        spec_dedup_from(devs, i + 1, kept)
    } else {
        spec_dedup_from(devs, i + 1, kept.push(devs[i]))
    }
}

/// The discovered devices with duplicates removed, first sighting kept.
pub open spec fn spec_dedup(devs: Seq<DivoomDevice>) -> Seq<DivoomDevice> {
    spec_dedup_from(devs, 0, Seq::empty())
}

/// A kept list is duplicate-free: no entry duplicates an earlier entry.
pub open spec fn dup_free(kept: Seq<DivoomDevice>) -> bool {
    forall|j: int| 0 <= j < kept.len() ==> !is_dup(kept[j], kept.take(j))
}

proof fn lemma_dedup_from_dup_free(devs: Seq<DivoomDevice>, i: int, kept: Seq<DivoomDevice>)
    requires
        0 <= i <= devs.len(),
        dup_free(kept),
    ensures
        dup_free(spec_dedup_from(devs, i, kept)),
    decreases devs.len() - i,
{
    if i < devs.len() {
        if is_dup(devs[i], kept) {
            lemma_dedup_from_dup_free(devs, i + 1, kept);
        } else {
            let kept2 = kept.push(devs[i]);
            assert(dup_free(kept2)) by {
                assert forall|j: int| 0 <= j < kept2.len() implies !is_dup(
                    kept2[j],
                    kept2.take(j),
                ) by {
                    assert(kept2.take(j) =~= kept.take(j));
                    if j < kept.len() {
                        assert(kept2[j] == kept[j]);
                    } else {
                        assert(kept2.take(j) =~= kept);
                    }
                };
            };
            lemma_dedup_from_dup_free(devs, i + 1, kept2);
        }
    }
}

/// What deduplication promises: in the kept list, no device duplicates —
/// shares a shown network or hardware address with — any device kept before
/// it.
pub proof fn lemma_dedup_no_duplicates(devs: Seq<DivoomDevice>)
    ensures
        dup_free(spec_dedup(devs)),
{
    assert(dup_free(Seq::<DivoomDevice>::empty()));
    lemma_dedup_from_dup_free(devs, 0, Seq::empty());
}

/// Whether the device duplicates one of the kept devices.
fn is_duplicate(kept: &Vec<DivoomDevice>, d: &DivoomDevice) -> (r: bool)
    ensures
        r == is_dup(*d, kept@),
{
    let mut i: usize = 0;
    while i < kept.len()
        invariant
            i <= kept.len(),
            forall|j: int| 0 <= j < i ==> !duplicate_pair(kept@[j], *d),
        decreases kept.len() - i,
    {
        let k = &kept[i];
        let ip_hit = d.ip_address.is_some() && opt_str_eq(&k.ip_address, &d.ip_address);
        let mac_hit = d.mac_address.is_some() && opt_str_eq(&k.mac_address, &d.mac_address);
        if ip_hit || mac_hit {
            assert(duplicate_pair(kept@[i as int], *d));
            return true;
        }
        i += 1;
    }
    false
}

/// Removes duplicate discoveries: a device is dropped when an earlier kept
/// one already shows its network or hardware address.
#[verifier::loop_isolation(false)]
pub fn dedup_devices(devices: Vec<DivoomDevice>) -> (r: Vec<DivoomDevice>)
    ensures
        r@ == spec_dedup(devices@),
{
    let ghost orig = devices@;
    let mut rest = devices;
    let mut out: Vec<DivoomDevice> = Vec::new();
    let ghost p: int = 0;
    loop
        invariant
            0 <= p <= orig.len(),
            rest@ =~= orig.subrange(p, orig.len() as int),
            spec_dedup_from(orig, 0, Seq::empty()) == spec_dedup_from(orig, p, out@),
        decreases orig.len() - p,
    {
        if rest.len() == 0 {
            return out;
        }
        let d = rest.remove(0);
        assert(d == orig[p]);
        if !is_duplicate(&out, &d) {
            out.push(d);
        }
        proof {
            p = p + 1;
        }
        assert(rest@ =~= orig.subrange(p, orig.len() as int));
    }
}

/// The marketing name for a hardware model code.
pub open spec fn spec_device_type(hardware: u64) -> Seq<char> {
    if hardware == 400 {
        "Times Gate"@
    } else if hardware == 401 {
        "Pixoo 64"@
    } else if hardware == 402 {
        "Pixoo 32"@
    } else if hardware == 403 {
        "Pixoo 16"@
    } else if hardware == 404 {
        "Ditoo"@
    } else if hardware == 405 {
        "Ditoo Plus"@
    } else if hardware == 406 {
        "Ditoo Pro"@
    } else if hardware == 407 {
        "Pixoo Max"@
    } else if hardware == 408 {
        "Pixoo Mini"@
    } else {
        "Unknown Divoom Device"@
    }
}

/// Maps a hardware model code to its marketing name.
pub fn device_type_for_hardware(hardware: u64) -> (r: &'static str)
    ensures
        r@ == spec_device_type(hardware),
{
    if hardware == 400 {
        "Times Gate"
    } else if hardware == 401 {
        "Pixoo 64"
    } else if hardware == 402 {
        "Pixoo 32"
    } else if hardware == 403 {
        "Pixoo 16"
    } else if hardware == 404 {
        "Ditoo"
    } else if hardware == 405 {
        "Ditoo Plus"
    } else if hardware == 406 {
        "Ditoo Pro"
    } else if hardware == 407 {
        "Pixoo Max"
    } else if hardware == 408 {
        "Pixoo Mini"
    } else {
        "Unknown Divoom Device"
    }
}

/// The screen-selection array sent with a picture upload: one slot per
/// panel, a single one at the chosen panel, zeros elsewhere (and all zeros
/// for an out-of-range panel index).
pub fn lcd_array(screen_index: u32) -> (r: Vec<u8>)
    ensures
        r@.len() == 5,
        forall|k: int|
            0 <= k < 5 ==> r@[k] == (if screen_index < 5 && k == screen_index as int {
                1u8
            } else {
                0u8
            }),
{
    let mut r: Vec<u8> = Vec::new();
    let mut k: u32 = 0;
    while k < 5
        invariant
            k <= 5,
            r@.len() == k,
            forall|j: int|
                0 <= j < k ==> r@[j] == (if screen_index < 5 && j == screen_index as int {
                    1u8
                } else {
                    0u8
                }),
        decreases 5 - k,
    {
        if screen_index < 5 && k == screen_index {
            r.push(1);
        } else {
            r.push(0);
        }
        k += 1;
    }
    r
}

/// The defaulted drawing parameters of a text element: its color (white
/// when unset), font, alignment, and text width.
pub fn resolved_text_settings(cfg: &TextConfig) -> (r: (String, u8, u8, u8))
    ensures
        r.0@ == match cfg.color {
            Some(c) => c@,
            None => "255,255,255"@,
        },
        r.1 == match cfg.font {
            Some(f) => f,
            None => 7u8,
        },
        r.2 == match cfg.alignment {
            Some(a) => a,
            None => 0u8,
        },
        r.3 == match cfg.text_width {
            Some(w) => w,
            None => 64u8,
        },
{
    let color: String = match &cfg.color {
        Some(c) => c.clone(),
        None => "255,255,255".to_owned(),
    };
    let font: u8 = match cfg.font {
        Some(f) => f,
        None => 7,
    };
    let alignment: u8 = match cfg.alignment {
        Some(a) => a,
        None => 0,
    };
    let text_width: u8 = match cfg.text_width {
        Some(w) => w,
        None => 64,
    };
    (color, font, alignment, text_width)
}

/// A counter handing out unique picture identifiers, starting at 1000.
pub struct PicIdCounter {
    /// The next identifier to hand out.
    pub value: u32,
}

impl PicIdCounter {
    /// A fresh counter.
    pub fn new() -> (c: PicIdCounter)
        ensures
            c.value == 1000,
    {
        PicIdCounter { value: 1000 }
    }
}

/// Hands out the next picture identifier and advances the counter, wrapping
/// at the type's limit.
pub fn get_next_pic_id(counter: &mut PicIdCounter) -> (r: u32)
    ensures
        r == old(counter).value,
        final(counter).value == old(counter).value.wrapping_add(1),
{
    let v = counter.value;
    counter.value = v.wrapping_add(1);
    v
}

} // verus!
