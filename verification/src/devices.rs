//! Input-device listing: which enumerated capture devices are offered to the
//! user.
//!
//! Device enumeration is an outside concern; it hands the device names here,
//! in enumeration order, and low-level backend entries are filtered out by
//! name so that only usable endpoints remain.  A kept device carries its
//! position in the unfiltered enumeration, since that is what device
//! selection consumes.

use vstd::prelude::*;
use crate::text::{lower_char, lower_char_exec};

verus! {

/// One selectable capture device.
#[derive(Debug)]
pub struct AudioDevice {
    /// Ordinal position in the unfiltered device enumeration.
    pub index: usize,
    /// The device's reported name.
    pub name: String,
}

impl Clone for AudioDevice {
    /// Field-for-field copy.
    fn clone(&self) -> (r: Self)
        ensures
            r == self,
    {
        AudioDevice { index: self.index, name: self.name.clone() }
    }
}

/// `s` begins with `p`, compared ASCII-case-insensitively against the
/// lowercase pattern `p`.
pub open spec fn starts_with_ci(s: Seq<char>, p: Seq<char>) -> bool {
    p.len() <= s.len() && forall|k: int| 0 <= k < p.len() ==> lower_char(#[trigger] s[k]) == p[k]
}

/// Case-insensitive prefix test against a lowercase pattern.
fn has_prefix_ci(name: &str, prefix: &str) -> (r: bool)
    ensures
        r == starts_with_ci(name@, prefix@),
{
    let n = name.unicode_len();
    let m = prefix.unicode_len();
    if m > n {
        return false;
    }
    let mut k: usize = 0;
    while k < m
        invariant
            n == name@.len(),
            m == prefix@.len(),
            m <= n,
            0 <= k <= m,
            forall|j: int| 0 <= j < k ==> lower_char(#[trigger] name@[j]) == prefix@[j],
        decreases m - k,
    {
        if lower_char_exec(name.get_char(k)) != prefix.get_char(k) {
            return false;
        }
        k = k + 1;
    }
    true
}

/// Whether a device name names a low-level backend entry that clutters the
/// list rather than a usable endpoint.
pub open spec fn is_excluded_name(s: Seq<char>) -> bool {
    ||| starts_with_ci(s, "hw:"@)
    ||| starts_with_ci(s, "plughw:"@)
    ||| starts_with_ci(s, "sysdefault:"@)
    ||| starts_with_ci(s, "front:"@)
    ||| starts_with_ci(s, "rear:"@)
    ||| starts_with_ci(s, "center_lfe:"@)
    ||| starts_with_ci(s, "side:"@)
    ||| starts_with_ci(s, "surround"@)
    ||| starts_with_ci(s, "iec958:"@)
    ||| starts_with_ci(s, "spdif:"@)
    ||| starts_with_ci(s, "hdmi:"@)
    ||| starts_with_ci(s, "dmix:"@)
    ||| starts_with_ci(s, "dsnoop:"@)
    ||| starts_with_ci(s, "null"@)
}

/// Whether a device name is filtered out of the list.
pub fn is_excluded_device_name(name: &str) -> (r: bool)
    ensures
        r == is_excluded_name(name@),
{
    has_prefix_ci(name, "hw:") || has_prefix_ci(name, "plughw:") || has_prefix_ci(
        name,
        "sysdefault:",
    ) || has_prefix_ci(name, "front:") || has_prefix_ci(name, "rear:") || has_prefix_ci(
        name,
        "center_lfe:",
    ) || has_prefix_ci(name, "side:") || has_prefix_ci(name, "surround") || has_prefix_ci(
        name,
        "iec958:",
    ) || has_prefix_ci(name, "spdif:") || has_prefix_ci(name, "hdmi:") || has_prefix_ci(
        name,
        "dmix:",
    ) || has_prefix_ci(name, "dsnoop:") || has_prefix_ci(name, "null")
}

/// The devices kept from position `i` of the enumeration on.
pub open spec fn usable_from(names: Seq<String>, i: int) -> Seq<AudioDevice>
    decreases names.len() - i,
{
    if i < 0 || i >= names.len() {
        Seq::empty()
    } else {
        let rest = usable_from(names, i + 1);
        if is_excluded_name(names[i]@) {
            rest
        } else {
            seq![AudioDevice { index: i as usize, name: names[i] }] + rest
        }
    }
}

/// The devices kept from the whole enumeration.
pub open spec fn usable_devices_spec(names: Seq<String>) -> Seq<AudioDevice> {
    usable_from(names, 0)
}

/// Filter an enumeration of capture-device names down to the usable
/// devices, each keeping its enumeration index.
pub fn usable_input_devices(names: &Vec<String>) -> (r: Vec<AudioDevice>)
    ensures
        r@ == usable_devices_spec(names@),
{
    let mut out: Vec<AudioDevice> = Vec::new();
    let mut i: usize = 0;
    while i < names.len()
        invariant
            0 <= i <= names@.len(),
            usable_devices_spec(names@) == out@ + usable_from(names@, i as int),
        decreases names@.len() - i,
    {
        let ghost pre = out@;
        if !is_excluded_device_name(names[i].as_str()) {
            out.push(AudioDevice { index: i, name: names[i].clone() });
            proof {
                assert(out@ =~= pre + seq![
                    AudioDevice { index: i, name: names@[i as int] },
                ]);
                assert(pre + (seq![AudioDevice { index: i, name: names@[i as int] }]
                    + usable_from(names@, i as int + 1)) =~= out@ + usable_from(
                    names@,
                    i as int + 1,
                ));
            }
        }
        i = i + 1;
    }
    proof {
        assert(out@ + Seq::<AudioDevice>::empty() =~= out@);
    }
    out
}

} // verus!
