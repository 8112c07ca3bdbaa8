//! The cast devices that were found on the network.

use crate::library::catalog::pick;
use crate::library::order::{
    key_view, keys_view, picked, sort_order, sorted_indices, sorting_is_stable, text_part,
    text_part_of,
};
use crate::protocol::{views, CastDeviceInfo, DeviceView};
use crate::text::{
    append, blank, chars_occur_at, chars_of, copy_range, decimal, decimal_text, is_blank,
    option_text, string_of, text_equal, texts, trim, trim_chars, trim_text,
};
use vstd::prelude::*;

verus! {

/// A text in small letters, also outside ASCII.
pub uninterp spec fn unicode_lower(text: Seq<char>) -> Seq<char>;

/// Calls `str::to_lowercase`, which maps each character as Unicode says. The result depends on
/// the text alone, and is named.
#[verifier::external_body]
fn unicode_lower_of(text: &str) -> (r: String)
    ensures
        r@ == unicode_lower(text@),
{
    text.to_lowercase()
}

/// What a device tells about itself on the network.
#[derive(Debug, PartialEq, Eq)]
pub struct CastService {
    /// The addresses of the device, each as the number that its four bytes make.
    pub addresses: Vec<u32>,
    pub hostname: String,
    pub fullname: String,
    pub port: u16,
    pub friendly_name: Option<String>,
    pub model: Option<String>,
    pub id: Option<String>,
}

/// A text without the dots behind it.
pub open spec fn drop_end_dots(s: Seq<char>) -> Seq<char>
    decreases s.len(),
{
    if s.len() > 0 && s.last() == '.' {
        drop_end_dots(s.drop_last())
    } else {
        s
    }
}

/// A text without the dots in front of it.
pub open spec fn drop_front_dots(s: Seq<char>) -> Seq<char>
    decreases s.len(),
{
    if s.len() > 0 && s[0] == '.' {
        drop_front_dots(s.skip(1))
    } else {
        s
    }
}

/// A text without the dots around it.
pub open spec fn drop_dots(s: Seq<char>) -> Seq<char> {
    drop_end_dots(drop_front_dots(s))
}

fn without_end_dots(v: &Vec<char>) -> (r: Vec<char>)
    ensures
        r@ == drop_end_dots(v@),
{
    let mut to: usize = v.len();
    assert(v@.take(to as int) =~= v@);
    while to > 0 && v[to - 1] == '.'
        invariant
            to <= v.len(),
            drop_end_dots(v@.take(to as int)) == drop_end_dots(v@),
        decreases to,
    {
        assert(v@.take(to as int).drop_last() =~= v@.take(to - 1));
        to -= 1;
    }
    assert(v@.subrange(0, to as int) =~= v@.take(to as int));
    copy_range(v, 0, to)
}

fn without_front_dots(v: &Vec<char>) -> (r: Vec<char>)
    ensures
        r@ == drop_front_dots(v@),
{
    let mut from: usize = 0;
    assert(v@.skip(0) =~= v@);
    while from < v.len() && v[from] == '.'
        invariant
            from <= v.len(),
            drop_front_dots(v@.skip(from as int)) == drop_front_dots(v@),
        decreases v.len() - from,
    {
        assert(v@.skip(from as int).skip(1) =~= v@.skip(from + 1));
        from += 1;
    }
    assert(v@.subrange(from as int, v@.len() as int) =~= v@.skip(from as int));
    copy_range(v, from, v.len())
}

/// What follows the name of a device in its full name.
pub const CAST_NAME_SUFFIX: &'static str = "._googlecast._tcp.local.";

pub open spec fn has_suffix(s: Seq<char>, suffix: Seq<char>) -> bool {
    s.len() >= suffix.len() && s.skip(s.len() - suffix.len()) == suffix
}

/// The name of a device, from its full name.
pub open spec fn instance_name(fullname: Seq<char>) -> Seq<char> {
    let t = trim(fullname);
    let suffix = CAST_NAME_SUFFIX@;
    if has_suffix(t, suffix) && !blank(t.take(t.len() - suffix.len())) {
        drop_dots(trim(t.take(t.len() - suffix.len())))
    } else {
        drop_dots(fullname)
    }
}

/// The name of a device, from its full name.
pub fn cast_instance_name_from_fullname(fullname: &str) -> (r: String)
    ensures
        r@ == instance_name(fullname@),
{
    let t = trim_chars(&chars_of(fullname));
    let suffix = chars_of(CAST_NAME_SUFFIX);
    if t.len() >= suffix.len() {
        let n: usize = t.len() - suffix.len();
        let found = chars_occur_at(&t, &suffix, n);
        proof {
            assert(t@.subrange(n as int, t@.len() as int) =~= t@.skip(n as int));
            assert(found == has_suffix(t@, suffix@));
        }
        if found {
            let front = trim_chars(&copy_range(&t, 0, n));
            assert(t@.subrange(0, n as int) =~= t@.take(n as int));
            if front.len() > 0 {
                return string_of(&without_end_dots(&without_front_dots(&front)));
            }
        }
    }
    string_of(&without_end_dots(&without_front_dots(&chars_of(fullname))))
}

/// An address as four numbers with dots between them.
pub open spec fn dotted(address: nat) -> Seq<char> {
    decimal(address / 0x100_0000 % 0x100) + "."@ + decimal(address / 0x1_0000 % 0x100) + "."@
        + decimal(address / 0x100 % 0x100) + "."@ + decimal(address % 0x100)
}

fn dotted_text(address: u32) -> (r: String)
    ensures
        r@ == dotted(address as nat),
{
    let a: u64 = address as u64;
    let mut out = decimal_text(a / 0x100_0000 % 0x100);
    append(&mut out, ".");
    append(&mut out, decimal_text(a / 0x1_0000 % 0x100).as_str());
    append(&mut out, ".");
    append(&mut out, decimal_text(a / 0x100 % 0x100).as_str());
    append(&mut out, ".");
    append(&mut out, decimal_text(a % 0x100).as_str());
    out
}

/// The least of a list of numbers.
pub open spec fn least(numbers: Seq<u32>) -> Option<u32>
    decreases numbers.len(),
{
    if numbers.len() == 0 {
        None
    } else {
        match least(numbers.drop_last()) {
            Some(n) => if numbers.last() < n {
                Some(numbers.last())
            } else {
                Some(n)
            },
            None => Some(numbers.last()),
        }
    }
}

fn least_of(numbers: &Vec<u32>) -> (r: Option<u32>)
    ensures
        r == least(numbers@),
{
    let mut found: Option<u32> = None;
    let mut i: usize = 0;
    assert(numbers@.take(0) =~= Seq::empty());
    while i < numbers.len()
        invariant
            i <= numbers.len(),
            found == least(numbers@.take(i as int)),
        decreases numbers.len() - i,
    {
        assert(numbers@.take(i + 1).drop_last() =~= numbers@.take(i as int));
        assert(numbers@.take(i + 1).last() == numbers@[i as int]);
        found = match found {
            Some(n) => if numbers[i] < n {
                Some(numbers[i])
            } else {
                Some(n)
            },
            None => Some(numbers[i]),
        };
        i += 1;
    }
    assert(numbers@.take(i as int) =~= numbers@);
    found
}

/// A text without white space around it; none where nothing is left of it.
pub open spec fn tidy(value: Option<Seq<char>>) -> Option<Seq<char>> {
    match value {
        Some(text) => if blank(text) {
            None
        } else {
            Some(trim(text))
        },
        None => None,
    }
}

fn tidy_text(value: &Option<String>) -> (r: Option<String>)
    ensures
        option_text(r) == tidy(option_text(*value)),
{
    match value {
        Some(text) => {
            if is_blank(text.as_str()) {
                None
            } else {
                Some(trim_text(text.as_str()))
            }
        },
        None => None,
    }
}

/// The device that a service stands for. A device without an address that can be used is none.
pub open spec fn device_of(service: CastService) -> Option<DeviceView> {
    match least(service.addresses@) {
        None => None,
        Some(number) => {
            let address = dotted(number as nat);
            let host = drop_end_dots(service.hostname@);
            Some(
                DeviceView {
                    id: match tidy(option_text(service.id)) {
                        Some(id) => id,
                        None => host + ":"@ + address + ":"@ + decimal(service.port as nat),
                    },
                    name: match tidy(option_text(service.friendly_name)) {
                        Some(name) => name,
                        None => instance_name(service.fullname@),
                    },
                    model: match tidy(option_text(service.model)) {
                        Some(model) => model,
                        None => Seq::empty(),
                    },
                    host,
                    address,
                    port: service.port,
                },
            )
        },
    }
}

/// The device that a service stands for.
pub fn cast_device_from_service(service: &CastService) -> (r: Option<CastDeviceInfo>)
    ensures
        (match r {
            Some(device) => Some(device@),
            None => None,
        }) == device_of(*service),
{
    let number: u32 = match least_of(&service.addresses) {
        Some(number) => number,
        None => {
            return None;
        },
    };
    let address = dotted_text(number);
    let host = string_of(&without_end_dots(&chars_of(service.hostname.as_str())));
    let name = match tidy_text(&service.friendly_name) {
        Some(name) => name,
        None => cast_instance_name_from_fullname(service.fullname.as_str()),
    };
    let model = match tidy_text(&service.model) {
        Some(model) => model,
        None => {
            let nothing = String::new();
            assert(nothing@ =~= Seq::empty());
            nothing
        },
    };
    let id = match tidy_text(&service.id) {
        Some(id) => id,
        None => {
            let mut id = host.clone();
            append(&mut id, ":");
            append(&mut id, address.as_str());
            append(&mut id, ":");
            append(&mut id, decimal_text(service.port as u64).as_str());
            id
        },
    };
    Some(CastDeviceInfo { id, name, model, host, address, port: service.port })
}

/// Where a device stands, or how many devices there are.
pub open spec fn device_slot(devices: Seq<DeviceView>, id: Seq<char>) -> nat
    decreases devices.len(),
{
    if devices.len() == 0 || devices[0].id == id {
        0
    } else {
        1 + device_slot(devices.skip(1), id)
    }
}

pub proof fn lemma_device_slot(devices: Seq<DeviceView>, id: Seq<char>, i: int)
    requires
        0 <= i <= devices.len(),
        forall|k: int| 0 <= k < i ==> (#[trigger] devices[k]).id != id,
        i < devices.len() ==> devices[i].id == id,
    ensures
        device_slot(devices, id) == i,
    decreases devices.len(),
{
    if i > 0 {
        assert(devices[0].id != id);
        let rest = devices.skip(1);
        assert forall|k: int| 0 <= k < i - 1 implies (#[trigger] rest[k]).id != id by {
            assert(devices[k + 1].id != id);
        }
        if i < devices.len() {
            assert(rest[i - 1] == devices[i]);
        }
        lemma_device_slot(rest, id, i - 1);
    }
}

/// Where a device stands in a list.
pub fn find_device(devices: &Vec<CastDeviceInfo>, id: &str) -> (r: Option<usize>)
    ensures
        match r {
            Some(i) => i < devices.len() && i == device_slot(views(devices@), id@)
                && devices@[i as int]@.id == id@,
            None => device_slot(views(devices@), id@) == devices.len(),
        },
{
    let ghost all = views(devices@);
    let mut i: usize = 0;
    while i < devices.len()
        invariant
            i <= devices.len(),
            all == views(devices@),
            forall|k: int| 0 <= k < i ==> (#[trigger] all[k]).id != id@,
        decreases devices.len() - i,
    {
        assert(all[i as int] == devices@[i as int]@);
        if text_equal(devices[i].id.as_str(), id) {
            proof {
                lemma_device_slot(all, id@, i as int);
            }
            return Some(i);
        }
        i += 1;
    }
    proof {
        lemma_device_slot(all, id@, i as int);
    }
    None
}

/// The devices of a list, each once; what a device told last counts.
pub open spec fn latest_devices(found: Seq<DeviceView>) -> Seq<DeviceView>
    decreases found.len(),
{
    if found.len() == 0 {
        Seq::empty()
    } else {
        let rest = latest_devices(found.drop_last());
        let slot = device_slot(rest, found.last().id) as int;
        if slot < rest.len() {
            rest.update(slot, found.last())
        } else {
            rest.push(found.last())
        }
    }
}

pub open spec fn name_keys() -> spec_fn(Seq<char>) -> Seq<Seq<u32>> {
    |name: Seq<char>| seq![text_part(name)]
}

/// The devices in the order of the names by which they are sorted.
pub open spec fn by_names(devices: Seq<DeviceView>, names: Seq<Seq<char>>) -> Seq<DeviceView> {
    picked(devices, sorted_indices(names.map_values(name_keys())))
}

pub open spec fn small_name() -> spec_fn(DeviceView) -> Seq<char> {
    |d: DeviceView| unicode_lower(d.name)
}

/// The devices that were found, each once, by name.
pub open spec fn device_list(found: Seq<DeviceView>) -> Seq<DeviceView> {
    by_names(latest_devices(found), latest_devices(found).map_values(small_name()))
}

/// The devices in the order of the names by which they are sorted.
pub fn sort_by_names(devices: &Vec<CastDeviceInfo>, names: &Vec<String>) -> (r: Vec<CastDeviceInfo>)
    requires
        names.len() == devices.len(),
    ensures
        views(r@) == by_names(views(devices@), texts(names@)),
{
    let mut keys: Vec<Vec<Vec<u32>>> = Vec::new();
    let mut k: usize = 0;
    while k < names.len()
        invariant
            k <= names.len(),
            keys.len() == k,
            forall|j: int|
                0 <= j < k ==> key_view((#[trigger] keys@[j])@) == name_keys()(names@[j]@),
        decreases names.len() - k,
    {
        let mut key: Vec<Vec<u32>> = Vec::new();
        key.push(text_part_of(&chars_of(names[k].as_str())));
        assert(key_view(key@) =~= seq![text_part(names@[k as int]@)]);
        keys.push(key);
        k += 1;
    }
    assert(keys_view(keys@) =~= texts(names@).map_values(name_keys()));
    let order = sort_order(&keys);
    pick(devices, &order)
}

/// The devices that were found, each once, by name.
pub fn collect_devices(found: &Vec<CastDeviceInfo>) -> (r: Vec<CastDeviceInfo>)
    ensures
        views(r@) == device_list(views(found@)),
{
    let ghost all = views(found@);
    let mut devices: Vec<CastDeviceInfo> = Vec::new();
    let mut i: usize = 0;
    assert(all.take(0) =~= Seq::empty());
    assert(views(devices@) =~= Seq::empty());
    while i < found.len()
        invariant
            i <= found.len(),
            all == views(found@),
            views(devices@) == latest_devices(all.take(i as int)),
        decreases found.len() - i,
    {
        let ghost before = views(devices@);
        let device = found[i].clone();
        proof {
            assert(all.take(i + 1).drop_last() =~= all.take(i as int));
            assert(all.take(i + 1).last() == device@);
        }
        match find_device(&devices, device.id.as_str()) {
            Some(slot) => {
                devices.set(slot, device);
                assert(views(devices@) =~= before.update(slot as int, device@));
            },
            None => {
                devices.push(device);
                assert(views(devices@) =~= before.push(device@));
            },
        }
        i += 1;
    }
    assert(all.take(i as int) =~= all);
    let mut names: Vec<String> = Vec::new();
    let mut k: usize = 0;
    while k < devices.len()
        invariant
            k <= devices.len(),
            names.len() == k,
            forall|j: int|
                0 <= j < k ==> (#[trigger] names@[j])@ == unicode_lower(devices@[j]@.name),
        decreases devices.len() - k,
    {
        names.push(unicode_lower_of(devices[k].name.as_str()));
        k += 1;
    }
    assert(texts(names@) =~= views(devices@).map_values(small_name()));
    sort_by_names(&devices, &names)
}

/// No device is listed twice.
pub open spec fn devices_differ(devices: Seq<DeviceView>) -> bool {
    forall|i: int, j: int|
        0 <= i < j < devices.len() ==> (#[trigger] devices[i]).id != (#[trigger] devices[j]).id
}

proof fn lemma_slot_is_first(devices: Seq<DeviceView>, id: Seq<char>)
    ensures
        device_slot(devices, id) <= devices.len(),
        device_slot(devices, id) < devices.len() ==> devices[device_slot(devices, id) as int].id
            == id,
        forall|k: int| 0 <= k < device_slot(devices, id) ==> (#[trigger] devices[k]).id != id,
    decreases devices.len(),
{
    if devices.len() > 0 && devices[0].id != id {
        let rest = devices.skip(1);
        lemma_slot_is_first(rest, id);
        assert forall|k: int| 0 <= k < device_slot(devices, id) implies (#[trigger] devices[k]).id
            != id by {
            if k > 0 {
                assert(rest[k - 1] == devices[k]);
            }
        }
    }
}

proof fn lemma_latest_differ(found: Seq<DeviceView>)
    ensures
        devices_differ(latest_devices(found)),
    decreases found.len(),
{
    if found.len() > 0 {
        let rest = latest_devices(found.drop_last());
        let device = found.last();
        lemma_latest_differ(found.drop_last());
        lemma_slot_is_first(rest, device.id);
        let all = latest_devices(found);
        let slot = device_slot(rest, device.id) as int;
        assert forall|i: int, j: int| 0 <= i < j < all.len() implies (#[trigger] all[i]).id != (
        #[trigger] all[j]).id by {
            if i != slot {
                assert(all[i] == rest[i]);
            }
            if j != slot {
                assert(all[j] == rest[j]);
            }
        }
    }
}

/// Each device is listed once.
pub proof fn no_device_is_listed_twice(found: Seq<DeviceView>)
    ensures
        devices_differ(device_list(found)),
{
    lemma_latest_differ(found);
    let devices = latest_devices(found);
    let keys = devices.map_values(small_name()).map_values(name_keys());
    sorting_is_stable(keys);
    let order = sorted_indices(keys);
    let all = device_list(found);
    assert forall|i: int, j: int| 0 <= i < j < all.len() implies (#[trigger] all[i]).id != (
    #[trigger] all[j]).id by {
        assert(order[i] != order[j]);
        assert(all[i] == devices[order[i]]);
        assert(all[j] == devices[order[j]]);
    }
}

} // verus!
