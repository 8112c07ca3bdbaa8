//! Laws of cast devices: what is shown of a found service, and which devices are listed.

use crate::cast::devices::{
    device_list, device_of, device_slot, dotted, drop_dots, instance_name,
    latest_devices, least, name_keys, small_name, CastService,
};
use crate::library::order::{picked, sorted_indices, sorting_is_stable, text_part};
use crate::protocol::DeviceView;
use crate::text::{blank, decimal, option_text, trim};
use vstd::prelude::*;

verus! {

/// The least of some numbers is one of them, and none is less; of none there is none.
pub proof fn the_least_number_is_found(numbers: Seq<u32>)
    ensures
        least(numbers) is None <==> numbers.len() == 0,
        least(numbers) matches Some(n) ==> numbers.contains(n) && forall|i: int|
            0 <= i < numbers.len() ==> n <= #[trigger] numbers[i],
    decreases numbers.len(),
{
    if numbers.len() > 0 {
        let rest = numbers.drop_last();
        the_least_number_is_found(rest);
        let n = least(numbers)->Some_0;
        let last = numbers.len() - 1;
        if rest.contains(n) {
            let k = choose|k: int| 0 <= k < rest.len() && rest[k] == n;
            assert(numbers[k] == n);
        } else {
            assert(numbers[last] == n);
        }
        assert forall|i: int| 0 <= i < numbers.len() implies n <= #[trigger] numbers[i] by {
            if i < last {
                assert(rest[i] == numbers[i]);
            }
        }
    }
}

/// An address is written as its four bytes, the highest first.
pub proof fn addresses_are_dotted(a: u8, b: u8, c: u8, d: u8)
    ensures
        dotted((a * 0x100_0000 + b * 0x1_0000 + c * 0x100 + d) as nat) == decimal(a as nat) + "."@
            + decimal(b as nat) + "."@ + decimal(c as nat) + "."@ + decimal(d as nat),
{
    let n = (a * 0x100_0000 + b * 0x1_0000 + c * 0x100 + d) as nat;
    assert(n / 0x100_0000 % 0x100 == a);
    assert(n / 0x1_0000 % 0x100 == b);
    assert(n / 0x100 % 0x100 == c);
    assert(n % 0x100 == d);
}

/// A service is a device exactly where it has an address. It shows the service's own id, name
/// and model, trimmed; without an id the host, address and port stand for it, and without a
/// name the name of its instance. It is reached at its least address and its port.
pub proof fn services_show_as_devices(service: CastService)
    ensures
        device_of(service) is None <==> service.addresses@.len() == 0,
        device_of(service) matches Some(device) ==> {
            &&& exists|i: int|
                0 <= i < service.addresses@.len() && device.address == dotted(
                    #[trigger] service.addresses@[i] as nat,
                )
            &&& device.port == service.port
            &&& option_text(service.id) matches Some(id) ==> (!blank(id) ==> device.id == trim(id))
            &&& option_text(service.id) is None ==> device.id == device.host + ":"@
                + device.address + ":"@ + decimal(service.port as nat)
            &&& option_text(service.friendly_name) matches Some(name) ==> (!blank(name)
                ==> device.name == trim(name))
            &&& option_text(service.friendly_name) is None ==> device.name == instance_name(
                service.fullname@,
            )
            &&& option_text(service.model) matches Some(model) ==> (!blank(model) ==> device.model
                == trim(model))
            &&& option_text(service.model) is None ==> device.model.len() == 0
        },
{
    the_least_number_is_found(service.addresses@);
    if let Some(n) = least(service.addresses@) {
        let i = choose|i: int| 0 <= i < service.addresses@.len() && service.addresses@[i] == n;
        assert(dotted(service.addresses@[i] as nat) == dotted(n as nat));
    }
}

/// The name of an instance is what stands before the service's suffix.
pub proof fn instances_are_named_before_the_suffix(name: Seq<char>)
    requires
        name.len() > 0,
        !crate::text::white_space(name[0]),
        !crate::text::white_space(name.last()),
        name[0] != '.',
        name.last() != '.',
    ensures
        instance_name(name + "._googlecast._tcp.local."@) == name,
{
    reveal_strlit("._googlecast._tcp.local.");
    let suffix = "._googlecast._tcp.local."@;
    let full = name + suffix;
    assert(full.last() == '.');
    assert(!crate::text::white_space('.'));
    assert(full[0] == name[0]);
    crate::text_laws::trimmed_texts_stay(full);
    assert(full.skip(full.len() - suffix.len()) =~= suffix);
    assert(full.take(full.len() - suffix.len()) =~= name);
    crate::text_laws::trimmed_texts_stay(name);
    assert(drop_dots(name) == name);
}

proof fn lemma_slot(devices: Seq<DeviceView>, id: Seq<char>)
    ensures
        device_slot(devices, id) <= devices.len(),
        device_slot(devices, id) < devices.len() ==> devices[device_slot(devices, id) as int].id
            == id,
        forall|k: int| 0 <= k < device_slot(devices, id) ==> (#[trigger] devices[k]).id != id,
    decreases devices.len(),
{
    if devices.len() > 0 && devices[0].id != id {
        let rest = devices.skip(1);
        lemma_slot(rest, id);
        assert forall|k: int| 0 <= k < device_slot(devices, id) implies (#[trigger] devices[k]).id
            != id by {
            if k > 0 {
                assert(rest[k - 1] == devices[k]);
            }
        }
    }
}

/// Of the devices found under one id the last counts; each listed device was found, and each id
/// that was found is listed.
pub proof fn the_last_found_device_counts(found: Seq<DeviceView>, device: DeviceView)
    ensures
        latest_devices(found.push(device)).contains(device),
        forall|d: DeviceView|
            #[trigger] latest_devices(found).contains(d) && d.id != device.id ==> latest_devices(
                found.push(device),
            ).contains(d),
        forall|d: DeviceView| #[trigger] latest_devices(found).contains(d) ==> found.contains(d),
    decreases found.len(),
{
    let rest = latest_devices(found);
    let all = latest_devices(found.push(device));
    assert(found.push(device).drop_last() =~= found);
    lemma_slot(rest, device.id);
    let slot = device_slot(rest, device.id) as int;
    if slot < rest.len() {
        assert(all[slot] == device);
    } else {
        assert(all[rest.len() as int] == device);
    }
    assert forall|d: DeviceView| #[trigger] rest.contains(d) && d.id != device.id implies
        all.contains(d) by {
        let k = choose|k: int| 0 <= k < rest.len() && rest[k] == d;
        assert(all[k] == d);
    }
    if found.len() > 0 {
        let before = found.drop_last();
        the_last_found_device_counts(before, found.last());
        assert(before.push(found.last()) =~= found);
        let old_devices = latest_devices(before);
        lemma_slot(old_devices, found.last().id);
        assert forall|d: DeviceView| #[trigger] rest.contains(d) implies found.contains(d) by {
            let k = choose|k: int| 0 <= k < rest.len() && rest[k] == d;
            if d == found.last() {
                assert(found[found.len() - 1] == d);
            } else {
                assert(old_devices[k] == d);
                assert(old_devices.contains(d));
                let j = choose|j: int| 0 <= j < before.len() && before[j] == d;
                assert(found[j] == d);
            }
        }
    }
}

/// The list holds the devices that count, ordered by their names in lower case.
pub proof fn devices_are_listed_by_name(found: Seq<DeviceView>, d: DeviceView, i: int, j: int)
    ensures
        device_list(found).len() == latest_devices(found).len(),
        device_list(found).contains(d) <==> latest_devices(found).contains(d),
        0 <= i < j < device_list(found).len() ==> !crate::library::order::key_less(
            seq![text_part(crate::cast::devices::unicode_lower(device_list(found)[j].name))],
            seq![text_part(crate::cast::devices::unicode_lower(device_list(found)[i].name))],
        ),
{
    let devices = latest_devices(found);
    let keys = devices.map_values(small_name()).map_values(name_keys());
    sorting_is_stable(keys);
    let order = sorted_indices(keys);
    let all = device_list(found);
    assert(all == picked(devices, order));
    if 0 <= i < j < all.len() {
        let sorted_keys = picked(keys, order);
        assert(!crate::library::order::key_less(sorted_keys[j], sorted_keys[i]));
        assert(sorted_keys[j] == keys[order[j]] && sorted_keys[i] == keys[order[i]]);
    }
    if all.contains(d) {
        let k = choose|k: int| 0 <= k < all.len() && all[k] == d;
        assert(devices[order[k]] == d);
    }
    if devices.contains(d) {
        let k = choose|k: int| 0 <= k < devices.len() && devices[k] == d;
        lemma_every_index(order, devices.len(), k);
        let at = choose|at: int| 0 <= at < order.len() && order[at] == k;
        assert(all[at] == d);
    }
}

proof fn lemma_every_index(order: Seq<int>, n: nat, k: int)
    requires
        order.len() == n,
        order.no_duplicates(),
        forall|i: int| 0 <= i < n ==> 0 <= #[trigger] order[i] < n,
        0 <= k < n,
    ensures
        order.contains(k),
{
    if !order.contains(k) {
        let all = vstd::set_lib::set_int_range(0, n as int);
        vstd::set_lib::lemma_int_range(0, n as int);
        let used = order.to_set();
        order.unique_seq_to_set();
        assert(used.subset_of(all.remove(k))) by {
            assert forall|x: int| used.contains(x) implies all.remove(k).contains(x) by {
                let i = choose|i: int| 0 <= i < order.len() && order[i] == x;
                assert(order.contains(x));
            }
        }
        vstd::set_lib::lemma_len_subset(used, all.remove(k));
    }
}

} // verus!
