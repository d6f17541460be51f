//! Choosing the audio host and devices by name. Names are compared without
//! regard to case, and the name `default` (in any case) asks for the host's
//! or device's default.

use vstd::prelude::*;

use crate::text::{lowercase, to_lowercase};

verus! {

/// Whether two names are the same when case is ignored.
pub open spec fn same_name(a: Seq<char>, b: Seq<char>) -> bool {
    lowercase(a) == lowercase(b)
}

/// Whether a name asks for the default.
pub open spec fn is_default_spec(name: Seq<char>) -> bool {
    lowercase(name) == "default"@
}

/// Whether two names are the same when case is ignored.
pub fn names_match(a: &str, b: &str) -> (r: bool)
    ensures
        r == same_name(a@, b@),
{
    let la = to_lowercase(a);
    let lb = to_lowercase(b);
    la == lb
}

/// Whether `name` asks for the default host or device.
pub fn is_default_name(name: &str) -> (r: bool)
    ensures
        r == is_default_spec(name@),
{
    let l = to_lowercase(name);
    let d = "default".to_owned();
    l == d
}

/// The next host to try for the name `requested`, among the available hosts
/// `names` from position `start` on: the first whose name matches. `None`
/// means the default host is to be used, which is always so for `default`.
/// A caller that fails to open the host found searches again from the
/// position after it.
pub fn next_host_candidate(requested: &str, names: &Vec<String>, start: usize) -> (r: Option<usize>)
    ensures
        is_default_spec(requested@) ==> r is None,
        !is_default_spec(requested@) ==> match r {
            Some(i) => start <= i < names@.len() && same_name(names@[i as int]@, requested@)
                && forall|j: int| start <= j < i ==> !same_name(#[trigger] names@[j]@, requested@),
            None => forall|j: int| start <= j < names@.len() ==> !same_name(#[trigger] names@[j]@, requested@),
        },
{
    if is_default_name(requested) {
        return None;
    }
    let mut i = start;
    while i < names.len()
        invariant
            start <= i,
            !is_default_spec(requested@),
            forall|j: int| start <= j < i ==> !same_name(#[trigger] names@[j]@, requested@),
        decreases names@.len() - i,
    {
        if names_match(names[i].as_str(), requested) {
            return Some(i);
        }
        i = i + 1;
    }
    None
}

/// Which device to use.
#[derive(Clone, Copy, Debug, PartialEq, Eq)]
pub enum DeviceChoice {
    /// The host's default device.
    Default,
    /// The device at this position in the list.
    Listed(usize),
}

/// The first position in `names` whose name matches `requested`.
pub open spec fn first_named(names: Seq<Option<String>>, requested: Seq<char>) -> Option<int>
    decreases names.len(),
{
    if names.len() == 0 {
        None
    } else {
        match first_named(names.drop_last(), requested) {
            Some(i) => Some(i),
            None => match names.last() {
                Some(n) => if same_name(n@, requested) { Some(names.len() - 1) } else { None },
                None => None,
            },
        }
    }
}

/// The device chosen for a requested name: the default for `default`, when
/// the devices could not be listed, or when no device of the list has that
/// name; else the first device with that name. Devices whose name could not
/// be read are passed over.
pub open spec fn device_choice(requested: Seq<char>, names: Option<Seq<Option<String>>>) -> DeviceChoice {
    if is_default_spec(requested) {
        DeviceChoice::Default
    } else {
        match names {
            None => DeviceChoice::Default,
            Some(ns) => match first_named(ns, requested) {
                Some(i) => DeviceChoice::Listed(i as usize),
                None => DeviceChoice::Default,
            },
        }
    }
}

/// Chooses a device by name among the names of the devices a host lists
/// (`None` when the list could not be had; an entry is `None` when that
/// device's name could not be read).
pub fn choose_device(requested: &str, names: &Option<Vec<Option<String>>>) -> (r: DeviceChoice)
    ensures
        r == device_choice(requested@, match names { Some(v) => Some(v@), None => None }),
{
    if is_default_name(requested) {
        return DeviceChoice::Default;
    }
    let list = match names {
        Some(v) => v,
        None => { return DeviceChoice::Default; },
    };
    let mut i: usize = 0;
    while i < list.len()
        invariant
            i <= list@.len(),
            first_named(list@.take(i as int), requested@) is None,
            !is_default_spec(requested@),
            match names { Some(v) => v@ == list@, None => false },
        decreases list@.len() - i,
    {
        assert(list@.take(i + 1).drop_last() =~= list@.take(i as int));
        match &list[i] {
            Some(n) => {
                if names_match(n.as_str(), requested) {
                    assert(first_named(list@.take(i + 1), requested@) == Some(i as int));
                    proof {
                        lemma_first_named_prefix(list@, requested@, i + 1);
                    }
                    return DeviceChoice::Listed(i);
                }
            },
            None => {},
        }
        i = i + 1;
    }
    assert(list@.take(list@.len() as int) =~= list@);
    DeviceChoice::Default
}

proof fn lemma_first_named_prefix(names: Seq<Option<String>>, requested: Seq<char>, n: int)
    requires
        0 <= n <= names.len(),
        first_named(names.take(n), requested) is Some,
    ensures
        first_named(names, requested) == first_named(names.take(n), requested),
    decreases names.len() - n,
{
    if n < names.len() {
        assert(names.take(n + 1).drop_last() =~= names.take(n));
        lemma_first_named_prefix(names, requested, n + 1);
    } else {
        assert(names.take(n) =~= names);
    }
}

/// The name of the selected item, or `None` when nothing is selected.
fn name_or_none(selected: Option<String>) -> (r: String)
    ensures
        r@ == match selected {
            Some(n) => n@,
            None => "None"@,
        },
{
    match selected {
        Some(n) => n,
        None => "None".to_owned(),
    }
}

/// The name of the selected host, or `None` when no host is selected.
pub fn host(selected: Option<String>) -> (r: String)
    ensures
        r@ == match selected {
            Some(n) => n@,
            None => "None"@,
        },
{
    name_or_none(selected)
}

/// The name of the selected output device, or `None` when there is none.
pub fn output_device(selected: Option<String>) -> (r: String)
    ensures
        r@ == match selected {
            Some(n) => n@,
            None => "None"@,
        },
{
    name_or_none(selected)
}

/// The name of the selected input device, or `None` when there is none.
pub fn input_device(selected: Option<String>) -> (r: String)
    ensures
        r@ == match selected {
            Some(n) => n@,
            None => "None"@,
        },
{
    name_or_none(selected)
}

} // verus!
