use vstd::prelude::*;

use crate::address::{address_text, BdAddr};
use crate::error::BleError;

verus! {

/// Whether `needle` occurs as a contiguous part of `hay`.
pub open spec fn holds_text(hay: Seq<char>, needle: Seq<char>) -> bool {
    exists|i: int| 0 <= i <= hay.len() - needle.len() && #[trigger] hay.subrange(i, i + needle.len()) == needle
}

/// Whether the description of the adapter at `i` holds `name`, and no earlier one does.
pub open spec fn first_holding(descriptions: Seq<String>, name: Seq<char>, i: int) -> bool {
    0 <= i < descriptions.len() && holds_text(descriptions[i]@, name) && forall|k: int|
        0 <= k < i ==> !holds_text(#[trigger] descriptions[k]@, name)
}

fn occurs_at(hay: &str, needle: &str, at: usize) -> (r: bool)
    requires
        at + needle@.len() <= hay@.len(),
    ensures
        r == (hay@.subrange(at as int, at + needle@.len()) == needle@),
{
    let h = hay.unicode_len();
    let n = needle.unicode_len();
    let mut k: usize = 0;
    while k < n
        invariant
            h == hay@.len(),
            n == needle@.len(),
            at + n <= hay@.len(),
            0 <= k <= n,
            forall|m: int| 0 <= m < k ==> hay@[at + m] == needle@[m],
        decreases n - k,
    {
        if hay.get_char(at + k) != needle.get_char(k) {
            assert(hay@.subrange(at as int, at + n)[k as int] != needle@[k as int]);
            return false;
        }
        k += 1;
    }
    assert(hay@.subrange(at as int, at + n) =~= needle@);
    true
}

/// Whether `hay` holds `needle` as a contiguous part.
pub fn text_holds(hay: &str, needle: &str) -> (r: bool)
    ensures
        r == holds_text(hay@, needle@),
{
    let h = hay.unicode_len();
    let n = needle.unicode_len();
    if n > h {
        return false;
    }
    let last = h - n;
    let mut at: usize = 0;
    while at <= last
        invariant
            h == hay@.len(),
            n == needle@.len(),
            last == h - n,
            0 <= at <= last,
            forall|i: int|
                0 <= i < at ==> #[trigger] hay@.subrange(i, i + n) != needle@,
        decreases last - at,
    {
        if occurs_at(hay, needle, at) {
            return true;
        }
        if at == last {
            return false;
        }
        at += 1;
    }
    false
}

/// Picks the first adapter whose description holds `name`.
pub fn select_adapter(descriptions: &Vec<String>, name: &str) -> (r: Result<usize, BleError>)
    ensures
        r is Ok ==> first_holding(descriptions@, name@, r->Ok_0 as int),
        r is Err <==> forall|k: int|
            0 <= k < descriptions@.len() ==> !holds_text(#[trigger] descriptions@[k]@, name@),
        r is Err ==> r->Err_0 == BleError::AdapterNotFound,
{
    let mut i: usize = 0;
    while i < descriptions.len()
        invariant
            0 <= i <= descriptions.len(),
            forall|k: int| 0 <= k < i ==> !holds_text(#[trigger] descriptions@[k]@, name@),
        decreases descriptions.len() - i,
    {
        if text_holds(descriptions[i].as_str(), name) {
            return Ok(i);
        }
        i += 1;
    }
    Err(BleError::AdapterNotFound)
}

/// Whether the peripheral at `i` is the first whose address either could not
/// be read or reads as `address`.
pub open spec fn first_decisive(addresses: Seq<Option<BdAddr>>, address: Seq<char>, i: int) -> bool {
    0 <= i < addresses.len() && decisive(addresses[i], address) && forall|k: int|
        0 <= k < i ==> !decisive(#[trigger] addresses[k], address)
}

/// An address that is unreadable or equal to the one sought ends the search.
pub open spec fn decisive(a: Option<BdAddr>, address: Seq<char>) -> bool {
    match a {
        None => true,
        Some(b) => address_text(b.octets@) == address,
    }
}

/// Looks for the peripheral with a given address among those the adapter
/// knows, in order. Yields its position, `None` if no address matches, and
/// fails if an address met before a match could not be read.
pub fn match_address(addresses: &Vec<Option<BdAddr>>, address: &str) -> (r: Result<
    Option<usize>,
    BleError,
>)
    ensures
        r == Ok::<Option<usize>, BleError>(None) <==> forall|k: int|
            0 <= k < addresses@.len() ==> !decisive(#[trigger] addresses@[k], address@),
        r matches Ok(Some(i)) ==> first_decisive(addresses@, address@, i as int)
            && addresses@[i as int] is Some,
        r is Err ==> exists|i: int|
            first_decisive(addresses@, address@, i) && addresses@[i] is None,
        r is Err ==> r->Err_0 == BleError::PropertyUnavailable,
{
    let mut i: usize = 0;
    while i < addresses.len()
        invariant
            0 <= i <= addresses.len(),
            forall|k: int| 0 <= k < i ==> !decisive(#[trigger] addresses@[k], address@),
        decreases addresses.len() - i,
    {
        match &addresses[i] {
            None => {
                assert(first_decisive(addresses@, address@, i as int));
                return Err(BleError::PropertyUnavailable);
            },
            Some(b) => {
                let text = b.to_string();
                if text == address.to_owned() {
                    return Ok(Some(i));
                }
            },
        }
        i += 1;
    }
    Ok(None)
}

/// What the adapter reports while the client looks for one address.
pub enum DiscoveryEvent {
    /// A device was discovered; the addresses of all peripherals the adapter
    /// now knows, in its order (`None` where one could not be read).
    DeviceDiscovered(Vec<Option<BdAddr>>),
    /// Any other adapter event.
    Other,
    /// The event stream ended.
    StreamEnded,
}

/// What the search does after an event.
#[derive(Clone, Copy, Debug, PartialEq, Eq, Structural)]
pub enum DiscoveryStep {
    /// Keep listening.
    Continue,
    /// The peripheral at this position has the address sought.
    Found(usize),
    /// The search fails.
    Fail(BleError),
}

/// Decides the next step of the search for `address` after an event.
pub fn discovery_step(event: &DiscoveryEvent, address: &str) -> (r: DiscoveryStep)
    ensures
        *event is StreamEnded ==> r == DiscoveryStep::Fail(BleError::DeviceNotFound),
        *event is Other ==> r == DiscoveryStep::Continue,
        *event matches DiscoveryEvent::DeviceDiscovered(a) ==> {
            &&& r is Continue <==> forall|k: int|
                0 <= k < a@.len() ==> !decisive(#[trigger] a@[k], address@)
            &&& r matches DiscoveryStep::Found(i) ==> first_decisive(a@, address@, i as int)
                && a@[i as int] is Some
            &&& r is Fail ==> r == DiscoveryStep::Fail(BleError::PropertyUnavailable)
                && exists|i: int| first_decisive(a@, address@, i) && a@[i] is None
        },
{
    match event {
        DiscoveryEvent::DeviceDiscovered(addresses) => match match_address(addresses, address) {
            Ok(None) => DiscoveryStep::Continue,
            Ok(Some(i)) => DiscoveryStep::Found(i),
            Err(e) => DiscoveryStep::Fail(e),
        },
        DiscoveryEvent::Other => DiscoveryStep::Continue,
        DiscoveryEvent::StreamEnded => DiscoveryStep::Fail(BleError::DeviceNotFound),
    }
}

} // verus!
