use vstd::prelude::*;

use crate::address::{address_text, BdAddr};
use crate::error::BleError;
use crate::protocol::{INVALID_RSSI, UART_SERVICE_UUID};

verus! {

/// What a peripheral advertised, as cached by the adapter.
pub struct AdvertisedProperties {
    pub address: BdAddr,
    pub local_name: Option<String>,
    pub rssi: Option<i16>,
    /// The advertised service identifiers, as 128-bit values.
    pub services: Vec<u128>,
}

/// A peripheral found by a scan.
#[derive(Debug, Clone)]
pub struct ScanResult {
    pub address: BdAddr,
    pub local_name: String,
    pub rssi: i16,
}

/// A scan result as address, name and signal strength.
pub type Entry = (BdAddr, Seq<char>, i16);

impl View for ScanResult {
    type V = Entry;

    open spec fn view(&self) -> Entry {
        (self.address, self.local_name@, self.rssi)
    }
}

/// Whether a peripheral advertises the UART service.
pub open spec fn offers_service(p: AdvertisedProperties) -> bool {
    p.services@.contains(UART_SERVICE_UUID)
}

/// The entry of a peripheral: its name falls back to the text of its
/// address, its signal strength to the sentinel.
pub open spec fn entry_of(p: AdvertisedProperties) -> Entry {
    (
        p.address,
        match p.local_name {
            Some(n) => n@,
            None => address_text(p.address.octets@),
        },
        match p.rssi {
            Some(r) => r,
            None => INVALID_RSSI,
        },
    )
}

/// Whether every peripheral's properties could be read.
pub open spec fn all_readable(ps: Seq<Option<AdvertisedProperties>>) -> bool {
    forall|i: int| 0 <= i < ps.len() ==> (#[trigger] ps[i]).is_some()
}

/// The entries of the peripherals that offer the service, in discovery order.
pub open spec fn matching(ps: Seq<Option<AdvertisedProperties>>) -> Seq<Entry>
    decreases ps.len(),
{
    if ps.len() == 0 {
        seq![]
    } else {
        let rest = matching(ps.drop_last());
        let p = ps.last().unwrap();
        if offers_service(p) {
            rest.push(entry_of(p))
        } else {
            rest
        }
    }
}

/// Places `e` after every entry at the end of `s` whose signal is at least
/// as strong, and before those whose signal is weaker.
pub open spec fn insert_ranked(s: Seq<Entry>, e: Entry) -> Seq<Entry>
    decreases s.len(),
{
    if s.len() == 0 {
        seq![e]
    } else if s.last().2 >= e.2 {
        s.push(e)
    } else {
        insert_ranked(s.drop_last(), e).push(s.last())
    }
}

/// The entries sorted by descending signal strength; entries of equal
/// strength keep their order.
pub open spec fn ranked(s: Seq<Entry>) -> Seq<Entry>
    decreases s.len(),
{
    if s.len() == 0 {
        seq![]
    } else {
        insert_ranked(ranked(s.drop_last()), s.last())
    }
}

/// What a scan yields from the properties of the peripherals it observed.
pub open spec fn scan_outcome(ps: Seq<Option<AdvertisedProperties>>) -> Result<
    Seq<Entry>,
    BleError,
> {
    if all_readable(ps) {
        Ok(ranked(matching(ps)))
    } else {
        Err(BleError::PropertyUnavailable)
    }
}

/// Whether entries are in descending order of signal strength.
pub open spec fn sorted_desc(s: Seq<Entry>) -> bool {
    forall|i: int, j: int| 0 <= i < j < s.len() ==> s[i].2 >= s[j].2
}

proof fn lemma_insert_at(s: Seq<Entry>, e: Entry, j: int)
    requires
        0 <= j <= s.len(),
        j == 0 || s[j - 1].2 >= e.2,
        forall|k: int| j <= k < s.len() ==> s[k].2 < e.2,
    ensures
        insert_ranked(s, e) == s.take(j).push(e) + s.skip(j),
    decreases s.len(),
{
    if s.len() == 0 {
        assert(s.take(j).push(e) + s.skip(j) =~= seq![e]);
    } else if j == s.len() {
        assert(s.take(j).push(e) + s.skip(j) =~= s.push(e));
    } else {
        let d = s.drop_last();
        lemma_insert_at(d, e, j);
        assert(d.take(j) =~= s.take(j));
        assert((d.take(j).push(e) + d.skip(j)).push(s.last()) =~= s.take(j).push(e) + s.skip(j));
    }
}

proof fn lemma_insert_sorted(s: Seq<Entry>, e: Entry)
    requires
        sorted_desc(s),
    ensures
        sorted_desc(insert_ranked(s, e)),
        insert_ranked(s, e).len() == s.len() + 1,
        forall|x: Entry| #[trigger] insert_ranked(s, e).contains(x) <==> (s.contains(x) || x == e),
    decreases s.len(),
{
    let r = insert_ranked(s, e);
    if s.len() == 0 {
        assert(r =~= seq![e]);
        assert forall|x: Entry| #[trigger] r.contains(x) <==> (s.contains(x) || x == e) by {
            if r.contains(x) {
                assert(r[0] == x);
            }
            if x == e {
                assert(r[0] == x);
            }
        }
    } else if s.last().2 >= e.2 {
        assert forall|x: Entry| #[trigger] r.contains(x) <==> (s.contains(x) || x == e) by {
            if r.contains(x) {
                let k = choose|k: int| 0 <= k < r.len() && r[k] == x;
                if k < s.len() {
                    assert(s[k] == x);
                }
            }
            if s.contains(x) {
                let k = choose|k: int| 0 <= k < s.len() && s[k] == x;
                assert(r[k] == x);
            }
            if x == e {
                assert(r[s.len() as int] == x);
            }
        }
    } else {
        let d = s.drop_last();
        let l = s.last();
        assert(sorted_desc(d));
        lemma_insert_sorted(d, e);
        let q = insert_ranked(d, e);
        assert(r == q.push(l));
        assert forall|x: Entry| #[trigger] q.contains(x) implies x.2 >= l.2 by {
            if q.contains(x) {
                if d.contains(x) {
                    let k = choose|k: int| 0 <= k < d.len() && d[k] == x;
                    assert(s[k] == x);
                }
            }
        }
        assert forall|i: int, j: int| 0 <= i < j < r.len() implies r[i].2 >= r[j].2 by {
            if j == r.len() - 1 {
                assert(q.contains(q[i]));
            }
        }
        assert forall|x: Entry| #[trigger] r.contains(x) <==> (s.contains(x) || x == e) by {
            if r.contains(x) {
                let k = choose|k: int| 0 <= k < r.len() && r[k] == x;
                if k < q.len() {
                    assert(q.contains(x));
                    if d.contains(x) {
                        let m = choose|m: int| 0 <= m < d.len() && d[m] == x;
                        assert(s[m] == x);
                    }
                } else {
                    assert(s[s.len() - 1] == x);
                }
            }
            if s.contains(x) {
                let k = choose|k: int| 0 <= k < s.len() && s[k] == x;
                if k < d.len() {
                    assert(d[k] == x);
                    assert(q.contains(x));
                    let m = choose|m: int| 0 <= m < q.len() && q[m] == x;
                    assert(r[m] == x);
                } else {
                    assert(r[r.len() - 1] == x);
                }
            }
            if x == e {
                assert(q.contains(x));
                let m = choose|m: int| 0 <= m < q.len() && q[m] == x;
                assert(r[m] == x);
            }
        }
    }
}

proof fn lemma_ranked_props(s: Seq<Entry>)
    ensures
        sorted_desc(ranked(s)),
        ranked(s).len() == s.len(),
        forall|x: Entry| #[trigger] ranked(s).contains(x) <==> s.contains(x),
    decreases s.len(),
{
    if s.len() > 0 {
        let d = s.drop_last();
        lemma_ranked_props(d);
        lemma_insert_sorted(ranked(d), s.last());
        assert forall|x: Entry| #[trigger] ranked(s).contains(x) <==> s.contains(x) by {
            if d.contains(x) {
                let k = choose|k: int| 0 <= k < d.len() && d[k] == x;
                assert(s[k] == x);
            }
            if s.contains(x) {
                let k = choose|k: int| 0 <= k < s.len() && s[k] == x;
                if k < d.len() {
                    assert(d[k] == x);
                }
            }
        }
    }
}

proof fn lemma_matching_offer(ps: Seq<Option<AdvertisedProperties>>, x: Entry)
    requires
        all_readable(ps),
        matching(ps).contains(x),
    ensures
        exists|i: int|
            0 <= i < ps.len() && offers_service(#[trigger] ps[i].unwrap()) && entry_of(
                ps[i].unwrap(),
            ) == x,
    decreases ps.len(),
{
    let d = ps.drop_last();
    let p = ps.last().unwrap();
    assert(all_readable(d)) by {
        assert forall|i: int| 0 <= i < d.len() implies (#[trigger] d[i]).is_some() by {
            assert(d[i] == ps[i]);
        }
    }
    if offers_service(p) && x == entry_of(p) {
        assert(ps[ps.len() - 1].unwrap() == p);
    } else {
        if offers_service(p) {
            let k = choose|k: int| 0 <= k < matching(ps).len() && matching(ps)[k] == x;
            assert(matching(d)[k] == x);
        }
        lemma_matching_offer(d, x);
        let i = choose|i: int|
            0 <= i < d.len() && offers_service(#[trigger] d[i].unwrap()) && entry_of(d[i].unwrap())
                == x;
        assert(ps[i] == d[i]);
    }
}

/// The entries of a list of scan results.
pub open spec fn entries(v: Seq<ScanResult>) -> Seq<Entry> {
    v.map_values(|r: ScanResult| r@)
}

fn advertises(services: &Vec<u128>, uuid: u128) -> (r: bool)
    ensures
        r == services@.contains(uuid),
{
    let mut i: usize = 0;
    while i < services.len()
        invariant
            0 <= i <= services.len(),
            forall|k: int| 0 <= k < i ==> services@[k] != uuid,
        decreases services.len() - i,
    {
        if services[i] == uuid {
            return true;
        }
        i += 1;
    }
    false
}

fn entry_from(p: &AdvertisedProperties) -> (r: ScanResult)
    ensures
        r@ == entry_of(*p),
{
    let local_name = match &p.local_name {
        Some(n) => n.clone(),
        None => p.address.to_string(),
    };
    let rssi = match p.rssi {
        Some(r) => r,
        None => INVALID_RSSI,
    };
    ScanResult { address: p.address, local_name, rssi }
}

/// Inserts a result after the results at the end of the list whose signal is
/// at least as strong.
fn insert_by_rssi(v: &mut Vec<ScanResult>, e: ScanResult)
    ensures
        entries(final(v)@) == insert_ranked(entries(old(v)@), e@),
{
    let ghost s = entries(v@);
    let ghost ev = e@;
    let mut j: usize = v.len();
    while j > 0 && v[j - 1].rssi < e.rssi
        invariant
            0 <= j <= v.len(),
            s == entries(v@),
            ev == e@,
            forall|k: int| j <= k < s.len() ==> s[k].2 < ev.2,
        decreases j,
    {
        j -= 1;
    }
    proof {
        lemma_insert_at(s, ev, j as int);
    }
    v.insert(j, e);
    assert(entries(v@) =~= s.take(j as int).push(ev) + s.skip(j as int));
}

/// Keeps the peripherals that advertise the UART service and ranks them by
/// descending signal strength, those of equal strength in discovery order.
/// Fails if the properties of any peripheral could not be read.
pub fn collect_scan_results(peripherals: &Vec<Option<AdvertisedProperties>>) -> (r: Result<
    Vec<ScanResult>,
    BleError,
>)
    ensures
        r is Err <==> !all_readable(peripherals@),
        r is Err ==> r->Err_0 == BleError::PropertyUnavailable,
        r is Ok ==> scan_outcome(peripherals@) == Ok::<Seq<Entry>, BleError>(entries(r->Ok_0@)),
{
    let ghost ps = peripherals@;
    let mut results: Vec<ScanResult> = Vec::new();
    let mut i: usize = 0;
    while i < peripherals.len()
        invariant
            0 <= i <= peripherals.len(),
            ps == peripherals@,
            all_readable(ps.take(i as int)),
            entries(results@) == ranked(matching(ps.take(i as int))),
        decreases peripherals.len() - i,
    {
        let ghost before = ps.take(i as int);
        assert(ps.take(i as int + 1).drop_last() =~= before);
        match &peripherals[i] {
            None => {
                assert(!all_readable(ps)) by {
                    assert(ps[i as int].is_none());
                }
                return Err(BleError::PropertyUnavailable);
            },
            Some(p) => {
                if advertises(&p.services, UART_SERVICE_UUID) {
                    let e = entry_from(p);
                    insert_by_rssi(&mut results, e);
                    assert(matching(ps.take(i as int + 1)).drop_last() =~= matching(before));
                }
            },
        }
        assert(all_readable(ps.take(i as int + 1))) by {
            assert forall|k: int| 0 <= k < i + 1 implies (#[trigger] ps.take(i as int + 1)[k]).is_some() by {
                if k < i {
                    assert(ps.take(i as int + 1)[k] == before[k]);
                }
            }
        }
        i += 1;
    }
    assert(ps.take(i as int) =~= ps);
    Ok(results)
}

/// Scan results come in descending order of signal strength.
pub proof fn lemma_scan_sorted(ps: Seq<Option<AdvertisedProperties>>)
    ensures
        scan_outcome(ps) is Ok ==> forall|i: int, j: int|
            0 <= i < j < scan_outcome(ps)->Ok_0.len() ==> scan_outcome(ps)->Ok_0[i].2
                >= scan_outcome(ps)->Ok_0[j].2,
{
    lemma_ranked_props(matching(ps));
}

/// Every scan result is the entry of a peripheral that advertises the UART
/// service.
pub proof fn lemma_scan_only_service(ps: Seq<Option<AdvertisedProperties>>, x: Entry)
    requires
        scan_outcome(ps) is Ok,
        scan_outcome(ps)->Ok_0.contains(x),
    ensures
        exists|i: int|
            0 <= i < ps.len() && (#[trigger] ps[i]).is_some() && ps[i].unwrap().services@.contains(
                UART_SERVICE_UUID,
            ) && entry_of(ps[i].unwrap()) == x,
{
    lemma_ranked_props(matching(ps));
    lemma_matching_offer(ps, x);
    let i = choose|i: int|
        0 <= i < ps.len() && offers_service(#[trigger] ps[i].unwrap()) && entry_of(ps[i].unwrap())
            == x;
    assert(ps[i].is_some());
}

} // verus!
