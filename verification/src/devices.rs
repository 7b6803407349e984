//! Audio outputs: which hosts to ask, the list of output devices they report
//! (with the one in use marked), and which device a setting names.
use vstd::prelude::*;
use crate::config::strings_view;
use crate::text::str_eq;

verus! {

broadcast use vstd::string::group_string_axioms;

/// What one audio host reported: its name, the names of its output devices
/// (`None` where it could not be opened or listed), and the name of its default
/// output device, where it has one.
pub struct HostReport {
    pub host: String,
    pub devices: Option<Vec<String>>,
    pub default_device: Option<String>,
}

/// A host's report as plain values.
pub struct HostReportView {
    pub host: Seq<char>,
    pub devices: Option<Seq<Seq<char>>>,
    pub default_device: Option<Seq<char>>,
}

/// The plain values of hosts' reports.
pub open spec fn reports_view(s: Seq<HostReport>) -> Seq<HostReportView> {
    Seq::new(s.len(), |i: int| HostReportView {
        host: s[i].host@,
        devices: match s[i].devices { Some(v) => Some(strings_view(v@)), None => None },
        default_device: match s[i].default_device { Some(d) => Some(d@), None => None },
    })
}

/// The hosts to ask: the available ones, and the default host after them where
/// it is not among them.
pub open spec fn hosts_to_ask(available: Seq<Seq<char>>, default_host: Seq<char>) -> Seq<Seq<char>> {
    if available.contains(default_host) { available } else { available.push(default_host) }
}

/// The hosts to ask (see `hosts_to_ask`).
pub fn hosts_to_query(available: Vec<String>, default_host: String) -> (res: Vec<String>)
    ensures
        strings_view(res@) == hosts_to_ask(strings_view(available@), default_host@),
{
    let ghost av = strings_view(available@);
    let mut i: usize = 0;
    while i < available.len()
        invariant
            i <= available@.len(),
            av == strings_view(available@),
            forall|j: int| 0 <= j < i ==> av[j] != default_host@,
        decreases available@.len() - i,
    {
        if str_eq(available[i].as_str(), default_host.as_str()) {
            assert(av[i as int] == default_host@);
            return available;
        }
        i = i + 1;
    }
    let mut res = available;
    res.push(default_host);
    assert(strings_view(res@) =~= av.push(default_host@));
    res
}

/// One device entry: host, device, and whether it is the one in use.
pub open spec fn entry(host: Seq<char>, name: Seq<char>, current: Option<Seq<char>>) -> (Seq<char>, Seq<char>, bool) {
    (host, name, current == Some(name))
}

/// The device entries of one host: each listed device; where it listed none, its
/// default device (if any); where it could not be asked, none.
pub open spec fn host_entries(r: HostReportView, current: Option<Seq<char>>) -> Seq<(Seq<char>, Seq<char>, bool)> {
    match r.devices {
        Some(ds) => if ds.len() > 0 {
            Seq::new(ds.len(), |i: int| entry(r.host, ds[i], current))
        } else {
            match r.default_device {
                Some(d) => seq![entry(r.host, d, current)],
                None => Seq::empty(),
            }
        },
        None => Seq::empty(),
    }
}

/// The device entries of the hosts in order.
pub open spec fn device_list(rs: Seq<HostReportView>, current: Option<Seq<char>>) -> Seq<(Seq<char>, Seq<char>, bool)>
    decreases rs.len(),
{
    if rs.len() == 0 {
        Seq::empty()
    } else {
        device_list(rs.drop_last(), current) + host_entries(rs.last(), current)
    }
}

/// The plain values of device entries.
pub open spec fn entries_view(v: Seq<(String, String, bool)>) -> Seq<(Seq<char>, Seq<char>, bool)> {
    Seq::new(v.len(), |i: int| (v[i].0@, v[i].1@, v[i].2))
}

/// Whether a device name is the one in use.
fn is_current(name: &str, current: Option<&str>) -> (res: bool)
    ensures
        res == (match current { Some(c) => Some(c@), None => None } == Some(name@)),
{
    match current {
        Some(c) => str_eq(c, name),
        None => false,
    }
}

/// The output devices the hosts reported (see `device_list`), the one named
/// `current` marked.
pub fn device_entries(reports: &Vec<HostReport>, current: Option<&str>) -> (res: Vec<(String, String, bool)>)
    ensures
        entries_view(res@) == device_list(reports_view(reports@), match current { Some(c) => Some(c@), None => None }),
{
    let ghost rv = reports_view(reports@);
    let ghost cur = match current { Some(c) => Some(c@), None => None::<Seq<char>> };
    let mut res: Vec<(String, String, bool)> = Vec::new();
    let mut i: usize = 0;
    assert(rv.take(0) =~= Seq::<HostReportView>::empty());
    assert(entries_view(res@) =~= Seq::<(Seq<char>, Seq<char>, bool)>::empty());
    while i < reports.len()
        invariant
            i <= reports@.len() == rv.len(),
            rv == reports_view(reports@),
            cur == match current { Some(c) => Some(c@), None => None::<Seq<char>> },
            entries_view(res@) == device_list(rv.take(i as int), cur),
        decreases reports@.len() - i,
    {
        assert(rv.take(i + 1).drop_last() =~= rv.take(i as int));
        assert(rv.take(i + 1).last() == rv[i as int]);
        let ghost before = entries_view(res@);
        let r = &reports[i];
        match &r.devices {
            Some(ds) => {
                if ds.len() > 0 {
                    let mut j: usize = 0;
                    while j < ds.len()
                        invariant
                            j <= ds@.len(),
                            entries_view(res@) == before + Seq::new(j as nat, |k: int| entry(r.host@, ds@[k]@, cur)),
                            cur == match current { Some(c) => Some(c@), None => None::<Seq<char>> },
                        decreases ds@.len() - j,
                    {
                        let mark = is_current(ds[j].as_str(), current);
                        let ghost old = res@;
                        res.push((r.host.clone(), ds[j].clone(), mark));
                        assert(entries_view(res@) =~= entries_view(old).push(entry(r.host@, ds@[j as int]@, cur)));
                        assert(entries_view(res@) =~= before + Seq::new((j + 1) as nat, |k: int| entry(r.host@, ds@[k]@, cur)));
                        j = j + 1;
                    }
                    assert(Seq::new(j as nat, |k: int| entry(r.host@, ds@[k]@, cur))
                        =~= host_entries(rv[i as int], cur));
                } else {
                    match &r.default_device {
                        Some(d) => {
                            let mark = is_current(d.as_str(), current);
                            res.push((r.host.clone(), d.clone(), mark));
                            assert(entries_view(res@) =~= before + host_entries(rv[i as int], cur));
                        },
                        None => {
                            assert(entries_view(res@) =~= before + host_entries(rv[i as int], cur));
                        },
                    }
                }
            },
            None => {
                assert(entries_view(res@) =~= before + host_entries(rv[i as int], cur));
            },
        }
        i = i + 1;
    }
    assert(rv.take(i as int) =~= rv);
    res
}

/// The output device a setting asks for: none (the system default) where it is
/// unset or empty, else the named one.
pub fn device_choice(name: Option<&str>) -> (res: Option<String>)
    ensures
        match (res, name) {
            (Some(r), Some(n)) => r@ == n@ && n@.len() > 0,
            (None, Some(n)) => n@.len() == 0,
            (None, None) => true,
            (Some(_), None) => false,
        },
{
    match name {
        Some(n) => if n.is_empty() { None } else { Some(crate::text::copy_str(n)) },
        None => None,
    }
}

} // verus!
