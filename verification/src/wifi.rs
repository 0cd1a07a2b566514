//! WiFi mode bookkeeping and the pure parts of network handling: the
//! operating mode record, QR and URL strings, and the ordering and
//! deduplication of scan results. Driving the radio is the host's
//! business.

use vstd::multiset::Multiset;
use vstd::prelude::*;
use vstd::seq_lib::group_to_multiset_ensures;

use crate::text::{dec_digits, push_decimal_u8, str_eq};

verus! {

/// Saved WiFi credentials.
#[derive(Debug)]
pub struct WiFiCredentials {
    pub ssid: String,
    pub password: String,
}

/// Current WiFi operating mode.
#[derive(Debug)]
pub enum WiFiMode {
    AccessPoint { ip: [u8; 4] },
    Station { ssid: String, ip: [u8; 4] },
}

impl WiFiMode {
    pub fn is_station(&self) -> (r: bool)
        ensures
            r == (self matches WiFiMode::Station { .. }),
    {
        match self {
            WiFiMode::Station { .. } => true,
            WiFiMode::AccessPoint { .. } => false,
        }
    }

    pub fn ip(&self) -> (r: [u8; 4])
        ensures
            r@ == match self {
                WiFiMode::AccessPoint { ip } => ip@,
                WiFiMode::Station { ip, .. } => ip@,
            },
    {
        match self {
            WiFiMode::AccessPoint { ip } => *ip,
            WiFiMode::Station { ip, .. } => *ip,
        }
    }

    pub fn mode_str(&self) -> (r: &str)
        ensures
            r@ == match self {
                WiFiMode::AccessPoint { .. } => "ap"@,
                WiFiMode::Station { .. } => "sta"@,
            },
    {
        match self {
            WiFiMode::AccessPoint { .. } => "ap",
            WiFiMode::Station { .. } => "sta",
        }
    }

    pub fn ssid(&self) -> (r: Option<&str>)
        ensures
            match self {
                WiFiMode::Station { ssid, .. } => r matches Some(s) && s@ == ssid@,
                WiFiMode::AccessPoint { .. } => r is None,
            },
    {
        match self {
            WiFiMode::Station { ssid, .. } => Some(ssid.as_str()),
            WiFiMode::AccessPoint { .. } => None,
        }
    }
}

/// Scanned WiFi network info.
#[derive(Debug)]
pub struct ScannedNetwork {
    pub ssid: String,
    pub rssi: i8,
    pub auth: String,
}

/// Mathematical value of a [`ScannedNetwork`].
pub ghost struct NetView {
    pub ssid: Seq<char>,
    pub rssi: int,
    pub auth: Seq<char>,
}

impl View for ScannedNetwork {
    type V = NetView;

    open spec fn view(&self) -> NetView {
        NetView { ssid: self.ssid@, rssi: self.rssi as int, auth: self.auth@ }
    }
}

impl Clone for ScannedNetwork {
    fn clone(&self) -> (r: Self)
        ensures
            r@ == self@,
    {
        ScannedNetwork { ssid: self.ssid.clone(), rssi: self.rssi, auth: self.auth.clone() }
    }
}

/// The views of a network list.
pub open spec fn nets_view(s: Seq<ScannedNetwork>) -> Seq<NetView> {
    s.map_values(|n: ScannedNetwork| n@)
}

/// Generate the WiFi QR code string for auto-connecting to the
/// provisioning access point.
pub fn wifi_qr_string() -> (r: String)
    ensures
        r@ == "WIFI:T:WPA;S:DaysTracker;P:tracker123;;"@,
{
    String::from_str("WIFI:T:WPA;S:DaysTracker;P:tracker123;;")
}

/// Generate the web UI URL for an IP address: `http://a.b.c.d`.
pub fn web_url_from_ip(ip: [u8; 4]) -> (r: String)
    ensures
        r@ == "http://"@ + dec_digits(ip@[0] as int) + "."@ + dec_digits(ip@[1] as int) + "."@
            + dec_digits(ip@[2] as int) + "."@ + dec_digits(ip@[3] as int),
{
    let mut out = String::from_str("http://");
    push_decimal_u8(&mut out, ip[0]);
    out.append(".");
    push_decimal_u8(&mut out, ip[1]);
    out.append(".");
    push_decimal_u8(&mut out, ip[2]);
    out.append(".");
    push_decimal_u8(&mut out, ip[3]);
    out
}

/// Sort scan results by signal strength, strongest first: the result
/// holds the same networks, ordered.
fn sort_networks_by_rssi(v: Vec<ScannedNetwork>) -> (r: Vec<ScannedNetwork>)
    ensures
        nets_view(r@).to_multiset() == nets_view(v@).to_multiset(),
        forall|i: int, j: int|
            0 <= i < j < r@.len() ==> (#[trigger] nets_view(r@)[j]).rssi <= (#[trigger] nets_view(
                r@,
            )[i]).rssi,
{
    broadcast use group_to_multiset_ensures;
    broadcast use vstd::multiset::group_multiset_axioms;

    let mut src = v;
    let mut out: Vec<ScannedNetwork> = Vec::new();
    let ghost orig = nets_view(src@).to_multiset();
    proof {
        assert(nets_view(out@).to_multiset().add(nets_view(src@).to_multiset()) =~= orig);
    }
    while src.len() > 0
        invariant
            nets_view(out@).to_multiset().add(nets_view(src@).to_multiset()) == orig,
            forall|i: int, j: int|
                0 <= i < j < out@.len() ==> (#[trigger] nets_view(out@)[j]).rssi <= (
                #[trigger] nets_view(out@)[i]).rssi,
            forall|k: int, i: int|
                0 <= k < out@.len() && 0 <= i < src@.len() ==> (#[trigger] nets_view(src@)[i]).rssi
                    <= (#[trigger] nets_view(out@)[k]).rssi,
        decreases src@.len(),
    {
        // find the index of a strongest signal
        let mut m: usize = 0;
        let mut i: usize = 1;
        while i < src.len()
            invariant
                0 <= m < src@.len(),
                m < i <= src@.len(),
                forall|j: int|
                    0 <= j < i ==> (#[trigger] nets_view(src@)[j]).rssi <= nets_view(
                        src@,
                    )[m as int].rssi,
            decreases src@.len() - i,
        {
            if src[m].rssi <= src[i].rssi {
                m = i;
            }
            i += 1;
        }
        let ghost old_src = src@;
        let ghost old_out = out@;
        let t = src.remove(m);
        out.push(t);
        proof {
            broadcast use group_to_multiset_ensures;
            broadcast use vstd::multiset::group_multiset_axioms;

            let x = old_src[m as int]@;
            assert(nets_view(src@) =~= nets_view(old_src).remove(m as int));
            assert(nets_view(old_src)[m as int] == x);
            assert(nets_view(old_src).remove(m as int).to_multiset() == nets_view(
                old_src,
            ).to_multiset().remove(x));
            assert(nets_view(old_src).contains(x));
            assert(nets_view(old_src).to_multiset().count(x) > 0);
            assert(nets_view(out@) =~= nets_view(old_out).push(x));
            assert(nets_view(out@).to_multiset() == nets_view(old_out).to_multiset().insert(x));
            assert(nets_view(out@).to_multiset().add(nets_view(src@).to_multiset()) =~= orig);
            let outv = nets_view(out@);
            let srcv = nets_view(src@);
            let oldsv = nets_view(old_src);
            assert forall|k: int, i2: int|
                0 <= k < outv.len() && 0 <= i2 < srcv.len() implies (#[trigger] srcv[i2]).rssi <= (
            #[trigger] outv[k]).rssi by {
                assert(srcv[i2] == if i2 < m as int {
                    oldsv[i2]
                } else {
                    oldsv[i2 + 1]
                });
                if k < outv.len() - 1 {
                    assert(outv[k] == nets_view(old_out)[k]);
                } else {
                    assert(outv[k] == x);
                }
            }
            assert forall|a: int, b: int| 0 <= a < b < outv.len() implies (
            #[trigger] outv[b]).rssi <= (#[trigger] outv[a]).rssi by {
                if b < outv.len() - 1 {
                    assert(outv[a] == nets_view(old_out)[a]);
                    assert(outv[b] == nets_view(old_out)[b]);
                } else {
                    assert(outv[a] == nets_view(old_out)[a]);
                    assert(outv[b] == x);
                    assert(oldsv[m as int] == x);
                }
            }
        }
    }
    proof {
        assert(nets_view(src@).to_multiset() =~= Multiset::empty());
        assert(nets_view(out@).to_multiset() =~= orig);
    }
    out
}

/// The index of a network with this SSID in the list, if one is there.
fn find_ssid(nets: &Vec<ScannedNetwork>, ssid: &str) -> (r: Option<usize>)
    ensures
        r matches Some(k) ==> k < nets@.len() && (nets_view(nets@)[k as int]).ssid == ssid@,
        r is None ==> forall|k: int|
            0 <= k < nets@.len() ==> (#[trigger] nets_view(nets@)[k]).ssid != ssid@,
{
    let mut k: usize = 0;
    while k < nets.len()
        invariant
            0 <= k <= nets@.len(),
            forall|j: int| 0 <= j < k ==> (#[trigger] nets_view(nets@)[j]).ssid != ssid@,
        decreases nets@.len() - k,
    {
        if str_eq(nets[k].ssid.as_str(), ssid) {
            proof {
                assert((nets_view(nets@)[k as int]).ssid == ssid@);
            }
            return Some(k);
        }
        k += 1;
    }
    None
}

/// Some entry of `r` has this network's SSID and at least its signal
/// strength.
pub open spec fn ssid_covered(r: Seq<NetView>, v: NetView) -> bool {
    exists|i: int| 0 <= i < r.len() && (#[trigger] r[i]).ssid == v.ssid && r[i].rssi >= v.rssi
}

/// Order scan results by signal strength, strongest first, and keep one
/// entry per SSID: the strongest. Every entry of the result comes from
/// the input, and every input network is covered by an entry with its
/// SSID and at least its signal strength.
#[verifier::rlimit(100)]
pub fn dedup_networks(networks: Vec<ScannedNetwork>) -> (r: Vec<ScannedNetwork>)
    ensures
        forall|i: int, j: int|
            0 <= i < j < r@.len() ==> (#[trigger] nets_view(r@)[j]).rssi <= (#[trigger] nets_view(
                r@,
            )[i]).rssi,
        forall|i: int, j: int|
            0 <= i < j < r@.len() ==> (#[trigger] nets_view(r@)[i]).ssid != (#[trigger] nets_view(
                r@,
            )[j]).ssid,
        forall|i: int|
            0 <= i < r@.len() ==> nets_view(networks@).contains(#[trigger] nets_view(r@)[i]),
        forall|k: int|
            0 <= k < networks@.len() ==> ssid_covered(
                nets_view(r@),
                #[trigger] nets_view(networks@)[k],
            ),
{
    broadcast use group_to_multiset_ensures;
    broadcast use vstd::multiset::group_multiset_axioms;

    let sorted = sort_networks_by_rssi(networks);
    proof {
        assert forall|k: int| 0 <= k < nets_view(sorted@).len() implies nets_view(
            networks@,
        ).contains(#[trigger] nets_view(sorted@)[k]) by {
            assert(nets_view(sorted@).contains(nets_view(sorted@)[k]));
            assert(nets_view(sorted@).to_multiset().count(nets_view(sorted@)[k]) > 0);
            assert(nets_view(networks@).to_multiset().count(nets_view(sorted@)[k]) > 0);
        }
        assert forall|k: int| 0 <= k < nets_view(networks@).len() implies nets_view(
            sorted@,
        ).contains(#[trigger] nets_view(networks@)[k]) by {
            assert(nets_view(networks@).contains(nets_view(networks@)[k]));
            assert(nets_view(networks@).to_multiset().count(nets_view(networks@)[k]) > 0);
            assert(nets_view(sorted@).to_multiset().count(nets_view(networks@)[k]) > 0);
        }
    }
    let n = sorted.len();
    let mut out: Vec<ScannedNetwork> = Vec::new();
    let mut i: usize = 0;
    while i < n
        invariant
            0 <= i <= n,
            n == sorted@.len(),
            forall|a: int, b: int|
                0 <= a < b < sorted@.len() ==> (#[trigger] nets_view(sorted@)[b]).rssi <= (
                #[trigger] nets_view(sorted@)[a]).rssi,
            forall|a: int, b: int|
                0 <= a < b < out@.len() ==> (#[trigger] nets_view(out@)[b]).rssi <= (
                #[trigger] nets_view(out@)[a]).rssi,
            forall|a: int, b: int|
                0 <= a < b < out@.len() ==> (#[trigger] nets_view(out@)[a]).ssid != (
                #[trigger] nets_view(out@)[b]).ssid,
            forall|k: int|
                0 <= k < sorted@.len() ==> nets_view(networks@).contains(
                    #[trigger] nets_view(sorted@)[k],
                ),
            forall|a: int|
                0 <= a < out@.len() ==> nets_view(networks@).contains(
                    #[trigger] nets_view(out@)[a],
                ),
            // everything already kept is at least as strong as everything
            // still unprocessed
            forall|a: int, j: int|
                0 <= a < out@.len() && i <= j < n ==> (#[trigger] nets_view(sorted@)[j]).rssi
                    <= (#[trigger] nets_view(out@)[a]).rssi,
            // every network seen so far is covered by a kept entry
            forall|j: int|
                0 <= j < i ==> ssid_covered(nets_view(out@), #[trigger] nets_view(sorted@)[j]),
        decreases n - i,
    {
        let ghost old_out = out@;
        let found = find_ssid(&out, sorted[i].ssid.as_str());
        match found {
            None => {
                let copy = sorted[i].clone();
                out.push(copy);
                proof {
                    assert(nets_view(out@) =~= nets_view(old_out).push(
                        nets_view(sorted@)[i as int],
                    ));
                    assert(forall|a2: int|
                        0 <= a2 < old_out.len() ==> #[trigger] nets_view(out@)[a2] == nets_view(
                            old_out,
                        )[a2]);
                    assert forall|a: int|
                        0 <= a < out@.len() implies nets_view(networks@).contains(
                        #[trigger] nets_view(out@)[a],
                    ) by {
                        if a < old_out.len() {
                            assert(nets_view(out@)[a] == nets_view(old_out)[a]);
                        } else {
                            assert(nets_view(out@)[a] == nets_view(sorted@)[i as int]);
                        }
                    }
                    assert forall|a: int, b: int|
                        0 <= a < b < out@.len() implies (#[trigger] nets_view(out@)[b]).rssi <= (
                    #[trigger] nets_view(out@)[a]).rssi by {
                        if b == out@.len() - 1 {
                            assert(nets_view(out@)[b] == nets_view(sorted@)[i as int]);
                            assert(nets_view(out@)[a] == nets_view(old_out)[a]);
                        }
                    }
                    assert forall|a: int, j: int|
                        0 <= a < out@.len() && i + 1 <= j < n implies (#[trigger] nets_view(
                        sorted@,
                    )[j]).rssi <= (#[trigger] nets_view(out@)[a]).rssi by {
                        if a == out@.len() - 1 {
                            assert(nets_view(out@)[a] == nets_view(sorted@)[i as int]);
                        } else {
                            assert(nets_view(out@)[a] == nets_view(old_out)[a]);
                        }
                    }
                    assert forall|j: int|
                        0 <= j < i + 1 implies ssid_covered(
                        nets_view(out@),
                        #[trigger] nets_view(sorted@)[j],
                    ) by {
                        if j == i {
                            assert((nets_view(out@)[out@.len() - 1]) == nets_view(
                                sorted@,
                            )[i as int]);
                        } else {
                            let a0 = choose|a0: int|
                                0 <= a0 < nets_view(old_out).len() && (#[trigger] nets_view(
                                    old_out,
                                )[a0]).ssid == nets_view(sorted@)[j].ssid && nets_view(
                                    old_out,
                                )[a0].rssi >= nets_view(sorted@)[j].rssi;
                            assert((nets_view(out@)[a0]).ssid == nets_view(sorted@)[j].ssid
                                && nets_view(out@)[a0].rssi >= nets_view(sorted@)[j].rssi);
                        }
                    }
                }
            },
            Some(k) => {
                proof {
                    // the entry already kept for this SSID is at least as
                    // strong, by the domination invariant
                    assert((nets_view(out@)[k as int]).rssi >= nets_view(sorted@)[i as int].rssi);
                    assert forall|j: int|
                        0 <= j < i + 1 implies ssid_covered(
                        nets_view(out@),
                        #[trigger] nets_view(sorted@)[j],
                    ) by {
                        if j == i {
                            assert((k as int) < out@.len());
                            assert((nets_view(out@)[k as int]).ssid == nets_view(
                                sorted@,
                            )[i as int].ssid);
                        }
                    }
                }
            },
        }
        i += 1;
    }
    proof {
        assert forall|k: int| 0 <= k < networks@.len() implies ssid_covered(
            nets_view(out@),
            #[trigger] nets_view(networks@)[k],
        ) by {
            assert(nets_view(sorted@).contains(nets_view(networks@)[k]));
            let j = choose|j: int|
                0 <= j < nets_view(sorted@).len() && nets_view(sorted@)[j] == nets_view(
                    networks@,
                )[k];
            assert(ssid_covered(nets_view(out@), nets_view(sorted@)[j]));
        }
    }
    out
}

} // verus!
