//! Wireless connect and disconnect: the argument vectors handed to the
//! bridge tool and the decision over its captured output.
//!
//! A connect attempt counts as successful exactly when the tool's standard
//! output contains the substring `connected`; otherwise the captured output
//! and error text are surfaced verbatim in the failure message.

use vstd::prelude::*;

use crate::config::arg_views;
use crate::text::chars_of;
use crate::text::with_detail;

verus! {

/// `n` occurs in `h` starting at index `i`.
pub open spec fn contains_at(h: Seq<char>, n: Seq<char>, i: int) -> bool {
    0 <= i && i + n.len() <= h.len() && h.subrange(i, i + n.len() as int) == n
}

/// `n` occurs somewhere in `h`.
pub open spec fn contains_seq(h: Seq<char>, n: Seq<char>) -> bool {
    exists|i: int| contains_at(h, n, i)
}

fn match_at(h: &Vec<char>, n: &Vec<char>, i: usize) -> (r: bool)
    requires
        i + n@.len() <= h@.len(),
    ensures
        r == contains_at(h@, n@, i as int),
{
    let hlen = h.len();
    let mut k: usize = 0;
    while k < n.len()
        invariant
            k <= n@.len(),
            i + n@.len() <= h@.len(),
            hlen == h@.len(),
            forall|j: int| 0 <= j < k ==> h@[i + j] == n@[j],
        decreases n@.len() - k,
    {
        proof {
            assert(i + k < hlen);
        }
        if h[i + k] != n[k] {
            proof {
                assert(h@.subrange(i as int, i + n@.len()) != n@) by {
                    assert(h@.subrange(i as int, i + n@.len())[k as int] == h@[i + k]);
                }
            }
            return false;
        }
        k += 1;
    }
    proof {
        assert(h@.subrange(i as int, i + n@.len()) =~= n@);
    }
    true
}

/// Substring search, as `str::contains` decides it for plain text.
fn contains_chars(h: &Vec<char>, n: &Vec<char>) -> (r: bool)
    ensures
        r == contains_seq(h@, n@),
{
    if n.len() > h.len() {
        proof {
            assert(forall|i: int| !contains_at(h@, n@, i));
        }
        return false;
    }
    if n.len() == 0 {
        proof {
            assert(contains_at(h@, n@, 0)) by {
                assert(h@.subrange(0, 0) =~= n@);
            }
        }
        return true;
    }
    let last = h.len() - n.len();
    let mut i: usize = 0;
    while i <= last
        invariant
            i <= last + 1,
            1 <= n@.len() <= h@.len(),
            last == h@.len() - n@.len(),
            last < h@.len() <= usize::MAX,
            forall|j: int| 0 <= j < i ==> !contains_at(h@, n@, j),
        decreases last - i + 1,
    {
        if match_at(h, n, i) {
            proof {
                assert(contains_at(h@, n@, i as int));
            }
            return true;
        }
        i += 1;
    }
    proof {
        assert(forall|j: int| !contains_at(h@, n@, j)) by {
            assert(forall|j: int| j > last ==> !contains_at(h@, n@, j));
        }
    }
    false
}

/// Whether `needle` occurs in `hay`.
pub fn contains_text(hay: &str, needle: &str) -> (r: bool)
    ensures
        r == contains_seq(hay@, needle@),
{
    let h = chars_of(hay);
    let n = chars_of(needle);
    contains_chars(&h, &n)
}

/// The network address a connect attempt targets.
pub open spec fn address_of(ip: Seq<char>, port: Seq<char>) -> Seq<char> {
    ip + ":"@ + port
}

/// The argument vector of the bridge tool's connect subcommand.
pub fn connect_args(ip: &str, port: &str) -> (r: Vec<String>)
    ensures
        arg_views(r@) == seq!["connect"@, address_of(ip@, port@)],
{
    let mut address = String::from_str(ip);
    address.append(":");
    address.append(port);
    let mut r: Vec<String> = Vec::new();
    r.push(String::from_str("connect"));
    r.push(address);
    proof {
        assert(arg_views(r@) =~= seq!["connect"@, address_of(ip@, port@)]);
    }
    r
}

/// The argument vector of the bridge tool's disconnect subcommand.
pub fn disconnect_args(device_id: &str) -> (r: Vec<String>)
    ensures
        arg_views(r@) == seq!["disconnect"@, device_id@],
{
    let mut r: Vec<String> = Vec::new();
    r.push(String::from_str("disconnect"));
    r.push(String::from_str(device_id));
    proof {
        assert(arg_views(r@) =~= seq!["disconnect"@, device_id@]);
    }
    r
}

/// Decides a connect attempt from the tool's captured output: success, with
/// a confirmation naming the address, exactly when standard output contains
/// `connected`; otherwise a failure carrying both captured texts verbatim.
pub fn connect_outcome(ip: &str, port: &str, out: &str, err: &str) -> (r: Result<String, String>)
    ensures
        r is Ok <==> contains_seq(out@, "connected"@),
        r matches Ok(m) ==> m@ == "Bağlandı: "@ + address_of(ip@, port@),
        r matches Err(m) ==> m@ == "Bağlantı başarısız: "@ + out@ + " "@ + err@,
{
    if contains_text(out, "connected") {
        let mut m = String::from_str("Bağlandı: ");
        m.append(ip);
        m.append(":");
        m.append(port);
        proof {
            assert(m@ =~= "Bağlandı: "@ + address_of(ip@, port@));
        }
        Ok(m)
    } else {
        let mut m = String::from_str("Bağlantı başarısız: ");
        m.append(out);
        m.append(" ");
        m.append(err);
        proof {
            assert(m@ =~= "Bağlantı başarısız: "@ + out@ + " "@ + err@);
        }
        Err(m)
    }
}

/// The failure text when the connect subprocess cannot be launched.
pub fn connect_error_message(detail: &str) -> (r: String)
    ensures
        r@ == "Bağlantı hatası: "@ + detail@,
{
    with_detail("Bağlantı hatası: ", detail)
}

/// The failure text when the disconnect subprocess cannot be launched.
pub fn disconnect_error_message(detail: &str) -> (r: String)
    ensures
        r@ == "Bağlantı kesme hatası: "@ + detail@,
{
    with_detail("Bağlantı kesme hatası: ", detail)
}

} // verus!
