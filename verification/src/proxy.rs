//! Local proxies: what a proxy is, and where one is looked for.

use crate::text::{chars_of, decimal, decimal_digits, push_all, push_str, to_string};
use vstd::prelude::*;

verus! {

/// The protocol of a proxy.
#[derive(Clone, Copy, Debug, PartialEq, Eq, Structural)]
pub enum ProxyType {
    Http,
    Socks5,
}

/// A proxy.
pub struct ProxyInfo {
    pub proxy_type: ProxyType,
    pub host: String,
    pub port: u16,
}

/// Looks for a proxy on this machine.
pub struct ProxyDetector;

/// The scheme of a proxy address.
pub open spec fn scheme_of(proxy_type: ProxyType) -> Seq<char> {
    match proxy_type {
        ProxyType::Http => "http"@,
        ProxyType::Socks5 => "socks5"@,
    }
}

/// The ports on which proxies usually listen, the likeliest first.
pub open spec fn usual_ports() -> Seq<(u16, ProxyType)> {
    seq![
        (7890u16, ProxyType::Http),
        (7891u16, ProxyType::Http),
        (10808u16, ProxyType::Http),
        (10809u16, ProxyType::Socks5),
        (1080u16, ProxyType::Socks5),
        (8080u16, ProxyType::Http),
    ]
}

impl Default for ProxyType {
    fn default() -> (out: Self)
        ensures
            out == ProxyType::Http,
    {
        ProxyType::Http
    }
}

impl ProxyType {
    /// The scheme that stands for this protocol in an address.
    pub fn scheme(&self) -> (out: String)
        ensures
            out@ == scheme_of(*self),
    {
        match self {
            ProxyType::Http => "http".to_owned(),
            ProxyType::Socks5 => "socks5".to_owned(),
        }
    }
}

impl ProxyInfo {
    /// A proxy of the protocol `proxy_type` at `host:port`.
    pub fn new(proxy_type: ProxyType, host: String, port: u16) -> (out: Self)
        ensures
            out.proxy_type == proxy_type,
            out.host == host,
            out.port == port,
    {
        ProxyInfo { proxy_type, host, port }
    }

    /// The address of the proxy: `scheme://host:port`.
    pub fn to_url(&self) -> (url: String)
        ensures
            url@ == scheme_of(self.proxy_type) + "://"@ + self.host@ + ":"@ + decimal(
                self.port as nat,
            ),
    {
        let mut u = chars_of(self.proxy_type.scheme().as_str());
        push_str(&mut u, "://");
        push_str(&mut u, self.host.as_str());
        push_str(&mut u, ":");
        let digits = decimal_digits(self.port as u64);
        push_all(&mut u, &digits);
        to_string(&u)
    }
}

impl ProxyDetector {
    /// The ports to try on this machine, in order, each with the protocol
    /// that is usual on it.
    pub fn common_ports() -> (out: Vec<(u16, ProxyType)>)
        ensures
            out@ == usual_ports(),
    {
        let mut out: Vec<(u16, ProxyType)> = Vec::new();
        out.push((7890, ProxyType::Http));
        out.push((7891, ProxyType::Http));
        out.push((10808, ProxyType::Http));
        out.push((10809, ProxyType::Socks5));
        out.push((1080, ProxyType::Socks5));
        out.push((8080, ProxyType::Http));
        proof {
            assert(out@ =~= usual_ports());
        }
        out
    }

    /// The proxy to use, given which of the usual ports answered: the first
    /// of them, on this machine.
    pub fn first_available(answered: &Vec<bool>) -> (out: Option<ProxyInfo>)
        ensures
            match out {
                Some(p) => exists|i: int|
                    {
                        &&& 0 <= i < answered@.len()
                        &&& i < usual_ports().len()
                        &&& answered@[i]
                        &&& forall|j: int| 0 <= j < i ==> !answered@[j]
                        &&& p.port == usual_ports()[i].0
                        &&& p.proxy_type == usual_ports()[i].1
                        &&& p.host@ == "127.0.0.1"@
                    },
                None => forall|i: int|
                    0 <= i < answered@.len() && i < usual_ports().len() ==> !answered@[i],
            },
    {
        let ports = ProxyDetector::common_ports();
        let mut i: usize = 0;
        while i < ports.len() && i < answered.len()
            invariant
                i <= ports@.len(),
                i <= answered@.len(),
                ports@ == usual_ports(),
                forall|j: int| 0 <= j < i ==> !answered@[j],
            decreases ports.len() - i,
        {
            if answered[i] {
                let (port, proxy_type) = ports[i];
                return Some(ProxyInfo::new(proxy_type, "127.0.0.1".to_owned(), port));
            }
            i = i + 1;
        }
        None
    }
}

} // verus!
