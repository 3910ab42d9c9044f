//! The public addresses of the host and the address set that the rules admit.

use vstd::prelude::*;
use vstd::arithmetic::power2::pow2;
use vstd::string::StringExecFns;
use crate::sorting::is_sorted;
use crate::sorting::lemma_sort_is_permutation;
use crate::sorting::lemma_sort_is_sorted;
use crate::sorting::sort_texts;
use crate::sorting::sorted_texts;
use crate::text::clone_texts;
use crate::text::decimal;
use crate::text::decimal_text;

verus! {

/// The error of `ipnet` for a prefix length that the address family lacks.
#[verifier::external_type_specification]
#[verifier::external_body]
pub struct ExPrefixLenError(ipnet::PrefixLenError);

/// The two address families.
#[derive(Clone, Copy, Debug, PartialEq, Eq, Structural)]
pub enum Family {
    V4,
    V6,
}

/// A public address as its bits, the first octet in the highest place.
#[derive(Clone, Copy, Debug, PartialEq, Eq, Structural)]
pub enum PublicIp {
    V4(u32),
    V6(u128),
}

impl PublicIp {
    /// The family of the address.
    pub open spec fn spec_family(self) -> Family {
        match self {
            PublicIp::V4(_) => Family::V4,
            PublicIp::V6(_) => Family::V6,
        }
    }

    /// The family of the address.
    #[verifier::when_used_as_spec(spec_family)]
    pub fn family(self) -> (family: Family)
        ensures
            family == self.spec_family(),
    {
        match self {
            PublicIp::V4(_) => Family::V4,
            PublicIp::V6(_) => Family::V6,
        }
    }
}

/// Why the public addresses could not be told.
#[derive(Debug)]
pub enum IpDiscoveryError {
    /// The request to the endpoint failed, or its answer was no address.
    Request(String),
    /// The answer was an address of the other family.
    WrongFamily,
    /// The prefix length is more than the address has bits.
    PrefixLength,
}

/// What an `IpDiscoveryError` says.
pub enum IpDiscoveryErrorView {
    Request(Seq<char>),
    WrongFamily,
    PrefixLength,
}

impl View for IpDiscoveryError {
    type V = IpDiscoveryErrorView;

    open spec fn view(&self) -> IpDiscoveryErrorView {
        match self {
            IpDiscoveryError::Request(reason) => IpDiscoveryErrorView::Request(reason@),
            IpDiscoveryError::WrongFamily => IpDiscoveryErrorView::WrongFamily,
            IpDiscoveryError::PrefixLength => IpDiscoveryErrorView::PrefixLength,
        }
    }
}

impl Clone for IpDiscoveryError {
    fn clone(&self) -> (copy: IpDiscoveryError)
        ensures
            copy@ == self@,
    {
        match self {
            IpDiscoveryError::Request(reason) => IpDiscoveryError::Request(reason.clone()),
            IpDiscoveryError::WrongFamily => IpDiscoveryError::WrongFamily,
            IpDiscoveryError::PrefixLength => IpDiscoveryError::PrefixLength,
        }
    }
}

impl IpDiscoveryErrorView {
    /// The error in words.
    pub open spec fn message(self) -> Seq<char> {
        match self {
            IpDiscoveryErrorView::Request(reason) => reason,
            IpDiscoveryErrorView::WrongFamily => "address of the wrong family"@,
            IpDiscoveryErrorView::PrefixLength => "invalid IP prefix length"@,
        }
    }
}

impl IpDiscoveryError {
    /// The error in words, for a log: the reason of a failed request as it
    /// came, a fixed text for the others.
    pub fn message(&self) -> (text: String)
        ensures
            text@ == self@.message(),
    {
        match self {
            IpDiscoveryError::Request(reason) => reason.clone(),
            IpDiscoveryError::WrongFamily => String::from_str("address of the wrong family"),
            IpDiscoveryError::PrefixLength => String::from_str("invalid IP prefix length"),
        }
    }
}

/// An IPv4 address in dotted decimal notation.
pub open spec fn dotted_quad(addr: u32) -> Seq<char> {
    decimal((addr / 0x100_0000) as nat) + "."@ + decimal((addr / 0x1_0000 % 0x100) as nat) + "."@ + decimal(
        (addr / 0x100 % 0x100) as nat,
    ) + "."@ + decimal((addr % 0x100) as nat)
}

/// The single IPv4 address in CIDR notation.
pub open spec fn ipv4_cidr(addr: u32) -> Seq<char> {
    dotted_quad(addr) + "/"@ + decimal(32)
}

/// The text that the `Display` of std's `Ipv6Addr` gives the address of
/// these bits.
pub uninterp spec fn ipv6_text(addr: u128) -> Seq<char>;

/// The first address of the network that an IPv6 address lies in: the bits
/// of the address behind the prefix set to zero.
pub open spec fn ipv6_network(addr: u128, prefix_len: u8) -> u128
    recommends
        prefix_len <= 128,
{
    (addr - (addr as nat) % pow2((128 - prefix_len) as nat)) as u128
}

/// The network of an IPv6 address in CIDR notation.
pub open spec fn ipv6_cidr(addr: u128, prefix_len: u8) -> Seq<char> {
    ipv6_text(ipv6_network(addr, prefix_len)) + "/"@ + decimal(prefix_len as nat)
}

/// Writes an IPv4 address in dotted decimal notation.
pub fn ipv4_text(addr: u32) -> (text: String)
    ensures
        text@ == dotted_quad(addr),
{
    let text = decimal_text(addr / 0x100_0000).concat(".").concat(
        decimal_text(addr / 0x1_0000 % 0x100).as_str(),
    ).concat(".").concat(decimal_text(addr / 0x100 % 0x100).as_str()).concat(".").concat(
        decimal_text(addr % 0x100).as_str(),
    );
    text
}

/// The network of an IPv6 address in CIDR notation, as `ipnet` writes it:
/// `Ipv6Net::new` refuses a prefix length over 128 and nothing else; `trunc`
/// clears the bits of the address behind the prefix; the `Display` of the
/// result is the text that std gives that address, a slash and the prefix
/// length in decimal.
#[verifier::external_body]
fn ipv6_network_text(addr: u128, prefix_len: u8) -> (cidr: Result<String, ipnet::PrefixLenError>)
    ensures
        cidr is Ok <==> prefix_len <= 128,
        cidr matches Ok(text) ==> text@ == ipv6_text(ipv6_network(addr, prefix_len)) + "/"@ + decimal(
            prefix_len as nat,
        ),
{
    let net = ipnet::Ipv6Net::new(addr.into(), prefix_len)?;
    Ok(net.trunc().to_string())
}

/// The network that an IPv6 address lies in, in CIDR notation.
pub fn ipv6_network_cidr(addr: u128, prefix_len: u8) -> (cidr: Result<String, IpDiscoveryError>)
    ensures
        match cidr {
            Ok(text) => prefix_len <= 128 && text@ == ipv6_cidr(addr, prefix_len),
            Err(error) => prefix_len > 128 && error@ == IpDiscoveryErrorView::PrefixLength,
        },
{
    match ipv6_network_text(addr, prefix_len) {
        Ok(text) => Ok(text),
        Err(_) => Err(IpDiscoveryError::PrefixLength),
    }
}

/// The addresses that the rules admit, before they are sorted: the static
/// ones as they are, the IPv4 address alone, the IPv6 address with its /64
/// network. An address of the wrong family is refused.
pub open spec fn discovered(
    static_ips: Seq<Seq<char>>,
    ip4: Option<PublicIp>,
    ip6: Option<PublicIp>,
) -> Result<Seq<Seq<char>>, IpDiscoveryErrorView> {
    match (ip4, ip6) {
        (Some(PublicIp::V6(_)), _) => Err(IpDiscoveryErrorView::WrongFamily),
        (_, Some(PublicIp::V4(_))) => Err(IpDiscoveryErrorView::WrongFamily),
        _ => Ok(
            static_ips + (match ip4 {
                Some(PublicIp::V4(addr)) => seq![ipv4_cidr(addr)],
                _ => Seq::empty(),
            }) + (match ip6 {
                Some(PublicIp::V6(addr)) => seq![ipv6_cidr(addr, 64)],
                _ => Seq::empty(),
            }),
        ),
    }
}

/// The address set: what was discovered, sorted.
pub open spec fn address_set(
    static_ips: Seq<Seq<char>>,
    ip4: Option<PublicIp>,
    ip6: Option<PublicIp>,
) -> Result<Seq<Seq<char>>, IpDiscoveryErrorView> {
    match discovered(static_ips, ip4, ip6) {
        Ok(found) => Ok(sort_texts(found)),
        Err(error) => Err(error),
    }
}

/// The address set is sorted, holds every static address, the IPv4 address
/// as `/32` where there is one, and the `/64` network of the IPv6 address
/// where there is one; and it holds nothing else: it has as many entries as
/// went in.
pub proof fn lemma_address_set_holds_what_went_in(
    static_ips: Seq<Seq<char>>,
    ip4: Option<PublicIp>,
    ip6: Option<PublicIp>,
)
    requires
        address_set(static_ips, ip4, ip6) is Ok,
    ensures
        ({
            let ips = address_set(static_ips, ip4, ip6)->Ok_0;
            let found = discovered(static_ips, ip4, ip6)->Ok_0;
            &&& is_sorted(ips)
            &&& ips.to_multiset() == found.to_multiset()
            &&& ips.len() == static_ips.len() + (if ip4 is Some { 1int } else { 0 }) + (if ip6 is Some {
                1int
            } else {
                0
            })
            &&& forall|i: int| 0 <= i < static_ips.len() ==> ips.contains(#[trigger] static_ips[i])
            &&& ip4 matches Some(PublicIp::V4(addr)) ==> ips.contains(ipv4_cidr(addr))
            &&& ip6 matches Some(PublicIp::V6(addr)) ==> ips.contains(ipv6_cidr(addr, 64))
        }),
{
    broadcast use vstd::seq_lib::group_to_multiset_ensures;

    let found = discovered(static_ips, ip4, ip6)->Ok_0;
    let ips = sort_texts(found);
    lemma_sort_is_sorted(found);
    lemma_sort_is_permutation(found);
    assert forall|text: Seq<char>| found.contains(text) implies ips.contains(text) by {
        assert(found.to_multiset().count(text) > 0);
    }
    assert forall|i: int| 0 <= i < static_ips.len() implies ips.contains(#[trigger] static_ips[i]) by {
        assert(found[i] == static_ips[i]);
    }
    if let Some(PublicIp::V4(addr)) = ip4 {
        assert(found[static_ips.len() as int] == ipv4_cidr(addr));
    }
    if let Some(PublicIp::V6(addr)) = ip6 {
        assert(found[found.len() - 1] == ipv6_cidr(addr, 64));
    }
}

/// Builds the address set from the static addresses and the public
/// addresses of the host, where `None` stands for a family that is switched
/// off: every static address as it is, the IPv4 address as `/32`, the `/64`
/// network of the IPv6 address, all sorted as strings.
pub fn build_ips(static_ips: &[String], ip4: Option<PublicIp>, ip6: Option<PublicIp>) -> (ips: Result<
    Vec<String>,
    IpDiscoveryError,
>)
    ensures
        match ips {
            Ok(set) => address_set(static_ips.deep_view(), ip4, ip6) == Ok::<_, IpDiscoveryErrorView>(
                set.deep_view(),
            ) && is_sorted(set.deep_view()),
            Err(error) => address_set(static_ips.deep_view(), ip4, ip6) == Err::<Seq<Seq<char>>, _>(error@),
        },
{
    let mut ips = clone_texts(static_ips);
    match ip4 {
        Some(PublicIp::V4(addr)) => {
            let ghost before = ips.deep_view();
            ips.push(ipv4_text(addr).concat("/").concat(decimal_text(32).as_str()));
            assert(ips.deep_view() =~= before.push(ipv4_cidr(addr)));
        },
        Some(PublicIp::V6(_)) => {
            return Err(IpDiscoveryError::WrongFamily);
        },
        None => {},
    }
    match ip6 {
        Some(PublicIp::V6(addr)) => {
            let ghost before = ips.deep_view();
            match ipv6_network_cidr(addr, 64) {
                Ok(cidr) => {
                    ips.push(cidr);
                },
                Err(error) => {
                    return Err(error);
                },
            }
            assert(ips.deep_view() =~= before.push(ipv6_cidr(addr, 64)));
        },
        Some(PublicIp::V4(_)) => {
            return Err(IpDiscoveryError::WrongFamily);
        },
        None => {},
    }
    assert(ips.deep_view() =~= discovered(static_ips.deep_view(), ip4, ip6)->Ok_0);
    Ok(sorted_texts(ips.as_slice()))
}

} // verus!
