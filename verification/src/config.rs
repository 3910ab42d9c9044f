//! What the controller is told to do.

use vstd::prelude::*;
use vstd::string::StringExecFns;
use crate::hcloud::FirewallRule;
use crate::hcloud::RuleView;
use crate::rules::build_firewall_rules;
use crate::rules::desired_rules;
use crate::text::clone_texts;

verus! {

/// The name of the firewall, unless another is given.
pub const DEFAULT_FIREWALL_NAME: &'static str = "hcloud-firewall-controller";

/// The seconds between two cycles, unless another number is given.
pub const DEFAULT_RECONCILIATION_INTERVAL: u64 = 60;

/// The address that is asked for the public address, unless another is
/// given.
pub const DEFAULT_IP_ENDPOINT: &'static str = "https://ip.fotoallerlei.com";

/// The configuration of the controller, fixed for the life of the process.
#[derive(Debug)]
pub struct Config {
    /// Run one cycle and stop.
    pub run_once: bool,
    /// The API tokens, one for each project whose firewall is kept.
    pub hcloud_token: Vec<String>,
    /// The name of the firewall to keep.
    pub firewall_name: String,
    /// The TCP ports, or port ranges, to admit.
    pub tcp: Vec<String>,
    /// The UDP ports, or port ranges, to admit.
    pub udp: Vec<String>,
    /// Admit ICMP.
    pub icmp: bool,
    /// Admit GRE.
    pub gre: bool,
    /// Admit ESP.
    pub esp: bool,
    /// Addresses in CIDR notation that are admitted besides the discovered
    /// ones.
    pub ip: Vec<String>,
    /// Do not look for the public IPv4 address.
    pub disable_ipv4: bool,
    /// Do not look for the public IPv6 address.
    pub disable_ipv6: bool,
    /// The seconds to rest between two cycles.
    pub reconciliation_interval: u64,
    /// The address that answers a GET with the caller's public address.
    pub ip_endpoint: String,
}

/// What a `Config` says.
pub struct ConfigView {
    pub run_once: bool,
    pub hcloud_token: Seq<Seq<char>>,
    pub firewall_name: Seq<char>,
    pub tcp: Seq<Seq<char>>,
    pub udp: Seq<Seq<char>>,
    pub icmp: bool,
    pub gre: bool,
    pub esp: bool,
    pub ip: Seq<Seq<char>>,
    pub disable_ipv4: bool,
    pub disable_ipv6: bool,
    pub reconciliation_interval: u64,
    pub ip_endpoint: Seq<char>,
}

impl View for Config {
    type V = ConfigView;

    open spec fn view(&self) -> ConfigView {
        ConfigView {
            run_once: self.run_once,
            hcloud_token: self.hcloud_token.deep_view(),
            firewall_name: self.firewall_name@,
            tcp: self.tcp.deep_view(),
            udp: self.udp.deep_view(),
            icmp: self.icmp,
            gre: self.gre,
            esp: self.esp,
            ip: self.ip.deep_view(),
            disable_ipv4: self.disable_ipv4,
            disable_ipv6: self.disable_ipv6,
            reconciliation_interval: self.reconciliation_interval,
            ip_endpoint: self.ip_endpoint@,
        }
    }
}

impl ConfigView {
    /// The rules that the configuration asks for, given the address set.
    pub open spec fn rules_for(self, ips: Seq<Seq<char>>) -> Seq<RuleView> {
        desired_rules(self.icmp, self.gre, self.esp, self.tcp, self.udp, ips)
    }
}

impl Clone for Config {
    fn clone(&self) -> (copy: Config)
        ensures
            copy@ == self@,
    {
        Config {
            run_once: self.run_once,
            hcloud_token: clone_texts(self.hcloud_token.as_slice()),
            firewall_name: self.firewall_name.clone(),
            tcp: clone_texts(self.tcp.as_slice()),
            udp: clone_texts(self.udp.as_slice()),
            icmp: self.icmp,
            gre: self.gre,
            esp: self.esp,
            ip: clone_texts(self.ip.as_slice()),
            disable_ipv4: self.disable_ipv4,
            disable_ipv6: self.disable_ipv6,
            reconciliation_interval: self.reconciliation_interval,
            ip_endpoint: self.ip_endpoint.clone(),
        }
    }
}

impl Default for Config {
    /// The configuration where nothing is given: a continuous run for no
    /// project, which admits nothing, looks for both addresses, and has the
    /// usual name, interval and endpoint.
    fn default() -> (config: Config)
        ensures
            config@ == (ConfigView {
                run_once: false,
                hcloud_token: Seq::empty(),
                firewall_name: DEFAULT_FIREWALL_NAME@,
                tcp: Seq::empty(),
                udp: Seq::empty(),
                icmp: false,
                gre: false,
                esp: false,
                ip: Seq::empty(),
                disable_ipv4: false,
                disable_ipv6: false,
                reconciliation_interval: DEFAULT_RECONCILIATION_INTERVAL,
                ip_endpoint: DEFAULT_IP_ENDPOINT@,
            }),
    {
        let config = Config {
            run_once: false,
            hcloud_token: Vec::new(),
            firewall_name: String::from_str(DEFAULT_FIREWALL_NAME),
            tcp: Vec::new(),
            udp: Vec::new(),
            icmp: false,
            gre: false,
            esp: false,
            ip: Vec::new(),
            disable_ipv4: false,
            disable_ipv6: false,
            reconciliation_interval: DEFAULT_RECONCILIATION_INTERVAL,
            ip_endpoint: String::from_str(DEFAULT_IP_ENDPOINT),
        };
        assert(config.hcloud_token.deep_view() =~= Seq::empty());
        assert(config.tcp.deep_view() =~= Seq::empty());
        assert(config.udp.deep_view() =~= Seq::empty());
        assert(config.ip.deep_view() =~= Seq::empty());
        config
    }
}

impl Config {
    /// The rules that the configuration asks for, given the address set.
    pub fn rules_for(&self, ips: &[String]) -> (rules: Vec<FirewallRule>)
        ensures
            rules.deep_view() == self@.rules_for(ips.deep_view()),
    {
        build_firewall_rules(&self.icmp, &self.gre, &self.esp, self.tcp.as_slice(), self.udp.as_slice(), ips)
    }
}

} // verus!
