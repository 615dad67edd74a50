//! What the host reports of the network, and how a failed report is read.

use crate::error::{result_view, XErrorView, XResult};
use crate::replicate::Replicate;
use vstd::prelude::*;
use vstd::string::*;

verus! {

/// The state of the network as the host reports it.
#[derive(Debug)]
pub struct NetworkInfo {
    pub has_system_proxy: bool,
    pub signal_strength: i32,
    /// The kind of connection; `none` where there is no connection.
    pub network_type: String,
    pub dns_error: bool,
    pub check_error: Option<String>,
}

pub struct NetworkInfoView {
    pub has_system_proxy: bool,
    pub signal_strength: i32,
    pub network_type: Seq<char>,
    pub dns_error: bool,
    pub check_error: Option<Seq<char>>,
}

impl DeepView for NetworkInfo {
    type V = NetworkInfoView;

    open spec fn deep_view(&self) -> NetworkInfoView {
        NetworkInfoView {
            has_system_proxy: self.has_system_proxy,
            signal_strength: self.signal_strength,
            network_type: self.network_type@,
            dns_error: self.dns_error,
            check_error: self.check_error.deep_view(),
        }
    }
}

impl View for NetworkInfo {
    type V = NetworkInfoView;

    open spec fn view(&self) -> NetworkInfoView {
        self.deep_view()
    }
}

impl Replicate for NetworkInfo {
    fn replicate(&self) -> (r: Self) {
        NetworkInfo {
            has_system_proxy: self.has_system_proxy,
            signal_strength: self.signal_strength,
            network_type: self.network_type.clone(),
            dns_error: self.dns_error,
            check_error: self.check_error.replicate(),
        }
    }
}

impl Clone for NetworkInfo {
    fn clone(&self) -> (r: Self)
        ensures
            r@ == self@,
    {
        self.replicate()
    }
}

/// What stands for the network's state where the host could not tell it.
pub open spec fn unknown_network(error: XErrorView) -> NetworkInfoView {
    NetworkInfoView {
        has_system_proxy: false,
        signal_strength: (-999i32),
        network_type: "unknown"@,
        dns_error: true,
        check_error: Some(error.text()),
    }
}

/// The network's state as the report gives it, or the unknown state with the error's text.
pub open spec fn network_of(report: Result<NetworkInfoView, XErrorView>) -> NetworkInfoView {
    match report {
        Ok(info) => info,
        Err(e) => unknown_network(e),
    }
}

/// Whether the report says that the domain resolves.
pub open spec fn dns_ok(report: Result<bool, XErrorView>) -> bool {
    report == Ok::<bool, XErrorView>(true)
}

/// The network's state as the host's report gives it. A failed report stands for a network of
/// the type `unknown`, with a DNS error and the failure's text.
pub fn check_network(report: XResult<NetworkInfo>) -> (r: NetworkInfo)
    ensures
        r@ == network_of(result_view(report)),
{
    match report {
        Ok(info) => info,
        Err(e) => NetworkInfo {
            has_system_proxy: false,
            signal_strength: -999,
            network_type: String::from_str("unknown"),
            dns_error: true,
            check_error: Some(e.message()),
        },
    }
}

/// Whether the host's report says that the domain resolves. A failed report says that it does
/// not.
pub fn check_dns(report: XResult<bool>) -> (r: bool)
    ensures
        r == (report matches Ok(true)),
{
    match report {
        Ok(true) => true,
        _ => false,
    }
}

} // verus!
