//! Replies: the reply parser, the `EHLO` reply and its capabilities, and
//! the writers.

use vstd::prelude::*;
use crate::EhloResponse;

pub mod explain;
pub mod generate;
pub mod parser;
pub mod roundtrip;

verus! {

/// `"8BITMIME"`
pub const _8BITMIME: u128 = 0x454d494d54494238;
/// `"ATRN"`
pub const ATRN: u128 = 0x4e525441;
/// `"AUTH"`
pub const AUTH: u128 = 0x48545541;
/// `"BINARYMIME"`
pub const BINARYMIME: u128 = 0x454d494d5952414e4942;
/// `"BURL"`
pub const BURL: u128 = 0x4c525542;
/// `"CHECKPOINT"`
pub const CHECKPOINT: u128 = 0x544e494f504b43454843;
/// `"CHUNKING"`
pub const CHUNKING: u128 = 0x474e494b4e554843;
/// `"CONNEG"`
pub const CONNEG: u128 = 0x47454e4e4f43;
/// `"CONPERM"`
pub const CONPERM: u128 = 0x4d5245504e4f43;
/// `"DELIVERBY"`
pub const DELIVERBY: u128 = 0x5942524556494c4544;
/// `"DSN"`
pub const DSN: u128 = 0x4e5344;
/// `"ENHANCEDSTATUSCO"`
pub const ENHANCEDSTATUSCO: u128 = 0x4f435355544154534445434e41484e45;
/// `"ETRN"`
pub const ETRN: u128 = 0x4e525445;
/// `"EXPN"`
pub const EXPN: u128 = 0x4e505845;
/// `"VRFY"`
pub const VRFY: u128 = 0x59465256;
/// `"FUTURERELEASE"`
pub const FUTURERELEASE: u128 = 0x455341454c4552455255545546;
/// `"HELP"`
pub const HELP: u128 = 0x504c4548;
/// `"MT-PRIORITY"`
pub const MT_PRIORITY: u128 = 0x595449524f4952502d544d;
/// `"MTRK"`
pub const MTRK: u128 = 0x4b52544d;
/// `"NO-SOLICITING"`
pub const NO_SOLICITING: u128 = 0x474e49544943494c4f532d4f4e;
/// `"ONEX"`
pub const ONEX: u128 = 0x58454e4f;
/// `"PIPELINING"`
pub const PIPELINING: u128 = 0x474e494e494c45504950;
/// `"REQUIRETLS"`
pub const REQUIRETLS: u128 = 0x534c5445524955514552;
/// `"RRVS"`
pub const RRVS: u128 = 0x53565252;
/// `"SIZE"`
pub const SIZE: u128 = 0x455a4953;
/// `"SMTPUTF8"`
pub const SMTPUTF8: u128 = 0x3846545550544d53;
/// `"STARTTLS"`
pub const STARTTLS: u128 = 0x534c545452415453;
/// `"VERB"`
pub const VERB: u128 = 0x42524556;
/// `"MIXER"`
pub const MIXER: u128 = 0x524558494d;
/// `"STANAG4406"`
pub const STANAG4406: u128 = 0x3630343447414e415453;
/// `"NSEP"`
pub const NSEP: u128 = 0x5045534e;

impl<T> EhloResponse<T> {
    /// Returns the hostname of the SMTP server.
    pub fn hostname(&self) -> (r: &T)
        ensures
            *r == self.hostname,
    {
        &self.hostname
    }

    /// Returns the capabilities of the SMTP server.
    pub fn capabilities(&self) -> (r: u32)
        ensures
            r == self.capabilities,
    {
        self.capabilities
    }

    /// Returns `true` if the SMTP server supports a given extension.
    pub fn has_capability(&self, capability: u32) -> (r: bool)
        ensures
            r == (self.capabilities & capability != 0),
    {
        (self.capabilities & capability) != 0
    }

    /// Returns all supported authentication mechanisms.
    pub fn auth(&self) -> (r: u64)
        ensures
            r == self.auth_mechanisms,
    {
        self.auth_mechanisms
    }
}

impl<T> AsRef<EhloResponse<T>> for EhloResponse<T> {
    fn as_ref(&self) -> (r: &EhloResponse<T>)
        ensures
            *r == *self,
    {
        self
    }
}


} // verus!
