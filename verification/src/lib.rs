//! Parser and generator for the SMTP and LMTP wire protocols.
//!
//! Requests are parsed line by line from a [`bytes::ByteIter`]; replies are
//! assembled by the receivers in [`response::parser`] and written by
//! [`response::generate`]. Every executable function carries a contract over
//! the byte sequences it reads and the values it returns.

use vstd::prelude::*;
use vstd::string::StringExecFns;
use crate::response::generate::{decimal, push_decimal};
use crate::text::{decode_lossy, utf8_lossy};

pub mod bytes;
pub mod request;
pub mod response;
pub mod text;
pub mod tokens;

verus! {

/// An SMTP or LMTP command, with its arguments.
#[derive(Debug, Clone, PartialEq, Eq)]
pub enum Request<T> {
    Ehlo { host: T },
    Lhlo { host: T },
    Helo { host: T },
    Mail { from: MailFrom<T> },
    Rcpt { to: RcptTo<T> },
    Bdat { chunk_size: usize, is_last: bool },
    Auth { mechanism: u64, initial_response: T },
    Noop { value: T },
    Vrfy { value: T },
    Expn { value: T },
    Help { value: T },
    Etrn { name: T },
    Atrn { domains: Vec<T> },
    Burl { uri: T, is_last: bool },
    StartTls,
    Data,
    Rset,
    Quit,
}

/// What a [`Request`] over strings holds, as plain values.
pub enum RequestView {
    Ehlo { host: Seq<char> },
    Lhlo { host: Seq<char> },
    Helo { host: Seq<char> },
    Mail { from: MailFrom<Seq<char>> },
    Rcpt { to: RcptTo<Seq<char>> },
    Bdat { chunk_size: usize, is_last: bool },
    Auth { mechanism: u64, initial_response: Seq<char> },
    Noop { value: Seq<char> },
    Vrfy { value: Seq<char> },
    Expn { value: Seq<char> },
    Help { value: Seq<char> },
    Etrn { name: Seq<char> },
    Atrn { domains: Seq<Seq<char>> },
    Burl { uri: Seq<char>, is_last: bool },
    StartTls,
    Data,
    Rset,
    Quit,
}

/// The reverse path of a `MAIL FROM` command and its parameters.
#[derive(Debug, Clone, PartialEq, Eq)]
pub struct MailFrom<T> {
    pub address: T,
    pub flags: u64,
    pub size: usize,
    pub trans_id: Option<T>,
    pub by: i64,
    pub env_id: Option<T>,
    pub solicit: Option<T>,
    pub mtrk: Option<Mtrk<T>>,
    pub auth: Option<T>,
    pub hold_for: u64,
    pub hold_until: u64,
    pub mt_priority: i64,
}

/// The forward path of a `RCPT TO` command and its parameters.
#[derive(Debug, Clone, PartialEq, Eq)]
pub struct RcptTo<T> {
    pub address: T,
    pub orcpt: Option<T>,
    pub rrvs: i64,
    pub flags: u64,
}

pub const MAIL_BODY_7BIT: u64 = 1 << 0;
pub const MAIL_BODY_8BITMIME: u64 = 1 << 1;
pub const MAIL_BODY_BINARYMIME: u64 = 1 << 2;
pub const MAIL_RET_FULL: u64 = 1 << 3;
pub const MAIL_RET_HDRS: u64 = 1 << 4;
pub const MAIL_SMTPUTF8: u64 = 1 << 5;
pub const MAIL_REQUIRETLS: u64 = 1 << 6;
pub const MAIL_CONPERM: u64 = 1 << 7;
pub const MAIL_BY_NOTIFY: u64 = 1 << 8;
pub const MAIL_BY_RETURN: u64 = 1 << 9;
pub const MAIL_BY_TRACE: u64 = 1 << 10;

pub const RCPT_NOTIFY_SUCCESS: u64 = 1 << 0;
pub const RCPT_NOTIFY_FAILURE: u64 = 1 << 1;
pub const RCPT_NOTIFY_DELAY: u64 = 1 << 2;
pub const RCPT_NOTIFY_NEVER: u64 = 1 << 3;
pub const RCPT_CONNEG: u64 = 1 << 4;
pub const RCPT_RRVS_REJECT: u64 = 1 << 5;
pub const RCPT_RRVS_CONTINUE: u64 = 1 << 6;

/// The `MTRK` parameter: a certifier and a timeout in seconds.
#[derive(Debug, Clone, PartialEq, Eq)]
pub struct Mtrk<T> {
    pub certifier: T,
    pub timeout: u64,
}

pub const AUTH_SCRAM_SHA_256_PLUS: u64 = 1u64 << 0;
pub const AUTH_SCRAM_SHA_256: u64 = 1u64 << 1;
pub const AUTH_SCRAM_SHA_1_PLUS: u64 = 1u64 << 2;
pub const AUTH_SCRAM_SHA_1: u64 = 1u64 << 3;
pub const AUTH_OAUTHBEARER: u64 = 1u64 << 4;
pub const AUTH_XOAUTH: u64 = 1u64 << 5;
pub const AUTH_XOAUTH2: u64 = 1u64 << 6;
pub const AUTH_9798_M_DSA_SHA1: u64 = 1u64 << 7;
pub const AUTH_9798_M_ECDSA_SHA1: u64 = 1u64 << 8;
pub const AUTH_9798_M_RSA_SHA1_ENC: u64 = 1u64 << 9;
pub const AUTH_9798_U_DSA_SHA1: u64 = 1u64 << 10;
pub const AUTH_9798_U_ECDSA_SHA1: u64 = 1u64 << 11;
pub const AUTH_9798_U_RSA_SHA1_ENC: u64 = 1u64 << 12;
pub const AUTH_EAP_AES128: u64 = 1u64 << 13;
pub const AUTH_EAP_AES128_PLUS: u64 = 1u64 << 14;
pub const AUTH_ECDH_X25519_CHALLENGE: u64 = 1u64 << 15;
pub const AUTH_ECDSA_NIST256P_CHALLENGE: u64 = 1u64 << 16;
pub const AUTH_EXTERNAL: u64 = 1u64 << 17;
pub const AUTH_GS2_KRB5: u64 = 1u64 << 18;
pub const AUTH_GS2_KRB5_PLUS: u64 = 1u64 << 19;
pub const AUTH_GSS_SPNEGO: u64 = 1u64 << 20;
pub const AUTH_GSSAPI: u64 = 1u64 << 21;
pub const AUTH_KERBEROS_V4: u64 = 1u64 << 22;
pub const AUTH_KERBEROS_V5: u64 = 1u64 << 23;
pub const AUTH_NMAS_SAMBA_AUTH: u64 = 1u64 << 24;
pub const AUTH_NMAS_AUTHEN: u64 = 1u64 << 25;
pub const AUTH_NMAS_LOGIN: u64 = 1u64 << 26;
pub const AUTH_NTLM: u64 = 1u64 << 27;
pub const AUTH_OAUTH10A: u64 = 1u64 << 28;
pub const AUTH_OPENID20: u64 = 1u64 << 29;
pub const AUTH_OTP: u64 = 1u64 << 30;
pub const AUTH_SAML20: u64 = 1u64 << 31;
pub const AUTH_SECURID: u64 = 1u64 << 32;
pub const AUTH_SKEY: u64 = 1u64 << 33;
pub const AUTH_SPNEGO: u64 = 1u64 << 34;
pub const AUTH_SPNEGO_PLUS: u64 = 1u64 << 35;
pub const AUTH_SXOVER_PLUS: u64 = 1u64 << 36;
pub const AUTH_CRAM_MD5: u64 = 1u64 << 37;
pub const AUTH_DIGEST_MD5: u64 = 1u64 << 38;
pub const AUTH_LOGIN: u64 = 1u64 << 39;
pub const AUTH_PLAIN: u64 = 1u64 << 40;
pub const AUTH_ANONYMOUS: u64 = 1u64 << 41;

pub const EXT_8BIT_MIME: u32 = 1 << 0;
pub const EXT_ATRN: u32 = 1 << 1;
pub const EXT_AUTH: u32 = 1 << 2;
pub const EXT_BINARY_MIME: u32 = 1 << 3;
pub const EXT_BURL: u32 = 1 << 4;
pub const EXT_CHECKPOINT: u32 = 1 << 5;
pub const EXT_CHUNKING: u32 = 1 << 6;
pub const EXT_CONNEG: u32 = 1 << 7;
pub const EXT_CONPERM: u32 = 1 << 8;
pub const EXT_DELIVER_BY: u32 = 1 << 9;
pub const EXT_DSN: u32 = 1 << 10;
pub const EXT_ENHANCED_STATUS_CODES: u32 = 1 << 11;
pub const EXT_ETRN: u32 = 1 << 12;
pub const EXT_FUTURE_RELEASE: u32 = 1 << 13;
pub const EXT_HELP: u32 = 1 << 14;
pub const EXT_MT_PRIORITY: u32 = 1 << 15;
pub const EXT_MTRK: u32 = 1 << 16;
pub const EXT_NO_SOLICITING: u32 = 1 << 17;
pub const EXT_ONEX: u32 = 1 << 18;
pub const EXT_PIPELINING: u32 = 1 << 19;
pub const EXT_REQUIRE_TLS: u32 = 1 << 20;
pub const EXT_RRVS: u32 = 1 << 21;
pub const EXT_SIZE: u32 = 1 << 22;
pub const EXT_SMTP_UTF8: u32 = 1 << 23;
pub const EXT_START_TLS: u32 = 1 << 24;
pub const EXT_VERB: u32 = 1 << 25;
pub const EXT_EXPN: u32 = 1 << 26;
pub const EXT_VRFY: u32 = 1 << 27;

/// The priority profile a server announces with `MT-PRIORITY`.
#[derive(Debug, Clone, Copy, PartialEq, Eq, Hash)]
pub enum MtPriority {
    Mixer,
    Stanag4406,
    Nsep,
}

/// The capabilities a server announces in reply to `EHLO`.
#[derive(Debug, Clone, PartialEq, Eq)]
pub struct EhloResponse<T> {
    pub hostname: T,
    pub capabilities: u32,
    pub auth_mechanisms: u64,
    pub deliver_by: u64,
    pub future_release_interval: u64,
    pub future_release_datetime: u64,
    pub mt_priority: MtPriority,
    pub no_soliciting: Option<String>,
    pub size: usize,
}

/// What an [`EhloResponse`] over strings holds, as plain values.
pub struct EhloResponseView {
    pub hostname: Seq<char>,
    pub capabilities: u32,
    pub auth_mechanisms: u64,
    pub deliver_by: u64,
    pub future_release_interval: u64,
    pub future_release_datetime: u64,
    pub mt_priority: MtPriority,
    pub no_soliciting: Option<Seq<char>>,
    pub size: usize,
}

/// A server reply: status code, enhanced status code and message.
#[derive(Debug, Clone, PartialEq, Eq)]
pub struct Response<T> {
    pub code: u16,
    pub esc: [u8; 3],
    pub message: T,
}

/// The first digit of a reply code.
#[derive(Debug, Clone, Copy, PartialEq, Eq)]
pub enum Severity {
    PositiveCompletion,
    PositiveIntermediate,
    TransientNegativeCompletion,
    PermanentNegativeCompletion,
    Invalid,
}

/// The second digit of a reply code.
#[derive(Debug, Clone, Copy, PartialEq, Eq)]
pub enum Category {
    Syntax,
    Information,
    Connections,
    Unspecified3,
    Unspecified4,
    MailSystem,
    Invalid,
}

/// Why a command or a reply could not be parsed.
#[derive(Debug, Clone, PartialEq, Eq)]
#[allow(inconsistent_fields)]
pub enum Error {
    NeedsMoreData { bytes_left: usize },
    UnknownCommand,
    InvalidSenderAddress,
    InvalidRecipientAddress,
    SyntaxError { syntax: &'static str },
    InvalidParameter { param: &'static str },
    UnsupportedParameter { param: String },
    ResponseTooLong,
    InvalidResponse { code: u16 },
}

/// What an [`Error`] holds, as plain values.
#[allow(inconsistent_fields)]
pub enum ErrorView {
    NeedsMoreData { bytes_left: usize },
    UnknownCommand,
    InvalidSenderAddress,
    InvalidRecipientAddress,
    SyntaxError { syntax: Seq<char> },
    InvalidParameter { param: Seq<char> },
    UnsupportedParameter { param: Seq<char> },
    ResponseTooLong,
    InvalidResponse { code: u16 },
}

pub const LF: u8 = 10;
pub const CR: u8 = 13;
pub const SP: u8 = 32;

impl View for Mtrk<String> {
    type V = Mtrk<Seq<char>>;

    open spec fn view(&self) -> Mtrk<Seq<char>> {
        Mtrk { certifier: self.certifier@, timeout: self.timeout }
    }
}

/// The view of an optional string.
pub open spec fn opt_view(s: Option<String>) -> Option<Seq<char>> {
    match s {
        Some(s) => Some(s@),
        None => None,
    }
}

impl View for MailFrom<String> {
    type V = MailFrom<Seq<char>>;

    open spec fn view(&self) -> MailFrom<Seq<char>> {
        MailFrom {
            address: self.address@,
            flags: self.flags,
            size: self.size,
            trans_id: opt_view(self.trans_id),
            by: self.by,
            env_id: opt_view(self.env_id),
            solicit: opt_view(self.solicit),
            mtrk: match self.mtrk {
                Some(m) => Some(m@),
                None => None,
            },
            auth: opt_view(self.auth),
            hold_for: self.hold_for,
            hold_until: self.hold_until,
            mt_priority: self.mt_priority,
        }
    }
}

impl View for RcptTo<String> {
    type V = RcptTo<Seq<char>>;

    open spec fn view(&self) -> RcptTo<Seq<char>> {
        RcptTo {
            address: self.address@,
            orcpt: opt_view(self.orcpt),
            rrvs: self.rrvs,
            flags: self.flags,
        }
    }
}

/// The views of a list of strings, in order.
pub open spec fn views(list: Seq<String>) -> Seq<Seq<char>> {
    Seq::new(list.len(), |i: int| list[i]@)
}

impl View for Request<String> {
    type V = RequestView;

    open spec fn view(&self) -> RequestView {
        match *self {
            Request::Ehlo { host } => RequestView::Ehlo { host: host@ },
            Request::Lhlo { host } => RequestView::Lhlo { host: host@ },
            Request::Helo { host } => RequestView::Helo { host: host@ },
            Request::Mail { from } => RequestView::Mail { from: from@ },
            Request::Rcpt { to } => RequestView::Rcpt { to: to@ },
            Request::Bdat { chunk_size, is_last } => RequestView::Bdat { chunk_size, is_last },
            Request::Auth { mechanism, initial_response } => RequestView::Auth {
                mechanism,
                initial_response: initial_response@,
            },
            Request::Noop { value } => RequestView::Noop { value: value@ },
            Request::Vrfy { value } => RequestView::Vrfy { value: value@ },
            Request::Expn { value } => RequestView::Expn { value: value@ },
            Request::Help { value } => RequestView::Help { value: value@ },
            Request::Etrn { name } => RequestView::Etrn { name: name@ },
            Request::Atrn { domains } => RequestView::Atrn { domains: views(domains@) },
            Request::Burl { uri, is_last } => RequestView::Burl { uri: uri@, is_last },
            Request::StartTls => RequestView::StartTls,
            Request::Data => RequestView::Data,
            Request::Rset => RequestView::Rset,
            Request::Quit => RequestView::Quit,
        }
    }
}

impl View for EhloResponse<String> {
    type V = EhloResponseView;

    open spec fn view(&self) -> EhloResponseView {
        EhloResponseView {
            hostname: self.hostname@,
            capabilities: self.capabilities,
            auth_mechanisms: self.auth_mechanisms,
            deliver_by: self.deliver_by,
            future_release_interval: self.future_release_interval,
            future_release_datetime: self.future_release_datetime,
            mt_priority: self.mt_priority,
            no_soliciting: opt_view(self.no_soliciting),
            size: self.size,
        }
    }
}

/// What a [`Response`] over a string holds, as plain values.
pub struct ResponseView {
    pub code: u16,
    pub esc: Seq<u8>,
    pub message: Seq<char>,
}

impl View for Response<String> {
    type V = ResponseView;

    open spec fn view(&self) -> ResponseView {
        ResponseView { code: self.code, esc: self.esc@, message: self.message@ }
    }
}

impl View for Error {
    type V = ErrorView;

    open spec fn view(&self) -> ErrorView {
        match *self {
            Error::NeedsMoreData { bytes_left } => ErrorView::NeedsMoreData { bytes_left },
            Error::UnknownCommand => ErrorView::UnknownCommand,
            Error::InvalidSenderAddress => ErrorView::InvalidSenderAddress,
            Error::InvalidRecipientAddress => ErrorView::InvalidRecipientAddress,
            Error::SyntaxError { syntax } => ErrorView::SyntaxError { syntax: syntax@ },
            Error::InvalidParameter { param } => ErrorView::InvalidParameter { param: param@ },
            Error::UnsupportedParameter { param } => ErrorView::UnsupportedParameter {
                param: param@,
            },
            Error::ResponseTooLong => ErrorView::ResponseTooLong,
            Error::InvalidResponse { code } => ErrorView::InvalidResponse { code },
        }
    }
}

/// What [`Error::to_string`] gives for an error that reads `e`.
pub open spec fn error_text(e: ErrorView) -> Seq<char> {
    match e {
        ErrorView::NeedsMoreData { bytes_left } => "Needs more data: "@ + decimal(bytes_left as nat)
            + " bytes left"@,
        ErrorView::UnknownCommand => "Unknown command"@,
        ErrorView::InvalidSenderAddress => "Invalid sender address"@,
        ErrorView::InvalidRecipientAddress => "Invalid recipient address"@,
        ErrorView::SyntaxError { syntax } => "Syntax error: "@ + syntax,
        ErrorView::InvalidParameter { param } => "Invalid parameter: "@ + param,
        ErrorView::UnsupportedParameter { param } => "Unsupported parameter: "@ + param,
        ErrorView::ResponseTooLong => "Response too long"@,
        ErrorView::InvalidResponse { code } => "Invalid response: "@ + decimal(code as nat),
    }
}

impl Error {
    /// The error in words.
    pub fn to_string(&self) -> (text: String)
        ensures
            text@ == error_text(self@),
    {
        let mut text = String::new();
        match self {
            Error::NeedsMoreData { bytes_left } => {
                text.append("Needs more data: ");
                push_decimal(&mut text, *bytes_left as u64);
                text.append(" bytes left");
            },
            Error::UnknownCommand => {
                text.append("Unknown command");
            },
            Error::InvalidSenderAddress => {
                text.append("Invalid sender address");
            },
            Error::InvalidRecipientAddress => {
                text.append("Invalid recipient address");
            },
            Error::SyntaxError { syntax } => {
                text.append("Syntax error: ");
                text.append(syntax);
            },
            Error::InvalidParameter { param } => {
                text.append("Invalid parameter: ");
                text.append(param);
            },
            Error::UnsupportedParameter { param } => {
                text.append("Unsupported parameter: ");
                text.append(param.as_str());
            },
            Error::ResponseTooLong => {
                text.append("Response too long");
            },
            Error::InvalidResponse { code } => {
                text.append("Invalid response: ");
                push_decimal(&mut text, *code as u64);
            },
        }
        assert(text@ =~= error_text(self@));
        text
    }
}

/// Values that turn into a string.
pub trait IntoString: Sized {
    /// The text that [`Self::into_string`] gives.
    spec fn text(&self) -> Seq<char>;

    /// Turns the value into a string.
    fn into_string(self) -> (s: String)
        ensures
            s@ == self.text(),
    ;
}

impl IntoString for Vec<u8> {
    open spec fn text(&self) -> Seq<char> {
        utf8_lossy(self@)
    }

    /// Decodes the bytes as UTF-8; ill-formed sequences become U+FFFD.
    fn into_string(self) -> (s: String) {
        decode_lossy(self.as_slice())
    }
}

impl Default for MtPriority {
    fn default() -> (r: Self)
        ensures
            r == MtPriority::Mixer,
    {
        MtPriority::Mixer
    }
}

impl<T: Default> Default for MailFrom<T> {
    fn default() -> (r: Self)
        ensures
            call_ensures(T::default, (), r.address),
            r.flags == 0,
            r.size == 0,
            r.trans_id is None,
            r.by == 0,
            r.env_id is None,
            r.solicit is None,
            r.mtrk is None,
            r.auth is None,
            r.hold_for == 0,
            r.hold_until == 0,
            r.mt_priority == 0,
    {
        MailFrom {
            address: T::default(),
            flags: 0,
            size: 0,
            trans_id: None,
            by: 0,
            env_id: None,
            solicit: None,
            mtrk: None,
            auth: None,
            hold_for: 0,
            hold_until: 0,
            mt_priority: 0,
        }
    }
}

impl<T: Default> Default for RcptTo<T> {
    fn default() -> (r: Self)
        ensures
            call_ensures(T::default, (), r.address),
            r.orcpt is None,
            r.rrvs == 0,
            r.flags == 0,
    {
        RcptTo { address: T::default(), orcpt: None, rrvs: 0, flags: 0 }
    }
}

impl<T: Default> Default for EhloResponse<T> {
    fn default() -> (r: Self)
        ensures
            call_ensures(T::default, (), r.hostname),
            r.capabilities == 0,
            r.auth_mechanisms == 0,
            r.deliver_by == 0,
            r.future_release_interval == 0,
            r.future_release_datetime == 0,
            r.mt_priority == MtPriority::Mixer,
            r.no_soliciting is None,
            r.size == 0,
    {
        EhloResponse {
            hostname: T::default(),
            capabilities: 0,
            auth_mechanisms: 0,
            deliver_by: 0,
            future_release_interval: 0,
            future_release_datetime: 0,
            mt_priority: MtPriority::Mixer,
            no_soliciting: None,
            size: 0,
        }
    }
}

impl Severity {
    /// The leading digit of the reply codes of this severity, 0 for none.
    pub fn digit(&self) -> (d: u8)
        ensures
            d == match *self {
                Severity::PositiveCompletion => 2u8,
                Severity::PositiveIntermediate => 3u8,
                Severity::TransientNegativeCompletion => 4u8,
                Severity::PermanentNegativeCompletion => 5u8,
                Severity::Invalid => 0u8,
            },
    {
        match self {
            Severity::PositiveCompletion => 2,
            Severity::PositiveIntermediate => 3,
            Severity::TransientNegativeCompletion => 4,
            Severity::PermanentNegativeCompletion => 5,
            Severity::Invalid => 0,
        }
    }
}

impl Category {
    /// The second digit of the reply codes of this category, 6 for none.
    pub fn digit(&self) -> (d: u8)
        ensures
            d == match *self {
                Category::Syntax => 0u8,
                Category::Information => 1u8,
                Category::Connections => 2u8,
                Category::Unspecified3 => 3u8,
                Category::Unspecified4 => 4u8,
                Category::MailSystem => 5u8,
                Category::Invalid => 6u8,
            },
    {
        match self {
            Category::Syntax => 0,
            Category::Information => 1,
            Category::Connections => 2,
            Category::Unspecified3 => 3,
            Category::Unspecified4 => 4,
            Category::MailSystem => 5,
            Category::Invalid => 6,
        }
    }
}

} // verus!
