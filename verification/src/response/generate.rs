//! The writers of replies, and what a reply code says about a reply.

use vstd::prelude::*;
use vstd::string::StringExecFns;
use vstd::utf8::encode_utf8;
use crate::request::grammar::size_scan;
use crate::text::{is_digit, push_char};
use crate::{
    AUTH_9798_M_DSA_SHA1, AUTH_9798_M_ECDSA_SHA1, AUTH_9798_M_RSA_SHA1_ENC, AUTH_9798_U_DSA_SHA1,
    AUTH_9798_U_ECDSA_SHA1, AUTH_9798_U_RSA_SHA1_ENC, AUTH_ANONYMOUS, AUTH_CRAM_MD5,
    AUTH_DIGEST_MD5, AUTH_EAP_AES128, AUTH_EAP_AES128_PLUS, AUTH_ECDH_X25519_CHALLENGE,
    AUTH_ECDSA_NIST256P_CHALLENGE, AUTH_EXTERNAL, AUTH_GS2_KRB5, AUTH_GS2_KRB5_PLUS,
    AUTH_GSS_SPNEGO, AUTH_GSSAPI, AUTH_KERBEROS_V4, AUTH_KERBEROS_V5, AUTH_LOGIN,
    AUTH_NMAS_AUTHEN, AUTH_NMAS_LOGIN, AUTH_NMAS_SAMBA_AUTH, AUTH_NTLM, AUTH_OAUTH10A,
    AUTH_OAUTHBEARER, AUTH_OPENID20, AUTH_OTP, AUTH_PLAIN, AUTH_SAML20, AUTH_SCRAM_SHA_1,
    AUTH_SCRAM_SHA_1_PLUS, AUTH_SCRAM_SHA_256, AUTH_SCRAM_SHA_256_PLUS, AUTH_SECURID, AUTH_SKEY,
    AUTH_SPNEGO, AUTH_SPNEGO_PLUS, AUTH_SXOVER_PLUS, AUTH_XOAUTH, AUTH_XOAUTH2, Category, CR,
    EhloResponse, EhloResponseView, EXT_8BIT_MIME, EXT_ATRN, EXT_AUTH, EXT_BINARY_MIME, EXT_BURL,
    EXT_CHECKPOINT, EXT_CHUNKING, EXT_CONNEG, EXT_CONPERM, EXT_DELIVER_BY, EXT_DSN,
    EXT_ENHANCED_STATUS_CODES, EXT_ETRN, EXT_EXPN, EXT_FUTURE_RELEASE, EXT_HELP, EXT_MT_PRIORITY,
    EXT_MTRK, EXT_NO_SOLICITING, EXT_ONEX, EXT_PIPELINING, EXT_REQUIRE_TLS, EXT_RRVS, EXT_SIZE,
    EXT_SMTP_UTF8, EXT_START_TLS, EXT_VERB, EXT_VRFY, MtPriority, Response, Severity,
};

verus! {

/// The decimal digits of `n`, without leading zeros.
pub open spec fn decimal(n: nat) -> Seq<char>
    decreases n,
{
    if n < 10 {
        seq![(0x30 + n) as char]
    } else {
        decimal(n / 10).push((0x30 + n % 10) as char)
    }
}

/// Appends the decimal digits of `n` to `text`.
pub fn push_decimal(text: &mut String, n: u64)
    ensures
        final(text)@ == old(text)@ + decimal(n as nat),
    decreases n,
{
    if n >= 10 {
        push_decimal(text, n / 10);
    }
    let digit = (0x30 + n % 10) as u8;
    push_char(text, digit as char);
    assert(text@ =~= old(text)@ + decimal(n as nat));
}

/// The bytes of `s` from index `i` on are the decimal digits of `n`.
pub open spec fn decimal_at(s: Seq<u8>, i: int, n: nat) -> bool {
    &&& 0 <= i
    &&& i + decimal(n).len() <= s.len()
    &&& forall|k: int| 0 <= k < decimal(n).len() ==> #[trigger] s[i + k] == decimal(n)[k] as u8
}

/// Reading the digits of `n` leaves the scan of a number with the value
/// `n`, just after them.
proof fn lemma_decimal_scan(s: Seq<u8>, i: int, n: nat)
    requires
        decimal_at(s, i, n),
        n <= usize::MAX,
    ensures
        decimal(n).len() >= 1,
        size_scan(s, i, 0, false) == size_scan(s, i + decimal(n).len(), n as usize, true),
    decreases n,
{
    let digits = decimal(n);
    if n < 10 {
        assert(digits.len() == 1);
        assert(s[i + 0] == digits[0] as u8);
        assert(digits[0] == (0x30 + n) as char);
    } else {
        let high = decimal(n / 10);
        let len = high.len() as int;
        assert(digits == high.push((0x30 + n % 10) as char));
        assert forall|k: int| 0 <= k < len implies #[trigger] s[i + k] == high[k] as u8 by {
            assert(digits[k] == high[k]);
        }
        lemma_decimal_scan(s, i, n / 10);
        assert(s[i + len] == digits[len] as u8);
        assert(digits[len] == (0x30 + n % 10) as char);
    }
}

/// A number that is written out reads back as itself: where the bytes of
/// `s` from index `i` on are the decimal digits of `n`, followed by a byte
/// that is neither a digit nor a carriage return, the scanner reads `n` and
/// stops at that byte.
pub proof fn lemma_decimal_reads_back(s: Seq<u8>, i: int, n: nat)
    requires
        decimal_at(s, i, n),
        n <= usize::MAX,
        i + decimal(n).len() < s.len(),
        !is_digit(s[i + decimal(n).len()]),
        s[i + decimal(n).len()] != CR,
    ensures
        size_scan(s, i, 0, false) == Some((n as usize, i + decimal(n).len())),
{
    lemma_decimal_scan(s, i, n);
}

/// The name of the mechanism with the bit `bit`; empty where `bit` is not
/// the bit of one mechanism.
pub open spec fn mechanism_name(bit: u64) -> Seq<char> {
    if bit == AUTH_SCRAM_SHA_256_PLUS {
        "SCRAM-SHA-256-PLUS"@
    } else if bit == AUTH_SCRAM_SHA_256 {
        "SCRAM-SHA-256"@
    } else if bit == AUTH_SCRAM_SHA_1_PLUS {
        "SCRAM-SHA-1-PLUS"@
    } else if bit == AUTH_SCRAM_SHA_1 {
        "SCRAM-SHA-1"@
    } else if bit == AUTH_OAUTHBEARER {
        "OAUTHBEARER"@
    } else if bit == AUTH_XOAUTH {
        "XOAUTH"@
    } else if bit == AUTH_XOAUTH2 {
        "XOAUTH2"@
    } else if bit == AUTH_9798_M_DSA_SHA1 {
        "9798-M-DSA-SHA1"@
    } else if bit == AUTH_9798_M_ECDSA_SHA1 {
        "9798-M-ECDSA-SHA1"@
    } else if bit == AUTH_9798_M_RSA_SHA1_ENC {
        "9798-M-RSA-SHA1-ENC"@
    } else if bit == AUTH_9798_U_DSA_SHA1 {
        "9798-U-DSA-SHA1"@
    } else if bit == AUTH_9798_U_ECDSA_SHA1 {
        "9798-U-ECDSA-SHA1"@
    } else if bit == AUTH_9798_U_RSA_SHA1_ENC {
        "9798-U-RSA-SHA1-ENC"@
    } else if bit == AUTH_EAP_AES128 {
        "EAP-AES128"@
    } else if bit == AUTH_EAP_AES128_PLUS {
        "EAP-AES128-PLUS"@
    } else if bit == AUTH_ECDH_X25519_CHALLENGE {
        "ECDH-X25519-CHALLENGE"@
    } else if bit == AUTH_ECDSA_NIST256P_CHALLENGE {
        "ECDSA-NIST256P-CHALLENGE"@
    } else if bit == AUTH_EXTERNAL {
        "EXTERNAL"@
    } else if bit == AUTH_GS2_KRB5 {
        "GS2-KRB5"@
    } else if bit == AUTH_GS2_KRB5_PLUS {
        "GS2-KRB5-PLUS"@
    } else if bit == AUTH_GSS_SPNEGO {
        "GSS-SPNEGO"@
    } else if bit == AUTH_GSSAPI {
        "GSSAPI"@
    } else if bit == AUTH_KERBEROS_V4 {
        "KERBEROS-V4"@
    } else if bit == AUTH_KERBEROS_V5 {
        "KERBEROS-V5"@
    } else if bit == AUTH_NMAS_SAMBA_AUTH {
        "NMAS-SAMBA-AUTH"@
    } else if bit == AUTH_NMAS_AUTHEN {
        "NMAS-AUTHEN"@
    } else if bit == AUTH_NMAS_LOGIN {
        "NMAS-LOGIN"@
    } else if bit == AUTH_NTLM {
        "NTLM"@
    } else if bit == AUTH_OAUTH10A {
        "OAUTH10A"@
    } else if bit == AUTH_OPENID20 {
        "OPENID20"@
    } else if bit == AUTH_OTP {
        "OTP"@
    } else if bit == AUTH_SAML20 {
        "SAML20"@
    } else if bit == AUTH_SECURID {
        "SECURID"@
    } else if bit == AUTH_SKEY {
        "SKEY"@
    } else if bit == AUTH_SPNEGO {
        "SPNEGO"@
    } else if bit == AUTH_SPNEGO_PLUS {
        "SPNEGO-PLUS"@
    } else if bit == AUTH_SXOVER_PLUS {
        "SXOVER-PLUS"@
    } else if bit == AUTH_CRAM_MD5 {
        "CRAM-MD5"@
    } else if bit == AUTH_DIGEST_MD5 {
        "DIGEST-MD5"@
    } else if bit == AUTH_LOGIN {
        "LOGIN"@
    } else if bit == AUTH_PLAIN {
        "PLAIN"@
    } else if bit == AUTH_ANONYMOUS {
        "ANONYMOUS"@
    } else {
        ""@
    }
}

/// Names for the bits of authentication mechanisms.
pub trait BitToString {
    /// The name that [`Self::to_mechanism`] gives.
    spec fn name(&self) -> Seq<char>;

    /// The name of the mechanism that this value is the bit of.
    fn to_mechanism(&self) -> (r: &'static str)
        ensures
            r@ == self.name(),
    ;
}

impl BitToString for u64 {
    open spec fn name(&self) -> Seq<char> {
        mechanism_name(*self)
    }

    fn to_mechanism(&self) -> (r: &'static str) {
        let bit = *self;
        if bit == AUTH_SCRAM_SHA_256_PLUS {
            "SCRAM-SHA-256-PLUS"
        } else if bit == AUTH_SCRAM_SHA_256 {
            "SCRAM-SHA-256"
        } else if bit == AUTH_SCRAM_SHA_1_PLUS {
            "SCRAM-SHA-1-PLUS"
        } else if bit == AUTH_SCRAM_SHA_1 {
            "SCRAM-SHA-1"
        } else if bit == AUTH_OAUTHBEARER {
            "OAUTHBEARER"
        } else if bit == AUTH_XOAUTH {
            "XOAUTH"
        } else if bit == AUTH_XOAUTH2 {
            "XOAUTH2"
        } else if bit == AUTH_9798_M_DSA_SHA1 {
            "9798-M-DSA-SHA1"
        } else if bit == AUTH_9798_M_ECDSA_SHA1 {
            "9798-M-ECDSA-SHA1"
        } else if bit == AUTH_9798_M_RSA_SHA1_ENC {
            "9798-M-RSA-SHA1-ENC"
        } else if bit == AUTH_9798_U_DSA_SHA1 {
            "9798-U-DSA-SHA1"
        } else if bit == AUTH_9798_U_ECDSA_SHA1 {
            "9798-U-ECDSA-SHA1"
        } else if bit == AUTH_9798_U_RSA_SHA1_ENC {
            "9798-U-RSA-SHA1-ENC"
        } else if bit == AUTH_EAP_AES128 {
            "EAP-AES128"
        } else if bit == AUTH_EAP_AES128_PLUS {
            "EAP-AES128-PLUS"
        } else if bit == AUTH_ECDH_X25519_CHALLENGE {
            "ECDH-X25519-CHALLENGE"
        } else if bit == AUTH_ECDSA_NIST256P_CHALLENGE {
            "ECDSA-NIST256P-CHALLENGE"
        } else if bit == AUTH_EXTERNAL {
            "EXTERNAL"
        } else if bit == AUTH_GS2_KRB5 {
            "GS2-KRB5"
        } else if bit == AUTH_GS2_KRB5_PLUS {
            "GS2-KRB5-PLUS"
        } else if bit == AUTH_GSS_SPNEGO {
            "GSS-SPNEGO"
        } else if bit == AUTH_GSSAPI {
            "GSSAPI"
        } else if bit == AUTH_KERBEROS_V4 {
            "KERBEROS-V4"
        } else if bit == AUTH_KERBEROS_V5 {
            "KERBEROS-V5"
        } else if bit == AUTH_NMAS_SAMBA_AUTH {
            "NMAS-SAMBA-AUTH"
        } else if bit == AUTH_NMAS_AUTHEN {
            "NMAS-AUTHEN"
        } else if bit == AUTH_NMAS_LOGIN {
            "NMAS-LOGIN"
        } else if bit == AUTH_NTLM {
            "NTLM"
        } else if bit == AUTH_OAUTH10A {
            "OAUTH10A"
        } else if bit == AUTH_OPENID20 {
            "OPENID20"
        } else if bit == AUTH_OTP {
            "OTP"
        } else if bit == AUTH_SAML20 {
            "SAML20"
        } else if bit == AUTH_SECURID {
            "SECURID"
        } else if bit == AUTH_SKEY {
            "SKEY"
        } else if bit == AUTH_SPNEGO {
            "SPNEGO"
        } else if bit == AUTH_SPNEGO_PLUS {
            "SPNEGO-PLUS"
        } else if bit == AUTH_SXOVER_PLUS {
            "SXOVER-PLUS"
        } else if bit == AUTH_CRAM_MD5 {
            "CRAM-MD5"
        } else if bit == AUTH_DIGEST_MD5 {
            "DIGEST-MD5"
        } else if bit == AUTH_LOGIN {
            "LOGIN"
        } else if bit == AUTH_PLAIN {
            "PLAIN"
        } else if bit == AUTH_ANONYMOUS {
            "ANONYMOUS"
        } else {
            ""
        }
    }
}

/// The names of the mechanisms whose bits below bit `n` are set in
/// `mechanisms`, highest bit first, each after a space.
pub open spec fn mechanism_list(mechanisms: u64, n: nat) -> Seq<char>
    decreases n,
{
    if n == 0 {
        Seq::empty()
    } else {
        let bit = 1u64 << ((n - 1) as u64);
        if mechanisms & bit != 0 {
            " "@ + mechanism_name(bit) + mechanism_list(mechanisms, (n - 1) as nat)
        } else {
            mechanism_list(mechanisms, (n - 1) as nat)
        }
    }
}

/// The name of the priority profile `priority`.
pub open spec fn priority_name(priority: MtPriority) -> Seq<char> {
    match priority {
        MtPriority::Mixer => "MIXER"@,
        MtPriority::Stanag4406 => "STANAG4406"@,
        MtPriority::Nsep => "NSEP"@,
    }
}

/// What the line of the capability `bit` reads after its code: the keyword
/// and its arguments, ended by a carriage return and a line feed. A bit
/// that stands for no capability gives nothing.
pub open spec fn capability_text(r: EhloResponseView, bit: u32) -> Seq<char> {
    if bit == EXT_8BIT_MIME {
        "8BITMIME\r\n"@
    } else if bit == EXT_ATRN {
        "ATRN\r\n"@
    } else if bit == EXT_AUTH {
        "AUTH"@ + mechanism_list(r.auth_mechanisms, 64) + "\r\n"@
    } else if bit == EXT_BINARY_MIME {
        "BINARYMIME\r\n"@
    } else if bit == EXT_BURL {
        "BURL\r\n"@
    } else if bit == EXT_CHECKPOINT {
        "CHECKPOINT\r\n"@
    } else if bit == EXT_CHUNKING {
        "CHUNKING\r\n"@
    } else if bit == EXT_CONNEG {
        "CONNEG\r\n"@
    } else if bit == EXT_CONPERM {
        "CONPERM\r\n"@
    } else if bit == EXT_DELIVER_BY {
        if r.deliver_by > 0 {
            "DELIVERBY "@ + decimal(r.deliver_by as nat) + "\r\n"@
        } else {
            "DELIVERBY\r\n"@
        }
    } else if bit == EXT_DSN {
        "DSN\r\n"@
    } else if bit == EXT_ENHANCED_STATUS_CODES {
        "ENHANCEDSTATUSCODES\r\n"@
    } else if bit == EXT_ETRN {
        "ETRN\r\n"@
    } else if bit == EXT_EXPN {
        "EXPN\r\n"@
    } else if bit == EXT_VRFY {
        "VRFY\r\n"@
    } else if bit == EXT_FUTURE_RELEASE {
        "FUTURERELEASE "@ + decimal(r.future_release_interval as nat) + " "@ + decimal(
            r.future_release_datetime as nat,
        ) + "\r\n"@
    } else if bit == EXT_HELP {
        "HELP\r\n"@
    } else if bit == EXT_MT_PRIORITY {
        "MT-PRIORITY "@ + priority_name(r.mt_priority) + "\r\n"@
    } else if bit == EXT_MTRK {
        "MTRK\r\n"@
    } else if bit == EXT_NO_SOLICITING {
        match r.no_soliciting {
            Some(keywords) => "NO-SOLICITING "@ + keywords + "\r\n"@,
            None => "NO-SOLICITING\r\n"@,
        }
    } else if bit == EXT_ONEX {
        "ONEX\r\n"@
    } else if bit == EXT_PIPELINING {
        "PIPELINING\r\n"@
    } else if bit == EXT_REQUIRE_TLS {
        "REQUIRETLS\r\n"@
    } else if bit == EXT_RRVS {
        "RRVS\r\n"@
    } else if bit == EXT_SIZE {
        if r.size > 0 {
            "SIZE "@ + decimal(r.size as nat) + "\r\n"@
        } else {
            "SIZE\r\n"@
        }
    } else if bit == EXT_SMTP_UTF8 {
        "SMTPUTF8\r\n"@
    } else if bit == EXT_START_TLS {
        "STARTTLS\r\n"@
    } else if bit == EXT_VERB {
        "VERB\r\n"@
    } else {
        ""@
    }
}

/// The lines of the capabilities of `r` whose bits lie below bit `n`,
/// highest bit first. Each begins with `250` and a separator: a space on
/// the line of the lowest bit that is set, `-` on the others.
pub open spec fn capability_lines(r: EhloResponseView, n: nat) -> Seq<char>
    decreases n,
{
    if n == 0 {
        Seq::empty()
    } else {
        let bit = 1u32 << ((n - 1) as u32);
        if r.capabilities & bit != 0 {
            "250"@ + (if r.capabilities & ((bit - 1) as u32) != 0 {
                "-"@
            } else {
                " "@
            }) + capability_text(r, bit) + capability_lines(r, (n - 1) as nat)
        } else {
            capability_lines(r, (n - 1) as nat)
        }
    }
}

/// The reply to `EHLO` that announces `r`.
pub open spec fn ehlo_text(r: EhloResponseView) -> Seq<char> {
    "250-"@ + r.hostname + " you had me at EHLO\r\n"@ + capability_lines(r, 32)
}

/// The line that carries a reply with `code`, the enhanced status code
/// `esc` and `message`.
pub open spec fn response_text(code: u16, esc: Seq<u8>, message: Seq<char>) -> Seq<char> {
    decimal(code as nat) + " "@ + decimal(esc[0] as nat) + "."@ + decimal(esc[1] as nat) + "."@
        + decimal(esc[2] as nat) + " "@ + message + "\r\n"@
}

/// What a reply reads when it is shown to a person.
pub open spec fn response_display(code: u16, esc: Seq<u8>, message: Seq<char>) -> Seq<char> {
    "Code: "@ + decimal(code as nat) + ", Enhanced code: "@ + decimal(esc[0] as nat) + "."@
        + decimal(esc[1] as nat) + "."@ + decimal(esc[2] as nat) + ", Message: "@ + message
}

/// The severity of a reply with `code`: its first digit.
pub open spec fn severity_of(code: u16) -> Severity {
    if 200 <= code <= 299 {
        Severity::PositiveCompletion
    } else if 300 <= code <= 399 {
        Severity::PositiveIntermediate
    } else if 400 <= code <= 499 {
        Severity::TransientNegativeCompletion
    } else if 500 <= code <= 599 {
        Severity::PermanentNegativeCompletion
    } else {
        Severity::Invalid
    }
}

/// The category of a reply with `code`: its second digit.
pub open spec fn category_of(code: u16) -> Category {
    let digit = (code / 10) % 10;
    if digit == 0 {
        Category::Syntax
    } else if digit == 1 {
        Category::Information
    } else if digit == 2 {
        Category::Connections
    } else if digit == 3 {
        Category::Unspecified3
    } else if digit == 4 {
        Category::Unspecified4
    } else if digit == 5 {
        Category::MailSystem
    } else {
        Category::Invalid
    }
}

impl<T> EhloResponse<T> {
    /// A reply of the server `hostname` that announces nothing yet.
    pub fn new(hostname: T) -> (r: Self)
        ensures
            r.hostname == hostname,
            r.capabilities == 0,
            r.auth_mechanisms == 0,
            r.deliver_by == 0,
            r.future_release_interval == 0,
            r.future_release_datetime == 0,
            r.mt_priority == MtPriority::Mixer,
            r.no_soliciting is None,
            r.size == 0,
    {
        EhloResponse {
            hostname,
            capabilities: 0,
            auth_mechanisms: 0,
            deliver_by: 0,
            future_release_interval: 0,
            future_release_datetime: 0,
            mt_priority: MtPriority::Mixer,
            no_soliciting: None,
            size: 0,
        }
    }
}

impl EhloResponse<String> {
    /// Appends to `text` the names of the mechanisms that are announced.
    fn push_mechanisms(&self, text: &mut String)
        ensures
            final(text)@ == old(text)@ + mechanism_list(self.auth_mechanisms, 64),
    {
        let mut n: u32 = 64;
        assert(text@ =~= old(text)@ + Seq::<char>::empty());
        while n > 0
            invariant
                n <= 64,
                text@ + mechanism_list(self.auth_mechanisms, n as nat) == old(text)@
                    + mechanism_list(self.auth_mechanisms, 64),
            decreases n,
        {
            let bit = 1u64 << ((n - 1) as u64);
            let ghost before = text@;
            if self.auth_mechanisms & bit != 0 {
                text.append(" ");
                text.append(bit.to_mechanism());
            }
            n = n - 1;
            assert(text@ + mechanism_list(self.auth_mechanisms, n as nat) =~= before
                + mechanism_list(self.auth_mechanisms, (n + 1) as nat));
        }
        assert(text@ + mechanism_list(self.auth_mechanisms, 0) =~= text@);
    }

    /// Appends to `text` the line of the capability `bit` after its code.
    fn push_capability(&self, text: &mut String, bit: u32)
        ensures
            final(text)@ =~= old(text)@ + capability_text(self@, bit),
    {
        if bit == EXT_8BIT_MIME {
            text.append("8BITMIME\r\n");
        } else if bit == EXT_ATRN {
            text.append("ATRN\r\n");
        } else if bit == EXT_AUTH {
            text.append("AUTH");
            self.push_mechanisms(text);
            text.append("\r\n");
        } else if bit == EXT_BINARY_MIME {
            text.append("BINARYMIME\r\n");
        } else if bit == EXT_BURL {
            text.append("BURL\r\n");
        } else if bit == EXT_CHECKPOINT {
            text.append("CHECKPOINT\r\n");
        } else if bit == EXT_CHUNKING {
            text.append("CHUNKING\r\n");
        } else if bit == EXT_CONNEG {
            text.append("CONNEG\r\n");
        } else if bit == EXT_CONPERM {
            text.append("CONPERM\r\n");
        } else if bit == EXT_DELIVER_BY {
            if self.deliver_by > 0 {
                text.append("DELIVERBY ");
                push_decimal(text, self.deliver_by);
                text.append("\r\n");
            } else {
                text.append("DELIVERBY\r\n");
            }
        } else if bit == EXT_DSN {
            text.append("DSN\r\n");
        } else if bit == EXT_ENHANCED_STATUS_CODES {
            text.append("ENHANCEDSTATUSCODES\r\n");
        } else if bit == EXT_ETRN {
            text.append("ETRN\r\n");
        } else if bit == EXT_EXPN {
            text.append("EXPN\r\n");
        } else if bit == EXT_VRFY {
            text.append("VRFY\r\n");
        } else if bit == EXT_FUTURE_RELEASE {
            text.append("FUTURERELEASE ");
            push_decimal(text, self.future_release_interval);
            text.append(" ");
            push_decimal(text, self.future_release_datetime);
            text.append("\r\n");
        } else if bit == EXT_HELP {
            text.append("HELP\r\n");
        } else if bit == EXT_MT_PRIORITY {
            text.append("MT-PRIORITY ");
            text.append(
                match self.mt_priority {
                    MtPriority::Mixer => "MIXER",
                    MtPriority::Stanag4406 => "STANAG4406",
                    MtPriority::Nsep => "NSEP",
                },
            );
            text.append("\r\n");
        } else if bit == EXT_MTRK {
            text.append("MTRK\r\n");
        } else if bit == EXT_NO_SOLICITING {
            match &self.no_soliciting {
                Some(keywords) => {
                    text.append("NO-SOLICITING ");
                    text.append(keywords.as_str());
                    text.append("\r\n");
                },
                None => {
                    text.append("NO-SOLICITING\r\n");
                },
            }
        } else if bit == EXT_ONEX {
            text.append("ONEX\r\n");
        } else if bit == EXT_PIPELINING {
            text.append("PIPELINING\r\n");
        } else if bit == EXT_REQUIRE_TLS {
            text.append("REQUIRETLS\r\n");
        } else if bit == EXT_RRVS {
            text.append("RRVS\r\n");
        } else if bit == EXT_SIZE {
            if self.size > 0 {
                text.append("SIZE ");
                push_decimal(text, self.size as u64);
                text.append("\r\n");
            } else {
                text.append("SIZE\r\n");
            }
        } else if bit == EXT_SMTP_UTF8 {
            text.append("SMTPUTF8\r\n");
        } else if bit == EXT_START_TLS {
            text.append("STARTTLS\r\n");
        } else if bit == EXT_VERB {
            text.append("VERB\r\n");
        } else {
            text.append("");
        }
    }

    /// The reply as it goes over the wire.
    pub fn to_text(&self) -> (text: String)
        ensures
            text@ == ehlo_text(self@),
    {
        let mut text = String::new();
        text.append("250-");
        text.append(self.hostname.as_str());
        text.append(" you had me at EHLO\r\n");
        let ghost head = text@;
        let mut n: u32 = 32;
        assert(text@ =~= head + Seq::<char>::empty());
        while n > 0
            invariant
                n <= 32,
                head == "250-"@ + self@.hostname + " you had me at EHLO\r\n"@,
                text@ + capability_lines(self@, n as nat) == head + capability_lines(self@, 32),
            decreases n,
        {
            let bit = 1u32 << ((n - 1) as u32);
            let ghost before = text@;
            if self.capabilities & bit != 0 {
                assert(bit >= 1) by (bit_vector)
                    requires
                        bit == 1u32 << ((n - 1) as u32),
                        1 <= n <= 32,
                ;
                text.append("250");
                text.append(
                    if self.capabilities & (bit - 1) != 0 {
                        "-"
                    } else {
                        " "
                    },
                );
                self.push_capability(&mut text, bit);
            }
            n = n - 1;
            assert(text@ + capability_lines(self@, n as nat) =~= before + capability_lines(
                self@,
                (n + 1) as nat,
            ));
        }
        assert(text@ + capability_lines(self@, 0) =~= text@);
        text
    }

    /// Appends the reply to `writer` as it goes over the wire.
    pub fn write(&self, writer: &mut Vec<u8>)
        ensures
            final(writer)@ == old(writer)@ + encode_utf8(ehlo_text(self@)),
    {
        let text = self.to_text();
        writer.extend_from_slice(text.as_str().as_bytes());
        assert(writer@ =~= old(writer)@ + encode_utf8(ehlo_text(self@)));
    }
}

impl Response<String> {
    /// The reply as a line that goes over the wire.
    pub fn to_text(&self) -> (text: String)
        ensures
            text@ == response_text(self.code, self.esc@, self.message@),
    {
        let mut text = String::new();
        push_decimal(&mut text, self.code as u64);
        text.append(" ");
        push_decimal(&mut text, self.esc[0] as u64);
        text.append(".");
        push_decimal(&mut text, self.esc[1] as u64);
        text.append(".");
        push_decimal(&mut text, self.esc[2] as u64);
        text.append(" ");
        text.append(self.message.as_str());
        text.append("\r\n");
        assert(text@ =~= response_text(self.code, self.esc@, self.message@));
        text
    }

    /// Appends the reply to `writer` as a line that goes over the wire.
    pub fn write(&self, writer: &mut Vec<u8>)
        ensures
            final(writer)@ == old(writer)@ + encode_utf8(
                response_text(self.code, self.esc@, self.message@),
            ),
    {
        let text = self.to_text();
        writer.extend_from_slice(text.as_str().as_bytes());
        assert(writer@ =~= old(writer)@ + encode_utf8(
            response_text(self.code, self.esc@, self.message@),
        ));
    }

    /// The reply as it is shown to a person.
    pub fn to_string(&self) -> (text: String)
        ensures
            text@ == response_display(self.code, self.esc@, self.message@),
    {
        let mut text = String::new();
        text.append("Code: ");
        push_decimal(&mut text, self.code as u64);
        text.append(", Enhanced code: ");
        push_decimal(&mut text, self.esc[0] as u64);
        text.append(".");
        push_decimal(&mut text, self.esc[1] as u64);
        text.append(".");
        push_decimal(&mut text, self.esc[2] as u64);
        text.append(", Message: ");
        text.append(self.message.as_str());
        assert(text@ =~= response_display(self.code, self.esc@, self.message@));
        text
    }
}

impl<T> Response<T> {
    /// A reply with the code `code`, the enhanced status code `e0.e1.e2`
    /// and `message`.
    pub fn new(code: u16, e0: u8, e1: u8, e2: u8, message: T) -> (r: Self)
        ensures
            r.code == code,
            r.esc@ == seq![e0, e1, e2],
            r.message == message,
    {
        let r = Response { code, esc: [e0, e1, e2], message };
        assert(r.esc@ =~= seq![e0, e1, e2]);
        r
    }

    /// Returns the reply's numeric status.
    pub fn code(&self) -> (r: u16)
        ensures
            r == self.code,
    {
        self.code
    }

    /// Returns the message included in the reply.
    pub fn message(&self) -> (r: &T)
        ensures
            *r == self.message,
    {
        &self.message
    }

    /// Returns the status severity (first digit of the status code).
    pub fn severity(&self) -> (r: Severity)
        ensures
            r == severity_of(self.code),
    {
        if 200 <= self.code && self.code <= 299 {
            Severity::PositiveCompletion
        } else if 300 <= self.code && self.code <= 399 {
            Severity::PositiveIntermediate
        } else if 400 <= self.code && self.code <= 499 {
            Severity::TransientNegativeCompletion
        } else if 500 <= self.code && self.code <= 599 {
            Severity::PermanentNegativeCompletion
        } else {
            Severity::Invalid
        }
    }

    /// Returns the status category (second digit of the status code).
    pub fn category(&self) -> (r: Category)
        ensures
            r == category_of(self.code),
    {
        let digit = (self.code / 10) % 10;
        if digit == 0 {
            Category::Syntax
        } else if digit == 1 {
            Category::Information
        } else if digit == 2 {
            Category::Connections
        } else if digit == 3 {
            Category::Unspecified3
        } else if digit == 4 {
            Category::Unspecified4
        } else if digit == 5 {
            Category::MailSystem
        } else {
            Category::Invalid
        }
    }

    /// Returns the status details (third digit of the status code).
    pub fn details(&self) -> (r: u16)
        ensures
            r == self.code % 10,
    {
        self.code % 10
    }

    /// Returns `true` if the reply is a positive completion.
    pub fn is_positive_completion(&self) -> (r: bool)
        ensures
            r == (200 <= self.code <= 299),
    {
        200 <= self.code && self.code <= 299
    }
}

} // verus!
