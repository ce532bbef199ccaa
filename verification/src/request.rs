//! Requests: the command grammar, its tokens and the receivers that feed it.

use vstd::prelude::*;

pub mod values;
pub mod chunking;
pub mod complete;
pub mod grammar;
pub mod parser;
pub mod receiver;
pub mod terminator;

verus! {

/// `"AUTH"`
pub const AUTH: u64 = 0x48545541;

/// `"EHLO"`
pub const EHLO: u64 = 0x4f4c4845;
/// `"HELO"`
pub const HELO: u64 = 0x4f4c4548;
/// `"LHLO"`
pub const LHLO: u64 = 0x4f4c484c;
/// `"MAIL"`
pub const MAIL: u64 = 0x4c49414d;
/// `"RCPT"`
pub const RCPT: u64 = 0x54504352;
/// `"DATA"`
pub const DATA: u64 = 0x41544144;
/// `"BDAT"`
pub const BDAT: u64 = 0x54414442;
/// `"RSET"`
pub const RSET: u64 = 0x54455352;
/// `"VRFY"`
pub const VRFY: u64 = 0x59465256;
/// `"EXPN"`
pub const EXPN: u64 = 0x4e505845;
/// `"HELP"`
pub const HELP: u64 = 0x504c4548;
/// `"NOOP"`
pub const NOOP: u64 = 0x504f4f4e;
/// `"QUIT"`
pub const QUIT: u64 = 0x54495551;
/// `"ETRN"`
pub const ETRN: u64 = 0x4e525445;
/// `"ATRN"`
pub const ATRN: u64 = 0x4e525441;
/// `"BURL"`
pub const BURL: u64 = 0x4c525542;
/// `"STARTTLS"`
pub const STARTTLS: u64 = 0x534c545452415453;
/// `"FROM"`
pub const FROM: u64 = 0x4d4f5246;
/// `"TO"`
pub const TO: u64 = 0x4f54;
/// `"LAST"`
pub const LAST: u64 = 0x5453414c;
/// `"N"`
pub const N: u64 = 0x4e;
/// `"NT"`
pub const NT: u64 = 0x544e;
/// `"C"`
pub const C: u64 = 0x43;
/// `"R"`
pub const R: u64 = 0x52;
/// `"RT"`
pub const RT: u64 = 0x5452;
/// `"FULL"`
pub const FULL: u64 = 0x4c4c5546;
/// `"HDRS"`
pub const HDRS: u64 = 0x53524448;
/// `"RFC822"`
pub const RFC822: u64 = 0x323238434652;

/// `"BODY"`
pub const BODY: u128 = 0x59444f42;
/// `"7BIT"`
pub const SEVENBIT: u128 = 0x54494237;
/// `"8BITMIME"`
pub const EIGHBITMIME: u128 = 0x454d494d54494238;
/// `"BINARYMIME"`
pub const BINARYMIME: u128 = 0x454d494d5952414e4942;
/// `"SIZE"`
pub const SIZE: u128 = 0x455a4953;
/// `"TRANSID"`
pub const TRANSID: u128 = 0x4449534e415254;
/// `"BY"`
pub const BY: u128 = 0x5942;
/// `"NOTIFY"`
pub const NOTIFY: u128 = 0x594649544f4e;
/// `"ORCPT"`
pub const ORCPT: u128 = 0x545043524f;
/// `"RET"`
pub const RET: u128 = 0x544552;
/// `"ENVID"`
pub const ENVID: u128 = 0x4449564e45;
/// `"NEVER"`
pub const NEVER: u128 = 0x524556454e;
/// `"SUCCESS"`
pub const SUCCESS: u128 = 0x53534543435553;
/// `"FAILURE"`
pub const FAILURE: u128 = 0x4552554c494146;
/// `"DELAY"`
pub const DELAY: u128 = 0x59414c4544;
/// `"SOLICIT"`
pub const SOLICIT: u128 = 0x544943494c4f53;
/// `"MTRK"`
pub const MTRK: u128 = 0x4b52544d;
/// `"AUTH"`
pub const AUTH_: u128 = 0x48545541;
/// `"HOLDFOR"`
pub const HOLDFOR: u128 = 0x524f46444c4f48;
/// `"HOLDUNTIL"`
pub const HOLDUNTIL: u128 = 0x4c49544e55444c4f48;
/// `"SMTPUTF8"`
pub const SMTPUTF8: u128 = 0x3846545550544d53;
/// `"CONPERM"`
pub const CONPERM: u128 = 0x4d5245504e4f43;
/// `"CONNEG"`
pub const CONNEG: u128 = 0x47454e4e4f43;
/// `"MT-PRIORITY"`
pub const MT_PRIORITY: u128 = 0x595449524f4952502d544d;
/// `"RRVS"`
pub const RRVS: u128 = 0x53565252;
/// `"REQUIRETLS"`
pub const REQUIRETLS: u128 = 0x534c5445524955514552;
/// `"9798-M-DSA-SHA1"`
pub const _9798_M_DSA_SHA1: u128 = 0x314148532d4153442d4d2d38393739;
/// `"9798-M-ECDSA-SHA"`
pub const _9798_M_ECDSA_SHA: u128 = 0x4148532d41534443452d4d2d38393739;
/// `"9798-M-RSA-SHA1-"`
pub const _9798_M_RSA_SHA1_: u128 = 0x2d314148532d4153522d4d2d38393739;
/// `"9798-U-DSA-SHA1"`
pub const _9798_U_DSA_SHA1: u128 = 0x314148532d4153442d552d38393739;
/// `"9798-U-ECDSA-SHA"`
pub const _9798_U_ECDSA_SHA: u128 = 0x4148532d41534443452d552d38393739;
/// `"9798-U-RSA-SHA1-"`
pub const _9798_U_RSA_SHA1_: u128 = 0x2d314148532d4153522d552d38393739;
/// `"ANONYMOUS"`
pub const ANONYMOUS: u128 = 0x53554f4d594e4f4e41;
/// `"CRAM-MD5"`
pub const CRAM_MD5: u128 = 0x35444d2d4d415243;
/// `"DIGEST-MD5"`
pub const DIGEST_MD5: u128 = 0x35444d2d545345474944;
/// `"EAP-AES128"`
pub const EAP_AES128: u128 = 0x3832315345412d504145;
/// `"EAP-AES128-PLUS"`
pub const EAP_AES128_PLUS: u128 = 0x53554c502d3832315345412d504145;
/// `"ECDH-X25519-CHAL"`
pub const ECDH_X25519_CHAL: u128 = 0x4c4148432d3931353532582d48444345;
/// `"ECDSA-NIST256P-C"`
pub const ECDSA_NIST256P_C: u128 = 0x432d503635325453494e2d4153444345;
/// `"EXTERNAL"`
pub const EXTERNAL: u128 = 0x4c414e5245545845;
/// `"GS2-KRB5"`
pub const GS2_KRB5: u128 = 0x3542524b2d325347;
/// `"GS2-KRB5-PLUS"`
pub const GS2_KRB5_PLUS: u128 = 0x53554c502d3542524b2d325347;
/// `"GSS-SPNEGO"`
pub const GSS_SPNEGO: u128 = 0x4f47454e50532d535347;
/// `"GSSAPI"`
pub const GSSAPI: u128 = 0x495041535347;
/// `"KERBEROS-V4"`
pub const KERBEROS_V4: u128 = 0x34562d534f52454252454b;
/// `"KERBEROS-V5"`
pub const KERBEROS_V5: u128 = 0x35562d534f52454252454b;
/// `"LOGIN"`
pub const LOGIN: u128 = 0x4e49474f4c;
/// `"NMAS-SAMBA-AUTH"`
pub const NMAS_SAMBA_AUTH: u128 = 0x485455412d41424d41532d53414d4e;
/// `"NMAS-AUTHEN"`
pub const NMAS_AUTHEN: u128 = 0x4e45485455412d53414d4e;
/// `"NMAS-LOGIN"`
pub const NMAS_LOGIN: u128 = 0x4e49474f4c2d53414d4e;
/// `"NTLM"`
pub const NTLM: u128 = 0x4d4c544e;
/// `"OAUTH10A"`
pub const OAUTH10A: u128 = 0x413031485455414f;
/// `"OAUTHBEARER"`
pub const OAUTHBEARER: u128 = 0x524552414542485455414f;
/// `"OPENID20"`
pub const OPENID20: u128 = 0x303244494e45504f;
/// `"OTP"`
pub const OTP: u128 = 0x50544f;
/// `"PLAIN"`
pub const PLAIN: u128 = 0x4e49414c50;
/// `"SAML20"`
pub const SAML20: u128 = 0x30324c4d4153;
/// `"SCRAM-SHA-1"`
pub const SCRAM_SHA_1: u128 = 0x312d4148532d4d41524353;
/// `"SCRAM-SHA-1-PLUS"`
pub const SCRAM_SHA_1_PLUS: u128 = 0x53554c502d312d4148532d4d41524353;
/// `"SCRAM-SHA-256"`
pub const SCRAM_SHA_256: u128 = 0x3635322d4148532d4d41524353;
/// `"SCRAM-SHA-256-PL"`
pub const SCRAM_SHA_256_PL: u128 = 0x4c502d3635322d4148532d4d41524353;
/// `"SECURID"`
pub const SECURID: u128 = 0x44495255434553;
/// `"SKEY"`
pub const SKEY: u128 = 0x59454b53;
/// `"SPNEGO"`
pub const SPNEGO: u128 = 0x4f47454e5053;
/// `"SPNEGO-PLUS"`
pub const SPNEGO_PLUS: u128 = 0x53554c502d4f47454e5053;
/// `"SXOVER-PLUS"`
pub const SXOVER_PLUS: u128 = 0x53554c502d5245564f5853;
/// `"XOAUTH"`
pub const XOAUTH: u128 = 0x485455414f58;
/// `"XOAUTH2"`
pub const XOAUTH2: u128 = 0x32485455414f58;

} // verus!
