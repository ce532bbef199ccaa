//! What the enhanced status codes of replies mean, in words: the class,
//! the subject and the status that a code names, each with a title and an
//! explanation.

use vstd::prelude::*;
use crate::Response;

verus! {

/// The title and the explanation of the class `code`, the first part of an
/// enhanced status code.
pub open spec fn class_explanation(code: u8) -> Option<(&'static str, &'static str)> {
    if code == 2 {
        Some(
            (
                "Success",
                "Success specifies that the DSN is reporting a positive delivery action. Detail sub-codes may provide notification of transformations required for delivery.",
            ),
        )
    } else if code == 4 {
        Some(
            (
                "Persistent Transient Failure",
                "A persistent transient failure is one in which the message as sent is valid, but persistence of some temporary condition has caused abandonment or delay of attempts to send the message. If this code accompanies a delivery failure report, sending in the future may be successful.",
            ),
        )
    } else if code == 5 {
        Some(
            (
                "Permanent Failure",
                "A permanent failure is one which is not likely to be resolved by resending the message in the current form. Some change to the message or the destination must be made for successful delivery.",
            ),
        )
    } else {
        None
    }
}

/// The title and the explanation of the subject `code`, the second part of
/// an enhanced status code.
pub open spec fn subject_explanation(code: u8) -> Option<(&'static str, &'static str)> {
    if code == 0 {
        Some(
            (
                "Other or Undefined Status",
                "There is no additional subject information available.",
            ),
        )
    } else if code == 1 {
        Some(
            (
                "Addressing Status",
                "The address status reports on the originator or destination address. It may include address syntax or validity. These errors can generally be corrected by the sender and retried.",
            ),
        )
    } else if code == 2 {
        Some(
            (
                "Mailbox Status",
                "Mailbox status indicates that something having to do with the mailbox has caused this DSN. Mailbox issues are assumed to be under the general control of the recipient.",
            ),
        )
    } else if code == 3 {
        Some(
            (
                "Mail System Status",
                "Mail system status indicates that something having to do with the destination system has caused this DSN. System issues are assumed to be under the general control of the destination system administrator.",
            ),
        )
    } else if code == 4 {
        Some(
            (
                "Network and Routing Status",
                "The networking or routing codes report status about the delivery system itself. These system components include any necessary infrastructure such as directory and routing services. Network issues are assumed to be under the control of the destination or intermediate system administrator.",
            ),
        )
    } else if code == 5 {
        Some(
            (
                "Mail Delivery Protocol Status",
                "The mail delivery protocol status codes report failures involving the message delivery protocol. These failures include the full range of problems resulting from implementation errors or an unreliable connection.",
            ),
        )
    } else if code == 6 {
        Some(
            (
                "Message Content or Media Status",
                "The message content or media status codes report failures involving the content of the message. These codes report failures due to translation, transcoding, or otherwise unsupported message media. Message content or media issues are under the control of both the sender and the receiver, both of which must support a common set of supported content-types.",
            ),
        )
    } else if code == 7 {
        Some(
            (
                "Security or Policy Status",
                "The security or policy status codes report failures involving policies such as per-recipient or per-host filtering and cryptographic operations. Security and policy status issues are assumed to be under the control of either or both the sender and recipient. Both the sender and recipient must permit the exchange of messages and arrange the exchange of necessary keys and certificates for cryptographic operations.",
            ),
        )
    } else {
        None
    }
}

/// The title and the explanation of the status that the subject and the
/// detail of an enhanced status code name together.
pub open spec fn status_explanation(subject: u8, detail: u8) -> Option<
    (&'static str, &'static str),
> {
    if subject == 0 && detail == 0 {
        Some(
            (
                "Other undefined Status",
                "Other undefined status is the only undefined error code.",
            ),
        )
    } else if subject == 1 && detail == 0 {
        Some(
            (
                "Other address status",
                "Something about the address specified in the message caused this DSN.",
            ),
        )
    } else if subject == 1 && detail == 1 {
        Some(
            (
                "Bad destination mailbox address",
                "The mailbox specified in the address does not exist. For Internet mail names, this means the address portion to the left of the \"@\" sign is invalid. This code is only useful for permanent failures.",
            ),
        )
    } else if subject == 1 && detail == 2 {
        Some(
            (
                "Bad destination system address",
                "The destination system specified in the address does not exist or is incapable of accepting mail. For Internet mail names, this means the address portion to the right of the \"@\" is invalid for mail. This code is only useful for permanent failures.",
            ),
        )
    } else if subject == 1 && detail == 3 {
        Some(
            (
                "Bad destination mailbox address syntax",
                "The destination address was syntactically invalid. This can apply to any field in the address. This code is only useful for permanent failures.",
            ),
        )
    } else if subject == 1 && detail == 4 {
        Some(
            (
                "Destination mailbox address ambiguous",
                "The mailbox address as specified matches one or more recipients on the destination system. This may result if a heuristic address mapping algorithm is used to map the specified address to a local mailbox name.",
            ),
        )
    } else if subject == 1 && detail == 5 {
        Some(
            (
                "Destination address valid",
                "This mailbox address as specified was valid. This status code should be used for positive delivery reports.",
            ),
        )
    } else if subject == 1 && detail == 6 {
        Some(
            (
                "Destination mailbox has moved, No forwarding address",
                "The mailbox address provided was at one time valid, but mail is no longer being accepted for that address. This code is only useful for permanent failures.",
            ),
        )
    } else if subject == 1 && detail == 7 {
        Some(
            (
                "Bad sender's mailbox address syntax",
                "The sender's address was syntactically invalid. This can apply to any field in the address.",
            ),
        )
    } else if subject == 1 && detail == 8 {
        Some(
            (
                "Bad sender's system address",
                "The sender's system specified in the address does not exist or is incapable of accepting return mail. For domain names, this means the address portion to the right of the \"@\" is invalid for mail.",
            ),
        )
    } else if subject == 1 && detail == 9 {
        Some(
            (
                "Message relayed to non-compliant mailer",
                "The mailbox address specified was valid, but the message has been relayed to a system that does not speak this protocol; no further information can be provided.",
            ),
        )
    } else if subject == 1 && detail == 10 {
        Some(
            (
                "Recipient address has null MX",
                "This status code is returned when the associated address is marked as invalid using a null MX.",
            ),
        )
    } else if subject == 2 && detail == 0 {
        Some(
            (
                "Other or undefined mailbox status",
                "The mailbox exists, but something about the destination mailbox has caused the sending of this DSN.",
            ),
        )
    } else if subject == 2 && detail == 1 {
        Some(
            (
                "Mailbox disabled, not accepting messages",
                "The mailbox exists, but is not accepting messages. This may be a permanent error if the mailbox will never be re-enabled or a transient error if the mailbox is only temporarily disabled.",
            ),
        )
    } else if subject == 2 && detail == 2 {
        Some(
            (
                "Mailbox full",
                "The mailbox is full because the user has exceeded a per-mailbox administrative quota or physical capacity. The general semantics implies that the recipient can delete messages to make more space available. This code should be used as a persistent transient failure.",
            ),
        )
    } else if subject == 2 && detail == 3 {
        Some(
            (
                "Message length exceeds administrative limit",
                "A per-mailbox administrative message length limit has been exceeded. This status code should be used when the per-mailbox message length limit is less than the general system limit. This code should be used as a permanent failure.",
            ),
        )
    } else if subject == 2 && detail == 4 {
        Some(
            (
                "Mailing list expansion problem",
                "The mailbox is a mailing list address and the mailing list was unable to be expanded. This code may represent a permanent failure or a persistent transient failure.",
            ),
        )
    } else if subject == 3 && detail == 0 {
        Some(
            (
                "Other or undefined mail system status",
                "The destination system exists and normally accepts mail, but something about the system has caused the generation of this DSN.",
            ),
        )
    } else if subject == 3 && detail == 1 {
        Some(
            (
                "Mail system full",
                "Mail system storage has been exceeded. The general semantics imply that the individual recipient may not be able to delete material to make room for additional messages.",
            ),
        )
    } else if subject == 3 && detail == 2 {
        Some(
            (
                "System not accepting network messages",
                "The host on which the mailbox is resident is not accepting messages. Examples of such conditions include an imminent shutdown, excessive load, or system maintenance.",
            ),
        )
    } else if subject == 3 && detail == 3 {
        Some(
            (
                "System not capable of selected features",
                "Selected features specified for the message are not supported by the destination system. This can occur in gateways when features from one domain cannot be mapped onto the supported feature in another.",
            ),
        )
    } else if subject == 3 && detail == 4 {
        Some(
            (
                "Message too big for system",
                "The message is larger than per-message size limit. This limit may either be for physical or administrative reasons.",
            ),
        )
    } else if subject == 3 && detail == 5 {
        Some(
            (
                "System incorrectly configured",
                "The system is not configured in a manner that will permit it to accept this message.",
            ),
        )
    } else if subject == 3 && detail == 6 {
        Some(
            (
                "Requested priority was changed",
                "The message was accepted for relay/delivery, but the requested priority (possibly the implied default) was not honoured. The human readable text after the status code contains the new priority, followed by SP (space) and explanatory human readable text.",
            ),
        )
    } else if subject == 4 && detail == 0 {
        Some(
            (
                "Other or undefined network or routing status",
                "Something went wrong with the networking, but it is not clear what the problem is, or the problem cannot be well expressed with any of the other provided detail codes.",
            ),
        )
    } else if subject == 4 && detail == 1 {
        Some(
            (
                "No answer from host",
                "The outbound connection attempt was not answered, because either the remote system was busy, or was unable to take a call.",
            ),
        )
    } else if subject == 4 && detail == 2 {
        Some(
            (
                "Bad connection",
                "The outbound connection was established, but was unable to complete the message transaction, either because of time-out, or inadequate connection quality.",
            ),
        )
    } else if subject == 4 && detail == 3 {
        Some(
            (
                "Directory server failure",
                "The network system was unable to forward the message, because a directory server was unavailable. The inability to connect to an Internet DNS server is one example of the directory server failure error.",
            ),
        )
    } else if subject == 4 && detail == 4 {
        Some(
            (
                "Unable to route",
                "The mail system was unable to determine the next hop for the message because the necessary routing information was unavailable from the directory server. A DNS lookup returning only an SOA (Start of Administration) record for a domain name is one example of the unable to route error.",
            ),
        )
    } else if subject == 4 && detail == 5 {
        Some(
            (
                "Mail system congestion",
                "The mail system was unable to deliver the message because the mail system was congested.",
            ),
        )
    } else if subject == 4 && detail == 6 {
        Some(
            (
                "Routing loop detected",
                "A routing loop caused the message to be forwarded too many times, either because of incorrect routing tables or a user- forwarding loop.",
            ),
        )
    } else if subject == 4 && detail == 7 {
        Some(
            (
                "Delivery time expired",
                "The message was considered too old by the rejecting system, either because it remained on that host too long or because the time-to-live value specified by the sender of the message was exceeded. If possible, the code for the actual problem found when delivery was attempted should be returned rather than this code.",
            ),
        )
    } else if subject == 5 && detail == 0 {
        Some(
            (
                "Other or undefined protocol status",
                "Something was wrong with the protocol necessary to deliver the message to the next hop and the problem cannot be well expressed with any of the other provided detail codes.",
            ),
        )
    } else if subject == 5 && detail == 1 {
        Some(
            (
                "Invalid command",
                "A mail transaction protocol command was issued which was either out of sequence or unsupported.",
            ),
        )
    } else if subject == 5 && detail == 2 {
        Some(
            (
                "Syntax error",
                "A mail transaction protocol command was issued which could not be interpreted, either because the syntax was wrong or the command is unrecognized.",
            ),
        )
    } else if subject == 5 && detail == 3 {
        Some(
            (
                "Too many recipients",
                "More recipients were specified for the message than could have been delivered by the protocol. This error should normally result in the segmentation of the message into two, the remainder of the recipients to be delivered on a subsequent delivery attempt. It is included in this list in the event that such segmentation is not possible.",
            ),
        )
    } else if subject == 5 && detail == 4 {
        Some(
            (
                "Invalid command arguments",
                "A valid mail transaction protocol command was issued with invalid arguments, either because the arguments were out of range or represented unrecognized features.",
            ),
        )
    } else if subject == 5 && detail == 5 {
        Some(
            (
                "Wrong protocol version",
                "A protocol version mis-match existed which could not be automatically resolved by the communicating parties.",
            ),
        )
    } else if subject == 5 && detail == 6 {
        Some(
            (
                "Authentication Exchange line is too long",
                "This enhanced status code SHOULD be returned when the server fails the AUTH command due to the client sending a [BASE64] response which is longer than the maximum buffer size available for the currently selected SASL mechanism.",
            ),
        )
    } else if subject == 6 && detail == 0 {
        Some(
            (
                "Other or undefined media error",
                "Something about the content of a message caused it to be considered undeliverable and the problem cannot be well expressed with any of the other provided detail codes.",
            ),
        )
    } else if subject == 6 && detail == 1 {
        Some(
            (
                "Media not supported",
                "The media of the message is not supported by either the delivery protocol or the next system in the forwarding path.",
            ),
        )
    } else if subject == 6 && detail == 2 {
        Some(
            (
                "Conversion required and prohibited",
                "The content of the message must be converted before it can be delivered and such conversion is not permitted. Such prohibitions may be the expression of the sender in the message itself or the policy of the sending host.",
            ),
        )
    } else if subject == 6 && detail == 3 {
        Some(
            (
                "Conversion required but not supported",
                "The message content must be converted in order to be forwarded but such conversion is not possible or is not practical by a host in the forwarding path. This condition may result when an ESMTP gateway supports 8bit transport but is not able to downgrade the message to 7 bit as required for the next hop.",
            ),
        )
    } else if subject == 6 && detail == 4 {
        Some(
            (
                "Conversion with loss performed",
                "This is a warning sent to the sender when message delivery was successfully but when the delivery required a conversion in which some data was lost. This may also be a permanent error if the sender has indicated that conversion with loss is prohibited for the message.",
            ),
        )
    } else if subject == 6 && detail == 5 {
        Some(
            (
                "Conversion Failed",
                "A conversion was required but was unsuccessful. This may be useful as a permanent or persistent temporary notification.",
            ),
        )
    } else if subject == 6 && detail == 6 {
        Some(
            (
                "Message content not available",
                "The message content could not be fetched from a remote system. This may be useful as a permanent or persistent temporary notification.",
            ),
        )
    } else if subject == 6 && detail == 7 {
        Some(
            (
                "Non-ASCII addresses not permitted for that sender/recipient",
                "This indicates the reception of a MAIL or RCPT command that non-ASCII addresses are not permitted",
            ),
        )
    } else if subject == 6 && (detail == 8 || detail == 10) {
        Some(
            (
                "UTF-8 string reply is required, but not permitted by the SMTP client",
                "This indicates that a reply containing a UTF-8 string is required to show the mailbox name, but that form of response is not permitted by the SMTP client.",
            ),
        )
    } else if subject == 6 && detail == 9 {
        Some(
            (
                "UTF-8 header message cannot be transferred to one or more recipients, so the message must be rejected",
                "This indicates that transaction failed after the final \".\" of the DATA command.",
            ),
        )
    } else if subject == 7 && detail == 0 {
        Some(
            (
                "Other or undefined security status",
                "Something related to security caused the message to be returned, and the problem cannot be well expressed with any of the other provided detail codes. This status code may also be used when the condition cannot be further described because of security policies in force.",
            ),
        )
    } else if subject == 7 && detail == 1 {
        Some(
            (
                "Delivery not authorized, message refused",
                "The sender is not authorized to send to the destination. This can be the result of per-host or per-recipient filtering. This memo does not discuss the merits of any such filtering, but provides a mechanism to report such.",
            ),
        )
    } else if subject == 7 && detail == 2 {
        Some(
            (
                "Mailing list expansion prohibited",
                "The sender is not authorized to send a message to the intended mailing list.",
            ),
        )
    } else if subject == 7 && detail == 3 {
        Some(
            (
                "Security conversion required but not possible",
                "A conversion from one secure messaging protocol to another was required for delivery and such conversion was not possible.",
            ),
        )
    } else if subject == 7 && detail == 4 {
        Some(
            (
                "Security features not supported",
                "A message contained security features such as secure authentication that could not be supported on the delivery protocol.",
            ),
        )
    } else if subject == 7 && detail == 5 {
        Some(
            (
                "Cryptographic failure",
                "A transport system otherwise authorized to validate or decrypt a message in transport was unable to do so because necessary information such as key was not available or such information was invalid.",
            ),
        )
    } else if subject == 7 && detail == 6 {
        Some(
            (
                "Cryptographic algorithm not supported",
                "A transport system otherwise authorized to validate or decrypt a message was unable to do so because the necessary algorithm was not supported.",
            ),
        )
    } else if subject == 7 && detail == 7 {
        Some(
            (
                "Message integrity failure",
                "A transport system otherwise authorized to validate a message was unable to do so because the message was corrupted or altered. This may be useful as a permanent, transient persistent, or successful delivery code.",
            ),
        )
    } else if subject == 7 && detail == 8 {
        Some(
            (
                "Authentication credentials invalid",
                "This response to the AUTH command indicates that the authentication failed due to invalid or insufficient authentication credentials. In this case, the client SHOULD ask the user to supply new credentials (such as by presenting a password dialog box).",
            ),
        )
    } else if subject == 7 && detail == 9 {
        Some(
            (
                "Authentication mechanism is too weak",
                "This response to the AUTH command indicates that the selected authentication mechanism is weaker than server policy permits for that user. The client SHOULD retry with a new authentication mechanism.",
            ),
        )
    } else if subject == 7 && detail == 10 {
        Some(
            (
                "Encryption Needed",
                "This indicates that external strong privacy layer is needed in order to use the requested authentication mechanism. This is primarily intended for use with clear text authentication mechanisms. A client which receives this may activate a security layer such as TLS prior to authenticating, or attempt to use a stronger mechanism.",
            ),
        )
    } else if subject == 7 && detail == 11 {
        Some(
            (
                "Encryption required for requested authentication mechanism",
                "This response to the AUTH command indicates that the selected authentication mechanism may only be used when the underlying SMTP connection is encrypted. Note that this response code is documented here for historical purposes only. Modern implementations SHOULD NOT advertise mechanisms that are not permitted due to lack of encryption, unless an encryption layer of sufficient strength is currently being employed.",
            ),
        )
    } else if subject == 7 && detail == 12 {
        Some(
            (
                "A password transition is needed",
                "This response to the AUTH command indicates that the user needs to transition to the selected authentication mechanism. This is typically done by authenticating once using the [PLAIN] authentication mechanism. The selected mechanism SHOULD then work for authentications in subsequent sessions.",
            ),
        )
    } else if subject == 7 && detail == 13 {
        Some(
            (
                "User Account Disabled",
                "Sometimes a system administrator will have to disable a user's account (e.g., due to lack of payment, abuse, evidence of a break-in attempt, etc). This error code occurs after a successful authentication to a disabled account. This informs the client that the failure is permanent until the user contacts their system administrator to get the account re-enabled. It differs from a generic authentication failure where the client's best option is to present the passphrase entry dialog in case the user simply mistyped their passphrase.",
            ),
        )
    } else if subject == 7 && detail == 14 {
        Some(
            (
                "Trust relationship required",
                "The submission server requires a configured trust relationship with a third-party server in order to access the message content. This value replaces the prior use of X.7.8 for this error condition. thereby updating [RFC4468].",
            ),
        )
    } else if subject == 7 && detail == 15 {
        Some(
            (
                "Priority Level is too low",
                "The specified priority level is below the lowest priority acceptable for the receiving SMTP server. This condition might be temporary, for example the server is operating in a mode where only higher priority messages are accepted for transfer and delivery, while lower priority messages are rejected.",
            ),
        )
    } else if subject == 7 && detail == 16 {
        Some(
            (
                "Message is too big for the specified priority",
                "The message is too big for the specified priority. This condition might be temporary, for example the server is operating in a mode where only higher priority messages below certain size are accepted for transfer and delivery.",
            ),
        )
    } else if subject == 7 && detail == 17 {
        Some(
            (
                "Mailbox owner has changed",
                "This status code is returned when a message is received with a Require-Recipient-Valid-Since field or RRVS extension and the receiving system is able to determine that the intended recipient mailbox has not been under continuous ownership since the specified date-time.",
            ),
        )
    } else if subject == 7 && detail == 18 {
        Some(
            (
                "Domain owner has changed",
                "This status code is returned when a message is received with a Require-Recipient-Valid-Since field or RRVS extension and the receiving system wishes to disclose that the owner of the domain name of the recipient has changed since the specified date-time.",
            ),
        )
    } else if subject == 7 && detail == 19 {
        Some(
            (
                "RRVS test cannot be completed",
                "This status code is returned when a message is received with a Require-Recipient-Valid-Since field or RRVS extension and the receiving system cannot complete the requested evaluation because the required timestamp was not recorded. The message originator needs to decide whether to reissue the message without RRVS protection.",
            ),
        )
    } else if subject == 7 && detail == 20 {
        Some(
            (
                "No passing DKIM signature found",
                "This status code is returned when a message did not contain any passing DKIM signatures. (This violates the advice of Section 6.1 of [RFC6376].)",
            ),
        )
    } else if subject == 7 && detail == 21 {
        Some(
            (
                "No acceptable DKIM signature found",
                "This status code is returned when a message contains one or more passing DKIM signatures, but none are acceptable. (This violates the advice of Section 6.1 of [RFC6376].)",
            ),
        )
    } else if subject == 7 && detail == 22 {
        Some(
            (
                "No valid author-matched DKIM signature found",
                "This status code is returned when a message contains one or more passing DKIM signatures, but none are acceptable because none have an identifier(s) that matches the author address(es) found in the From header field. This is a special case of X.7.21. (This violates the advice of Section 6.1 of [RFC6376].)",
            ),
        )
    } else if subject == 7 && detail == 23 {
        Some(
            (
                "SPF validation failed",
                "This status code is returned when a message completed an SPF check that produced a \"fail\" result, contrary to local policy requirements. Used in place of 5.7.1 as described in Section 8.4 of [RFC7208].",
            ),
        )
    } else if subject == 7 && detail == 24 {
        Some(
            (
                "SPF validation error",
                "This status code is returned when evaluation of SPF relative to an arriving message resulted in an error. Used in place of 4.4.3 or 5.5.2 as described in Sections 8.6 and 8.7 of [RFC7208].",
            ),
        )
    } else if subject == 7 && detail == 25 {
        Some(
            (
                "Reverse DNS validation failed",
                "This status code is returned when an SMTP client's IP address failed a reverse DNS validation check, contrary to local policy requirements.",
            ),
        )
    } else if subject == 7 && detail == 26 {
        Some(
            (
                "Multiple authentication checks failed",
                "This status code is returned when a message failed more than one message authentication check, contrary to local policy requirements. The particular mechanisms that failed are not specified.",
            ),
        )
    } else if subject == 7 && detail == 27 {
        Some(
            (
                "Sender address has null MX",
                "This status code is returned when the associated sender address has a null MX, and the SMTP receiver is configured to reject mail from such sender (e.g., because it could not return a DSN).",
            ),
        )
    } else if subject == 7 && detail == 28 {
        Some(
            (
                "Mail flood detected",
                "The message appears to be part of a mail flood of similar abusive messages.",
            ),
        )
    } else if subject == 7 && detail == 29 {
        Some(
            (
                "ARC validation failure",
                "This status code may be returned when a message fails ARC validation.",
            ),
        )
    } else if subject == 7 && detail == 30 {
        Some(
            (
                "REQUIRETLS support required",
                "This indicates that the message was not able to be forwarded because it was received with a REQUIRETLS requirement and none of the SMTP servers to which the message should be forwarded provide this support.",
            ),
        )
    } else {
        None
    }
}

/// The title and the explanation of the class `code`.
pub fn explain_class(code: u8) -> (r: Option<(&'static str, &'static str)>)
    ensures
        r == class_explanation(code),
{
    if code == 2 {
        Some(
            (
                "Success",
                "Success specifies that the DSN is reporting a positive delivery action. Detail sub-codes may provide notification of transformations required for delivery.",
            ),
        )
    } else if code == 4 {
        Some(
            (
                "Persistent Transient Failure",
                "A persistent transient failure is one in which the message as sent is valid, but persistence of some temporary condition has caused abandonment or delay of attempts to send the message. If this code accompanies a delivery failure report, sending in the future may be successful.",
            ),
        )
    } else if code == 5 {
        Some(
            (
                "Permanent Failure",
                "A permanent failure is one which is not likely to be resolved by resending the message in the current form. Some change to the message or the destination must be made for successful delivery.",
            ),
        )
    } else {
        None
    }
}

/// The title and the explanation of the subject `code`.
pub fn explain_subject(code: u8) -> (r: Option<(&'static str, &'static str)>)
    ensures
        r == subject_explanation(code),
{
    if code == 0 {
        Some(
            (
                "Other or Undefined Status",
                "There is no additional subject information available.",
            ),
        )
    } else if code == 1 {
        Some(
            (
                "Addressing Status",
                "The address status reports on the originator or destination address. It may include address syntax or validity. These errors can generally be corrected by the sender and retried.",
            ),
        )
    } else if code == 2 {
        Some(
            (
                "Mailbox Status",
                "Mailbox status indicates that something having to do with the mailbox has caused this DSN. Mailbox issues are assumed to be under the general control of the recipient.",
            ),
        )
    } else if code == 3 {
        Some(
            (
                "Mail System Status",
                "Mail system status indicates that something having to do with the destination system has caused this DSN. System issues are assumed to be under the general control of the destination system administrator.",
            ),
        )
    } else if code == 4 {
        Some(
            (
                "Network and Routing Status",
                "The networking or routing codes report status about the delivery system itself. These system components include any necessary infrastructure such as directory and routing services. Network issues are assumed to be under the control of the destination or intermediate system administrator.",
            ),
        )
    } else if code == 5 {
        Some(
            (
                "Mail Delivery Protocol Status",
                "The mail delivery protocol status codes report failures involving the message delivery protocol. These failures include the full range of problems resulting from implementation errors or an unreliable connection.",
            ),
        )
    } else if code == 6 {
        Some(
            (
                "Message Content or Media Status",
                "The message content or media status codes report failures involving the content of the message. These codes report failures due to translation, transcoding, or otherwise unsupported message media. Message content or media issues are under the control of both the sender and the receiver, both of which must support a common set of supported content-types.",
            ),
        )
    } else if code == 7 {
        Some(
            (
                "Security or Policy Status",
                "The security or policy status codes report failures involving policies such as per-recipient or per-host filtering and cryptographic operations. Security and policy status issues are assumed to be under the control of either or both the sender and recipient. Both the sender and recipient must permit the exchange of messages and arrange the exchange of necessary keys and certificates for cryptographic operations.",
            ),
        )
    } else {
        None
    }
}

/// The title and the explanation of the status that `subject` and `detail`
/// name.
pub fn explain_status(subject: u8, detail: u8) -> (r: Option<(&'static str, &'static str)>)
    ensures
        r == status_explanation(subject, detail),
{
    if subject == 0 && detail == 0 {
        Some(
            (
                "Other undefined Status",
                "Other undefined status is the only undefined error code.",
            ),
        )
    } else if subject == 1 && detail == 0 {
        Some(
            (
                "Other address status",
                "Something about the address specified in the message caused this DSN.",
            ),
        )
    } else if subject == 1 && detail == 1 {
        Some(
            (
                "Bad destination mailbox address",
                "The mailbox specified in the address does not exist. For Internet mail names, this means the address portion to the left of the \"@\" sign is invalid. This code is only useful for permanent failures.",
            ),
        )
    } else if subject == 1 && detail == 2 {
        Some(
            (
                "Bad destination system address",
                "The destination system specified in the address does not exist or is incapable of accepting mail. For Internet mail names, this means the address portion to the right of the \"@\" is invalid for mail. This code is only useful for permanent failures.",
            ),
        )
    } else if subject == 1 && detail == 3 {
        Some(
            (
                "Bad destination mailbox address syntax",
                "The destination address was syntactically invalid. This can apply to any field in the address. This code is only useful for permanent failures.",
            ),
        )
    } else if subject == 1 && detail == 4 {
        Some(
            (
                "Destination mailbox address ambiguous",
                "The mailbox address as specified matches one or more recipients on the destination system. This may result if a heuristic address mapping algorithm is used to map the specified address to a local mailbox name.",
            ),
        )
    } else if subject == 1 && detail == 5 {
        Some(
            (
                "Destination address valid",
                "This mailbox address as specified was valid. This status code should be used for positive delivery reports.",
            ),
        )
    } else if subject == 1 && detail == 6 {
        Some(
            (
                "Destination mailbox has moved, No forwarding address",
                "The mailbox address provided was at one time valid, but mail is no longer being accepted for that address. This code is only useful for permanent failures.",
            ),
        )
    } else if subject == 1 && detail == 7 {
        Some(
            (
                "Bad sender's mailbox address syntax",
                "The sender's address was syntactically invalid. This can apply to any field in the address.",
            ),
        )
    } else if subject == 1 && detail == 8 {
        Some(
            (
                "Bad sender's system address",
                "The sender's system specified in the address does not exist or is incapable of accepting return mail. For domain names, this means the address portion to the right of the \"@\" is invalid for mail.",
            ),
        )
    } else if subject == 1 && detail == 9 {
        Some(
            (
                "Message relayed to non-compliant mailer",
                "The mailbox address specified was valid, but the message has been relayed to a system that does not speak this protocol; no further information can be provided.",
            ),
        )
    } else if subject == 1 && detail == 10 {
        Some(
            (
                "Recipient address has null MX",
                "This status code is returned when the associated address is marked as invalid using a null MX.",
            ),
        )
    } else if subject == 2 && detail == 0 {
        Some(
            (
                "Other or undefined mailbox status",
                "The mailbox exists, but something about the destination mailbox has caused the sending of this DSN.",
            ),
        )
    } else if subject == 2 && detail == 1 {
        Some(
            (
                "Mailbox disabled, not accepting messages",
                "The mailbox exists, but is not accepting messages. This may be a permanent error if the mailbox will never be re-enabled or a transient error if the mailbox is only temporarily disabled.",
            ),
        )
    } else if subject == 2 && detail == 2 {
        Some(
            (
                "Mailbox full",
                "The mailbox is full because the user has exceeded a per-mailbox administrative quota or physical capacity. The general semantics implies that the recipient can delete messages to make more space available. This code should be used as a persistent transient failure.",
            ),
        )
    } else if subject == 2 && detail == 3 {
        Some(
            (
                "Message length exceeds administrative limit",
                "A per-mailbox administrative message length limit has been exceeded. This status code should be used when the per-mailbox message length limit is less than the general system limit. This code should be used as a permanent failure.",
            ),
        )
    } else if subject == 2 && detail == 4 {
        Some(
            (
                "Mailing list expansion problem",
                "The mailbox is a mailing list address and the mailing list was unable to be expanded. This code may represent a permanent failure or a persistent transient failure.",
            ),
        )
    } else if subject == 3 && detail == 0 {
        Some(
            (
                "Other or undefined mail system status",
                "The destination system exists and normally accepts mail, but something about the system has caused the generation of this DSN.",
            ),
        )
    } else if subject == 3 && detail == 1 {
        Some(
            (
                "Mail system full",
                "Mail system storage has been exceeded. The general semantics imply that the individual recipient may not be able to delete material to make room for additional messages.",
            ),
        )
    } else if subject == 3 && detail == 2 {
        Some(
            (
                "System not accepting network messages",
                "The host on which the mailbox is resident is not accepting messages. Examples of such conditions include an imminent shutdown, excessive load, or system maintenance.",
            ),
        )
    } else if subject == 3 && detail == 3 {
        Some(
            (
                "System not capable of selected features",
                "Selected features specified for the message are not supported by the destination system. This can occur in gateways when features from one domain cannot be mapped onto the supported feature in another.",
            ),
        )
    } else if subject == 3 && detail == 4 {
        Some(
            (
                "Message too big for system",
                "The message is larger than per-message size limit. This limit may either be for physical or administrative reasons.",
            ),
        )
    } else if subject == 3 && detail == 5 {
        Some(
            (
                "System incorrectly configured",
                "The system is not configured in a manner that will permit it to accept this message.",
            ),
        )
    } else if subject == 3 && detail == 6 {
        Some(
            (
                "Requested priority was changed",
                "The message was accepted for relay/delivery, but the requested priority (possibly the implied default) was not honoured. The human readable text after the status code contains the new priority, followed by SP (space) and explanatory human readable text.",
            ),
        )
    } else if subject == 4 && detail == 0 {
        Some(
            (
                "Other or undefined network or routing status",
                "Something went wrong with the networking, but it is not clear what the problem is, or the problem cannot be well expressed with any of the other provided detail codes.",
            ),
        )
    } else if subject == 4 && detail == 1 {
        Some(
            (
                "No answer from host",
                "The outbound connection attempt was not answered, because either the remote system was busy, or was unable to take a call.",
            ),
        )
    } else if subject == 4 && detail == 2 {
        Some(
            (
                "Bad connection",
                "The outbound connection was established, but was unable to complete the message transaction, either because of time-out, or inadequate connection quality.",
            ),
        )
    } else if subject == 4 && detail == 3 {
        Some(
            (
                "Directory server failure",
                "The network system was unable to forward the message, because a directory server was unavailable. The inability to connect to an Internet DNS server is one example of the directory server failure error.",
            ),
        )
    } else if subject == 4 && detail == 4 {
        Some(
            (
                "Unable to route",
                "The mail system was unable to determine the next hop for the message because the necessary routing information was unavailable from the directory server. A DNS lookup returning only an SOA (Start of Administration) record for a domain name is one example of the unable to route error.",
            ),
        )
    } else if subject == 4 && detail == 5 {
        Some(
            (
                "Mail system congestion",
                "The mail system was unable to deliver the message because the mail system was congested.",
            ),
        )
    } else if subject == 4 && detail == 6 {
        Some(
            (
                "Routing loop detected",
                "A routing loop caused the message to be forwarded too many times, either because of incorrect routing tables or a user- forwarding loop.",
            ),
        )
    } else if subject == 4 && detail == 7 {
        Some(
            (
                "Delivery time expired",
                "The message was considered too old by the rejecting system, either because it remained on that host too long or because the time-to-live value specified by the sender of the message was exceeded. If possible, the code for the actual problem found when delivery was attempted should be returned rather than this code.",
            ),
        )
    } else if subject == 5 && detail == 0 {
        Some(
            (
                "Other or undefined protocol status",
                "Something was wrong with the protocol necessary to deliver the message to the next hop and the problem cannot be well expressed with any of the other provided detail codes.",
            ),
        )
    } else if subject == 5 && detail == 1 {
        Some(
            (
                "Invalid command",
                "A mail transaction protocol command was issued which was either out of sequence or unsupported.",
            ),
        )
    } else if subject == 5 && detail == 2 {
        Some(
            (
                "Syntax error",
                "A mail transaction protocol command was issued which could not be interpreted, either because the syntax was wrong or the command is unrecognized.",
            ),
        )
    } else if subject == 5 && detail == 3 {
        Some(
            (
                "Too many recipients",
                "More recipients were specified for the message than could have been delivered by the protocol. This error should normally result in the segmentation of the message into two, the remainder of the recipients to be delivered on a subsequent delivery attempt. It is included in this list in the event that such segmentation is not possible.",
            ),
        )
    } else if subject == 5 && detail == 4 {
        Some(
            (
                "Invalid command arguments",
                "A valid mail transaction protocol command was issued with invalid arguments, either because the arguments were out of range or represented unrecognized features.",
            ),
        )
    } else if subject == 5 && detail == 5 {
        Some(
            (
                "Wrong protocol version",
                "A protocol version mis-match existed which could not be automatically resolved by the communicating parties.",
            ),
        )
    } else if subject == 5 && detail == 6 {
        Some(
            (
                "Authentication Exchange line is too long",
                "This enhanced status code SHOULD be returned when the server fails the AUTH command due to the client sending a [BASE64] response which is longer than the maximum buffer size available for the currently selected SASL mechanism.",
            ),
        )
    } else if subject == 6 && detail == 0 {
        Some(
            (
                "Other or undefined media error",
                "Something about the content of a message caused it to be considered undeliverable and the problem cannot be well expressed with any of the other provided detail codes.",
            ),
        )
    } else if subject == 6 && detail == 1 {
        Some(
            (
                "Media not supported",
                "The media of the message is not supported by either the delivery protocol or the next system in the forwarding path.",
            ),
        )
    } else if subject == 6 && detail == 2 {
        Some(
            (
                "Conversion required and prohibited",
                "The content of the message must be converted before it can be delivered and such conversion is not permitted. Such prohibitions may be the expression of the sender in the message itself or the policy of the sending host.",
            ),
        )
    } else if subject == 6 && detail == 3 {
        Some(
            (
                "Conversion required but not supported",
                "The message content must be converted in order to be forwarded but such conversion is not possible or is not practical by a host in the forwarding path. This condition may result when an ESMTP gateway supports 8bit transport but is not able to downgrade the message to 7 bit as required for the next hop.",
            ),
        )
    } else if subject == 6 && detail == 4 {
        Some(
            (
                "Conversion with loss performed",
                "This is a warning sent to the sender when message delivery was successfully but when the delivery required a conversion in which some data was lost. This may also be a permanent error if the sender has indicated that conversion with loss is prohibited for the message.",
            ),
        )
    } else if subject == 6 && detail == 5 {
        Some(
            (
                "Conversion Failed",
                "A conversion was required but was unsuccessful. This may be useful as a permanent or persistent temporary notification.",
            ),
        )
    } else if subject == 6 && detail == 6 {
        Some(
            (
                "Message content not available",
                "The message content could not be fetched from a remote system. This may be useful as a permanent or persistent temporary notification.",
            ),
        )
    } else if subject == 6 && detail == 7 {
        Some(
            (
                "Non-ASCII addresses not permitted for that sender/recipient",
                "This indicates the reception of a MAIL or RCPT command that non-ASCII addresses are not permitted",
            ),
        )
    } else if subject == 6 && (detail == 8 || detail == 10) {
        Some(
            (
                "UTF-8 string reply is required, but not permitted by the SMTP client",
                "This indicates that a reply containing a UTF-8 string is required to show the mailbox name, but that form of response is not permitted by the SMTP client.",
            ),
        )
    } else if subject == 6 && detail == 9 {
        Some(
            (
                "UTF-8 header message cannot be transferred to one or more recipients, so the message must be rejected",
                "This indicates that transaction failed after the final \".\" of the DATA command.",
            ),
        )
    } else if subject == 7 && detail == 0 {
        Some(
            (
                "Other or undefined security status",
                "Something related to security caused the message to be returned, and the problem cannot be well expressed with any of the other provided detail codes. This status code may also be used when the condition cannot be further described because of security policies in force.",
            ),
        )
    } else if subject == 7 && detail == 1 {
        Some(
            (
                "Delivery not authorized, message refused",
                "The sender is not authorized to send to the destination. This can be the result of per-host or per-recipient filtering. This memo does not discuss the merits of any such filtering, but provides a mechanism to report such.",
            ),
        )
    } else if subject == 7 && detail == 2 {
        Some(
            (
                "Mailing list expansion prohibited",
                "The sender is not authorized to send a message to the intended mailing list.",
            ),
        )
    } else if subject == 7 && detail == 3 {
        Some(
            (
                "Security conversion required but not possible",
                "A conversion from one secure messaging protocol to another was required for delivery and such conversion was not possible.",
            ),
        )
    } else if subject == 7 && detail == 4 {
        Some(
            (
                "Security features not supported",
                "A message contained security features such as secure authentication that could not be supported on the delivery protocol.",
            ),
        )
    } else if subject == 7 && detail == 5 {
        Some(
            (
                "Cryptographic failure",
                "A transport system otherwise authorized to validate or decrypt a message in transport was unable to do so because necessary information such as key was not available or such information was invalid.",
            ),
        )
    } else if subject == 7 && detail == 6 {
        Some(
            (
                "Cryptographic algorithm not supported",
                "A transport system otherwise authorized to validate or decrypt a message was unable to do so because the necessary algorithm was not supported.",
            ),
        )
    } else if subject == 7 && detail == 7 {
        Some(
            (
                "Message integrity failure",
                "A transport system otherwise authorized to validate a message was unable to do so because the message was corrupted or altered. This may be useful as a permanent, transient persistent, or successful delivery code.",
            ),
        )
    } else if subject == 7 && detail == 8 {
        Some(
            (
                "Authentication credentials invalid",
                "This response to the AUTH command indicates that the authentication failed due to invalid or insufficient authentication credentials. In this case, the client SHOULD ask the user to supply new credentials (such as by presenting a password dialog box).",
            ),
        )
    } else if subject == 7 && detail == 9 {
        Some(
            (
                "Authentication mechanism is too weak",
                "This response to the AUTH command indicates that the selected authentication mechanism is weaker than server policy permits for that user. The client SHOULD retry with a new authentication mechanism.",
            ),
        )
    } else if subject == 7 && detail == 10 {
        Some(
            (
                "Encryption Needed",
                "This indicates that external strong privacy layer is needed in order to use the requested authentication mechanism. This is primarily intended for use with clear text authentication mechanisms. A client which receives this may activate a security layer such as TLS prior to authenticating, or attempt to use a stronger mechanism.",
            ),
        )
    } else if subject == 7 && detail == 11 {
        Some(
            (
                "Encryption required for requested authentication mechanism",
                "This response to the AUTH command indicates that the selected authentication mechanism may only be used when the underlying SMTP connection is encrypted. Note that this response code is documented here for historical purposes only. Modern implementations SHOULD NOT advertise mechanisms that are not permitted due to lack of encryption, unless an encryption layer of sufficient strength is currently being employed.",
            ),
        )
    } else if subject == 7 && detail == 12 {
        Some(
            (
                "A password transition is needed",
                "This response to the AUTH command indicates that the user needs to transition to the selected authentication mechanism. This is typically done by authenticating once using the [PLAIN] authentication mechanism. The selected mechanism SHOULD then work for authentications in subsequent sessions.",
            ),
        )
    } else if subject == 7 && detail == 13 {
        Some(
            (
                "User Account Disabled",
                "Sometimes a system administrator will have to disable a user's account (e.g., due to lack of payment, abuse, evidence of a break-in attempt, etc). This error code occurs after a successful authentication to a disabled account. This informs the client that the failure is permanent until the user contacts their system administrator to get the account re-enabled. It differs from a generic authentication failure where the client's best option is to present the passphrase entry dialog in case the user simply mistyped their passphrase.",
            ),
        )
    } else if subject == 7 && detail == 14 {
        Some(
            (
                "Trust relationship required",
                "The submission server requires a configured trust relationship with a third-party server in order to access the message content. This value replaces the prior use of X.7.8 for this error condition. thereby updating [RFC4468].",
            ),
        )
    } else if subject == 7 && detail == 15 {
        Some(
            (
                "Priority Level is too low",
                "The specified priority level is below the lowest priority acceptable for the receiving SMTP server. This condition might be temporary, for example the server is operating in a mode where only higher priority messages are accepted for transfer and delivery, while lower priority messages are rejected.",
            ),
        )
    } else if subject == 7 && detail == 16 {
        Some(
            (
                "Message is too big for the specified priority",
                "The message is too big for the specified priority. This condition might be temporary, for example the server is operating in a mode where only higher priority messages below certain size are accepted for transfer and delivery.",
            ),
        )
    } else if subject == 7 && detail == 17 {
        Some(
            (
                "Mailbox owner has changed",
                "This status code is returned when a message is received with a Require-Recipient-Valid-Since field or RRVS extension and the receiving system is able to determine that the intended recipient mailbox has not been under continuous ownership since the specified date-time.",
            ),
        )
    } else if subject == 7 && detail == 18 {
        Some(
            (
                "Domain owner has changed",
                "This status code is returned when a message is received with a Require-Recipient-Valid-Since field or RRVS extension and the receiving system wishes to disclose that the owner of the domain name of the recipient has changed since the specified date-time.",
            ),
        )
    } else if subject == 7 && detail == 19 {
        Some(
            (
                "RRVS test cannot be completed",
                "This status code is returned when a message is received with a Require-Recipient-Valid-Since field or RRVS extension and the receiving system cannot complete the requested evaluation because the required timestamp was not recorded. The message originator needs to decide whether to reissue the message without RRVS protection.",
            ),
        )
    } else if subject == 7 && detail == 20 {
        Some(
            (
                "No passing DKIM signature found",
                "This status code is returned when a message did not contain any passing DKIM signatures. (This violates the advice of Section 6.1 of [RFC6376].)",
            ),
        )
    } else if subject == 7 && detail == 21 {
        Some(
            (
                "No acceptable DKIM signature found",
                "This status code is returned when a message contains one or more passing DKIM signatures, but none are acceptable. (This violates the advice of Section 6.1 of [RFC6376].)",
            ),
        )
    } else if subject == 7 && detail == 22 {
        Some(
            (
                "No valid author-matched DKIM signature found",
                "This status code is returned when a message contains one or more passing DKIM signatures, but none are acceptable because none have an identifier(s) that matches the author address(es) found in the From header field. This is a special case of X.7.21. (This violates the advice of Section 6.1 of [RFC6376].)",
            ),
        )
    } else if subject == 7 && detail == 23 {
        Some(
            (
                "SPF validation failed",
                "This status code is returned when a message completed an SPF check that produced a \"fail\" result, contrary to local policy requirements. Used in place of 5.7.1 as described in Section 8.4 of [RFC7208].",
            ),
        )
    } else if subject == 7 && detail == 24 {
        Some(
            (
                "SPF validation error",
                "This status code is returned when evaluation of SPF relative to an arriving message resulted in an error. Used in place of 4.4.3 or 5.5.2 as described in Sections 8.6 and 8.7 of [RFC7208].",
            ),
        )
    } else if subject == 7 && detail == 25 {
        Some(
            (
                "Reverse DNS validation failed",
                "This status code is returned when an SMTP client's IP address failed a reverse DNS validation check, contrary to local policy requirements.",
            ),
        )
    } else if subject == 7 && detail == 26 {
        Some(
            (
                "Multiple authentication checks failed",
                "This status code is returned when a message failed more than one message authentication check, contrary to local policy requirements. The particular mechanisms that failed are not specified.",
            ),
        )
    } else if subject == 7 && detail == 27 {
        Some(
            (
                "Sender address has null MX",
                "This status code is returned when the associated sender address has a null MX, and the SMTP receiver is configured to reject mail from such sender (e.g., because it could not return a DSN).",
            ),
        )
    } else if subject == 7 && detail == 28 {
        Some(
            (
                "Mail flood detected",
                "The message appears to be part of a mail flood of similar abusive messages.",
            ),
        )
    } else if subject == 7 && detail == 29 {
        Some(
            (
                "ARC validation failure",
                "This status code may be returned when a message fails ARC validation.",
            ),
        )
    } else if subject == 7 && detail == 30 {
        Some(
            (
                "REQUIRETLS support required",
                "This indicates that the message was not able to be forwarded because it was received with a REQUIRETLS requirement and none of the SMTP servers to which the message should be forwarded provide this support.",
            ),
        )
    } else {
        None
    }
}

impl<T> Response<T> {
    /// Explains the class of the reply's enhanced status code.
    pub fn explain_class_code(&self) -> (r: Option<(&'static str, &'static str)>)
        ensures
            r == class_explanation(self.esc[0]),
    {
        explain_class(self.esc[0])
    }

    /// Explains the subject of the reply's enhanced status code.
    pub fn explain_subject_code(&self) -> (r: Option<(&'static str, &'static str)>)
        ensures
            r == subject_explanation(self.esc[1]),
    {
        explain_subject(self.esc[1])
    }

    /// Explains the status that the reply's enhanced status code names.
    pub fn explain_status_code(&self) -> (r: Option<(&'static str, &'static str)>)
        ensures
            r == status_explanation(self.esc[1], self.esc[2]),
    {
        explain_status(self.esc[1], self.esc[2])
    }
}

} // verus!
