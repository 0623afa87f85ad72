//! Certificates: what one says, when it is renewed, and which one is in use.

use crate::number;
use crate::text;
use crate::tls::{self, CertificateSource, StoredCertificate, TlsConfig, TlsError};
use tokio_rustls::TlsAcceptor;
use vstd::prelude::*;

verus! {

/// A self-signed certificate is valid from the moment on at which it is issued, for 365 days. Its
/// subject is the host, of the organisation of the server. It is valid for the host, and for the
/// loopback address and its name.
pub proof fn law_what_a_certificate_says(host: Seq<char>, host_is_address: bool, now: int)
    requires
        tls::validity_fits(now),
    ensures
        ({
            let request = tls::request_for(host, host_is_address, now);
            &&& request.not_before == now
            &&& request.not_after - request.not_before == 365 * 86400
            &&& request.common_name == host
            &&& request.organization == "MingHe SIP Server"@
            &&& !host_is_address ==> request.names == seq![host, "localhost"@, "127.0.0.1"@]
            &&& host_is_address && host != "127.0.0.1"@ ==> request.names == seq![
                host,
                "127.0.0.1"@,
                "localhost"@,
            ]
            &&& host_is_address && host == "127.0.0.1"@ ==> request.names == seq![
                "127.0.0.1"@,
                "localhost"@,
            ]
        }),
{
}

/// A certificate that is issued at a time that fits has an expiry that can be recorded, and the
/// record names the end of its validity.
pub proof fn law_record_names_the_end(host: Seq<char>, host_is_address: bool, now: u64)
    requires
        tls::validity_fits(now as int),
    ensures
        tls::record_for(true, true, now) == (tls::ExpiryRecordView::Write {
            text: number::signed_decimal(
                tls::request_for(host, host_is_address, now as int).not_after as int,
            ),
        }),
{
}

/// The record of an expiry is read back as it was written.
pub proof fn law_expiry_record_is_read_back(expiry: int)
    requires
        i64::MIN <= expiry <= i64::MAX,
    ensures
        tls::recorded_expiry(Some(number::signed_decimal(expiry))) == Some(expiry),
{
    let record = number::signed_decimal(expiry);
    number::lemma_signed_round_trip(expiry);
    if expiry < 0 {
        number::lemma_decimal_value((-expiry) as nat);
        let digits = number::decimal((-expiry) as nat);
        assert(record.last() == digits[digits.len() - 1]);
    } else {
        number::lemma_decimal_value(expiry as nat);
        assert(number::is_digit(record[0]));
        assert(number::is_digit(record[record.len() - 1]));
    }
    text::lemma_trim_solid(record);
}

/// A certificate whose expiry was recorded when it was issued is due for renewal from the moment
/// on at which fewer than 30 of its 365 days are left; not before, and whatever the age of its
/// file.
pub proof fn law_renewal_in_the_last_thirty_days(issued: u64, file_age: Option<u64>, now: u64)
    requires
        tls::expiry_of(issued) <= i64::MAX,
        issued <= i64::MAX,
        now <= i64::MAX,
    ensures
        tls::expiring(Some(number::signed_decimal(tls::expiry_of(issued))), file_age, now) <==> now
            > issued + 335 * 86400,
{
    law_expiry_record_is_read_back(tls::expiry_of(issued));
}

/// What is due for renewal stays due.
pub proof fn law_due_stays_due(
    record: Option<Seq<char>>,
    file_age: Option<u64>,
    now: u64,
    later_age: Option<u64>,
    later: u64,
)
    requires
        now <= later <= i64::MAX,
        file_age is Some == later_age is Some,
        file_age matches Some(age) ==> age <= later_age->0 <= i64::MAX,
        tls::expiring(record, file_age, now),
    ensures
        tls::expiring(record, later_age, later),
{
    if let Some(age) = file_age {
        let day = tls::DAY_SECS as int;
        let later_secs = later_age->0 as int;
        assert((age as int) / day <= later_secs / day) by (nonlinear_arith)
            requires
                age as int <= later_secs,
                day == 86400,
        ;
    }
}

/// A server that signs its own certificate generates one at its start exactly when a running
/// server would renew it; one with configured paths never does.
pub proof fn law_setup_agrees_with_renewal(config: TlsConfig, stored: StoredCertificate)
    ensures
        config.self_signed() ==> ((tls::source(config, stored) == CertificateSource::Generated)
            == tls::due(stored)),
        !config.self_signed() ==> tls::source(config, stored) == CertificateSource::Configured,
{
}

/// The acceptor that is in use after a course of renewals.
pub open spec fn after_renewals(
    before: TlsAcceptor,
    course: Seq<Result<TlsAcceptor, TlsError>>,
) -> TlsAcceptor {
    course.fold_left(before, |acceptor, renewed| tls::after_renewal(acceptor, renewed))
}

/// Whatever the course of renewals, new connections use the acceptor of the last one that did not
/// fail; where all failed, the one from before.
pub proof fn law_latest_renewal_counts(
    before: TlsAcceptor,
    course: Seq<Result<TlsAcceptor, TlsError>>,
)
    ensures
        (forall|i: int| 0 <= i < course.len() ==> (#[trigger] course[i]) is Err) ==> after_renewals(
            before,
            course,
        ) == before,
        forall|last: int|
            0 <= last < course.len() && (#[trigger] course[last]) is Ok && (forall|i: int|
                last < i < course.len() ==> (#[trigger] course[i]) is Err) ==> after_renewals(
                before,
                course,
            ) == course[last]->Ok_0,
    decreases course.len(),
{
    if course.len() > 0 {
        let earlier = course.drop_last();
        law_latest_renewal_counts(before, earlier);
        assert(after_renewals(before, course) == tls::after_renewal(
            after_renewals(before, earlier),
            course.last(),
        ));
        if forall|i: int| 0 <= i < course.len() ==> (#[trigger] course[i]) is Err {
            assert forall|i: int| 0 <= i < earlier.len() implies (#[trigger] earlier[i]) is Err by {
                assert(course[i] is Err);
            }
            assert(course[course.len() - 1] is Err);
        }
        assert forall|last: int|
            0 <= last < course.len() && (#[trigger] course[last]) is Ok && (forall|i: int|
                last < i < course.len() ==> (#[trigger] course[i]) is Err) implies after_renewals(
            before,
            course,
        ) == course[last]->Ok_0 by {
            if last < course.len() - 1 {
                assert(earlier[last] == course[last]);
                assert forall|i: int| last < i < earlier.len() implies (
                #[trigger] earlier[i]) is Err by {
                    assert(course[i] is Err);
                }
                assert(course[course.len() - 1] is Err);
            }
        }
    }
}

/// A chain that could be read is taken whole: as many certificates, each as it was read, in the
/// order in which they stood. Only an empty one is refused where it is to be loaded, and the
/// message of one that could not be read is handed on.
pub proof fn law_chain_is_taken_whole(read: Result<Seq<Seq<u8>>, Seq<char>>)
    ensures
        read matches Ok(list) ==> {
            &&& tls::chain(read) matches Ok(taken)
            &&& taken.len() == list.len()
            &&& forall|i: int| 0 <= i < list.len() ==> #[trigger] taken[i] == list[i]
        },
        read matches Ok(list) ==> list.len() > 0 ==> {
            &&& tls::loaded_chain(read) matches Ok(taken)
            &&& taken.len() == list.len()
            &&& forall|i: int| 0 <= i < list.len() ==> #[trigger] taken[i] == list[i]
        },
        read matches Ok(list) ==> list.len() == 0 ==> (tls::loaded_chain(read) matches Err(error)
            && error is NoCertificate),
        read matches Err(text) ==> {
            &&& tls::chain(read) matches Err(tls::TlsErrorView::CertificatePem { message })
            &&& message == text
        },
        read matches Err(text) ==> {
            &&& tls::loaded_chain(read) matches Err(tls::TlsErrorView::CertificatePem { message })
            &&& message == text
        },
{
}

/// A key that could be read is taken as it is; without one there is an error, and the message of
/// one that could not be read is handed on.
pub proof fn law_key_is_taken_as_it_is(read: Result<Option<tls::PrivateKeyView>, Seq<char>>)
    ensures
        read matches Ok(Some(found)) ==> (tls::key(read) matches Ok(taken) && taken == found),
        read matches Ok(None) ==> (tls::key(read) matches Err(error) && error is NoKey),
        read matches Err(text) ==> {
            &&& tls::key(read) matches Err(tls::TlsErrorView::KeyPem { message })
            &&& message == text
        },
{
}

/// What comes of generating a self-signed certificate. It says whose it is, for which names, and
/// from the second on in which it is issued for 365 days; it comes with its key, and both can be
/// read. It is refused outside the years 0 to 9999, and for a host that is not ASCII, each with an
/// error of its own; otherwise only key pair and signature can fail.
pub proof fn law_outcome_of_self_signing(
    host: Seq<char>,
    host_is_address: bool,
    now: int,
    pem: Result<(Vec<u8>, Vec<u8>), TlsError>,
)
    requires
        tls::self_signed_outcome(host, host_is_address, now, pem),
    ensures
        ({
            let fits = -62167219200 <= now && now + 365 * 86400 <= 253402300799;
            let ascii = forall|i: int| 0 <= i < host.len() ==> 0 <= #[trigger] host[i] as int <= 127;
            &&& pem is Ok ==> fits && ascii
            &&& !fits ==> (pem matches Err(error) && error is Clock)
            &&& fits && !ascii ==> (pem matches Err(error) && error is HostName)
            &&& fits && ascii ==> (pem matches Err(error) ==> error is KeyPair || error is Signing)
            &&& pem matches Ok(pair) ==> {
                &&& pair.0@.len() <= 268435456 ==> (tls::pem_certificates(
                    pair.0@,
                ) matches Ok(list) && list.len() == 1)
                &&& tls::pem_private_key(pair.1@) matches Ok(Some(key)) && key is Pkcs8
                &&& exists|request: tls::CertificateRequestView|
                    {
                        &&& #[trigger] tls::certifies(pair.0@, pair.1@, request)
                        &&& request.common_name == host
                        &&& request.organization == "MingHe SIP Server"@
                        &&& request.not_before == now
                        &&& request.not_after == now + 365 * 86400
                        &&& request.names == (if !host_is_address {
                            seq![host, "localhost"@, "127.0.0.1"@]
                        } else if host == "127.0.0.1"@ {
                            seq!["127.0.0.1"@, "localhost"@]
                        } else {
                            seq![host, "127.0.0.1"@, "localhost"@]
                        })
                    }
            }
        }),
{
    let ascii = forall|i: int| 0 <= i < host.len() ==> 0 <= #[trigger] host[i] as int <= 127;
    assert(ascii == vstd::utf8::is_ascii_chars(host)) by {
        if ascii {
            assert forall|i: int| 0 <= i < host.len() implies '\0' <= #[trigger] host[i]
                <= '\u{7f}' by {
                assert(0 <= host[i] as int <= 127);
            }
        }
        if vstd::utf8::is_ascii_chars(host) {
            assert forall|i: int| 0 <= i < host.len() implies 0 <= #[trigger] host[i] as int
                <= 127 by {
                assert('\0' <= host[i] <= '\u{7f}');
            }
        }
    }
    if pem is Ok {
        law_what_a_certificate_says(host, host_is_address, now);
        assert(tls::certifies(
            pem->Ok_0.0@,
            pem->Ok_0.1@,
            tls::request_for(host, host_is_address, now),
        ));
    }
}

/// A certificate can be issued in a second exactly where both ends of its 365 days lie in the
/// years 0 to 9999.
pub proof fn law_when_a_certificate_can_be_issued(now: int)
    ensures
        tls::validity_fits(now) <==> -62167219200 <= now && now + 365 * 86400 <= 253402300799,
{
}

/// The expiry that is recorded of a new certificate: 365 days after the clock, where certificate
/// and key could both be saved. A clock beyond the range of an `i64` counts as one before the
/// epoch.
pub proof fn law_what_is_recorded(cert_saved: bool, key_saved: bool, now: u64)
    ensures
        ({
            let clock = if now <= i64::MAX {
                now as int
            } else {
                now as int - 18446744073709551616
            };
            let record = tls::record_for(cert_saved, key_saved, now);
            &&& !cert_saved || !key_saved ==> record is Skip
            &&& cert_saved && key_saved && clock + 365 * 86400 > i64::MAX ==> record is OutOfRange
            &&& cert_saved && key_saved && clock + 365 * 86400 <= i64::MAX ==> {
                &&& record matches tls::ExpiryRecordView::Write { text: written }
                &&& written == number::signed_decimal(clock + 365 * 86400)
            }
        }),
{
}

/// Whether a certificate expires soon. A record that can be read as a number counts, whatever the
/// age of the file: soon is less than 30 days before it. Without one the age of the file counts:
/// soon is from 336 whole days on. Where neither is known, it is not soon.
pub proof fn law_when_a_certificate_expires_soon(
    record: Option<Seq<char>>,
    file_age: Option<u64>,
    now: u64,
)
    ensures
        ({
            let clock = if now <= i64::MAX {
                now as int
            } else {
                now as int - 18446744073709551616
            };
            let read = match record {
                Some(written) => number::parse_signed(text::trim(written)),
                None => None,
            };
            let answer = tls::expiring_answer(record, file_age, now);
            &&& read matches Some(expiry) ==> {
                &&& answer is Some <==> i64::MIN <= expiry - clock <= i64::MAX
                &&& answer matches Some(soon) ==> (soon <==> expiry - clock < 30 * 86400)
            }
            &&& read is None ==> (file_age matches Some(age) ==> (answer matches Some(soon) && (soon
                <==> 336 * 86400 <= age <= i64::MAX)))
            &&& read is None && file_age is None ==> answer == Some(false)
        }),
{
    if let Some(age) = file_age {
        let days = (age as int) / 86400;
        assert(days * 86400 <= age < days * 86400 + 86400) by (nonlinear_arith)
            requires
                days == (age as int) / 86400,
        ;
    }
}

/// The certificate comes from the configured paths where both are given. Else it is the one of an
/// earlier run where that can be read and does not expire soon, and is generated otherwise. A
/// stored one is due where it cannot be read or expires soon.
pub proof fn law_where_the_certificate_comes_from(config: TlsConfig, stored: StoredCertificate)
    ensures
        ({
            let configured = config.cert_path@.len() > 0 && config.key_path@.len() > 0;
            let good = stored == StoredCertificate::Readable { expiring: false };
            &&& config.self_signed() == !configured
            &&& tls::due(stored) == !good
            &&& configured ==> tls::source(config, stored) == CertificateSource::Configured
            &&& !configured && good ==> tls::source(config, stored) == CertificateSource::Stored
            &&& !configured && !good ==> tls::source(config, stored) == CertificateSource::Generated
        }),
{
}

/// After a renewal the new acceptor is in use; after one that has failed, the old one.
pub proof fn law_renewal_replaces_the_acceptor(
    before: TlsAcceptor,
    renewed: Result<TlsAcceptor, TlsError>,
)
    ensures
        renewed matches Ok(acceptor) ==> tls::after_renewal(before, renewed) == acceptor,
        renewed is Err ==> tls::after_renewal(before, renewed) == before,
{
}

} // verus!
