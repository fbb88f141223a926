//! Agent hostnames: the serial number in base64, the name and the domain, with dots between.
use crate::cert::serial::SerialNumber;
use crate::encoding::base64::{base64_has_no_dot, base64_text};
use vstd::prelude::*;
use vstd::string::StringExecFns;

verus! {

/// Whether a character may stand in a hostname component: a letter or a digit of ASCII, or
/// a hyphen.
pub open spec fn is_hostname_char(c: char) -> bool {
    'A' <= c <= 'Z' || 'a' <= c <= 'z' || '0' <= c <= '9' || c == '-'
}

/// A text with a hyphen in place of each character that may not stand in a hostname.
pub open spec fn sanitized(text: Seq<char>) -> Seq<char> {
    Seq::new(
        text.len(),
        |i: int|
            if is_hostname_char(text[i]) {
                text[i]
            } else {
                '-'
            },
    )
}

/// The hostname of an agent.
pub open spec fn hostname_text(serial: Seq<u8>, name: Seq<char>, domain: Seq<char>) -> Seq<char> {
    base64_text(serial) + "."@ + sanitized(name) + "."@ + sanitized(domain)
}

/// Replaces each character other than a letter or a digit of ASCII or a hyphen with a
/// hyphen.
pub fn sanitize_hostname_component(s: &str) -> (r: String)
    ensures
        r@ == sanitized(s@),
{
    let mut result: String = String::new();
    for c in it: s.chars()
        invariant
            it.seq() == s@,
            result@ == sanitized(s@.take(it.index() as int)),
    {
        let allowed: bool = (c >= 'A' && c <= 'Z') || (c >= 'a' && c <= 'z') || (c >= '0' && c
            <= '9') || c == '-';
        if allowed {
            result.push(c);
        } else {
            result.push('-');
        }
        proof {
            assert(result@ =~= sanitized(s@.take(it.index() + 1)));
        }
    }
    proof {
        assert(s@.take(s@.len() as int) =~= s@);
    }
    result
}

/// The hostname of an agent. The whole domain is one component: its dots become hyphens.
pub fn compute_hostname(serial: &SerialNumber, instance_name: &str, domain: &str) -> (r: String)
    ensures
        r@ == hostname_text(serial@, instance_name@, domain@),
{
    let name = sanitize_hostname_component(instance_name);
    let encoded_domain = sanitize_hostname_component(domain);
    serial.to_base64().concat(".").concat(name.as_str()).concat(".").concat(encoded_domain.as_str())
}

// ---- Laws ----

/// A sanitized text holds only characters that may stand in a hostname, and sanitizing it
/// again changes nothing.
pub proof fn sanitized_is_clean(text: Seq<char>)
    ensures
        forall|i: int|
            0 <= i < sanitized(text).len() ==> is_hostname_char(#[trigger] sanitized(text)[i]),
        sanitized(sanitized(text)) == sanitized(text),
{
    assert(sanitized(sanitized(text)) =~= sanitized(text));
}

/// A hostname has three labels: the serial number in 28 characters of base64, the name and
/// the domain. There are no other dots.
pub proof fn hostname_has_three_labels(serial: Seq<u8>, name: Seq<char>, domain: Seq<char>)
    requires
        serial.len() == 20,
    ensures
        ({
            let host = hostname_text(serial, name, domain);
            &&& host.take(28) == base64_text(serial)
            &&& host.subrange(29, 29 + name.len() as int) == sanitized(name)
            &&& host.skip(30 + name.len() as int) == sanitized(domain)
            &&& forall|i: int|
                0 <= i < host.len() ==> ((#[trigger] host[i] == '.') <==> (i == 28 || i == 29
                    + name.len()))
        }),
{
    reveal_strlit(".");
    let host = hostname_text(serial, name, domain);
    let label = base64_text(serial);
    assert(label.len() == 28);
    assert(host.take(28) =~= label);
    assert(host.subrange(29, 29 + name.len() as int) =~= sanitized(name));
    assert(host.skip(30 + name.len() as int) =~= sanitized(domain));
    assert forall|i: int| 0 <= i < host.len() implies ((#[trigger] host[i] == '.') <==> (i == 28
        || i == 29 + name.len())) by {
        if i < 28 {
            base64_has_no_dot(serial, i);
            assert(host[i] == label[i]);
        } else if 29 <= i < 29 + name.len() {
            assert(host[i] == sanitized(name)[i - 29]);
        } else if i > 29 + name.len() {
            assert(host[i] == sanitized(domain)[i - 30 - name.len()]);
        }
    }
}

} // verus!
