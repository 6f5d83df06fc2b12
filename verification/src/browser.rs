//! SQL Server Browser (SSRP) messages: the instance query sent to UDP port
//! 1434 and the port found in the server's answer.
use vstd::prelude::*;
use vstd::utf8::{decode_utf8, encode_utf8_decode_utf8, valid_utf8};
use vstd::string::StringSliceAdditionalSpecFns;
use vstd::slice::slice_subrange;
use crate::error::{owned, Error};
use crate::text::{
    chars_of, eq_ignore_ascii_case, eq_ignore_ascii_case_spec, eq_ignore_ascii_case_str, nat_decimal, parse_uint,
    parse_uint_spec, push_chars, push_decimal_u64, push_str_chars, split_chars, split_spec,
    string_of, views_of,
};

verus! {

/// UDP port of the SQL Server Browser service.
pub const BROWSER_PORT: u16 = 1434;

/// Type byte of a CLNT_UCAST_INST query.
pub const CLNT_UCAST_INST: u8 = 0x04;

/// Type byte of an SVR_RESP answer.
pub const SVR_RESP: u8 = 0x05;

/// The query for one instance: the type byte, the instance name's bytes and
/// a zero byte.
pub open spec fn browser_request_spec(instance: &str) -> Seq<u8> {
    seq![CLNT_UCAST_INST] + instance.spec_bytes() + seq![0u8]
}

/// The CLNT_UCAST_INST query for a named instance.
pub fn build_browser_request(instance: &str) -> (r: Vec<u8>)
    ensures
        r@ == browser_request_spec(instance),
{
    let bytes = instance.as_bytes();
    let mut request: Vec<u8> = Vec::new();
    request.push(CLNT_UCAST_INST);
    let mut i: usize = 0;
    while i < bytes.len()
        invariant
            i <= bytes@.len(),
            request@ == seq![CLNT_UCAST_INST] + bytes@.take(i as int),
        decreases bytes@.len() - i,
    {
        request.push(bytes[i]);
        assert(bytes@.take(i + 1) =~= bytes@.take(i as int).push(bytes@[i as int]));
        i = i + 1;
    }
    request.push(0);
    assert(bytes@.take(bytes@.len() as int) =~= bytes@);
    assert(request@ =~= browser_request_spec(instance));
    request
}

/// The address the query goes to: the host (`.` meaning 127.0.0.1) and
/// port 1434.
pub fn browser_target(host: &str) -> (r: String)
    ensures
        r@ == (if host@ == "."@ {
            "127.0.0.1"@
        } else {
            host@
        }) + ":1434"@,
{
    let h = chars_of(host);
    let mut out = if crate::text::eq_str(h.as_slice(), ".") {
        chars_of("127.0.0.1")
    } else {
        h
    };
    push_str_chars(&mut out, ":1434");
    string_of(out.as_slice())
}

/// What the error of `std::str::from_utf8` says for bytes that are not
/// UTF-8.
pub uninterp spec fn utf8_error_text(bytes: Seq<u8>) -> Seq<char>;

/// `std::str::from_utf8`: the bytes as a string when they are valid UTF-8,
/// else the error's message.
#[verifier::external_body]
fn str_from_utf8(v: &[u8]) -> (r: Result<&str, String>)
    ensures
        r is Ok <==> valid_utf8(v@),
        r matches Ok(s) ==> s.spec_bytes() == v@,
        r matches Err(m) ==> m@ == utf8_error_text(v@),
{
    match std::str::from_utf8(v) {
        Ok(s) => Ok(s),
        Err(e) => Err(e.to_string()),
    }
}

/// A lower-case hexadecimal digit.
pub open spec fn hex_digit(d: nat) -> char {
    if d < 10 {
        ((d + 48) as u32) as char
    } else {
        ((d + 87) as u32) as char
    }
}

/// A byte as `{:#04x}` writes it: `0x` and two lower-case hex digits.
pub open spec fn hex_byte(b: u8) -> Seq<char> {
    seq!['0', 'x', hex_digit((b / 16) as nat), hex_digit((b % 16) as nat)]
}

/// The first `i` such that part `i` is `tcp` (in any ASCII case) and a part
/// follows it.
pub open spec fn first_tcp_index(parts: Seq<Seq<char>>, i: int) -> Option<int>
    decreases parts.len() - i,
{
    if i < 0 || i + 1 >= parts.len() {
        None
    } else if eq_ignore_ascii_case_spec(parts[i], "tcp"@) {
        Some(i)
    } else {
        first_tcp_index(parts, i + 1)
    }
}

/// The port in the text of an answer: the part after the first `tcp` part,
/// when it is a valid port number.
pub open spec fn tcp_port_spec(text: Seq<char>) -> Option<u16> {
    let parts = split_spec(text, ';');
    match first_tcp_index(parts, 0) {
        Some(i) => match parse_uint_spec(parts[i + 1], 65535) {
            Some(n) => Some(n as u16),
            None => None,
        },
        None => None,
    }
}

/// The first `i` such that part `i` is `InstanceName` (in any ASCII case)
/// and a part follows it.
pub open spec fn first_instance_index(parts: Seq<Seq<char>>, i: int) -> Option<int>
    decreases parts.len() - i,
{
    if i < 0 || i + 1 >= parts.len() {
        None
    } else if eq_ignore_ascii_case_spec(parts[i], "InstanceName"@) {
        Some(i)
    } else {
        first_instance_index(parts, i + 1)
    }
}

/// Whether the answer's text names `instance` (ignoring ASCII case) as the
/// value of its first `InstanceName` part.
pub open spec fn answer_names_instance(text: Seq<char>, instance: Seq<char>) -> bool {
    let parts = split_spec(text, ';');
    match first_instance_index(parts, 0) {
        Some(i) => eq_ignore_ascii_case_spec(parts[i + 1], instance),
        None => false,
    }
}

/// The port an SVR_RESP answer gives for `instance`, or why it gives none.
/// An answer about another instance (or about none) is an error.
pub open spec fn browser_response_spec(data: Seq<u8>, instance: Seq<char>) -> Result<u16, Seq<char>> {
    if data.len() < 3 {
        Err("response too short"@)
    } else if data[0] != SVR_RESP {
        Err("unexpected response type: "@ + hex_byte(data[0]) + " (expected 0x05)"@)
    } else {
        let size = data[1] + 256 * data[2];
        if data.len() < 3 + size {
            Err(
                "response truncated: header says "@ + nat_decimal(size as nat) + " bytes but only "@
                    + nat_decimal((data.len() - 3) as nat) + " available"@,
            )
        } else {
            let body = data.subrange(3, 3 + size);
            if !valid_utf8(body) {
                Err("response is not valid UTF-8: "@ + utf8_error_text(body))
            } else {
                let text = decode_utf8(body);
                if !answer_names_instance(text, instance) {
                    Err("instance not found in Browser response. Response: "@ + text)
                } else {
                    match tcp_port_spec(text) {
                    Some(p) => Ok(p),
                    None => Err(
                        "no TCP port found in Browser response. The instance may only support Named Pipes. Response: "@
                            + text,
                    ),
                    }
                }
            }
        }
    }
}

fn hex_char(d: u8) -> (c: char)
    requires
        d < 16,
    ensures
        c == hex_digit(d as nat),
{
    if d < 10 {
        (d + 48) as char
    } else {
        (d + 87) as char
    }
}

/// Finds the port after the first `tcp` part.
fn find_tcp_port(parts: &Vec<Vec<char>>) -> (r: Option<u16>)
    ensures
        r == (match first_tcp_index(views_of(parts@), 0) {
            Some(i) => match parse_uint_spec(views_of(parts@)[i + 1], 65535) {
                Some(n) => Some(n as u16),
                None => None,
            },
            None => None,
        }),
{
    let ghost ps = views_of(parts@);
    let mut i: usize = 0;
    let n = parts.len();
    while i < n && i + 1 < n
        invariant
            i <= parts@.len(),
            n == parts@.len(),
            ps == views_of(parts@),
            first_tcp_index(ps, 0) == first_tcp_index(ps, i as int),
        decreases parts@.len() - i,
    {
        if eq_ignore_ascii_case_str(parts[i].as_slice(), "tcp") {
            return match parse_uint(parts[i + 1].as_slice(), 65535) {
                Some(n) => Some(n as u16),
                None => None,
            };
        }
        i = i + 1;
    }
    None
}

/// Whether the first `InstanceName` part is followed by `instance`
/// (ignoring ASCII case).
fn names_instance(parts: &Vec<Vec<char>>, instance: &[char]) -> (r: bool)
    ensures
        r == (match first_instance_index(views_of(parts@), 0) {
            Some(i) => eq_ignore_ascii_case_spec(views_of(parts@)[i + 1], instance@),
            None => false,
        }),
{
    let ghost ps = views_of(parts@);
    let mut i: usize = 0;
    let n = parts.len();
    while i < n && i + 1 < n
        invariant
            i <= parts@.len(),
            n == parts@.len(),
            ps == views_of(parts@),
            first_instance_index(ps, 0) == first_instance_index(ps, i as int),
        decreases parts@.len() - i,
    {
        if eq_ignore_ascii_case_str(parts[i].as_slice(), "InstanceName") {
            return eq_ignore_ascii_case(parts[i + 1].as_slice(), instance);
        }
        i = i + 1;
    }
    false
}

/// The TCP port of an instance from the Browser's SVR_RESP answer.  Errors
/// name the instance and say what is wrong with the answer.
pub fn parse_browser_response(data: &[u8], instance: &str) -> (r: Result<u16, Error>)
    ensures
        match browser_response_spec(data@, instance@) {
            Ok(p) => r == Ok::<u16, Error>(p),
            Err(reason) => r matches Err(Error::BrowserResolution { instance: inst, reason: why })
                && inst@ == instance@ && why@ == reason,
        },
{
    if data.len() < 3 {
        return Err(Error::BrowserResolution {
            instance: owned(instance),
            reason: owned("response too short"),
        });
    }
    if data[0] != SVR_RESP {
        let mut msg = chars_of("unexpected response type: 0x");
        msg.push(hex_char(data[0] / 16));
        msg.push(hex_char(data[0] % 16));
        push_str_chars(&mut msg, " (expected 0x05)");
        proof {
            reveal_strlit("unexpected response type: 0x");
            reveal_strlit("unexpected response type: ");
            assert("unexpected response type: 0x"@ =~= "unexpected response type: "@ + seq![
                '0',
                'x',
            ]);
            assert(msg@ =~= "unexpected response type: "@ + hex_byte(data@[0])
                + " (expected 0x05)"@);
        }
        return Err(Error::BrowserResolution {
            instance: owned(instance),
            reason: string_of(msg.as_slice()),
        });
    }
    let size: usize = data[1] as usize + 256 * (data[2] as usize);
    if data.len() < 3 + size {
        let mut msg = chars_of("response truncated: header says ");
        push_decimal_u64(&mut msg, size as u64);
        push_str_chars(&mut msg, " bytes but only ");
        push_decimal_u64(&mut msg, (data.len() - 3) as u64);
        push_str_chars(&mut msg, " available");
        return Err(Error::BrowserResolution {
            instance: owned(instance),
            reason: string_of(msg.as_slice()),
        });
    }
    let body = slice_subrange(data, 3, 3 + size);
    match str_from_utf8(body) {
        Err(m) => {
            let mut msg = chars_of("response is not valid UTF-8: ");
            push_str_chars(&mut msg, m.as_str());
            Err(Error::BrowserResolution {
                instance: owned(instance),
                reason: string_of(msg.as_slice()),
            })
        },
        Ok(text) => {
            proof {
                encode_utf8_decode_utf8(text@);
                assert(text@ == decode_utf8(body@));
            }
            let chars = chars_of(text);
            let parts = split_chars(chars.as_slice(), ';');
            let wanted = chars_of(instance);
            if !names_instance(&parts, wanted.as_slice()) {
                let mut msg = chars_of("instance not found in Browser response. Response: ");
                push_chars(&mut msg, chars.as_slice());
                return Err(Error::BrowserResolution {
                    instance: owned(instance),
                    reason: string_of(msg.as_slice()),
                });
            }
            match find_tcp_port(&parts) {
                Some(port) => Ok(port),
                None => {
                    let mut msg = chars_of(
                        "no TCP port found in Browser response. The instance may only support Named Pipes. Response: ",
                    );
                    push_chars(&mut msg, chars.as_slice());
                    Err(Error::BrowserResolution {
                        instance: owned(instance),
                        reason: string_of(msg.as_slice()),
                    })
                },
            }
        },
    }
}

} // verus!
