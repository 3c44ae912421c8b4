//! The URLs of the remote API.

use crate::config::ApiConfig;
use vstd::prelude::*;
use vstd::string::*;

verus! {

/// The character of a decimal digit.
pub open spec fn digit_char(d: nat) -> char {
    (48 + d) as char
}

/// The decimal text of a number, without leading zeros.
pub open spec fn decimal(n: nat) -> Seq<char>
    decreases n,
{
    if n < 10 {
        seq![digit_char(n)]
    } else {
        decimal(n / 10).push(digit_char(n % 10))
    }
}

/// `{proto}://{host}:{port}/api/v1/location/{location_id}`
pub open spec fn location_url(
    proto: Seq<char>,
    host: Seq<char>,
    port: u16,
    location_id: Seq<char>,
) -> Seq<char> {
    proto + "://"@ + host + ":"@ + decimal(port as nat) + "/api/v1/location/"@ + location_id
}

/// `{proto}://{host}:{port}/api/v1/location/{location_id}/room/{room_id}/machines`
pub open spec fn machines_url(
    proto: Seq<char>,
    host: Seq<char>,
    port: u16,
    location_id: Seq<char>,
    room_id: Seq<char>,
) -> Seq<char> {
    location_url(proto, host, port, location_id) + "/room/"@ + room_id + "/machines"@
}

/// The text of one decimal digit.
fn digit_text(d: u16) -> (text: &'static str)
    requires
        d < 10,
    ensures
        text@ == seq![digit_char(d as nat)],
{
    proof {
        reveal_strlit("0");
        reveal_strlit("1");
        reveal_strlit("2");
        reveal_strlit("3");
        reveal_strlit("4");
        reveal_strlit("5");
        reveal_strlit("6");
        reveal_strlit("7");
        reveal_strlit("8");
        reveal_strlit("9");
    }
    let text = if d == 0 {
        "0"
    } else if d == 1 {
        "1"
    } else if d == 2 {
        "2"
    } else if d == 3 {
        "3"
    } else if d == 4 {
        "4"
    } else if d == 5 {
        "5"
    } else if d == 6 {
        "6"
    } else if d == 7 {
        "7"
    } else if d == 8 {
        "8"
    } else {
        "9"
    };
    assert(text@ =~= seq![digit_char(d as nat)]);
    text
}

/// Appends the decimal text of `n` to `out`.
pub fn push_decimal(out: &mut String, n: u16)
    ensures
        final(out)@ == old(out)@ + decimal(n as nat),
    decreases n,
{
    if n >= 10 {
        push_decimal(out, n / 10);
        out.append(digit_text(n % 10));
        assert(out@ =~= old(out)@ + decimal(n as nat));
    } else {
        out.append(digit_text(n));
    }
}

/// The URL of the metadata of one location.
pub fn location(api_config: &ApiConfig, location_id: &str) -> (url: String)
    ensures
        url@ == location_url(api_config.proto@, api_config.host@, api_config.port, location_id@),
{
    let mut url = api_config.proto.clone();
    url.append("://");
    url.append(api_config.host.as_str());
    url.append(":");
    push_decimal(&mut url, api_config.port);
    url.append("/api/v1/location/");
    url.append(location_id);
    url
}

/// The URL of the machine list of one room.
pub fn machines(api_config: &ApiConfig, location_id: &str, room_id: &str) -> (url: String)
    ensures
        url@ == machines_url(
            api_config.proto@,
            api_config.host@,
            api_config.port,
            location_id@,
            room_id@,
        ),
{
    let mut url = location(api_config, location_id);
    url.append("/room/");
    url.append(room_id);
    url.append("/machines");
    url
}

} // verus!
