//! The connection test of the configuration screen: which address is tried,
//! and the report that is shown for the outcome.
use vstd::prelude::*;

use crate::json::{JsonData, JsonMap, JsonNumber, JsonValue};
use crate::text::decimal;
use crate::text::decimal_string;
use crate::weburl::{is_camera_path, is_web_scheme, parse_url, parsed_url, WebUrl};

verus! {

/// The host and port that a connection test tries.
#[derive(Debug)]
pub struct ConnectionTarget {
    pub host: String,
    pub port: u16,
    /// The address looks like a Protect live view (its path contains `/protect/`).
    pub looks_like_liveview: bool,
}

/// The message for an address that does not parse.
pub open spec fn invalid_url_message() -> Seq<char> {
    "Enter a valid http:// or https:// URL"@
}

/// The message for an address whose scheme is not http(s).
pub open spec fn unsupported_scheme_message() -> Seq<char> {
    "Only http:// and https:// addresses are supported"@
}

/// The message for an address without a host.
pub open spec fn missing_host_message() -> Seq<char> {
    "The URL does not contain a host"@
}

/// The message for an address without a port.
pub open spec fn missing_port_message() -> Seq<char> {
    "The URL does not contain a usable port"@
}

/// The outcome of checking the address `target` before any network access:
/// the error message, or the host, port and live-view flag.
pub open spec fn connection_target_of(target: Seq<char>) -> Result<
    (Seq<char>, u16, bool),
    Seq<char>,
> {
    match parsed_url(target) {
        Err(_) => Err(invalid_url_message()),
        Ok(u) => if !is_web_scheme(u.scheme) {
            Err(unsupported_scheme_message())
        } else {
            match u.host {
                None => Err(missing_host_message()),
                Some(h) => match u.port {
                    None => Err(missing_port_message()),
                    Some(p) => Ok((h, p, is_camera_path(u.path))),
                },
            }
        },
    }
}

/// Checks the address of a connection test and picks the host and port to try.
pub fn connection_target(target: &str) -> (r: Result<ConnectionTarget, String>)
    ensures
        match connection_target_of(target@) {
            Ok((h, p, live)) => r matches Ok(t) && t.host@ == h && t.port == p
                && t.looks_like_liveview == live,
            Err(m) => r matches Err(e) && e@ == m,
        },
{
    let parsed = match parse_url(target) {
        Ok(u) => u,
        Err(_) => return Err("Enter a valid http:// or https:// URL".to_owned()),
    };
    if !(crate::text::text_eq(parsed.scheme.as_str(), "http") || crate::text::text_eq(
        parsed.scheme.as_str(),
        "https",
    )) {
        return Err("Only http:// and https:// addresses are supported".to_owned());
    }
    let live = crate::weburl::is_camera_page(&parsed);
    let WebUrl { host, port, .. } = parsed;
    let host = match host {
        Some(h) => h,
        None => return Err("The URL does not contain a host".to_owned()),
    };
    let port = match port {
        Some(p) => p,
        None => return Err("The URL does not contain a usable port".to_owned()),
    };
    Ok(ConnectionTarget { host, port, looks_like_liveview: live })
}

/// The message shown after a connection test.
pub open spec fn connection_message(
    host: Seq<char>,
    port: u16,
    live: bool,
    reachable: bool,
    elapsed_ms: u64,
) -> Seq<char> {
    if reachable {
        if live {
            "Network connection successful. Reached "@ + host + ":"@ + decimal(port as nat) + " in "@
                + decimal(elapsed_ms as nat)
                + " ms. Save and launch to verify the account and live view."@
        } else {
            "Reached "@ + host + ":"@ + decimal(port as nat) + " in "@ + decimal(elapsed_ms as nat)
                + " ms, but this does not look like a Protect live-view URL. Open the desired live view in Protect and copy its complete address."@
        }
    } else {
        "Could not reach "@ + host + ":"@ + decimal(port as nat)
            + ". Confirm this PC is on the camera network, the address is correct, and the UniFi console is powered on."@
    }
}

fn connection_message_text(t: &ConnectionTarget, reachable: bool, elapsed_ms: u64) -> (r: String)
    ensures
        r@ == connection_message(t.host@, t.port, t.looks_like_liveview, reachable, elapsed_ms),
{
    let port = decimal_string(t.port as u64);
    let ms = decimal_string(elapsed_ms);
    let mut m = String::new();
    if reachable {
        if t.looks_like_liveview {
            m.append("Network connection successful. Reached ");
        } else {
            m.append("Reached ");
        }
        m.append(t.host.as_str());
        m.append(":");
        m.append(port.as_str());
        m.append(" in ");
        m.append(ms.as_str());
        if t.looks_like_liveview {
            m.append(" ms. Save and launch to verify the account and live view.");
        } else {
            m.append(
                " ms, but this does not look like a Protect live-view URL. Open the desired live view in Protect and copy its complete address.",
            );
        }
    } else {
        m.append("Could not reach ");
        m.append(t.host.as_str());
        m.append(":");
        m.append(port.as_str());
        m.append(
            ". Confirm this PC is on the camera network, the address is correct, and the UniFi console is powered on.",
        );
    }
    m
}

/// The report of a connection test, as an object.
pub open spec fn connection_report_of(
    host: Seq<char>,
    port: u16,
    live: bool,
    reachable: bool,
    elapsed_ms: u64,
) -> Map<Seq<char>, JsonData> {
    Map::empty().insert("ok"@, JsonData::Bool(reachable)).insert(
        "host"@,
        JsonData::Str(host),
    ).insert("port"@, JsonData::Number(JsonNumber::PosInt(port as u64))).insert(
        "elapsedMs"@,
        JsonData::Number(JsonNumber::PosInt(elapsed_ms)),
    ).insert("looksLikeLiveview"@, JsonData::Bool(live)).insert(
        "message"@,
        JsonData::Str(connection_message(host, port, live, reachable, elapsed_ms)),
    )
}

/// The report of a connection test to `target`: whether a connection was
/// made, to which host and port, in how many milliseconds, and the message.
pub fn connection_report(t: &ConnectionTarget, reachable: bool, elapsed_ms: u64) -> (r: JsonValue)
    ensures
        r@ == JsonData::Object(
            connection_report_of(t.host@, t.port, t.looks_like_liveview, reachable, elapsed_ms),
        ),
{
    let message = connection_message_text(t, reachable, elapsed_ms);
    let mut m = JsonMap::new();
    m.insert("ok".to_owned(), JsonValue::Bool(reachable));
    m.insert("host".to_owned(), JsonValue::String(t.host.clone()));
    m.insert("port".to_owned(), JsonValue::Number(JsonNumber::PosInt(t.port as u64)));
    m.insert("elapsedMs".to_owned(), JsonValue::Number(JsonNumber::PosInt(elapsed_ms)));
    m.insert("looksLikeLiveview".to_owned(), JsonValue::Bool(t.looks_like_liveview));
    m.insert("message".to_owned(), JsonValue::String(message));
    JsonValue::Object(m)
}

/// The message when the host of a connection test cannot be resolved.
pub fn unresolved_host_message(host: &str) -> (r: String)
    ensures
        r@ == "Could not resolve "@ + host@,
{
    crate::text::concat("Could not resolve ", host)
}

} // verus!
