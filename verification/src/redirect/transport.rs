//! How transport and network failures surface to the caller.

use vstd::prelude::*;

use crate::error::AgyError;
use crate::text::{decimal, push_decimal, push_zero_padded, string_from_chars, zero_padded};

verus! {

/// Why a source could not be reached safely.
#[derive(Clone, Copy, Debug, PartialEq, Eq, Structural)]
pub enum SourceNetworkError {
    Deadline,
    InvalidUrl,
    UnsafeAddress,
    Dns,
}

/// A network failure as the caller sees it: a missed deadline stays a timeout, anything else
/// makes the output invalid.
pub fn map_network_error(error: SourceNetworkError) -> (r: AgyError)
    ensures
        r == (if error == SourceNetworkError::Deadline { AgyError::Timeout } else { AgyError::OutputInvalid }),
{
    match error {
        SourceNetworkError::Deadline => AgyError::Timeout,
        SourceNetworkError::InvalidUrl | SourceNetworkError::UnsafeAddress | SourceNetworkError::Dns => AgyError::OutputInvalid,
    }
}

/// A transport failure as the caller sees it: timeouts and an unavailable executable are kept,
/// anything else makes the output invalid.
pub fn map_transport_error(error: &AgyError) -> (r: AgyError)
    ensures
        r == (match *error {
            AgyError::Timeout => AgyError::Timeout,
            AgyError::Unavailable => AgyError::Unavailable,
            _ => AgyError::OutputInvalid,
        }),
{
    match error {
        AgyError::Timeout => AgyError::Timeout,
        AgyError::Unavailable => AgyError::Unavailable,
        AgyError::InvalidCommand | AgyError::ProcessFailed | AgyError::OutputInvalid
        | AgyError::UnknownModel | AgyError::OutputWrite => AgyError::OutputInvalid,
    }
}

} // verus!

verus! {

/// The largest body a bounded GET probe may fetch.
pub const MAX_PROBE_BODY_BYTES: u64 = 2097152;

/// How a hop is probed.
#[derive(Clone, Copy, Debug, PartialEq, Eq, Structural)]
pub enum ProbeMethod {
    Head,
    BoundedGet,
}

/// A duration in milliseconds as seconds with three decimals.
pub open spec fn seconds_text(millis: nat) -> Seq<char> {
    decimal(millis / 1000) + "."@ + zero_padded(millis % 1000, 3)
}

/// The whole-request time limit: at least one millisecond.
pub open spec fn max_time_millis(millis: nat) -> nat {
    if millis < 1 { 1 } else { millis }
}

/// The connect time limit: between one millisecond and two seconds.
pub open spec fn connect_millis(millis: nat) -> nat {
    if millis < 1 { 1 } else if millis > 2000 { 2000 } else { millis }
}

/// The arguments that pick the probe method.
pub open spec fn method_args(method: ProbeMethod) -> Seq<Seq<char>> {
    match method {
        ProbeMethod::Head => seq!["--head"@],
        ProbeMethod::BoundedGet => seq!["--range"@, "0-0"@, "--max-filesize"@, decimal(MAX_PROBE_BODY_BYTES as nat)],
    }
}

/// The address curl pins the host to: an IPv6 address in brackets.
pub open spec fn pinned_address(address: Seq<char>, ipv6: bool) -> Seq<char> {
    if ipv6 { "["@ + address + "]"@ } else { address }
}

/// The curl command line that probes one hop: no proxy, cookie, netrc, HSTS or alt-svc state,
/// HTTPS only, no redirect followed, the host pinned to the checked address, headers to
/// standard output and a metadata line with the status and redirect count at the end.
pub open spec fn curl_args(
    program: Seq<char>,
    host: Seq<char>,
    address: Seq<char>,
    ipv6: bool,
    url: Seq<char>,
    timeout_millis: nat,
    method: ProbeMethod,
) -> Seq<Seq<char>> {
    seq![program, "--disable"@, "--noproxy"@, "*"@, "--proxy"@, ""@, "--cookie"@, ""@, "--netrc-file"@, "/dev/null"@, "--hsts"@, ""@, "--alt-svc"@, ""@, "--silent"@, "--show-error"@, "--proto"@, "=https"@, "--proto-redir"@, "=https"@, "--tlsv1.2"@, "--max-redirs"@, "0"@]
        + seq![
            "--connect-timeout"@,
            seconds_text(connect_millis(timeout_millis)),
            "--max-time"@,
            seconds_text(max_time_millis(timeout_millis)),
            "--resolve"@,
            host + ":443:"@ + pinned_address(address, ipv6),
        ]
        + method_args(method)
        + seq!["--dump-header"@, "-"@, "--output"@, "/dev/null"@, "--write-out"@, "\nAGY_REDIRECT_META:%{http_code}:%{num_redirects}\n"@, "--url"@, url]
}

/// The text of each string.
pub open spec fn arg_views(v: Seq<String>) -> Seq<Seq<char>> {
    v.map_values(|s: String| s@)
}

/// Spell a duration in milliseconds as seconds with three decimals.
fn seconds_string(millis: u64) -> (s: String)
    ensures
        s@ == seconds_text(millis as nat),
{
    let mut out: Vec<char> = Vec::new();
    push_decimal(&mut out, millis / 1000);
    out.push('.');
    push_zero_padded(&mut out, millis % 1000, 3);
    proof {
        reveal_strlit(".");
        assert(out@ =~= seconds_text(millis as nat));
    }
    string_from_chars(out.as_slice())
}

/// Join the host, the HTTPS port and the pinned address for `--resolve`.
fn resolve_entry(host: &str, address: &str, ipv6: bool) -> (s: String)
    ensures
        s@ == host@ + ":443:"@ + pinned_address(address@, ipv6),
{
    let mut s = String::from_str(host);
    s.append(":443:");
    if ipv6 {
        s.append("[");
        s.append(address);
        s.append("]");
        proof {
            assert(s@ =~= host@ + ":443:"@ + pinned_address(address@, ipv6));
        }
    } else {
        s.append(address);
    }
    s
}

/// The curl command line that probes one hop. `address` is the checked address the host is
/// pinned to, and `ipv6` says whether it is an IPv6 one; `timeout_millis` is the time left.
pub fn curl_argv(
    program: &str,
    host: &str,
    address: &str,
    ipv6: bool,
    url: &str,
    timeout_millis: u64,
    method: ProbeMethod,
) -> (argv: Vec<String>)
    ensures
        arg_views(argv@) == curl_args(program@, host@, address@, ipv6, url@, timeout_millis as nat, method),
{
    let mut argv: Vec<String> = Vec::new();
    argv.push(String::from_str(program));
    argv.push(String::from_str("--disable"));
    argv.push(String::from_str("--noproxy"));
    argv.push(String::from_str("*"));
    argv.push(String::from_str("--proxy"));
    argv.push(String::from_str(""));
    argv.push(String::from_str("--cookie"));
    argv.push(String::from_str(""));
    argv.push(String::from_str("--netrc-file"));
    argv.push(String::from_str("/dev/null"));
    argv.push(String::from_str("--hsts"));
    argv.push(String::from_str(""));
    argv.push(String::from_str("--alt-svc"));
    argv.push(String::from_str(""));
    argv.push(String::from_str("--silent"));
    argv.push(String::from_str("--show-error"));
    argv.push(String::from_str("--proto"));
    argv.push(String::from_str("=https"));
    argv.push(String::from_str("--proto-redir"));
    argv.push(String::from_str("=https"));
    argv.push(String::from_str("--tlsv1.2"));
    argv.push(String::from_str("--max-redirs"));
    argv.push(String::from_str("0"));
    let max_time: u64 = if timeout_millis < 1 { 1 } else { timeout_millis };
    let connect: u64 = if timeout_millis < 1 { 1 } else if timeout_millis > 2000 { 2000 } else { timeout_millis };
    argv.push(String::from_str("--connect-timeout"));
    argv.push(seconds_string(connect));
    argv.push(String::from_str("--max-time"));
    argv.push(seconds_string(max_time));
    argv.push(String::from_str("--resolve"));
    argv.push(resolve_entry(host, address, ipv6));
    match method {
        ProbeMethod::Head => {
            argv.push(String::from_str("--head"));
        },
        ProbeMethod::BoundedGet => {
            argv.push(String::from_str("--range"));
            argv.push(String::from_str("0-0"));
            argv.push(String::from_str("--max-filesize"));
            let mut size: Vec<char> = Vec::new();
            push_decimal(&mut size, MAX_PROBE_BODY_BYTES);
            argv.push(string_from_chars(size.as_slice()));
        },
    }
    argv.push(String::from_str("--dump-header"));
    argv.push(String::from_str("-"));
    argv.push(String::from_str("--output"));
    argv.push(String::from_str("/dev/null"));
    argv.push(String::from_str("--write-out"));
    argv.push(String::from_str("\nAGY_REDIRECT_META:%{http_code}:%{num_redirects}\n"));
    argv.push(String::from_str("--url"));
    argv.push(String::from_str(url));
    proof {
        assert(arg_views(argv@) =~= curl_args(program@, host@, address@, ipv6, url@, timeout_millis as nat, method));
    }
    argv
}

} // verus!

verus! {

/// The metadata line curl is told to write after the headers.
pub open spec fn write_out_template() -> Seq<char> {
    "\nAGY_REDIRECT_META:%{http_code}:%{num_redirects}\n"@
}

/// The probe's command line writes its metadata line where the parser of a hop looks for it:
/// the `--write-out` template is the sentinel, as bytes, then the status and redirect count.
pub proof fn law_probe_metadata_follows_sentinel(
    program: Seq<char>,
    host: Seq<char>,
    address: Seq<char>,
    ipv6: bool,
    url: Seq<char>,
    timeout_millis: nat,
    method: ProbeMethod,
)
    ensures
        ({
            let args = curl_args(program, host, address, ipv6, url, timeout_millis, method);
            &&& args[args.len() - 3] == write_out_template()
            &&& args[args.len() - 4] == "--write-out"@
            &&& args[args.len() - 1] == url
        }),
        write_out_template().len() > crate::redirect::response::sentinel_bytes().len(),
        forall|i: int| 0 <= i < crate::redirect::response::sentinel_bytes().len()
            ==> (#[trigger] write_out_template()[i]) as u8 == crate::redirect::response::sentinel_bytes()[i],
{
    reveal_strlit("\nAGY_REDIRECT_META:%{http_code}:%{num_redirects}\n");
    let args = curl_args(program, host, address, ipv6, url, timeout_millis, method);
    let n = args.len();
    assert(args[n - 3] == write_out_template());
}

} // verus!
