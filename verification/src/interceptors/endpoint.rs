//! Where an interceptor listens.

use crate::interceptors::config::{ConfigErrorView, InterceptorConfigError};
use crate::outcome::shown;
use crate::text;
use crate::text::cat3;
use url::Url;
use vstd::prelude::*;

verus! {

/// Where an interceptor listens.
#[derive(Debug, Clone, PartialEq, Eq)]
pub enum InterceptorEndpoint {
    Grpc { authority: String, tls: bool },
    Unix { path: String },
}

/// The content of an endpoint.
pub enum EndpointView {
    Grpc { authority: Seq<char>, tls: bool },
    Unix { path: Seq<char> },
}

impl DeepView for InterceptorEndpoint {
    type V = EndpointView;

    open spec fn deep_view(&self) -> EndpointView {
        match self {
            InterceptorEndpoint::Grpc { authority, tls } => EndpointView::Grpc {
                authority: authority@,
                tls: *tls,
            },
            InterceptorEndpoint::Unix { path } => EndpointView::Unix { path: path@ },
        }
    }
}

/// The parts of a URL.
#[derive(Debug, Clone, PartialEq, Eq)]
pub struct UrlParts {
    pub scheme: String,
    pub host: Option<String>,
    pub port: Option<u16>,
    pub path: String,
}

/// The parts of a URL, in this order: scheme, host, port, path.
pub type PartsView = (Seq<char>, Option<Seq<char>>, Option<u16>, Seq<char>);

impl DeepView for UrlParts {
    type V = PartsView;

    open spec fn deep_view(&self) -> PartsView {
        (self.scheme@, self.host.deep_view(), self.port, self.path@)
    }
}

/// What `url::Url::parse` makes of a text: the parts of the URL, in the order
/// scheme, host, port and path, or what is said of a text that is none.
pub uninterp spec fn url_parsed(raw: Seq<char>) -> Result<
    (Seq<char>, Option<Seq<char>>, Option<u16>, Seq<char>),
    Seq<char>,
>;

/// `url::Url::parse`: the parts of a URL, as the accessors `scheme`, `host_str`,
/// `port` and `path` give them, or the text of the parse error.
#[verifier::external_body]
fn parse_url(raw: &str) -> (r: Result<UrlParts, String>)
    ensures
        shown(r) == url_parsed(raw@),
{
    match Url::parse(raw) {
        Ok(url) => Ok(
            UrlParts {
                scheme: url.scheme().to_owned(),
                host: url.host_str().map(str::to_owned),
                port: url.port(),
                path: url.path().to_owned(),
            },
        ),
        Err(error) => Err(error.to_string()),
    }
}

/// The refusal of an endpoint.
pub open spec fn refused(endpoint: Seq<char>, message: Seq<char>) -> ConfigErrorView {
    ConfigErrorView::InvalidEndpoint { endpoint, message }
}

/// The text consists of slashes only.
pub open spec fn only_slashes(path: Seq<char>) -> bool {
    forall|i: int| 0 <= i < path.len() ==> #[trigger] path[i] == '/'
}

/// The endpoint that the parts of a URL stand for.
pub open spec fn endpoint_of(raw: Seq<char>, parts: PartsView) -> Result<
    EndpointView,
    ConfigErrorView,
> {
    let (scheme, host, port, path) = parts;
    if scheme == "grpc"@ || scheme == "grpcs"@ {
        match host {
            None => Err(refused(raw, "TCP endpoint requires a host"@)),
            Some(host) => match port {
                None => Err(refused(raw, "TCP endpoint requires an explicit port"@)),
                Some(port) => if !only_slashes(path) {
                    Err(refused(raw, "TCP endpoint must not include a path"@))
                } else {
                    Ok(
                        EndpointView::Grpc {
                            authority: host + ":"@ + text::decimal(port as nat),
                            tls: scheme == "grpcs"@,
                        },
                    )
                },
            },
        }
    } else if scheme == "unix"@ {
        if path.len() == 0 || path[0] != '/' {
            Err(refused(raw, "unix endpoint requires an absolute socket path"@))
        } else {
            Ok(EndpointView::Unix { path })
        }
    } else {
        Err(refused(raw, "unsupported scheme '"@ + scheme + "'"@))
    }
}

/// What parsing an endpoint gives.
pub open spec fn endpoint_parsed(raw: Seq<char>) -> Result<EndpointView, ConfigErrorView> {
    match url_parsed(raw) {
        Err(message) => Err(refused(raw, message)),
        Ok(parts) => endpoint_of(raw, parts),
    }
}

fn refuse(endpoint: &str, message: &str) -> (r: InterceptorConfigError)
    ensures
        r.deep_view() == refused(endpoint@, message@),
{
    InterceptorConfigError::InvalidEndpoint {
        endpoint: endpoint.to_owned(),
        message: message.to_owned(),
    }
}

fn is_only_slashes(path: &str) -> (r: bool)
    ensures
        r == only_slashes(path@),
{
    let chars = text::chars_of(path);
    let mut i: usize = 0;
    while i < chars.len()
        invariant
            i <= chars.len(),
            chars@ == path@,
            forall|j: int| 0 <= j < i ==> #[trigger] path@[j] == '/',
        decreases chars.len() - i,
    {
        if chars[i] != '/' {
            assert(path@[i as int] != '/');
            return false;
        }
        i += 1;
    }
    true
}

/// The endpoint that the parts of a URL stand for.
pub fn endpoint_from_parts(raw: &str, parts: &UrlParts) -> (r: Result<
    InterceptorEndpoint,
    InterceptorConfigError,
>)
    ensures
        shown(r) == endpoint_of(raw@, parts.deep_view()),
{
    let scheme = parts.scheme.as_str();
    if text::same(scheme, "grpc") || text::same(scheme, "grpcs") {
        let host = match &parts.host {
            Some(host) => host,
            None => {
                return Err(refuse(raw, "TCP endpoint requires a host"));
            },
        };
        let port: u16 = match parts.port {
            Some(port) => port,
            None => {
                return Err(refuse(raw, "TCP endpoint requires an explicit port"));
            },
        };
        if !is_only_slashes(parts.path.as_str()) {
            return Err(refuse(raw, "TCP endpoint must not include a path"));
        }
        let number = text::decimal_of(port as u64);
        return Ok(
            InterceptorEndpoint::Grpc {
                authority: cat3(host.as_str(), ":", number.as_str()),
                tls: text::same(scheme, "grpcs"),
            },
        );
    }
    if text::same(scheme, "unix") {
        let absolute = text::has_prefix(parts.path.as_str(), "/");
        proof {
            reveal_strlit("/");
            let path = parts.path@;
            if path.len() > 0 {
                assert(path.take(1)[0] == path[0]);
                assert(path[0] == '/' ==> path.take(1) =~= "/"@);
            }
        }
        if !absolute {
            return Err(refuse(raw, "unix endpoint requires an absolute socket path"));
        }
        return Ok(InterceptorEndpoint::Unix { path: parts.path.clone() });
    }
    let message = cat3("unsupported scheme '", scheme, "'");
    Err(refuse(raw, message.as_str()))
}

impl InterceptorEndpoint {
    /// The endpoint that a URL names.
    pub fn parse(raw: &str) -> (r: Result<InterceptorEndpoint, InterceptorConfigError>)
        ensures
            shown(r) == endpoint_parsed(raw@),
    {
        match parse_url(raw) {
            Ok(parts) => endpoint_from_parts(raw, &parts),
            Err(message) => Err(refuse(raw, message.as_str())),
        }
    }
}

/// What is said of an endpoint that is reached over the network without encryption.
pub const PLAINTEXT_WARNING: &'static str =
    "plaintext grpc interceptor endpoint is not loopback; use grpcs:// for remote services";

/// The text is a decimal number below 256, without a leading zero.
pub open spec fn is_octet(part: Seq<char>) -> bool {
    &&& 1 <= part.len() <= 3
    &&& text::all_digits(part)
    &&& part[0] == '0' ==> part.len() == 1
    &&& text::digits_value(part) < 256
}

/// The text is an IPv4 address of the loopback network: four octets, the first of
/// which is 127.
pub open spec fn is_loopback_v4(host: Seq<char>) -> bool {
    let parts = text::split(host, '.');
    &&& parts.len() == 4
    &&& forall|i: int| 0 <= i < parts.len() ==> is_octet(#[trigger] parts[i])
    &&& parts[0] == "127"@
}

/// The text is a group of an IPv6 address that is zero.
pub open spec fn is_zero_group(part: Seq<char>) -> bool {
    1 <= part.len() <= 4 && forall|i: int| 0 <= i < part.len() ==> #[trigger] part[i] == '0'
}

/// The text is a group of an IPv6 address that is one.
pub open spec fn is_one_group(part: Seq<char>) -> bool {
    &&& 1 <= part.len() <= 4
    &&& part.last() == '1'
    &&& forall|i: int| 0 <= i < part.len() - 1 ==> #[trigger] part[i] == '0'
}

/// The number of groups that the end of the IPv6 loopback address is: the group one,
/// or two groups that are written as an IPv4 address. Nothing else ends it.
pub open spec fn end_groups(part: Seq<char>) -> Option<nat> {
    if is_one_group(part) {
        Some(1)
    } else if part == "0.0.0.1"@ {
        Some(2)
    } else {
        None
    }
}

/// The parts are zero groups, but for the part at a given place, which is empty: the
/// groups that it stands for are left out.
pub open spec fn zero_but_at(parts: Seq<Seq<char>>, gap: int) -> bool {
    &&& 0 <= gap < parts.len()
    &&& parts[gap].len() == 0
    &&& forall|i: int| 0 <= i < parts.len() && i != gap ==> is_zero_group(#[trigger] parts[i])
}

/// The parts are what stands before the end of the IPv6 loopback address. Either all
/// eight groups are written, or one run of zero groups is left out, and then an address
/// that begins with the run begins with two colons.
pub open spec fn is_loopback_start(parts: Seq<Seq<char>>, end: nat) -> bool {
    if parts.len() > 0 && parts[0].len() == 0 {
        parts.len() + end <= 9 && zero_but_at(parts.skip(1), 0)
    } else {
        ||| parts.len() + end == 8 && forall|i: int|
            0 <= i < parts.len() ==> is_zero_group(#[trigger] parts[i])
        ||| parts.len() + end <= 8 && exists|gap: int| #[trigger] zero_but_at(parts, gap)
    }
}

/// The text is the IPv6 loopback address.
pub open spec fn is_loopback_v6(host: Seq<char>) -> bool {
    let parts = text::split(host, ':');
    end_groups(parts.last()) matches Some(end) && is_loopback_start(parts.drop_last(), end)
}

/// The host is the machine itself: `localhost` in any case, or a loopback address. An
/// address in brackets is none.
pub open spec fn is_loopback(host: Seq<char>) -> bool {
    text::lower(host) == "localhost"@ || is_loopback_v4(host) || is_loopback_v6(host)
}

/// The endpoint is reached over the network without encryption.
pub open spec fn is_plaintext(parts: PartsView) -> bool {
    match parts.1 {
        Some(host) => parts.0 == "grpc"@ && !is_loopback(host),
        None => false,
    }
}

fn part_is_octet(part: &str) -> (r: bool)
    ensures
        r == is_octet(part@),
{
    let chars = text::chars_of(part);
    if chars.len() == 0 || chars.len() > 3 || (chars[0] == '0' && chars.len() > 1) {
        return false;
    }
    match text::parse_digits(part) {
        Some(value) => value < 256,
        None => false,
    }
}

fn host_is_loopback_v4(host: &str) -> (r: bool)
    ensures
        r == is_loopback_v4(host@),
{
    let parts = text::split_on(host, '.');
    let ghost list = parts.deep_view();
    if parts.len() != 4 {
        return false;
    }
    let mut i: usize = 0;
    while i < parts.len()
        invariant
            i <= parts.len(),
            list == parts.deep_view(),
            list == text::split(host@, '.'),
            forall|j: int| 0 <= j < i ==> is_octet(#[trigger] list[j]),
        decreases parts.len() - i,
    {
        assert(list[i as int] == parts@[i as int]@);
        if !part_is_octet(parts[i].as_str()) {
            return false;
        }
        i += 1;
    }
    text::same(parts[0].as_str(), "127")
}

/// The number of zeros that a text begins with.
fn leading_zeros(chars: &Vec<char>) -> (r: usize)
    ensures
        r <= chars.len(),
        forall|i: int| 0 <= i < r ==> #[trigger] chars@[i] == '0',
        r < chars.len() ==> chars@[r as int] != '0',
{
    let mut i: usize = 0;
    while i < chars.len() && chars[i] == '0'
        invariant
            i <= chars.len(),
            forall|j: int| 0 <= j < i ==> #[trigger] chars@[j] == '0',
        decreases chars.len() - i,
    {
        i += 1;
    }
    i
}

fn part_is_zero_group(part: &str) -> (r: bool)
    ensures
        r == is_zero_group(part@),
{
    let chars = text::chars_of(part);
    chars.len() >= 1 && chars.len() <= 4 && leading_zeros(&chars) == chars.len()
}

fn groups_of_end(part: &str) -> (r: Option<usize>)
    ensures
        match end_groups(part@) {
            Some(end) => r == Some(end as usize) && end <= 2,
            None => r is None,
        },
{
    let chars = text::chars_of(part);
    if chars.len() >= 1 && chars.len() <= 4 && leading_zeros(&chars) == chars.len() - 1
        && chars[chars.len() - 1] == '1' {
        Some(1)
    } else if text::same(part, "0.0.0.1") {
        Some(2)
    } else {
        None
    }
}

/// Where the parts from a place on are zero groups but for one that is empty, the place
/// of that one. Where all are zero groups, their number.
fn find_gap(parts: &Vec<String>, from: usize, to: usize) -> (r: Option<usize>)
    requires
        from <= to <= parts.len(),
    ensures
        match r {
            Some(gap) => {
                let list = parts.deep_view().subrange(from as int, to as int);
                &&& gap <= list.len()
                &&& gap < list.len() ==> zero_but_at(list, gap as int)
                &&& gap == list.len() ==> forall|i: int|
                    0 <= i < list.len() ==> is_zero_group(#[trigger] list[i])
            },
            None => {
                let list = parts.deep_view().subrange(from as int, to as int);
                &&& forall|gap: int| !#[trigger] zero_but_at(list, gap)
                &&& exists|i: int| 0 <= i < list.len() && !is_zero_group(#[trigger] list[i])
            },
        },
{
    let ghost list = parts.deep_view().subrange(from as int, to as int);
    let mut gap: usize = to - from;
    let mut i: usize = 0;
    while i < to - from
        invariant
            from <= to <= parts.len(),
            i <= to - from,
            list == parts.deep_view().subrange(from as int, to as int),
            gap < i || gap == list.len(),
            gap < list.len() ==> list[gap as int].len() == 0,
            forall|j: int| 0 <= j < i && j != gap ==> is_zero_group(#[trigger] list[j]),
        decreases to - from - i,
    {
        assert(list[i as int] == parts@[from + i]@);
        if !part_is_zero_group(parts[from + i].as_str()) {
            let empty = text::chars_of(parts[from + i].as_str()).len() == 0;
            if gap < to - from || !empty {
                proof {
                    let at = i as int;
                    assert(!is_zero_group(list[at]));
                    assert forall|other: int| !#[trigger] zero_but_at(list, other) by {
                        if gap < list.len() {
                            assert(!is_zero_group(list[gap as int]));
                        }
                    }
                }
                return None;
            }
            gap = i;
        }
        i += 1;
    }
    Some(gap)
}

fn host_is_loopback_v6(host: &str) -> (r: bool)
    ensures
        r == is_loopback_v6(host@),
{
    let parts = text::split_on(host, ':');
    let ghost list = parts.deep_view();
    let ghost start = list.drop_last();
    let last = parts.len() - 1;
    assert(list.last() == parts@[last as int]@);
    let end = match groups_of_end(parts[last].as_str()) {
        Some(end) => end,
        None => {
            return false;
        },
    };
    if last > 9 {
        return false;
    }
    if last > 0 && text::chars_of(parts[0].as_str()).len() == 0 {
        assert(start[0] == parts@[0]@);
        assert(start.skip(1) =~= list.subrange(1, last as int));
        if last + end > 9 {
            return false;
        }
        match find_gap(&parts, 1, last) {
            Some(gap) => {
                proof {
                    if gap > 0 && gap < start.skip(1).len() {
                        assert(is_zero_group(start.skip(1)[0]));
                    }
                    if gap > 0 && gap == start.skip(1).len() {
                        assert(is_zero_group(start.skip(1)[0]));
                    }
                }
                gap == 0 && last > 1
            },
            None => false,
        }
    } else {
        assert(start =~= list.subrange(0, last as int));
        assert(last > 0 ==> start[0] == parts@[0]@);
        match find_gap(&parts, 0, last) {
            Some(gap) => {
                proof {
                    if gap == start.len() {
                        assert forall|other: int| !#[trigger] zero_but_at(start, other) by {
                            if 0 <= other < start.len() {
                                assert(is_zero_group(start[other]));
                            }
                        }
                    } else {
                        assert(!is_zero_group(start[gap as int]));
                    }
                }
                if gap == last {
                    last + end == 8
                } else {
                    last + end <= 8
                }
            },
            None => false,
        }
    }
}

fn is_loopback_host(host: &str) -> (r: bool)
    ensures
        r == is_loopback(host@),
{
    let name = text::to_lower(host);
    text::same(name.as_str(), "localhost") || host_is_loopback_v4(host) || host_is_loopback_v6(host)
}

/// Whether the endpoint that the parts of a URL stand for is reached over the network
/// without encryption.
pub fn warns_of_plaintext(parts: &UrlParts) -> (r: bool)
    ensures
        r == is_plaintext(parts.deep_view()),
{
    match &parts.host {
        Some(host) => text::same(parts.scheme.as_str(), "grpc") && !is_loopback_host(
            host.as_str(),
        ),
        None => false,
    }
}

/// What is said of the endpoint that a URL names, beside where it is: that of an
/// endpoint that is reached over the network without encryption.
pub open spec fn warning_of(raw: Seq<char>, parsed: Result<PartsView, Seq<char>>) -> Option<
    Seq<char>,
> {
    match parsed {
        Ok(parts) => if endpoint_of(raw, parts) is Ok && is_plaintext(parts) {
            Some(PLAINTEXT_WARNING@)
        } else {
            None
        },
        Err(_) => None,
    }
}

/// What is said of the endpoint that a URL names, beside where it is.
pub fn endpoint_warning(raw: &str) -> (r: Option<String>)
    ensures
        r.deep_view() == warning_of(raw@, url_parsed(raw@)),
{
    match parse_url(raw) {
        Ok(parts) => if endpoint_from_parts(raw, &parts).is_ok() && warns_of_plaintext(&parts) {
            Some(PLAINTEXT_WARNING.to_owned())
        } else {
            None
        },
        Err(_) => None,
    }
}

/// An endpoint that is spoken of is one without encryption, and an encrypted or local
/// one is never spoken of.
pub proof fn law_warnings_are_of_plaintext(raw: Seq<char>, parts: PartsView)
    requires
        warning_of(raw, Ok(parts)) is Some,
    ensures
        endpoint_of(raw, parts) matches Ok(EndpointView::Grpc { tls, .. }) && !tls,
        parts.1 matches Some(host) && text::lower(host) != "localhost"@,
{
    reveal_strlit("grpc");
    reveal_strlit("grpcs");
    reveal_strlit("unix");
}

/// The URL that a channel to an endpoint is opened with. A socket has none.
pub open spec fn channel_url_of(endpoint: EndpointView) -> Option<Seq<char>> {
    match endpoint {
        EndpointView::Grpc { authority, tls } => Some(
            (if tls {
                "https"@
            } else {
                "http"@
            }) + "://"@ + authority,
        ),
        EndpointView::Unix { .. } => None,
    }
}

impl InterceptorEndpoint {
    /// The URL that a channel to the endpoint is opened with.
    pub fn channel_url(&self) -> (r: Option<String>)
        ensures
            r.deep_view() == channel_url_of(self.deep_view()),
    {
        match self {
            InterceptorEndpoint::Grpc { authority, tls } => {
                let scheme = if *tls {
                    "https"
                } else {
                    "http"
                };
                Some(cat3(scheme, "://", authority.as_str()))
            },
            InterceptorEndpoint::Unix { .. } => None,
        }
    }
}

/// Whether an endpoint is secured depends on its scheme alone, and a refused
/// endpoint is named in its refusal.
pub proof fn law_endpoint_scheme(raw: Seq<char>, parts: PartsView)
    ensures
        match endpoint_of(raw, parts) {
            Ok(EndpointView::Grpc { authority, tls }) => tls <==> parts.0 == "grpcs"@,
            Ok(EndpointView::Unix { path }) => parts.0 == "unix"@ && path == parts.3,
            Err(error) => error matches ConfigErrorView::InvalidEndpoint { endpoint, .. }
                && endpoint == raw,
        },
{
}

/// A TCP endpoint has a host, a port of its own and no path, and its authority is the host and
/// the port. A socket has an absolute path. No other scheme is accepted.
pub proof fn law_accepted_endpoints(
    raw: Seq<char>,
    scheme: Seq<char>,
    host: Option<Seq<char>>,
    port: Option<u16>,
    path: Seq<char>,
)
    ensures
        endpoint_of(raw, (scheme, host, port, path)) is Ok <==> ((scheme == "grpc"@ || scheme
            == "grpcs"@) && host is Some && port is Some && (forall|i: int|
            0 <= i < path.len() ==> #[trigger] path[i] == '/')) || (scheme == "unix"@ && path.len()
            > 0 && path[0] == '/'),
        endpoint_of(raw, (scheme, host, port, path)) matches Ok(EndpointView::Grpc {
            authority,
            tls,
        }) ==> authority == host->0 + ":"@ + text::decimal(port->0 as nat) && (tls <==> scheme
            == "grpcs"@),
        endpoint_of(raw, (scheme, host, port, path)) matches Ok(EndpointView::Unix { path: socket })
            ==> socket == path && scheme == "unix"@,
{
    reveal_strlit("grpc");
    reveal_strlit("grpcs");
    reveal_strlit("unix");
    assert("grpc"@.len() == 4 && "grpc"@[0] == 'g');
    assert("unix"@.len() == 4 && "unix"@[0] == 'u');
    assert("grpcs"@.len() == 5);
}

/// A channel is opened over TLS exactly where the endpoint says so.
pub proof fn law_channel_urls(authority: Seq<char>, path: Seq<char>)
    ensures
        channel_url_of(EndpointView::Grpc { authority, tls: true }) == Some(
            "https"@ + "://"@ + authority,
        ),
        channel_url_of(EndpointView::Grpc { authority, tls: false }) == Some(
            "http"@ + "://"@ + authority,
        ),
        channel_url_of(EndpointView::Unix { path }) is None,
{
}

/// Every accepted endpoint without encryption that is not the machine itself is spoken of.
pub proof fn law_plaintext_is_spoken_of(raw: Seq<char>, parts: PartsView)
    ensures
        warning_of(raw, Ok(parts)) is Some <==> endpoint_of(raw, parts) is Ok && parts.0 == "grpc"@
            && !is_loopback(parts.1->0),
        parts.0 == "grpcs"@ || parts.0 == "unix"@ ==> warning_of(raw, Ok(parts)) is None,
        forall|message: Seq<char>| #[trigger] warning_of(raw, Err(message)) is None,
{
    law_accepted_endpoints(raw, parts.0, parts.1, parts.2, parts.3);
    reveal_strlit("grpc");
    reveal_strlit("grpcs");
    reveal_strlit("unix");
    assert("grpc"@.len() == 4 && "grpc"@[0] == 'g');
    assert("unix"@.len() == 4 && "unix"@[0] == 'u');
    assert("grpcs"@.len() == 5);
}

/// A name is the machine itself only if it is `localhost`, in any case. An IPv4 address is
/// exactly if it begins with 127.
pub proof fn law_loopback_hosts(host: Seq<char>)
    ensures
        text::lower(host) == "localhost"@ ==> is_loopback(host),
        !host.contains('.') && !host.contains(':') && is_loopback(host) ==> text::lower(host)
            == "localhost"@,
        is_loopback_v4(host) ==> text::split(host, '.')[0] == "127"@ && text::split(
            host,
            '.',
        ).len() == 4,
        host.len() > 0 && text::all_digits(text::split(host, '.')[0]) && text::split(host, '.')[0]
            != "127"@ ==> !is_loopback_v4(host),
{
    text::laws::law_split(host, '.');
    if !host.contains('.') && !host.contains(':') {
        text::laws::law_one_part(host, '.');
        text::laws::law_one_part(host, ':');
        assert(seq![host].last() == host);
        assert(seq![host].drop_last().len() == 0);
        reveal_strlit("0.0.0.1");
        if host == "0.0.0.1"@ {
            assert(host[1] == '.');
            assert(host.contains(host[1]));
        }
    }
}

} // verus!
