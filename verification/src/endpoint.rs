//! Endpoint address parsing for sync endpoints: local paths, SSH remotes
//! in shorthand and URL form, Docker containers, bracketed IPv6 hosts, and
//! Windows drive-letter paths.

use vstd::prelude::*;
use vstd::string::StrSliceExecFns;
use vstd::string::StringExecFns;

use crate::text::ends_with_seq;
use crate::text::find_char;
use crate::text::starts_with_seq;
use crate::text::str_eq;
use crate::text::str_starts_with;

verus! {

/// A parsed endpoint address.
#[derive(Debug)]
pub enum EndpointAddress {
    /// A local filesystem path.
    Local(String),
    /// An SSH remote endpoint.
    Ssh { user: Option<String>, host: String, port: Option<u16>, path: String },
    /// A Docker container endpoint.
    Docker { container: String, path: String },
}

/// Mathematical model of an `EndpointAddress`.
pub enum EndpointAddressView {
    Local(Seq<char>),
    Ssh { user: Option<Seq<char>>, host: Seq<char>, port: Option<u16>, path: Seq<char> },
    Docker { container: Seq<char>, path: Seq<char> },
}

impl View for EndpointAddress {
    type V = EndpointAddressView;

    open spec fn view(&self) -> EndpointAddressView {
        match self {
            EndpointAddress::Local(p) => EndpointAddressView::Local(p@),
            EndpointAddress::Ssh { user, host, port, path } => EndpointAddressView::Ssh {
                user: user.deep_view(),
                host: host@,
                port: *port,
                path: path@,
            },
            EndpointAddress::Docker { container, path } => EndpointAddressView::Docker {
                container: container@,
                path: path@,
            },
        }
    }
}

impl DeepView for EndpointAddress {
    type V = EndpointAddressView;

    open spec fn deep_view(&self) -> EndpointAddressView {
        self.view()
    }
}

impl Clone for EndpointAddress {
    fn clone(&self) -> (res: Self)
        ensures
            res@ == self@,
    {
        match self {
            EndpointAddress::Local(p) => EndpointAddress::Local(p.clone()),
            EndpointAddress::Ssh { user, host, port, path } => EndpointAddress::Ssh {
                user: user.clone(),
                host: host.clone(),
                port: *port,
                path: path.clone(),
            },
            EndpointAddress::Docker { container, path } => EndpointAddress::Docker {
                container: container.clone(),
                path: path.clone(),
            },
        }
    }
}

fn opt_string_eq(a: &Option<String>, b: &Option<String>) -> (r: bool)
    ensures
        r == (a.deep_view() == b.deep_view()),
{
    match (a, b) {
        (Some(x), Some(y)) => {
            proof {
                assert(a.deep_view() == Some(x@));
                assert(b.deep_view() == Some(y@));
            }
            str_eq(x.as_str(), y.as_str())
        },
        (None, None) => true,
        (Some(x), None) => {
            proof {
                assert(a.deep_view() == Some(x@));
            }
            false
        },
        (None, Some(y)) => {
            proof {
                assert(b.deep_view() == Some(y@));
            }
            false
        },
    }
}

fn opt_u16_eq(a: &Option<u16>, b: &Option<u16>) -> (r: bool)
    ensures
        r == (*a == *b),
{
    match (a, b) {
        (Some(x), Some(y)) => *x == *y,
        (None, None) => true,
        _ => false,
    }
}

impl PartialEq for EndpointAddress {
    fn eq(&self, other: &Self) -> (r: bool) {
        match (self, other) {
            (EndpointAddress::Local(a), EndpointAddress::Local(b)) => str_eq(
                a.as_str(),
                b.as_str(),
            ),
            (
                EndpointAddress::Ssh { user: ua, host: ha, port: pa, path: qa },
                EndpointAddress::Ssh { user: ub, host: hb, port: pb, path: qb },
            ) => opt_string_eq(ua, ub) && str_eq(ha.as_str(), hb.as_str()) && opt_u16_eq(pa, pb)
                && str_eq(qa.as_str(), qb.as_str()),
            (
                EndpointAddress::Docker { container: ca, path: qa },
                EndpointAddress::Docker { container: cb, path: qb },
            ) => str_eq(ca.as_str(), cb.as_str()) && str_eq(qa.as_str(), qb.as_str()),
            _ => false,
        }
    }
}

impl vstd::std_specs::cmp::PartialEqSpecImpl for EndpointAddress {
    open spec fn obeys_eq_spec() -> bool {
        true
    }

    open spec fn eq_spec(&self, other: &Self) -> bool {
        self@ == other@
    }
}

/// A decimal digit.
pub open spec fn is_digit_char(c: char) -> bool {
    48 <= (c as u32) <= 57
}

/// The numeric value of a decimal digit.
pub open spec fn digit_value(c: char) -> int {
    (c as u32) - 48
}

/// The number a string of decimal digits denotes.
pub open spec fn digits_value(s: Seq<char>) -> int
    decreases s.len(),
{
    if s.len() == 0 {
        0
    } else {
        digits_value(s.drop_last()) * 10 + digit_value(s.last())
    }
}

/// Every character is a decimal digit.
pub open spec fn all_digits(s: Seq<char>) -> bool {
    forall|i: int| 0 <= i < s.len() ==> is_digit_char(#[trigger] s[i])
}

/// The digit run of a port number: the text after an optional leading `+`.
pub open spec fn u16_digits_of(s: Seq<char>) -> Seq<char> {
    if s.len() > 0 && s[0] == '+' {
        s.drop_first()
    } else {
        s
    }
}

/// What `str::parse::<u16>` accepts: an optional leading `+`, then at
/// least one decimal digit, denoting a value that fits in sixteen bits.
pub open spec fn parse_u16_rep(s: Seq<char>) -> Option<u16> {
    let digits = u16_digits_of(s);
    if digits.len() > 0 && all_digits(digits) && digits_value(digits) <= 65535 {
        Some(digits_value(digits) as u16)
    } else {
        None
    }
}

proof fn lemma_digits_value_nonneg(s: Seq<char>)
    requires
        forall|i: int| 0 <= i < s.len() ==> is_digit_char(#[trigger] s[i]),
    ensures
        digits_value(s) >= 0,
    decreases s.len(),
{
    if s.len() > 0 {
        lemma_digits_value_nonneg(s.drop_last());
    }
}

proof fn lemma_digits_value_prefix_bound(s: Seq<char>, n: int)
    requires
        forall|i: int| 0 <= i < s.len() ==> is_digit_char(#[trigger] s[i]),
        0 <= n <= s.len(),
    ensures
        digits_value(s) >= digits_value(s.subrange(0, n)),
    decreases s.len() - n,
{
    if n < s.len() {
        lemma_digits_value_prefix_bound(s, n + 1);
        let p = s.subrange(0, n);
        let q = s.subrange(0, n + 1);
        assert(q.drop_last() =~= p);
        assert(q.last() == s[n]);
        lemma_digits_value_nonneg(p);
        assert(digits_value(q) == digits_value(p) * 10 + digit_value(s[n]));
    } else {
        assert(s.subrange(0, n) =~= s);
    }
}

/// Parse an unsigned sixteen-bit port number as `str::parse` does.
fn parse_u16(s: &str) -> (r: Option<u16>)
    ensures
        r == parse_u16_rep(s@),
{
    let n = s.unicode_len();
    let start: usize = if n > 0 && s.get_char(0) == '+' {
        1
    } else {
        0
    };
    let ghost digits = u16_digits_of(s@);
    proof {
        assert(digits =~= s@.subrange(start as int, n as int));
    }
    if n == start {
        return None;
    }
    let mut value: u32 = 0;
    let mut i: usize = start;
    while i < n
        invariant
            n == s@.len(),
            start <= i <= n,
            start < n,
            start == 0 || (s@.len() > 0 && s@[0] == '+' && start == 1),
            digits == u16_digits_of(s@),
            digits == s@.subrange(start as int, n as int),
            forall|k: int| start <= k < i ==> is_digit_char(#[trigger] s@[k]),
            value == digits_value(s@.subrange(start as int, i as int)),
            value <= 65535,
        decreases n - i,
    {
        let c = s.get_char(i);
        let cv = c as u32;
        if cv < 48 || cv > 57 {
            proof {
                assert(digits[i - start] == s@[i as int]);
                assert(!is_digit_char(digits[i - start]));
                assert(!all_digits(digits));
                assert(parse_u16_rep(s@) is None);
            }
            return None;
        }
        let d = cv - 48;
        let next: u32 = value * 10 + d;
        proof {
            assert(s@.subrange(start as int, i + 1).drop_last() =~= s@.subrange(
                start as int,
                i as int,
            ));
            assert(s@.subrange(start as int, i + 1).last() == s@[i as int]);
        }
        if next > 65535 {
            proof {
                let pre = s@.subrange(start as int, i + 1);
                assert(digits_value(pre) == next);
                if all_digits(digits) {
                    lemma_digits_value_prefix_bound(digits, i + 1 - start);
                    assert(digits.subrange(0, i + 1 - start) =~= pre);
                    assert(digits_value(digits) >= digits_value(pre));
                }
                assert(parse_u16_rep(s@) is None);
            }
            return None;
        }
        value = next;
        i = i + 1;
    }
    proof {
        assert forall|k: int| 0 <= k < digits.len() implies is_digit_char(#[trigger] digits[k]) by {
            assert(digits[k] == s@[k + start]);
        }
        assert(digits_value(digits) == value) by {
            assert(s@.subrange(start as int, n as int) =~= digits);
        }
    }
    Some(value as u16)
}

/// What `parse` returns for an SSH URL body `[user@]host[:port]/path`.
pub open spec fn parse_ssh_url_rep(s: Seq<char>) -> EndpointAddressView {
    let uhp_path: (Seq<char>, Seq<char>) = match s.index_of_first('/') {
        Some(p) => (s.subrange(0, p), s.subrange(p, s.len() as int)),
        None => (s, "/"@),
    };
    let user_hp: (Option<Seq<char>>, Seq<char>) = match uhp_path.0.index_of_first('@') {
        Some(a) => (
            Some(uhp_path.0.subrange(0, a)),
            uhp_path.0.subrange(a + 1, uhp_path.0.len() as int),
        ),
        None => (None, uhp_path.0),
    };
    let host_port: (Seq<char>, Option<u16>) = match user_hp.1.index_of_first(':') {
        Some(c) => (
            user_hp.1.subrange(0, c),
            parse_u16_rep(user_hp.1.subrange(c + 1, user_hp.1.len() as int)),
        ),
        None => (user_hp.1, None),
    };
    EndpointAddressView::Ssh {
        user: user_hp.0,
        host: host_port.0,
        port: host_port.1,
        path: uhp_path.1,
    }
}

/// What `parse` returns for a Docker URL body `container[/path]`.
pub open spec fn parse_docker_url_rep(s: Seq<char>) -> EndpointAddressView {
    match s.index_of_first('/') {
        Some(p) => EndpointAddressView::Docker {
            container: s.subrange(0, p),
            path: s.subrange(p, s.len() as int),
        },
        None => EndpointAddressView::Docker { container: s, path: "/"@ },
    }
}

/// An ASCII letter.
pub open spec fn is_ascii_alpha(c: char) -> bool {
    (65 <= (c as u32) <= 90) || (97 <= (c as u32) <= 122)
}

/// A Windows drive-letter path: a letter, a colon, then a slash of either
/// kind.
pub open spec fn is_windows_path(s: Seq<char>) -> bool {
    s.len() >= 3 && is_ascii_alpha(s[0]) && s[1] == ':' && (s[2] == '\\' || s[2] == '/')
}

/// A bracketed IPv6 endpoint `[host]:path`: the colon must directly follow
/// the first closing bracket.
pub open spec fn ipv6_split(s: Seq<char>) -> Option<(Seq<char>, Seq<char>)> {
    if s.len() > 0 && s[0] == '[' {
        match s.index_of_first(']') {
            Some(b) => if b + 1 < s.len() && s[b + 1] == ':' {
                Some((s.subrange(1, b), s.subrange(b + 2, s.len() as int)))
            } else {
                None
            },
            None => None,
        }
    } else {
        None
    }
}

/// An SSH shorthand `[user@]host:path`: the first colon is followed by a
/// slash or a tilde.
pub open spec fn shorthand_split(s: Seq<char>) -> Option<(Option<Seq<char>>, Seq<char>, Seq<
    char,
>)> {
    match s.index_of_first(':') {
        Some(c) => if c + 1 < s.len() && (s[c + 1] == '/' || s[c + 1] == '~') {
            let host_part = s.subrange(0, c);
            let path = s.subrange(c + 1, s.len() as int);
            match host_part.index_of_first('@') {
                Some(a) => Some(
                    (
                        Some(host_part.subrange(0, a)),
                        host_part.subrange(a + 1, host_part.len() as int),
                        path,
                    ),
                ),
                None => Some((None, host_part, path)),
            }
        } else {
            None
        },
        None => None,
    }
}

/// What `parse` returns: URL schemes first, then bracketed IPv6, then
/// Windows drive letters, then SSH shorthand, and a local path otherwise.
pub open spec fn parse_rep(s: Seq<char>) -> EndpointAddressView {
    if starts_with_seq(s, "ssh://"@) {
        parse_ssh_url_rep(s.skip("ssh://"@.len() as int))
    } else if starts_with_seq(s, "docker://"@) {
        parse_docker_url_rep(s.skip("docker://"@.len() as int))
    } else if ipv6_split(s) is Some {
        let hp = ipv6_split(s).unwrap();
        EndpointAddressView::Ssh { user: None, host: hp.0, port: None, path: hp.1 }
    } else if is_windows_path(s) {
        EndpointAddressView::Local(s)
    } else if shorthand_split(s) is Some {
        let uhp = shorthand_split(s).unwrap();
        EndpointAddressView::Ssh { user: uhp.0, host: uhp.1, port: None, path: uhp.2 }
    } else {
        EndpointAddressView::Local(s)
    }
}

/// First-occurrence search, stated against `index_of_first`.
fn find_first(s: &str, c: char) -> (r: Option<usize>)
    ensures
        match r {
            Some(i) => i < s@.len() && s@[i as int] == c && s@.index_of_first(c) == Some(i as int),
            None => s@.index_of_first(c) is None,
        },
{
    proof {
        s@.index_of_first_ensures(c);
    }
    match find_char(s, c) {
        Some(i) => {
            proof {
                let iof = s@.index_of_first(c);
                assert(iof.is_some()) by {
                    if iof.is_none() {
                        assert(!s@.contains(c));
                        assert(s@[i as int] == c);
                    }
                }
                let k = iof.unwrap();
                assert(k == i);
            }
            Some(i)
        },
        None => {
            proof {
                let iof = s@.index_of_first(c);
                if iof.is_some() {
                    let k = iof.unwrap();
                    assert(s@[k] == c);
                }
            }
            None
        },
    }
}

impl EndpointAddress {
    /// Parse an SSH URL body `[user@]host[:port]/path`, without its scheme
    /// prefix.
    pub fn parse_ssh_url(s: &str) -> (r: Self)
        ensures
            r@ == parse_ssh_url_rep(s@),
    {
        proof {
            reveal_strlit("/");
        }
        let n = s.unicode_len();
        let (user_host_port, path) = match find_first(s, '/') {
            Some(p) => (s.substring_char(0, p), s.substring_char(p, n).to_owned()),
            None => (s, String::from_str("/")),
        };
        let m = user_host_port.unicode_len();
        let (user, host_port) = match find_first(user_host_port, '@') {
            Some(a) => (
                Some(user_host_port.substring_char(0, a).to_owned()),
                user_host_port.substring_char(a + 1, m),
            ),
            None => (None, user_host_port),
        };
        let k = host_port.unicode_len();
        let (host, port) = match find_first(host_port, ':') {
            Some(c) => (
                host_port.substring_char(0, c).to_owned(),
                parse_u16(host_port.substring_char(c + 1, k)),
            ),
            None => (host_port.to_owned(), None),
        };
        EndpointAddress::Ssh { user, host, port, path }
    }

    /// Parse a Docker URL body `container[/path]`, without its scheme
    /// prefix.
    pub fn parse_docker_url(s: &str) -> (r: Self)
        ensures
            r@ == parse_docker_url_rep(s@),
    {
        proof {
            reveal_strlit("/");
        }
        let n = s.unicode_len();
        match find_first(s, '/') {
            Some(p) => EndpointAddress::Docker {
                container: s.substring_char(0, p).to_owned(),
                path: s.substring_char(p, n).to_owned(),
            },
            None => EndpointAddress::Docker {
                container: s.to_owned(),
                path: String::from_str("/"),
            },
        }
    }

    /// Parse an endpoint string: URL schemes, bracketed IPv6, Windows
    /// drive-letter paths, SSH shorthand, or a local path.
    pub fn parse(s: &str) -> (r: Self)
        ensures
            r@ == parse_rep(s@),
    {
        proof {
            reveal_strlit("ssh://");
            reveal_strlit("docker://");
        }
        let n = s.unicode_len();
        if str_starts_with(s, "ssh://") {
            let rest = s.substring_char(6, n);
            proof {
                assert(rest@ =~= s@.skip(6));
            }
            return Self::parse_ssh_url(rest);
        }
        if str_starts_with(s, "docker://") {
            let rest = s.substring_char(9, n);
            proof {
                assert(rest@ =~= s@.skip(9));
            }
            return Self::parse_docker_url(rest);
        }
        if n > 0 && s.get_char(0) == '[' {
            match find_first(s, ']') {
                Some(b) => {
                    proof {
                        s@.index_of_first_ensures(']');
                    }
                    if b + 1 < n && s.get_char(b + 1) == ':' {
                        return EndpointAddress::Ssh {
                            user: None,
                            host: s.substring_char(1, b).to_owned(),
                            port: None,
                            path: s.substring_char(b + 2, n).to_owned(),
                        };
                    }
                },
                None => {},
            }
        }
        if n >= 3 {
            let c0 = s.get_char(0) as u32;
            let c1 = s.get_char(1);
            let c2 = s.get_char(2);
            if ((65 <= c0 && c0 <= 90) || (97 <= c0 && c0 <= 122)) && c1 == ':' && (c2 == '\\'
                || c2 == '/') {
                return EndpointAddress::Local(s.to_owned());
            }
        }
        match find_first(s, ':') {
            Some(c) => {
                proof {
                    s@.index_of_first_ensures(':');
                }
                if c + 1 < n && (s.get_char(c + 1) == '/' || s.get_char(c + 1) == '~') {
                    let host_part = s.substring_char(0, c);
                    let path = s.substring_char(c + 1, n).to_owned();
                    let m = host_part.unicode_len();
                    match find_first(host_part, '@') {
                        Some(a) => {
                            return EndpointAddress::Ssh {
                                user: Some(host_part.substring_char(0, a).to_owned()),
                                host: host_part.substring_char(a + 1, m).to_owned(),
                                port: None,
                                path,
                            };
                        },
                        None => {
                            return EndpointAddress::Ssh {
                                user: None,
                                host: host_part.to_owned(),
                                port: None,
                                path,
                            };
                        },
                    }
                }
            },
            None => {},
        }
        EndpointAddress::Local(s.to_owned())
    }

    /// What `expand_tilde` produces for a given home directory: only a
    /// local `~` or `~/…` path changes, the home replacing the tilde.
    pub open spec fn expand_tilde_rep(
        e: EndpointAddressView,
        home: Option<Seq<char>>,
    ) -> EndpointAddressView {
        match e {
            EndpointAddressView::Local(p) => {
                if p.len() > 0 && p[0] == '~' {
                    match home {
                        Some(h) => {
                            if p == "~"@ {
                                EndpointAddressView::Local(h)
                            } else if starts_with_seq(p, "~/"@) {
                                if ends_with_seq(h, "/"@) {
                                    EndpointAddressView::Local(h + p.skip(2))
                                } else {
                                    EndpointAddressView::Local(h + p.skip(1))
                                }
                            } else {
                                EndpointAddressView::Local(p)
                            }
                        },
                        None => EndpointAddressView::Local(p),
                    }
                } else {
                    EndpointAddressView::Local(p)
                }
            },
            other => other,
        }
    }

    /// Expand a leading tilde against an explicit home directory. Only
    /// local endpoints change: a remote path's tilde belongs to the remote
    /// shell.
    pub fn expand_tilde_from(self, home: Option<&str>) -> (r: Self)
        ensures
            r@ == Self::expand_tilde_rep(self@, home.deep_view()),
    {
        proof {
            reveal_strlit("~");
            reveal_strlit("~/");
            reveal_strlit("/");
        }
        match self {
            EndpointAddress::Local(p) => {
                let n = p.as_str().unicode_len();
                if n > 0 && p.as_str().get_char(0) == '~' {
                    match home {
                        Some(h) => {
                            if n == 1 {
                                proof {
                                    assert(p@ =~= "~"@);
                                }
                                EndpointAddress::Local(h.to_owned())
                            } else if str_starts_with(p.as_str(), "~/") {
                                let hn = h.unicode_len();
                                let rest = if hn > 0 && h.get_char(hn - 1) == '/' {
                                    p.as_str().substring_char(2, n)
                                } else {
                                    p.as_str().substring_char(1, n)
                                };
                                proof {
                                    if h@.len() > 0 && h@[h@.len() - 1] == '/' {
                                        assert(ends_with_seq(h@, "/"@)) by {
                                            assert(h@.subrange(
                                                h@.len() - 1,
                                                h@.len() as int,
                                            ) =~= "/"@);
                                        }
                                    } else {
                                        assert(!ends_with_seq(h@, "/"@)) by {
                                            if ends_with_seq(h@, "/"@) {
                                                assert(h@.subrange(h@.len() - 1, h@.len() as int)[0]
                                                    == '/');
                                            }
                                        }
                                    }
                                }
                                let mut out = h.to_owned();
                                out.append(rest);
                                EndpointAddress::Local(out)
                            } else {
                                proof {
                                    assert(p@[0] == '~');
                                    assert(p@.len() >= 2);
                                    assert(!starts_with_seq(p@, "~/"@) ==> p@ != "~"@);
                                }
                                EndpointAddress::Local(p)
                            }
                        },
                        None => EndpointAddress::Local(p),
                    }
                } else {
                    EndpointAddress::Local(p)
                }
            },
            other => {
                proof {
                    assert(!(other@ is Local));
                }
                other
            },
        }
    }

    /// Expand a leading tilde in local paths to the user's home directory.
    pub fn expand_tilde(self) -> (r: Self)
        ensures
            exists|home: Option<Seq<char>>|
                r@ == Self::expand_tilde_rep(self@, home),
    {
        let home = home_dir_string();
        match &home {
            Some(h) => {
                let ghost hv = Some(h@);
                let r = self.expand_tilde_from(Some(h.as_str()));
                proof {
                    assert(r@ == Self::expand_tilde_rep(self@, hv));
                }
                r
            },
            None => {
                let ghost hv = None::<Seq<char>>;
                let r = self.expand_tilde_from(None);
                proof {
                    assert(r@ == Self::expand_tilde_rep(self@, hv));
                }
                r
            },
        }
    }

    /// The path component of the endpoint.
    pub open spec fn path_rep(e: EndpointAddressView) -> Seq<char> {
        match e {
            EndpointAddressView::Local(p) => p,
            EndpointAddressView::Ssh { path, .. } => path,
            EndpointAddressView::Docker { path, .. } => path,
        }
    }

    /// The path component of the endpoint.
    pub fn path(&self) -> (r: &str)
        ensures
            r@ == Self::path_rep(self@),
    {
        match self {
            EndpointAddress::Local(p) => p.as_str(),
            EndpointAddress::Ssh { path, .. } => path.as_str(),
            EndpointAddress::Docker { path, .. } => path.as_str(),
        }
    }
}

/// Relies on dirs' `home_dir`: the user's home directory, where the
/// platform reports one whose path is well-formed text. The result depends
/// on the environment, so nothing is promised of it.
#[verifier::external_body]
pub fn home_dir_string() -> Option<String> {
    dirs::home_dir().and_then(|p| p.to_str().map(|s| s.to_string()))
}

} // verus!
