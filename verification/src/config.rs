use vstd::prelude::*;
use vstd::string::StrSliceExecFns;
use vstd::string::StringExecFns;

verus! {

/// The process configuration: every value can come from a direct argument or
/// from the process environment; the argument surface itself lives outside
/// the library.
pub struct CliArgs {
    /// Be verbose.
    pub verbose: bool,
    /// Listen address; must include both IP and port, as in `0.0.0.0:2121`,
    /// `127.0.0.1:2121` or `[::]:2121`.
    pub listen: String,
    /// Passive mode port range, as in `2122-2124`.
    pub passive_mode_ports: PortRange,
    /// FTP username.
    pub username: String,
    /// FTP password.
    pub password: String,
    /// URL of the document-ingestion service, as in
    /// `https://paperless.example.com`.
    pub paperless_url: String,
    /// API token for the document-ingestion service.
    pub paperless_api_token: String,
}

/// A decimal digit.
pub open spec fn is_dec_digit(c: char) -> bool {
    '0' <= c && c <= '9'
}

/// The value of a decimal digit.
pub open spec fn digit_val(c: char) -> nat {
    (c as nat - '0' as nat) as nat
}

/// A non-empty run of decimal digits.
pub open spec fn is_dec_seq(s: Seq<char>) -> bool {
    s.len() > 0 && forall|i: int| 0 <= i < s.len() ==> is_dec_digit(s[i])
}

/// The number a run of decimal digits denotes.
pub open spec fn dec_val(s: Seq<char>) -> nat
    decreases s.len(),
{
    if s.len() == 0 {
        0
    } else {
        dec_val(s.drop_last()) * 10 + digit_val(s.last())
    }
}

/// A prefix of a digit run never denotes more than the whole run.
proof fn lemma_dec_val_prefix_le(s: Seq<char>, k: int)
    requires
        0 <= k <= s.len(),
    ensures
        dec_val(s.subrange(0, k)) <= dec_val(s),
    decreases s.len(),
{
    if k == s.len() {
        assert(s.subrange(0, k) =~= s);
    } else {
        let t = s.drop_last();
        assert(t.subrange(0, k) =~= s.subrange(0, k));
        lemma_dec_val_prefix_le(t, k);
    }
}

/// Parses a 16-bit decimal number: defined exactly on the non-empty all-digit
/// strings whose value fits, and rejecting everything else (a sign, even a
/// leading `+`, is not part of the grammar).
pub fn parse_u16(s: &str) -> (r: Option<u16>)
    ensures
        r is Some <==> (is_dec_seq(s@) && dec_val(s@) <= u16::MAX),
        r matches Some(v) ==> v == dec_val(s@),
{
    let n = s.unicode_len();
    if n == 0 {
        return None;
    }
    let mut i: usize = 0;
    let mut acc: u32 = 0;
    proof {
        assert(s@.subrange(0, 0) =~= Seq::<char>::empty());
    }
    while i < n
        invariant
            i <= n,
            n == s@.len(),
            n > 0,
            forall|j: int| 0 <= j < i ==> is_dec_digit(s@[j]),
            acc == dec_val(s@.subrange(0, i as int)),
            acc <= 0xFFFF,
        decreases n - i,
    {
        let c = s.get_char(i);
        if c < '0' || c > '9' {
            return None;
        }
        let d: u32 = (c as u32) - 48;
        let next: u32 = acc * 10 + d;
        proof {
            let pre = s@.subrange(0, i as int + 1);
            assert(pre.drop_last() =~= s@.subrange(0, i as int));
            assert(pre.last() == s@[i as int]);
            assert(dec_val(pre) == next);
        }
        if next > 0xFFFF {
            proof {
                lemma_dec_val_prefix_le(s@, i as int + 1);
            }
            return None;
        }
        acc = next;
        i = i + 1;
    }
    proof {
        assert(s@.subrange(0, n as int) =~= s@);
    }
    Some(acc as u16)
}

/// Both bounds of a passive-mode port range.
#[derive(Debug, Clone, Copy, PartialEq, Eq, Structural)]
pub struct PortRange {
    pub start: u16,
    pub end: u16,
}

/// Why a port-range argument was rejected: not two `-`-separated parts, or a
/// part that is not a 16-bit decimal number.
#[derive(Debug, Clone, Copy, PartialEq, Eq, Structural)]
pub enum PortRangeError {
    Format,
    BadStart,
    BadEnd,
}

impl PortRangeError {
    /// The diagnostic line reported for this rejection.
    pub fn message(&self) -> (r: String)
        ensures
            self is Format ==> r@ == "Wrong format for port range, should be in the format 2222-3333"@,
            self is BadStart ==> r@ == "First number of port range can't be parsed"@,
            self is BadEnd ==> r@ == "Second number of port range can't be parsed"@,
    {
        match self {
            PortRangeError::Format => String::from_str(
                "Wrong format for port range, should be in the format 2222-3333",
            ),
            PortRangeError::BadStart => String::from_str(
                "First number of port range can't be parsed",
            ),
            PortRangeError::BadEnd => String::from_str(
                "Second number of port range can't be parsed",
            ),
        }
    }
}

/// `i` is the position of the one and only `-` in `s`.
pub open spec fn dash_split_at(s: Seq<char>, i: int) -> bool {
    &&& 0 <= i < s.len()
    &&& s[i] == '-'
    &&& forall|j: int| 0 <= j < s.len() && j != i ==> s[j] != '-'
}

/// The bounds left and right of the dash at `i` are both 16-bit decimal
/// numbers.
pub open spec fn port_range_parses_at(s: Seq<char>, i: int) -> bool {
    &&& is_dec_seq(s.subrange(0, i))
    &&& dec_val(s.subrange(0, i)) <= u16::MAX
    &&& is_dec_seq(s.subrange(i + 1, s.len() as int))
    &&& dec_val(s.subrange(i + 1, s.len() as int)) <= u16::MAX
}

/// Parses a passive-mode port range of the shape `2222-3333`: exactly one
/// `-`, with a 16-bit decimal bound on each side. A start above the end is
/// accepted (it denotes an empty range), as is a bound with leading zeros.
pub fn parse_port_range(s: &str) -> (r: Result<PortRange, PortRangeError>)
    ensures
        r is Err ==> (r matches Err(e) && match e {
            PortRangeError::Format => !(exists|i: int| dash_split_at(s@, i)),
            PortRangeError::BadStart => exists|i: int|
                dash_split_at(s@, i) && !(is_dec_seq(s@.subrange(0, i)) && dec_val(
                    s@.subrange(0, i),
                ) <= u16::MAX),
            PortRangeError::BadEnd => exists|i: int|
                dash_split_at(s@, i) && is_dec_seq(s@.subrange(0, i)) && dec_val(
                    s@.subrange(0, i),
                ) <= u16::MAX && !(is_dec_seq(s@.subrange(i + 1, s@.len() as int)) && dec_val(
                    s@.subrange(i + 1, s@.len() as int),
                ) <= u16::MAX),
        }),
        r matches Ok(pr) ==> exists|i: int|
            dash_split_at(s@, i) && port_range_parses_at(s@, i) && pr.start == dec_val(
                s@.subrange(0, i),
            ) && pr.end == dec_val(s@.subrange(i + 1, s@.len() as int)),
        (exists|i: int| dash_split_at(s@, i) && port_range_parses_at(s@, i)) ==> r is Ok,
{
    let n = s.unicode_len();
    let mut i: usize = 0;
    let mut dash: Option<usize> = None;
    while i < n
        invariant
            i <= n,
            n == s@.len(),
            match dash {
                Some(d) => d < i && s@[d as int] == '-' && forall|j: int|
                    0 <= j < i && j != d ==> s@[j] != '-',
                None => forall|j: int| 0 <= j < i ==> s@[j] != '-',
            },
        decreases n - i,
    {
        if s.get_char(i) == '-' {
            match dash {
                Some(dd) => {
                    proof {
                        assert forall|k: int| !dash_split_at(s@, k) by {
                            if 0 <= k < s@.len() {
                                if k != dd {
                                    assert(s@[dd as int] == '-');
                                } else {
                                    assert(s@[i as int] == '-');
                                }
                            }
                        }
                    }
                    return Err(PortRangeError::Format);
                },
                None => {
                    dash = Some(i);
                },
            }
        }
        i = i + 1;
    }
    let d = match dash {
        Some(d) => d,
        None => {
            proof {
                assert forall|k: int| !dash_split_at(s@, k) by {
                    if 0 <= k < s@.len() {
                        assert(s@[k] != '-');
                    }
                }
            }
            return Err(PortRangeError::Format);
        },
    };
    proof {
        assert(dash_split_at(s@, d as int));
    }
    let left = s.substring_char(0, d);
    let right = s.substring_char(d + 1, n);
    let start = match parse_u16(left) {
        Some(v) => v,
        None => {
            return Err(PortRangeError::BadStart);
        },
    };
    let end = match parse_u16(right) {
        Some(v) => v,
        None => {
            return Err(PortRangeError::BadEnd);
        },
    };
    Ok(PortRange { start, end })
}

/// With at most three digits, a digit run denotes at most 999.
proof fn lemma_dec_val_small(s: Seq<char>)
    requires
        forall|i: int| 0 <= i < s.len() ==> is_dec_digit(s[i]),
    ensures
        s.len() == 0 ==> dec_val(s) == 0,
        s.len() <= 1 ==> dec_val(s) <= 9,
        s.len() <= 2 ==> dec_val(s) <= 99,
        s.len() <= 3 ==> dec_val(s) <= 999,
    decreases s.len(),
{
    if s.len() > 0 {
        lemma_dec_val_small(s.drop_last());
    }
}

/// A dotted-quad part: one to three digits, value at most 255, no leading
/// zero unless the part is `0` itself.
pub open spec fn valid_octet(s: Seq<char>) -> bool {
    &&& is_dec_seq(s)
    &&& s.len() <= 3
    &&& dec_val(s) <= 255
    &&& (s.len() > 1 ==> s[0] != '0')
}

/// A port part: a run of digits denoting at most 65535 (leading zeros are
/// accepted).
pub open spec fn valid_port_str(s: Seq<char>) -> bool {
    is_dec_seq(s) && dec_val(s) <= 65535
}

/// `i1 < i2 < i3` are the positions of the only three `.` in `s`, and the
/// four parts they separate are all octets.
pub open spec fn ipv4_split(s: Seq<char>, i1: int, i2: int, i3: int) -> bool {
    &&& 0 <= i1 < i2 < i3 < s.len()
    &&& s[i1] == '.'
    &&& s[i2] == '.'
    &&& s[i3] == '.'
    &&& (forall|j: int| 0 <= j < s.len() && j != i1 && j != i2 && j != i3 ==> s[j] != '.')
    &&& valid_octet(s.subrange(0, i1))
    &&& valid_octet(s.subrange(i1 + 1, i2))
    &&& valid_octet(s.subrange(i2 + 1, i3))
    &&& valid_octet(s.subrange(i3 + 1, s.len() as int))
}

/// A dotted-quad address.
pub open spec fn valid_ipv4(s: Seq<char>) -> bool {
    exists|i1: int, i2: int, i3: int| ipv4_split(s, i1, i2, i3)
}

/// Checks one dotted-quad part.
fn check_octet(seg: &str) -> (r: bool)
    ensures
        r == valid_octet(seg@),
{
    let n = seg.unicode_len();
    if n == 0 || n > 3 {
        return false;
    }
    match parse_u16(seg) {
        None => {
            proof {
                if is_dec_seq(seg@) {
                    lemma_dec_val_small(seg@);
                }
            }
            false
        },
        Some(v) => {
            if v > 255 {
                return false;
            }
            if n > 1 && seg.get_char(0) == '0' {
                return false;
            }
            true
        },
    }
}

/// Checks one port part.
fn check_port(seg: &str) -> (r: bool)
    ensures
        r == valid_port_str(seg@),
{
    parse_u16(seg).is_some()
}

/// Checks a dotted-quad address.
fn check_ipv4(s: &str) -> (r: bool)
    ensures
        r == valid_ipv4(s@),
{
    let n = s.unicode_len();
    let mut i: usize = 0;
    let mut count: usize = 0;
    let mut d1: usize = 0;
    let mut d2: usize = 0;
    let mut d3: usize = 0;
    while i < n
        invariant
            i <= n,
            n == s@.len(),
            count <= 3,
            count >= 1 ==> d1 < i && s@[d1 as int] == '.',
            count >= 2 ==> d1 < d2 < i && s@[d2 as int] == '.',
            count >= 3 ==> d2 < d3 < i && s@[d3 as int] == '.',
            forall|j: int|
                0 <= j < i && s@[j] == '.' ==> ((count >= 1 && j == d1) || (count >= 2 && j == d2)
                    || (count >= 3 && j == d3)),
        decreases n - i,
    {
        if s.get_char(i) == '.' {
            if count == 3 {
                proof {
                    assert forall|i1: int, i2: int, i3: int| !ipv4_split(s@, i1, i2, i3) by {
                        if ipv4_split(s@, i1, i2, i3) {
                            assert(s@[d1 as int] == '.' && s@[d2 as int] == '.' && s@[d3 as int]
                                == '.' && s@[i as int] == '.');
                        }
                    }
                }
                return false;
            }
            if count == 0 {
                d1 = i;
            } else if count == 1 {
                d2 = i;
            } else {
                d3 = i;
            }
            count = count + 1;
        }
        i = i + 1;
    }
    if count != 3 {
        proof {
            assert forall|i1: int, i2: int, i3: int| !ipv4_split(s@, i1, i2, i3) by {
                if ipv4_split(s@, i1, i2, i3) {
                    assert(s@[i1] == '.' && s@[i2] == '.' && s@[i3] == '.');
                }
            }
        }
        return false;
    }
    let a = check_octet(s.substring_char(0, d1));
    let b = check_octet(s.substring_char(d1 + 1, d2));
    let c = check_octet(s.substring_char(d2 + 1, d3));
    let d = check_octet(s.substring_char(d3 + 1, n));
    proof {
        if a && b && c && d {
            assert(ipv4_split(s@, d1 as int, d2 as int, d3 as int));
        } else {
            assert forall|i1: int, i2: int, i3: int| !ipv4_split(s@, i1, i2, i3) by {
                if ipv4_split(s@, i1, i2, i3) {
                    assert(s@[i1] == '.' && s@[i2] == '.' && s@[i3] == '.');
                    assert(i1 == d1 && i2 == d2 && i3 == d3);
                }
            }
        }
    }
    a && b && c && d
}

/// A hexadecimal digit.
pub open spec fn is_hex_digit(c: char) -> bool {
    ('0' <= c && c <= '9') || ('a' <= c && c <= 'f') || ('A' <= c && c <= 'F')
}

/// Scanner state over a bracketed host: `bad` records a character outside
/// the grammar, a digit group longer than four, or three colons in a row;
/// `run` and `crun` are the current digit-run and colon-run lengths;
/// `dcolons` counts completed `::`; `groups` counts the non-empty digit
/// groups.
pub struct HexScan {
    pub bad: bool,
    pub run: int,
    pub crun: int,
    pub dcolons: int,
    pub groups: int,
}

/// One character advances the scanner.
pub open spec fn hex_scan_step(st: HexScan, c: char) -> HexScan {
    if is_hex_digit(c) {
        HexScan {
            bad: st.bad || st.run + 1 > 4,
            run: st.run + 1,
            crun: 0,
            dcolons: st.dcolons,
            groups: if st.run == 0 {
                st.groups + 1
            } else {
                st.groups
            },
        }
    } else if c == ':' {
        HexScan {
            bad: st.bad || st.crun + 1 > 2,
            run: 0,
            crun: st.crun + 1,
            dcolons: if st.crun + 1 == 2 {
                st.dcolons + 1
            } else {
                st.dcolons
            },
            groups: st.groups,
        }
    } else {
        HexScan { bad: true, run: st.run, crun: st.crun, dcolons: st.dcolons, groups: st.groups }
    }
}

/// The scanner run over a whole sequence.
pub open spec fn hex_scan(s: Seq<char>) -> HexScan
    decreases s.len(),
{
    if s.len() == 0 {
        HexScan { bad: false, run: 0, crun: 0, dcolons: 0, groups: 0 }
    } else {
        hex_scan_step(hex_scan(s.drop_last()), s.last())
    }
}

/// The bracketed-host grammar, pure form: hexadecimal groups of one to four
/// digits separated by `:`, either exactly eight groups, or one `::`
/// standing for at least one elided zero group (so at most seven groups
/// remain), with no stray single colon at either end.
pub open spec fn valid_ipv6(s: Seq<char>) -> bool {
    let st = hex_scan(s);
    &&& s.len() >= 2
    &&& !st.bad
    &&& (s[0] == ':' ==> s[1] == ':')
    &&& (s[s.len() - 1] == ':' ==> s[s.len() - 2] == ':')
    &&& st.dcolons <= 1
    &&& (st.dcolons == 0 ==> st.groups == 8)
    &&& (st.dcolons == 1 ==> st.groups <= 7)
}

/// Is this character a hexadecimal digit?
fn hex_digit(c: char) -> (r: bool)
    ensures
        r == is_hex_digit(c),
{
    ('0' <= c && c <= '9') || ('a' <= c && c <= 'f') || ('A' <= c && c <= 'F')
}

/// Runs the host scanner over a whole string. The components of the result
/// are the scanner's fields: the violation flag, the current digit-run and
/// colon-run lengths, the `::` count and the non-empty group count.
fn scan_hex(s: &str) -> (r: (bool, usize, usize, usize, usize))
    ensures
        ({
            let st = hex_scan(s@);
            &&& st.bad == r.0
            &&& st.run == r.1
            &&& st.crun == r.2
            &&& st.dcolons == r.3
            &&& st.groups == r.4
        }),
{
    let n = s.unicode_len();
    let mut i: usize = 0;
    let mut bad = false;
    let mut run: usize = 0;
    let mut crun: usize = 0;
    let mut dcolons: usize = 0;
    let mut groups: usize = 0;
    proof {
        assert(s@.subrange(0, 0) =~= Seq::<char>::empty());
    }
    while i < n
        invariant
            i <= n,
            n == s@.len(),
            run <= i && crun <= i && dcolons <= i && groups <= i,
            hex_scan(s@.subrange(0, i as int)) == (HexScan {
                bad: bad,
                run: run as int,
                crun: crun as int,
                dcolons: dcolons as int,
                groups: groups as int,
            }),
        decreases n - i,
    {
        let c = s.get_char(i);
        proof {
            assert(s@.subrange(0, i as int + 1).drop_last() =~= s@.subrange(0, i as int));
            assert(s@.subrange(0, i as int + 1).last() == s@[i as int]);
        }
        if hex_digit(c) {
            if run + 1 > 4 {
                bad = true;
            }
            if run == 0 {
                groups = groups + 1;
            }
            run = run + 1;
            crun = 0;
        } else if c == ':' {
            if crun + 1 > 2 {
                bad = true;
            }
            if crun + 1 == 2 {
                dcolons = dcolons + 1;
            }
            crun = crun + 1;
            run = 0;
        } else {
            bad = true;
        }
        i = i + 1;
    }
    proof {
        assert(s@.subrange(0, n as int) =~= s@);
    }
    (bad, run, crun, dcolons, groups)
}

/// Checks a host against the pure grammar.
fn check_ipv6(s: &str) -> (r: bool)
    ensures
        r == valid_ipv6(s@),
{
    let n = s.unicode_len();
    let scan = scan_hex(s);
    let bad = scan.0;
    let dcolons = scan.3;
    let groups = scan.4;
    if n < 2 || bad || dcolons > 1 {
        return false;
    }
    if s.get_char(0) == ':' && s.get_char(1) != ':' {
        return false;
    }
    if s.get_char(n - 1) == ':' && s.get_char(n - 2) != ':' {
        return false;
    }
    if dcolons == 0 {
        groups == 8
    } else {
        groups <= 7
    }
}

/// `c` is the position of the last `:` in `s`.
pub open spec fn last_colon_at(s: Seq<char>, c: int) -> bool {
    &&& 0 <= c < s.len()
    &&& s[c] == ':'
    &&& forall|j: int| c < j < s.len() ==> s[j] != ':'
}

/// The head of a host whose last group is written as a dotted quad, the
/// separating `:` included: the same scanner rules, with room left for the
/// two groups the tail stands for (six groups without `::`, at most five
/// with one).
pub open spec fn tail_head_ok(h: Seq<char>) -> bool {
    let st = hex_scan(h);
    &&& h.len() >= 2
    &&& h[h.len() - 1] == ':'
    &&& !st.bad
    &&& (h[0] == ':' ==> h[1] == ':')
    &&& st.dcolons <= 1
    &&& (st.dcolons == 0 ==> st.groups == 6)
    &&& (st.dcolons == 1 ==> st.groups <= 5)
}

/// A host whose last group is an embedded dotted quad (an IPv4-mapped or
/// IPv4-compatible address); the dotted tail stands for two groups.
pub open spec fn valid_ipv6_with_tail(s: Seq<char>) -> bool {
    exists|c: int|
        last_colon_at(s, c) && tail_head_ok(s.subrange(0, c + 1)) && valid_ipv4(
            s.subrange(c + 1, s.len() as int),
        )
}

/// A bracketed host address: the pure form, or one with an embedded dotted
/// quad.
pub open spec fn valid_ipv6_host(s: Seq<char>) -> bool {
    valid_ipv6(s) || valid_ipv6_with_tail(s)
}

/// A numeric zone index, as it may follow `%`: digits denoting at most the
/// largest 32-bit value (leading zeros accepted).
pub open spec fn valid_scope(s: Seq<char>) -> bool {
    is_dec_seq(s) && dec_val(s) <= u32::MAX
}

/// `p` is the position of the first `%` in `s`.
pub open spec fn percent_split_at(s: Seq<char>, p: int) -> bool {
    &&& 0 <= p < s.len()
    &&& s[p] == '%'
    &&& forall|j: int| 0 <= j < p ==> s[j] != '%'
}

/// Everything between the brackets: a host address, optionally followed by
/// `%` and a numeric zone index.
pub open spec fn valid_bracket_host(s: Seq<char>) -> bool {
    ||| ((forall|j: int| 0 <= j < s.len() ==> s[j] != '%') && valid_ipv6_host(s))
    ||| (exists|p: int|
        percent_split_at(s, p) && valid_ipv6_host(s.subrange(0, p)) && valid_scope(
            s.subrange(p + 1, s.len() as int),
        ))
}

/// Checks a numeric zone index.
fn check_scope(seg: &str) -> (r: bool)
    ensures
        r == valid_scope(seg@),
{
    let n = seg.unicode_len();
    if n == 0 {
        return false;
    }
    let mut i: usize = 0;
    let mut acc: u64 = 0;
    proof {
        assert(seg@.subrange(0, 0) =~= Seq::<char>::empty());
    }
    while i < n
        invariant
            i <= n,
            n == seg@.len(),
            n > 0,
            forall|j: int| 0 <= j < i ==> is_dec_digit(seg@[j]),
            acc == dec_val(seg@.subrange(0, i as int)),
            acc <= 0xFFFF_FFFF,
        decreases n - i,
    {
        let c = seg.get_char(i);
        if c < '0' || c > '9' {
            return false;
        }
        let d: u64 = (c as u64) - 48;
        let next: u64 = acc * 10 + d;
        proof {
            let pre = seg@.subrange(0, i as int + 1);
            assert(pre.drop_last() =~= seg@.subrange(0, i as int));
            assert(pre.last() == seg@[i as int]);
            assert(dec_val(pre) == next);
        }
        if next > 0xFFFF_FFFF {
            proof {
                lemma_dec_val_prefix_le(seg@, i as int + 1);
            }
            return false;
        }
        acc = next;
        i = i + 1;
    }
    proof {
        assert(seg@.subrange(0, n as int) =~= seg@);
    }
    true
}

/// Checks the head of an embedded-quad host, the trailing `:` included.
fn check_tail_head(h: &str) -> (r: bool)
    ensures
        r == tail_head_ok(h@),
{
    let n = h.unicode_len();
    let scan = scan_hex(h);
    let bad = scan.0;
    let dcolons = scan.3;
    let groups = scan.4;
    if n < 2 || bad || dcolons > 1 {
        return false;
    }
    if h.get_char(n - 1) != ':' {
        return false;
    }
    if h.get_char(0) == ':' && h.get_char(1) != ':' {
        return false;
    }
    if dcolons == 0 {
        groups == 6
    } else {
        groups <= 5
    }
}

/// Checks a host address, with or without an embedded dotted quad.
fn check_ipv6_host(s: &str) -> (r: bool)
    ensures
        r == valid_ipv6_host(s@),
{
    if check_ipv6(s) {
        return true;
    }
    let n = s.unicode_len();
    let mut i: usize = 0;
    let mut last: Option<usize> = None;
    while i < n
        invariant
            i <= n,
            n == s@.len(),
            match last {
                Some(c) => c < i && s@[c as int] == ':' && forall|j: int|
                    c < j < i ==> s@[j] != ':',
                None => forall|j: int| 0 <= j < i ==> s@[j] != ':',
            },
        decreases n - i,
    {
        if s.get_char(i) == ':' {
            last = Some(i);
        }
        i = i + 1;
    }
    let c = match last {
        Some(c) => c,
        None => {
            proof {
                assert forall|k: int| !last_colon_at(s@, k) by {
                    if 0 <= k < s@.len() {
                        assert(s@[k] != ':');
                    }
                }
            }
            return false;
        },
    };
    proof {
        assert(last_colon_at(s@, c as int));
        assert forall|cc: int| last_colon_at(s@, cc) implies cc == c as int by {
            if cc < c as int {
                assert(s@[c as int] == ':');
            } else if cc > c as int {
                assert(s@[cc] != ':');
            }
        }
    }
    check_tail_head(s.substring_char(0, c + 1)) && check_ipv4(s.substring_char(c + 1, n))
}

/// Checks everything between the brackets.
fn check_bracket_host(s: &str) -> (r: bool)
    ensures
        r == valid_bracket_host(s@),
{
    let n = s.unicode_len();
    let mut i: usize = 0;
    let mut pct: Option<usize> = None;
    while i < n && pct.is_none()
        invariant
            i <= n,
            n == s@.len(),
            match pct {
                Some(p) => p < i && s@[p as int] == '%' && forall|j: int|
                    0 <= j < p ==> s@[j] != '%',
                None => forall|j: int| 0 <= j < i ==> s@[j] != '%',
            },
        decreases n - i,
    {
        if s.get_char(i) == '%' {
            pct = Some(i);
        }
        i = i + 1;
    }
    match pct {
        None => {
            proof {
                assert forall|p: int| !percent_split_at(s@, p) by {
                    if 0 <= p < s@.len() {
                        assert(s@[p] != '%');
                    }
                }
            }
            check_ipv6_host(s)
        },
        Some(p) => {
            proof {
                assert(percent_split_at(s@, p as int));
                assert forall|pp: int| percent_split_at(s@, pp) implies pp == p as int by {
                    if pp < p as int {
                        assert(s@[pp] != '%');
                    } else if pp > p as int {
                        assert(s@[p as int] == '%');
                    }
                }
            }
            let host_ok = check_ipv6_host(s.substring_char(0, p));
            let scope_ok = check_scope(s.substring_char(p + 1, n));
            host_ok && scope_ok
        },
    }
}

/// `i` is the position of the one and only `:` in `s`.
pub open spec fn colon_split_at(s: Seq<char>, i: int) -> bool {
    &&& 0 <= i < s.len()
    &&& s[i] == ':'
    &&& forall|j: int| 0 <= j < s.len() && j != i ==> s[j] != ':'
}

/// A plain listen address: a dotted quad, one `:`, a port.
pub open spec fn valid_plain_addr(s: Seq<char>) -> bool {
    exists|i: int|
        colon_split_at(s, i) && valid_ipv4(s.subrange(0, i)) && valid_port_str(
            s.subrange(i + 1, s.len() as int),
        )
}

/// `j` is the position of the first `]`, and a `:` follows it directly.
pub open spec fn bracket_split_at(s: Seq<char>, j: int) -> bool {
    &&& 0 < j < s.len()
    &&& s[j] == ']'
    &&& (forall|k: int| 0 < k < j ==> s[k] != ']')
    &&& j + 1 < s.len()
    &&& s[j + 1] == ':'
}

/// A bracketed listen address: `[`, a host with an optional zone index, `]`,
/// one `:`, a port.
pub open spec fn valid_bracket_addr(s: Seq<char>) -> bool {
    &&& s.len() > 0
    &&& s[0] == '['
    &&& exists|j: int|
        bracket_split_at(s, j) && valid_bracket_host(s.subrange(1, j)) && valid_port_str(
            s.subrange(j + 2, s.len() as int),
        )
}

/// A listen address must carry both the IP and the port.
pub open spec fn valid_listen_addr(s: Seq<char>) -> bool {
    valid_plain_addr(s) || valid_bracket_addr(s)
}

/// A string that opens with `[` is no plain dotted-quad address.
proof fn lemma_bracket_not_plain(s: Seq<char>)
    requires
        s.len() > 0,
        s[0] == '[',
    ensures
        !valid_plain_addr(s),
{
    if valid_plain_addr(s) {
        let i = choose|i: int|
            colon_split_at(s, i) && valid_ipv4(s.subrange(0, i)) && valid_port_str(
                s.subrange(i + 1, s.len() as int),
            );
        let left = s.subrange(0, i);
        if i == 0 {
            let port = s.subrange(1, s.len() as int);
            assert(is_dec_digit(s[0]) || !valid_port_str(port) || s[0] == ':');
            assert(false);
        } else {
            let (i1, i2, i3) = choose|i1: int, i2: int, i3: int| ipv4_split(left, i1, i2, i3);
            assert(left.subrange(0, i1).len() == i1);
            assert(is_dec_digit(left.subrange(0, i1)[0]));
            assert(left.subrange(0, i1)[0] == s[0]);
            assert(false);
        }
    }
}

/// Validates a listen address: accepted exactly when it is a dotted quad, or
/// a bracketed host (embedded dotted-quad tails and numeric zone indexes
/// included), followed by one `:` and a port. Accepted addresses are
/// returned unchanged; anything else is rejected with the diagnostic line.
pub fn validate_listen_addr(addr: &str) -> (r: Result<String, String>)
    ensures
        valid_listen_addr(addr@) <==> r is Ok,
        r matches Ok(a) ==> a@ == addr@,
        r matches Err(m) ==> m@ == "Invalid listen address '"@ + addr@
            + "'. Must be in format IP:PORT (e.g., 0.0.0.0:2121 or [::]:2121)"@,
{
    let n = addr.unicode_len();
    if n == 0 {
        return Err(invalid_addr_message(addr));
    }
    if addr.get_char(0) == '[' {
        let mut j: usize = 1;
        while j < n && addr.get_char(j) != ']'
            invariant
                1 <= j <= n,
                n == addr@.len(),
                forall|k: int| 0 < k < j ==> addr@[k] != ']',
            decreases n - j,
        {
            j = j + 1;
        }
        if j == n {
            proof {
                lemma_bracket_not_plain(addr@);
                assert forall|jj: int| !bracket_split_at(addr@, jj) by {
                    if 0 < jj < addr@.len() {
                        assert(addr@[jj] != ']');
                    }
                }
            }
            return Err(invalid_addr_message(addr));
        }
        proof {
            lemma_bracket_not_plain(addr@);
            assert forall|jj: int| bracket_split_at(addr@, jj) implies jj == j as int by {
                if jj < j as int {
                    assert(addr@[jj] != ']');
                } else if jj > j as int {
                    assert(addr@[j as int] == ']');
                }
            }
        }
        if j + 1 >= n || addr.get_char(j + 1) != ':' {
            return Err(invalid_addr_message(addr));
        }
        let host_ok = check_bracket_host(addr.substring_char(1, j));
        let port_ok = check_port(addr.substring_char(j + 2, n));
        if host_ok && port_ok {
            proof {
                assert(bracket_split_at(addr@, j as int));
            }
            Ok(addr.to_owned())
        } else {
            Err(invalid_addr_message(addr))
        }
    } else {
        let mut i: usize = 0;
        let mut colon: Option<usize> = None;
        while i < n
            invariant
                i <= n,
                n == addr@.len(),
                n > 0,
                addr@[0] != '[',
                match colon {
                    Some(d) => d < i && addr@[d as int] == ':' && forall|j: int|
                        0 <= j < i && j != d ==> addr@[j] != ':',
                    None => forall|j: int| 0 <= j < i ==> addr@[j] != ':',
                },
            decreases n - i,
        {
            if addr.get_char(i) == ':' {
                match colon {
                    Some(dd) => {
                        proof {
                            assert forall|k: int| !colon_split_at(addr@, k) by {
                                if 0 <= k < addr@.len() {
                                    if k != dd {
                                        assert(addr@[dd as int] == ':');
                                    } else {
                                        assert(addr@[i as int] == ':');
                                    }
                                }
                            }
                        }
                        return Err(invalid_addr_message(addr));
                    },
                    None => {
                        colon = Some(i);
                    },
                }
            }
            i = i + 1;
        }
        let d = match colon {
            Some(d) => d,
            None => {
                proof {
                    assert forall|k: int| !colon_split_at(addr@, k) by {
                        if 0 <= k < addr@.len() {
                            assert(addr@[k] != ':');
                        }
                    }
                }
                return Err(invalid_addr_message(addr));
            },
        };
        proof {
            assert(colon_split_at(addr@, d as int));
        }
        let host_ok = check_ipv4(addr.substring_char(0, d));
        let port_ok = check_port(addr.substring_char(d + 1, n));
        if host_ok && port_ok {
            Ok(addr.to_owned())
        } else {
            Err(invalid_addr_message(addr))
        }
    }
}

/// The diagnostic line for a rejected listen address.
fn invalid_addr_message(addr: &str) -> (r: String)
    ensures
        r@ == "Invalid listen address '"@ + addr@
            + "'. Must be in format IP:PORT (e.g., 0.0.0.0:2121 or [::]:2121)"@,
{
    String::from_str("Invalid listen address '").concat(addr).concat(
        "'. Must be in format IP:PORT (e.g., 0.0.0.0:2121 or [::]:2121)",
    )
}

} // verus!
