use vstd::prelude::*;

use crate::addr::{address_of, parse_address};
use crate::errors::ClassifyError;
use crate::net::{all_wf, in_any_range, is_trusted, IpAddress, NetworkRange};
use crate::text::{lemma_split_on_nonempty, split_on, trim, trim_end, trim_start, white_space};

verus! {

// ---------------------------------------------------------------------------
// The forwarded-for header, as text.

/// The tokens of a forwarded-for header: its comma-separated pieces, each
/// without white space at either end, in the order of the header.
pub open spec fn header_tokens(h: Seq<char>) -> Seq<Seq<char>> {
    split_on(h, ',').map_values(|p: Seq<char>| trim(p))
}

/// `s[lo..hi]` without white space at either end.
fn trimmed(s: &str, lo: usize, hi: usize) -> (r: String)
    requires
        lo <= hi <= s@.len(),
    ensures
        r@ == trim(s@.subrange(lo as int, hi as int)),
{
    let mut a: usize = lo;
    while a < hi && white_space(s.get_char(a))
        invariant
            lo <= a <= hi <= s@.len(),
            trim_start(s@.subrange(lo as int, hi as int)) == trim_start(
                s@.subrange(a as int, hi as int),
            ),
        decreases hi - a,
    {
        assert(s@.subrange(a as int, hi as int).drop_first() =~= s@.subrange(
            a + 1,
            hi as int,
        ));
        a = a + 1;
    }
    assert(trim_start(s@.subrange(a as int, hi as int)) == s@.subrange(a as int, hi as int));
    let mut b: usize = hi;
    while b > a && white_space(s.get_char(b - 1))
        invariant
            lo <= a <= b <= hi <= s@.len(),
            trim_end(s@.subrange(a as int, hi as int)) == trim_end(
                s@.subrange(a as int, b as int),
            ),
        decreases b - a,
    {
        assert(s@.subrange(a as int, b as int).drop_last() =~= s@.subrange(
            a as int,
            b - 1,
        ));
        b = b - 1;
    }
    let piece = s.substring_char(a, b);
    String::from_str(piece)
}

/// Splits a forwarded-for header on commas and trims each piece.
pub fn forwarded_tokens(header: &str) -> (r: Vec<String>)
    ensures
        r@.len() == header_tokens(header@).len(),
        forall|i: int| 0 <= i < r@.len() ==> #[trigger] r@[i]@ == header_tokens(header@)[i],
{
    let n = header.unicode_len();
    let mut parts: Vec<String> = Vec::new();
    let mut start: usize = 0;
    let mut i: usize = 0;
    while i < n
        invariant
            n == header@.len(),
            start <= i <= n,
            split_on(header@.subrange(0, i as int), ',').len() == parts@.len() + 1,
            forall|k: int|
                0 <= k < parts@.len() ==> #[trigger] parts@[k]@ == trim(
                    split_on(header@.subrange(0, i as int), ',')[k],
                ),
            split_on(header@.subrange(0, i as int), ',').last() == header@.subrange(
                start as int,
                i as int,
            ),
        decreases n - i,
    {
        let c = header.get_char(i);
        let ghost before = header@.subrange(0, i as int);
        let ghost after = header@.subrange(0, i + 1);
        assert(after.drop_last() =~= before);
        assert(after.last() == c);
        if c == ',' {
            let piece = trimmed(header, start, i);
            parts.push(piece);
            start = i + 1;
            assert(header@.subrange(start as int, i + 1) =~= Seq::<char>::empty());
        } else {
            assert(header@.subrange(start as int, i + 1) =~= header@.subrange(
                start as int,
                i as int,
            ).push(c));
        }
        i = i + 1;
    }
    let last = trimmed(header, start, n);
    parts.push(last);
    assert(header@.subrange(0, n as int) =~= header@);
    proof {
        lemma_split_on_nonempty(header@, ',');
    }
    parts
}

// ---------------------------------------------------------------------------
// The trace of addresses.

/// The addresses that were read, in the reverse of the order in which they
/// stand: the entries that could not be read are left out.
pub open spec fn reversed_addresses(parsed: Seq<Option<IpAddress>>) -> Seq<IpAddress>
    decreases parsed.len(),
{
    if parsed.len() == 0 {
        Seq::empty()
    } else {
        let rest = reversed_addresses(parsed.drop_first());
        match parsed[0] {
            Some(ip) => rest.push(ip),
            None => rest,
        }
    }
}

/// The trace of a request: the peer address first, where there is one, then
/// the addresses of the forwarded-for header from the last to the first.
pub open spec fn trace_of(peer: Option<IpAddress>, parsed: Seq<Option<IpAddress>>) -> Seq<
    IpAddress,
> {
    match peer {
        Some(p) => seq![p] + reversed_addresses(parsed),
        None => reversed_addresses(parsed),
    }
}

/// Builds the trace of a request from its peer address and the header's
/// tokens as read (`None` for a token that is not an address).
pub fn build_trace(peer: Option<IpAddress>, parsed: &Vec<Option<IpAddress>>) -> (r: Vec<IpAddress>)
    ensures
        r@ == trace_of(peer, parsed@),
{
    let mut trace: Vec<IpAddress> = Vec::new();
    if let Some(p) = peer {
        trace.push(p);
    }
    let ghost head = trace@;
    let mut i: usize = parsed.len();
    assert(parsed@.subrange(i as int, parsed@.len() as int) =~= Seq::<Option<IpAddress>>::empty());
    while i > 0
        invariant
            i <= parsed@.len(),
            head == match peer {
                Some(p) => seq![p],
                None => Seq::<IpAddress>::empty(),
            },
            trace@ == head + reversed_addresses(parsed@.subrange(i as int, parsed@.len() as int)),
        decreases i,
    {
        let ghost tail = parsed@.subrange(i - 1, parsed@.len() as int);
        assert(tail.drop_first() =~= parsed@.subrange(i as int, parsed@.len() as int));
        match parsed[i - 1] {
            Some(ip) => {
                trace.push(ip);
                assert(trace@ =~= head + reversed_addresses(tail));
            },
            None => {},
        }
        i = i - 1;
    }
    assert(parsed@.subrange(0, parsed@.len() as int) =~= parsed@);
    assert(trace@ =~= trace_of(peer, parsed@));
    trace
}

/// What each token of a forwarded-for header reads as: an address, or `None`
/// for a token that is not one.
pub open spec fn header_addresses(h: Seq<char>) -> Seq<Option<IpAddress>> {
    header_tokens(h).map_values(|t: Seq<char>| address_of(t))
}

/// The trace of a request with the given peer address and forwarded-for
/// header: tokens that are not addresses are dropped.
pub open spec fn request_trace(peer: Option<IpAddress>, header: Option<Seq<char>>) -> Seq<IpAddress> {
    trace_of(
        peer,
        match header {
            Some(h) => header_addresses(h),
            None => Seq::empty(),
        },
    )
}

/// The trace of a request: its peer address, where known, then the
/// addresses of its forwarded-for header, where it has one, nearest first.
pub fn trace_ips(peer: Option<IpAddress>, header: Option<&str>) -> (r: Vec<IpAddress>)
    ensures
        r@ == request_trace(peer, match header {
            Some(h) => Some(h@),
            None => None,
        }),
{
    let mut parsed: Vec<Option<IpAddress>> = Vec::new();
    match header {
        Some(h) => {
            let tokens = forwarded_tokens(h);
            let mut i: usize = 0;
            while i < tokens.len()
                invariant
                    i <= tokens@.len(),
                    tokens@.len() == header_tokens(h@).len(),
                    forall|k: int| 0 <= k < tokens@.len() ==> #[trigger] tokens@[k]@ == header_tokens(h@)[k],
                    parsed@.len() == i,
                    forall|k: int| 0 <= k < i ==> #[trigger] parsed@[k] == address_of(header_tokens(h@)[k]),
                decreases tokens@.len() - i,
            {
                parsed.push(parse_address(tokens[i].as_str()));
                i = i + 1;
            }
            assert(parsed@ =~= header_addresses(h@));
        },
        None => {
            assert(parsed@ =~= Seq::<Option<IpAddress>>::empty());
        },
    }
    build_trace(peer, &parsed)
}

/// The header's addresses enter the trace in reverse order: where every
/// token is an address, the trace without a peer is the header read from its
/// end, and with a peer it is the peer followed by the same.
pub proof fn lemma_header_order_reversed(peer: Option<IpAddress>, parsed: Seq<Option<IpAddress>>)
    requires
        forall|i: int| 0 <= i < parsed.len() ==> (#[trigger] parsed[i]) is Some,
    ensures
        reversed_addresses(parsed).len() == parsed.len(),
        forall|i: int|
            0 <= i < parsed.len() ==> #[trigger] reversed_addresses(parsed)[i] == parsed[parsed.len()
                - 1 - i]->0,
        peer is None ==> trace_of(peer, parsed) == reversed_addresses(parsed),
        peer is Some ==> trace_of(peer, parsed) == seq![peer->0] + reversed_addresses(parsed),
    decreases parsed.len(),
{
    if parsed.len() > 0 {
        let rest = parsed.drop_first();
        assert forall|i: int| 0 <= i < rest.len() implies (#[trigger] rest[i]) is Some by {
            assert(rest[i] == parsed[i + 1]);
        }
        lemma_header_order_reversed(peer, rest);
        assert(parsed[0] is Some);
        assert forall|i: int| 0 <= i < parsed.len() implies #[trigger] reversed_addresses(parsed)[i]
            == parsed[parsed.len() - 1 - i]->0 by {
            if i < parsed.len() - 1 {
                assert(reversed_addresses(rest)[i] == rest[rest.len() - 1 - i]->0);
                assert(rest[rest.len() - 1 - i] == parsed[parsed.len() - 1 - i]);
            }
        }
    }
}

// ---------------------------------------------------------------------------
// The client address.

/// The first address of the trace that lies in no trusted range, where there
/// is one.
pub open spec fn first_untrusted(trace: Seq<IpAddress>, trusted: Seq<NetworkRange>) -> Option<
    IpAddress,
>
    decreases trace.len(),
{
    if trace.len() == 0 {
        None
    } else if !is_trusted(trusted, trace[0]) {
        Some(trace[0])
    } else {
        first_untrusted(trace.drop_first(), trusted)
    }
}

/// The message of the error for a trace with no untrusted address.
pub open spec fn no_client_ip_message() -> Seq<char> {
    "Could not determine IP"@
}

/// The client address of a trace: skips the leading addresses that lie in a
/// trusted range and takes the next one, or fails where none is left.
pub fn resolve(trace: &Vec<IpAddress>, trusted: &Vec<NetworkRange>) -> (r: Result<
    IpAddress,
    ClassifyError,
>)
    requires
        all_wf(trusted@),
    ensures
        match r {
            Ok(ip) => first_untrusted(trace@, trusted@) == Some(ip) && !is_trusted(trusted@, ip)
                && trace@.contains(ip),
            Err(e) => first_untrusted(trace@, trusted@) is None && e.view_message()
                == no_client_ip_message(),
        },
{
    let mut i: usize = 0;
    assert(trace@.subrange(0, trace@.len() as int) =~= trace@);
    while i < trace.len()
        invariant
            i <= trace@.len(),
            all_wf(trusted@),
            first_untrusted(trace@, trusted@) == first_untrusted(
                trace@.subrange(i as int, trace@.len() as int),
                trusted@,
            ),
        decreases trace@.len() - i,
    {
        let ip = trace[i];
        let ghost rest = trace@.subrange(i as int, trace@.len() as int);
        if !in_any_range(trusted, ip) {
            proof {
                lemma_first_untrusted_is_untrusted(trace@, trusted@);
            }
            return Ok(ip);
        }
        assert(rest.drop_first() =~= trace@.subrange(i + 1, trace@.len() as int));
        i = i + 1;
    }
    Err(ClassifyError::new("Could not determine IP"))
}

/// Resolution takes the first address of the trace that lies in no trusted
/// range: for every trusted set and trace, it succeeds exactly when some
/// address of the trace is untrusted, and then yields the first such one.
pub proof fn lemma_resolve_takes_first_untrusted(
    trace: Seq<IpAddress>,
    trusted: Seq<NetworkRange>,
)
    ensures
        first_untrusted(trace, trusted) is None <==> (forall|i: int|
            0 <= i < trace.len() ==> is_trusted(trusted, #[trigger] trace[i])),
        forall|i: int|
            0 <= i < trace.len() && !is_trusted(trusted, #[trigger] trace[i]) && (forall|j: int|
                0 <= j < i ==> is_trusted(trusted, #[trigger] trace[j])) ==> first_untrusted(
                trace,
                trusted,
            ) == Some(trace[i]),
    decreases trace.len(),
{
    if trace.len() > 0 {
        let rest = trace.drop_first();
        lemma_resolve_takes_first_untrusted(rest, trusted);
        assert forall|i: int| 0 <= i < rest.len() implies #[trigger] rest[i] == trace[i + 1] by {}
        if is_trusted(trusted, trace[0]) {
            assert forall|i: int|
                0 <= i < trace.len() && !is_trusted(trusted, #[trigger] trace[i]) && (forall|j: int|
                    0 <= j < i ==> is_trusted(trusted, #[trigger] trace[j])) implies first_untrusted(
                trace,
                trusted,
            ) == Some(trace[i]) by {
                assert(i > 0);
                assert(rest[i - 1] == trace[i]);
                assert forall|j: int| 0 <= j < i - 1 implies is_trusted(
                    trusted,
                    #[trigger] rest[j],
                ) by {
                    assert(rest[j] == trace[j + 1]);
                }
            }
            if first_untrusted(trace, trusted) is None {
                assert forall|i: int| 0 <= i < trace.len() implies is_trusted(
                    trusted,
                    #[trigger] trace[i],
                ) by {
                    if i > 0 {
                        assert(rest[i - 1] == trace[i]);
                    }
                }
            }
        }
    }
}

/// An address that resolution yields is one of the trace's and lies in no
/// trusted range: a proxy's address is never taken for the client's.
pub proof fn lemma_first_untrusted_is_untrusted(trace: Seq<IpAddress>, trusted: Seq<NetworkRange>)
    ensures
        first_untrusted(trace, trusted) is Some ==> !is_trusted(
            trusted,
            first_untrusted(trace, trusted)->0,
        ) && trace.contains(first_untrusted(trace, trusted)->0),
    decreases trace.len(),
{
    if trace.len() > 0 && is_trusted(trusted, trace[0]) {
        let rest = trace.drop_first();
        lemma_first_untrusted_is_untrusted(rest, trusted);
        if first_untrusted(rest, trusted) is Some {
            let j = choose|j: int| 0 <= j < rest.len() && rest[j] == first_untrusted(rest, trusted)->0;
            assert(trace[j + 1] == rest[j]);
        }
    } else if trace.len() > 0 {
        assert(trace[0] == trace[0]);
    }
}

/// An empty trace resolves to no address, whatever the trusted set.
pub proof fn lemma_empty_trace_fails(trusted: Seq<NetworkRange>)
    ensures
        first_untrusted(Seq::<IpAddress>::empty(), trusted) is None,
{
}

/// With no trusted range, a trace resolves to its first address, and an
/// empty trace to none.
pub proof fn lemma_no_trusted_takes_first(trace: Seq<IpAddress>)
    ensures
        first_untrusted(trace, Seq::<NetworkRange>::empty()) == if trace.len() > 0 {
            Some(trace[0])
        } else {
            None::<IpAddress>
        },
{
}

} // verus!
