//! Relaying a track's audio from where it is streamed: when a stale address
//! is resolved again, and which parts of the upstream answer are passed on.
use crate::text::{same_text, string_from};
use vstd::prelude::*;

verus! {

/// Whether an upstream answer with status `status` is a client error
/// (4xx): then the stored address is dropped and resolved again.
pub fn is_client_error(status: u16) -> (r: bool)
    ensures
        r == (400 <= status && status <= 499),
{
    400 <= status && status <= 499
}

/// Whether the answer to the retry is used in place of the first one: only
/// when it succeeded (2xx, partial content included).
pub fn retry_usable(status: u16) -> (r: bool)
    ensures
        r == ((200 <= status && status <= 299) || status == 206),
{
    (200 <= status && status <= 299) || status == 206
}

/// The status relayed for an upstream status: itself when it is a valid
/// HTTP status (100 to 999), else 200.
pub fn relayed_status(status: u16) -> (r: u16)
    ensures
        r == if 100 <= status && status <= 999 {
            status
        } else {
            200
        },
{
    if 100 <= status && status <= 999 {
        status
    } else {
        200
    }
}

/// The names of the upstream headers that are passed on.
pub open spec fn relayed_name(n: Seq<char>) -> bool {
    n == "content-type"@ || n == "content-length"@ || n == "content-range"@ || n == "accept-ranges"@
}

/// The values of a list of headers.
pub open spec fn header_views(h: Seq<(String, Vec<u8>)>) -> Seq<(Seq<char>, Seq<u8>)> {
    h.map_values(|e: (String, Vec<u8>)| (e.0@, e.1@))
}

/// Whether a header is passed on.
pub open spec fn relayed() -> spec_fn((Seq<char>, Seq<u8>)) -> bool {
    |h: (Seq<char>, Seq<u8>)| relayed_name(h.0)
}

/// The headers relayed from an upstream answer's `headers` (names in lower
/// case): the content type, length and range and the accepted ranges, in
/// the order given, followed by `accept-ranges: bytes` when upstream gave no
/// accepted ranges.
pub fn relayed_headers(headers: &Vec<(String, Vec<u8>)>) -> (r: Vec<(String, Vec<u8>)>)
    ensures
        ({
            let kept = header_views(headers@).filter(relayed());
            let has_ranges = exists|i: int| 0 <= i < headers@.len() && #[trigger] headers@[i].0@ == "accept-ranges"@;
            &&& !has_ranges ==> header_views(r@) == kept.push(("accept-ranges"@, "bytes"@.map_values(|c: char| c as u8)))
            &&& has_ranges ==> header_views(r@) == kept
        }),
{
    let ghost f = relayed();
    let mut r: Vec<(String, Vec<u8>)> = Vec::new();
    let mut has_ranges = false;
    let mut i: usize = 0;
    while i < headers.len()
        invariant
            f == relayed(),
            i <= headers@.len(),
            header_views(r@) == header_views(headers@.take(i as int)).filter(f),
            has_ranges == exists|j: int| 0 <= j < i && #[trigger] headers@[j].0@ == "accept-ranges"@,
        decreases headers@.len() - i,
    {
        proof {
            reveal(Seq::filter);
            assert(header_views(headers@.take(i + 1)).drop_last() =~= header_views(headers@.take(i as int)));
            assert(header_views(headers@.take(i + 1)).last() == (headers@[i as int].0@, headers@[i as int].1@));
        }
        let name = headers[i].0.as_str();
        let ranges = same_text(name, "accept-ranges");
        if same_text(name, "content-type") || same_text(name, "content-length") || same_text(
            name,
            "content-range",
        ) || ranges {
            let ghost before = r@;
            r.push((headers[i].0.clone(), headers[i].1.clone()));
            proof {
                assert(header_views(r@) =~= header_views(before).push((headers@[i as int].0@, headers@[i as int].1@)));
            }
        }
        if ranges {
            has_ranges = true;
        }
        i = i + 1;
    }
    proof {
        assert(headers@.take(headers@.len() as int) =~= headers@);
    }
    if !has_ranges {
        let mut bytes: Vec<u8> = Vec::new();
        bytes.push(98u8);
        bytes.push(121u8);
        bytes.push(116u8);
        bytes.push(101u8);
        bytes.push(115u8);
        assert(bytes@ =~= seq![98u8, 121u8, 116u8, 101u8, 115u8]);
        let ghost before = r@;
        r.push((string_from("accept-ranges"), bytes));
        proof {
            reveal_strlit("bytes");
            assert("bytes"@.map_values(|c: char| c as u8) =~= seq![98u8, 121u8, 116u8, 101u8, 115u8]);
            assert(header_views(r@) =~= header_views(before).push(("accept-ranges"@, "bytes"@.map_values(|c: char| c as u8))));
        }
    }
    r
}

} // verus!
