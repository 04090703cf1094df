//! Addresses that a server names, seen from the address that it was reached at.
use vstd::prelude::*;
use vstd::string::*;

use crate::text::{
    begins, chars_of, concat2, concat3, find, find_from, lemma_span_is, span, starts_with,
    text_between, trim_end_matches, trim_start_matches, without_leading, without_trailing,
};

verus! {

/// Where the origin of an address ends whose scheme ends at `i`: at the next slash, or at its end.
pub open spec fn origin_end(base: Seq<char>, i: int) -> int {
    i + 3 + span(base.skip(i + 3), '/')
}

/// An endpoint seen from a base address: an address of its own, a path of the same origin, or a
/// path below the base.
pub open spec fn resolved(base: Seq<char>, endpoint: Seq<char>) -> Seq<char> {
    if begins(endpoint, "http://"@) || begins(endpoint, "https://"@) {
        endpoint
    } else {
        match find(base, "://"@, 0) {
            None => without_trailing(base, '/') + "/"@ + without_leading(endpoint, '/'),
            Some(i) => if begins(endpoint, "/"@) {
                base.take(origin_end(base, i)) + endpoint
            } else {
                without_trailing(base, '/') + "/"@ + endpoint
            },
        }
    }
}

/// An endpoint seen from a base address.
pub fn resolve_url(base: &str, endpoint: &str) -> (r: String)
    ensures
        r@ == resolved(base@, endpoint@),
{
    if starts_with(endpoint, "http://") || starts_with(endpoint, "https://") {
        return endpoint.to_owned();
    }
    let v = chars_of(base);
    let b = trim_end_matches(base, '/');
    match find_from(&v, &chars_of("://"), 0) {
        None => {
            let e = trim_start_matches(endpoint, '/');
            concat3(b.as_str(), "/", e.as_str())
        },
        Some(i) => {
            if starts_with(endpoint, "/") {
                proof {
                    reveal_strlit("://");
                }
                let ghost rest = base@.skip(i + 3);
                let mut n: usize = i + 3;
                while n < v.len() && v[n] != '/'
                    invariant
                        i + 3 <= n <= v@.len(),
                        rest == v@.skip(i + 3),
                        forall|j: int| 0 <= j < n - i - 3 ==> rest[j] != '/',
                    decreases v@.len() - n,
                {
                    n = n + 1;
                }
                proof {
                    lemma_span_is(rest, '/', n - i - 3);
                }
                let origin = text_between(&v, 0, n);
                assert(origin@ =~= base@.take(n as int));
                concat2(origin.as_str(), endpoint)
            } else {
                concat3(b.as_str(), "/", endpoint)
            }
        },
    }
}

/// An endpoint that is an address of its own stands for itself, wherever it was named.
pub proof fn lemma_full_address_stands_for_itself(base: Seq<char>, endpoint: Seq<char>)
    requires
        begins(endpoint, "http://"@) || begins(endpoint, "https://"@),
    ensures
        resolved(base, endpoint) == endpoint,
{
}

} // verus!
