//! The host name of a `Host` header value.

use vstd::prelude::*;
use vstd::string::StrSliceExecFns;

verus! {

/// The text before the first `:`, or all of it where there is none.
pub open spec fn before_colon(h: Seq<char>) -> Seq<char>
    decreases h.len(),
{
    if h.len() == 0 || h[0] == ':' {
        Seq::empty()
    } else {
        seq![h[0]] + before_colon(h.drop_first())
    }
}

proof fn lemma_before_colon(h: Seq<char>, i: int)
    requires
        0 <= i <= h.len(),
        forall|j: int| 0 <= j < i ==> h[j] != ':',
        i == h.len() || h[i] == ':',
    ensures
        before_colon(h) == h.subrange(0, i),
    decreases i,
{
    if i > 0 {
        lemma_before_colon(h.drop_first(), i - 1);
        assert(h.subrange(0, i) =~= seq![h[0]] + h.drop_first().subrange(0, i - 1));
    } else {
        assert(h.subrange(0, i) =~= Seq::<char>::empty());
    }
}

/// The host of a `host[:port]` value, without the port.
pub fn sanitize_port(host: &str) -> (r: String)
    ensures
        r@ == before_colon(host@),
{
    let n = host.unicode_len();
    let mut i: usize = 0;
    while i < n && host.get_char(i) != ':'
        invariant
            n == host@.len(),
            i <= n,
            forall|j: int| 0 <= j < i ==> host@[j] != ':',
        decreases n - i,
    {
        i = i + 1;
    }
    proof {
        lemma_before_colon(host@, i as int);
    }
    host.substring_char(0, i).to_owned()
}

} // verus!
