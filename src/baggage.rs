//! The optional `baggage` header: comma-separated `key=value` entries,
//! read best-effort. An entry without `=`, or with an empty key, is
//! skipped on its own; spaces around keys and values are dropped.
use vstd::prelude::*;
use crate::headers::{HeaderMap, lookup};

verus! {

/// The name of the header that carries baggage.
pub const BAGGAGE: &'static str = "baggage";

pub open spec fn baggage_key() -> Seq<char> {
    seq!['b', 'a', 'g', 'g', 'a', 'g', 'e']
}

/// The comma-separated pieces of `s`, empty ones included.
pub open spec fn pieces(s: Seq<char>) -> Seq<Seq<char>>
    decreases s.len(),
{
    if s.len() == 0 {
        seq![Seq::empty()]
    } else {
        let p = pieces(s.drop_last());
        if s.last() == ',' {
            p.push(Seq::empty())
        } else {
            p.update(p.len() - 1, p.last().push(s.last()))
        }
    }
}

pub open spec fn trim_start(s: Seq<char>) -> Seq<char>
    decreases s.len(),
{
    if s.len() > 0 && s[0] == ' ' {
        trim_start(s.drop_first())
    } else {
        s
    }
}

pub open spec fn trim_end(s: Seq<char>) -> Seq<char>
    decreases s.len(),
{
    if s.len() > 0 && s.last() == ' ' {
        trim_end(s.drop_last())
    } else {
        s
    }
}

/// `s` without leading and trailing spaces.
pub open spec fn trim(s: Seq<char>) -> Seq<char> {
    trim_end(trim_start(s))
}

/// `e` is the position of the first `=` in `p`.
pub open spec fn is_first_eq(p: Seq<char>, e: int) -> bool {
    &&& 0 <= e < p.len()
    &&& p[e] == '='
    &&& forall|j: int| 0 <= j < e ==> p[j] != '='
}

/// The key and value of one entry, split at its first `=`; `None` where
/// it has no `=` or its key is empty.
pub open spec fn parse_entry(p: Seq<char>) -> Option<(Seq<char>, Seq<char>)> {
    if exists|e: int| is_first_eq(p, e) {
        let e = choose|e: int| is_first_eq(p, e);
        let k = trim(p.subrange(0, e));
        let v = trim(p.subrange(e + 1, p.len() as int));
        if k.len() > 0 {
            Some((k, v))
        } else {
            None
        }
    } else {
        None
    }
}

/// The entries that parse, in order.
pub open spec fn parse_entries(ps: Seq<Seq<char>>) -> Seq<(Seq<char>, Seq<char>)>
    decreases ps.len(),
{
    if ps.len() == 0 {
        Seq::empty()
    } else {
        match parse_entry(ps.last()) {
            Some(kv) => parse_entries(ps.drop_last()).push(kv),
            None => parse_entries(ps.drop_last()),
        }
    }
}

/// The entries of a baggage header value.
pub open spec fn baggage_of(s: Seq<char>) -> Seq<(Seq<char>, Seq<char>)> {
    parse_entries(pieces(s))
}

pub open spec fn pairs_view(v: Seq<(String, String)>) -> Seq<(Seq<char>, Seq<char>)> {
    v.map_values(|e: (String, String)| (e.0@, e.1@))
}

pub proof fn lemma_pieces_nonempty(s: Seq<char>)
    ensures
        pieces(s).len() >= 1,
    decreases s.len(),
{
    if s.len() > 0 {
        lemma_pieces_nonempty(s.drop_last());
    }
}

/// The bounds of `s[a..b]` without its leading and trailing spaces.
fn trim_range(s: &str, a: usize, b: usize) -> (r: (usize, usize))
    requires
        a <= b <= s@.len(),
    ensures
        a <= r.0 <= r.1 <= b,
        s@.subrange(r.0 as int, r.1 as int) == trim(s@.subrange(a as int, b as int)),
{
    let mut lo = a;
    while lo < b && s.get_char(lo) == ' '
        invariant
            a <= lo <= b <= s@.len(),
            trim_start(s@.subrange(a as int, b as int)) == trim_start(
                s@.subrange(lo as int, b as int),
            ),
        decreases b - lo,
    {
        assert(s@.subrange(lo as int, b as int).drop_first() =~= s@.subrange(lo + 1, b as int));
        lo = lo + 1;
    }
    let ghost t = s@.subrange(lo as int, b as int);
    assert(trim_start(t) == t);
    let mut hi = b;
    while hi > lo && s.get_char(hi - 1) == ' '
        invariant
            lo <= hi <= b <= s@.len(),
            t == s@.subrange(lo as int, b as int),
            trim_end(t) == trim_end(s@.subrange(lo as int, hi as int)),
        decreases hi - lo,
    {
        assert(s@.subrange(lo as int, hi as int).drop_last() =~= s@.subrange(
            lo as int,
            hi - 1,
        ));
        hi = hi - 1;
    }
    (lo, hi)
}

/// Parses the entry `s[a..b]`.
fn parse_piece(s: &str, a: usize, b: usize) -> (r: Option<(String, String)>)
    requires
        a <= b <= s@.len(),
    ensures
        r matches Some(kv) ==> parse_entry(s@.subrange(a as int, b as int)) == Some(
            (kv.0@, kv.1@),
        ),
        r is None ==> parse_entry(s@.subrange(a as int, b as int)) is None,
{
    let ghost p = s@.subrange(a as int, b as int);
    let mut j = a;
    while j < b && s.get_char(j) != '='
        invariant
            a <= j <= b <= s@.len(),
            p == s@.subrange(a as int, b as int),
            forall|k: int| 0 <= k < j - a ==> p[k] != '=',
        decreases b - j,
    {
        j = j + 1;
    }
    if j == b {
        assert(!exists|e: int| is_first_eq(p, e));
        return None;
    }
    let ghost e = (j - a) as int;
    assert(is_first_eq(p, e));
    let ghost c = choose|e: int| is_first_eq(p, e);
    assert(c == e) by {
        if c < e {
            assert(p[c] != '=');
        }
        if c > e {
            assert(p[e] != '=');
        }
    }
    assert(p.subrange(0, e) =~= s@.subrange(a as int, j as int));
    assert(p.subrange(e + 1, p.len() as int) =~= s@.subrange(j + 1, b as int));
    let (klo, khi) = trim_range(s, a, j);
    let (vlo, vhi) = trim_range(s, j + 1, b);
    if klo == khi {
        return None;
    }
    let k = String::from_str(s.substring_char(klo, khi));
    let v = String::from_str(s.substring_char(vlo, vhi));
    Some((k, v))
}

/// The entries of a baggage header value, best-effort.
pub fn decode_baggage_value(s: &str) -> (r: Vec<(String, String)>)
    ensures
        pairs_view(r@) == baggage_of(s@),
{
    let n = s.unicode_len();
    let mut out: Vec<(String, String)> = Vec::new();
    let mut start: usize = 0;
    let mut i: usize = 0;
    assert(s@.subrange(0, 0) =~= Seq::<char>::empty());
    assert(pairs_view(out@) =~= Seq::<(Seq<char>, Seq<char>)>::empty());
    while i < n
        invariant
            n == s@.len(),
            start <= i <= n,
            pieces(s@.subrange(0, i as int)).last() == s@.subrange(start as int, i as int),
            pairs_view(out@) == parse_entries(pieces(s@.subrange(0, i as int)).drop_last()),
        decreases n - i,
    {
        let ghost pre = s@.subrange(0, i as int);
        let ghost nxt = s@.subrange(0, i + 1);
        let ghost p = pieces(pre);
        proof {
            lemma_pieces_nonempty(pre);
            assert(nxt.drop_last() =~= pre);
        }
        let c = s.get_char(i);
        assert(nxt.last() == c);
        if c == ',' {
            let ghost before = out@;
            match parse_piece(s, start, i) {
                Some(kv) => {
                    out.push(kv);
                },
                None => {},
            }
            proof {
                assert(pieces(nxt) == p.push(Seq::<char>::empty()));
                assert(pieces(nxt).drop_last() =~= p);
                assert(p.drop_last().push(p.last()) =~= p);
                assert(pairs_view(out@) =~= parse_entries(p));
            }
            start = i + 1;
            assert(s@.subrange(start as int, i + 1) =~= Seq::<char>::empty());
        } else {
            proof {
                assert(pieces(nxt) == p.update(p.len() - 1, p.last().push(c)));
                assert(pieces(nxt).drop_last() =~= p.drop_last());
                assert(pieces(nxt).last() =~= s@.subrange(start as int, i + 1));
            }
        }
        i = i + 1;
    }
    let ghost all = s@.subrange(0, n as int);
    proof {
        lemma_pieces_nonempty(all);
        assert(all =~= s@);
    }
    match parse_piece(s, start, n) {
        Some(kv) => {
            out.push(kv);
        },
        None => {},
    }
    proof {
        let p = pieces(all);
        assert(p.drop_last().push(p.last()) =~= p);
        assert(pairs_view(out@) =~= parse_entries(p));
    }
    out
}

/// The baggage entries carried by `headers`; none where the header is
/// absent.
pub fn decode_baggage(headers: &HeaderMap) -> (r: Vec<(String, String)>)
    ensures
        pairs_view(r@) == (match lookup(headers@, baggage_key()) {
            Some(v) => baggage_of(v),
            None => Seq::empty(),
        }),
{
    proof {
        reveal_strlit("baggage");
        assert(BAGGAGE@ =~= baggage_key());
    }
    match headers.get(BAGGAGE) {
        Some(v) => decode_baggage_value(v),
        None => {
            let r: Vec<(String, String)> = Vec::new();
            assert(pairs_view(r@) =~= Seq::<(Seq<char>, Seq<char>)>::empty());
            r
        },
    }
}

} // verus!
