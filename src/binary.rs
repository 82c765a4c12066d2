//! The binary engine: a sliding window of the search pattern's length moves
//! over the bytes one offset at a time; every window that matches is
//! rewritten in place from the replacement pattern.
use vstd::prelude::*;
use crate::hex_pattern::ByteMatcher;

verus! {

/// An in-place write: `bytes` go to the file starting at `offset`.
#[derive(Debug)]
pub struct ByteWrite {
    pub offset: usize,
    pub bytes: Vec<u8>,
}

/// Whether the window of `data` starting at `i` matches `search`: it lies
/// inside the data, and every non-wildcard element equals its byte.
pub open spec fn window_matches(data: Seq<u8>, search: Seq<ByteMatcher>, i: int) -> bool {
    &&& 0 <= i
    &&& i + search.len() <= data.len()
    &&& forall|j: int|
        0 <= j < search.len() ==> (#[trigger] search[j]).is_wildcard || search[j].value == data[i
            + j]
}

/// The offsets below `m` at which `search` matches, in increasing order.
pub open spec fn match_offsets(data: Seq<u8>, search: Seq<ByteMatcher>, m: int) -> Seq<int>
    decreases m,
{
    if m <= 0 {
        seq![]
    } else if window_matches(data, search, m - 1) {
        match_offsets(data, search, m - 1).push(m - 1)
    } else {
        match_offsets(data, search, m - 1)
    }
}

/// Every offset at which `search` matches, in increasing order.
pub open spec fn all_match_offsets(data: Seq<u8>, search: Seq<ByteMatcher>) -> Seq<int> {
    match_offsets(data, search, data.len() - search.len() + 1)
}

/// The bytes written over the window at `i`: the matched bytes, with each
/// position whose replacement element is concrete set to that element.
pub open spec fn replacement_window(data: Seq<u8>, replace: Seq<ByteMatcher>, i: int) -> Seq<u8> {
    Seq::new(
        replace.len(),
        |j: int|
            if replace[j].is_wildcard {
                data[i + j]
            } else {
                replace[j].value
            },
    )
}

/// The writes for the matches below `m`: one per match, in increasing order.
pub open spec fn writes_below(
    data: Seq<u8>,
    search: Seq<ByteMatcher>,
    replace: Seq<ByteMatcher>,
    m: int,
) -> Seq<(int, Seq<u8>)> {
    match_offsets(data, search, m).map_values(|i: int| (i, replacement_window(data, replace, i)))
}

/// The writes the engine plans for `data`: one per match, in increasing order.
pub open spec fn planned_writes(
    data: Seq<u8>,
    search: Seq<ByteMatcher>,
    replace: Seq<ByteMatcher>,
) -> Seq<(int, Seq<u8>)> {
    writes_below(data, search, replace, data.len() - search.len() + 1)
}

pub open spec fn writes_view(ws: Seq<ByteWrite>) -> Seq<(int, Seq<u8>)> {
    ws.map_values(|w: ByteWrite| (w.offset as int, w.bytes@))
}

/// `data` after `bytes` are written over it at `offset`; bytes that would fall
/// past its end are not part of this model, which keeps the length.
pub open spec fn overwrite(data: Seq<u8>, offset: int, bytes: Seq<u8>) -> Seq<u8> {
    Seq::new(
        data.len(),
        |p: int|
            if offset <= p < offset + bytes.len() {
                bytes[p - offset]
            } else {
                data[p]
            },
    )
}

/// `data` after the writes are carried out in order.
pub open spec fn apply_writes(data: Seq<u8>, writes: Seq<(int, Seq<u8>)>) -> Seq<u8>
    decreases writes.len(),
{
    if writes.len() == 0 {
        data
    } else {
        overwrite(apply_writes(data, writes.drop_last()), writes.last().0, writes.last().1)
    }
}

/// The contents of a file after the engine has written every match.
pub open spec fn patched(data: Seq<u8>, search: Seq<ByteMatcher>, replace: Seq<ByteMatcher>) -> Seq<
    u8,
> {
    apply_writes(data, planned_writes(data, search, replace))
}

fn window_matches_at(data: &Vec<u8>, search: &Vec<ByteMatcher>, i: usize) -> (r: bool)
    requires
        i + search@.len() <= data@.len(),
    ensures
        r == window_matches(data@, search@, i as int),
{
    let k = search.len();
    let n = data.len();
    let mut j: usize = 0;
    while j < k
        invariant
            k == search@.len(),
            n == data@.len(),
            i + k <= data@.len(),
            j <= k,
            forall|t: int|
                0 <= t < j ==> (#[trigger] search@[t]).is_wildcard || search@[t].value == data@[i
                    + t],
        decreases k - j,
    {
        let m = search[j];
        if !m.is_wildcard && m.value != data[i + j] {
            return false;
        }
        j = j + 1;
    }
    true
}

fn replacement_window_at(data: &Vec<u8>, replace: &Vec<ByteMatcher>, i: usize) -> (r: Vec<u8>)
    requires
        i + replace@.len() <= data@.len(),
    ensures
        r@ == replacement_window(data@, replace@, i as int),
{
    let k = replace.len();
    let n = data.len();
    let mut w: Vec<u8> = Vec::new();
    let mut j: usize = 0;
    while j < k
        invariant
            k == replace@.len(),
            n == data@.len(),
            i + k <= data@.len(),
            j <= k,
            w@ == replacement_window(data@, replace@, i as int).take(j as int),
        decreases k - j,
    {
        let m = replace[j];
        if m.is_wildcard {
            w.push(data[i + j]);
        } else {
            w.push(m.value);
        }
        assert(w@ =~= replacement_window(data@, replace@, i as int).take(j + 1));
        j = j + 1;
    }
    assert(w@ =~= replacement_window(data@, replace@, i as int));
    w
}

proof fn lemma_writes_step(
    data: Seq<u8>,
    search: Seq<ByteMatcher>,
    replace: Seq<ByteMatcher>,
    m: int,
)
    requires
        m >= 0,
    ensures
        writes_below(data, search, replace, m + 1) == if window_matches(data, search, m) {
            writes_below(data, search, replace, m).push((m, replacement_window(data, replace, m)))
        } else {
            writes_below(data, search, replace, m)
        },
{
    if window_matches(data, search, m) {
        assert(writes_below(data, search, replace, m + 1) =~= writes_below(
            data,
            search,
            replace,
            m,
        ).push((m, replacement_window(data, replace, m))));
    }
}

/// Scans `data` with the sliding window and returns the in-place writes for
/// every match, in increasing order of offset. A window is matched against
/// the original bytes; `data` shorter than the pattern yields no writes.
pub fn scan_binary(data: &Vec<u8>, search: &Vec<ByteMatcher>, replace: &Vec<ByteMatcher>) -> (r:
    Vec<ByteWrite>)
    requires
        search@.len() == replace@.len(),
    ensures
        writes_view(r@) == planned_writes(data@, search@, replace@),
{
    let n = data.len();
    let k = search.len();
    let mut writes: Vec<ByteWrite> = Vec::new();
    if k > n {
        assert(writes_view(writes@) =~= planned_writes(data@, search@, replace@));
        return writes;
    }
    let last = n - k;
    let mut i: usize = 0;
    assert(writes_view(writes@) =~= writes_below(data@, search@, replace@, 0));
    loop
        invariant_except_break
            i <= last,
            writes_view(writes@) == writes_below(data@, search@, replace@, i as int),
        invariant
            n == data@.len(),
            k == search@.len(),
            k == replace@.len(),
            last == n - k,
        ensures
            writes_view(writes@) == writes_below(data@, search@, replace@, last + 1),
        decreases last - i,
    {
        proof {
            lemma_writes_step(data@, search@, replace@, i as int);
        }
        if window_matches_at(data, search, i) {
            let w = replacement_window_at(data, replace, i);
            let ghost before = writes@;
            writes.push(ByteWrite { offset: i, bytes: w });
            assert(writes_view(writes@) =~= writes_view(before).push((i as int, w@)));
        }
        if i == last {
            break;
        }
        i = i + 1;
    }
    writes
}


/// Whether the window at `s` covers offset `p`.
pub open spec fn covers(search: Seq<ByteMatcher>, s: int, p: int) -> bool {
    s <= p < s + search.len()
}

/// The data after the writes for the matches below `m`.
pub open spec fn patched_below(
    data: Seq<u8>,
    search: Seq<ByteMatcher>,
    replace: Seq<ByteMatcher>,
    m: int,
) -> Seq<u8> {
    apply_writes(data, writes_below(data, search, replace, m))
}

proof fn lemma_patched_step(
    data: Seq<u8>,
    search: Seq<ByteMatcher>,
    replace: Seq<ByteMatcher>,
    m: int,
)
    requires
        m >= 0,
    ensures
        patched_below(data, search, replace, m + 1) == if window_matches(data, search, m) {
            overwrite(
                patched_below(data, search, replace, m),
                m,
                replacement_window(data, replace, m),
            )
        } else {
            patched_below(data, search, replace, m)
        },
{
    lemma_writes_step(data, search, replace, m);
    if window_matches(data, search, m) {
        let w = writes_below(data, search, replace, m);
        assert(w.push((m, replacement_window(data, replace, m))).drop_last() =~= w);
    }
}

proof fn lemma_patched_len(
    data: Seq<u8>,
    search: Seq<ByteMatcher>,
    replace: Seq<ByteMatcher>,
    m: int,
)
    ensures
        patched_below(data, search, replace, m).len() == data.len(),
    decreases m,
{
    if m > 0 {
        lemma_patched_len(data, search, replace, m - 1);
        lemma_patched_step(data, search, replace, m - 1);
    } else {
        assert(writes_below(data, search, replace, m) =~= Seq::<(int, Seq<u8>)>::empty());
    }
}

proof fn lemma_patched_uncovered(
    data: Seq<u8>,
    search: Seq<ByteMatcher>,
    replace: Seq<ByteMatcher>,
    m: int,
    p: int,
)
    requires
        search.len() == replace.len(),
        0 <= p < data.len(),
        forall|s: int|
            s < m && #[trigger] window_matches(data, search, s) ==> !covers(search, s, p),
    ensures
        patched_below(data, search, replace, m)[p] == data[p],
    decreases m,
{
    if m > 0 {
        lemma_patched_uncovered(data, search, replace, m - 1, p);
        lemma_patched_step(data, search, replace, m - 1);
        lemma_patched_len(data, search, replace, m - 1);
    } else {
        assert(writes_below(data, search, replace, m) =~= Seq::<(int, Seq<u8>)>::empty());
    }
}

proof fn lemma_patched_wildcard(
    data: Seq<u8>,
    search: Seq<ByteMatcher>,
    replace: Seq<ByteMatcher>,
    m: int,
    s: int,
    p: int,
)
    requires
        search.len() == replace.len(),
        s < m,
        window_matches(data, search, s),
        covers(search, s, p),
        replace[p - s].is_wildcard,
        forall|t: int|
            s < t < m && #[trigger] window_matches(data, search, t) && covers(search, t, p)
                ==> replace[p - t].is_wildcard,
    ensures
        patched_below(data, search, replace, m)[p] == data[p],
    decreases m,
{
    lemma_patched_step(data, search, replace, m - 1);
    lemma_patched_len(data, search, replace, m - 1);
    if s < m - 1 {
        lemma_patched_wildcard(data, search, replace, m - 1, s, p);
    } else {
        assert(replacement_window(data, replace, s)[p - s] == data[p]);
    }
}

proof fn lemma_count_below(data: Seq<u8>, search: Seq<ByteMatcher>, m: int)
    ensures
        Set::new(|i: int| 0 <= i < m && window_matches(data, search, i)).finite(),
        match_offsets(data, search, m).len() == Set::new(
            |i: int| 0 <= i < m && window_matches(data, search, i),
        ).len(),
    decreases m,
{
    let here = Set::new(|i: int| 0 <= i < m && window_matches(data, search, i));
    if m <= 0 {
        assert(here =~= Set::<int>::empty());
    } else {
        let before = Set::new(|i: int| 0 <= i < m - 1 && window_matches(data, search, i));
        lemma_count_below(data, search, m - 1);
        if window_matches(data, search, m - 1) {
            assert(here =~= before.insert(m - 1));
            assert(!before.contains(m - 1));
        } else {
            assert(here =~= before);
        }
    }
}

/// The number of matches is the number of offsets `i` in `0..=n-k` at which
/// every non-wildcard element of the search pattern equals the byte at
/// `i + j`.
pub proof fn lemma_match_count(
    data: Seq<u8>,
    search: Seq<ByteMatcher>,
    replace: Seq<ByteMatcher>,
)
    ensures
        Set::new(
            |i: int| 0 <= i <= data.len() - search.len() && window_matches(data, search, i),
        ).finite(),
        planned_writes(data, search, replace).len() == Set::new(
            |i: int| 0 <= i <= data.len() - search.len() && window_matches(data, search, i),
        ).len(),
{
    let m = data.len() - search.len() + 1;
    lemma_count_below(data, search, m);
    assert(Set::new(
        |i: int| 0 <= i <= data.len() - search.len() && window_matches(data, search, i),
    ) =~= Set::new(|i: int| 0 <= i < m && window_matches(data, search, i)));
}

/// Binary replacement keeps the length of the data, and every byte that no
/// matched window covers.
pub proof fn lemma_outside_windows_kept(
    data: Seq<u8>,
    search: Seq<ByteMatcher>,
    replace: Seq<ByteMatcher>,
    p: int,
)
    requires
        search.len() == replace.len(),
    ensures
        patched(data, search, replace).len() == data.len(),
        0 <= p < data.len() && (forall|s: int| #[trigger]
            window_matches(data, search, s) ==> !covers(search, s, p)) ==> patched(
            data,
            search,
            replace,
        )[p] == data[p],
{
    let m = data.len() - search.len() + 1;
    lemma_patched_len(data, search, replace, m);
    if 0 <= p < data.len() && (forall|s: int| #[trigger]
        window_matches(data, search, s) ==> !covers(search, s, p)) {
        lemma_patched_uncovered(data, search, replace, m, p);
    }
}

/// A wildcard in the replacement pattern keeps the original byte at its
/// offset inside a matched window, unless a later matched window that covers
/// the same offset has a concrete byte there.
pub proof fn lemma_wildcard_keeps_byte(
    data: Seq<u8>,
    search: Seq<ByteMatcher>,
    replace: Seq<ByteMatcher>,
    s: int,
    p: int,
)
    requires
        search.len() == replace.len(),
        window_matches(data, search, s),
        covers(search, s, p),
        replace[p - s].is_wildcard,
        forall|t: int|
            s < t && #[trigger] window_matches(data, search, t) && covers(search, t, p)
                ==> replace[p - t].is_wildcard,
    ensures
        patched(data, search, replace)[p] == data[p],
{
    let m = data.len() - search.len() + 1;
    lemma_patched_wildcard(data, search, replace, m, s, p);
}

} // verus!
