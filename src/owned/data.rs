//! Discovery and ordering of a record's data files.
//!
//! A record's payload comes from the files of its directory whose name,
//! up to the first dot, is `data`: either one non-indexed file (`data` or
//! `data.<ext>`), or indexed files (`data.<N>.<ext>`) whose indexes run
//! contiguously from the smallest one.
use vstd::prelude::*;

use crate::error::{DataFilesMalformed, Error};
use crate::record::SplittingStrategy;

verus! {

/// The byte of a dot.
pub open spec fn dot() -> u8 {
    46
}

/// The name every data file starts with.
pub open spec fn data_stem() -> Seq<u8> {
    seq![100u8, 97u8, 116u8, 97u8]
}

pub open spec fn is_digit(b: u8) -> bool {
    48 <= b <= 57
}

/// The value of a string of decimal digits.
pub open spec fn digits_value(s: Seq<u8>) -> nat
    decreases s.len(),
{
    if s.len() == 0 {
        0
    } else {
        digits_value(s.drop_last()) * 10 + (s.last() - 48) as nat
    }
}

/// The digits of an index: the text without a leading `+`, if any.
pub open spec fn index_digits(s: Seq<u8>) -> Seq<u8> {
    if s.len() > 0 && s[0] == 43u8 {
        s.drop_first()
    } else {
        s
    }
}

/// How `usize` reads decimal text: an optional `+`, then one or more digits,
/// of a value that fits.
pub open spec fn spec_parse_index(s: Seq<u8>) -> Option<usize> {
    let digits = index_digits(s);
    if digits.len() > 0 && (forall|i: int| 0 <= i < digits.len() ==> is_digit(#[trigger] digits[i]))
        && digits_value(digits) <= usize::MAX {
        Some(digits_value(digits) as usize)
    } else {
        None
    }
}

/// `k` is the position of the first dot in `s`.
pub open spec fn is_first_dot(s: Seq<u8>, k: int) -> bool {
    &&& 0 <= k < s.len()
    &&& s[k] == dot()
    &&& forall|j: int| 0 <= j < k ==> s[j] != dot()
}

/// What a file name says of the file: `None` when it is no data file,
/// `Some(None)` for a non-indexed data file, `Some(Some(n))` for the data
/// file of index `n`.
pub open spec fn spec_classify(name: Seq<u8>) -> Option<Option<usize>> {
    if name == data_stem() {
        Some(None)
    } else if name.len() > 4 && name.subrange(0, 4) == data_stem() && name[4] == dot() {
        let ext = name.subrange(5, name.len() as int);
        if exists|k: int| is_first_dot(ext, k) {
            let k = choose|k: int| is_first_dot(ext, k);
            match spec_parse_index(ext.subrange(0, k)) {
                Some(n) => Some(Some(n)),
                None => Some(None),
            }
        } else {
            Some(None)
        }
    } else {
        None
    }
}

proof fn lemma_digits_value_push(s: Seq<u8>, b: u8)
    ensures
        digits_value(s.push(b)) == digits_value(s) * 10 + (b - 48) as nat,
{
    assert(s.push(b).drop_last() =~= s);
}

/// Reads a decimal index as `usize`'s parsing does.
pub fn parse_index(s: &[u8]) -> (r: Option<usize>)
    ensures
        r == spec_parse_index(s@),
{
    let n = s.len();
    let start: usize = if n > 0 && s[0] == 43u8 { 1 } else { 0 };
    let ghost digits = index_digits(s@);
    assert(digits =~= s@.subrange(start as int, n as int));
    if start == n {
        return None;
    }
    let mut value: usize = 0;
    let mut i: usize = start;
    while i < n
        invariant
            start <= i <= n,
            n == s@.len(),
            digits =~= s@.subrange(start as int, n as int),
            digits == index_digits(s@),
            forall|j: int| start <= j < i ==> is_digit(#[trigger] s@[j]),
            value as nat == digits_value(s@.subrange(start as int, i as int)),
        decreases n - i,
    {
        let b = s[i];
        if b < 48u8 || b > 57u8 {
            assert(!is_digit(digits[i - start]));
            assert(!(forall|j: int| 0 <= j < digits.len() ==> is_digit(#[trigger] digits[j])));
            return None;
        }
        proof {
            lemma_digits_value_push(s@.subrange(start as int, i as int), b);
            assert(s@.subrange(start as int, i + 1) =~= s@.subrange(start as int, i as int).push(b));
        }
        let d: usize = (b - 48u8) as usize;
        match value.checked_mul(10) {
            None => {
                proof {
                    if forall|j: int| 0 <= j < digits.len() ==> is_digit(#[trigger] digits[j]) {
                        lemma_digits_value_prefix_bound(digits, (i - start) as int);
                        assert(digits.subrange(0, i - start) =~= s@.subrange(start as int, i as int));
                    }
                }
                return None;
            },
            Some(v10) => match v10.checked_add(d) {
                None => {
                    proof {
                        if forall|j: int| 0 <= j < digits.len() ==> is_digit(#[trigger] digits[j]) {
                            lemma_digits_value_prefix_bound(digits, (i + 1 - start) as int);
                            assert(digits.subrange(0, i + 1 - start) =~= s@.subrange(start as int, i + 1));
                        }
                    }
                    return None;
                },
                Some(v) => {
                    value = v;
                },
            },
        }
        i = i + 1;
    }
    assert(s@.subrange(start as int, n as int) =~= digits);
    Some(value)
}

/// The value of a digit string is at least ten times that of its prefixes.
proof fn lemma_digits_value_prefix_bound(s: Seq<u8>, k: int)
    requires
        0 <= k <= s.len(),
        forall|i: int| 0 <= i < s.len() ==> is_digit(#[trigger] s[i]),
    ensures
        digits_value(s) >= digits_value(s.subrange(0, k)),
        k < s.len() ==> digits_value(s) >= digits_value(s.subrange(0, k)) * 10,
    decreases s.len() - k,
{
    if k < s.len() {
        let t = s.subrange(0, k + 1);
        assert(t.drop_last() =~= s.subrange(0, k));
        lemma_digits_value_prefix_bound(s, k + 1);
        assert(s.subrange(0, k + 1) =~= t);
    } else {
        assert(s.subrange(0, k) =~= s);
    }
}

/// Tells from a file name whether the file is a data file, and of which index.
pub fn classify_data_file_name(name: &[u8]) -> (r: Option<Option<usize>>)
    ensures
        r == spec_classify(name@),
{
    let n = name.len();
    if n < 4 || name[0] != 100u8 || name[1] != 97u8 || name[2] != 116u8 || name[3] != 97u8 {
        proof {
            if n >= 4 {
                assert(name@.subrange(0, 4)[0] == name@[0]);
                assert(name@.subrange(0, 4)[1] == name@[1]);
                assert(name@.subrange(0, 4)[2] == name@[2]);
                assert(name@.subrange(0, 4)[3] == name@[3]);
            }
            assert(name@ != data_stem()) by {
                if n >= 4 {
                    assert(name@[0] == data_stem()[0] ==> name@[1] == data_stem()[1] ==> name@[2]
                        == data_stem()[2] ==> name@[3] != data_stem()[3]);
                }
            }
        }
        return None;
    }
    assert(name@.subrange(0, 4) =~= data_stem());
    if n == 4 {
        assert(name@ =~= data_stem());
        return Some(None);
    }
    if name[4] != 46u8 {
        return None;
    }
    let ghost ext = name@.subrange(5, n as int);
    let mut k: usize = 5;
    while k < n && name[k] != 46u8
        invariant
            5 <= k <= n,
            n == name@.len(),
            ext == name@.subrange(5, n as int),
            forall|j: int| 5 <= j < k ==> name@[j] != dot(),
        decreases n - k,
    {
        k = k + 1;
    }
    if k == n {
        assert forall|j: int| !is_first_dot(ext, j) by {
            if 0 <= j < ext.len() {
                assert(ext[j] == name@[j + 5]);
            }
        }
        return Some(None);
    }
    assert(is_first_dot(ext, (k - 5) as int));
    assert forall|j: int| is_first_dot(ext, j) implies j == k - 5 by {
        if j < k - 5 {
            assert(ext[j] == name@[j + 5]);
        }
        if j > k - 5 {
            assert(ext[k - 5] == dot());
        }
    }
    let index_text = &name[5..k];
    assert(index_text@ =~= ext.subrange(0, (k - 5) as int));
    match parse_index(index_text) {
        Some(index) => Some(Some(index)),
        None => Some(None),
    }
}

/// Some entry is the data file of index `v`.
pub open spec fn index_present(s: Seq<Option<usize>>, v: int) -> bool {
    exists|i: int| 0 <= i < s.len() && #[trigger] s[i] is Some && s[i].unwrap() == v
}

pub open spec fn all_indexed(s: Seq<Option<usize>>) -> bool {
    forall|i: int| 0 <= i < s.len() ==> #[trigger] s[i] is Some
}

pub open spec fn all_non_indexed(s: Seq<Option<usize>>) -> bool {
    forall|i: int| 0 <= i < s.len() ==> #[trigger] s[i] is None
}

/// Indexed and non-indexed data files side by side.
pub open spec fn mixed_indexing(s: Seq<Option<usize>>) -> bool {
    !all_indexed(s) && !all_non_indexed(s)
}

/// Two entries have index `v`.
pub open spec fn index_duplicated(s: Seq<Option<usize>>, v: usize) -> bool {
    exists|i: int, j: int| 0 <= i < j < s.len() && s[i] == Some(v) && s[j] == Some(v)
}

/// `v` is the smallest index that two entries share.
pub open spec fn is_smallest_duplicate(s: Seq<Option<usize>>, v: usize) -> bool {
    index_duplicated(s, v) && forall|w: usize| index_duplicated(s, w) ==> v <= w
}

/// `m` is the smallest index present.
pub open spec fn is_smallest_index(s: Seq<Option<usize>>, m: usize) -> bool {
    &&& index_present(s, m as int)
    &&& forall|i: int| 0 <= i < s.len() && #[trigger] s[i] is Some ==> m <= s[i].unwrap()
}

/// `v` is the first index missing above the smallest one, below some index
/// that is present.
pub open spec fn is_first_missing(s: Seq<Option<usize>>, v: usize) -> bool {
    &&& !index_present(s, v as int)
    &&& exists|i: int| 0 <= i < s.len() && #[trigger] s[i] is Some && s[i].unwrap() > v
    &&& exists|m: usize| #[trigger] is_smallest_index(s, m) && m < v
        && forall|u: int| m <= u < v ==> index_present(s, u)
}

/// Why the data files of the given kinds are refused, if they are.
pub open spec fn spec_data_files_error(s: Seq<Option<usize>>) -> Option<DataFilesMalformed> {
    if mixed_indexing(s) {
        Some(DataFilesMalformed::MixedIndexing)
    } else if all_non_indexed(s) {
        if s.len() >= 2 {
            Some(DataFilesMalformed::DuplicateNonIndexed)
        } else {
            None
        }
    } else if exists|v: usize| index_duplicated(s, v) {
        Some(DataFilesMalformed::DuplicateIndex { index: choose|v: usize| is_smallest_duplicate(s, v) })
    } else if exists|v: usize| is_first_missing(s, v) {
        Some(DataFilesMalformed::MissingIndex { index: choose|v: usize| is_first_missing(s, v) })
    } else {
        None
    }
}

/// `order` lists every entry once, by index from the smallest on, each one
/// more than the last.
pub open spec fn is_data_file_order(s: Seq<Option<usize>>, order: Seq<usize>) -> bool {
    if all_non_indexed(s) {
        order == Seq::new(s.len(), |i: int| i as usize)
    } else {
        &&& forall|k: int| 0 <= k < order.len() ==> #[trigger] order[k] < s.len()
        &&& forall|k: int| 0 <= k < order.len() ==> s[#[trigger] order[k] as int] is Some && s[order[k] as int].unwrap() == s[order[0] as int].unwrap() + k
        &&& order.len() == s.len()
        &&& order.len() > 0 && is_smallest_index(s, s[order[0] as int].unwrap())
        &&& forall|p: int| 0 <= p < s.len() ==> #[trigger] listed(order, p)
    }
}

/// A list of distinct positions that names every position below `n` has
/// exactly `n` entries.
proof fn lemma_covering_order_len(order: Seq<usize>, n: int)
    requires
        0 <= n,
        forall|k: int| 0 <= k < order.len() ==> #[trigger] order[k] < n,
        forall|j: int, k: int| 0 <= j < k < order.len() ==> order[j] != order[k],
        forall|p: int| 0 <= p < n ==> #[trigger] listed(order, p),
    ensures
        order.len() == n,
{
    let o = order.map_values(|x: usize| x as int);
    assert(o.no_duplicates()) by {
        assert forall|j: int, k: int| 0 <= j < o.len() && 0 <= k < o.len() && j != k implies o[j] != o[k] by {
            if j < k {
                assert(order[j] != order[k]);
            } else {
                assert(order[k] != order[j]);
            }
        }
    }
    o.unique_seq_to_set();
    vstd::set_lib::lemma_int_range(0, n);
    assert(o.to_set() =~= vstd::set_lib::set_int_range(0, n)) by {
        assert forall|p: int| o.to_set().contains(p) implies 0 <= p < n by {
            let k = choose|k: int| 0 <= k < o.len() && o[k] == p;
            assert(order[k] < n);
        }
        assert forall|p: int| 0 <= p < n implies o.to_set().contains(p) by {
            assert(listed(order, p));
            let k = choose|k: int| 0 <= k < order.len() && order[k] == p;
            assert(o[k] == p);
        }
    }
}

/// Position `p` stands in `order`.
pub open spec fn listed(order: Seq<usize>, p: int) -> bool {
    exists|k: int| 0 <= k < order.len() && order[k] == p
}

/// Data files that pass the naming rules are either none at all, a single
/// non-indexed file, or indexed files whose indexes are exactly the run
/// `m, m + 1, ..., m + k - 1` from the smallest index `m`.
pub proof fn lemma_accepted_data_files(s: Seq<Option<usize>>, order: Seq<usize>)
    requires
        spec_data_files_error(s) is None,
        is_data_file_order(s, order),
    ensures
        s.len() == 0 || (s.len() == 1 && s[0] is None) || (all_indexed(s) && exists|m: usize|
            #[trigger] is_smallest_index(s, m) && (forall|k: int| 0 <= k < s.len() ==> #[trigger] index_present(s, m + k))
                && (forall|p: int| 0 <= p < s.len() ==> (#[trigger] s[p]).unwrap() < m + s.len())),
{
    if s.len() > 0 && !all_non_indexed(s) {
        assert(all_indexed(s));
        let m = s[order[0] as int].unwrap();
        assert forall|k: int| 0 <= k < s.len() implies #[trigger] index_present(s, m + k) by {
            assert(s[order[k] as int] is Some);
        }
        assert forall|p: int| 0 <= p < s.len() implies (#[trigger] s[p]).unwrap() < m + s.len() by {
            assert(listed(order, p));
            let k = choose|k: int| 0 <= k < order.len() && order[k] == p;
            assert(s[order[k] as int].unwrap() == m + k);
        }
        assert(is_smallest_index(s, m));
    }
}

fn find_index(s: &Vec<Option<usize>>, target: usize) -> (r: Option<usize>)
    ensures
        match r {
            Some(p) => p < s@.len() && s@[p as int] == Some(target),
            None => !index_present(s@, target as int),
        },
{
    let mut p: usize = 0;
    while p < s.len()
        invariant
            p <= s@.len(),
            forall|q: int| 0 <= q < p ==> s@[q] != Some(target),
        decreases s@.len() - p,
    {
        match s[p] {
            Some(v) => {
                if v == target {
                    return Some(p);
                }
            },
            None => {},
        }
        p = p + 1;
    }
    None
}

fn exists_index_above(s: &Vec<Option<usize>>, bound: usize) -> (r: bool)
    ensures
        r == exists|i: int| 0 <= i < s@.len() && #[trigger] s@[i] is Some && s@[i].unwrap() > bound,
{
    let mut p: usize = 0;
    while p < s.len()
        invariant
            p <= s@.len(),
            forall|q: int| 0 <= q < p ==> !(#[trigger] s@[q] is Some && s@[q].unwrap() > bound),
        decreases s@.len() - p,
    {
        match s[p] {
            Some(v) => {
                if v > bound {
                    return true;
                }
            },
            None => {},
        }
        p = p + 1;
    }
    false
}

fn smallest_duplicate(s: &Vec<Option<usize>>) -> (r: Option<usize>)
    ensures
        match r {
            Some(v) => is_smallest_duplicate(s@, v),
            None => forall|v: usize| !index_duplicated(s@, v),
        },
{
    let n = s.len();
    let mut best: Option<usize> = None;
    let mut i: usize = 0;
    while i < n
        invariant
            n == s@.len(),
            i <= n,
            match best {
                Some(b) => index_duplicated(s@, b),
                None => true,
            },
            forall|a: int, c: int, v: usize| 0 <= a < i && a < c < n && s@[a] == Some(v) && s@[c] == Some(v)
                ==> (best is Some && best.unwrap() <= v),
        decreases n - i,
    {
        let mut j: usize = i + 1;
        while j < n
            invariant
                n == s@.len(),
                i < n,
                i < j <= n,
                match best {
                    Some(b) => index_duplicated(s@, b),
                    None => true,
                },
                forall|a: int, c: int, v: usize| 0 <= a < i && a < c < n && s@[a] == Some(v) && s@[c] == Some(v)
                    ==> (best is Some && best.unwrap() <= v),
                forall|c: int, v: usize| i < c < j && s@[i as int] == Some(v) && s@[c] == Some(v)
                    ==> (best is Some && best.unwrap() <= v),
            decreases n - j,
        {
            match (s[i], s[j]) {
                (Some(a), Some(c)) => {
                    if a == c {
                        let better = match best {
                            Some(b) => a < b,
                            None => true,
                        };
                        if better {
                            best = Some(a);
                        }
                    }
                },
                _ => {},
            }
            j = j + 1;
        }
        i = i + 1;
    }
    best
}

/// Checks the kinds of a directory's data files (as [`classify_data_file_name`]
/// gives them, one entry per data file) against the naming rules, and gives
/// the order in which the files are read: positions into `kinds`.
pub fn order_data_files(kinds: &Vec<Option<usize>>) -> (r: Result<Vec<usize>, DataFilesMalformed>)
    ensures
        match spec_data_files_error(kinds@) {
            Some(e) => r == Err::<Vec<usize>, DataFilesMalformed>(e),
            None => r is Ok && is_data_file_order(kinds@, r->Ok_0@),
        },
{
    let ghost s = kinds@;
    let n = kinds.len();
    if n == 0 {
        let order: Vec<usize> = Vec::new();
        assert(all_non_indexed(s));
        assert(order@ =~= Seq::new(s.len(), |i: int| i as usize));
        return Ok(order);
    }
    // Look for both kinds of entries.
    let mut some_indexed = false;
    let mut some_non_indexed = false;
    let mut p: usize = 0;
    while p < n
        invariant
            n == s.len(),
            s == kinds@,
            p <= n,
            some_indexed == exists|q: int| 0 <= q < p && #[trigger] s[q] is Some,
            some_non_indexed == exists|q: int| 0 <= q < p && #[trigger] s[q] is None,
        decreases n - p,
    {
        match kinds[p] {
            Some(_) => {
                some_indexed = true;
            },
            None => {
                some_non_indexed = true;
            },
        }
        p = p + 1;
    }
    if some_indexed && some_non_indexed {
        return Err(DataFilesMalformed::MixedIndexing);
    }
    if !some_indexed {
        assert(all_non_indexed(s));
        if n >= 2 {
            return Err(DataFilesMalformed::DuplicateNonIndexed);
        }
        let mut order: Vec<usize> = Vec::new();
        order.push(0);
        assert(order@ =~= Seq::new(s.len(), |i: int| i as usize));
        return Ok(order);
    }
    assert(all_indexed(s));
    assert(!all_non_indexed(s)) by {
        assert(s[0] is Some);
    }
    match smallest_duplicate(kinds) {
        Some(v) => {
            proof {
                assert forall|w: usize| is_smallest_duplicate(s, w) implies w == v by {}
            }
            return Err(DataFilesMalformed::DuplicateIndex { index: v });
        },
        None => {},
    }
    // The smallest index.
    let mut first: usize = 0;
    let mut m: usize = match kinds[0] {
        Some(v) => v,
        None => 0,
    };
    let mut q: usize = 1;
    while q < n
        invariant
            n == s.len(),
            s == kinds@,
            all_indexed(s),
            1 <= q <= n,
            first < n,
            s[first as int] == Some(m),
            forall|i: int| 0 <= i < q ==> #[trigger] s[i] is Some && m <= s[i].unwrap(),
        decreases n - q,
    {
        match kinds[q] {
            Some(v) => {
                if v < m {
                    m = v;
                    first = q;
                }
            },
            None => {},
        }
        q = q + 1;
    }
    assert(is_smallest_index(s, m));
    // Follow the indexes upwards from the smallest one.
    let mut order: Vec<usize> = Vec::new();
    order.push(first);
    let mut cur: usize = m;
    loop
        invariant
            n == s.len(),
            s == kinds@,
            all_indexed(s),
            forall|v: usize| !index_duplicated(s, v),
            is_smallest_index(s, m),
            m <= cur,
            order@.len() == cur - m + 1,
            order@[0] == first,
            s[first as int] == Some(m),
            forall|k: int| 0 <= k < order@.len() ==> #[trigger] order@[k] < s.len(),
            forall|k: int| 0 <= k < order@.len() ==> s[#[trigger] order@[k] as int] == Some((m + k) as usize),
        ensures
            m <= cur,
            order@.len() == cur - m + 1,
            order@[0] == first,
            forall|k: int| 0 <= k < order@.len() ==> #[trigger] order@[k] < s.len(),
            forall|k: int| 0 <= k < order@.len() ==> s[#[trigger] order@[k] as int] == Some((m + k) as usize),
            !exists|i: int| 0 <= i < s.len() && #[trigger] s[i] is Some && s[i].unwrap() > cur,
        decreases usize::MAX - cur,
    {
        let above = exists_index_above(kinds, cur);
        if !above {
            break;
        }
        let next = cur + 1;
        match find_index(kinds, next) {
            Some(pos) => {
                order.push(pos);
                cur = next;
            },
            None => {
                proof {
                    assert forall|u: int| m <= u < next implies index_present(s, u) by {
                        let k = u - m;
                        assert(s[order@[k] as int] == Some((m + k) as usize));
                    }
                    assert(is_first_missing(s, next));
                    assert forall|w: usize| is_first_missing(s, w) implies w == next by {
                        let m2 = choose|m2: usize| #[trigger] is_smallest_index(s, m2) && m2 < w
                            && forall|u: int| m2 <= u < w ==> index_present(s, u);
                        assert(m2 == m);
                        if w < next {
                            assert(index_present(s, w as int));
                        }
                        if w > next {
                            assert(index_present(s, next as int));
                        }
                    }
                }
                return Err(DataFilesMalformed::MissingIndex { index: next });
            },
        }
    }
    proof {
        assert forall|w: usize| !is_first_missing(s, w) by {
            if is_first_missing(s, w) {
                let m2 = choose|m2: usize| #[trigger] is_smallest_index(s, m2) && m2 < w
                    && forall|u: int| m2 <= u < w ==> index_present(s, u);
                assert(m2 == m);
                if w <= cur {
                    let k = w - m;
                    assert(s[order@[k] as int] == Some((m + k) as usize));
                }
            }
        }
        assert forall|p: int| 0 <= p < s.len() implies #[trigger] listed(order@, p) by {
            let v = s[p].unwrap();
            assert(m <= v);
            assert(v <= cur);
            let k = v - m;
            let o = order@[k] as int;
            assert(s[o] == Some(v));
            if o != p {
                if o < p {
                    assert(index_duplicated(s, v));
                } else {
                    assert(index_duplicated(s, v));
                }
            }
        }
        assert forall|j: int, k: int| 0 <= j < k < order@.len() implies order@[j] != order@[k] by {
            assert(s[order@[j] as int] == Some((m + j) as usize));
            assert(s[order@[k] as int] == Some((m + k) as usize));
        }
        lemma_covering_order_len(order@, n as int);
    }
    Ok(order)
}

/// The total length of the first `k` files.
pub open spec fn prefix_length(lengths: Seq<usize>, k: int) -> nat
    decreases k,
{
    if k <= 0 {
        0
    } else {
        prefix_length(lengths, k - 1) + lengths[k - 1] as nat
    }
}

/// Where the concatenated data is split into segments: for `Manual`
/// splitting, after each file but the last, at the total length so far; for
/// `Fill` splitting, nowhere given.
pub open spec fn spec_split_points(strategy: SplittingStrategy, lengths: Seq<usize>) -> Option<Seq<usize>> {
    match strategy {
        SplittingStrategy::Fill {} => None,
        SplittingStrategy::Manual {} => Some(
            Seq::new(
                if lengths.len() == 0 { 0 } else { (lengths.len() - 1) as nat },
                |k: int| prefix_length(lengths, k + 1) as usize,
            ),
        ),
    }
}

proof fn lemma_prefix_length_monotone(lengths: Seq<usize>, j: int, k: int)
    requires
        0 <= j <= k <= lengths.len(),
    ensures
        prefix_length(lengths, j) <= prefix_length(lengths, k),
    decreases k - j,
{
    if j < k {
        lemma_prefix_length_monotone(lengths, j, k - 1);
    }
}

/// The segment boundaries of a record whose data files, in reading order,
/// have the given lengths; a record without data files cannot be read.
pub fn split_points(strategy: SplittingStrategy, lengths: &Vec<usize>) -> (r: Result<Option<Vec<usize>>, Error>)
    requires
        prefix_length(lengths@, lengths@.len() as int) <= usize::MAX,
    ensures
        lengths@.len() == 0 ==> r == Err::<Option<Vec<usize>>, Error>(Error::DataFileMissing),
        lengths@.len() > 0 ==> (r matches Ok(points) && match points {
            None => spec_split_points(strategy, lengths@) is None,
            Some(v) => spec_split_points(strategy, lengths@) == Some(v@),
        }),
{
    if lengths.len() == 0 {
        return Err(Error::DataFileMissing);
    }
    Ok(match strategy {
        SplittingStrategy::Fill {} => None,
        SplittingStrategy::Manual {} => {
            let n = lengths.len();
            let mut points: Vec<usize> = Vec::new();
            let mut total: usize = lengths[0];
            assert(prefix_length(lengths@, 1) == prefix_length(lengths@, 0) + lengths@[0] as nat);
            let mut k: usize = 1;
            while k < n
                invariant
                    1 <= k <= n,
                    n == lengths@.len(),
                    prefix_length(lengths@, n as int) <= usize::MAX,
                    total as nat == prefix_length(lengths@, k as int),
                    points@.len() == k - 1,
                    forall|j: int| 0 <= j < k - 1 ==> #[trigger] points@[j] as nat == prefix_length(lengths@, j + 1),
                    forall|j: int| 0 <= j < k - 1 ==> #[trigger] points@[j] == prefix_length(lengths@, j + 1) as usize,
                decreases n - k,
            {
                points.push(total);
                proof {
                    lemma_prefix_length_monotone(lengths@, k + 1, n as int);
                }
                total = total + lengths[k];
                k = k + 1;
            }
            assert(points@ =~= spec_split_points(strategy, lengths@).unwrap());
            Some(points)
        },
    })
}

} // verus!
