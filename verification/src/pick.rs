//! Device selection: the rule that turns the enumerated devices and the
//! caller's selectors into the index of the device to open. A name query
//! wins when both selectors are given: the first case-insensitive match is
//! tried first, then the explicit ordinal among the usable devices; failing
//! both, the caller falls back to the subsystem's default endpoint.

use vstd::prelude::*;
use vstd::std_specs::iter::IteratorSpec;

verus! {

/// One enumerated device as selection sees it: its name, and whether it
/// answered the capability query for the wanted direction.
#[derive(Debug, Clone)]
pub struct DeviceCandidate {
    pub name: String,
    pub usable: bool,
}

/// What `str::to_lowercase` returns: a function of the characters alone.
pub uninterp spec fn lower_of(s: Seq<char>) -> Seq<char>;

/// Relies on `str::to_lowercase` for case folding; the result depends on
/// the characters alone.
#[verifier::external_body]
fn to_lower(s: &str) -> (r: String)
    ensures
        r@ == lower_of(s@),
{
    s.to_lowercase()
}

/// The characters of a string, in order, collected one by one.
fn chars_of(s: &str) -> (r: Vec<char>)
    ensures
        r@ == s@,
{
    let mut it = s.chars();
    proof {
        vstd::string::axiom_spec_iter(s);
    }
    let mut r: Vec<char> = Vec::new();
    loop
        invariant
            it.obeys_prophetic_iter_laws(),
            it.decrease() is Some,
            r@ + it.remaining() == s@,
        ensures
            r@ == s@,
        decreases it.decrease()->0,
    {
        match it.next() {
            Some(c) => {
                r.push(c);
            },
            None => {
                break;
            },
        }
    }
    r
}

/// `needle` occurs contiguously inside `hay`.
pub open spec fn contains_seq(hay: Seq<char>, needle: Seq<char>) -> bool {
    exists|i: int|
        0 <= i <= hay.len() - needle.len() && #[trigger] hay.subrange(i, i + needle.len())
            == needle
}

/// Contiguous search for `needle` inside `hay`.
fn find_sub(hay: &Vec<char>, needle: &Vec<char>) -> (r: bool)
    ensures
        r == contains_seq(hay@, needle@),
{
    if needle.len() > hay.len() {
        return false;
    }
    if needle.len() == 0 {
        proof {
            assert(hay@.subrange(0, 0 + needle@.len() as int) =~= needle@);
            assert(contains_seq(hay@, needle@));
        }
        return true;
    }
    let mut i: usize = 0;
    while i <= hay.len() - needle.len()
        invariant
            hay@.len() <= usize::MAX,
            1 <= needle@.len() <= hay@.len(),
            i <= hay@.len() - needle@.len() + 1,
            forall|k: int|
                0 <= k < i ==> #[trigger] hay@.subrange(k, k + needle@.len() as int)
                    != needle@,
        decreases hay@.len() - needle@.len() - i + 1,
    {
        let mut j: usize = 0;
        let mut ok = true;
        while j < needle.len() && ok
            invariant
                hay@.len() <= usize::MAX,
                1 <= needle@.len() <= hay@.len(),
                i + needle@.len() <= hay@.len(),
                j <= needle@.len(),
                ok ==> forall|t: int| 0 <= t < j ==> hay@[i + t] == needle@[t],
                !ok ==> hay@.subrange(i as int, i + needle@.len() as int) != needle@,
            decreases needle@.len() - j + (if ok {
                1int
            } else {
                0int
            }),
        {
            if hay[i + j] != needle[j] {
                proof {
                    assert(hay@.subrange(i as int, i + needle@.len() as int)[j as int] == hay@[i
                        + j]);
                }
                ok = false;
            } else {
                j += 1;
            }
        }
        if ok {
            proof {
                assert(hay@.subrange(i as int, i + needle@.len() as int) =~= needle@);
            }
            return true;
        }
        i += 1;
    }
    false
}

/// Index of the `k`-th device, counting from zero, among those that passed
/// the capability filter.
pub open spec fn nth_usable(devs: Seq<DeviceCandidate>, k: int) -> Option<int>
    decreases devs.len(),
{
    if devs.len() == 0 {
        None
    } else if devs[0].usable {
        if k == 0 {
            Some(0)
        } else {
            match nth_usable(devs.skip(1), k - 1) {
                Some(j) => Some(j + 1),
                None => None,
            }
        }
    } else {
        match nth_usable(devs.skip(1), k) {
            Some(j) => Some(j + 1),
            None => None,
        }
    }
}

/// Whether a device matches the case-insensitive name query `q`: it passed
/// the capability filter and its folded name contains the folded query.
pub open spec fn name_matches(d: DeviceCandidate, q: Seq<char>) -> bool {
    d.usable && contains_seq(lower_of(d.name@), lower_of(q))
}

/// Index of the first device matching the name query.
pub open spec fn first_name_match(devs: Seq<DeviceCandidate>, q: Seq<char>) -> Option<int>
    decreases devs.len(),
{
    if devs.len() == 0 {
        None
    } else if name_matches(devs[0], q) {
        Some(0)
    } else {
        match first_name_match(devs.skip(1), q) {
            Some(j) => Some(j + 1),
            None => None,
        }
    }
}

/// How many of the first `j` devices passed the capability filter.
pub open spec fn usable_before(devs: Seq<DeviceCandidate>, j: int) -> int
    decreases j,
{
    if j <= 0 {
        0
    } else {
        usable_before(devs, j - 1) + if devs[j - 1].usable {
            1int
        } else {
            0int
        }
    }
}

/// What an ordinal hit means: the chosen device passed the capability
/// filter and exactly `k` usable devices stand before it.
pub proof fn lemma_nth_usable_meaning(devs: Seq<DeviceCandidate>, k: int, j: int)
    requires
        nth_usable(devs, k) == Some(j),
    ensures
        0 <= j < devs.len(),
        devs[j].usable,
        usable_before(devs, j) == k,
    decreases devs.len(),
{
    if devs.len() != 0 {
        if devs[0].usable && k == 0 {
            assert(usable_before(devs, 0) == 0);
        } else {
            let k2 = if devs[0].usable {
                k - 1
            } else {
                k
            };
            let j2 = choose|j2: int| nth_usable(devs.skip(1), k2) == Some(j2);
            assert(j == j2 + 1);
            lemma_nth_usable_meaning(devs.skip(1), k2, j2);
            assert forall|t: int| 0 <= t <= j2 implies usable_before(devs, t + 1)
                == usable_before(devs.skip(1), t) + (if devs[0].usable {
                1int
            } else {
                0int
            }) by {
                lemma_usable_before_shift(devs, t);
            }
            assert(usable_before(devs, j) == k);
        }
    }
}

/// Counting usable devices commutes with dropping the front entry.
proof fn lemma_usable_before_shift(devs: Seq<DeviceCandidate>, t: int)
    requires
        0 <= t,
        t + 1 <= devs.len(),
    ensures
        usable_before(devs, t + 1) == usable_before(devs.skip(1), t) + (if devs[0].usable {
            1int
        } else {
            0int
        }),
    decreases t,
{
    if t > 0 {
        lemma_usable_before_shift(devs, t - 1);
        assert(devs.skip(1)[t - 1] == devs[t]);
    } else {
        assert(usable_before(devs, 0) == 0);
        assert(usable_before(devs.skip(1), 0) == 0);
    }
}

/// What a name hit means: the chosen device is the first match, and a miss
/// means no device matches.
pub proof fn lemma_first_name_match_meaning(devs: Seq<DeviceCandidate>, q: Seq<char>)
    ensures
        match first_name_match(devs, q) {
            Some(j) => 0 <= j < devs.len() && name_matches(devs[j], q) && (forall|t: int|
                0 <= t < j ==> !name_matches(#[trigger] devs[t], q)),
            None => forall|t: int| 0 <= t < devs.len() ==> !name_matches(#[trigger] devs[t], q),
        },
    decreases devs.len(),
{
    if devs.len() != 0 && !name_matches(devs[0], q) {
        lemma_first_name_match_meaning(devs.skip(1), q);
        assert forall|t: int| 1 <= t < devs.len() implies devs.skip(1)[t - 1] == devs[t] by {}
    }
}

/// The whole selection rule: the name query first, then the ordinal, then
/// nothing.
pub open spec fn pick_spec(
    devs: Seq<DeviceCandidate>,
    name: Option<Seq<char>>,
    index: Option<int>,
) -> Option<int> {
    let by_name = match name {
        Some(q) => first_name_match(devs, q),
        None => None,
    };
    match by_name {
        Some(j) => Some(j),
        None => match index {
            Some(k) => nth_usable(devs, k),
            None => None,
        },
    }
}

/// View of an optional name query as an optional character sequence.
pub open spec fn opt_name_view(s: Option<String>) -> Option<Seq<char>> {
    match s {
        Some(q) => Some(q@),
        None => None,
    }
}

/// View of an optional ordinal as an optional integer.
pub open spec fn opt_index_view(i: Option<usize>) -> Option<int> {
    match i {
        Some(k) => Some(k as int),
        None => None,
    }
}

/// Picks the device to open, or nothing when neither selector matches; the
/// caller then falls back to the subsystem's default endpoint.
pub fn pick_device_index(
    devs: &Vec<DeviceCandidate>,
    name: &Option<String>,
    index: Option<usize>,
) -> (r: Option<usize>)
    ensures
        (match r {
            Some(u) => pick_spec(devs@, opt_name_view(*name), opt_index_view(index)) == Some(
                u as int,
            ),
            None => pick_spec(devs@, opt_name_view(*name), opt_index_view(index)) is None,
        }),
{
    if let Some(q) = name {
        let folded_query = to_lower(q.as_str());
        let qn = chars_of(folded_query.as_str());
        let ghost qv = q@;
        proof {
            assert(devs@.skip(0) =~= devs@);
        }
        let mut pos: usize = 0;
        while pos < devs.len()
            invariant
                opt_name_view(*name) == Some(qv),
                pos <= devs@.len(),
                qn@ == lower_of(qv),
                first_name_match(devs@, qv) == (match first_name_match(
                    devs@.skip(pos as int),
                    qv,
                ) {
                    Some(j) => Some(j + pos),
                    None => None,
                }),
            decreases devs@.len() - pos,
        {
            proof {
                assert(devs@.skip(pos as int)[0] == devs@[pos as int]);
                assert(devs@.skip(pos as int).skip(1) =~= devs@.skip(pos as int + 1));
            }
            if devs[pos].usable {
                let folded_name = to_lower(devs[pos].name.as_str());
                let nc = chars_of(folded_name.as_str());
                if find_sub(&nc, &qn) {
                    proof {
                        assert(nc@ == lower_of(devs@[pos as int].name@));
                        assert(name_matches(devs@[pos as int], qv));
                        assert(first_name_match(devs@.skip(pos as int), qv) == Some(0int));
                        assert(first_name_match(devs@, qv) == Some(pos as int));
                    }
                    return Some(pos);
                }
            }
            pos += 1;
        }
        proof {
            assert(devs@.skip(devs@.len() as int).len() == 0);
        }
    }
    if let Some(idx) = index {
        proof {
            assert(devs@.skip(0) =~= devs@);
        }
        let mut rank: usize = 0;
        let mut pos: usize = 0;
        while pos < devs.len()
            invariant
                opt_index_view(index) == Some(idx as int),
                (opt_name_view(*name) matches Some(qv) ==> first_name_match(devs@, qv) is None),
                pos <= devs@.len(),
                rank <= idx,
                nth_usable(devs@, idx as int) == (match nth_usable(
                    devs@.skip(pos as int),
                    idx - rank,
                ) {
                    Some(j) => Some(j + pos),
                    None => None,
                }),
            decreases devs@.len() - pos,
        {
            proof {
                assert(devs@.skip(pos as int)[0] == devs@[pos as int]);
                assert(devs@.skip(pos as int).skip(1) =~= devs@.skip(pos as int + 1));
            }
            if devs[pos].usable {
                if rank == idx {
                    proof {
                        assert(nth_usable(devs@.skip(pos as int), 0) == Some(0int));
                        assert(nth_usable(devs@, idx as int) == Some(pos as int));
                    }
                    return Some(pos);
                }
                rank += 1;
            }
            pos += 1;
        }
        proof {
            assert(devs@.skip(devs@.len() as int).len() == 0);
        }
    }
    None
}

} // verus!
