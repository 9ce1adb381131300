//! Modifier tags in song titles.
//!
//! A title may end in a run of bracketed tags such as `"[as-steep] [as-tag2]"`:
//! each tag is `[as-` followed by one or more alphanumerics and `]`, and each
//! tag may be followed by whitespace. `parse_from_title` extracts the tag
//! bodies of the trailing run, `remove_from_title` cuts the run off and trims
//! the whitespace before it. The run is found at the leftmost position from
//! which it reaches the end of the title.

use vstd::prelude::*;

verus! {

pub open spec fn is_alnum(c: char) -> bool {
    (48 <= c as int && c as int <= 57) || (65 <= c as int && c as int <= 90) || (97
        <= c as int && c as int <= 122)
}

/// The whitespace accepted between tags and trimmed after removal: the
/// characters with the Unicode `White_Space` property.
pub open spec fn is_space(c: char) -> bool {
    ||| c == '\t' || c == '\n' || c == '\u{b}' || c == '\u{c}' || c == '\r' || c == ' '
    ||| c == '\u{85}' || c == '\u{a0}' || c == '\u{1680}'
    ||| ('\u{2000}' <= c && c <= '\u{200a}')
    ||| c == '\u{2028}' || c == '\u{2029}' || c == '\u{202f}' || c == '\u{205f}'
    ||| c == '\u{3000}'
}

/// The first index at or after `i` that does not hold an alphanumeric.
pub open spec fn alnum_run_end(s: Seq<char>, i: int) -> int
    decreases s.len() - i,
{
    if i < 0 || i >= s.len() || !is_alnum(s[i]) {
        i
    } else {
        alnum_run_end(s, i + 1)
    }
}

/// The first index at or after `i` that does not hold whitespace.
pub open spec fn space_run_end(s: Seq<char>, i: int) -> int
    decreases s.len() - i,
{
    if i < 0 || i >= s.len() || !is_space(s[i]) {
        i
    } else {
        space_run_end(s, i + 1)
    }
}

proof fn lemma_alnum_run_end(s: Seq<char>, i: int)
    requires
        0 <= i <= s.len(),
    ensures
        i <= alnum_run_end(s, i) <= s.len(),
    decreases s.len() - i,
{
    if i < s.len() && is_alnum(s[i]) {
        lemma_alnum_run_end(s, i + 1);
    }
}

proof fn lemma_space_run_end(s: Seq<char>, i: int)
    requires
        0 <= i <= s.len(),
    ensures
        i <= space_run_end(s, i) <= s.len(),
    decreases s.len() - i,
{
    if i < s.len() && is_space(s[i]) {
        lemma_space_run_end(s, i + 1);
    }
}

/// Does a run of one or more tags start at `i` and reach the end of `s`?
pub open spec fn is_region_from(s: Seq<char>, i: int) -> bool
    decreases s.len() - i,
    via is_region_from_decreases
{
    &&& 0 <= i
    &&& i + 5 < s.len() + 1
    &&& s[i] == '['
    &&& s[i + 1] == 'a'
    &&& s[i + 2] == 's'
    &&& s[i + 3] == '-'
    &&& ({
        let e = alnum_run_end(s, i + 4);
        &&& e > i + 4
        &&& e < s.len()
        &&& s[e] == ']'
        &&& ({
            let m = space_run_end(s, e + 1);
            m == s.len() || is_region_from(s, m)
        })
    })
}

#[via_fn]
proof fn is_region_from_decreases(s: Seq<char>, i: int) {
    if 0 <= i && i + 5 < s.len() + 1 {
        lemma_alnum_run_end(s, i + 4);
        let e = alnum_run_end(s, i + 4);
        if e + 1 <= s.len() {
            lemma_space_run_end(s, e + 1);
        }
    }
}

/// The tag bodies of the run starting at `i`, in order. Meaningful only
/// where `is_region_from(s, i)` holds.
pub open spec fn tags_from(s: Seq<char>, i: int) -> Seq<Seq<char>>
    decreases s.len() - i,
    via tags_from_decreases
{
    if !is_region_from(s, i) {
        Seq::empty()
    } else {
        let e = alnum_run_end(s, i + 4);
        let m = space_run_end(s, e + 1);
        let head = s.subrange(i + 4, e);
        if m == s.len() {
            seq![head]
        } else {
            seq![head] + tags_from(s, m)
        }
    }
}

#[via_fn]
proof fn tags_from_decreases(s: Seq<char>, i: int) {
    if 0 <= i && i + 5 < s.len() + 1 {
        lemma_alnum_run_end(s, i + 4);
        let e = alnum_run_end(s, i + 4);
        if e + 1 <= s.len() {
            lemma_space_run_end(s, e + 1);
        }
    }
}

/// The length of `s` with trailing whitespace removed.
pub open spec fn trimmed_len(s: Seq<char>) -> int
    decreases s.len(),
{
    if s.len() == 0 {
        0
    } else if is_space(s.last()) {
        trimmed_len(s.drop_last())
    } else {
        s.len() as int
    }
}

fn is_alnum_exec(c: char) -> (r: bool)
    ensures
        r == is_alnum(c),
{
    (c >= '0' && c <= '9') || (c >= 'A' && c <= 'Z') || (c >= 'a' && c <= 'z')
}

fn is_space_exec(c: char) -> (r: bool)
    ensures
        r == is_space(c),
{
    (c == '\t' || c == '\n' || c == '\u{b}' || c == '\u{c}' || c == '\r' || c == ' ')
        || (c == '\u{85}' || c == '\u{a0}' || c == '\u{1680}') || ('\u{2000}' <= c && c
        <= '\u{200a}') || (c == '\u{2028}' || c == '\u{2029}' || c == '\u{202f}' || c
        == '\u{205f}') || c == '\u{3000}'
}

#[verifier::loop_isolation(false)]
fn scan_alnum(cs: &Vec<char>, i: usize) -> (r: usize)
    requires
        i <= cs@.len(),
    ensures
        r as int == alnum_run_end(cs@, i as int),
        i <= r <= cs@.len(),
{
    let mut j: usize = i;
    while j < cs.len() && is_alnum_exec(cs[j])
        invariant
            i <= j <= cs@.len(),
            alnum_run_end(cs@, i as int) == alnum_run_end(cs@, j as int),
        decreases cs@.len() - j,
    {
        j = j + 1;
    }
    j
}

#[verifier::loop_isolation(false)]
fn scan_space(cs: &Vec<char>, i: usize) -> (r: usize)
    requires
        i <= cs@.len(),
    ensures
        r as int == space_run_end(cs@, i as int),
        i <= r <= cs@.len(),
{
    let mut j: usize = i;
    while j < cs.len() && is_space_exec(cs[j])
        invariant
            i <= j <= cs@.len(),
            space_run_end(cs@, i as int) == space_run_end(cs@, j as int),
        decreases cs@.len() - j,
    {
        j = j + 1;
    }
    j
}

/// Parses the tag run starting exactly at `start`, collecting tag bodies.
#[verifier::loop_isolation(false)]
fn check_region(cs: &Vec<char>, start: usize) -> (r: Option<Vec<Vec<char>>>)
    requires
        start < cs@.len(),
    ensures
        r is Some <==> is_region_from(cs@, start as int),
        r matches Some(tags) ==> tags.deep_view() == tags_from(cs@, start as int),
{
    let s = Ghost(cs@);
    let mut acc: Vec<Vec<char>> = Vec::new();
    let mut i: usize = start;
    loop
        invariant
            start <= i < s@.len(),
            // parsing so far pins the answer at `start` to the answer at `i`
            is_region_from(s@, start as int) <==> is_region_from(s@, i as int),
            is_region_from(s@, i as int) ==> tags_from(s@, start as int)
                == acc.deep_view() + tags_from(s@, i as int),
        decreases s@.len() - i,
    {
        if !(cs[i] == '[' && cs.len() - i > 4 && cs[i + 1] == 'a' && cs[i + 2] == 's'
            && cs[i + 3] == '-') {
            return None;
        }
        let e = scan_alnum(cs, i + 4);
        if !(e > i + 4 && e < cs.len() && cs[e] == ']') {
            return None;
        }
        let m = scan_space(cs, e + 1);
        let ghost old_acc = acc.deep_view();
        let mut tag: Vec<char> = Vec::new();
        let mut k: usize = i + 4;
        while k < e
            invariant
                i + 4 <= k <= e,
                e <= s@.len(),
                tag@ == s@.subrange(i + 4, k as int),
            decreases e - k,
        {
            tag.push(cs[k]);
            proof {
                assert(s@.subrange(i + 4, k as int).push(s@[k as int]) =~= s@.subrange(
                    i + 4,
                    k + 1,
                ));
            }
            k = k + 1;
        }
        acc.push(tag);
        proof {
            assert(acc.deep_view() =~~= old_acc.push(s@.subrange(i + 4, e as int)));
        }
        if m == cs.len() {
            proof {
                assert(is_region_from(s@, i as int));
                assert(tags_from(s@, i as int) =~~= seq![s@.subrange(i + 4, e as int)]);
                assert(old_acc + tags_from(s@, i as int) =~~= acc.deep_view());
            }
            return Some(acc);
        }
        proof {
            assert(is_region_from(s@, i as int) <==> is_region_from(s@, m as int));
            if is_region_from(s@, m as int) {
                assert(tags_from(s@, i as int) =~~= seq![s@.subrange(i + 4, e as int)]
                    + tags_from(s@, m as int));
                assert(old_acc + tags_from(s@, i as int) =~~= acc.deep_view() + tags_from(
                    s@,
                    m as int,
                ));
            }
        }
        i = m;
    }
}

/// Finds the leftmost index from which a tag run reaches the end, with its
/// tag bodies.
#[verifier::loop_isolation(false)]
fn find_region(cs: &Vec<char>) -> (r: Option<(usize, Vec<Vec<char>>)>)
    ensures
        match r {
            Some((k, tags)) => is_region_from(cs@, k as int) && tags.deep_view()
                == tags_from(cs@, k as int) && forall|k2: int|
                0 <= k2 < k ==> !is_region_from(cs@, k2),
            None => forall|k2: int| 0 <= k2 ==> !is_region_from(cs@, k2),
        },
{
    let mut k: usize = 0;
    while k < cs.len()
        invariant
            k <= cs@.len(),
            forall|k2: int| 0 <= k2 < k ==> !is_region_from(cs@, k2),
        decreases cs@.len() - k,
    {
        if cs[k] == '[' {
            match check_region(cs, k) {
                Some(tags) => {
                    return Some((k, tags));
                },
                None => {},
            }
        } else {
            proof {
                assert(!is_region_from(cs@, k as int));
            }
        }
        k = k + 1;
    }
    proof {
        assert forall|k2: int| 0 <= k2 implies !is_region_from(cs@, k2) by {
            if k2 >= cs@.len() {
                assert(!is_region_from(cs@, k2));
            }
        }
    }
    None
}

/// Extracts the modifier tags of a title's trailing tag run, in order, or
/// `None` when the title has no such run.
#[verifier::loop_isolation(false)]
pub fn parse_from_title(title: &str) -> (r: Option<Vec<String>>)
    ensures
        match r {
            Some(tags) => parse_region_start(title@) is Some && tags.deep_view()
                == parsed_mods(title@),
            None => parse_region_start(title@) is None && parsed_mods(title@)
                == Seq::<Seq<char>>::empty(),
        },
{
    let cs = crate::strings::chars_vec(title);
    match find_region(&cs) {
        Some((k, tags)) => {
            let mut out: Vec<String> = Vec::new();
            let mut j: usize = 0;
            while j < tags.len()
                invariant
                    j <= tags@.len(),
                    out.deep_view() == tags.deep_view().take(j as int),
                decreases tags@.len() - j,
            {
                let ghost old_out = out.deep_view();
                out.push(crate::strings::string_from_chars(&tags[j]));
                proof {
                    assert(out.deep_view() =~~= old_out.push(tags.deep_view()[j as int]));
                    assert(out.deep_view() =~~= tags.deep_view().take(j + 1));
                }
                j = j + 1;
            }
            proof {
                assert(out.deep_view() =~~= tags.deep_view());
                assert(is_region_from(title@, k as int));
                lemma_region_start_is(title@, k as int);
            }
            Some(out)
        },
        None => {
            proof {
                assert forall|k2: int| !is_region_from(title@, k2) by {
                    if k2 < 0 {
                        assert(!is_region_from(title@, k2));
                    }
                }
            }
            None
        },
    }
}

/// Cuts the trailing tag run off a title and trims the whitespace before it;
/// a title without a tag run comes back unchanged.
#[verifier::loop_isolation(false)]
pub fn remove_from_title(title: &str) -> (r: String)
    ensures
        r@ == bare_title(title@),
{
    let cs = crate::strings::chars_vec(title);
    match find_region(&cs) {
        Some((k, _tags)) => {
            proof {
                lemma_region_start_is(title@, k as int);
                assert(k < cs@.len());
            }
            let mut end: usize = k;
            while end > 0 && is_space_exec(cs[end - 1])
                invariant
                    end <= k,
                    trimmed_len(cs@.take(k as int)) == trimmed_len(cs@.take(end as int)),
                decreases end,
            {
                proof {
                    assert(cs@.take(end as int).drop_last() =~= cs@.take(end - 1));
                }
                end = end - 1;
            }
            proof {
                if end > 0 {
                    assert(trimmed_len(cs@.take(end as int)) == end);
                } else {
                    assert(cs@.take(0).len() == 0);
                    assert(trimmed_len(cs@.take(0)) == 0);
                }
                assert(cs@.take(k as int).take(end as int) =~= cs@.take(end as int));
            }
            let mut out: Vec<char> = Vec::new();
            let mut j: usize = 0;
            while j < end
                invariant
                    j <= end <= cs@.len(),
                    out@ == cs@.take(j as int),
                decreases end - j,
            {
                out.push(cs[j]);
                proof {
                    assert(cs@.take(j as int).push(cs@[j as int]) =~= cs@.take(j + 1));
                }
                j = j + 1;
            }
            crate::strings::string_from_chars(&out)
        },
        None => {
            proof {
                assert forall|k2: int| !is_region_from(title@, k2) by {
                    if k2 < 0 {
                        assert(!is_region_from(title@, k2));
                    }
                }
                assert(parse_region_start(title@) is None);
            }
            let out = crate::strings::string_from_chars(&cs);
            out
        },
    }
}

/// The modifier tags a title carries, in order; a title without a tag run
/// carries none.
pub open spec fn parsed_mods(s: Seq<char>) -> Seq<Seq<char>> {
    match parse_region_start(s) {
        Some(k) => tags_from(s, k),
        None => Seq::empty(),
    }
}

/// The title with its tag run and the whitespace before it removed.
pub open spec fn bare_title(s: Seq<char>) -> Seq<char> {
    match parse_region_start(s) {
        Some(k) => s.take(k).take(trimmed_len(s.take(k))),
        None => s,
    }
}

/// The leftmost index from which a tag run reaches the end of `s`, if any.
pub open spec fn parse_region_start(s: Seq<char>) -> Option<int> {
    if exists|k: int| is_region_from(s, k) {
        Some(region_start_min(s, choose|k: int| is_region_from(s, k)))
    } else {
        None
    }
}

pub open spec fn region_start_min(s: Seq<char>, k: int) -> int
    decreases
            if k >= 0 {
                k
            } else {
                0
            },
{
    if k <= 0 {
        k
    } else if exists|k2: int| 0 <= k2 < k && is_region_from(s, k2) {
        region_start_min(s, choose|k2: int| 0 <= k2 < k && is_region_from(s, k2))
    } else {
        k
    }
}

proof fn lemma_region_start_min(s: Seq<char>, k: int)
    requires
        is_region_from(s, k),
    ensures
        is_region_from(s, region_start_min(s, k)),
        forall|k2: int| k2 < region_start_min(s, k) ==> !is_region_from(s, k2),
    decreases
            if k >= 0 {
                k
            } else {
                0
            },
{
    assert(k >= 0);
    if k == 0 {
        assert forall|k2: int| k2 < 0 implies !is_region_from(s, k2) by {}
    } else if exists|k2: int| 0 <= k2 < k && is_region_from(s, k2) {
        let w = choose|k2: int| 0 <= k2 < k && is_region_from(s, k2);
        lemma_region_start_min(s, w);
    } else {
        assert forall|k2: int| k2 < k implies !is_region_from(s, k2) by {}
    }
}

/// Ties an observed leftmost run start to the spec-level `parse_region_start`.
proof fn lemma_region_start_is(s: Seq<char>, k: int)
    requires
        is_region_from(s, k),
        forall|k2: int| 0 <= k2 < k ==> !is_region_from(s, k2),
    ensures
        parse_region_start(s) == Some(k),
{
    let w = choose|k0: int| is_region_from(s, k0);
    lemma_region_start_min(s, w);
    let m = region_start_min(s, w);
    assert(!(m < k) && !(k < m));
}

} // verus!
