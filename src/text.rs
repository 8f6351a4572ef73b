//! Cleaning and joining of extracted track names.
use vstd::prelude::*;

verus! {

/// Whether `char::is_whitespace` holds of a character (the Unicode White_Space
/// property).
pub uninterp spec fn whitespace(c: char) -> bool;

/// Relies on `char::is_whitespace`; its documentation lists space, tab, line
/// feed and carriage return among the White_Space characters.
#[verifier::external_body]
fn is_whitespace(c: char) -> (r: bool)
    ensures
        r == whitespace(c),
        c == ' ' || c == '\t' || c == '\n' || c == '\r' ==> r,
{
    c.is_whitespace()
}

/// `s` without its leading whitespace.
pub open spec fn trim_front(s: Seq<char>) -> Seq<char>
    decreases s.len(),
{
    if s.len() > 0 && whitespace(s[0]) {
        trim_front(s.drop_first())
    } else {
        s
    }
}

/// `s` without its trailing whitespace.
pub open spec fn trim_back(s: Seq<char>) -> Seq<char>
    decreases s.len(),
{
    if s.len() > 0 && whitespace(s.last()) {
        trim_back(s.drop_last())
    } else {
        s
    }
}

/// `s` without the line feeds it holds.
pub open spec fn drop_newlines(s: Seq<char>) -> Seq<char>
    decreases s.len(),
{
    if s.len() == 0 {
        s
    } else if s.last() == '\n' {
        drop_newlines(s.drop_last())
    } else {
        drop_newlines(s.drop_last()).push(s.last())
    }
}

/// A track name as it is written out: line feeds removed, then trimmed at both
/// ends. Line feeds are whitespace, so this is also the name trimmed first and
/// then cleared of the line feeds inside it.
pub open spec fn normalized(s: Seq<char>) -> Seq<char> {
    trim_back(trim_front(drop_newlines(s)))
}

/// The separator between track names in an output record.
pub const SEPARATOR: &'static str = ", ";

/// `parts` joined with `sep` between each two neighbours.
pub open spec fn joined(parts: Seq<Seq<char>>, sep: Seq<char>) -> Seq<char>
    decreases parts.len(),
{
    if parts.len() == 0 {
        Seq::empty()
    } else if parts.len() == 1 {
        parts[0]
    } else {
        joined(parts.drop_last(), sep) + sep + parts.last()
    }
}


proof fn lemma_trim_front_skip(s: Seq<char>, i: int)
    requires
        0 <= i < s.len(),
        whitespace(s[i]),
    ensures
        trim_front(s.subrange(i, s.len() as int)) == trim_front(s.subrange(i + 1, s.len() as int)),
{
    let t = s.subrange(i, s.len() as int);
    assert(t.drop_first() =~= s.subrange(i + 1, s.len() as int));
}

proof fn lemma_trim_back_skip(s: Seq<char>, j: int)
    requires
        0 < j <= s.len(),
        whitespace(s[j - 1]),
    ensures
        trim_back(s.subrange(0, j)) == trim_back(s.subrange(0, j - 1)),
{
    let t = s.subrange(0, j);
    assert(t.drop_last() =~= s.subrange(0, j - 1));
}

/// Removes the line feeds from a track name, then trims whitespace from both
/// ends of what is left.
pub fn normalize_track(s: &str) -> (r: String)
    ensures
        r@ == normalized(s@),
{
    let n = s.unicode_len();
    let mut d = String::new();
    let mut k: usize = 0;
    while k < n
        invariant
            n == s@.len(),
            k <= n,
            d@ == drop_newlines(s@.subrange(0, k as int)),
        decreases n - k,
    {
        let c = s.get_char(k);
        proof {
            assert(s@.subrange(0, k + 1).drop_last() =~= s@.subrange(0, k as int));
        }
        if c != '\n' {
            let piece = s.substring_char(k, k + 1);
            proof {
                assert(piece@ =~= seq![c]);
            }
            d.append(piece);
        }
        k = k + 1;
        proof {
            assert(d@ =~= drop_newlines(s@.subrange(0, k as int)));
        }
    }
    assert(s@.subrange(0, n as int) =~= s@);
    let ghost dropped = d@;
    let t = d.as_str();
    let m = t.unicode_len();
    let mut i: usize = 0;
    assert(t@.subrange(0, m as int) =~= t@);
    while i < m && is_whitespace(t.get_char(i))
        invariant
            t@ == dropped,
            m == t@.len(),
            i <= m,
            trim_front(t@) == trim_front(t@.subrange(i as int, m as int)),
        decreases m - i,
    {
        proof {
            lemma_trim_front_skip(t@, i as int);
        }
        i = i + 1;
    }
    let ghost front = t@.subrange(i as int, m as int);
    proof {
        if i < m {
            assert(!whitespace(front[0]));
        } else {
            assert(front.len() == 0);
        }
    }
    let mut j: usize = m;
    assert(front.subrange(0, m - i) =~= front);
    while j > i && is_whitespace(t.get_char(j - 1))
        invariant
            m == t@.len(),
            i <= j <= m,
            front == t@.subrange(i as int, m as int),
            trim_back(front) == trim_back(t@.subrange(i as int, j as int)),
        decreases j,
    {
        proof {
            lemma_trim_back_skip(front, j - i);
            assert(front.subrange(0, j - i) =~= t@.subrange(i as int, j as int));
            assert(front.subrange(0, j - i - 1) =~= t@.subrange(i as int, j - 1));
        }
        j = j - 1;
    }
    let ghost kept = t@.subrange(i as int, j as int);
    proof {
        if j > i {
            assert(!whitespace(kept.last()));
        } else {
            assert(kept.len() == 0);
        }
        assert(trim_back(kept) == kept);
        assert(trim_front(front) == front);
        assert(dropped == drop_newlines(s@));
    }
    String::from_str(t.substring_char(i, j))
}

/// The views of a sequence of strings.
pub open spec fn views(v: Seq<String>) -> Seq<Seq<char>> {
    v.map_values(|p: String| p@)
}

/// The track column of an output record: each name normalized, then all joined
/// with the separator.
pub open spec fn track_field(names: Seq<Seq<char>>) -> Seq<char> {
    joined(names.map_values(|n: Seq<char>| normalized(n)), SEPARATOR@)
}

/// Normalizes each track name and joins them, in order, with `", "`.
pub fn join_tracks(names: &Vec<String>) -> (r: String)
    ensures
        r@ == track_field(views(names@)),
{
    let mut r = String::new();
    let mut idx: usize = 0;
    while idx < names.len()
        invariant
            idx <= names@.len(),
            r@ == track_field(views(names@.subrange(0, idx as int))),
        decreases names@.len() - idx,
    {
        let name = normalize_track(names[idx].as_str());
        proof {
            let prev = views(names@.subrange(0, idx as int)).map_values(|n: Seq<char>| normalized(n));
            let next = views(names@.subrange(0, idx + 1)).map_values(|n: Seq<char>| normalized(n));
            assert(next.drop_last() =~= prev);
            assert(next.last() == name@);
        }
        if idx > 0 {
            r.append(SEPARATOR);
        }
        r.append(name.as_str());
        idx = idx + 1;
    }
    assert(names@.subrange(0, names@.len() as int) =~= names@);
    r
}

/// Between the track names of one record stands exactly `", "`: one more name
/// adds the separator and that name, normalized, to the end.
pub proof fn lemma_track_field_push(names: Seq<Seq<char>>, name: Seq<char>)
    requires
        names.len() > 0,
    ensures
        track_field(names.push(name)) == track_field(names) + seq![',', ' '] + normalized(name),
{
    reveal_strlit(", ");
    let f = |n: Seq<char>| normalized(n);
    assert(names.push(name).map_values(f).drop_last() =~= names.map_values(f));
    assert(SEPARATOR@ =~= seq![',', ' ']);
}

proof fn lemma_drop_newlines_clean(s: Seq<char>)
    ensures
        !drop_newlines(s).contains('\n'),
    decreases s.len(),
{
    if s.len() > 0 {
        lemma_drop_newlines_clean(s.drop_last());
        let r = drop_newlines(s.drop_last());
        if s.last() != '\n' {
            assert forall|x: int| 0 <= x < r.push(s.last()).len() implies r.push(s.last())[x] != '\n' by {
                if x < r.len() {
                    assert(r.contains(r[x]));
                }
            }
        }
    }
}

proof fn lemma_trim_front_suffix(s: Seq<char>)
    ensures
        trim_front(s).len() <= s.len(),
        trim_front(s) == s.subrange(s.len() - trim_front(s).len(), s.len() as int),
        trim_front(s).len() > 0 ==> !whitespace(trim_front(s)[0]),
    decreases s.len(),
{
    if s.len() > 0 && whitespace(s[0]) {
        lemma_trim_front_suffix(s.drop_first());
        let t = trim_front(s);
        assert(s.drop_first().subrange(s.len() - 1 - t.len(), s.len() - 1) =~= s.subrange(
            s.len() - t.len(),
            s.len() as int,
        ));
    } else {
        assert(s.subrange(0, s.len() as int) =~= s);
    }
}

proof fn lemma_trim_back_prefix(s: Seq<char>)
    ensures
        trim_back(s).len() <= s.len(),
        trim_back(s) == s.subrange(0, trim_back(s).len() as int),
        trim_back(s).len() > 0 ==> !whitespace(trim_back(s).last()),
    decreases s.len(),
{
    if s.len() > 0 && whitespace(s.last()) {
        lemma_trim_back_prefix(s.drop_last());
        let t = trim_back(s);
        assert(s.drop_last().subrange(0, t.len() as int) =~= s.subrange(0, t.len() as int));
    } else {
        assert(s.subrange(0, s.len() as int) =~= s);
    }
}

/// A normalized track name holds no line feed, and neither begins nor ends with
/// whitespace.
pub proof fn lemma_normalized_is_clean(s: Seq<char>)
    ensures
        !normalized(s).contains('\n'),
        normalized(s).len() > 0 ==> !whitespace(normalized(s)[0]),
        normalized(s).len() > 0 ==> !whitespace(normalized(s).last()),
{
    let d = drop_newlines(s);
    let f = trim_front(d);
    let r = trim_back(f);
    lemma_drop_newlines_clean(s);
    lemma_trim_front_suffix(d);
    lemma_trim_back_prefix(f);
    assert forall|x: int| 0 <= x < r.len() implies r[x] != '\n' by {
        assert(r[x] == d[d.len() - f.len() + x]);
        assert(d.contains(d[d.len() - f.len() + x]));
    }
    if r.len() > 0 {
        assert(r[0] == f[0]);
    }
}

} // verus!
