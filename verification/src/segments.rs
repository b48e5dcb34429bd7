//! Paths as sequences of segments: splitting a string on `/` and joining it again.

use vstd::prelude::*;
use vstd::std_specs::iter::IteratorSpec;

verus! {

/// The character that separates the segments of a path.
pub open spec fn separator() -> char {
    '/'
}

/// A segment is a non-empty text without a separator.
pub open spec fn is_segment(s: Seq<char>) -> bool {
    &&& s.len() > 0
    &&& forall|i: int| 0 <= i < s.len() ==> s[i] != separator()
}

/// Every element of `segments` is a segment.
pub open spec fn all_segments(segments: Seq<Seq<char>>) -> bool {
    forall|i: int| 0 <= i < segments.len() ==> is_segment(#[trigger] segments[i])
}

/// The number of characters of `s` before its first separator.
pub open spec fn run_length(s: Seq<char>) -> nat
    decreases s.len(),
{
    if s.len() == 0 || s[0] == separator() {
        0
    } else {
        1 + run_length(s.skip(1))
    }
}

/// The maximal separator-free runs of `s`, in order: `s` split on the separator,
/// without the empty pieces.
pub open spec fn split_segments(s: Seq<char>) -> Seq<Seq<char>>
    decreases s.len(),
    via split_segments_decreases
{
    if s.len() == 0 {
        Seq::empty()
    } else if s[0] == separator() {
        split_segments(s.skip(1))
    } else {
        seq![s.take(run_length(s) as int)] + split_segments(s.skip(run_length(s) as int))
    }
}

#[via_fn]
proof fn split_segments_decreases(s: Seq<char>) {
    lemma_run_length_bounds(s);
}

/// A run ends inside the text, holds no separator, and is followed by one
/// unless it reaches the end.
pub proof fn lemma_run_length_bounds(s: Seq<char>)
    ensures
        run_length(s) <= s.len(),
        s.len() > 0 && s[0] != separator() ==> run_length(s) >= 1,
        forall|i: int| 0 <= i < run_length(s) ==> s[i] != separator(),
        run_length(s) < s.len() ==> s[run_length(s) as int] == separator(),
    decreases s.len(),
{
    if s.len() == 0 || s[0] == separator() {
    } else {
        let t = s.skip(1);
        lemma_run_length_bounds(t);
        assert forall|i: int| 0 <= i < run_length(s) implies s[i] != separator() by {
            if i > 0 {
                assert(s[i] == t[i - 1]);
            }
        }
        if run_length(s) < s.len() {
            assert(s[run_length(s) as int] == t[run_length(t) as int]);
        }
    }
}


/// A prefix without a separator that ends at a separator, or at the end, is the
/// first run.
proof fn lemma_run_length_is(s: Seq<char>, k: int)
    requires
        0 <= k <= s.len(),
        forall|i: int| 0 <= i < k ==> s[i] != separator(),
        k < s.len() ==> s[k] == separator(),
    ensures
        run_length(s) == k,
{
    lemma_run_length_bounds(s);
    let n = run_length(s) as int;
    if n < k {
        assert(s[n] == separator());
    }
}

/// A text that begins with a run of `k >= 1` characters splits into that run
/// and the segments of what follows it.
proof fn lemma_split_first(s: Seq<char>, k: int)
    requires
        1 <= k <= s.len(),
        forall|i: int| 0 <= i < k ==> s[i] != separator(),
        k < s.len() ==> s[k] == separator(),
    ensures
        split_segments(s) == seq![s.take(k)] + split_segments(s.skip(k)),
{
    lemma_run_length_is(s, k);
}

/// A leading separator adds no segment.
proof fn lemma_split_leading_separator(s: Seq<char>)
    ensures
        split_segments(seq![separator()] + s) == split_segments(s),
{
    let t = seq![separator()] + s;
    assert(t.skip(1) =~= s);
}

/// A segment splits into itself.
pub proof fn lemma_split_segment(x: Seq<char>)
    requires
        is_segment(x),
    ensures
        split_segments(x) == seq![x],
{
    lemma_split_first(x, x.len() as int);
    assert(x.take(x.len() as int) =~= x);
    assert(x.skip(x.len() as int) =~= Seq::<char>::empty());
    assert(seq![x] + Seq::<Seq<char>>::empty() =~= seq![x]);
}

/// Splitting distributes over a separator: the segments of `a/b` are those of
/// `a` followed by those of `b`.
pub proof fn lemma_split_concat(a: Seq<char>, b: Seq<char>)
    ensures
        split_segments(a + seq![separator()] + b) == split_segments(a) + split_segments(b),
    decreases a.len(),
{
    let whole = a + seq![separator()] + b;
    if a.len() == 0 {
        assert(whole =~= seq![separator()] + b);
        lemma_split_leading_separator(b);
        assert(Seq::<Seq<char>>::empty() + split_segments(b) =~= split_segments(b));
    } else if a[0] == separator() {
        assert(whole.skip(1) =~= a.skip(1) + seq![separator()] + b);
        lemma_split_concat(a.skip(1), b);
    } else {
        lemma_run_length_bounds(a);
        let k = run_length(a) as int;
        assert forall|i: int| 0 <= i < k implies whole[i] != separator() by {
            assert(whole[i] == a[i]);
        }
        assert(whole[k] == separator()) by {
            if k < a.len() {
                assert(whole[k] == a[k]);
            }
        }
        lemma_split_first(whole, k);
        assert(whole.take(k) =~= a.take(k));
        assert(whole.skip(k) =~= a.skip(k) + seq![separator()] + b);
        lemma_split_concat(a.skip(k), b);
        assert(seq![a.take(k)] + (split_segments(a.skip(k)) + split_segments(b)) =~= (seq![
            a.take(k),
        ] + split_segments(a.skip(k))) + split_segments(b));
    }
}

/// What splitting yields are segments.
pub proof fn lemma_split_yields_segments(s: Seq<char>)
    ensures
        all_segments(split_segments(s)),
    decreases s.len(),
{
    if s.len() == 0 {
    } else if s[0] == separator() {
        lemma_split_yields_segments(s.skip(1));
    } else {
        lemma_run_length_bounds(s);
        let k = run_length(s) as int;
        lemma_split_yields_segments(s.skip(k));
        let rest = split_segments(s.skip(k));
        assert(is_segment(s.take(k)));
        assert forall|i: int| 0 <= i < split_segments(s).len() implies is_segment(
            #[trigger] split_segments(s)[i],
        ) by {
            if i > 0 {
                assert(split_segments(s)[i] == rest[i - 1]);
            }
        }
    }
}

/// The segments joined by single separators.
pub open spec fn join_segments(segments: Seq<Seq<char>>) -> Seq<char>
    decreases segments.len(),
{
    if segments.len() == 0 {
        Seq::empty()
    } else if segments.len() == 1 {
        segments[0]
    } else {
        join_segments(segments.drop_last()) + seq![separator()] + segments.last()
    }
}

/// Joining segments and splitting the result gives the segments back.
pub proof fn lemma_split_join(segments: Seq<Seq<char>>)
    requires
        all_segments(segments),
    ensures
        split_segments(join_segments(segments)) == segments,
    decreases segments.len(),
{
    if segments.len() == 0 {
    } else if segments.len() == 1 {
        lemma_split_segment(segments[0]);
        assert(seq![segments[0]] =~= segments);
    } else {
        let front = segments.drop_last();
        lemma_split_join(front);
        lemma_split_concat(join_segments(front), segments.last());
        lemma_split_segment(segments.last());
        assert(front + seq![segments.last()] =~= segments);
    }
}

/// The views of the strings of `v`.
pub open spec fn texts(v: Seq<String>) -> Seq<Seq<char>> {
    Seq::new(v.len(), |i: int| v[i]@)
}

/// Splits `s` on `/` and drops the empty pieces.
pub fn split_path(s: &str) -> (segments: Vec<String>)
    ensures
        texts(segments@) == split_segments(s@),
{
    let mut segments: Vec<String> = Vec::new();
    let mut chars = s.chars();
    let mut start: usize = 0;
    let mut i: usize = 0;
    let n = s.unicode_len();
    proof {
        assert(s@.skip(0) =~= s@);
        assert(texts(segments@) + split_segments(s@) =~= split_segments(s@));
    }
    loop
        invariant
            n == s@.len(),
            0 <= start <= i <= n,
            chars.remaining() == s@.skip(i as int),
            forall|j: int| start <= j < i ==> s@[j] != separator(),
            split_segments(s@) == texts(segments@) + split_segments(s@.skip(start as int)),
        ensures
            i == n,
            0 <= start <= n,
            forall|j: int| start <= j < n ==> s@[j] != separator(),
            split_segments(s@) == texts(segments@) + split_segments(s@.skip(start as int)),
        decreases n - i,
    {
        match chars.next() {
            Some(c) => {
                assert(c == s@[i as int]);
                if c == '/' {
                    let ghost before = texts(segments@);
                    let ghost pending = s@.skip(start as int);
                    if start < i {
                        let piece = s.substring_char(start, i).to_owned();
                        segments.push(piece);
                        proof {
                            let k = i - start;
                            lemma_split_first(pending, k);
                            assert(pending.take(k) =~= s@.subrange(start as int, i as int));
                            assert(pending.skip(k) =~= s@.skip(i as int));
                            lemma_split_leading_separator(s@.skip(i + 1));
                            assert(seq![separator()] + s@.skip(i + 1) =~= s@.skip(i as int));
                            assert(texts(segments@) =~= before + seq![piece@]);
                            assert(before + (seq![piece@] + split_segments(s@.skip(i + 1)))
                                =~= (before + seq![piece@]) + split_segments(s@.skip(i + 1)));
                        }
                    } else {
                        proof {
                            lemma_split_leading_separator(s@.skip(i + 1));
                            assert(seq![separator()] + s@.skip(i + 1) =~= s@.skip(i as int));
                        }
                    }
                    start = i + 1;
                }
                i = i + 1;
            },
            None => {
                break ;
            },
        }
    }
    if start < n {
        let ghost before = texts(segments@);
        let ghost pending = s@.skip(start as int);
        let piece = s.substring_char(start, n).to_owned();
        segments.push(piece);
        proof {
            let k = n - start;
            lemma_split_first(pending, k);
            assert(pending.take(k) =~= s@.subrange(start as int, n as int));
            assert(pending.skip(k) =~= Seq::<char>::empty());
            assert(texts(segments@) =~= before + seq![piece@]);
            assert(before + (seq![piece@] + Seq::<Seq<char>>::empty()) =~= before + seq![piece@]);
        }
    } else {
        proof {
            assert(s@.skip(start as int) =~= Seq::<char>::empty());
            assert(texts(segments@) + Seq::<Seq<char>>::empty() =~= texts(segments@));
        }
    }
    segments
}

/// Joins the segments with single `/` between them.
pub fn join_path(segments: &Vec<String>) -> (joined: String)
    ensures
        joined@ == join_segments(texts(segments@)),
{
    let mut joined = String::new();
    let mut i: usize = 0;
    while i < segments.len()
        invariant
            0 <= i <= segments.len(),
            joined@ == join_segments(texts(segments@).take(i as int)),
        decreases segments.len() - i,
    {
        let ghost done = texts(segments@).take(i as int);
        let ghost next = texts(segments@).take(i + 1);
        if i > 0 {
            joined.append("/");
        }
        joined.append(segments[i].as_str());
        proof {
            reveal_strlit("/");
            assert("/"@ =~= seq![separator()]);
            assert(next.drop_last() =~= done);
            assert(next.last() == segments@[i as int]@);
            if i == 0 {
                assert(done =~= Seq::<Seq<char>>::empty());
                assert(Seq::<char>::empty() + next.last() =~= next[0]);
            }
        }
        i = i + 1;
    }
    proof {
        assert(texts(segments@).take(segments.len() as int) =~= texts(segments@));
    }
    joined
}

} // verus!
