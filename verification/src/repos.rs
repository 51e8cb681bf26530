use vstd::prelude::*;

verus! {

/// A delimiter of the stored repository list: ASCII whitespace. The
/// ASCII class is deliberate — the column is written by an operator
/// to separate repository path names, and a character outside this
/// class counts as part of a name rather than as a delimiter.
pub open spec fn is_space(c: char) -> bool {
    c == ' ' || c == '\t' || c == '\n' || c == '\r'
}

/// Length of the longest delimiter-free prefix.
pub open spec fn first_space(s: Seq<char>) -> nat
    decreases s.len(),
{
    if s.len() == 0 {
        0
    } else if is_space(s[0]) {
        0
    } else {
        1 + first_space(s.skip(1))
    }
}

pub proof fn lemma_first_space_le_len(s: Seq<char>)
    ensures
        first_space(s) <= s.len(),
    decreases s.len(),
{
    if s.len() != 0 && !is_space(s[0]) {
        lemma_first_space_le_len(s.skip(1));
    }
}

/// The maximal delimiter-free runs of a string, in order: what the
/// whitespace-delimited repository column denotes.
pub open spec fn split_ws(s: Seq<char>) -> Seq<Seq<char>>
    decreases s.len(),
    via split_ws_decreases
{
    if s.len() == 0 {
        Seq::empty()
    } else if is_space(s[0]) {
        split_ws(s.skip(1))
    } else {
        seq![s.take(first_space(s) as int)] + split_ws(s.skip(first_space(s) as int))
    }
}

#[via_fn]
proof fn split_ws_decreases(s: Seq<char>) {
    if s.len() != 0 && !is_space(s[0]) {
        lemma_first_space_le_len(s);
    }
}

/// A run of `m` non-delimiters followed by a delimiter or the end
/// pins `first_space` to `m`.
proof fn lemma_first_space_eq(s: Seq<char>, m: nat)
    requires
        m <= s.len(),
        forall|p: int| 0 <= p < m ==> !is_space(#[trigger] s[p]),
        m < s.len() ==> is_space(s[m as int]),
    ensures
        first_space(s) == m,
    decreases m,
{
    if m == 0 {
    } else {
        assert(!is_space(s[0]));
        assert forall|p: int| 0 <= p < m - 1 implies !is_space(#[trigger] s.skip(1)[p]) by {
            assert(s.skip(1)[p] == s[p + 1]);
        }
        if m - 1 < s.skip(1).len() {
            assert(s.skip(1)[m - 1] == s[m as int]);
        }
        lemma_first_space_eq(s.skip(1), (m - 1) as nat);
    }
}

fn is_space_exec(c: char) -> (r: bool)
    ensures
        r == is_space(c),
{
    c == ' ' || c == '\t' || c == '\n' || c == '\r'
}

/// Index of the first delimiter at or after `from`, or the length of
/// the string when there is none.
fn first_space_from(s: &str, from: usize) -> (i: usize)
    requires
        from <= s@.len(),
    ensures
        from <= i <= s@.len(),
        forall|j: int| from <= j < i ==> !is_space(#[trigger] s@[j]),
        i < s@.len() ==> is_space(s@[i as int]),
{
    let n = s.unicode_len();
    let mut i: usize = from;
    while i < n
        invariant
            n == s@.len(),
            from <= i <= n,
            forall|j: int| from <= j < i ==> !is_space(#[trigger] s@[j]),
        decreases n - i,
    {
        if is_space_exec(s.get_char(i)) {
            return i;
        }
        i += 1;
    }
    i
}

/// Split the stored repository column into the names it holds:
/// the maximal whitespace-free runs, in order.
pub fn split_repo_names(s: &str) -> (r: Vec<String>)
    ensures
        r.deep_view() == split_ws(s@),
{
    let n = s.unicode_len();
    let mut out: Vec<String> = Vec::new();
    let mut i: usize = 0;
    proof {
        assert(s@.skip(0) =~= s@);
        assert(out.deep_view() + split_ws(s@) =~= split_ws(s@));
    }
    while i < n
        invariant
            n == s@.len(),
            i <= n,
            split_ws(s@) == out.deep_view() + split_ws(s@.skip(i as int)),
        decreases n - i,
    {
        let c = s.get_char(i);
        let ghost prev = out.deep_view();
        let ghost rest = s@.skip(i as int);
        if is_space_exec(c) {
            proof {
                assert(rest[0] == s@[i as int]);
                assert(split_ws(rest) == split_ws(rest.skip(1)));
                assert(rest.skip(1) =~= s@.skip(i + 1));
            }
            i += 1;
        } else {
            let j = first_space_from(s, i);
            proof {
                assert(rest[0] == s@[i as int]);
                assert forall|p: int| 0 <= p < j - i implies !is_space(#[trigger] rest[p]) by {
                    assert(rest[p] == s@[i + p]);
                }
                if j - i < rest.len() {
                    assert(rest[j - i] == s@[j as int]);
                }
                lemma_first_space_eq(rest, (j - i) as nat);
                assert(split_ws(rest) == seq![rest.take(j - i)] + split_ws(rest.skip(j - i)));
                assert(rest.take(j - i) =~= s@.subrange(i as int, j as int));
                assert(rest.skip(j - i) =~= s@.skip(j as int));
            }
            let name = s.substring_char(i, j).to_owned();
            let ghost name_view = name@;
            out.push(name);
            proof {
                assert(out.deep_view() =~= prev.push(name_view));
                assert(prev.push(name_view) =~= prev + seq![s@.subrange(i as int, j as int)]);
                assert(out.deep_view() + split_ws(s@.skip(j as int)) =~= split_ws(s@));
            }
            i = j;
        }
    }
    proof {
        assert(s@.skip(n as int) =~= Seq::<char>::empty());
        assert(out.deep_view() + split_ws(s@.skip(n as int)) =~= out.deep_view());
    }
    out
}

} // verus!
