//! Small verified string helpers shared across the crate: whitespace
//! trimming and list joining.

use vstd::prelude::*;

verus! {

pub open spec fn is_space(c: char) -> bool {
    c == ' ' || c == '\t' || c == '\n' || c == '\r'
}

pub open spec fn trim_start_spec(s: Seq<char>) -> Seq<char>
    decreases s.len(),
{
    if s.len() > 0 && is_space(s[0]) {
        trim_start_spec(s.drop_first())
    } else {
        s
    }
}

pub open spec fn trim_end_spec(s: Seq<char>) -> Seq<char>
    decreases s.len(),
{
    if s.len() > 0 && is_space(s[s.len() - 1]) {
        trim_end_spec(s.drop_last())
    } else {
        s
    }
}

/// The string without leading or trailing spaces, tabs or line breaks.
pub open spec fn trim_spec(s: Seq<char>) -> Seq<char> {
    trim_end_spec(trim_start_spec(s))
}

fn is_space_exec(c: char) -> (r: bool)
    ensures
        r == is_space(c),
{
    c == ' ' || c == '\t' || c == '\n' || c == '\r'
}

/// Drop leading and trailing whitespace.
pub fn trim_str(s: &str) -> (r: String)
    ensures
        r@ == trim_spec(s@),
{
    let n = s.unicode_len();
    let mut lo: usize = 0;
    proof {
        assert(s@.skip(0) =~= s@);
    }
    while lo < n && is_space_exec(s.get_char(lo))
        invariant
            lo <= n,
            n == s@.len(),
            trim_start_spec(s@) == trim_start_spec(s@.skip(lo as int)),
        decreases n - lo,
    {
        proof {
            assert(s@.skip(lo as int)[0] == s@[lo as int]);
            assert(s@.skip(lo as int).drop_first() =~= s@.skip(lo as int + 1));
        }
        lo += 1;
    }
    proof {
        if lo < n {
            assert(s@.skip(lo as int)[0] == s@[lo as int]);
        }
        assert(trim_start_spec(s@) == s@.skip(lo as int));
        assert(s@.skip(lo as int) =~= s@.subrange(lo as int, n as int));
    }
    let mut hi: usize = n;
    while hi > lo && is_space_exec(s.get_char(hi - 1))
        invariant
            lo <= hi <= n,
            n == s@.len(),
            trim_end_spec(s@.skip(lo as int)) == trim_end_spec(
                s@.subrange(lo as int, hi as int),
            ),
        decreases hi,
    {
        proof {
            let t = s@.subrange(lo as int, hi as int);
            assert(t[t.len() - 1] == s@[hi - 1]);
            assert(t.drop_last() =~= s@.subrange(lo as int, hi as int - 1));
        }
        hi -= 1;
    }
    proof {
        let t = s@.subrange(lo as int, hi as int);
        if hi > lo {
            assert(t[t.len() - 1] == s@[hi - 1]);
        }
        assert(trim_end_spec(t) == t);
    }
    let r = s.substring_char(lo, hi).to_owned();
    proof {
        assert(r@ =~= trim_spec(s@));
    }
    r
}

/// Split on `sep`; `cur` is the piece accumulated so far.
pub open spec fn split_from(s: Seq<char>, sep: char, cur: Seq<char>) -> Seq<Seq<char>>
    decreases s.len(),
{
    if s.len() == 0 {
        seq![cur]
    } else if s[0] == sep {
        seq![cur] + split_from(s.skip(1), sep, Seq::empty())
    } else {
        split_from(s.skip(1), sep, cur.push(s[0]))
    }
}

/// The pieces of `s` between occurrences of `sep`.
pub open spec fn split_char(s: Seq<char>, sep: char) -> Seq<Seq<char>> {
    split_from(s, sep, Seq::empty())
}

/// Cut `s` at every occurrence of `sep`.
pub fn split_on_char(s: &str, sep: char) -> (parts: Vec<String>)
    ensures
        parts.deep_view() == split_char(s@, sep),
{
    let n = s.unicode_len();
    let mut parts: Vec<String> = Vec::new();
    let mut start: usize = 0;
    let mut i: usize = 0;
    proof {
        assert(s@.skip(0) =~= s@);
        assert(s@.subrange(0, 0) =~= Seq::<char>::empty());
        assert(parts.deep_view() =~= Seq::<Seq<char>>::empty());
    }
    while i < n
        invariant
            start <= i <= n,
            n == s@.len(),
            split_char(s@, sep) == parts.deep_view() + split_from(
                s@.skip(i as int),
                sep,
                s@.subrange(start as int, i as int),
            ),
        decreases n - i,
    {
        let ghost old_parts = parts.deep_view();
        let ghost cur = s@.subrange(start as int, i as int);
        let c = s.get_char(i);
        proof {
            assert(s@.skip(i as int)[0] == s@[i as int]);
            assert(s@.skip(i as int).skip(1) =~= s@.skip(i as int + 1));
        }
        if c == sep {
            let tok = s.substring_char(start, i).to_owned();
            parts.push(tok);
            proof {
                assert(split_from(s@.skip(i as int), sep, cur) == seq![cur] + split_from(
                    s@.skip(i as int + 1),
                    sep,
                    Seq::empty(),
                ));
                assert(parts.deep_view() =~= old_parts.push(cur));
                assert(old_parts.push(cur) + split_from(s@.skip(i as int + 1), sep, Seq::empty())
                    =~= old_parts + (seq![cur] + split_from(
                    s@.skip(i as int + 1),
                    sep,
                    Seq::empty(),
                )));
                assert(s@.subrange(i as int + 1, i as int + 1) =~= Seq::<char>::empty());
            }
            start = i + 1;
        } else {
            proof {
                assert(cur.push(s@[i as int]) =~= s@.subrange(start as int, i as int + 1));
                assert(split_from(s@.skip(i as int), sep, cur) == split_from(
                    s@.skip(i as int + 1),
                    sep,
                    s@.subrange(start as int, i as int + 1),
                ));
            }
        }
        i += 1;
    }
    let ghost old_parts = parts.deep_view();
    let tok = s.substring_char(start, n).to_owned();
    parts.push(tok);
    proof {
        assert(s@.skip(n as int).len() == 0);
        assert(split_from(s@.skip(n as int), sep, s@.subrange(start as int, n as int)) == seq![
            s@.subrange(start as int, n as int),
        ]);
        assert(parts.deep_view() =~= old_parts.push(s@.subrange(start as int, n as int)));
        assert(old_parts + seq![s@.subrange(start as int, n as int)] =~= parts.deep_view());
    }
    parts
}

/// Character-for-character string equality.
pub fn str_eq(a: &str, b: &str) -> (r: bool)
    ensures
        r == (a@ == b@),
{
    let n = a.unicode_len();
    if n != b.unicode_len() {
        return false;
    }
    let mut i: usize = 0;
    while i < n
        invariant
            i <= n,
            n == a@.len(),
            n == b@.len(),
            forall|j: int| 0 <= j < i ==> a@[j] == b@[j],
        decreases n - i,
    {
        if a.get_char(i) != b.get_char(i) {
            proof {
                if a@ == b@ {
                    assert(a@[i as int] == b@[i as int]);
                }
            }
            return false;
        }
        i += 1;
    }
    proof {
        assert(a@ =~= b@);
    }
    true
}

/// Whether `x` occurs among `items`.
pub open spec fn contains_str(items: Seq<Seq<char>>, x: Seq<char>) -> bool {
    exists|i: int| 0 <= i < items.len() && items[i] == x
}

/// Whether `x` occurs in the vector, character for character.
pub fn vec_contains_str(v: &Vec<String>, x: &str) -> (r: bool)
    ensures
        r == contains_str(v.deep_view(), x@),
{
    let mut i: usize = 0;
    while i < v.len()
        invariant
            i <= v.len(),
            forall|j: int| 0 <= j < i ==> v.deep_view()[j] != x@,
        decreases v.len() - i,
    {
        if str_eq(v[i].as_str(), x) {
            proof {
                assert(v.deep_view()[i as int] == x@);
            }
            return true;
        }
        i += 1;
    }
    false
}

pub open spec fn join_tail(items: Seq<Seq<char>>, sep: Seq<char>) -> Seq<char>
    decreases items.len(),
{
    if items.len() == 0 {
        Seq::empty()
    } else {
        sep + items[0] + join_tail(items.drop_first(), sep)
    }
}

/// The items laid end to end with `sep` between neighbours.
pub open spec fn join_with(items: Seq<Seq<char>>, sep: Seq<char>) -> Seq<char> {
    if items.len() == 0 {
        Seq::empty()
    } else {
        items[0] + join_tail(items.drop_first(), sep)
    }
}

/// Join the strings with the separator between neighbours.
pub fn join_strings(v: &Vec<String>, sep: &str) -> (r: String)
    ensures
        r@ == join_with(v.deep_view(), sep@),
{
    let ghost items = v.deep_view();
    let mut out = String::new();
    if v.len() == 0 {
        proof {
            assert(out@ =~= join_with(items, sep@));
        }
        return out;
    }
    out.append(v[0].as_str());
    proof {
        assert(items[0] == v@[0]@);
        assert(items.skip(1) =~= items.drop_first());
        assert(out@ =~= items[0]);
    }
    let mut i: usize = 1;
    while i < v.len()
        invariant
            1 <= i <= v.len(),
            items == v.deep_view(),
            items.len() == v.len(),
            join_with(items, sep@) == out@ + join_tail(items.skip(i as int), sep@),
        decreases v.len() - i,
    {
        let ghost old_out = out@;
        out.append(sep);
        out.append(v[i].as_str());
        proof {
            let rest = items.skip(i as int);
            assert(rest[0] == items[i as int]);
            assert(items[i as int] == v@[i as int]@);
            assert(rest.drop_first() =~= items.skip(i as int + 1));
            assert(join_tail(rest, sep@) == sep@ + rest[0] + join_tail(
                items.skip(i as int + 1),
                sep@,
            ));
            assert(out@ =~= old_out + (sep@ + rest[0]));
            assert(old_out + (sep@ + rest[0]) + join_tail(items.skip(i as int + 1), sep@)
                =~= old_out + (sep@ + rest[0] + join_tail(items.skip(i as int + 1), sep@)));
        }
        i += 1;
    }
    proof {
        assert(items.skip(i as int).len() == 0);
        assert(join_tail(items.skip(i as int), sep@) == Seq::<char>::empty());
        assert(out@ + Seq::<char>::empty() =~= out@);
    }
    out
}

} // verus!
