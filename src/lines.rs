use vstd::prelude::*;
use vstd::string::{StrSliceExecFns, StringExecFns};

verus! {

/// The pieces of `s` between newline characters, in order.
///
/// There is always at least one piece: a text with `k` newlines has `k + 1`.
pub open spec fn split_newlines(s: Seq<char>) -> Seq<Seq<char>>
    decreases s.len(),
{
    if s.len() == 0 {
        seq![Seq::empty()]
    } else {
        let p = split_newlines(s.drop_last());
        if s.last() == '\n' {
            p.push(Seq::empty())
        } else {
            p.update(p.len() - 1, p.last().push(s.last()))
        }
    }
}

/// `l` without one trailing carriage return, if it ends with one.
pub open spec fn strip_cr(l: Seq<char>) -> Seq<char> {
    if l.len() > 0 && l.last() == '\r' {
        l.drop_last()
    } else {
        l
    }
}

/// The lines of a text: the pieces between newlines, each that a newline ends
/// losing a trailing carriage return, and an empty last piece left out.
///
/// So the empty text has no lines, and a final newline starts no new line.
pub open spec fn text_lines(s: Seq<char>) -> Seq<Seq<char>> {
    let p = split_newlines(s);
    let ended = p.take(p.len() - 1).map_values(|l: Seq<char>| strip_cr(l));
    if p.last().len() == 0 {
        ended
    } else {
        ended.push(p.last())
    }
}

/// What a vector of lines holds, line by line.
pub open spec fn lines_view(v: Seq<String>) -> Seq<Seq<char>> {
    v.map_values(|l: String| l@)
}

/// Splits `s` into its lines, as `str::lines` does.
pub fn split_lines(s: &str) -> (r: Vec<String>)
    ensures
        lines_view(r@) == text_lines(s@),
{
    let n = s.unicode_len();
    let mut done: Vec<String> = Vec::new();
    let mut start: usize = 0;
    let mut i: usize = 0;
    let mut last: char = '\n';
    for c in it: s.chars()
        invariant
            it.seq() == s@,
            n == s@.len(),
            i == it.index(),
            start <= i <= n,
            i > 0 ==> last == s@[i - 1],
            ({
                let p = split_newlines(s@.take(i as int));
                &&& p.len() >= 1
                &&& s@.subrange(start as int, i as int) == p.last()
                &&& lines_view(done@) == p.take(p.len() - 1).map_values(
                    |l: Seq<char>| strip_cr(l),
                )
            }),
    {
        let ghost before = split_newlines(s@.take(i as int));
        proof {
            assert(s@.take(i + 1).drop_last() =~= s@.take(i as int));
            assert(s@.take(i + 1).last() == c);
        }
        if c == '\n' {
            let end = if i > start && last == '\r' {
                i - 1
            } else {
                i
            };
            let ghost old_done = done@;
            let line = String::from_str(s.substring_char(start, end));
            done.push(line);
            proof {
                let f = |l: Seq<char>| strip_cr(l);
                let cur = s@.subrange(start as int, i as int);
                assert(line@ =~= strip_cr(cur));
                let after = split_newlines(s@.take(i + 1));
                assert(after == before.push(Seq::empty()));
                assert(after.take(after.len() - 1) =~= before);
                let head = before.take(before.len() - 1);
                assert(before =~= head.push(before.last()));
                assert(head.push(before.last()).map_values(f) =~= head.map_values(f).push(
                    strip_cr(cur),
                ));
                assert(lines_view(done@) =~= lines_view(old_done).push(strip_cr(cur)));
            }
            start = i + 1;
            proof {
                assert(s@.subrange(start as int, i + 1) =~= Seq::<char>::empty());
            }
        } else {
            proof {
                let after = split_newlines(s@.take(i + 1));
                assert(after.take(after.len() - 1) =~= before.take(before.len() - 1));
                assert(s@.subrange(start as int, i + 1) =~= s@.subrange(
                    start as int,
                    i as int,
                ).push(c));
            }
        }
        last = c;
        i = i + 1;
    }
    proof {
        assert(s@.take(n as int) =~= s@);
    }
    if start < n {
        let ghost old_done = done@;
        let line = String::from_str(s.substring_char(start, n));
        done.push(line);
        proof {
            assert(lines_view(done@) =~= lines_view(old_done).push(line@));
            assert(lines_view(done@) =~= text_lines(s@));
        }
    }
    done
}

} // verus!
