use vstd::prelude::*;
use crate::entry::{entry_result_is, parse_line, ProcEntry};
use crate::errors::ProcStatusError;
use crate::text::{find_char, first_index_of, lemma_first_index_of, trimmed};

verus! {

/// The non-blank lines of `s`, in order, where lines are separated by `\n`.
pub open spec fn nonblank_lines(s: Seq<char>) -> Seq<Seq<char>>
    decreases s.len(),
{
    let j = first_index_of(s, '\n');
    if s.len() == 0 {
        seq![]
    } else if 0 <= j < s.len() {
        let tail = nonblank_lines(s.subrange(j + 1, s.len() as int));
        if j == 0 {
            tail
        } else {
            seq![s.subrange(0, j)] + tail
        }
    } else {
        seq![s]
    }
}

/// The text made of `ls`, with `\n` between each line and the next.
pub open spec fn joined(ls: Seq<Seq<char>>) -> Seq<char>
    decreases ls.len(),
{
    if ls.len() == 0 {
        seq![]
    } else if ls.len() == 1 {
        ls[0]
    } else {
        ls[0] + seq!['\n'] + joined(ls.drop_first())
    }
}

/// The lines of `ls` that are not empty, in order.
pub open spec fn nonempty(ls: Seq<Seq<char>>) -> Seq<Seq<char>>
    decreases ls.len(),
{
    if ls.len() == 0 {
        seq![]
    } else if ls[0].len() == 0 {
        nonempty(ls.drop_first())
    } else {
        seq![ls[0]] + nonempty(ls.drop_first())
    }
}

/// The entries of a text made of the lines `ls` are the non-blank lines of
/// `ls`, in order, each parsed at its first colon.
pub proof fn lemma_entries_are_lines(ls: Seq<Seq<char>>)
    requires
        forall|i: int, k: int|
            0 <= i < ls.len() && 0 <= k < ls[i].len() ==> #[trigger] ls[i][k] != '\n',
    ensures
        nonblank_lines(joined(ls)) == nonempty(ls),
        forall|i: int|
            0 <= i < nonempty(ls).len() ==> {
                let l = #[trigger] nonempty(ls)[i];
                let c = first_index_of(l, ':');
                0 <= c < l.len() ==> parse_line(l) == Ok::<(Seq<char>, Seq<char>), Seq<char>>(
                    (l.subrange(0, c), trimmed(l.subrange(c + 1, l.len() as int))),
                )
            },
    decreases ls.len(),
{
    if ls.len() == 1 {
        lemma_first_index_of(ls[0], '\n', ls[0].len() as int);
        assert(nonempty(ls.drop_first()) =~= seq![]);
        if ls[0].len() > 0 {
            assert(nonempty(ls) =~= seq![ls[0]]);
        }
    } else if ls.len() > 1 {
        let rest = ls.drop_first();
        assert forall|i: int, k: int|
            0 <= i < rest.len() && 0 <= k < rest[i].len() implies #[trigger] rest[i][k] != '\n' by {
            assert(ls[i + 1][k] != '\n');
        }
        lemma_entries_are_lines(rest);
        let s = joined(ls);
        let l0 = ls[0];
        assert forall|k: int| 0 <= k < l0.len() implies s[k] != '\n' by {
            assert(ls[0][k] != '\n');
        }
        assert(s[l0.len() as int] == '\n');
        lemma_first_index_of(s, '\n', l0.len() as int);
        assert(s.subrange(l0.len() as int + 1, s.len() as int) =~= joined(rest));
        assert(s.subrange(0, l0.len() as int) =~= l0);
    }
}

/// A cursor over the entries of a status text.
///
/// It is had from a `ProcStatus`, and walks the text once: to walk it again,
/// ask for a new one.
pub struct ProcEntries<'p> {
    rest: &'p str,
}

impl<'p> ProcEntries<'p> {
    /// The lines that are left to be parsed.
    pub closed spec fn lines(&self) -> Seq<Seq<char>> {
        nonblank_lines(self.rest@)
    }

    pub fn from_content(content: &'p str) -> (r: Self)
        ensures
            r.lines() == nonblank_lines(content@),
    {
        ProcEntries { rest: content }
    }

    /// Parses the next non-blank line, or gives `None` when no line is left.
    pub fn next(&mut self) -> (r: Option<Result<ProcEntry<'p>, ProcStatusError>>)
        ensures
            old(self).lines().len() == 0 ==> r is None && final(self).lines().len() == 0,
            old(self).lines().len() > 0 ==> {
                &&& r is Some
                &&& entry_result_is(r->0, parse_line(old(self).lines()[0]))
                &&& final(self).lines() == old(self).lines().drop_first()
            },
    {
        loop
            invariant
                self.lines() == old(self).lines(),
            decreases self.rest@.len(),
        {
            let rest: &'p str = self.rest;
            let n = rest.unicode_len();
            if n == 0 {
                return None;
            }
            let j = find_char(rest, '\n');
            let line = rest.substring_char(0, j);
            if j < n {
                self.rest = rest.substring_char(j + 1, n);
            } else {
                self.rest = rest.substring_char(n, n);
                assert(nonblank_lines(self.rest@) =~= seq![]);
            }
            if j > 0 {
                assert(line@ =~= old(self).lines()[0]);
                assert(self.lines() =~= old(self).lines().drop_first());
                return Some(ProcEntry::new(line));
            }
        }
    }
}

} // verus!
