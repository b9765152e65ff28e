use vstd::prelude::*;
use crate::errors::ProcStatusError;
use crate::text::{
    digits_value, find_char, first_index_of, is_digit, lemma_first_index_of, parse_usize,
    parsed_usize, trim, trimmed,
};

verus! {

/// A `key: value` line of the `/proc/<pid>/status` pseudo-file.
///
/// Both fields borrow from the status text and can be read directly.
#[derive(Debug)]
pub struct ProcEntry<'p> {
    pub key: &'p str,
    pub value: &'p str,
}

/// What parsing the line `l` gives: the text before its first colon and the
/// trimmed text after it, or the line itself when it holds no colon.
pub open spec fn parse_line(l: Seq<char>) -> Result<(Seq<char>, Seq<char>), Seq<char>> {
    let i = first_index_of(l, ':');
    if 0 <= i < l.len() {
        Ok((l.subrange(0, i), trimmed(l.subrange(i + 1, l.len() as int))))
    } else {
        Err(l)
    }
}

/// `r` is the result that the model `m` of a parsed line describes.
pub open spec fn entry_result_is(
    r: Result<ProcEntry, ProcStatusError>,
    m: Result<(Seq<char>, Seq<char>), Seq<char>>,
) -> bool {
    match m {
        Ok((k, v)) => r is Ok && r->Ok_0.key@ == k && r->Ok_0.value@ == v,
        Err(l) => r is Err && r->Err_0 is NoColon && r->Err_0->NoColon_0@ == l,
    }
}

/// The suffix that marks a size value. The number before it counts KiB,
/// whatever the `kB` says.
pub open spec fn size_suffix() -> Seq<char> {
    seq![' ', 'k', 'B']
}

pub open spec fn has_size_suffix(v: Seq<char>) -> bool {
    v.len() >= 3 && v.subrange(v.len() - 3, v.len() as int) == size_suffix()
}

/// The text of a size value before its suffix.
pub open spec fn size_digits(v: Seq<char>) -> Seq<char> {
    v.subrange(0, v.len() - 3)
}

/// The number of KiB that the value `v` states, when it is a size value with
/// a well-formed number.
pub open spec fn size_in_kib(v: Seq<char>) -> Option<usize> {
    if has_size_suffix(v) {
        parsed_usize(size_digits(v))
    } else {
        None
    }
}

/// A size value `<N> kB`, with `N` written in decimal digits, reads as `N` KiB.
pub proof fn lemma_size_round_trip(d: Seq<char>)
    requires
        d.len() > 0,
        forall|k: int| 0 <= k < d.len() ==> is_digit(#[trigger] d[k]),
        digits_value(d) <= usize::MAX,
    ensures
        has_size_suffix(d + size_suffix()),
        size_in_kib(d + size_suffix()) == Some(digits_value(d) as usize),
{
    let v = d + size_suffix();
    assert(v.subrange(v.len() - 3, v.len() as int) =~= size_suffix());
    assert(size_digits(v) =~= d);
    assert(is_digit(d[0]));
}

/// A line without a colon does not parse: the error holds the line.
pub proof fn lemma_no_colon_is_malformed(l: Seq<char>)
    requires
        forall|k: int| 0 <= k < l.len() ==> l[k] != ':',
    ensures
        parse_line(l) == Err::<(Seq<char>, Seq<char>), Seq<char>>(l),
{
    lemma_first_index_of(l, ':', l.len() as int);
}

impl<'p> ProcEntry<'p> {
    /// Parses one line: the key is the text before the first colon, as it
    /// stands; the value is the text after it, trimmed of white space.
    pub fn new(src: &'p str) -> (r: Result<Self, ProcStatusError>)
        ensures
            entry_result_is(r, parse_line(src@)),
    {
        let n = src.unicode_len();
        let i = find_char(src, ':');
        if i < n {
            let key = src.substring_char(0, i);
            let after = src.substring_char(i + 1, n);
            let value = trim(after);
            Ok(ProcEntry { key, value })
        } else {
            Err(ProcStatusError::NoColon(src.to_owned()))
        }
    }

    /// The number before ` kB`, which is a number of KiB, of a memory
    /// related value.
    #[allow(non_snake_case)]
    pub fn in_KiB(&self) -> (r: Result<usize, ProcStatusError>)
        ensures
            !has_size_suffix(self.value@) ==> r matches Err(ProcStatusError::NotInKib),
            has_size_suffix(self.value@) ==> match parsed_usize(size_digits(self.value@)) {
                Some(n) => r == Ok::<usize, ProcStatusError>(n),
                None => r matches Err(ProcStatusError::ParseInt(_)),
            },
    {
        let v = self.value;
        let n = v.unicode_len();
        if n >= 3 && v.get_char(n - 3) == ' ' && v.get_char(n - 2) == 'k' && v.get_char(n - 1)
            == 'B' {
            assert(v@.subrange(n - 3, n as int) =~= size_suffix());
            let digits = v.substring_char(0, n - 3);
            match parse_usize(digits) {
                Ok(k) => Ok(k),
                Err(e) => Err(ProcStatusError::ParseInt(e)),
            }
        } else {
            proof {
                if has_size_suffix(v@) {
                    assert(v@.subrange(n - 3, n as int)[0] == v@[n - 3]);
                    assert(v@.subrange(n - 3, n as int)[1] == v@[n - 2]);
                    assert(v@.subrange(n - 3, n as int)[2] == v@[n - 1]);
                }
            }
            Err(ProcStatusError::NotInKib)
        }
    }
}

} // verus!
