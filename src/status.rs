use vstd::prelude::*;
use crate::entries::{nonblank_lines, ProcEntries};
use crate::entry::{
    has_size_suffix, lemma_no_colon_is_malformed, parse_line, size_in_kib, ProcEntry,
};
use crate::errors::ProcStatusError;
use crate::mem_usage::{bytes_of_kib, max_kib, MemUsage};
use crate::text::same_text;

verus! {

/// What looking `key` up among `lines` gives: the first entry whose key is
/// `key`, or `Err(Some(l))` when the malformed line `l` comes first, or
/// `Err(None)` when every line parses and none has that key.
pub open spec fn lookup(lines: Seq<Seq<char>>, key: Seq<char>) -> Result<
    (Seq<char>, Seq<char>),
    Option<Seq<char>>,
>
    decreases lines.len(),
{
    if lines.len() == 0 {
        Err(None)
    } else {
        match parse_line(lines[0]) {
            Err(l) => Err(Some(l)),
            Ok((k, v)) => if k == key {
                Ok((k, v))
            } else {
                lookup(lines.drop_first(), key)
            },
        }
    }
}

/// `e` is the error of a lookup of `key` that ended in `fault`.
pub open spec fn lookup_error_is(
    e: ProcStatusError,
    fault: Option<Seq<char>>,
    key: Seq<char>,
) -> bool {
    match fault {
        Some(l) => e is NoColon && e->NoColon_0@ == l,
        None => e is EntryNotFound && e->EntryNotFound_0@ == key,
    }
}

/// The number of KiB that the entry `key` of `lines` states, when the lookup
/// succeeds and the value is a size.
pub open spec fn kib_value_of(lines: Seq<Seq<char>>, key: Seq<char>) -> Option<usize> {
    match lookup(lines, key) {
        Ok((_k, v)) => size_in_kib(v),
        Err(_f) => None,
    }
}

/// `e` is the error of reading the entry `key` of `lines` as a size.
pub open spec fn kib_error_is(e: ProcStatusError, lines: Seq<Seq<char>>, key: Seq<char>) -> bool {
    match lookup(lines, key) {
        Ok((_k, v)) => if has_size_suffix(v) {
            e is ParseInt
        } else {
            e is NotInKib
        },
        Err(f) => lookup_error_is(e, f, key),
    }
}

/// A lookup finds only an entry whose key is exactly the key asked for,
/// character for character: case and white space count.
pub proof fn lemma_lookup_is_exact(lines: Seq<Seq<char>>, key: Seq<char>)
    ensures
        lookup(lines, key) is Ok ==> lookup(lines, key)->Ok_0.0 == key,
    decreases lines.len(),
{
    if lines.len() > 0 {
        lemma_lookup_is_exact(lines.drop_first(), key);
    }
}

/// A line without a colon stops every lookup that reaches it with that
/// line's error, whatever lines follow, even one with the key asked for.
pub proof fn lemma_malformed_line_stops_lookup(
    before: Seq<Seq<char>>,
    bad: Seq<char>,
    after: Seq<Seq<char>>,
    key: Seq<char>,
)
    requires
        forall|k: int| 0 <= k < bad.len() ==> bad[k] != ':',
        forall|i: int|
            0 <= i < before.len() ==> #[trigger] parse_line(before[i]) is Ok && parse_line(
                before[i],
            )->Ok_0.0 != key,
    ensures
        lookup(before + seq![bad] + after, key) == Err::<(Seq<char>, Seq<char>), Option<Seq<char>>>(
            Some(bad),
        ),
    decreases before.len(),
{
    lemma_no_colon_is_malformed(bad);
    let lines = before + seq![bad] + after;
    if before.len() == 0 {
        assert(lines[0] == bad);
    } else {
        assert(lines[0] == before[0]);
        let rest = before.drop_first();
        assert forall|i: int| 0 <= i < rest.len() implies #[trigger] parse_line(rest[i]) is Ok
            && parse_line(rest[i])->Ok_0.0 != key by {
            assert(rest[i] == before[i + 1]);
        }
        lemma_malformed_line_stops_lookup(rest, bad, after, key);
        assert(lines.drop_first() =~= rest + seq![bad] + after);
    }
}

/// Where every line parses and none has the key, a lookup ends in
/// `Err(None)`: the entry is not found.
pub proof fn lemma_absent_key_not_found(lines: Seq<Seq<char>>, key: Seq<char>)
    requires
        forall|i: int|
            0 <= i < lines.len() ==> #[trigger] parse_line(lines[i]) is Ok && parse_line(
                lines[i],
            )->Ok_0.0 != key,
    ensures
        lookup(lines, key) == Err::<(Seq<char>, Seq<char>), Option<Seq<char>>>(None),
    decreases lines.len(),
{
    if lines.len() > 0 {
        let rest = lines.drop_first();
        assert(parse_line(lines[0]) is Ok);
        assert forall|i: int| 0 <= i < rest.len() implies #[trigger] parse_line(rest[i]) is Ok
            && parse_line(rest[i])->Ok_0.0 != key by {
            assert(rest[i] == lines[i + 1]);
        }
        lemma_absent_key_not_found(rest, key);
    }
}

/// A snapshot of the status of a process.
///
/// It keeps the text that was read, so that its entries agree with each
/// other, and can be kept and compared.
pub struct ProcStatus {
    content: String,
}

impl View for ProcStatus {
    type V = Seq<char>;

    closed spec fn view(&self) -> Seq<char> {
        self.content@
    }
}

impl ProcStatus {
    /// The entries of the snapshot, as its non-blank lines.
    pub open spec fn lines(&self) -> Seq<Seq<char>> {
        nonblank_lines(self@)
    }

    /// A snapshot of the status text `content`, as it was read.
    pub fn from_content(content: String) -> (r: Self)
        ensures
            r@ == content@,
    {
        ProcStatus { content }
    }

    /// A cursor over all `key: value` entries.
    pub fn entries(&self) -> (r: ProcEntries<'_>)
        ensures
            r.lines() == self.lines(),
    {
        ProcEntries::from_content(self.content.as_str())
    }

    /// Finds an entry by its key. A malformed line met before it ends the search.
    pub fn entry(&self, key: &str) -> (r: Result<ProcEntry<'_>, ProcStatusError>)
        ensures
            match lookup(self.lines(), key@) {
                Ok((k, v)) => r is Ok && r->Ok_0.key@ == k && r->Ok_0.value@ == v,
                Err(f) => r is Err && lookup_error_is(r->Err_0, f, key@),
            },
    {
        let mut it = self.entries();
        loop
            invariant
                lookup(it.lines(), key@) == lookup(self.lines(), key@),
            decreases it.lines().len(),
        {
            match it.next() {
                None => {
                    return Err(ProcStatusError::EntryNotFound(key.to_owned()));
                },
                Some(Err(e)) => {
                    return Err(e);
                },
                Some(Ok(e)) => {
                    if same_text(e.key, key) {
                        return Ok(e);
                    }
                },
            }
        }
    }

    /// The value of the entry found by `key`.
    ///
    /// Values written `xxx kB` count KiB, not kB: they are written so for
    /// compatibility.
    pub fn value(&self, key: &str) -> (r: Result<&str, ProcStatusError>)
        ensures
            match lookup(self.lines(), key@) {
                Ok((_k, v)) => r is Ok && r->Ok_0@ == v,
                Err(f) => r is Err && lookup_error_is(r->Err_0, f, key@),
            },
    {
        match self.entry(key) {
            Ok(e) => Ok(e.value),
            Err(e) => Err(e),
        }
    }

    /// The value of a memory related entry, in KiB.
    #[allow(non_snake_case)]
    pub fn value_KiB(&self, key: &str) -> (r: Result<usize, ProcStatusError>)
        ensures
            match kib_value_of(self.lines(), key@) {
                Some(n) => r == Ok::<usize, ProcStatusError>(n),
                None => r is Err && kib_error_is(r->Err_0, self.lines(), key@),
            },
    {
        match self.entry(key) {
            Ok(e) => e.in_KiB(),
            Err(e) => Err(e),
        }
    }

    /// The current and peak memory of the process, in bytes: each size, in
    /// KiB, times 1024. `VmRSS` is looked up before `VmPeak`, and the first
    /// lookup that fails gives the error. Once both are read, a size whose
    /// count of bytes does not fit in `usize` fails with `SizeOverflow`,
    /// naming its key, `VmRSS` first.
    pub fn mem_usage(&self) -> (r: Result<MemUsage, ProcStatusError>)
        ensures
            match (kib_value_of(self.lines(), "VmRSS"@), kib_value_of(self.lines(), "VmPeak"@)) {
                (None, _) => r is Err && kib_error_is(r->Err_0, self.lines(), "VmRSS"@),
                (Some(_c), None) => r is Err && kib_error_is(r->Err_0, self.lines(), "VmPeak"@),
                (Some(c), Some(_p)) if c > max_kib() => r is Err && r->Err_0 is SizeOverflow
                    && r->Err_0->SizeOverflow_0@ == "VmRSS"@,
                (Some(_c), Some(p)) if p > max_kib() => r is Err && r->Err_0 is SizeOverflow
                    && r->Err_0->SizeOverflow_0@ == "VmPeak"@,
                (Some(c), Some(p)) => r is Ok && r->Ok_0.current == c * 1024 && r->Ok_0.peak == p
                    * 1024,
            },
    {
        let current_kib = match self.value_KiB("VmRSS") {
            Err(e) => {
                return Err(e);
            },
            Ok(kib) => kib,
        };
        let peak_kib = match self.value_KiB("VmPeak") {
            Err(e) => {
                return Err(e);
            },
            Ok(kib) => kib,
        };
        let current = match bytes_of_kib(current_kib) {
            None => {
                return Err(ProcStatusError::SizeOverflow("VmRSS".to_owned()));
            },
            Some(bytes) => bytes,
        };
        let peak = match bytes_of_kib(peak_kib) {
            None => {
                return Err(ProcStatusError::SizeOverflow("VmPeak".to_owned()));
            },
            Some(bytes) => bytes,
        };
        Ok(MemUsage { current, peak })
    }
}

} // verus!
