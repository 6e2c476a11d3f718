//! Building the corpus files: which game archives there are, and how the
//! names are read out of them.

use rustc_hash::FxHashSet;
use vstd::prelude::*;
use vstd::slice::slice_subrange;

verus! {

/// A family of game archives.
#[derive(Clone, Copy, Debug, PartialEq, Eq, Structural)]
pub enum Variant {
    All,
    Standard,
    Exotic,
    Antichess,
    Atomic,
    Chess960,
    Horde,
    Koth,
    ThreeCheck,
    Racing,
    Zh,
}

/// The archive names of every variant but the standard one.
pub open spec fn exotic_names() -> Seq<Seq<char>> {
    seq![
        "antichess"@,
        "atomic"@,
        "chess960"@,
        "horde"@,
        "kingOfTheHill"@,
        "threeCheck"@,
        "racingKings"@,
        "crazyhouse"@,
    ]
}

impl Variant {
    /// The archive names that the variant stands for.
    pub open spec fn spec_names(self) -> Seq<Seq<char>> {
        match self {
            Variant::All => seq!["standard"@] + exotic_names(),
            Variant::Standard => seq!["standard"@],
            Variant::Exotic => exotic_names(),
            Variant::Antichess => seq!["antichess"@],
            Variant::Atomic => seq!["atomic"@],
            Variant::Chess960 => seq!["chess960"@],
            Variant::Horde => seq!["horde"@],
            Variant::Koth => seq!["kingOfTheHill"@],
            Variant::ThreeCheck => seq!["threeCheck"@],
            Variant::Racing => seq!["racingKings"@],
            Variant::Zh => seq!["crazyhouse"@],
        }
    }

    /// The archive names that the variant stands for, in download order.
    pub fn names(self) -> (names: &'static [&'static str])
        ensures
            names@.len() == self.spec_names().len(),
            forall|i: int| 0 <= i < names@.len() ==> (#[trigger] names@[i])@ == self.spec_names()[i],
    {
        match self {
            Variant::All => &[
                "standard",
                "antichess",
                "atomic",
                "chess960",
                "horde",
                "kingOfTheHill",
                "threeCheck",
                "racingKings",
                "crazyhouse",
            ],
            Variant::Standard => &["standard"],
            Variant::Exotic => &[
                "antichess",
                "atomic",
                "chess960",
                "horde",
                "kingOfTheHill",
                "threeCheck",
                "racingKings",
                "crazyhouse",
            ],
            Variant::Antichess => &["antichess"],
            Variant::Atomic => &["atomic"],
            Variant::Chess960 => &["chess960"],
            Variant::Horde => &["horde"],
            Variant::Koth => &["kingOfTheHill"],
            Variant::ThreeCheck => &["threeCheck"],
            Variant::Racing => &["racingKings"],
            Variant::Zh => &["crazyhouse"],
        }
    }
}

/// A reader paired with the callback that is told how much each read
/// brought.
pub struct ProgressReader<R, C> {
    pub reader: R,
    pub callback: C,
}

impl<R, C> ProgressReader<R, C> {
    /// Pairs a reader with its callback.
    pub fn new(reader: R, callback: C) -> (r: Self)
        ensures
            r.reader == reader,
            r.callback == callback,
    {
        ProgressReader { reader, callback }
    }
}

/// The months from `from` to `to` of one year, in order; none where `from`
/// is behind `to`.
pub open spec fn month_run(year: u32, from: u32, to: u32) -> Seq<(u32, u32)> {
    Seq::new(
        if from <= to {
            (to - from + 1) as nat
        } else {
            0
        },
        |i: int| (year, (from + i) as u32),
    )
}

/// The twelve months of every year from `from` to before `to`, in order.
pub open spec fn year_run(from: int, to: int) -> Seq<(u32, u32)> {
    Seq::new(
        if from < to {
            (12 * (to - from)) as nat
        } else {
            0
        },
        |i: int| ((from + i / 12) as u32, (1 + i % 12) as u32),
    )
}

/// The months whose archives a download covers: the one month given, or,
/// with an end, the months from the first to the last. Within one year these
/// are the months between the two. Else they are the rest of the first year,
/// every year in between in full, and the last year up to its month.
pub open spec fn spec_download_months(year: u32, month: u32, end: Option<(u32, u32)>) -> Seq<
    (u32, u32),
> {
    match end {
        None => seq![(year, month)],
        Some((year_to, month_to)) => if year == year_to {
            month_run(year, month, month_to)
        } else {
            month_run(year, month, 12) + year_run(year + 1, year_to as int) + month_run(
                year_to,
                1,
                month_to,
            )
        },
    }
}

/// Appends the months from `from` to `to` of one year.
fn push_months(out: &mut Vec<(u32, u32)>, year: u32, from: u32, to: u32)
    ensures
        final(out)@ == old(out)@ + month_run(year, from, to),
{
    let ghost before = out@;
    if from > to {
        assert(out@ =~= before + month_run(year, from, to));
        return ;
    }
    let mut m = from;
    loop
        invariant_except_break
            from <= m <= to,
            out@.len() == before.len() + (m - from),
            forall|k: int| 0 <= k < before.len() ==> out@[k] == before[k],
            forall|k: int|
                before.len() <= k < out@.len() ==> out@[k] == (year, (from + (k - before.len())) as u32),
        ensures
            out@ == before + month_run(year, from, to),
        decreases to - m,
    {
        out.push((year, m));
        if m == to {
            assert(out@ =~= before + month_run(year, from, to));
            break ;
        }
        m += 1;
    }
}

/// The months whose archives a download covers, in download order.
pub fn download_months(year: u32, month: u32, end: Option<(u32, u32)>) -> (out: Vec<(u32, u32)>)
    ensures
        out@ == spec_download_months(year, month, end),
{
    let mut out: Vec<(u32, u32)> = Vec::new();
    match end {
        None => {
            out.push((year, month));
            assert(out@ =~= seq![(year, month)]);
        },
        Some((year_to, month_to)) => {
            if year == year_to {
                push_months(&mut out, year, month, month_to);
                assert(out@ =~= month_run(year, month, month_to));
            } else {
                push_months(&mut out, year, month, 12);
                let ghost first = out@;
                assert(first =~= month_run(year, month, 12));
                if year < year_to {
                    let mut y = year + 1;
                    while y < year_to
                        invariant
                            year < y <= year_to,
                            out@ == first + year_run(year + 1, y as int),
                        decreases year_to - y,
                    {
                        let ghost so_far = out@;
                        push_months(&mut out, y, 1, 12);
                        proof {
                            let done = year_run(year + 1, y as int);
                            let next = year_run(year + 1, y + 1);
                            assert(done + month_run(y, 1, 12) =~= next) by {
                                assert forall|k: int| 0 <= k < next.len() implies (done + month_run(
                                    y,
                                    1,
                                    12,
                                ))[k] == next[k] by {
                                    if k >= done.len() {
                                        let j = k - done.len();
                                        assert(k == 12 * (y - (year + 1)) + j);
                                        assert(k / 12 == y - (year + 1) && k % 12 == j) by (nonlinear_arith)
                                            requires
                                                k == 12 * (y - (year + 1)) + j,
                                                0 <= j < 12,
                                        ;
                                    }
                                }
                            }
                            assert(out@ =~= first + next);
                        }
                        y += 1;
                    }
                } else {
                    assert(out@ =~= first + year_run(year + 1, year_to as int));
                }
                let ghost middle = out@;
                push_months(&mut out, year_to, 1, month_to);
                assert(out@ =~= month_run(year, month, 12) + year_run(year + 1, year_to as int)
                    + month_run(year_to, 1, month_to));
            }
        },
    }
    out
}

/// The line begins with the given bytes.
pub open spec fn begins_with(line: Seq<u8>, prefix: Seq<u8>) -> bool {
    line.len() >= prefix.len() && line.subrange(0, prefix.len() as int) == prefix
}

/// The bytes of `[White `.
pub open spec fn white_tag() -> Seq<u8> {
    seq![91u8, 87u8, 104u8, 105u8, 116u8, 101u8, 32u8]
}

/// The bytes of `[Black `.
pub open spec fn black_tag() -> Seq<u8> {
    seq![91u8, 66u8, 108u8, 97u8, 99u8, 107u8, 32u8]
}

/// The player's name in a line of a game record: what stands between the
/// quotes of a `[White "..."]` or `[Black "..."]` line, that is from the
/// ninth byte to before the last two. Any other line, and one too short for
/// the quotes and the closing bracket, holds no name.
pub open spec fn spec_player_name(line: Seq<u8>) -> Option<Seq<u8>> {
    if (begins_with(line, white_tag()) || begins_with(line, black_tag())) && line.len() >= 10 {
        Some(line.subrange(8, line.len() - 2))
    } else {
        None
    }
}

/// Decides `begins_with` for one of the two tags.
fn has_tag(line: &[u8], second: u8, third: u8, fourth: u8, fifth: u8, sixth: u8) -> (r: bool)
    ensures
        r == begins_with(line@, seq![91u8, second, third, fourth, fifth, sixth, 32u8]),
{
    let ghost tag = seq![91u8, second, third, fourth, fifth, sixth, 32u8];
    if line.len() < 7 {
        return false;
    }
    let r = line[0] == 91u8 && line[1] == second && line[2] == third && line[3] == fourth && line[4]
        == fifth && line[5] == sixth && line[6] == 32u8;
    proof {
        let head = line@.subrange(0, 7);
        if r {
            assert(head =~= tag);
        } else {
            assert(head[0] == line[0] && head[1] == line[1] && head[2] == line[2] && head[3]
                == line[3] && head[4] == line[4] && head[5] == line[5] && head[6] == line[6]);
        }
    }
    r
}

/// Reads the player's name out of a line of a game record.
pub fn player_name(line: &[u8]) -> (name: Option<&[u8]>)
    ensures
        match spec_player_name(line@) {
            Some(bytes) => name is Some && name->Some_0@ == bytes,
            None => name is None,
        },
{
    let tagged = has_tag(line, 87u8, 104u8, 105u8, 116u8, 101u8) || has_tag(
        line,
        66u8,
        108u8,
        97u8,
        99u8,
        107u8,
    );
    if tagged && line.len() >= 10 {
        Some(slice_subrange(line, 8, line.len() - 2))
    } else {
        None
    }
}

/// The hasher of the `rustc_hash` crate.
#[verifier::external_type_specification]
#[verifier::external_body]
pub struct ExFxHasher(rustc_hash::FxHasher);

/// The builder of std that makes each hasher by `Default`.
#[verifier::external_type_specification]
#[verifier::external_body]
#[verifier::reject_recursive_types(H)]
pub struct ExBuildHasherDefault<H>(core::hash::BuildHasherDefault<H>);

/// The names that an `FxHashSet` of names holds.
pub uninterp spec fn held(names: FxHashSet<Vec<u8>>) -> Set<Seq<u8>>;

/// `FxHashSet::default`: a set that holds nothing.
#[verifier::external_body]
fn set_new() -> (names: FxHashSet<Vec<u8>>)
    ensures
        held(names) == Set::<Seq<u8>>::empty(),
{
    FxHashSet::default()
}

/// `HashSet::insert` on an `FxHashSet`: the set holds the name afterwards,
/// beside what it held before; the answer is whether the name is new to it.
#[verifier::external_body]
fn set_insert(names: &mut FxHashSet<Vec<u8>>, name: &[u8]) -> (fresh: bool)
    ensures
        held(*final(names)) == held(*old(names)).insert(name@),
        fresh == !held(*old(names)).contains(name@),
{
    names.insert(name.to_vec())
}

/// `HashSet::into_iter` on an `FxHashSet`, gathered into a list: every name
/// that the set held, once each, in no stated order.
#[verifier::external_body]
fn set_into_names(names: FxHashSet<Vec<u8>>) -> (out: Vec<Vec<u8>>)
    ensures
        forall|i: int, j: int| 0 <= i < j < out.len() ==> out[i]@ != out[j]@,
        forall|i: int| 0 <= i < out.len() ==> held(names).contains(#[trigger] out[i]@),
        forall|name: Seq<u8>| #[trigger]
            held(names).contains(name) ==> exists|i: int| 0 <= i < out.len() && out[i]@ == name,
{
    names.into_iter().collect()
}

/// The names gathered so far, each held once.
pub struct NameSet {
    names: FxHashSet<Vec<u8>>,
}

/// The names of the players in the lines of a game record.
pub open spec fn names_in(lines: Seq<Seq<u8>>) -> Set<Seq<u8>>
    decreases lines.len(),
{
    if lines.len() == 0 {
        Set::empty()
    } else {
        match spec_player_name(lines.last()) {
            Some(name) => names_in(lines.drop_last()).insert(name),
            None => names_in(lines.drop_last()),
        }
    }
}

/// The bytes of a list of lines, in order.
pub open spec fn line_bytes(lines: Seq<Vec<u8>>) -> Seq<Seq<u8>> {
    lines.map_values(|line: Vec<u8>| line@)
}

impl NameSet {
    /// The names that the set holds.
    pub closed spec fn contents(&self) -> Set<Seq<u8>> {
        held(self.names)
    }

    /// A set that holds no name yet.
    pub fn new() -> (set: NameSet)
        ensures
            set.contents() == Set::<Seq<u8>>::empty(),
    {
        NameSet { names: set_new() }
    }

    /// Takes in one line of a game record: the name of a player that it
    /// gives joins the set; any other line changes nothing.
    pub fn note_line(&mut self, line: &[u8])
        ensures
            final(self).contents() == match spec_player_name(line@) {
                Some(name) => old(self).contents().insert(name),
                None => old(self).contents(),
            },
    {
        if let Some(name) = player_name(line) {
            let _ = set_insert(&mut self.names, name);
        }
    }

    /// Hands out the names: every name that the set holds, once each, in no
    /// stated order.
    pub fn into_names(self) -> (out: Vec<Vec<u8>>)
        ensures
            forall|i: int, j: int| 0 <= i < j < out.len() ==> out[i]@ != out[j]@,
            forall|i: int| 0 <= i < out.len() ==> self.contents().contains(#[trigger] out[i]@),
            forall|name: Seq<u8>| #[trigger]
                self.contents().contains(name) ==> exists|i: int|
                    0 <= i < out.len() && out[i]@ == name,
    {
        set_into_names(self.names)
    }
}

/// The distinct names of the players in the lines of a game record: every
/// name that a line gives, once, however often it is given.
pub fn distinct_names(lines: &Vec<Vec<u8>>) -> (out: Vec<Vec<u8>>)
    ensures
        forall|i: int, j: int| 0 <= i < j < out.len() ==> out[i]@ != out[j]@,
        forall|i: int| 0 <= i < out.len() ==> names_in(line_bytes(lines@)).contains(#[trigger] out[i]@),
        forall|name: Seq<u8>| #[trigger]
            names_in(line_bytes(lines@)).contains(name) ==> exists|i: int|
                0 <= i < out.len() && out[i]@ == name,
{
    let ghost all = line_bytes(lines@);
    let mut set = NameSet::new();
    let mut i: usize = 0;
    while i < lines.len()
        invariant
            i <= lines.len(),
            all == line_bytes(lines@),
            set.contents() == names_in(all.subrange(0, i as int)),
        decreases lines.len() - i,
    {
        proof {
            let next = all.subrange(0, i + 1);
            assert(next.drop_last() =~= all.subrange(0, i as int));
            assert(next.last() == lines[i as int]@);
        }
        set.note_line(lines[i].as_slice());
        i += 1;
    }
    assert(all.subrange(0, lines.len() as int) =~= all);
    set.into_names()
}

/// What is printed when a download has passed another step.
#[derive(Clone, Copy, Debug, PartialEq, Eq, Structural)]
pub struct Report {
    /// Thousandths of the download that are done.
    pub done: u64,
    /// Seconds since the download began.
    pub elapsed: u64,
    /// Seconds that the rest will take at the speed so far.
    pub left: u64,
}

/// Keeps count of the bytes of a download and decides when to report.
#[derive(Clone, Copy, Debug, PartialEq, Eq, Structural)]
pub struct Meter {
    pub length: u64,
    pub step: u64,
    pub progress: u64,
    pub next: u64,
}

/// A number as a `u64`, or the largest `u64` where it does not fit.
pub open spec fn capped(n: int) -> u64 {
    if n <= u64::MAX {
        n as u64
    } else {
        u64::MAX
    }
}

impl Meter {
    /// The report that is due when the count stands at `progress` after
    /// `elapsed` seconds.
    pub open spec fn report_at(length: u64, progress: u64, elapsed: u64) -> Report {
        Report {
            done: if length == 0 {
                1000
            } else {
                capped(progress * 1000 / length as int)
            },
            elapsed,
            left: if progress == 0 || progress >= length {
                0
            } else {
                capped(elapsed * (length - progress) / progress as int)
            },
        }
    }

    /// A meter for a download of `length` bytes that reports every `step`
    /// bytes.
    pub fn new(length: u64, step: u64) -> (m: Meter)
        ensures
            m == (Meter { length, step, progress: 0, next: step }),
    {
        Meter { length, step, progress: 0, next: step }
    }

    /// Counts `read` more bytes. A report is due when the count has passed
    /// the next step; the step after it is then the next.
    pub fn record(&mut self, read: u64, elapsed: u64) -> (r: Option<Report>)
        ensures
            final(self).length == old(self).length,
            final(self).step == old(self).step,
            final(self).progress == capped(old(self).progress + read),
            final(self).progress > old(self).next ==> r == Some(
                Meter::report_at(old(self).length, final(self).progress, elapsed),
            ) && final(self).next == capped(old(self).next + old(self).step),
            final(self).progress <= old(self).next ==> r is None && final(self).next == old(self).next,
    {
        self.progress = self.progress.saturating_add(read);
        if self.progress > self.next {
            self.next = self.next.saturating_add(self.step);
            let progress = self.progress;
            let length = self.length;
            let done = if length == 0 {
                1000
            } else {
                let d: u128 = (progress as u128) * 1000 / (length as u128);
                if d > u64::MAX as u128 {
                    u64::MAX
                } else {
                    d as u64
                }
            };
            let left = if progress == 0 || progress >= length {
                0
            } else {
                assert(elapsed * (length - progress) <= 0xFFFF_FFFF_FFFF_FFFF * 0xFFFF_FFFF_FFFF_FFFF)
                    by (nonlinear_arith)
                    requires
                        0 <= elapsed <= 0xFFFF_FFFF_FFFF_FFFF,
                        0 <= length - progress <= 0xFFFF_FFFF_FFFF_FFFF,
                ;
                let l: u128 = (elapsed as u128) * ((length - progress) as u128) / (progress as u128);
                if l > u64::MAX as u128 {
                    u64::MAX
                } else {
                    l as u64
                }
            };
            Some(Report { done, elapsed, left })
        } else {
            None
        }
    }
}

} // verus!

