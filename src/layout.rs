//! Where the log files live, relative to the base directory, and how
//! rotated files are numbered.
use vstd::prelude::*;
use vstd::string::{StrSliceExecFns, StringExecFns};
use crate::decimal::{decimal_digits, decimal_text, digits_value, is_digit, padded_decimal,
    padded_digits, parse_usize, parse_usize_bytes, unsigned_digits};

verus! {

/// Index of the last `.` among the first `k` characters of `s`, or -1.
pub open spec fn last_dot_before(s: Seq<char>, k: int) -> int
    decreases k,
{
    if k <= 0 {
        -1
    } else if s[k - 1] == '.' {
        k - 1
    } else {
        last_dot_before(s, k - 1)
    }
}

/// The stem of a file name: the part before its last dot, or the whole
/// name where no dot stands after its first character.
pub open spec fn file_stem(s: Seq<char>) -> Seq<char> {
    let d = last_dot_before(s, s.len() as int);
    if s == seq!['.', '.'] || d <= 0 {
        s
    } else {
        s.subrange(0, d)
    }
}

/// The slot that a file name in the rotation directory stands for: its stem
/// read as a number, or 0 where the stem is not one.
pub open spec fn slot_of(name: Seq<char>) -> nat {
    match parse_usize_bytes(file_stem(name)) {
        Some(v) => v,
        None => 0,
    }
}

/// The largest slot among the names (0 for none).
pub open spec fn max_slot(names: Seq<Seq<char>>) -> nat
    decreases names.len(),
{
    if names.len() == 0 {
        0
    } else {
        let m = max_slot(names.drop_last());
        let v = slot_of(names.last());
        if v > m {
            v
        } else {
            m
        }
    }
}

/// The slot the next rotated file takes: one past the largest in use.
pub open spec fn next_slot_of(names: Seq<Seq<char>>) -> nat {
    max_slot(names) + 1
}

/// The file name of rotated slot `n`.
pub open spec fn slot_file_name_of(n: nat) -> Seq<char> {
    decimal_digits(n) + seq!['.', 'c', 's', 'v']
}

/// Year as a date stamp writes it: four digits, with a sign outside 0..=9999.
pub open spec fn year_digits(y: int) -> Seq<char> {
    if y < 0 {
        seq!['-'] + padded_digits((-y) as nat, 4)
    } else if y > 9999 {
        seq!['+'] + padded_digits(y as nat, 4)
    } else {
        padded_digits(y as nat, 4)
    }
}

/// Name of the per-day directory: `DD-MM-YYYY`.
pub open spec fn day_dir_name_of(day: nat, month: nat, year: int) -> Seq<char> {
    padded_digits(day, 2) + seq!['-'] + padded_digits(month, 2) + seq!['-'] + year_digits(year)
}

pub open spec fn names_view(names: Seq<String>) -> Seq<Seq<char>> {
    names.map_values(|n: String| n@)
}

proof fn lemma_decimal_digits_are_digits(n: nat)
    ensures
        decimal_digits(n).len() > 0,
        forall|i: int| 0 <= i < decimal_digits(n).len() ==> is_digit(#[trigger] decimal_digits(n)[i]),
        digits_value(decimal_digits(n)) == n,
    decreases n,
{
    let d = decimal_digits(n);
    if n < 10 {
        assert(d.drop_last() =~= Seq::<char>::empty());
        assert(digits_value(Seq::<char>::empty()) == 0);
    } else {
        lemma_decimal_digits_are_digits(n / 10);
        assert(d.drop_last() =~= decimal_digits(n / 10));
        assert forall|i: int| 0 <= i < d.len() implies is_digit(#[trigger] d[i]) by {
            if i < d.len() - 1 {
                assert(d[i] == decimal_digits(n / 10)[i]);
            }
        }
    }
}

proof fn lemma_no_dot_before(s: Seq<char>, k: int)
    requires
        0 <= k <= s.len(),
        forall|i: int| 0 <= i < k ==> is_digit(#[trigger] s[i]),
    ensures
        last_dot_before(s, k) == -1,
    decreases k,
{
    if k > 0 {
        assert(is_digit(s[k - 1]));
        lemma_no_dot_before(s, k - 1);
    }
}

/// The name of slot `n` reads back as `n`.
pub proof fn lemma_slot_name_round_trip(n: nat)
    requires
        n <= usize::MAX,
    ensures
        slot_of(slot_file_name_of(n)) == n,
{
    let d = decimal_digits(n);
    let name = slot_file_name_of(n);
    lemma_decimal_digits_are_digits(n);
    assert forall|i: int| 0 <= i < d.len() implies is_digit(#[trigger] name[i]) by {
        assert(name[i] == d[i]);
    }
    lemma_no_dot_before(name, d.len() as int);
    let k = d.len() as int;
    assert(name[k] == '.');
    assert(name[k + 1] == 'c');
    assert(name[k + 2] == 's');
    assert(name[k + 3] == 'v');
    assert(last_dot_before(name, k + 1) == k);
    assert(last_dot_before(name, k + 4) == k) by {
        assert(last_dot_before(name, k + 2) == k);
        assert(last_dot_before(name, k + 3) == k);
    }
    assert(name.len() == k + 4);
    assert(name.subrange(0, k) =~= d);
    assert(file_stem(name) == d);
    assert(d[0] != '+') by {
        assert(is_digit(d[0]));
    }
    assert(unsigned_digits(d) == d);
}

/// No name in use holds the next slot or a later one: a rotation never
/// reuses a slot.
pub proof fn lemma_next_slot_is_fresh(names: Seq<Seq<char>>)
    ensures
        forall|i: int| 0 <= i < names.len() ==> slot_of(#[trigger] names[i]) < next_slot_of(names),
    decreases names.len(),
{
    if names.len() > 0 {
        let p = names.drop_last();
        lemma_next_slot_is_fresh(p);
        assert forall|i: int| 0 <= i < names.len() implies slot_of(#[trigger] names[i]) < next_slot_of(names) by {
            if i < names.len() - 1 {
                assert(names[i] == p[i]);
            }
        }
    }
}

/// Stem of a file name, as `Path::file_stem` takes it.
pub fn stem(name: &str) -> (r: &str)
    ensures
        r@ == file_stem(name@),
{
    let n = name.unicode_len();
    if n == 2 && name.get_char(0) == '.' && name.get_char(1) == '.' {
        assert(name@ =~= seq!['.', '.']);
        return name;
    }
    let mut k: usize = n;
    while k > 0 && name.get_char(k - 1) != '.'
        invariant
            n == name@.len(),
            k <= n,
            last_dot_before(name@, n as int) == last_dot_before(name@, k as int),
        decreases k,
    {
        k = k - 1;
    }
    if k <= 1 {
        name
    } else {
        name.substring_char(0, k - 1)
    }
}

/// The slot that a file name in the rotation directory stands for.
pub fn slot_number(name: &str) -> (r: usize)
    ensures
        r as nat == slot_of(name@),
{
    match parse_usize(stem(name)) {
        Some(v) => v,
        None => 0,
    }
}

/// The slot for the next rotated file, given the names in the rotation
/// directory; `None` where the largest slot in use leaves no next one.
pub fn next_slot(names: &Vec<String>) -> (r: Option<usize>)
    ensures
        match r {
            Some(v) => v as nat == next_slot_of(names_view(names@)),
            None => max_slot(names_view(names@)) == usize::MAX,
        },
{
    let mut m: usize = 0;
    let mut i: usize = 0;
    while i < names.len()
        invariant
            i <= names.len(),
            m as nat == max_slot(names_view(names@.subrange(0, i as int))),
        decreases names.len() - i,
    {
        let v = slot_number(names[i].as_str());
        proof {
            let s = names@.subrange(0, i + 1);
            assert(names_view(s).drop_last() =~= names_view(names@.subrange(0, i as int)));
            assert(names_view(s).last() == names@[i as int]@);
        }
        if v > m {
            m = v;
        }
        i = i + 1;
    }
    assert(names@.subrange(0, names.len() as int) =~= names@);
    if m == usize::MAX {
        None
    } else {
        Some(m + 1)
    }
}

/// File name of rotated slot `n`.
pub fn slot_file_name(n: usize) -> (r: String)
    ensures
        r@ == slot_file_name_of(n as nat),
{
    let mut s = decimal_text(n);
    proof {
        reveal_strlit(".csv");
    }
    s.append(".csv");
    s
}

/// Name of the per-day directory for a calendar date.
pub fn day_dir_name(day: u32, month: u32, year: i32) -> (r: String)
    ensures
        r@ == day_dir_name_of(day as nat, month as nat, year as int),
{
    proof {
        reveal_strlit("-");
        reveal_strlit("+");
    }
    let mut s = padded_decimal(day as usize, 2);
    s.append("-");
    let m = padded_decimal(month as usize, 2);
    s.append(m.as_str());
    s.append("-");
    if year < 0 {
        s.append("-");
        let magnitude: u32 = if year == i32::MIN { 2147483648u32 } else { (-year) as u32 };
        let y = padded_decimal(magnitude as usize, 4);
        s.append(y.as_str());
    } else {
        if year > 9999 {
            s.append("+");
        }
        let y = padded_decimal(year as usize, 4);
        s.append(y.as_str());
    }
    assert(s@ =~= day_dir_name_of(day as nat, month as nat, year as int));
    s
}

} // verus!

verus! {

/// One file of the log, relative to the base directory.
pub enum LogFile {
    /// `sentences/<day>/data.csv`
    Daily(String),
    /// `sentences/ALL/data.csv`
    All,
    /// `tmp.csv`, the hot file
    Hot,
    /// `sentences/<n>.csv`, a rotated file
    Rotated(usize),
    /// `sentences/<name>`, a file of the rotation directory by name
    Output(String),
}

pub open spec fn text(s: &str) -> Seq<char> {
    s@
}

/// Path components of a log file below the base directory.
pub open spec fn segments_of(f: LogFile) -> Seq<Seq<char>> {
    match f {
        LogFile::Daily(d) => seq![text("sentences"), d@, text("data.csv")],
        LogFile::All => seq![text("sentences"), text("ALL"), text("data.csv")],
        LogFile::Hot => seq![text("tmp.csv")],
        LogFile::Rotated(n) => seq![text("sentences"), slot_file_name_of(n as nat)],
        LogFile::Output(name) => seq![text("sentences"), name@],
    }
}

/// Path components of the rotation directory below the base directory.
pub fn rotation_dir() -> (r: Vec<String>)
    ensures
        names_view(r@) == seq![text("sentences")],
{
    let r = vec![String::from_str("sentences")];
    assert(names_view(r@) =~= seq![text("sentences")]);
    r
}

impl LogFile {
    /// Path components of this file below the base directory.
    pub fn segments(&self) -> (r: Vec<String>)
        ensures
            names_view(r@) == segments_of(*self),
    {
        let r = match self {
            LogFile::Daily(d) => vec![String::from_str("sentences"), d.clone(),
                String::from_str("data.csv")],
            LogFile::All => vec![String::from_str("sentences"), String::from_str("ALL"),
                String::from_str("data.csv")],
            LogFile::Hot => vec![String::from_str("tmp.csv")],
            LogFile::Rotated(n) => vec![String::from_str("sentences"), slot_file_name(*n)],
            LogFile::Output(name) => vec![String::from_str("sentences"), name.clone()],
        };
        assert(names_view(r@) =~= segments_of(*self));
        r
    }
}

} // verus!
