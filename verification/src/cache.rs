//! The dated cache: one picture file per calendar day in one directory.

use crate::date::{
    date_stamp, digit_char, digits, is_calendar_date, lemma_date_stamp_injective,
    lemma_digit_char_order, lemma_digits_injective, lemma_digits_len, pow10, CalendarDate,
    DateView,
};
use crate::names::{
    is_latest, latest_name, lemma_latest_unique, lemma_lex_le_prefix, lemma_lex_le_reflexive,
    lemma_lex_le_single, lemma_lex_le_total, lemma_lex_le_transitive, lex_le, name_le,
};
use crate::text::text_result;
use vstd::prelude::*;
use vstd::string::*;

verus! {

/// The directory of the cache below a home directory.
pub open spec fn cache_root_of(home: Seq<char>) -> Seq<char> {
    home + "/apod"@
}

/// The path of the entry called `name` in the directory `root`.
pub open spec fn entry_path(root: Seq<char>, name: Seq<char>) -> Seq<char> {
    root + "/"@ + name
}

/// The name of the file that holds the picture of a day.
pub open spec fn file_name_of(date: DateView) -> Seq<char> {
    date_stamp(date.year, date.month, date.day) + ".png"@
}

/// The path of the file that holds the picture of a day.
pub open spec fn path_of(root: Seq<char>, date: DateView) -> Seq<char> {
    entry_path(root, file_name_of(date))
}

/// The names of a listing as texts.
pub open spec fn texts_of(names: Seq<String>) -> Seq<Seq<char>> {
    Seq::new(names.len(), |i: int| names[i]@)
}

/// Why the cache offers no entry.
#[derive(Clone, Copy, Debug, PartialEq, Eq, Structural)]
pub enum CacheError {
    /// The directory is missing or cannot be listed.
    Unreadable,
    /// The directory holds nothing.
    Empty,
}

/// What listing the cache directory gave.
#[derive(Debug, PartialEq, Eq)]
pub enum Listing {
    /// The directory is missing or cannot be listed.
    Unreadable,
    /// The names of the directory's entries, in any order.
    Names(Vec<String>),
}

impl Listing {
    /// The listing of a directory that was opened, from its entries: each
    /// with its name, or with none where the entry could not be read or its
    /// name is no text. One entry without a name makes the whole listing
    /// unreadable; otherwise the listing holds the names as they came.
    pub fn from_entries(entries: Vec<Option<String>>) -> (r: Listing)
        ensures
            match r {
                Listing::Unreadable => exists|i: int|
                    0 <= i < entries@.len() && #[trigger] entries@[i] is None,
                Listing::Names(names) => {
                    &&& names@.len() == entries@.len()
                    &&& forall|i: int|
                        0 <= i < entries@.len() ==> #[trigger] entries@[i] == Some(names@[i])
                },
            },
    {
        let ghost all = entries@;
        let mut names: Vec<String> = Vec::new();
        for entry in it: entries
            invariant
                it.seq() == all,
                names@.len() == it.index(),
                forall|i: int| 0 <= i < it.index() ==> #[trigger] all[i] == Some(names@[i]),
        {
            match entry {
                Some(name) => {
                    names.push(name);
                },
                None => {
                    assert(all[it.index() as int] is None);
                    return Listing::Unreadable;
                },
            }
        }
        Listing::Names(names)
    }
}

/// What `latest_entry` gives for a listing of the directory `root`.
pub open spec fn latest_entry_of(root: Seq<char>, listing: Listing) -> Result<
    Seq<char>,
    CacheError,
> {
    match listing {
        Listing::Unreadable => Err(CacheError::Unreadable),
        Listing::Names(names) => if names@.len() == 0 {
            Err(CacheError::Empty)
        } else {
            Ok(entry_path(root, latest_name(texts_of(names@))))
        },
    }
}

/// Whether the day `a` is the day `b` or an earlier one.
pub open spec fn date_le(a: DateView, b: DateView) -> bool {
    ||| a.year < b.year
    ||| a.year == b.year && a.month < b.month
    ||| a.year == b.year && a.month == b.month && a.day <= b.day
}

/// Numbers written with the same number of digits are ordered as their
/// texts are.
pub proof fn lemma_digits_order(a: int, b: int, width: nat)
    requires
        0 <= a < pow10(width),
        0 <= b < pow10(width),
    ensures
        lex_le(digits(a, width), digits(b, width)) == (a <= b),
    decreases width,
{
    if width > 0 {
        let rest = (width - 1) as nat;
        let x = digits(a / 10, rest);
        let y = digits(b / 10, rest);
        let s = seq![digit_char(a % 10)];
        let t = seq![digit_char(b % 10)];
        lemma_digits_len(a / 10, rest);
        lemma_digits_len(b / 10, rest);
        assert(digits(a, width) =~= x + s);
        assert(digits(b, width) =~= y + t);
        lemma_lex_le_prefix(x, y, s, t);
        lemma_digits_order(a / 10, b / 10, rest);
        if x == y {
            lemma_digits_injective(a / 10, b / 10, rest);
            lemma_lex_le_single(digit_char(a % 10), digit_char(b % 10));
            lemma_digit_char_order(a % 10, b % 10);
        }
    }
}

/// With years of four digits the order of file names is the order of days:
/// the file of an earlier day comes before the file of a later day.
pub proof fn lemma_name_order_is_date_order(a: DateView, b: DateView)
    requires
        is_calendar_date(a.year, a.month, a.day),
        is_calendar_date(b.year, b.month, b.day),
        0 <= a.year <= 9999,
        0 <= b.year <= 9999,
    ensures
        lex_le(file_name_of(a), file_name_of(b)) == date_le(a, b),
{
    let tail = ".png"@;
    reveal_with_fuel(pow10, 5);
    lemma_digits_len(a.year, 4);
    lemma_digits_len(b.year, 4);
    lemma_digits_len(a.month, 2);
    lemma_digits_len(b.month, 2);
    lemma_digits_len(a.day, 2);
    lemma_digits_len(b.day, 2);
    let (ya, yb) = (digits(a.year, 4), digits(b.year, 4));
    let (ma, mb) = (digits(a.month, 2), digits(b.month, 2));
    let (da, db) = (digits(a.day, 2), digits(b.day, 2));
    assert(file_name_of(a) =~= ya + (ma + (da + tail)));
    assert(file_name_of(b) =~= yb + (mb + (db + tail)));
    lemma_lex_le_prefix(ya, yb, ma + (da + tail), mb + (db + tail));
    lemma_lex_le_prefix(ma, mb, da + tail, db + tail);
    lemma_lex_le_prefix(da, db, tail, tail);
    lemma_lex_le_reflexive(tail);
    lemma_digits_order(a.year, b.year, 4);
    lemma_digits_order(a.month, b.month, 2);
    lemma_digits_order(a.day, b.day, 2);
    if ya == yb {
        lemma_digits_injective(a.year, b.year, 4);
    }
    if ma == mb {
        lemma_digits_injective(a.month, b.month, 2);
    }
    if da == db {
        lemma_digits_injective(a.day, b.day, 2);
    }
}

/// The file names of a row of days.
pub open spec fn file_names_of(days: Seq<DateView>) -> Seq<Seq<char>> {
    Seq::new(days.len(), |i: int| file_name_of(days[i]))
}

/// In a cache that holds the files of days with years of four digits, the
/// latest entry is the file of the most recent day.
pub proof fn lemma_latest_is_most_recent(days: Seq<DateView>, latest: int)
    requires
        0 <= latest < days.len(),
        forall|i: int|
            0 <= i < days.len() ==> is_calendar_date(
                (#[trigger] days[i]).year,
                days[i].month,
                days[i].day,
            ) && 0 <= days[i].year <= 9999,
        forall|i: int| 0 <= i < days.len() ==> date_le(#[trigger] days[i], days[latest]),
    ensures
        latest_name(file_names_of(days)) == file_name_of(days[latest]),
{
    let names = file_names_of(days);
    let name = file_name_of(days[latest]);
    assert(names[latest] == name);
    assert forall|i: int| 0 <= i < names.len() implies lex_le(#[trigger] names[i], name) by {
        assert(date_le(days[i], days[latest]));
        lemma_name_order_is_date_order(days[i], days[latest]);
    }
    lemma_latest_unique(names, name);
}

/// Within one cache directory distinct days have distinct paths: two days of
/// the calendar whose paths under `root` are equal are the same day.
pub proof fn lemma_path_injective(root: Seq<char>, a: DateView, b: DateView)
    requires
        is_calendar_date(a.year, a.month, a.day),
        is_calendar_date(b.year, b.month, b.day),
        path_of(root, a) == path_of(root, b),
    ensures
        a == b,
{
    let sa = date_stamp(a.year, a.month, a.day);
    let sb = date_stamp(b.year, b.month, b.day);
    let head = root + "/"@;
    let pa = path_of(root, a);
    let pb = path_of(root, b);
    assert(pa.len() == head.len() + sa.len() + ".png"@.len());
    assert(pb.len() == head.len() + sb.len() + ".png"@.len());
    let from = head.len() as int;
    let to = from + sa.len();
    assert(pa.subrange(from, to) =~= sa);
    assert(pb.subrange(from, to) =~= sb);
    lemma_date_stamp_injective(a, b);
}

/// The cache of one user: a directory with one picture file per day.
#[derive(Debug)]
pub struct DatedCache {
    root: String,
}

impl View for DatedCache {
    type V = Seq<char>;

    /// The path of the cache directory.
    closed spec fn view(&self) -> Seq<char> {
        self.root@
    }
}

impl DatedCache {
    /// The cache in the directory `root`.
    pub fn at(root: &str) -> (r: DatedCache)
        ensures
            r@ == root@,
    {
        DatedCache { root: String::from_str(root) }
    }

    /// The cache of the user whose home directory is `home`.
    pub fn in_home(home: &str) -> (r: DatedCache)
        ensures
            r@ == cache_root_of(home@),
    {
        let mut root = String::from_str(home);
        root.append("/apod");
        DatedCache { root }
    }

    /// The path of the cache directory.
    pub fn root(&self) -> (r: &str)
        ensures
            r@ == self@,
    {
        self.root.as_str()
    }

    /// The path of the file that holds, or will hold, the picture of `date`.
    pub fn path_for(&self, date: CalendarDate) -> (p: String)
        ensures
            p@ == path_of(self@, date@),
    {
        let mut name = date.stamp();
        name.append(".png");
        self.entry(name.as_str())
    }

    /// The path of the entry called `name`.
    pub fn entry(&self, name: &str) -> (p: String)
        ensures
            p@ == entry_path(self@, name@),
    {
        let mut path = self.root.clone();
        path.append("/");
        path.append(name);
        path
    }

    /// The path of the entry that sorts last by name in a listing of the
    /// cache directory. There is none where the directory could not be
    /// listed or holds nothing.
    pub fn latest_entry(&self, listing: &Listing) -> (r: Result<String, CacheError>)
        ensures
            text_result(r) == latest_entry_of(self@, *listing),
            listing matches Listing::Names(names) ==> names@.len() > 0 ==> is_latest(
                texts_of(names@),
                latest_name(texts_of(names@)),
            ),
    {
        match listing {
            Listing::Unreadable => Err(CacheError::Unreadable),
            Listing::Names(names) => {
                if names.len() == 0 {
                    return Err(CacheError::Empty);
                }
                let ghost texts = texts_of(names@);
                let mut best: usize = 0;
                let mut i: usize = 1;
                proof {
                    lemma_lex_le_reflexive(texts[0]);
                }
                while i < names.len()
                    invariant
                        0 <= best < i <= names.len(),
                        texts == texts_of(names@),
                        forall|j: int| 0 <= j < i ==> lex_le(#[trigger] texts[j], texts[best as int]),
                    decreases names.len() - i,
                {
                    if name_le(names[best].as_str(), names[i].as_str()) {
                        proof {
                            let old_best = texts[best as int];
                            let new_best = texts[i as int];
                            lemma_lex_le_reflexive(new_best);
                            assert forall|j: int| 0 <= j < i + 1 implies lex_le(
                                #[trigger] texts[j],
                                new_best,
                            ) by {
                                if j < i {
                                    lemma_lex_le_transitive(texts[j], old_best, new_best);
                                }
                            }
                        }
                        best = i;
                    } else {
                        proof {
                            lemma_lex_le_total(texts[best as int], texts[i as int]);
                        }
                    }
                    i += 1;
                }
                proof {
                    assert(texts.contains(texts[best as int]));
                    lemma_latest_unique(texts, texts[best as int]);
                }
                Ok(self.entry(names[best].as_str()))
            },
        }
    }
}

} // verus!
