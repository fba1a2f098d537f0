//! Save slots: where the save of a slot lives, and which slots a directory
//! listing holds. Reading and writing the files is done outside the library.

use vstd::prelude::*;
use vstd::string::{StrSliceExecFns, StringExecFns};

verus! {

/// The decimal digit `d` as a character.
pub open spec fn digit_char(d: nat) -> char {
    if d == 0 { '0' }
    else if d == 1 { '1' }
    else if d == 2 { '2' }
    else if d == 3 { '3' }
    else if d == 4 { '4' }
    else if d == 5 { '5' }
    else if d == 6 { '6' }
    else if d == 7 { '7' }
    else if d == 8 { '8' }
    else { '9' }
}

/// The value of a decimal digit character (meaningful for `'0'..='9'`).
pub open spec fn char_value(c: char) -> nat {
    (c as int - '0' as int) as nat
}

/// Whether `c` is one of `'0'..='9'`.
pub open spec fn is_digit(c: char) -> bool {
    '0' <= c && c <= '9'
}

/// Decimal representation of `n`, without leading zeros (as `Display` prints
/// an unsigned integer).
pub open spec fn decimal(n: nat) -> Seq<char>
    decreases n,
{
    if n < 10 {
        seq![digit_char(n)]
    } else {
        decimal(n / 10).push(digit_char(n % 10))
    }
}

/// Value of a string of decimal digits.
pub open spec fn digits_value(s: Seq<char>) -> nat
    decreases s.len(),
{
    if s.len() == 0 {
        0
    } else {
        digits_value(s.drop_last()) * 10 + char_value(s.last())
    }
}

/// `s` without its leading `+`, if it has one.
pub open spec fn unsigned_body(s: Seq<char>) -> Seq<char> {
    if s.len() > 0 && s[0] == '+' { s.drop_first() } else { s }
}

/// Whether every character of `s` is a decimal digit.
pub open spec fn all_digits(s: Seq<char>) -> bool {
    forall|i: int| 0 <= i < s.len() ==> is_digit(#[trigger] s[i])
}

/// What `u32::from_str` accepts: an optional `+`, then one or more decimal
/// digits whose value fits in a `u32`.
pub open spec fn parse_u32(s: Seq<char>) -> Option<u32> {
    let body = unsigned_body(s);
    if body.len() > 0 && all_digits(body) && digits_value(body) <= u32::MAX {
        Some(digits_value(body) as u32)
    } else {
        None
    }
}

/// The file-name prefix of save files.
pub open spec fn save_prefix() -> Seq<char> {
    seq!['s', 'a', 'v', 'e', '_']
}

/// The file-name suffix of save files.
pub open spec fn save_suffix() -> Seq<char> {
    seq!['.', 'j', 's', 'o', 'n']
}

/// The file name of the save in `slot`.
pub open spec fn save_file_name(slot: u32) -> Seq<char> {
    save_prefix() + decimal(slot as nat) + save_suffix()
}

/// The slot that a file name denotes: `save_<n>.json` where `<n>` parses as
/// a `u32`.
pub open spec fn slot_of(name: Seq<char>) -> Option<u32> {
    if name.len() >= 10 && name.subrange(0, 5) == save_prefix()
        && name.subrange(name.len() - 5, name.len() as int) == save_suffix() {
        parse_u32(name.subrange(5, name.len() - 5))
    } else {
        None
    }
}

/// The slots that the names denote, in order.
pub open spec fn slots_of(names: Seq<Seq<char>>) -> Seq<u32>
    decreases names.len(),
{
    if names.len() == 0 {
        Seq::empty()
    } else {
        match slot_of(names.last()) {
            Some(s) => slots_of(names.drop_last()).push(s),
            None => slots_of(names.drop_last()),
        }
    }
}

/// Ascending order.
pub open spec fn sorted(s: Seq<u32>) -> bool {
    forall|i: int, j: int| 0 <= i <= j < s.len() ==> s[i] <= s[j]
}

/// The one-character string of the decimal digit `d`.
fn digit_str(d: u32) -> (r: &'static str)
    requires
        d < 10,
    ensures
        r@ == seq![digit_char(d as nat)],
{
    if d == 0 {
        proof { reveal_strlit("0"); }
        "0"
    } else if d == 1 {
        proof { reveal_strlit("1"); }
        "1"
    } else if d == 2 {
        proof { reveal_strlit("2"); }
        "2"
    } else if d == 3 {
        proof { reveal_strlit("3"); }
        "3"
    } else if d == 4 {
        proof { reveal_strlit("4"); }
        "4"
    } else if d == 5 {
        proof { reveal_strlit("5"); }
        "5"
    } else if d == 6 {
        proof { reveal_strlit("6"); }
        "6"
    } else if d == 7 {
        proof { reveal_strlit("7"); }
        "7"
    } else if d == 8 {
        proof { reveal_strlit("8"); }
        "8"
    } else {
        proof { reveal_strlit("9"); }
        "9"
    }
}

/// Appends the decimal representation of `n` to `out`.
fn append_decimal(out: &mut String, n: u32)
    ensures
        final(out)@ == old(out)@ + decimal(n as nat),
    decreases n,
{
    if n >= 10 {
        append_decimal(out, n / 10);
    }
    let ghost mid = out@;
    out.append(digit_str(n % 10));
    proof {
        if n >= 10 {
            assert(out@ =~= old(out)@ + decimal(n as nat));
        } else {
            assert(out@ =~= old(out)@ + decimal(n as nat));
        }
    }
}

/// Keeps the directory that holds the save files, one file per slot.
pub struct SaveSystem {
    save_directory: String,
}

impl SaveSystem {
    /// The directory of the save files.
    pub closed spec fn directory(&self) -> Seq<char> {
        self.save_directory@
    }

    /// A save system for the files in `save_directory`.
    pub fn new(save_directory: &str) -> (r: Self)
        ensures
            r.directory() == save_directory@,
    {
        SaveSystem { save_directory: save_directory.to_owned() }
    }

    /// The path of the save file of `slot`: `<directory>/save_<slot>.json`.
    pub fn save_file_path(&self, slot: u32) -> (r: String)
        ensures
            r@ == self.directory() + seq!['/'] + save_file_name(slot),
    {
        let mut path = self.save_directory.clone();
        proof { reveal_strlit("/save_"); }
        path.append("/save_");
        append_decimal(&mut path, slot);
        proof { reveal_strlit(".json"); }
        path.append(".json");
        proof {
            assert(path@ =~= self.directory() + seq!['/'] + save_file_name(slot));
        }
        path
    }
}

/// A prefix of a digit string is worth no more than the whole.
proof fn lemma_digits_value_prefix(s: Seq<char>, k: int)
    requires
        0 <= k <= s.len(),
    ensures
        digits_value(s.take(k)) <= digits_value(s),
    decreases s.len(),
{
    if k < s.len() {
        lemma_digits_value_prefix(s.drop_last(), k);
        assert(s.drop_last().take(k) =~= s.take(k));
    } else {
        assert(s.take(k) =~= s);
    }
}

/// The slot that `file_name` denotes, if it is the name of a save file.
pub fn parse_slot(file_name: &str) -> (r: Option<u32>)
    ensures
        r == slot_of(file_name@),
{
    let ghost name = file_name@;
    let len = file_name.unicode_len();
    if len < 10 {
        return None;
    }
    let end = len - 5;
    if !(file_name.get_char(0) == 's' && file_name.get_char(1) == 'a' && file_name.get_char(2) == 'v'
        && file_name.get_char(3) == 'e' && file_name.get_char(4) == '_') {
        proof {
            assert(name.subrange(0, 5) != save_prefix()) by {
                if name.subrange(0, 5) == save_prefix() {
                    assert(name.subrange(0, 5)[0] == name[0]);
                    assert(name.subrange(0, 5)[1] == name[1]);
                    assert(name.subrange(0, 5)[2] == name[2]);
                    assert(name.subrange(0, 5)[3] == name[3]);
                    assert(name.subrange(0, 5)[4] == name[4]);
                }
            }
        }
        return None;
    }
    if !(file_name.get_char(end) == '.' && file_name.get_char(end + 1) == 'j'
        && file_name.get_char(end + 2) == 's' && file_name.get_char(end + 3) == 'o'
        && file_name.get_char(end + 4) == 'n') {
        proof {
            let tail = name.subrange(end as int, len as int);
            assert(tail != save_suffix()) by {
                if tail == save_suffix() {
                    assert(tail[0] == name[end as int]);
                    assert(tail[1] == name[end + 1]);
                    assert(tail[2] == name[end + 2]);
                    assert(tail[3] == name[end + 3]);
                    assert(tail[4] == name[end + 4]);
                }
            }
        }
        return None;
    }
    proof {
        assert(name.subrange(0, 5) =~= save_prefix());
        assert(name.subrange(end as int, len as int) =~= save_suffix());
    }
    let ghost middle = name.subrange(5, end as int);
    let mut start: usize = 5;
    if start < end && file_name.get_char(start) == '+' {
        start = 6;
    }
    let ghost body = name.subrange(start as int, end as int);
    proof {
        assert(slot_of(name) == parse_u32(middle));
        if middle.len() > 0 && middle[0] == '+' {
            assert(start == 6);
        } else {
            assert(start == 5);
        }
        if start == 6 {
            assert(body =~= middle.drop_first());
        } else {
            assert(body =~= middle);
        }
    }
    if start == end {
        return None;
    }
    let mut value: u64 = 0;
    let mut i: usize = start;
    while i < end
        invariant
            5 <= start <= i <= end,
            end + 5 == len,
            len == name.len(),
            name == file_name@,
            body == name.subrange(start as int, end as int),
            slot_of(name) == parse_u32(middle),
            middle == name.subrange(5, end as int),
            body == unsigned_body(middle),
            forall|k: int| 0 <= k < i - start ==> is_digit(#[trigger] body[k]),
            value == digits_value(body.take(i - start)),
            value <= u32::MAX,
        decreases end - i,
    {
        let c = file_name.get_char(i);
        assert(c == body[i - start]);
        if !('0' <= c && c <= '9') {
            proof {
                assert(!is_digit(body[i - start]));
                assert(!all_digits(body));
                assert(parse_u32(middle) is None);
            }
            return None;
        }
        proof {
            assert(body.take(i - start + 1).drop_last() =~= body.take(i - start));
        }
        let d: u64 = (c as u32 - '0' as u32) as u64;
        value = value * 10 + d;
        proof {
            assert(value == digits_value(body.take(i - start + 1)));
        }
        if value > 4294967295u64 {
            proof {
                lemma_digits_value_prefix(body, i - start + 1);
                assert(digits_value(body) > u32::MAX);
            }
            return None;
        }
        i = i + 1;
    }
    proof {
        assert(body.take(i - start) =~= body);
    }
    Some(value as u32)
}

/// The save slots among `file_names`, in ascending order; names that are not
/// save-file names are skipped.
pub fn slots_from_file_names(file_names: &Vec<String>) -> (r: Vec<u32>)
    ensures
        sorted(r@),
        r@.to_multiset() == slots_of(file_names@.map_values(|s: String| s@)).to_multiset(),
{
    let ghost names = file_names@.map_values(|s: String| s@);
    let mut slots: Vec<u32> = Vec::new();
    let n = file_names.len();
    proof {
        assert(names.take(0) =~= Seq::<Seq<char>>::empty());
        assert(slots@ =~= Seq::<u32>::empty());
    }
    for i in 0..n
        invariant
            n == file_names@.len(),
            names == file_names@.map_values(|s: String| s@),
            sorted(slots@),
            slots@.to_multiset() == slots_of(names.take(i as int)).to_multiset(),
    {
        proof {
            assert(names.take(i + 1).drop_last() =~= names.take(i as int));
            assert(names.take(i + 1).last() == file_names@[i as int]@);
        }
        if let Some(slot) = parse_slot(file_names[i].as_str()) {
            let len = slots.len();
            let mut p: usize = 0;
            while p < len && slots[p] <= slot
                invariant
                    len == slots@.len(),
                    0 <= p <= len,
                    forall|k: int| 0 <= k < p ==> slots@[k] <= slot,
                decreases len - p,
            {
                p = p + 1;
            }
            let ghost before = slots@;
            slots.insert(p, slot);
            proof {
                vstd::seq_lib::to_multiset_insert(before, p as int, slot);
                vstd::seq_lib::to_multiset_build(slots_of(names.take(i as int)), slot);
                assert forall|a: int, b: int| 0 <= a <= b < slots@.len() implies slots@[a] <= slots@[b] by {
                    if p < len {
                        assert(before[p as int] > slot);
                    }
                    if a < p && b > p {
                        assert(before[a] <= before[b - 1]);
                    }
                }
            }
        }
    }
    proof {
        assert(names.take(n as int) =~= names);
    }
    slots
}

/// Digit characters are digits, worth their digit.
proof fn lemma_digit_char(d: nat)
    requires
        d < 10,
    ensures
        is_digit(digit_char(d)),
        char_value(digit_char(d)) == d,
{
}

/// The decimal representation of `n` is a non-empty digit string worth `n`.
pub proof fn lemma_decimal(n: nat)
    ensures
        decimal(n).len() >= 1,
        all_digits(decimal(n)),
        digits_value(decimal(n)) == n,
    decreases n,
{
    lemma_digit_char(n % 10);
    if n >= 10 {
        lemma_decimal(n / 10);
        let d = decimal(n);
        assert(d.drop_last() =~= decimal(n / 10));
        assert(d.last() == digit_char(n % 10));
        assert(digits_value(d) == digits_value(decimal(n / 10)) * 10 + char_value(digit_char(n % 10)));
        assert((n / 10) * 10 + n % 10 == n);
        assert forall|i: int| 0 <= i < d.len() implies is_digit(#[trigger] d[i]) by {
            if i < d.len() - 1 {
                assert(d[i] == decimal(n / 10)[i]);
            }
        }
    } else {
        let d = decimal(n);
        assert(d.drop_last() =~= Seq::<char>::empty());
        assert(digits_value(d.drop_last()) == 0);
    }
}

/// A save file is found again in its slot: the name under which a slot is
/// saved is a save-file name, and it denotes that slot.
pub proof fn law_save_name_round_trip(slot: u32)
    ensures
        slot_of(save_file_name(slot)) == Some(slot),
{
    lemma_decimal(slot as nat);
    let name = save_file_name(slot);
    let dec = decimal(slot as nat);
    assert(name.subrange(0, 5) =~= save_prefix());
    assert(name.subrange(name.len() - 5, name.len() as int) =~= save_suffix());
    assert(name.subrange(5, name.len() - 5) =~= dec);
    assert(is_digit(dec[0]));
    assert(unsigned_body(dec) == dec);
}

} // verus!
