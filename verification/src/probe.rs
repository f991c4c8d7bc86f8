//! Reading the probed frequency files: each holds the maximum clock
//! frequency of one core, in kHz, as a decimal number in surrounding white
//! space.

use vstd::prelude::*;
use crate::sorting::CoreFreq;
use crate::topology::core_ids;

verus! {

/// Number of core indices that are probed: the indices below it.
pub const MAX_PROBED_CORES: usize = 16;

/// Whether `c` is white space, as Unicode defines it.
pub open spec fn is_space(c: char) -> bool {
    let n = c as u32;
    ||| 0x09 <= n <= 0x0D
    ||| n == 0x20
    ||| n == 0x85
    ||| n == 0xA0
    ||| n == 0x1680
    ||| 0x2000 <= n <= 0x200A
    ||| n == 0x2028
    ||| n == 0x2029
    ||| n == 0x202F
    ||| n == 0x205F
    ||| n == 0x3000
}

/// Whether `c` is one of the digits `0` to `9`.
pub open spec fn is_digit(c: char) -> bool {
    0x30 <= c as u32 <= 0x39
}

/// `s` without the white space at its start.
pub open spec fn trim_start(s: Seq<char>) -> Seq<char>
    decreases s.len(),
{
    if s.len() > 0 && is_space(s.first()) {
        trim_start(s.drop_first())
    } else {
        s
    }
}

/// `s` without the white space at its end.
pub open spec fn trim_end(s: Seq<char>) -> Seq<char>
    decreases s.len(),
{
    if s.len() > 0 && is_space(s.last()) {
        trim_end(s.drop_last())
    } else {
        s
    }
}

/// The number that the decimal digits `digits` write.
pub open spec fn decimal_value(digits: Seq<char>) -> nat
    decreases digits.len(),
{
    if digits.len() == 0 {
        0
    } else {
        (10 * decimal_value(digits.drop_last()) + (digits.last() as u32 - 0x30)) as nat
    }
}

/// Whether every entry of `s` is a decimal digit.
pub open spec fn all_digits(s: Seq<char>) -> bool {
    forall|i: int| 0 <= i < s.len() ==> is_digit(#[trigger] s[i])
}

/// The frequency that `text` holds.
///
/// White space around the number is skipped and one `+` before it is
/// allowed. What is left must be one or more decimal digits that write a
/// number no larger than the largest `u64`; else there is no frequency.
pub open spec fn parsed_frequency(text: Seq<char>) -> Option<u64> {
    let word = trim_end(trim_start(text));
    let digits = if word.len() > 0 && word[0] == '+' {
        word.skip(1)
    } else {
        word
    };
    if digits.len() > 0 && all_digits(digits) && decimal_value(digits) <= u64::MAX {
        Some(decimal_value(digits) as u64)
    } else {
        None
    }
}

/// The files that are looked at: those of the core indices that are probed.
pub open spec fn probed_files(files: Seq<Option<String>>) -> Seq<Option<String>> {
    if files.len() > MAX_PROBED_CORES {
        files.take(MAX_PROBED_CORES as int)
    } else {
        files
    }
}

/// The cores that could be read: for each index whose file was read and
/// holds a frequency, the index and that frequency, by rising index.
pub open spec fn readable_cores(files: Seq<Option<String>>) -> Seq<CoreFreq>
    decreases files.len(),
{
    if files.len() == 0 {
        Seq::empty()
    } else {
        let earlier = readable_cores(files.drop_last());
        match files.last() {
            Some(text) => match parsed_frequency(text@) {
                Some(freq) => earlier.push(((files.len() - 1) as usize, freq)),
                None => earlier,
            },
            None => earlier,
        }
    }
}

/// A number of digits is worth at least as much as any of its beginnings.
proof fn lemma_decimal_value_grows(digits: Seq<char>, n: int)
    requires
        0 <= n <= digits.len(),
        all_digits(digits),
    ensures
        decimal_value(digits.take(n)) <= decimal_value(digits),
    decreases digits.len() - n,
{
    if n == digits.len() {
        assert(digits.take(n) =~= digits);
    } else {
        let front = digits.drop_last();
        assert(is_digit(digits.last()));
        if n == front.len() {
            assert(digits.take(n) =~= front);
        } else {
            assert(front.take(n) =~= digits.take(n));
            assert forall|i: int| 0 <= i < front.len() implies is_digit(#[trigger] front[i]) by {
                assert(front[i] == digits[i]);
            }
            lemma_decimal_value_grows(front, n);
        }
    }
}

/// Skipping white space at the start leaves the text from the first
/// character on that is none.
proof fn lemma_trim_start_is_skip(s: Seq<char>, from: int)
    requires
        0 <= from <= s.len(),
        forall|i: int| 0 <= i < from ==> is_space(#[trigger] s[i]),
        from < s.len() ==> !is_space(s[from]),
    ensures
        trim_start(s) == s.skip(from),
    decreases from,
{
    if from == 0 {
        assert(s.skip(0) =~= s);
    } else {
        assert(is_space(s[0]));
        let rest = s.drop_first();
        assert forall|i: int| 0 <= i < from - 1 implies is_space(#[trigger] rest[i]) by {
            assert(rest[i] == s[i + 1]);
        }
        lemma_trim_start_is_skip(rest, from - 1);
        assert(rest.skip(from - 1) =~= s.skip(from));
    }
}

/// Skipping white space at the end leaves the text up to the last character
/// that is none.
proof fn lemma_trim_end_is_take(s: Seq<char>, to: int)
    requires
        0 <= to <= s.len(),
        forall|i: int| to <= i < s.len() ==> is_space(#[trigger] s[i]),
        to > 0 ==> !is_space(s[to - 1]),
    ensures
        trim_end(s) == s.take(to),
    decreases s.len() - to,
{
    if to == s.len() {
        assert(s.take(to) =~= s);
    } else {
        assert(is_space(s[s.len() - 1]));
        let rest = s.drop_last();
        assert forall|i: int| to <= i < rest.len() implies is_space(#[trigger] rest[i]) by {
            assert(rest[i] == s[i]);
        }
        lemma_trim_end_is_take(rest, to);
        assert(rest.take(to) =~= s.take(to));
    }
}

/// Whether `c` is white space, as Unicode defines it.
fn char_is_space(c: char) -> (space: bool)
    ensures
        space == is_space(c),
{
    let n = c as u32;
    (0x09 <= n && n <= 0x0D) || n == 0x20 || n == 0x85 || n == 0xA0 || n == 0x1680 || (0x2000 <= n
        && n <= 0x200A) || n == 0x2028 || n == 0x2029 || n == 0x202F || n == 0x205F || n
        == 0x3000
}

/// The characters of `text`, one by one.
fn chars_of(text: &str) -> (chars: Vec<char>)
    ensures
        chars@ == text@,
{
    broadcast use vstd::string::axiom_spec_iter;

    let mut chars: Vec<char> = Vec::new();
    for c in it: text.chars()
        invariant
            it.seq() == text@,
            chars@ == text@.take(it.index() as int),
    {
        chars.push(c);
        proof {
            assert(chars@ =~= text@.take(it.index() + 1));
        }
    }
    proof {
        assert(text@.take(text@.len() as int) =~= text@);
    }
    chars
}

/// Reads the frequency that `text` holds, if it holds one.
pub fn parse_frequency(text: &str) -> (freq: Option<u64>)
    ensures
        freq == parsed_frequency(text@),
{
    let chars = chars_of(text);
    let mut start: usize = 0;
    while start < chars.len() && char_is_space(chars[start])
        invariant
            start <= chars@.len(),
            forall|i: int| 0 <= i < start ==> is_space(#[trigger] chars@[i]),
        decreases chars.len() - start,
    {
        start += 1;
    }
    let mut end: usize = chars.len();
    while end > start && char_is_space(chars[end - 1])
        invariant
            start <= end <= chars@.len(),
            forall|i: int| end - start <= i < chars@.len() - start ==> is_space(
                #[trigger] chars@.skip(start as int)[i],
            ),
        decreases end,
    {
        end -= 1;
    }
    let ghost word = chars@.subrange(start as int, end as int);
    proof {
        lemma_trim_start_is_skip(chars@, start as int);
        let tail = chars@.skip(start as int);
        if end > start {
            assert(tail[end - start - 1] == chars@[end - 1]);
        }
        lemma_trim_end_is_take(tail, end - start);
        assert(tail.take(end - start) =~= word);
    }
    let first: usize = if start < end && chars[start] == '+' {
        start + 1
    } else {
        start
    };
    let ghost digits = chars@.subrange(first as int, end as int);
    proof {
        if first > start {
            assert(word[0] == '+');
            assert(word.skip(1) =~= digits);
        } else {
            assert(word =~= digits);
        }
    }
    if first == end {
        return None;
    }
    let mut value: u64 = 0;
    let mut i: usize = first;
    proof {
        assert(digits.take(0) =~= Seq::<char>::empty());
    }
    while i < end
        invariant
            first <= i <= end <= chars@.len(),
            digits == chars@.subrange(first as int, end as int),
            parsed_frequency(text@) == if all_digits(digits) && decimal_value(digits) <= u64::MAX {
                Some(decimal_value(digits) as u64)
            } else {
                None::<u64>
            },
            all_digits(digits.take(i - first)),
            value == decimal_value(digits.take(i - first)),
        decreases end - i,
    {
        let n = chars[i] as u32;
        proof {
            assert(digits[i - first] == chars@[i as int]);
            assert(digits.take(i - first + 1).drop_last() =~= digits.take(i - first));
        }
        if n < 0x30 || n > 0x39 {
            proof {
                assert(!is_digit(digits[i - first]));
            }
            return None;
        }
        let digit = (n - 0x30) as u64;
        proof {
            assert forall|k: int| 0 <= k < i - first + 1 implies is_digit(
                #[trigger] digits.take(i - first + 1)[k],
            ) by {
                if k < i - first {
                    assert(digits.take(i - first)[k] == digits.take(i - first + 1)[k]);
                }
            }
            if all_digits(digits) {
                lemma_decimal_value_grows(digits, i - first + 1);
            }
        }
        if value > (u64::MAX - digit) / 10 {
            proof {
                assert(decimal_value(digits.take(i - first + 1)) == 10 * value + digit);
                assert(10 * value + digit > u64::MAX);
            }
            return None;
        }
        value = value * 10 + digit;
        i += 1;
    }
    proof {
        assert(digits.take(end - first) =~= digits);
    }
    Some(value)
}

/// Collects the cores that could be read. `files[i]` is what the frequency
/// file of core `i` holds, or nothing where it could not be read. A core
/// whose file could not be read, or holds no frequency, is left out, and so
/// is every core from index 16 on.
pub fn collect_readings(files: &[Option<String>]) -> (readings: Vec<CoreFreq>)
    ensures
        readings@ == readable_cores(probed_files(files@)),
{
    let mut readings: Vec<CoreFreq> = Vec::new();
    let count = if files.len() > MAX_PROBED_CORES {
        MAX_PROBED_CORES
    } else {
        files.len()
    };
    let mut cpu: usize = 0;
    while cpu < count
        invariant
            cpu <= count <= files@.len(),
            readings@ == readable_cores(files@.take(cpu as int)),
        decreases count - cpu,
    {
        proof {
            assert(files@.take(cpu + 1).drop_last() =~= files@.take(cpu as int));
        }
        match &files[cpu] {
            Some(text) => {
                match parse_frequency(text.as_str()) {
                    Some(freq) => {
                        readings.push((cpu, freq));
                    },
                    None => {},
                }
            },
            None => {},
        }
        cpu += 1;
    }
    proof {
        assert(files@.take(files@.len() as int) =~= files@);
    }
    readings
}

/// Every core that is read carries one of the probed indices.
pub proof fn lemma_readable_cores_are_probed(files: Seq<Option<String>>)
    ensures
        forall|i: int|
            0 <= i < readable_cores(probed_files(files)).len() ==> (#[trigger] readable_cores(
                probed_files(files),
            )[i]).0 < MAX_PROBED_CORES,
        readable_cores(probed_files(files)).len() <= MAX_PROBED_CORES,
{
    lemma_readable_cores_are_distinct(probed_files(files));
}

/// No core is read twice: the indices of the readable cores rise strictly
/// and stay below the number of files, as long as every index fits a
/// `usize`.
pub proof fn lemma_readable_cores_are_distinct(files: Seq<Option<String>>)
    requires
        files.len() <= usize::MAX,
    ensures
        forall|i: int|
            0 <= i < readable_cores(files).len() ==> (#[trigger] readable_cores(files)[i]).0
                < files.len(),
        forall|i: int, j: int|
            0 <= i < j < readable_cores(files).len() ==> (#[trigger] readable_cores(files)[i]).0 < (
            #[trigger] readable_cores(files)[j]).0,
        core_ids(readable_cores(files)).no_duplicates(),
        readable_cores(files).len() <= files.len(),
    decreases files.len(),
{
    let cores = readable_cores(files);
    if files.len() > 0 {
        let earlier = readable_cores(files.drop_last());
        lemma_readable_cores_are_distinct(files.drop_last());
        assert forall|i: int, j: int| 0 <= i < j < cores.len() implies (#[trigger] cores[i]).0 < (
        #[trigger] cores[j]).0 by {
            assert(cores[i] == earlier[i]);
            if j < earlier.len() {
                assert(cores[j] == earlier[j]);
            }
        }
    }
    assert forall|i: int, j: int|
        0 <= i < core_ids(cores).len() && 0 <= j < core_ids(cores).len() && i != j implies core_ids(
        cores,
    )[i] != core_ids(cores)[j] by {
        if i < j {
            assert(cores[i].0 < cores[j].0);
        } else {
            assert(cores[j].0 < cores[i].0);
        }
    }
}

} // verus!
