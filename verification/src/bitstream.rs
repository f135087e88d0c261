//! The bitstream text decoder.
//!
//! The programming file is text, handled line by line.  Lines that are
//! blank after trimming surrounding whitespace are skipped.  Within a
//! line a 16-bit accumulator starts at zero: a hexadecimal digit shifts
//! its nibble in from the right (bits shifted past 16 are silently
//! discarded); an underscore flushes the accumulator as one output word
//! and resets it; a space or tab stops the scan of the rest of the
//! line; any other character is a decoding error.  When the scan of a
//! non-blank line ends — at the end of the line or at a space or tab —
//! the accumulator is flushed as that line's final word.  The output is
//! the concatenation of all flushed words in file order.

use vstd::prelude::*;
use crate::device_error::DeviceError;

verus! {

/// Whether `b` is an ASCII hexadecimal digit.
pub open spec fn is_hex_digit(b: u8) -> bool {
    (0x30 <= b <= 0x39) || (0x41 <= b <= 0x46) || (0x61 <= b <= 0x66)
}

/// The value of the hexadecimal digit `b`.
pub open spec fn nibble_value(b: u8) -> u8 {
    if 0x30 <= b <= 0x39 {
        (b - 0x30) as u8
    } else if 0x41 <= b <= 0x46 {
        (b - 0x37) as u8
    } else {
        (b - 0x57) as u8
    }
}

/// Shift the nibble of digit `b` into the accumulator from the right,
/// silently discarding whatever is pushed past 16 bits.
pub open spec fn push_nibble(acc: u16, b: u8) -> u16 {
    (acc << 4) | (nibble_value(b) as u16)
}

/// Whether `b` is whitespace for the purpose of trimming a line's ends.
pub open spec fn is_trim_space(b: u8) -> bool {
    b == 0x20 || b == 0x09 || b == 0x0a || b == 0x0b || b == 0x0c || b == 0x0d
}

/// `s` without its leading whitespace.
pub open spec fn trim_front(s: Seq<u8>) -> Seq<u8>
    decreases s.len(),
{
    if s.len() > 0 && is_trim_space(s[0]) {
        trim_front(s.subrange(1, s.len() as int))
    } else {
        s
    }
}

/// `s` without its trailing whitespace.
pub open spec fn trim_back(s: Seq<u8>) -> Seq<u8>
    decreases s.len(),
{
    if s.len() > 0 && is_trim_space(s[s.len() - 1]) {
        trim_back(s.subrange(0, s.len() - 1))
    } else {
        s
    }
}

/// `s` without its surrounding whitespace.
pub open spec fn spec_trim(s: Seq<u8>) -> Seq<u8> {
    trim_back(trim_front(s))
}

/// The words a trimmed line yields from position `i` on with the
/// accumulator holding `acc`, or `None` on an invalid character.
///
/// At the end of the line, and at a space or tab that cuts the scan
/// short, the accumulator is flushed as the final word.  An underscore
/// flushes it and the scan continues with a fresh accumulator.
pub open spec fn line_words(s: Seq<u8>, i: int, acc: u16) -> Option<Seq<u16>>
    decreases s.len() - i,
{
    if i < 0 || i >= s.len() {
        Some(seq![acc])
    } else if s[i] == 0x5f {
        match line_words(s, i + 1, 0u16) {
            None => None,
            Some(rest) => Some(seq![acc] + rest),
        }
    } else if s[i] == 0x20 || s[i] == 0x09 {
        Some(seq![acc])
    } else if is_hex_digit(s[i]) {
        line_words(s, i + 1, push_nibble(acc, s[i]))
    } else {
        None
    }
}

/// The words the file yields from line `j` on: blank lines (after
/// trimming) are skipped, each other line contributes its words in
/// order, and an invalid character anywhere makes the whole decoding
/// fail.
pub open spec fn file_words_from(lines: Seq<Seq<u8>>, j: int) -> Option<Seq<u16>>
    decreases lines.len() - j,
{
    if j < 0 || j >= lines.len() {
        Some(Seq::empty())
    } else {
        let t = spec_trim(lines[j]);
        if t.len() == 0 {
            file_words_from(lines, j + 1)
        } else {
            match line_words(t, 0, 0u16) {
                None => None,
                Some(w) => match file_words_from(lines, j + 1) {
                    None => None,
                    Some(rest) => Some(w + rest),
                },
            }
        }
    }
}

/// The words the whole file yields, or `None` if any line holds an
/// invalid character.
pub open spec fn file_words(lines: Seq<Seq<u8>>) -> Option<Seq<u16>> {
    file_words_from(lines, 0)
}

/// The byte sequences of a vector of byte lines.
pub open spec fn views_of_lines(lines: Seq<Vec<u8>>) -> Seq<Seq<u8>> {
    Seq::new(lines.len(), |j: int| lines[j]@)
}

/// `rest` with `prefix` prepended to its words, or `None` if `rest` is.
pub open spec fn opt_prepend(prefix: Seq<u16>, rest: Option<Seq<u16>>) -> Option<Seq<u16>> {
    match rest {
        None => None,
        Some(r) => Some(prefix + r),
    }
}

/// Map an ASCII hexadecimal digit to its value, or any other byte to
/// `None`.
pub fn char_remap(c: &u8) -> (r: Option<u8>)
    ensures
        r == if is_hex_digit(*c) {
            Some(nibble_value(*c))
        } else {
            None::<u8>
        },
{
    let b = *c;
    if 0x30 <= b && b <= 0x39 {
        Some(b - 0x30)
    } else if 0x41 <= b && b <= 0x46 {
        Some(b - 0x37)
    } else if 0x61 <= b && b <= 0x66 {
        Some(b - 0x57)
    } else {
        None
    }
}

proof fn lemma_trim_front_skip(s: Seq<u8>, i: int)
    requires
        0 <= i <= s.len(),
        forall|k: int| 0 <= k < i ==> is_trim_space(s[k]),
        i == s.len() || !is_trim_space(s[i]),
    ensures
        trim_front(s) == s.subrange(i, s.len() as int),
    decreases i,
{
    if i == 0 {
        assert(s.subrange(0, s.len() as int) =~= s);
    } else {
        let s1 = s.subrange(1, s.len() as int);
        assert(is_trim_space(s[0]));
        lemma_trim_front_skip(s1, i - 1);
        assert(s1.subrange(i - 1, s1.len() as int) =~= s.subrange(i, s.len() as int));
    }
}

proof fn lemma_trim_back_skip(s: Seq<u8>, j: int)
    requires
        0 <= j <= s.len(),
        forall|k: int| j <= k < s.len() ==> is_trim_space(s[k]),
        j == 0 || !is_trim_space(s[j - 1]),
    ensures
        trim_back(s) == s.subrange(0, j),
    decreases s.len() - j,
{
    if j == s.len() {
        assert(s.subrange(0, s.len() as int) =~= s);
    } else {
        let s1 = s.subrange(0, s.len() - 1);
        assert(is_trim_space(s[s.len() - 1]));
        lemma_trim_back_skip(s1, j);
        assert(s1.subrange(0, j) =~= s.subrange(0, j));
    }
}

/// Strip the whitespace surrounding a line.
fn trim_line(line: &Vec<u8>) -> (r: Vec<u8>)
    ensures
        r@ == spec_trim(line@),
{
    let n = line.len();
    let mut start: usize = 0;
    while start < n && byte_is_trim_space(line[start])
        invariant
            start <= n,
            n == line@.len(),
            forall|k: int| 0 <= k < start ==> is_trim_space(line@[k]),
        decreases n - start,
    {
        start = start + 1;
    }
    let mut end: usize = n;
    while end > start && byte_is_trim_space(line[end - 1])
        invariant
            start <= end <= n,
            n == line@.len(),
            forall|k: int| end <= k < n ==> is_trim_space(line@[k]),
        decreases end,
    {
        end = end - 1;
    }
    let mut r: Vec<u8> = Vec::new();
    let mut i: usize = start;
    while i < end
        invariant
            start <= i <= end <= n,
            n == line@.len(),
            r@.len() == i - start,
            forall|k: int| 0 <= k < r@.len() ==> r@[k] == line@[start + k],
        decreases end - i,
    {
        r.push(line[i]);
        i = i + 1;
    }
    proof {
        lemma_trim_front_skip(line@, start as int);
        let u = line@.subrange(start as int, n as int);
        assert forall|k: int| end - start <= k < u.len() implies is_trim_space(u[k]) by {
            assert(u[k] == line@[start + k]);
        }
        lemma_trim_back_skip(u, end - start);
        assert(u.subrange(0, end - start) =~= r@);
    }
    r
}

/// Whether `b` is whitespace for the purpose of trimming a line's ends.
fn byte_is_trim_space(b: u8) -> (r: bool)
    ensures
        r == is_trim_space(b),
{
    b == 0x20 || b == 0x09 || b == 0x0a || b == 0x0b || b == 0x0c || b == 0x0d
}

/// Decode the lines of a programming file into the ordered sequence of
/// 16-bit words to upload.
///
/// Succeeds exactly when no line holds an invalid character, and then
/// returns exactly the words of [`file_words`]; otherwise reports the
/// invalid character as an `OtherError`.
pub fn decode_bitstream(lines: &Vec<Vec<u8>>) -> (r: Result<Vec<u16>, DeviceError>)
    ensures
        match r {
            Ok(words) => file_words(views_of_lines(lines@)) == Some(words@),
            Err(e) => {
                &&& file_words(views_of_lines(lines@)) is None
                &&& e matches DeviceError::OtherError(m) && m@ == "Invalid character in bitfile"@
            },
        },
{
    let ghost lv = views_of_lines(lines@);
    let mut words: Vec<u16> = Vec::new();
    let mut j: usize = 0;
    proof {
        match file_words_from(lv, 0) {
            Some(r) => {
                assert(Seq::<u16>::empty() + r =~= r);
            },
            None => {},
        }
    }
    while j < lines.len()
        invariant
            j <= lines@.len(),
            lv == views_of_lines(lines@),
            file_words(lv) == opt_prepend(words@, file_words_from(lv, j as int)),
        decreases lines@.len() - j,
    {
        let t = trim_line(&lines[j]);
        proof {
            assert(lv[j as int] == lines@[j as int]@);
            assert(t@ == spec_trim(lv[j as int]));
        }
        if t.len() > 0 {
            let mut lw: Vec<u16> = Vec::new();
            let mut acc: u16 = 0;
            let mut i: usize = 0;
            let t_len = t.len();
            while i < t_len
                invariant
                    i <= t@.len(),
                    t_len == t@.len(),
                    j < lines@.len(),
                    lv == views_of_lines(lines@),
                    t@ == spec_trim(lv[j as int]),
                    t@.len() > 0,
                    file_words(lv) == opt_prepend(words@, file_words_from(lv, j as int)),
                    line_words(t@, 0, 0u16) == opt_prepend(lw@, line_words(t@, i as int, acc)),
                ensures
                    line_words(t@, 0, 0u16) == Some(lw@ + seq![acc]),
                decreases t@.len() - i,
            {
                let c = t[i];
                let ghost lw0 = lw@;
                let ghost acc0 = acc;
                let ghost i0 = i as int;
                if c == 0x5f {
                    lw.push(acc);
                    acc = 0;
                    i = i + 1;
                    proof {
                        match line_words(t@, i0 + 1, 0u16) {
                            Some(rest) => {
                                assert((lw0 + seq![acc0]) + rest =~= lw0 + (seq![acc0] + rest));
                            },
                            None => {},
                        }
                    }
                } else if c == 0x20 || c == 0x09 {
                    proof {
                        assert(line_words(t@, i0, acc0) == Some(seq![acc0]));
                    }
                    break;
                } else {
                    match char_remap(&c) {
                        Some(nib) => {
                            acc = (acc << 4) | (nib as u16);
                            i = i + 1;
                            proof {
                                assert(line_words(t@, i0, acc0)
                                    == line_words(t@, i0 + 1, push_nibble(acc0, t@[i0])));
                            }
                        },
                        None => {
                            proof {
                                assert(line_words(t@, i0, acc0) is None);
                                assert(line_words(t@, 0, 0u16) is None);
                                assert(file_words_from(lv, j as int) is None);
                            }
                            return Err(DeviceError::OtherError(
                                String::from_str("Invalid character in bitfile"),
                            ));
                        },
                    }
                }
            }
            lw.push(acc);
            let ghost w = lw@;
            let ghost words0 = words@;
            words.append(&mut lw);
            proof {
                assert(line_words(t@, 0, 0u16) == Some(w));
                match file_words_from(lv, j as int + 1) {
                    Some(rest) => {
                        assert(file_words_from(lv, j as int) == Some(w + rest));
                        assert((words0 + w) + rest =~= words0 + (w + rest));
                    },
                    None => {
                        assert(file_words_from(lv, j as int) is None);
                    },
                }
            }
        } else {
            proof {
                assert(file_words_from(lv, j as int) == file_words_from(lv, j as int + 1));
            }
        }
        j = j + 1;
    }
    proof {
        assert(file_words_from(lv, j as int) == Some(Seq::<u16>::empty()));
        assert(words@ + Seq::<u16>::empty() =~= words@);
    }
    Ok(words)
}

} // verus!
