//! Reading the body of a shard into hashes.
//!
//! A body is a list of lines. A line is a suffix of 35 hexadecimal digits, a
//! colon and a decimal count; lines are separated by a line feed, which a
//! carriage return may precede. Each line yields one hash of 20 bytes: the
//! bytes that the five digits of the shard identifier, followed by the 35
//! digits of the suffix, spell.

use vstd::prelude::*;
use vstd::slice::slice_subrange;
use crate::misc::{is_shard_id, shard_hex, upper_hex_digit};

verus! {

/// Number of hexadecimal digits in the suffix of a line.
pub const SUFFIX_LEN: usize = 35;

/// Number of bytes in a hash.
pub const HASH_LEN: usize = 20;

/// Whether `c` is the ASCII code of a hexadecimal digit, of either case.
pub open spec fn is_hex_digit(c: u8) -> bool {
    (0x30 <= c <= 0x39) || (0x41 <= c <= 0x46) || (0x61 <= c <= 0x66)
}

/// The value of the hexadecimal digit with ASCII code `c`.
pub open spec fn hex_value(c: u8) -> int {
    if 0x30 <= c <= 0x39 {
        c - 0x30
    } else if 0x41 <= c <= 0x46 {
        c - 0x41 + 10
    } else if 0x61 <= c <= 0x66 {
        c - 0x61 + 10
    } else {
        0
    }
}

/// Whether `s` holds hexadecimal digits only.
pub open spec fn is_hex_text(s: Seq<u8>) -> bool {
    forall|i: int| 0 <= i < s.len() ==> is_hex_digit(#[trigger] s[i])
}

/// The bytes that a text of hexadecimal digits spells, two digits to a byte,
/// the high digit first.
pub open spec fn hex_bytes(s: Seq<u8>) -> Seq<u8> {
    Seq::new(s.len() / 2, |i: int| (16 * hex_value(s[2 * i]) + hex_value(s[2 * i + 1])) as u8)
}

/// The hash that the shard `prefix` and the suffix `suffix` of one of its
/// lines stand for.
pub open spec fn shard_hash(prefix: u32, suffix: Seq<u8>) -> Seq<u8> {
    hex_bytes(shard_hex(prefix) + suffix)
}

/// Whether `c` is the ASCII code of a hexadecimal digit, of either case.
pub fn is_hex(c: u8) -> (r: bool)
    ensures
        r == is_hex_digit(c),
{
    (0x30 <= c && c <= 0x39) || (0x41 <= c && c <= 0x46) || (0x61 <= c && c <= 0x66)
}

/// The value of one hexadecimal digit.
pub fn hex_digit(c: u8) -> (r: u8)
    requires
        is_hex_digit(c),
    ensures
        r == hex_value(c),
        r < 16,
{
    if c <= 0x39 {
        c - 0x30
    } else if c <= 0x46 {
        c - 0x41 + 10
    } else {
        c - 0x61 + 10
    }
}

/// `faster_hex::hex_decode_unchecked`: fills `dst` with the bytes that the
/// digits of `src` spell. For each byte of `dst` it reads two bytes of `src`
/// and looks both up in its table of digit values; it checks neither. The
/// contract asks for digits only and for a `dst` of half the length, where
/// every byte of `dst` is written and no table entry for a non-digit is used.
#[verifier::external_body]
fn hex_decode_unchecked(src: &[u8], dst: &mut Vec<u8>)
    requires
        is_hex_text(src@),
        src@.len() == 2 * old(dst)@.len(),
    ensures
        final(dst)@ == hex_bytes(src@),
{
    faster_hex::hex_decode_unchecked(src, dst.as_mut_slice());
}

/// An upper-case digit stands for the value it was written for.
pub proof fn lemma_upper_hex_digit(v: int)
    requires
        0 <= v < 16,
    ensures
        is_hex_digit(upper_hex_digit(v)),
        hex_value(upper_hex_digit(v)) == v,
{
}

/// How the digits of a shard identifier make up its upper bytes.
proof fn lemma_shard_digits(p: u32)
    requires
        p <= 0xFFFFF,
    ensures
        16 * ((p / 0x10000) % 16) + (p / 0x1000) % 16 == p / 0x1000,
        16 * ((p / 0x100) % 16) + (p / 0x10) % 16 == (p / 0x10) % 0x100,
{
    assert(16 * ((p / 0x10000) % 16) + (p / 0x1000) % 16 == p / 0x1000) by (bit_vector)
        requires
            p <= 0xFFFFF,
    ;
    assert(16 * ((p / 0x100) % 16) + (p / 0x10) % 16 == (p / 0x10) % 0x100) by (bit_vector);
}

/// What the first five digits of a hash text spell, with the digit after them.
proof fn lemma_head_bytes(prefix: u32, d: u8)
    requires
        is_shard_id(prefix),
        is_hex_digit(d),
    ensures
        16 * hex_value(shard_hex(prefix)[0]) + hex_value(shard_hex(prefix)[1]) == prefix / 0x1000,
        16 * hex_value(shard_hex(prefix)[2]) + hex_value(shard_hex(prefix)[3]) == (prefix / 0x10)
            % 0x100,
        16 * hex_value(shard_hex(prefix)[4]) + hex_value(d) == 16 * (prefix % 16) + hex_value(d),
        0 <= hex_value(d) < 16,
{
    let p = prefix as int;
    let d0 = (p / 0x10000) % 16;
    let d1 = (p / 0x1000) % 16;
    let d2 = (p / 0x100) % 16;
    let d3 = (p / 0x10) % 16;
    let d4 = p % 16;
    lemma_upper_hex_digit(d0);
    lemma_upper_hex_digit(d1);
    lemma_upper_hex_digit(d2);
    lemma_upper_hex_digit(d3);
    lemma_upper_hex_digit(d4);
    lemma_shard_digits(prefix);
    let head = shard_hex(prefix);
    assert(head[0] == upper_hex_digit(d0));
    assert(head[1] == upper_hex_digit(d1));
    assert(head[2] == upper_hex_digit(d2));
    assert(head[3] == upper_hex_digit(d3));
    assert(head[4] == upper_hex_digit(d4));
}

/// The first three bytes of every hash of a shard hold its identifier and the
/// first digit of the suffix: the low four bits of the identifier are the high
/// half of the third byte, the first digit of the suffix is its low half.
pub proof fn lemma_hash_prefix_bytes(prefix: u32, suffix: Seq<u8>)
    requires
        is_shard_id(prefix),
        suffix.len() == SUFFIX_LEN,
        is_hex_text(suffix),
    ensures
        shard_hash(prefix, suffix).len() == HASH_LEN,
        shard_hash(prefix, suffix)[0] == prefix / 0x1000,
        shard_hash(prefix, suffix)[1] == (prefix / 0x10) % 0x100,
        shard_hash(prefix, suffix)[2] == 16 * (prefix % 16) + hex_value(suffix[0]),
{
    let head = shard_hex(prefix);
    let text = head + suffix;
    assert(text.len() == 40);
    assert(is_hex_digit(suffix[0]));
    lemma_head_bytes(prefix, suffix[0]);
    assert(text[0] == head[0] && text[1] == head[1] && text[2] == head[2] && text[3] == head[3]
        && text[4] == head[4] && text[5] == suffix[0]);
}

/// From its fourth byte on, a hash holds what the suffix spells after its
/// first digit.
pub proof fn lemma_hash_tail_bytes(prefix: u32, suffix: Seq<u8>, i: int)
    requires
        suffix.len() == SUFFIX_LEN,
        3 <= i < 20,
    ensures
        shard_hash(prefix, suffix)[i] == hex_bytes(suffix.subrange(1, 35))[i - 3],
{
    let text = shard_hex(prefix) + suffix;
    let rest = suffix.subrange(1, 35);
    assert(text.len() == 40);
    assert(text[2 * i] == suffix[2 * i - 5]);
    assert(text[2 * i + 1] == suffix[2 * i - 4]);
    assert(rest[2 * (i - 3)] == suffix[2 * i - 5]);
    assert(rest[2 * (i - 3) + 1] == suffix[2 * i - 4]);
}

/// The hash of one line of the shard `prefix`, from the 35 digits of its
/// suffix.
pub fn reconstruct_hash(prefix: u32, suffix: &[u8]) -> (hash: Vec<u8>)
    requires
        is_shard_id(prefix),
        suffix@.len() == SUFFIX_LEN,
        is_hex_text(suffix@),
    ensures
        hash@ == shard_hash(prefix, suffix@),
        hash@.len() == HASH_LEN,
{
    let mut hash: Vec<u8> = Vec::new();
    hash.push((prefix / 0x1000) as u8);
    hash.push(((prefix / 0x10) % 0x100) as u8);
    assert(is_hex_digit(suffix@[0]));
    let low: u8 = hex_digit(suffix[0]);
    hash.push(((prefix % 16) * 16) as u8 + low);
    let mut tail: Vec<u8> = vec![0u8; 17];
    let rest = slice_subrange(suffix, 1, SUFFIX_LEN);
    assert forall|i: int| 0 <= i < rest@.len() implies is_hex_digit(#[trigger] rest@[i]) by {
        assert(rest@[i] == suffix@[i + 1]);
    }
    hex_decode_unchecked(rest, &mut tail);
    hash.append(&mut tail);
    proof {
        lemma_hash_prefix_bytes(prefix, suffix@);
        let want = shard_hash(prefix, suffix@);
        assert(rest@ == suffix@.subrange(1, 35));
        assert forall|i: int| 0 <= i < 20 implies hash@[i] == want[i] by {
            if i >= 3 {
                lemma_hash_tail_bytes(prefix, suffix@, i);
                assert(hash@[i] == hex_bytes(rest@)[i - 3]);
            }
        }
        assert(hash@ =~= want);
    }
    hash
}

/// A body in which no line could be read.
#[derive(Debug)]
pub struct ParseError {}

/// Whether `c` is the ASCII code of a decimal digit.
pub open spec fn is_digit(c: u8) -> bool {
    0x30 <= c <= 0x39
}

/// Number of decimal digits that stand in `s` from `pos` on, without a gap.
pub open spec fn digit_run(s: Seq<u8>, pos: int) -> nat
    decreases s.len() - pos,
{
    if 0 <= pos < s.len() && is_digit(s[pos]) {
        1 + digit_run(s, pos + 1)
    } else {
        0
    }
}

/// Whether a line stands in `s` at `pos`: 35 hexadecimal digits, a colon and
/// at least one decimal digit.
pub open spec fn line_at(s: Seq<u8>, pos: int) -> bool {
    &&& 0 <= pos
    &&& pos + SUFFIX_LEN + 2 <= s.len()
    &&& is_hex_text(s.subrange(pos, pos + SUFFIX_LEN))
    &&& s[pos + SUFFIX_LEN] == 0x3A
    &&& is_digit(s[pos + SUFFIX_LEN + 1])
}

/// Where the line at `pos` ends: behind the last digit of its count.
pub open spec fn line_end(s: Seq<u8>, pos: int) -> int {
    pos + SUFFIX_LEN + 1 + digit_run(s, pos + SUFFIX_LEN + 1)
}

/// Length of the line ending that stands in `s` at `pos`: a line feed, or a
/// carriage return and a line feed; 0 where neither stands there.
pub open spec fn line_ending_len(s: Seq<u8>, pos: int) -> int {
    if 0 <= pos < s.len() && s[pos] == 0x0A {
        1
    } else if 0 <= pos && pos + 1 < s.len() && s[pos] == 0x0D && s[pos + 1] == 0x0A {
        2
    } else {
        0
    }
}

/// A run of digits ends inside the text.
pub proof fn lemma_digit_run_bound(s: Seq<u8>, pos: int)
    requires
        0 <= pos <= s.len(),
    ensures
        pos + digit_run(s, pos) <= s.len(),
    decreases s.len() - pos,
{
    if pos < s.len() && is_digit(s[pos]) {
        lemma_digit_run_bound(s, pos + 1);
    }
}

/// Where the lines of a body start, reading from `pos`: the line at `pos`,
/// then, as long as a line ending and a further line follow, that line. A line
/// ending that no line follows belongs to what is left over.
pub open spec fn line_starts(s: Seq<u8>, pos: int) -> Seq<int>
    decreases s.len() - pos,
{
    if line_at(s, pos) {
        let next = line_end(s, pos) + line_ending_len(s, line_end(s, pos));
        if line_ending_len(s, line_end(s, pos)) > 0 {
            proof {
                lemma_digit_run_bound(s, pos + SUFFIX_LEN + 1);
            }
            seq![pos] + line_starts(s, next)
        } else {
            seq![pos]
        }
    } else {
        Seq::empty()
    }
}

/// Where the text that no line claimed begins: behind the last line, or at
/// `pos` where no line stands.
pub open spec fn rest_offset(s: Seq<u8>, pos: int) -> int {
    let starts = line_starts(s, pos);
    if starts.len() == 0 {
        pos
    } else {
        line_end(s, starts.last())
    }
}

/// The suffix of the line that starts at `pos`.
pub open spec fn suffix_at(s: Seq<u8>, pos: int) -> Seq<u8> {
    s.subrange(pos, pos + SUFFIX_LEN)
}

/// The hashes that the body `s` of the shard `prefix` holds, line by line.
pub open spec fn body_hashes(prefix: u32, s: Seq<u8>) -> Seq<Seq<u8>> {
    Seq::new(
        line_starts(s, 0).len(),
        |i: int| shard_hash(prefix, suffix_at(s, line_starts(s, 0)[i])),
    )
}

/// Every offset among the starts of the lines is one at which a line stands.
pub proof fn lemma_line_starts_are_lines(s: Seq<u8>, pos: int, i: int)
    requires
        0 <= i < line_starts(s, pos).len(),
    ensures
        line_at(s, line_starts(s, pos)[i]),
    decreases s.len() - pos,
{
    if i > 0 {
        lemma_digit_run_bound(s, pos + SUFFIX_LEN + 1);
        let next = line_end(s, pos) + line_ending_len(s, line_end(s, pos));
        assert(line_starts(s, pos) == seq![pos] + line_starts(s, next));
        assert(line_starts(s, pos)[i] == line_starts(s, next)[i - 1]);
        lemma_line_starts_are_lines(s, next, i - 1);
    }
}

/// Every hash of a shard has 20 bytes and begins with the identifier of the
/// shard: the first two bytes hold its upper sixteen bits, the high half of
/// the third its lower four.
pub proof fn lemma_body_hash(prefix: u32, s: Seq<u8>, i: int)
    requires
        is_shard_id(prefix),
        0 <= i < body_hashes(prefix, s).len(),
    ensures
        body_hashes(prefix, s)[i].len() == HASH_LEN,
        body_hashes(prefix, s)[i][0] == prefix / 0x1000,
        body_hashes(prefix, s)[i][1] == (prefix / 0x10) % 0x100,
        body_hashes(prefix, s)[i][2] / 16 == prefix % 16,
{
    lemma_line_starts_are_lines(s, 0, i);
    let suffix = suffix_at(s, line_starts(s, 0)[i]);
    lemma_hash_prefix_bytes(prefix, suffix);
    assert(is_hex_digit(suffix[0]));
}

/// The hashes of a list, each as the sequence of its bytes.
pub open spec fn hashes_view(hashes: Vec<Vec<u8>>) -> Seq<Seq<u8>> {
    Seq::new(hashes@.len(), |i: int| hashes@[i]@)
}

/// Whether the suffix of a line stands in `s` at `pos`.
pub fn parse_hash(s: &[u8], pos: usize) -> (found: bool)
    requires
        pos <= s@.len(),
    ensures
        found == (pos + SUFFIX_LEN <= s@.len() && is_hex_text(suffix_at(s@, pos as int))),
{
    if s.len() - pos < SUFFIX_LEN {
        return false;
    }
    let mut i: usize = 0;
    while i < SUFFIX_LEN
        invariant
            i <= SUFFIX_LEN,
            pos + SUFFIX_LEN <= s@.len() <= usize::MAX,
            forall|k: int| 0 <= k < i ==> is_hex_digit(#[trigger] s@[pos + k]),
        decreases SUFFIX_LEN - i,
    {
        if !is_hex(s[pos + i]) {
            proof {
                assert(suffix_at(s@, pos as int)[i as int] == s@[pos + i]);
            }
            return false;
        }
        i += 1;
    }
    proof {
        let suffix = suffix_at(s@, pos as int);
        assert forall|k: int| 0 <= k < suffix.len() implies is_hex_digit(#[trigger] suffix[k]) by {
            assert(suffix[k] == s@[pos + k]);
        }
    }
    true
}

/// Where the decimal digits that stand in `s` from `pos` on end.
pub fn skip_digits(s: &[u8], pos: usize) -> (end: usize)
    requires
        pos <= s@.len(),
    ensures
        end == pos + digit_run(s@, pos as int),
        end <= s@.len(),
{
    let mut end: usize = pos;
    while end < s.len() && 0x30 <= s[end] && s[end] <= 0x39
        invariant
            pos <= end <= s@.len(),
            end + digit_run(s@, end as int) == pos + digit_run(s@, pos as int),
        decreases s@.len() - end,
    {
        end += 1;
    }
    end
}

/// Reads the line that stands in `s` at `pos` and says where it ends; `None`
/// where no line stands there.
pub fn parse_line(s: &[u8], pos: usize) -> (end: Option<usize>)
    requires
        pos <= s@.len(),
    ensures
        end.is_some() == line_at(s@, pos as int),
        end matches Some(e) ==> e == line_end(s@, pos as int) && pos < e <= s@.len(),
{
    if !parse_hash(s, pos) {
        return None;
    }
    let len = s.len();
    let colon: usize = pos + SUFFIX_LEN;
    if len - colon < 2 || s[colon] != 0x3A {
        return None;
    }
    let first: usize = colon + 1;
    if !(0x30 <= s[first] && s[first] <= 0x39) {
        return None;
    }
    Some(skip_digits(s, first))
}

/// Length of the line ending that stands in `s` at `pos`, 0 where none does.
pub fn line_ending(s: &[u8], pos: usize) -> (n: usize)
    requires
        pos <= s@.len(),
    ensures
        n == line_ending_len(s@, pos as int),
        pos + n <= s@.len(),
{
    if pos < s.len() && s[pos] == 0x0A {
        1
    } else if s.len() - pos >= 2 && s[pos] == 0x0D && s[pos + 1] == 0x0A {
        2
    } else {
        0
    }
}

/// Reads the body `s` of the shard `prefix`. Returns the hashes of its lines,
/// in their order, and the text that no line claimed; fails where not even a
/// first line can be read.
pub fn parse_file<'a>(prefix: u32, s: &'a [u8]) -> (r: Result<(&'a [u8], Vec<Vec<u8>>), ParseError>)
    requires
        is_shard_id(prefix),
    ensures
        r.is_ok() == line_at(s@, 0),
        r matches Ok((rest, hashes)) ==> {
            &&& 0 < rest_offset(s@, 0) <= s@.len()
            &&& rest@ == s@.skip(rest_offset(s@, 0))
            &&& hashes_view(hashes) == body_hashes(prefix, s@)
            &&& forall|i: int| 0 <= i < hashes@.len() ==> (#[trigger] hashes@[i])@.len() == HASH_LEN
        },
{
    let len = s.len();
    let mut end: usize = match parse_line(s, 0) {
        Some(e) => e,
        None => {
            return Err(ParseError {  });
        },
    };
    let mut hashes: Vec<Vec<u8>> = Vec::new();
    let mut pos: usize = 0;
    let ghost mut done: Seq<int> = Seq::empty();
    loop
        invariant_except_break
            line_at(s@, pos as int),
            end == line_end(s@, pos as int),
            line_starts(s@, 0) == done + line_starts(s@, pos as int),
        invariant
            is_shard_id(prefix),
            pos < end <= s@.len() <= usize::MAX,
            hashes@.len() == done.len(),
            forall|i: int|
                0 <= i < done.len() ==> (#[trigger] hashes@[i])@ == shard_hash(
                    prefix,
                    suffix_at(s@, done[i]),
                ),
        ensures
            pos < end <= s@.len(),
            line_starts(s@, 0) == done,
            done.len() > 0 && end == line_end(s@, done.last()),
            hashes@.len() == done.len(),
            forall|i: int|
                0 <= i < done.len() ==> (#[trigger] hashes@[i])@ == shard_hash(
                    prefix,
                    suffix_at(s@, done[i]),
                ),
        decreases s@.len() - pos,
    {
        let suffix = slice_subrange(s, pos, pos + SUFFIX_LEN);
        let hash = reconstruct_hash(prefix, suffix);
        hashes.push(hash);
        let ghost line = pos as int;
        let sep = line_ending(s, end);
        let next = if sep > 0 {
            parse_line(s, end + sep)
        } else {
            None
        };
        match next {
            Some(e) => {
                proof {
                    assert(line_starts(s@, line) == seq![line] + line_starts(s@, end + sep));
                    assert(done + line_starts(s@, line) =~= done.push(line) + line_starts(
                        s@,
                        end + sep,
                    ));
                    done = done.push(line);
                }
                pos = end + sep;
                end = e;
            },
            None => {
                proof {
                    assert(line_starts(s@, line) =~= seq![line]) by {
                        if sep > 0 {
                            assert(line_starts(s@, end + sep) =~= Seq::<int>::empty());
                        }
                    }
                    assert(done + line_starts(s@, line) =~= done.push(line));
                    done = done.push(line);
                }
                break ;
            },
        }
    }
    let rest = slice_subrange(s, end, len);
    proof {
        assert(rest_offset(s@, 0) == end);
        assert(rest@ =~= s@.skip(end as int));
        assert(hashes_view(hashes) =~= body_hashes(prefix, s@));
        assert forall|i: int| 0 <= i < hashes@.len() implies (#[trigger] hashes@[i])@.len()
            == HASH_LEN by {
            lemma_body_hash(prefix, s@, i);
            assert(hashes_view(hashes)[i] == hashes@[i]@);
        }
    }
    Ok((rest, hashes))
}

/// Reconstruction: where a body starts with a line, its first hash is what the
/// five digits of the shard identifier, followed by the 35 digits of that
/// line's suffix, spell.
pub proof fn lemma_first_hash(prefix: u32, body: Seq<u8>)
    requires
        is_shard_id(prefix),
        line_at(body, 0),
    ensures
        body_hashes(prefix, body).len() >= 1,
        body_hashes(prefix, body)[0] == hex_bytes(shard_hex(prefix) + body.subrange(0, 35)),
        body_hashes(prefix, body)[0].len() == HASH_LEN,
{
    assert(line_starts(body, 0)[0] == 0);
    lemma_hash_prefix_bytes(prefix, suffix_at(body, 0));
}

} // verus!
