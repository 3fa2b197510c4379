//! The one route of the relay: a request path of the form
//! `/<channel>/<minimum height>`, both parts optional.

use vstd::prelude::*;
use vstd::slice::slice_subrange;

verus! {

/// What a request asks for.
#[derive(Debug)]
pub struct Route {
    /// The name of the channel, as the bytes of the path give it.
    pub channel: Vec<u8>,
    /// The least height that the client accepts.
    pub minimum_height: u32,
}

/// The channel that is played where the path names none: `hungry`.
pub open spec fn default_channel() -> Seq<u8> {
    seq![104u8, 117u8, 110u8, 103u8, 114u8, 121u8]
}

/// Where the first `/` of `path` stands, or the length of `path` where it
/// holds none.
pub open spec fn first_slash(path: Seq<u8>) -> int
    decreases path.len(),
{
    if path.len() == 0 || path[0] == 47 {
        0
    } else {
        1 + first_slash(path.skip(1))
    }
}

/// Piece `k` of `path` when it is cut at every `/`, if there are that many.
pub open spec fn segment(path: Seq<u8>, k: nat) -> Option<Seq<u8>>
    decreases k,
{
    let cut = first_slash(path);
    if k == 0 {
        Some(path.take(cut))
    } else if cut < path.len() {
        segment(path.skip(cut + 1), (k - 1) as nat)
    } else {
        None
    }
}

/// Whether `byte` is a decimal digit.
pub open spec fn is_digit(byte: u8) -> bool {
    48 <= byte <= 57
}

/// The number that the decimal digits `digits` write.
pub open spec fn decimal(digits: Seq<u8>) -> nat
    decreases digits.len(),
{
    if digits.len() == 0 {
        0
    } else {
        decimal(digits.drop_last()) * 10 + (digits.last() - 48) as nat
    }
}

/// The digits of `text` once a leading `+` is taken off.
pub open spec fn unsigned_part(text: Seq<u8>) -> Seq<u8> {
    if text.len() > 0 && text[0] == 43 {
        text.skip(1)
    } else {
        text
    }
}

/// The height that `text` writes: a decimal number that fits 32 bits, with
/// at least one digit and at most a `+` before the digits.
pub open spec fn height_of(text: Seq<u8>) -> Option<u32> {
    let digits = unsigned_part(text);
    if digits.len() > 0 && (forall|i: int| 0 <= i < digits.len() ==> is_digit(#[trigger] digits[i]))
        && decimal(digits) <= u32::MAX {
        Some(decimal(digits) as u32)
    } else {
        None
    }
}

/// The channel and the minimum height that `path` asks for. The channel is
/// the piece after the first `/`, or the default where that piece is
/// missing or empty; the height is what the piece after the second `/`
/// writes, or 0 where that piece is missing or writes no height.
pub open spec fn route_of(path: Seq<u8>) -> (Seq<u8>, u32) {
    (
        match segment(path, 1) {
            Some(name) => if name.len() > 0 {
                name
            } else {
                default_channel()
            },
            None => default_channel(),
        },
        match segment(path, 2) {
            Some(text) => match height_of(text) {
                Some(height) => height,
                None => 0,
            },
            None => 0,
        },
    )
}

/// A longer row of digits writes a number at least as large as any of its
/// prefixes.
proof fn lemma_decimal_grows(digits: Seq<u8>, i: int)
    requires
        0 <= i <= digits.len(),
        forall|j: int| 0 <= j < digits.len() ==> is_digit(#[trigger] digits[j]),
    ensures
        decimal(digits.take(i)) <= decimal(digits),
    decreases digits.len() - i,
{
    if i == digits.len() {
        assert(digits.take(i) =~= digits);
    } else {
        lemma_decimal_grows(digits, i + 1);
        assert(digits.take(i + 1).drop_last() =~= digits.take(i));
        assert(is_digit(digits[i]));
        assert(digits.take(i + 1).last() == digits[i]);
    }
}

/// The first `/` of the rest of `path` from `from` on, as an index into
/// `path`.
fn find_slash(path: &[u8], from: usize) -> (at: usize)
    requires
        from <= path@.len(),
    ensures
        from <= at <= path@.len(),
        at == from + first_slash(path@.skip(from as int)),
{
    let mut at = from;
    while at < path.len() && path[at] != 47
        invariant
            from <= at <= path@.len(),
            first_slash(path@.skip(from as int)) == (at - from) + first_slash(
                path@.skip(at as int),
            ),
        decreases path@.len() - at,
    {
        proof {
            let rest = path@.skip(at as int);
            assert(rest[0] == path@[at as int]);
            assert(rest.skip(1) =~= path@.skip(at + 1));
        }
        at = at + 1;
    }
    proof {
        let rest = path@.skip(at as int);
        if at < path@.len() {
            assert(rest[0] == path@[at as int]);
        }
    }
    at
}

/// The height that `text` writes, if it writes one.
pub fn parse_height(text: &[u8]) -> (height: Option<u32>)
    ensures
        height == height_of(text@),
{
    let start: usize = if text.len() > 0 && text[0] == 43 {
        1
    } else {
        0
    };
    let ghost digits = unsigned_part(text@);
    proof {
        if start == 0 {
            assert(digits =~= text@.skip(0));
        }
    }
    if start == text.len() {
        return None;
    }
    let mut value: u64 = 0;
    let mut index = start;
    while index < text.len()
        invariant
            start <= index <= text@.len(),
            digits == text@.skip(start as int),
            digits == unsigned_part(text@),
            start < text@.len(),
            forall|j: int| 0 <= j < index - start ==> is_digit(#[trigger] digits[j]),
            value == decimal(digits.take(index - start)),
            value <= u32::MAX,
        decreases text@.len() - index,
    {
        let byte = text[index];
        proof {
            assert(digits[index - start] == byte);
        }
        if byte < 48 || byte > 57 {
            proof {
                assert(!is_digit(digits[index - start]));
            }
            return None;
        }
        let next = value * 10 + (byte - 48) as u64;
        proof {
            assert(digits.take(index - start + 1).drop_last() =~= digits.take(index - start));
            assert(digits.take(index - start + 1).last() == byte);
        }
        if next > u32::MAX as u64 {
            proof {
                if forall|j: int| 0 <= j < digits.len() ==> is_digit(#[trigger] digits[j]) {
                    lemma_decimal_grows(digits, index - start + 1);
                }
            }
            return None;
        }
        value = next;
        index = index + 1;
    }
    proof {
        assert(digits.take(index - start) =~= digits);
    }
    Some(value as u32)
}

/// The bytes of the default channel.
fn default_channel_name() -> (name: Vec<u8>)
    ensures
        name@ == default_channel(),
{
    let mut name: Vec<u8> = Vec::new();
    name.push(104);
    name.push(117);
    name.push(110);
    name.push(103);
    name.push(114);
    name.push(121);
    assert(name@ =~= default_channel());
    name
}

/// Copies `bytes`.
fn copy_bytes(bytes: &[u8]) -> (copy: Vec<u8>)
    ensures
        copy@ == bytes@,
{
    let mut copy: Vec<u8> = Vec::new();
    copy.extend_from_slice(bytes);
    assert(copy@ =~= bytes@);
    copy
}

/// The pieces of the rest of `path` from `from` on: the first of them ends
/// at the first `/` of that rest, and the others are the pieces of what
/// follows that `/`.
proof fn lemma_segments(path: Seq<u8>, from: int, end: int, k: nat)
    requires
        0 <= from <= end <= path.len(),
        end == from + first_slash(path.skip(from)),
    ensures
        segment(path.skip(from), 0) == Some(path.subrange(from, end)),
        end < path.len() ==> segment(path.skip(from), k + 1) == segment(path.skip(end + 1), k),
        end == path.len() ==> segment(path.skip(from), k + 1) is None,
{
    let rest = path.skip(from);
    assert(rest.take(end - from) =~= path.subrange(from, end));
    if end < path.len() {
        assert(rest.skip(end - from + 1) =~= path.skip(end + 1));
    }
}

/// Reads the channel and the minimum height off a request path.
pub fn parse_route(path: &[u8]) -> (route: Route)
    ensures
        (route.channel@, route.minimum_height) == route_of(path@),
{
    let first = find_slash(path, 0);
    proof {
        assert(path@.skip(0) =~= path@);
        lemma_segments(path@, 0, first as int, 0);
        lemma_segments(path@, 0, first as int, 1);
    }
    if first == path.len() {
        return Route { channel: default_channel_name(), minimum_height: 0 };
    }
    let name_start = first + 1;
    let name_end = find_slash(path, name_start);
    proof {
        lemma_segments(path@, name_start as int, name_end as int, 0);
    }
    let channel = if name_end > name_start {
        copy_bytes(slice_subrange(path, name_start, name_end))
    } else {
        default_channel_name()
    };
    if name_end == path.len() {
        return Route { channel, minimum_height: 0 };
    }
    let text_start = name_end + 1;
    let text_end = find_slash(path, text_start);
    proof {
        lemma_segments(path@, text_start as int, text_end as int, 0);
    }
    let minimum_height = match parse_height(slice_subrange(path, text_start, text_end)) {
        Some(height) => height,
        None => 0,
    };
    Route { channel, minimum_height }
}

} // verus!
