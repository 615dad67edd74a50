//! Names for uploaded files.

use crate::text::{hex, hex_text, last_index_of, replace_all, replaced, rfind_char};
use crate::ambient::{draw_below, unix_seconds};
use vstd::prelude::*;
use vstd::string::*;

verus! {

/// The moment from which the identifiers count their seconds: 2024-11-27 00:00:00 UTC.
pub const BASE_TIME: i64 = 1732636800;

/// The running number that tells apart the identifiers made within one second.
#[derive(Debug)]
pub struct Counter {
    pub next: u32,
}

impl Counter {
    /// A counter at its start.
    pub fn new() -> (r: Self)
        ensures
            r.next == 0,
    {
        Counter { next: 0 }
    }
}

/// The number that an identifier stands for.
pub open spec fn id_value(now: int, digit: int, count: int) -> int {
    ((now - BASE_TIME) * 100 + digit) * 10000 + count
}

/// The text of an identifier: its number in base sixteen, a negative one as the 64-bit
/// two's complement.
pub open spec fn id_text(value: int) -> Seq<char> {
    if value >= 0 {
        hex_text(value as nat)
    } else {
        hex_text((value + 0x1_0000_0000_0000_0000) as nat)
    }
}

/// What stands in a file path from its last `.` on; nothing where it holds no `.`.
pub open spec fn extension(file_path: Seq<char>) -> Seq<char> {
    match last_index_of(file_path, '.') {
        Some(i) => file_path.subrange(i, file_path.len() as int),
        None => Seq::empty(),
    }
}

/// The name with every provider's tag replaced by `_fix`: first `_tos`, then `_cos`, then
/// `_oss`.
pub open spec fn fixed_name(file_path: Seq<char>) -> Seq<char> {
    replaced(replaced(replaced(file_path, "_tos"@, "_fix"@), "_cos"@, "_fix"@), "_oss"@, "_fix"@)
}

/// The name of an upload: the user's id, `/`, the identifier, the file's extension.
pub open spec fn filled_name(openid: Seq<char>, id: Seq<char>, file_path: Seq<char>) -> Seq<char> {
    openid + seq!['/'] + id + extension(file_path)
}

/// The next number of the counter below 10000. The counter moves on by one and starts over
/// behind its largest value.
pub fn get_counter(counter: &mut Counter) -> (r: i64)
    ensures
        r == old(counter).next % 10000,
        final(counter).next == (if old(counter).next == u32::MAX {
            0
        } else {
            old(counter).next + 1
        }),
{
    let current = counter.next;
    counter.next = if current == u32::MAX {
        0
    } else {
        current + 1
    };
    (current % 10000) as i64
}

/// The identifier for the second `now`, the random digit `digit` and the running number
/// `count`.
pub fn unique_id(now: i64, digit: i64, count: i64) -> (r: String)
    requires
        i64::MIN <= id_value(now as int, digit as int, count as int) <= i64::MAX,
    ensures
        r@ == id_text(id_value(now as int, digit as int, count as int)),
{
    let wide: i128 = ((now as i128 - BASE_TIME as i128) * 100 + digit as i128) * 10000
        + count as i128;
    let bits: u64 = if wide >= 0 {
        wide as u64
    } else {
        (wide + 0x1_0000_0000_0000_0000i128) as u64
    };
    hex(bits)
}

/// An identifier that differs from every other one that the same counter gave within ten
/// thousand calls: the seconds since `BASE_TIME`, a random digit and the counter's number, as
/// one number in base sixteen.
pub fn shot_unique(counter: &mut Counter) -> (r: String)
    ensures
        exists|now: int, digit: int|
            -8_400_000_000_000 < now < 8_400_000_000_000 && 0 <= digit < 10 && r@ == id_text(
                #[trigger] id_value(now, digit, (old(counter).next % 10000) as int),
            ),
        final(counter).next == (if old(counter).next == u32::MAX {
            0
        } else {
            old(counter).next + 1
        }),
{
    let now = unix_seconds();
    let digit = draw_below(10);
    let count = get_counter(counter);
    assert(-8_500_000_000_000 * 1_000_000 <= id_value(now as int, digit as int, count as int)
        <= 8_400_000_000_000 * 1_000_000) by (nonlinear_arith)
        requires
            -8_400_000_000_000 < now < 8_400_000_000_000,
            0 <= digit < 10,
            0 <= count < 10000,
    ;
    unique_id(now, digit, count)
}

/// The name under which the file of a user is uploaded: the user's id, `/`, a fresh
/// identifier, the file's extension.
pub fn fill_name(counter: &mut Counter, file_path: &str, openid: &str) -> (r: String)
    ensures
        exists|now: int, digit: int|
            -8_400_000_000_000 < now < 8_400_000_000_000 && 0 <= digit < 10 && r@ == filled_name(
                openid@,
                id_text(#[trigger] id_value(now, digit, (old(counter).next % 10000) as int)),
                file_path@,
            ),
        final(counter).next == (if old(counter).next == u32::MAX {
            0
        } else {
            old(counter).next + 1
        }),
{
    let ext = extract_ext(file_path);
    let id = shot_unique(counter);
    proof {
        reveal_strlit("/");
        assert("/"@ =~= seq!['/']);
    }
    String::from_str(openid).concat("/").concat(id.as_str()).concat(ext.as_str())
}

/// The name with every provider's tag replaced by `_fix`.
pub fn fix_name(file_path: &str) -> (r: String)
    ensures
        r@ == fixed_name(file_path@),
{
    let first = replace_all(file_path, "_tos", "_fix");
    let second = replace_all(first.as_str(), "_cos", "_fix");
    replace_all(second.as_str(), "_oss", "_fix")
}

/// What stands in a file path from its last `.` on.
pub fn extract_ext(file_path: &str) -> (r: String)
    ensures
        r@ == extension(file_path@),
{
    match rfind_char(file_path, '.') {
        Some(dot_pos) => {
            let n = file_path.unicode_len();
            String::from_str(file_path.substring_char(dot_pos, n))
        },
        None => String::new(),
    }
}

} // verus!
