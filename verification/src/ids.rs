//! Task ids and tokens: UUIDs, held as the 128-bit number whose big-endian
//! bytes are the UUID.

use vstd::prelude::*;

use crate::time::{lemma_secs_in_range, Timestamp};

verus! {

/// 2^76: the version of a UUID sits in bits 76..80 of its number.
pub const VERSION_SHIFT_FACTOR: u128 = 0x1_0000_0000_0000_0000_000;

/// The version number of a UUID (the high nibble of its seventh byte).
pub open spec fn spec_uuid_version(id: u128) -> int {
    (id as int / VERSION_SHIFT_FACTOR as int) % 16
}

/// Lower-case hexadecimal digit of a number below 16.
pub open spec fn hex_digit(d: int) -> char {
    if d < 10 {
        (48 + d) as char
    } else {
        (87 + d) as char
    }
}

/// The 32 lower-case hexadecimal digits of a UUID, most significant first:
/// its "simple" form.
pub open spec fn spec_simple(id: u128) -> Seq<char> {
    Seq::new(32, |i: int| hex_digit((id as int / vstd::arithmetic::power::pow(16, (31 - i) as nat)) % 16))
}

/// What `uuid::Uuid::try_parse` makes of a text; it accepts the simple,
/// hyphenated, braced and URN forms.
pub uninterp spec fn spec_uuid_parse(s: Seq<char>) -> Option<u128>;

/// The version number of a UUID.
pub fn uuid_version(id: u128) -> (v: u8)
    ensures
        v == spec_uuid_version(id),
{
    assert(((id >> 76u128) & 0xfu128) == (id / 0x1_0000_0000_0000_0000_000u128) % 16u128) by (bit_vector);
    ((id >> 76u128) & 0xfu128) as u8
}

/// `uuid::Uuid::now_v7`: a new version 7 UUID from the current time.
#[verifier::external_body]
pub(crate) fn uuid_now_v7() -> (id: u128)
    ensures
        spec_uuid_version(id) == 7,
{
    uuid::Uuid::now_v7().as_u128()
}

/// `uuid::Uuid::new_v4`: a new random version 4 UUID.
#[verifier::external_body]
pub(crate) fn uuid_new_v4() -> (id: u128)
    ensures
        spec_uuid_version(id) == 4,
{
    uuid::Uuid::new_v4().as_u128()
}

/// The text of a hexadecimal digit.
fn hex_str(d: u8) -> (s: &'static str)
    requires
        d < 16,
    ensures
        s@ == seq![hex_digit(d as int)],
{
    proof {
        reveal_strlit("0");
        reveal_strlit("1");
        reveal_strlit("2");
        reveal_strlit("3");
        reveal_strlit("4");
        reveal_strlit("5");
        reveal_strlit("6");
        reveal_strlit("7");
        reveal_strlit("8");
        reveal_strlit("9");
        reveal_strlit("a");
        reveal_strlit("b");
        reveal_strlit("c");
        reveal_strlit("d");
        reveal_strlit("e");
        reveal_strlit("f");
    }
    match d {
        0 => "0",
        1 => "1",
        2 => "2",
        3 => "3",
        4 => "4",
        5 => "5",
        6 => "6",
        7 => "7",
        8 => "8",
        9 => "9",
        10 => "a",
        11 => "b",
        12 => "c",
        13 => "d",
        14 => "e",
        _ => "f",
    }
}

/// The simple form of a UUID, as `uuid::Uuid::as_simple` writes it: 32
/// lower-case hexadecimal digits, most significant first.
pub(crate) fn uuid_simple(id: u128) -> (s: String)
    ensures
        s@ == spec_simple(id),
{
    // The digits, least significant first.
    let mut digits: Vec<u8> = Vec::new();
    let mut x: u128 = id;
    let mut j: usize = 0;
    proof {
        vstd::arithmetic::power::lemma_pow0(16);
    }
    while j < 32
        invariant
            j <= 32,
            digits.len() == j,
            x == id as int / vstd::arithmetic::power::pow(16, j as nat),
            forall|k: int| 0 <= k < j ==> #[trigger] digits@[k] == (id as int / vstd::arithmetic::power::pow(16, k as nat)) % 16,
        decreases 32 - j,
    {
        proof {
            vstd::arithmetic::power::lemma_pow_positive(16, j as nat);
            vstd::arithmetic::power::lemma_pow_adds(16, j as nat, 1);
            vstd::arithmetic::power::lemma_pow1(16);
            vstd::arithmetic::div_mod::lemma_div_denominator(id as int, vstd::arithmetic::power::pow(16, j as nat), 16);
        }
        digits.push((x % 16) as u8);
        x = x / 16;
        j += 1;
    }
    let mut s = String::new();
    let mut i: usize = 0;
    while i < 32
        invariant
            i <= 32,
            digits.len() == 32,
            forall|k: int| 0 <= k < 32 ==> #[trigger] digits@[k] == (id as int / vstd::arithmetic::power::pow(16, k as nat)) % 16,
            s@ == spec_simple(id).take(i as int),
        decreases 32 - i,
    {
        let d = digits[31 - i];
        let h = hex_str(d);
        s.append(h);
        assert(s@ =~= spec_simple(id).take(i + 1));
        i += 1;
    }
    assert(spec_simple(id).take(32) =~= spec_simple(id));
    s
}

/// `uuid::Uuid::try_parse`; its result is named, and the simple form of
/// a UUID (32 hexadecimal digits) is stated to parse back to it.
#[verifier::external_body]
pub(crate) fn uuid_try_parse(s: &str) -> (id: Option<u128>)
    ensures
        id == spec_uuid_parse(s@),
        forall|u: u128| s@ == spec_simple(u) ==> id == Some(u),
{
    match uuid::Uuid::try_parse(s) {
        Ok(id) => Some(id.as_u128()),
        Err(_) => None,
    }
}


/// 2^80: the Unix milliseconds of a version 7 UUID are the bits above 80.
pub const MILLIS_SHIFT_FACTOR: u128 = 0x1_0000_0000_0000_0000_0000;

/// The Unix milliseconds a version 7 UUID was made at: its top 48 bits.
pub open spec fn spec_v7_millis(id: u128) -> int {
    id as int / MILLIS_SHIFT_FACTOR as int
}

/// The Unix time a version 7 UUID was made at, as `uuid::Uuid::get_timestamp`
/// and `Timestamp::to_unix` give it: the milliseconds of the top 48 bits as
/// whole seconds and the nanoseconds of the rest.
fn v7_unix(id: u128) -> (t: (u64, u32))
    ensures
        t.0 == spec_v7_millis(id) / 1000,
        t.1 == (spec_v7_millis(id) % 1000) * 1_000_000,
{
    assert((id >> 80u128) == id / 0x1_0000_0000_0000_0000_0000u128) by (bit_vector);
    assert((id >> 80u128) <= 0xffff_ffff_ffffu128) by (bit_vector);
    let millis: u64 = (id >> 80u128) as u64;
    (millis / 1000, ((millis % 1000) * 1_000_000) as u32)
}

/// When a task with this version 7 id was created, in UTC.
pub fn created(id: u128) -> (t: Timestamp)
    requires
        spec_uuid_version(id) == 7,
    ensures
        t.secs == spec_v7_millis(id) / 1000,
        t.nanos == (spec_v7_millis(id) % 1000) * 1_000_000,
        t.offset == 0,
        t.wf(),
{
    let (secs, nanos) = v7_unix(id);
    proof {
        assert(spec_v7_millis(id) < 0x1_0000_0000_0000);
        lemma_secs_in_range(secs as int);
    }
    Timestamp { secs: secs as i64, nanos, offset: 0 }
}

} // verus!
