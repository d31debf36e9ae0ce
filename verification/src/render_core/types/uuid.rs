use vstd::prelude::*;

verus! {

/// A 128-bit identifier for resources, stored as two 64-bit halves.
#[derive(Copy, Clone, PartialEq, Eq, Structural, Hash, Debug)]
pub struct Uuid {
    high: u64,
    low: u64,
}

/// The source of sequential identifiers.
///
/// Every call of [`Uuid::sequential`] takes the counter's current value as the
/// low half of the new identifier and advances the counter by one, wrapping
/// around after `u64::MAX`. A fresh sequence starts at 1, so the first
/// sequential identifier is `Uuid::from_u64(1)`.
#[derive(Debug)]
pub struct UuidSequence {
    next: u64,
}

impl UuidSequence {
    /// The value that the next sequential identifier will carry.
    pub closed spec fn spec_next(&self) -> u64 {
        self.next
    }

    /// A fresh sequence, whose first identifier has the value 1.
    pub fn new() -> (r: Self)
        ensures
            r.spec_next() == 1,
    {
        UuidSequence { next: 1 }
    }

    /// A sequence that continues from the given value.
    pub fn starting_at(next: u64) -> (r: Self)
        ensures
            r.spec_next() == next,
    {
        UuidSequence { next }
    }

    /// The value that the next sequential identifier will carry.
    #[verifier::when_used_as_spec(spec_next)]
    pub fn next_value(&self) -> (r: u64)
        ensures
            r == self.spec_next(),
    {
        self.next
    }
}

/// The successor of a sequence value, wrapping to 0 after `u64::MAX`.
pub open spec fn sequence_successor(v: u64) -> u64 {
    if v == u64::MAX {
        0
    } else {
        (v + 1) as u64
    }
}

impl Uuid {
    /// The high 64 bits, in specifications.
    pub closed spec fn spec_high(&self) -> u64 {
        self.high
    }

    /// The low 64 bits, in specifications.
    pub closed spec fn spec_low(&self) -> u64 {
        self.low
    }

    /// The identifier with high half 0 and the given low half.
    pub open spec fn from_u64_spec(value: u64) -> Uuid {
        Uuid::new_spec(0, value)
    }

    /// The identifier with the given halves.
    pub closed spec fn new_spec(high: u64, low: u64) -> Uuid {
        Uuid { high, low }
    }

    /// Create a new UUID with specific high and low bits.
    pub fn new(high: u64, low: u64) -> (r: Self)
        ensures
            r == Uuid::new_spec(high, low),
            r.spec_high() == high,
            r.spec_low() == low,
    {
        Uuid { high, low }
    }

    /// Create a new sequential UUID: its high half is 0 and its low half is
    /// the sequence's current value, and the sequence advances by one.
    pub fn sequential(ids: &mut UuidSequence) -> (r: Self)
        ensures
            r == Uuid::from_u64_spec(old(ids).spec_next()),
            r.spec_high() == 0,
            r.spec_low() == old(ids).spec_next(),
            final(ids).spec_next() == sequence_successor(old(ids).spec_next()),
    {
        let id = ids.next;
        ids.next = id.wrapping_add(1);
        Uuid { high: 0, low: id }
    }

    /// Create a UUID from a single u64 value (useful for simple IDs).
    pub fn from_u64(value: u64) -> (r: Self)
        ensures
            r == Uuid::from_u64_spec(value),
            r.spec_high() == 0,
            r.spec_low() == value,
    {
        Uuid { high: 0, low: value }
    }

    /// Get the low 64 bits of the UUID.
    #[verifier::when_used_as_spec(spec_low)]
    pub fn low(&self) -> (r: u64)
        ensures
            r == self.spec_low(),
    {
        self.low
    }

    /// Get the high 64 bits of the UUID.
    #[verifier::when_used_as_spec(spec_high)]
    pub fn high(&self) -> (r: u64)
        ensures
            r == self.spec_high(),
    {
        self.high
    }
}

/// The identifier made from a single value has high half 0 and that value
/// as its low half.
pub proof fn lemma_from_u64_halves(value: u64)
    ensures
        Uuid::from_u64_spec(value).spec_high() == 0,
        Uuid::from_u64_spec(value).spec_low() == value,
{
}

/// Two UUIDs are equal exactly when both halves are equal.
pub proof fn lemma_uuid_equal_iff_halves(a: Uuid, b: Uuid)
    ensures
        (a == b) <==> (a.spec_high() == b.spec_high() && a.spec_low() == b.spec_low()),
{
}

/// The value a sequence that was at `start` holds after `k` identifiers
/// were drawn from it.
pub open spec fn sequence_after(start: u64, k: nat) -> u64 {
    ((start + k) % 0x1_0000_0000_0000_0000) as u64
}

/// Drawing one more identifier advances the sequence by one.
pub proof fn lemma_sequence_step(start: u64, k: nat)
    ensures
        sequence_successor(sequence_after(start, k)) == sequence_after(start, k + 1),
{
    let m = 0x1_0000_0000_0000_0000int;
    let v = sequence_after(start, k);
    vstd::arithmetic::div_mod::lemma_mod_bound(start + k, m);
    vstd::arithmetic::div_mod::lemma_fundamental_div_mod(start + k, m);
    vstd::arithmetic::div_mod::lemma_fundamental_div_mod(start + k + 1, m);
    vstd::arithmetic::div_mod::lemma_mod_bound(start + k + 1, m);
    if v == u64::MAX {
        vstd::arithmetic::div_mod::lemma_fundamental_div_mod_converse(
            start + k + 1,
            m,
            (start + k) / m + 1,
            0,
        );
    } else {
        vstd::arithmetic::div_mod::lemma_fundamental_div_mod_converse(
            start + k + 1,
            m,
            (start + k) / m,
            v + 1,
        );
    }
}

/// Without wrap-around, sequential identifiers increase: from a sequence
/// that starts at `start` (at least 1, as a fresh one does), the identifier
/// drawn after `k1` others has high half 0, a low half of at least 1, and a
/// smaller low half than the one drawn after `k2 > k1` others, as long as
/// the sequence has not passed `u64::MAX`.
pub proof fn lemma_sequential_ids_increase(start: u64, k1: nat, k2: nat)
    requires
        1 <= start,
        k1 < k2,
        start + k2 <= u64::MAX,
    ensures
        Uuid::from_u64_spec(sequence_after(start, k1)).spec_high() == 0,
        1 <= Uuid::from_u64_spec(sequence_after(start, k1)).spec_low(),
        Uuid::from_u64_spec(sequence_after(start, k1)).spec_low() < Uuid::from_u64_spec(
            sequence_after(start, k2),
        ).spec_low(),
{
    let m = 0x1_0000_0000_0000_0000int;
    vstd::arithmetic::div_mod::lemma_small_mod((start + k1) as nat, m as nat);
    vstd::arithmetic::div_mod::lemma_small_mod((start + k2) as nat, m as nat);
}

/// Sequential identifiers are unique until the sequence wraps around: the
/// identifiers drawn `k1` and `k2` steps after the same starting value
/// differ when `k1 < k2 < 2^64`.
pub proof fn lemma_sequential_ids_distinct(start: u64, k1: nat, k2: nat)
    requires
        k1 < k2 < 0x1_0000_0000_0000_0000,
    ensures
        sequence_after(start, k1) != sequence_after(start, k2),
        Uuid::from_u64_spec(sequence_after(start, k1)) != Uuid::from_u64_spec(
            sequence_after(start, k2),
        ),
{
    let m = 0x1_0000_0000_0000_0000int;
    vstd::arithmetic::div_mod::lemma_fundamental_div_mod(start + k1, m);
    vstd::arithmetic::div_mod::lemma_fundamental_div_mod(start + k2, m);
    vstd::arithmetic::div_mod::lemma_mod_bound(start + k1, m);
    vstd::arithmetic::div_mod::lemma_mod_bound(start + k2, m);
    if sequence_after(start, k1) == sequence_after(start, k2) {
        let q1 = (start + k1) / m;
        let q2 = (start + k2) / m;
        assert((q2 - q1) * m == k2 - k1) by (nonlinear_arith)
            requires
                start + k1 == m * q1 + (start + k1) % m,
                start + k2 == m * q2 + (start + k2) % m,
                (start + k1) % m == (start + k2) % m,
        ;
        assert(false) by (nonlinear_arith)
            requires
                (q2 - q1) * m == k2 - k1,
                0 < k2 - k1 < m,
                m > 0,
        ;
    }
    assert(Uuid::from_u64_spec(sequence_after(start, k1)).spec_low() == sequence_after(start, k1));
    assert(Uuid::from_u64_spec(sequence_after(start, k2)).spec_low() == sequence_after(start, k2));
}

/// The lowercase hexadecimal digit of a value below 16.
pub open spec fn hex_char(d: u64) -> char {
    if d < 10 {
        (d + 48) as char
    } else {
        (d + 87) as char
    }
}

/// The 16 lowercase hexadecimal digits of a 64-bit value, most significant
/// first: digit `k` is the nibble at bits `60 - 4k` to `63 - 4k`.
pub open spec fn hex16(v: u64) -> Seq<char> {
    Seq::new(16, |k: int| hex_char((v >> ((60 - 4 * k) as u64)) & 15))
}

/// The text by which an identifier is shown: `Uuid(` followed by the 32
/// hexadecimal digits of the high and then the low half, and `)`.
pub open spec fn uuid_text(id: Uuid) -> Seq<char> {
    "Uuid("@ + hex16(id.spec_high()) + hex16(id.spec_low()) + ")"@
}

/// The one-character text of a hexadecimal digit.
fn hex_digit_str(d: u64) -> (r: &'static str)
    requires
        d < 16,
    ensures
        r@ == seq![hex_char(d)],
{
    proof {
        reveal_strlit("0");
        reveal_strlit("1");
        reveal_strlit("2");
        reveal_strlit("3");
        reveal_strlit("4");
        reveal_strlit("5");
        reveal_strlit("6");
        reveal_strlit("7");
        reveal_strlit("8");
        reveal_strlit("9");
        reveal_strlit("a");
        reveal_strlit("b");
        reveal_strlit("c");
        reveal_strlit("d");
        reveal_strlit("e");
        reveal_strlit("f");
    }
    let r = match d {
        0 => "0",
        1 => "1",
        2 => "2",
        3 => "3",
        4 => "4",
        5 => "5",
        6 => "6",
        7 => "7",
        8 => "8",
        9 => "9",
        10 => "a",
        11 => "b",
        12 => "c",
        13 => "d",
        14 => "e",
        _ => "f",
    };
    assert(r@ =~= seq![hex_char(d)]);
    r
}

/// Append the 16 hexadecimal digits of `v` to `text`.
fn append_hex16(text: &mut String, v: u64)
    ensures
        final(text)@ == old(text)@ + hex16(v),
{
    let ghost start = text@;
    let mut k: u64 = 0;
    while k < 16
        invariant
            k <= 16,
            text@.len() == start.len() + k,
            text@.subrange(0, start.len() as int) == start,
            forall|a: int| 0 <= a < k ==> text@[start.len() + a] == #[trigger] hex16(v)[a],
        decreases 16 - k,
    {
        let shift = 60 - 4 * k;
        let digit = (v >> shift) & 15;
        assert(digit < 16) by (bit_vector)
            requires
                digit == (v >> shift) & 15,
        ;
        let ghost before = text@;
        text.append(hex_digit_str(digit));
        assert(hex16(v)[k as int] == hex_char(digit));
        assert(text@.subrange(0, start.len() as int) =~= before.subrange(0, start.len() as int));
        k = k + 1;
    }
    assert(text@ =~= start + hex16(v));
}

impl Uuid {
    /// The text by which the identifier is shown in debug output (see
    /// [`uuid_text`]).
    pub fn debug_string(&self) -> (r: String)
        ensures
            r@ == uuid_text(*self),
            r@.len() == 38,
            r@.subrange(0, 5) == "Uuid("@,
            r@[37] == ')',
            forall|k: int|
                0 <= k < 16 ==> {
                    let n = (self.spec_high() >> ((60 - 4 * k) as u64)) & 15;
                    #[trigger] r@[5 + k] == if n < 10 {
                        (n + 48) as char
                    } else {
                        (n + 87) as char
                    }
                },
            forall|k: int|
                0 <= k < 16 ==> {
                    let n = (self.spec_low() >> ((60 - 4 * k) as u64)) & 15;
                    #[trigger] r@[21 + k] == if n < 10 {
                        (n + 48) as char
                    } else {
                        (n + 87) as char
                    }
                },
    {
        let mut text = String::from_str("Uuid(");
        append_hex16(&mut text, self.high);
        append_hex16(&mut text, self.low);
        text.append(")");
        proof {
            reveal_strlit("Uuid(");
            reveal_strlit(")");
            let t = uuid_text(*self);
            assert(t.subrange(0, 5) =~= "Uuid("@);
            assert forall|k: int| 0 <= k < 16 implies #[trigger] t[5 + k] == hex16(self.high)[k] by {}
            assert forall|k: int| 0 <= k < 16 implies #[trigger] t[21 + k] == hex16(self.low)[k] by {}
        }
        text
    }
}

} // verus!
