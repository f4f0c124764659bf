use vstd::prelude::*;

verus! {

/// Whether bit `i` of the mask `m` is set.
pub open spec fn bit(m: u64, i: u64) -> bool {
    (m >> i) & 1u64 == 1u64
}

/// The mask with only bit `i` set.
pub open spec fn single(i: u64) -> u64 {
    1u64 << i
}

/// Number of set bits of `m` among the bits below `n`.
pub open spec fn count_below(m: u64, n: nat) -> nat
    decreases n,
{
    if n == 0 {
        0
    } else {
        count_below(m, (n - 1) as nat) + if bit(m, (n - 1) as u64) { 1nat } else { 0nat }
    }
}

/// Number of set bits of `m`.
pub open spec fn count(m: u64) -> nat {
    count_below(m, 64)
}

/// `m` with bit `s` set.
pub open spec fn with_bit(m: u64, s: u64) -> u64 {
    m | single(s)
}

/// `m` with bit `s` cleared.
pub open spec fn without_bit(m: u64, s: u64) -> u64 {
    m & !single(s)
}

pub broadcast proof fn lemma_with_bit(m: u64, s: u64, i: u64)
    requires
        s < 64,
        i < 64,
    ensures
        #[trigger] bit(with_bit(m, s), i) == (i == s || bit(m, i)),
{
    lemma_set(m, s);
}

pub broadcast proof fn lemma_without_bit(m: u64, s: u64, i: u64)
    requires
        s < 64,
        i < 64,
    ensures
        #[trigger] bit(without_bit(m, s), i) == (i != s && bit(m, i)),
{
    lemma_clear(m, s);
}

pub broadcast group group_bit_updates {
    lemma_with_bit,
    lemma_without_bit,
}

/// Sets bit `s` of `m`.
pub fn set_bit(m: u64, s: u8) -> (r: u64)
    requires
        s < 64,
    ensures
        r == with_bit(m, s as u64),
{
    m | (1u64 << (s as u64))
}

/// Clears bit `s` of `m`.
pub fn clear_bit(m: u64, s: u8) -> (r: u64)
    requires
        s < 64,
    ensures
        r == without_bit(m, s as u64),
{
    m & !(1u64 << (s as u64))
}

/// Tests bit `i` of `m`.
pub fn test_bit(m: u64, i: u8) -> (r: bool)
    requires
        i < 64,
    ensures
        r == bit(m, i as u64),
{
    (m >> (i as u64)) & 1u64 == 1u64
}

/// Counts the set bits of `m`.
pub fn count_ones(m: u64) -> (r: u8)
    ensures
        r == count(m),
{
    let mut n: u8 = 0;
    let mut i: u8 = 0;
    while i < 64
        invariant
            i <= 64,
            n == count_below(m, i as nat),
            n <= i,
        decreases 64 - i,
    {
        if test_bit(m, i) {
            n = n + 1;
        }
        i = i + 1;
    }
    n
}

pub proof fn lemma_count_below_bound(m: u64, n: nat)
    ensures
        count_below(m, n) <= n,
    decreases n,
{
    if n > 0 {
        lemma_count_below_bound(m, (n - 1) as nat);
    }
}

/// Setting bit `s` changes bit `s` alone.
pub proof fn lemma_set(m: u64, s: u64)
    requires
        s < 64,
    ensures
        forall|i: u64| i < 64 ==> #[trigger] bit(m | single(s), i) == (i == s || bit(m, i)),
{
    assert forall|i: u64| i < 64 implies #[trigger] bit(m | single(s), i) == (i == s || bit(m, i)) by {
        assert(((m | (1u64 << s)) >> i) & 1u64 == 1u64 <==> (i == s || (m >> i) & 1u64 == 1u64))
            by (bit_vector)
            requires
                s < 64,
                i < 64,
        ;
    }
}

/// Clearing bit `s` changes bit `s` alone.
pub proof fn lemma_clear(m: u64, s: u64)
    requires
        s < 64,
    ensures
        forall|i: u64| i < 64 ==> #[trigger] bit(m & !single(s), i) == (i != s && bit(m, i)),
{
    assert forall|i: u64| i < 64 implies #[trigger] bit(m & !single(s), i) == (i != s && bit(m, i)) by {
        assert(((m & !(1u64 << s)) >> i) & 1u64 == 1u64 <==> (i != s && (m >> i) & 1u64 == 1u64))
            by (bit_vector)
            requires
                s < 64,
                i < 64,
        ;
    }
}

/// Bits of a conjunction, a disjunction and a complement.
pub proof fn lemma_and_or_not(a: u64, b: u64)
    ensures
        forall|i: u64| i < 64 ==> #[trigger] bit(a & b, i) == (bit(a, i) && bit(b, i)),
        forall|i: u64| i < 64 ==> #[trigger] bit(a | b, i) == (bit(a, i) || bit(b, i)),
        forall|i: u64| i < 64 ==> #[trigger] bit(!a, i) == !bit(a, i),
        forall|i: u64| i < 64 ==> !#[trigger] bit(0u64, i),
{
    assert forall|i: u64| i < 64 implies #[trigger] bit(a & b, i) == (bit(a, i) && bit(b, i)) by {
        assert((((a & b) >> i) & 1u64 == 1u64) == ((a >> i) & 1u64 == 1u64 && (b >> i) & 1u64 == 1u64))
            by (bit_vector)
            requires
                i < 64,
        ;
    }
    assert forall|i: u64| i < 64 implies #[trigger] bit(a | b, i) == (bit(a, i) || bit(b, i)) by {
        assert((((a | b) >> i) & 1u64 == 1u64) == ((a >> i) & 1u64 == 1u64 || (b >> i) & 1u64 == 1u64))
            by (bit_vector)
            requires
                i < 64,
        ;
    }
    assert forall|i: u64| i < 64 implies #[trigger] bit(!a, i) == !bit(a, i) by {
        assert((((!a) >> i) & 1u64 == 1u64) == !((a >> i) & 1u64 == 1u64)) by (bit_vector)
            requires
                i < 64,
        ;
    }
    assert forall|i: u64| i < 64 implies !#[trigger] bit(0u64, i) by {
        assert(!((0u64 >> i) & 1u64 == 1u64)) by (bit_vector);
    }
}

proof fn lemma_ext_shifts(a: u64, b: u64)
    requires
            (a >> 0u64) & 1u64 == (b >> 0u64) & 1u64,
            (a >> 1u64) & 1u64 == (b >> 1u64) & 1u64,
            (a >> 2u64) & 1u64 == (b >> 2u64) & 1u64,
            (a >> 3u64) & 1u64 == (b >> 3u64) & 1u64,
            (a >> 4u64) & 1u64 == (b >> 4u64) & 1u64,
            (a >> 5u64) & 1u64 == (b >> 5u64) & 1u64,
            (a >> 6u64) & 1u64 == (b >> 6u64) & 1u64,
            (a >> 7u64) & 1u64 == (b >> 7u64) & 1u64,
            (a >> 8u64) & 1u64 == (b >> 8u64) & 1u64,
            (a >> 9u64) & 1u64 == (b >> 9u64) & 1u64,
            (a >> 10u64) & 1u64 == (b >> 10u64) & 1u64,
            (a >> 11u64) & 1u64 == (b >> 11u64) & 1u64,
            (a >> 12u64) & 1u64 == (b >> 12u64) & 1u64,
            (a >> 13u64) & 1u64 == (b >> 13u64) & 1u64,
            (a >> 14u64) & 1u64 == (b >> 14u64) & 1u64,
            (a >> 15u64) & 1u64 == (b >> 15u64) & 1u64,
            (a >> 16u64) & 1u64 == (b >> 16u64) & 1u64,
            (a >> 17u64) & 1u64 == (b >> 17u64) & 1u64,
            (a >> 18u64) & 1u64 == (b >> 18u64) & 1u64,
            (a >> 19u64) & 1u64 == (b >> 19u64) & 1u64,
            (a >> 20u64) & 1u64 == (b >> 20u64) & 1u64,
            (a >> 21u64) & 1u64 == (b >> 21u64) & 1u64,
            (a >> 22u64) & 1u64 == (b >> 22u64) & 1u64,
            (a >> 23u64) & 1u64 == (b >> 23u64) & 1u64,
            (a >> 24u64) & 1u64 == (b >> 24u64) & 1u64,
            (a >> 25u64) & 1u64 == (b >> 25u64) & 1u64,
            (a >> 26u64) & 1u64 == (b >> 26u64) & 1u64,
            (a >> 27u64) & 1u64 == (b >> 27u64) & 1u64,
            (a >> 28u64) & 1u64 == (b >> 28u64) & 1u64,
            (a >> 29u64) & 1u64 == (b >> 29u64) & 1u64,
            (a >> 30u64) & 1u64 == (b >> 30u64) & 1u64,
            (a >> 31u64) & 1u64 == (b >> 31u64) & 1u64,
            (a >> 32u64) & 1u64 == (b >> 32u64) & 1u64,
            (a >> 33u64) & 1u64 == (b >> 33u64) & 1u64,
            (a >> 34u64) & 1u64 == (b >> 34u64) & 1u64,
            (a >> 35u64) & 1u64 == (b >> 35u64) & 1u64,
            (a >> 36u64) & 1u64 == (b >> 36u64) & 1u64,
            (a >> 37u64) & 1u64 == (b >> 37u64) & 1u64,
            (a >> 38u64) & 1u64 == (b >> 38u64) & 1u64,
            (a >> 39u64) & 1u64 == (b >> 39u64) & 1u64,
            (a >> 40u64) & 1u64 == (b >> 40u64) & 1u64,
            (a >> 41u64) & 1u64 == (b >> 41u64) & 1u64,
            (a >> 42u64) & 1u64 == (b >> 42u64) & 1u64,
            (a >> 43u64) & 1u64 == (b >> 43u64) & 1u64,
            (a >> 44u64) & 1u64 == (b >> 44u64) & 1u64,
            (a >> 45u64) & 1u64 == (b >> 45u64) & 1u64,
            (a >> 46u64) & 1u64 == (b >> 46u64) & 1u64,
            (a >> 47u64) & 1u64 == (b >> 47u64) & 1u64,
            (a >> 48u64) & 1u64 == (b >> 48u64) & 1u64,
            (a >> 49u64) & 1u64 == (b >> 49u64) & 1u64,
            (a >> 50u64) & 1u64 == (b >> 50u64) & 1u64,
            (a >> 51u64) & 1u64 == (b >> 51u64) & 1u64,
            (a >> 52u64) & 1u64 == (b >> 52u64) & 1u64,
            (a >> 53u64) & 1u64 == (b >> 53u64) & 1u64,
            (a >> 54u64) & 1u64 == (b >> 54u64) & 1u64,
            (a >> 55u64) & 1u64 == (b >> 55u64) & 1u64,
            (a >> 56u64) & 1u64 == (b >> 56u64) & 1u64,
            (a >> 57u64) & 1u64 == (b >> 57u64) & 1u64,
            (a >> 58u64) & 1u64 == (b >> 58u64) & 1u64,
            (a >> 59u64) & 1u64 == (b >> 59u64) & 1u64,
            (a >> 60u64) & 1u64 == (b >> 60u64) & 1u64,
            (a >> 61u64) & 1u64 == (b >> 61u64) & 1u64,
            (a >> 62u64) & 1u64 == (b >> 62u64) & 1u64,
            (a >> 63u64) & 1u64 == (b >> 63u64) & 1u64,
    ensures
        a == b,
{
    assert(a == b) by (bit_vector)
        requires
                (a >> 0u64) & 1u64 == (b >> 0u64) & 1u64,
                (a >> 1u64) & 1u64 == (b >> 1u64) & 1u64,
                (a >> 2u64) & 1u64 == (b >> 2u64) & 1u64,
                (a >> 3u64) & 1u64 == (b >> 3u64) & 1u64,
                (a >> 4u64) & 1u64 == (b >> 4u64) & 1u64,
                (a >> 5u64) & 1u64 == (b >> 5u64) & 1u64,
                (a >> 6u64) & 1u64 == (b >> 6u64) & 1u64,
                (a >> 7u64) & 1u64 == (b >> 7u64) & 1u64,
                (a >> 8u64) & 1u64 == (b >> 8u64) & 1u64,
                (a >> 9u64) & 1u64 == (b >> 9u64) & 1u64,
                (a >> 10u64) & 1u64 == (b >> 10u64) & 1u64,
                (a >> 11u64) & 1u64 == (b >> 11u64) & 1u64,
                (a >> 12u64) & 1u64 == (b >> 12u64) & 1u64,
                (a >> 13u64) & 1u64 == (b >> 13u64) & 1u64,
                (a >> 14u64) & 1u64 == (b >> 14u64) & 1u64,
                (a >> 15u64) & 1u64 == (b >> 15u64) & 1u64,
                (a >> 16u64) & 1u64 == (b >> 16u64) & 1u64,
                (a >> 17u64) & 1u64 == (b >> 17u64) & 1u64,
                (a >> 18u64) & 1u64 == (b >> 18u64) & 1u64,
                (a >> 19u64) & 1u64 == (b >> 19u64) & 1u64,
                (a >> 20u64) & 1u64 == (b >> 20u64) & 1u64,
                (a >> 21u64) & 1u64 == (b >> 21u64) & 1u64,
                (a >> 22u64) & 1u64 == (b >> 22u64) & 1u64,
                (a >> 23u64) & 1u64 == (b >> 23u64) & 1u64,
                (a >> 24u64) & 1u64 == (b >> 24u64) & 1u64,
                (a >> 25u64) & 1u64 == (b >> 25u64) & 1u64,
                (a >> 26u64) & 1u64 == (b >> 26u64) & 1u64,
                (a >> 27u64) & 1u64 == (b >> 27u64) & 1u64,
                (a >> 28u64) & 1u64 == (b >> 28u64) & 1u64,
                (a >> 29u64) & 1u64 == (b >> 29u64) & 1u64,
                (a >> 30u64) & 1u64 == (b >> 30u64) & 1u64,
                (a >> 31u64) & 1u64 == (b >> 31u64) & 1u64,
                (a >> 32u64) & 1u64 == (b >> 32u64) & 1u64,
                (a >> 33u64) & 1u64 == (b >> 33u64) & 1u64,
                (a >> 34u64) & 1u64 == (b >> 34u64) & 1u64,
                (a >> 35u64) & 1u64 == (b >> 35u64) & 1u64,
                (a >> 36u64) & 1u64 == (b >> 36u64) & 1u64,
                (a >> 37u64) & 1u64 == (b >> 37u64) & 1u64,
                (a >> 38u64) & 1u64 == (b >> 38u64) & 1u64,
                (a >> 39u64) & 1u64 == (b >> 39u64) & 1u64,
                (a >> 40u64) & 1u64 == (b >> 40u64) & 1u64,
                (a >> 41u64) & 1u64 == (b >> 41u64) & 1u64,
                (a >> 42u64) & 1u64 == (b >> 42u64) & 1u64,
                (a >> 43u64) & 1u64 == (b >> 43u64) & 1u64,
                (a >> 44u64) & 1u64 == (b >> 44u64) & 1u64,
                (a >> 45u64) & 1u64 == (b >> 45u64) & 1u64,
                (a >> 46u64) & 1u64 == (b >> 46u64) & 1u64,
                (a >> 47u64) & 1u64 == (b >> 47u64) & 1u64,
                (a >> 48u64) & 1u64 == (b >> 48u64) & 1u64,
                (a >> 49u64) & 1u64 == (b >> 49u64) & 1u64,
                (a >> 50u64) & 1u64 == (b >> 50u64) & 1u64,
                (a >> 51u64) & 1u64 == (b >> 51u64) & 1u64,
                (a >> 52u64) & 1u64 == (b >> 52u64) & 1u64,
                (a >> 53u64) & 1u64 == (b >> 53u64) & 1u64,
                (a >> 54u64) & 1u64 == (b >> 54u64) & 1u64,
                (a >> 55u64) & 1u64 == (b >> 55u64) & 1u64,
                (a >> 56u64) & 1u64 == (b >> 56u64) & 1u64,
                (a >> 57u64) & 1u64 == (b >> 57u64) & 1u64,
                (a >> 58u64) & 1u64 == (b >> 58u64) & 1u64,
                (a >> 59u64) & 1u64 == (b >> 59u64) & 1u64,
                (a >> 60u64) & 1u64 == (b >> 60u64) & 1u64,
                (a >> 61u64) & 1u64 == (b >> 61u64) & 1u64,
                (a >> 62u64) & 1u64 == (b >> 62u64) & 1u64,
                (a >> 63u64) & 1u64 == (b >> 63u64) & 1u64,
    ;
}

/// Two masks with the same bits are equal.
pub proof fn lemma_ext(a: u64, b: u64)
    requires
        forall|i: u64| i < 64 ==> #[trigger] bit(a, i) == bit(b, i),
    ensures
        a == b,
{
    assert forall|i: u64| i < 64 implies (a >> i) & 1u64 == (b >> i) & 1u64 by {
        assert(bit(a, i) == bit(b, i));
        assert(((a >> i) & 1u64 == 1u64) == ((b >> i) & 1u64 == 1u64) ==> (a >> i) & 1u64 == (b >> i) & 1u64)
            by (bit_vector);
    }
    assert((a >> 0u64) & 1u64 == (b >> 0u64) & 1u64);
    assert((a >> 1u64) & 1u64 == (b >> 1u64) & 1u64);
    assert((a >> 2u64) & 1u64 == (b >> 2u64) & 1u64);
    assert((a >> 3u64) & 1u64 == (b >> 3u64) & 1u64);
    assert((a >> 4u64) & 1u64 == (b >> 4u64) & 1u64);
    assert((a >> 5u64) & 1u64 == (b >> 5u64) & 1u64);
    assert((a >> 6u64) & 1u64 == (b >> 6u64) & 1u64);
    assert((a >> 7u64) & 1u64 == (b >> 7u64) & 1u64);
    assert((a >> 8u64) & 1u64 == (b >> 8u64) & 1u64);
    assert((a >> 9u64) & 1u64 == (b >> 9u64) & 1u64);
    assert((a >> 10u64) & 1u64 == (b >> 10u64) & 1u64);
    assert((a >> 11u64) & 1u64 == (b >> 11u64) & 1u64);
    assert((a >> 12u64) & 1u64 == (b >> 12u64) & 1u64);
    assert((a >> 13u64) & 1u64 == (b >> 13u64) & 1u64);
    assert((a >> 14u64) & 1u64 == (b >> 14u64) & 1u64);
    assert((a >> 15u64) & 1u64 == (b >> 15u64) & 1u64);
    assert((a >> 16u64) & 1u64 == (b >> 16u64) & 1u64);
    assert((a >> 17u64) & 1u64 == (b >> 17u64) & 1u64);
    assert((a >> 18u64) & 1u64 == (b >> 18u64) & 1u64);
    assert((a >> 19u64) & 1u64 == (b >> 19u64) & 1u64);
    assert((a >> 20u64) & 1u64 == (b >> 20u64) & 1u64);
    assert((a >> 21u64) & 1u64 == (b >> 21u64) & 1u64);
    assert((a >> 22u64) & 1u64 == (b >> 22u64) & 1u64);
    assert((a >> 23u64) & 1u64 == (b >> 23u64) & 1u64);
    assert((a >> 24u64) & 1u64 == (b >> 24u64) & 1u64);
    assert((a >> 25u64) & 1u64 == (b >> 25u64) & 1u64);
    assert((a >> 26u64) & 1u64 == (b >> 26u64) & 1u64);
    assert((a >> 27u64) & 1u64 == (b >> 27u64) & 1u64);
    assert((a >> 28u64) & 1u64 == (b >> 28u64) & 1u64);
    assert((a >> 29u64) & 1u64 == (b >> 29u64) & 1u64);
    assert((a >> 30u64) & 1u64 == (b >> 30u64) & 1u64);
    assert((a >> 31u64) & 1u64 == (b >> 31u64) & 1u64);
    assert((a >> 32u64) & 1u64 == (b >> 32u64) & 1u64);
    assert((a >> 33u64) & 1u64 == (b >> 33u64) & 1u64);
    assert((a >> 34u64) & 1u64 == (b >> 34u64) & 1u64);
    assert((a >> 35u64) & 1u64 == (b >> 35u64) & 1u64);
    assert((a >> 36u64) & 1u64 == (b >> 36u64) & 1u64);
    assert((a >> 37u64) & 1u64 == (b >> 37u64) & 1u64);
    assert((a >> 38u64) & 1u64 == (b >> 38u64) & 1u64);
    assert((a >> 39u64) & 1u64 == (b >> 39u64) & 1u64);
    assert((a >> 40u64) & 1u64 == (b >> 40u64) & 1u64);
    assert((a >> 41u64) & 1u64 == (b >> 41u64) & 1u64);
    assert((a >> 42u64) & 1u64 == (b >> 42u64) & 1u64);
    assert((a >> 43u64) & 1u64 == (b >> 43u64) & 1u64);
    assert((a >> 44u64) & 1u64 == (b >> 44u64) & 1u64);
    assert((a >> 45u64) & 1u64 == (b >> 45u64) & 1u64);
    assert((a >> 46u64) & 1u64 == (b >> 46u64) & 1u64);
    assert((a >> 47u64) & 1u64 == (b >> 47u64) & 1u64);
    assert((a >> 48u64) & 1u64 == (b >> 48u64) & 1u64);
    assert((a >> 49u64) & 1u64 == (b >> 49u64) & 1u64);
    assert((a >> 50u64) & 1u64 == (b >> 50u64) & 1u64);
    assert((a >> 51u64) & 1u64 == (b >> 51u64) & 1u64);
    assert((a >> 52u64) & 1u64 == (b >> 52u64) & 1u64);
    assert((a >> 53u64) & 1u64 == (b >> 53u64) & 1u64);
    assert((a >> 54u64) & 1u64 == (b >> 54u64) & 1u64);
    assert((a >> 55u64) & 1u64 == (b >> 55u64) & 1u64);
    assert((a >> 56u64) & 1u64 == (b >> 56u64) & 1u64);
    assert((a >> 57u64) & 1u64 == (b >> 57u64) & 1u64);
    assert((a >> 58u64) & 1u64 == (b >> 58u64) & 1u64);
    assert((a >> 59u64) & 1u64 == (b >> 59u64) & 1u64);
    assert((a >> 60u64) & 1u64 == (b >> 60u64) & 1u64);
    assert((a >> 61u64) & 1u64 == (b >> 61u64) & 1u64);
    assert((a >> 62u64) & 1u64 == (b >> 62u64) & 1u64);
    assert((a >> 63u64) & 1u64 == (b >> 63u64) & 1u64);
    lemma_ext_shifts(a, b);
}

} // verus!
