//! Log keys: 16-byte big-endian unsigned values with wraparound arithmetic.
use vstd::prelude::*;

verus! {

/// Number of bytes in a key.
pub const KEY_LEN: usize = 16;

/// Value of a byte string read most significant byte first.
pub open spec fn be_value(s: Seq<u8>) -> nat
    decreases s.len(),
{
    if s.len() == 0 {
        0
    } else {
        be_value(s.drop_last()) * 256 + s.last() as nat
    }
}

/// `256` raised to the power `n`.
pub open spec fn pow256(n: nat) -> nat
    decreases n,
{
    if n == 0 {
        1
    } else {
        256 * pow256((n - 1) as nat)
    }
}

/// Number of distinct keys, `2^128`.
pub open spec fn key_span() -> nat {
    u128::MAX as nat + 1
}

/// The key value that follows `v`; the largest value is followed by zero.
pub open spec fn next_value(v: nat) -> nat {
    (v + 1) % key_span()
}

/// The key value that precedes `v`; zero is preceded by the largest value.
pub open spec fn prev_value(v: nat) -> nat {
    ((v + key_span() - 1) as nat) % key_span()
}

/// The key value `n` steps after `v`, wrapping around.
pub open spec fn forward_value(v: nat, n: nat) -> nat {
    (v + n) % key_span()
}

/// The key value `n` steps before `v`, wrapping around.
pub open spec fn backward_value(v: nat, n: nat) -> nat {
    ((v as int - n as int) % (key_span() as int)) as nat
}

/// `a - b` modulo the number of keys.
pub open spec fn diff_value(a: nat, b: nat) -> nat {
    ((a as int - b as int) % (key_span() as int)) as nat
}

/// The distance `a - b` when it fits in a `usize`.
pub open spec fn distance(a: nat, b: nat) -> Option<usize> {
    if diff_value(a, b) <= usize::MAX {
        Some(diff_value(a, b) as usize)
    } else {
        None
    }
}

/// The character of the decimal digit `d`.
pub open spec fn digit_char(d: nat) -> char {
    seq!['0', '1', '2', '3', '4', '5', '6', '7', '8', '9'][d as int]
}

/// Decimal digits of `v`, without leading zeros.
pub open spec fn decimal(v: nat) -> Seq<char>
    decreases v,
{
    if v < 10 {
        seq![digit_char(v)]
    } else {
        decimal(v / 10).push(digit_char(v % 10))
    }
}

/// Number of keys from `first` to `last`, both included, when `first <= last`
/// and the count fits in a `usize`; zero otherwise.
pub open spec fn inclusive_count(first: nat, last: nat) -> usize {
    if first <= last && last - first < usize::MAX {
        (last - first + 1) as usize
    } else {
        0
    }
}

/// `x` reduced modulo the number of keys, when `x - q * 2^128` is a remainder.
proof fn lemma_mod_span(x: int, q: int)
    requires
        0 <= x - q * key_span() < key_span(),
    ensures
        x % (key_span() as int) == x - q * key_span(),
{
    vstd::arithmetic::div_mod::lemma_fundamental_div_mod_converse(
        x,
        key_span() as int,
        q,
        x - q * key_span(),
    );
}

proof fn lemma_pow256_16()
    ensures
        pow256(16) == key_span(),
{
    reveal_with_fuel(pow256, 17);
}

proof fn lemma_pow256_step(n: nat)
    ensures
        pow256(n + 1) == 256 * pow256(n),
        pow256(n) > 0,
    decreases n,
{
    if n > 0 {
        lemma_pow256_step((n - 1) as nat);
    }
}

proof fn lemma_pow256_mono(m: nat, n: nat)
    requires
        m <= n,
    ensures
        pow256(m) <= pow256(n),
    decreases n - m,
{
    if m < n {
        lemma_pow256_mono(m, (n - 1) as nat);
        lemma_pow256_step((n - 1) as nat);
    }
}

/// A byte string of length `n` has a value below `256^n`.
proof fn lemma_be_value_bound(s: Seq<u8>)
    ensures
        be_value(s) < pow256(s.len()),
    decreases s.len(),
{
    if s.len() > 0 {
        let init = s.drop_last();
        lemma_be_value_bound(init);
        lemma_pow256_step(init.len());
        let a = be_value(init);
        let p = pow256(init.len());
        let l = s.last() as nat;
        assert(a * 256 + l < 256 * p) by (nonlinear_arith)
            requires
                a < p,
                l < 256,
        ;
    }
}

/// Putting a byte in front adds its weight at the new position.
proof fn lemma_be_value_prepend(x: u8, s: Seq<u8>)
    ensures
        be_value(seq![x] + s) == x as nat * pow256(s.len()) + be_value(s),
    decreases s.len(),
{
    let t = seq![x] + s;
    if s.len() == 0 {
        assert(t.drop_last() =~= Seq::<u8>::empty());
        assert(be_value(t.drop_last()) == 0);
        assert(t.last() == x);
        assert(pow256(0) == 1);
        assert(be_value(s) == 0);
    } else {
        let init = s.drop_last();
        assert(t.drop_last() =~= seq![x] + init);
        assert(t.last() == s.last());
        lemma_be_value_prepend(x, init);
        lemma_pow256_step(init.len());
        let p = pow256(init.len());
        let b = be_value(init);
        let l = s.last() as nat;
        assert((x as nat * p + b) * 256 + l == x as nat * (256 * p) + (b * 256 + l))
            by (nonlinear_arith);
        assert(be_value(t) == be_value(t.drop_last()) * 256 + l);
        assert(be_value(s) == b * 256 + l);
    }
}

/// A byte string of a given length is determined by its value.
proof fn lemma_be_value_injective(a: Seq<u8>, b: Seq<u8>)
    requires
        a.len() == b.len(),
        be_value(a) == be_value(b),
    ensures
        a == b,
    decreases a.len(),
{
    if a.len() > 0 {
        let (ia, ib) = (a.drop_last(), b.drop_last());
        let (la, lb) = (a.last() as nat, b.last() as nat);
        let (va, vb) = (be_value(ia), be_value(ib));
        assert(la == lb && va == vb) by {
            vstd::arithmetic::div_mod::lemma_fundamental_div_mod_converse(
                (va * 256 + la) as int,
                256,
                va as int,
                la as int,
            );
            vstd::arithmetic::div_mod::lemma_fundamental_div_mod_converse(
                (vb * 256 + lb) as int,
                256,
                vb as int,
                lb as int,
            );
        }
        lemma_be_value_injective(ia, ib);
        assert(a =~= ia.push(a.last()));
        assert(b =~= ib.push(b.last()));
    }
}

/// Relies on `u128`'s `Display` (through `ToString`): it writes the decimal
/// digits of the value, without sign or leading zeros.
#[verifier::external_body]
fn u128_decimal(v: u128) -> (r: String)
    ensures
        r@ == decimal(v as nat),
{
    v.to_string()
}

/// The name of one committed entry of the measurement log.
///
/// Its value is the 16 bytes read as one big-endian unsigned number, so that
/// the byte order and the numeric order agree.
#[derive(Clone, Copy, Debug)]
pub struct Key([u8; 16]);

impl View for Key {
    type V = nat;

    closed spec fn view(&self) -> nat {
        be_value(self.0@)
    }
}

impl Key {
    /// The bytes of this key, most significant first.
    pub closed spec fn spec_bytes(&self) -> Seq<u8> {
        self.0@
    }

    /// Every key value lies below `2^128`.
    pub proof fn lemma_view_bound(self)
        ensures
            self@ < key_span(),
    {
        lemma_be_value_bound(self.0@);
        lemma_pow256_16();
    }

    /// Two keys with the same value are the same key.
    pub proof fn lemma_view_injective(self, other: Key)
        requires
            self@ == other@,
        ensures
            self == other,
    {
        lemma_be_value_injective(self.0@, other.0@);
        assert(self.0 == other.0);
    }

    /// The key whose bytes, most significant first, are `bytes`.
    pub fn from_bytes(bytes: [u8; 16]) -> (r: Key)
        ensures
            r@ == be_value(bytes@),
            r.spec_bytes() == bytes@,
    {
        Key(bytes)
    }

    /// The bytes of this key, most significant first.
    pub fn bytes(&self) -> (r: [u8; 16])
        ensures
            r@ == self.spec_bytes(),
            be_value(r@) == self@,
    {
        self.0
    }

    /// The value of this key as a machine integer.
    fn to_u128(&self) -> (r: u128)
        ensures
            r as nat == self@,
    {
        let mut v: u128 = 0;
        let mut i: usize = 0;
        while i < KEY_LEN
            invariant
                i <= KEY_LEN,
                self.0@.len() == KEY_LEN,
                v as nat == be_value(self.0@.take(i as int)),
            decreases KEY_LEN - i,
        {
            let ghost prefix = self.0@.take(i as int + 1);
            proof {
                assert(prefix.drop_last() =~= self.0@.take(i as int));
                lemma_be_value_bound(self.0@.take(i as int));
                lemma_pow256_mono(i as nat, 15);
                lemma_pow256_step(15);
                lemma_pow256_16();
                assert(v * 256 + 255 < key_span()) by (nonlinear_arith)
                    requires
                        v < pow256(15),
                        256 * pow256(15) == key_span(),
                ;
            }
            v = v * 256 + self.0[i] as u128;
            i = i + 1;
        }
        assert(self.0@.take(16) =~= self.0@);
        v
    }

    /// The key with value `v`.
    fn from_u128(v: u128) -> (r: Key)
        ensures
            r@ == v as nat,
    {
        let mut b: [u8; 16] = [0u8; 16];
        let mut rest: u128 = v;
        let mut i: usize = KEY_LEN;
        proof {
            lemma_pow256_16();
            assert(b@.subrange(16, 16) =~= Seq::<u8>::empty());
            assert(be_value(b@.subrange(16, 16)) == 0);
            assert(pow256((KEY_LEN - i) as nat) == 1);
            assert(b@.subrange(i as int, KEY_LEN as int) =~= Seq::<u8>::empty());
        }
        while i > 0
            invariant
                i <= KEY_LEN,
                b@.len() == KEY_LEN,
                v as nat == rest as nat * pow256((KEY_LEN - i) as nat) + be_value(
                    b@.subrange(i as int, KEY_LEN as int),
                ),
            decreases i,
        {
            let ghost old_b = b@;
            let ghost old_rest = rest as nat;
            let digit = (rest % 256) as u8;
            i = i - 1;
            b[i] = digit;
            rest = rest / 256;
            proof {
                let tail = old_b.subrange(i as int + 1, KEY_LEN as int);
                assert(b@.subrange(i as int, KEY_LEN as int) =~= seq![digit] + tail);
                lemma_be_value_prepend(digit, tail);
                let k = (KEY_LEN - i - 1) as nat;
                lemma_pow256_step(k);
                let p = pow256(k);
                let q = rest as nat;
                let d = digit as nat;
                assert(old_rest == q * 256 + d);
                assert(old_rest * p == q * (256 * p) + d * p) by (nonlinear_arith)
                    requires
                        old_rest == q * 256 + d,
                ;
            }
        }
        proof {
            assert(b@.subrange(0, 16) =~= b@);
            lemma_be_value_bound(b@);
            lemma_pow256_16();
            assert(rest == 0) by (nonlinear_arith)
                requires
                    v as nat == rest as nat * key_span() + be_value(b@),
                    (v as nat) < key_span(),
            ;
        }
        Key(b)
    }

    /// Steps this key to the one that follows it; the all-ones key is
    /// followed by the all-zeros key.
    pub fn next(&mut self)
        ensures
            final(self)@ == next_value(old(self)@),
    {
        let v = self.to_u128();
        let n = if v == u128::MAX {
            0
        } else {
            v + 1
        };
        proof {
            if v == u128::MAX {
                lemma_mod_span(v + 1, 1);
            } else {
                lemma_mod_span(v + 1, 0);
            }
        }
        *self = Key::from_u128(n);
    }

    /// Steps this key to the one that precedes it; the all-zeros key is
    /// preceded by the all-ones key.
    pub fn prev(&mut self)
        ensures
            final(self)@ == prev_value(old(self)@),
    {
        let v = self.to_u128();
        let p = if v == 0 {
            u128::MAX
        } else {
            v - 1
        };
        proof {
            if v == 0 {
                lemma_mod_span(v + key_span() - 1, 0);
            } else {
                lemma_mod_span(v + key_span() - 1, 1);
            }
        }
        *self = Key::from_u128(p);
    }

    /// Replaces this key by its difference with `other`, modulo `2^128`.
    pub fn subtract(&mut self, other: &Key)
        ensures
            final(self)@ == diff_value(old(self)@, other@),
    {
        let a = self.to_u128();
        let b = other.to_u128();
        let d = if a >= b {
            a - b
        } else {
            (u128::MAX - (b - a)) + 1
        };
        proof {
            if a >= b {
                lemma_mod_span(a - b, 0);
            } else {
                lemma_mod_span(a - b, -1);
            }
        }
        *self = Key::from_u128(d);
    }

    /// The value of this key, when it fits in a `usize`.
    pub fn to_usize(&self) -> (r: Option<usize>)
        ensures
            r == (if self@ <= usize::MAX {
                Some(self@ as usize)
            } else {
                None::<usize>
            }),
    {
        let v = self.to_u128();
        if v <= usize::MAX as u128 {
            Some(v as usize)
        } else {
            None
        }
    }

    /// The key `count` steps after `start`, wrapping around; never `None`.
    pub fn forward_checked(start: Key, count: usize) -> (r: Option<Key>)
        ensures
            r is Some,
            r.unwrap()@ == forward_value(start@, count as nat),
    {
        let v = start.to_u128();
        let c = count as u128;
        let n = if v <= u128::MAX - c {
            v + c
        } else {
            c - (u128::MAX - v) - 1
        };
        proof {
            if v <= u128::MAX - c {
                lemma_mod_span(v + c, 0);
            } else {
                lemma_mod_span(v + c, 1);
            }
        }
        Some(Key::from_u128(n))
    }

    /// The key `count` steps before `start`, wrapping around; never `None`.
    pub fn backward_checked(start: Key, count: usize) -> (r: Option<Key>)
        ensures
            r is Some,
            r.unwrap()@ == backward_value(start@, count as nat),
    {
        let v = start.to_u128();
        let c = count as u128;
        let n = if v >= c {
            v - c
        } else {
            u128::MAX - (c - v) + 1
        };
        proof {
            if v >= c {
                lemma_mod_span(v - c, 0);
            } else {
                lemma_mod_span(v - c, -1);
            }
        }
        Some(Key::from_u128(n))
    }

    /// The distance `start - end` modulo `2^128`, or `None` when it does not
    /// fit in a `usize`.
    pub fn steps_between(start: &Key, end: &Key) -> (r: Option<usize>)
        ensures
            r == distance(start@, end@),
    {
        let mut s = *start;
        s.subtract(end);
        s.to_usize()
    }

    /// The decimal text of this key's value.
    pub fn to_str(&self) -> (r: String)
        ensures
            r@ == decimal(self@),
    {
        u128_decimal(self.to_u128())
    }

    /// The first entry that an enumeration of the log's namespace visited, or
    /// the all-zeros key when it visited none.
    pub fn get_first_comp(entries: &Vec<Key>) -> (r: Key)
        ensures
            entries@.len() > 0 ==> r == entries@[0],
            entries@.len() == 0 ==> r@ == 0,
    {
        if entries.len() > 0 {
            entries[0]
        } else {
            Key::from_u128(0)
        }
    }

    /// The last entry that an enumeration of the log's namespace visited, or
    /// the all-zeros key when it visited none.
    ///
    /// Keys are written in increasing order and never rewritten, so where the
    /// store enumerates in write order this is the newest committed key.
    pub fn get_last_comp(entries: &Vec<Key>) -> (r: Key)
        ensures
            entries@.len() > 0 ==> r == entries@.last(),
            entries@.len() == 0 ==> r@ == 0,
    {
        if entries.len() > 0 {
            entries[entries.len() - 1]
        } else {
            Key::from_u128(0)
        }
    }

    /// How many keys an export visits from `first` to `last`, both included.
    ///
    /// The range is empty when `first` comes after `last`, and also when its
    /// length cannot be counted in a `usize`, so that an export never loops
    /// without bound.
    pub fn inclusive_count(first: &Key, last: &Key) -> (r: usize)
        ensures
            r == inclusive_count(first@, last@),
    {
        let a = first.to_u128();
        let b = last.to_u128();
        if a > b {
            return 0;
        }
        let d = b - a;
        if d < usize::MAX as u128 {
            (d + 1) as usize
        } else {
            0
        }
    }
}

impl PartialEq for Key {
    fn eq(&self, other: &Key) -> (r: bool)
        ensures
            r == (self@ == other@),
    {
        self.to_u128() == other.to_u128()
    }
}

impl vstd::std_specs::cmp::PartialEqSpecImpl for Key {
    open spec fn obeys_eq_spec() -> bool {
        true
    }

    open spec fn eq_spec(&self, other: &Key) -> bool {
        self@ == other@
    }
}

impl Eq for Key {

}

impl PartialOrd for Key {
    fn partial_cmp(&self, other: &Key) -> (r: Option<core::cmp::Ordering>) {
        let a = self.to_u128();
        let b = other.to_u128();
        if a < b {
            Some(core::cmp::Ordering::Less)
        } else if a > b {
            Some(core::cmp::Ordering::Greater)
        } else {
            Some(core::cmp::Ordering::Equal)
        }
    }
}

impl vstd::std_specs::cmp::PartialOrdSpecImpl for Key {
    open spec fn obeys_partial_cmp_spec() -> bool {
        true
    }

    open spec fn partial_cmp_spec(&self, other: &Key) -> Option<core::cmp::Ordering> {
        if self@ < other@ {
            Some(core::cmp::Ordering::Less)
        } else if self@ > other@ {
            Some(core::cmp::Ordering::Greater)
        } else {
            Some(core::cmp::Ordering::Equal)
        }
    }
}

/// Stepping a key forward and then back gives the key again, also across the
/// wraparound between the all-ones key and the all-zeros key.
pub proof fn lemma_next_then_prev(k: Key, stepped: Key, back: Key)
    requires
        stepped@ == next_value(k@),
        back@ == prev_value(stepped@),
    ensures
        back == k,
{
    k.lemma_view_bound();
    if k@ + 1 == key_span() {
        lemma_mod_span((k@ + 1) as int, 1);
        lemma_mod_span(key_span() - 1, 0);
    } else {
        lemma_mod_span((k@ + 1) as int, 0);
        lemma_mod_span((k@ + key_span()) as int, 1);
    }
    back.lemma_view_injective(k);
}

/// The distance from `k` to the key `n` steps after it is `n`, for every `n`
/// that a `usize` holds, also where the steps wrap around.
pub proof fn lemma_forward_then_distance(k: Key, n: usize, moved: Key)
    requires
        moved@ == forward_value(k@, n as nat),
    ensures
        distance(moved@, k@) == Some(n),
{
    k.lemma_view_bound();
    if k@ + n < key_span() {
        lemma_mod_span((k@ + n) as int, 0);
        lemma_mod_span(n as int, 0);
    } else {
        lemma_mod_span((k@ + n) as int, 1);
        lemma_mod_span(k@ + n - key_span() - k@, -1);
    }
}

/// An export from `first` to `last` visits keys in increasing order without
/// wrapping: the `n`-th key visited is `first + n`, it never passes `last`,
/// and the final one is `last`.
pub proof fn lemma_export_in_order(first: Key, last: Key, n: nat)
    requires
        n < inclusive_count(first@, last@),
    ensures
        forward_value(first@, n) == first@ + n,
        first@ + n <= last@,
        n + 1 == inclusive_count(first@, last@) ==> forward_value(first@, n) == last@,
{
    last.lemma_view_bound();
    lemma_mod_span((first@ + n) as int, 0);
}

} // verus!
