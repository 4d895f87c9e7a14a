//! Assorted small utilities: a loadable-value cell with progress reporting and
//! cancellation, an error-aggregation type with a tree-shaped pretty printer,
//! sorted multimaps, key-merge iterators, and numeric helpers.

pub mod app_error;
pub mod btree_map_vector;
pub mod family;
pub mod file_lock;
pub mod iter;
pub mod keyed_par_iter;
pub mod kv_par_iter;
pub mod loadable;
pub mod logger;
pub mod multiple;
pub mod null_ascii_string;
pub mod ok_or_return;
pub mod pre_init;
pub mod pretty;
pub mod reader;

use std::hash::Hasher;
use vstd::prelude::*;

verus! {

/// Returns the signed difference `a - b` of two `u64` values as an `i64`.
///
/// A difference that does not fit into an `i64` would be met with a panic,
/// so such inputs are excluded here.
pub fn abs_diff(a: u64, b: u64) -> (r: i64)
    requires
        a >= b ==> a - b <= i64::MAX,
        a < b ==> b - a <= i64::MAX,
    ensures
        r == a - b,
{
    let diff: u64 = if a > b {
        a - b
    } else {
        b - a
    };
    if a > b {
        diff as i64
    } else {
        -(diff as i64)
    }
}

/// Adds an `i64` offset to a `u64` base, clamping the result into `0..=u64::MAX`.
pub fn saturating_signed_offset(a: u64, b: i64) -> (r: u64)
    ensures
        a + b < 0 ==> r == 0,
        a + b > u64::MAX ==> r == u64::MAX,
        0 <= a + b <= u64::MAX ==> r == a + b,
{
    if b > 0 {
        if a <= u64::MAX - (b as u64) {
            a + (b as u64)
        } else {
            u64::MAX
        }
    } else {
        let neg_b: u64 = if b == i64::MIN {
            0x8000_0000_0000_0000u64
        } else {
            (-b) as u64
        };
        if a >= neg_b {
            a - neg_b
        } else {
            0
        }
    }
}

/// Adds an `i64` offset to a `u64` base, returning `None` when the result
/// would fall outside `0..=u64::MAX`.
pub fn checked_signed_offset(a: u64, b: i64) -> (r: Option<u64>)
    ensures
        0 <= a + b <= u64::MAX ==> r == Some((a + b) as u64),
        !(0 <= a + b <= u64::MAX) ==> r is None,
{
    if b > 0 {
        if a <= u64::MAX - (b as u64) {
            Some(a + (b as u64))
        } else {
            None
        }
    } else {
        let neg_b: u64 = if b == i64::MIN {
            0x8000_0000_0000_0000u64
        } else {
            (-b) as u64
        };
        if a >= neg_b {
            Some(a - neg_b)
        } else {
            None
        }
    }
}

/// Adds an `i64` offset to a `u64` base. A result outside `0..=u64::MAX`
/// would be met with a panic, so such inputs are excluded here.
pub fn signed_offset(a: u64, b: i64) -> (r: u64)
    requires
        0 <= a + b <= u64::MAX,
    ensures
        r == a + b,
{
    if b > 0 {
        a + (b as u64)
    } else {
        let neg_b: u64 = if b == i64::MIN {
            0x8000_0000_0000_0000u64
        } else {
            (-b) as u64
        };
        a - neg_b
    }
}

/// The two to the given power, as an unbounded integer.
pub open spec fn pow2(e: nat) -> int {
    vstd::arithmetic::power2::pow2(e) as int
}

/// The value of the low `n` bits of `v` read as an `n`-bit two's-complement
/// number, re-encoded as an unsigned 128-bit value.
pub open spec fn spec_sign_extend(v: int, n: nat) -> int {
    let m = v % pow2(n);
    if m < pow2((n - 1) as nat) {
        m
    } else {
        m + 0x100000000000000000000000000000000 - pow2(n)
    }
}

proof fn lemma_pow2_values()
    ensures
        pow2(126) == 0x40000000000000000000000000000000,
        pow2(127) == 0x80000000000000000000000000000000,
        pow2(128) == 0x100000000000000000000000000000000,
{
    vstd::arithmetic::power2::lemma2_to64();
    vstd::arithmetic::power2::lemma2_to64_rest();
    vstd::arithmetic::power2::lemma_pow2_adds(64, 62);
    vstd::arithmetic::power2::lemma_pow2_adds(64, 63);
    vstd::arithmetic::power2::lemma_pow2_adds(64, 64);
}

fn pow2_u128(n: usize) -> (r: u128)
    requires
        n <= 127,
    ensures
        r == pow2(n as nat),
{
    let mut j: usize = 0;
    let mut p: u128 = 1;
    proof {
        vstd::arithmetic::power2::lemma2_to64();
    }
    while j < n
        invariant
            j <= n <= 127,
            p == pow2(j as nat),
        decreases n - j,
    {
        proof {
            lemma_pow2_values();
            if (j as nat) < 126 {
                vstd::arithmetic::power2::lemma_pow2_strictly_increases(j as nat, 126);
            }
            vstd::arithmetic::power2::lemma_pow2_unfold((j + 1) as nat);
        }
        p = p * 2;
        j += 1;
    }
    p
}

/// Sign extends the low `n` bits of a value to the full 128-bit width.
pub fn sign_extend_un(value: u128, n: usize) -> (r: u128)
    requires
        1 <= n <= 128,
    ensures
        r == spec_sign_extend(value as int, n as nat),
{
    proof {
        lemma_pow2_values();
    }
    if n == 128 {
        proof {
            vstd::arithmetic::div_mod::lemma_small_mod(value as nat, pow2(128) as nat);
        }
        value
    } else {
        let p = pow2_u128(n);
        proof {
            vstd::arithmetic::power2::lemma_pow2_unfold(n as nat);
            vstd::arithmetic::power2::lemma_pow2_pos(n as nat);
            if (n as nat) < 127 {
                vstd::arithmetic::power2::lemma_pow2_strictly_increases(n as nat, 127);
            }
            vstd::arithmetic::div_mod::lemma_mod_bound(value as int, p as int);
        }
        let half = p / 2;
        let m = value % p;
        if m < half {
            m
        } else {
            m + (u128::MAX - p) + 1
        }
    }
}

/// Relies on std's `Hash` implementation of the value's type to feed the
/// standard default hasher; what it writes depends on that implementation,
/// so nothing is stated of the digest.
#[verifier::external_body]
fn hash_value_into<T: std::hash::Hash + ?Sized>(
    value: &T,
    state: &mut std::collections::hash_map::DefaultHasher,
) {
    value.hash(state)
}

/// Calculates the hash of any single value, with the standard default
/// hasher. The digest follows the value's own `Hash` implementation, of
/// which nothing is known here, so no more is stated.
pub fn hash_of<T: std::hash::Hash>(value: &T) -> u64 {
    let mut state = std::collections::hash_map::DefaultHasher::new();
    hash_value_into(value, &mut state);
    state.finish()
}

/// Error for opening and parsing a value from a file.
#[derive(Debug)]
pub enum ParseFromFileError<E> {
    /// Unable to open the file.
    Open(std::io::Error),
    /// Unable to parse the file.
    Parse(E),
}

/// Error for creating and writing a value to a file.
#[derive(Debug)]
pub enum WriteToFileError<E> {
    /// Unable to create the file.
    Create(std::io::Error),
    /// Unable to write the file.
    Write(E),
}

/// Relies on std's `io::Error` being an ordinary type: it is declared here
/// so that error values the host hands over can be carried through, opaque
/// to the proofs.
#[verifier::external_type_specification]
#[verifier::external_body]
pub struct ExIoError(std::io::Error);

} // verus!
