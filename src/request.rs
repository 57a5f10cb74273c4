//! Allocation requests and their normalisation to whole cache lines.
use vstd::arithmetic::div_mod::{lemma_fundamental_div_mod, lemma_mod_decreases, lemma_mod_multiples_basic};
use vstd::arithmetic::power2::is_pow2;
use vstd::layout::valid_layout;
use vstd::prelude::*;

verus! {

/// Size of a cache line: the alignment floor applied to every request, so
/// that no two allocations ever share a line.
pub const CACHE_LINE_SIZE: usize = 64;

/// The smallest multiple of `m` that is at least `n` (for `m > 0`).
pub open spec fn round_up(n: int, m: int) -> int {
    if n % m == 0 {
        n
    } else {
        n - n % m + m
    }
}

/// Size of a request once it has been widened to whole cache lines.
pub open spec fn normalized_size(size: usize) -> int {
    round_up(size as int, CACHE_LINE_SIZE as int)
}

/// Alignment of a request once it has been raised to the cache-line floor.
pub open spec fn normalized_align(align: usize) -> int {
    if align < CACHE_LINE_SIZE {
        CACHE_LINE_SIZE as int
    } else {
        align as int
    }
}

/// Whether the normalised form of `(size, align)` is still a request that
/// the platform can describe.
pub open spec fn normalizable(size: usize, align: usize) -> bool {
    normalized_size(size) <= isize::MAX as int - (isize::MAX as int % normalized_align(align))
}

/// A size and an alignment, as handed to the global allocator.
#[derive(Clone, Copy, Debug, PartialEq, Eq, Structural)]
pub struct Request {
    pub size: usize,
    pub align: usize,
}

impl Request {
    /// A request is well formed when its alignment is a power of two and its
    /// size, rounded up to the alignment, does not exceed `isize::MAX`.
    pub open spec fn wf(self) -> bool {
        valid_layout(self.size, self.align)
    }

    /// Builds a request, or `None` when `(size, align)` is not well formed.
    pub fn new(size: usize, align: usize) -> (r: Option<Request>)
        ensures
            r is Some <==> valid_layout(size, align),
            r matches Some(q) ==> q.size == size && q.align == align,
    {
        if !is_power_of_two(align) {
            return None;
        }
        let limit = size_limit(align);
        if size <= limit {
            Some(Request { size, align })
        } else {
            None
        }
    }
}

/// The largest size that a request of alignment `align` may have.
fn size_limit(align: usize) -> (r: usize)
    requires
        align > 0,
    ensures
        r == isize::MAX as int - (isize::MAX as int % align as int),
{
    let max: usize = isize::MAX as usize;
    proof {
        lemma_mod_decreases(max as nat, align as nat);
    }
    max - max % align
}

/// Decides whether `n` is a power of two.
pub fn is_power_of_two(n: usize) -> (r: bool)
    ensures
        r == is_pow2(n as int),
        r ==> n > 0,
{
    if n == 0 {
        proof {
            reveal(is_pow2);
        }
        return false;
    }
    let mut m: usize = n;
    while m > 1 && m % 2 == 0
        invariant
            m >= 1,
            is_pow2(m as int) == is_pow2(n as int),
        decreases m,
    {
        proof {
            reveal(is_pow2);
        }
        m = m / 2;
    }
    proof {
        reveal(is_pow2);
    }
    m == 1
}

/// Relies on `align_address::u64_checked_align_up`: the smallest multiple of
/// `align` that is at least `addr`, or `None` when that exceeds `u64::MAX`.
/// It panics unless `align` is a power of two.
#[verifier::external_body]
fn checked_align_up(addr: u64, align: u64) -> (r: Option<u64>)
    requires
        is_pow2(align as int),
    ensures
        r matches Some(x) ==> x as int == round_up(addr as int, align as int),
        r is None ==> round_up(addr as int, align as int) > u64::MAX,
{
    align_address::u64_checked_align_up(addr, align)
}

/// Widens a request to whole cache lines: its size is rounded up to a
/// multiple of the cache-line size and its alignment raised to at least one
/// cache line. `None` when the widened request could no longer be described
/// (its size would pass `isize::MAX`); the allocator then reports failure.
pub fn align_layout(req: Request) -> (r: Option<Request>)
    requires
        req.wf(),
    ensures
        r is Some <==> normalizable(req.size, req.align),
        r matches Some(n) ==> {
            &&& n.size == normalized_size(req.size)
            &&& n.align == normalized_align(req.align)
            &&& n.wf()
        },
{
    proof {
        lemma_cache_line_is_pow2();
    }
    let align: usize = if req.align < CACHE_LINE_SIZE {
        CACHE_LINE_SIZE
    } else {
        req.align
    };
    match checked_align_up(req.size as u64, CACHE_LINE_SIZE as u64) {
        None => None,
        Some(size) => {
            let limit = size_limit(align);
            if size <= limit as u64 {
                Some(Request { size: size as usize, align })
            } else {
                None
            }
        },
    }
}

/// The request that the arena is asked for when the caller asks for `size`
/// bytes aligned to `align`: `None` when `(size, align)` is not a well-formed
/// request or its widened form cannot be described, and the widened request
/// otherwise.
pub fn normalize(size: usize, align: usize) -> (r: Option<Request>)
    ensures
        r is Some <==> valid_layout(size, align) && normalizable(size, align),
        r matches Some(n) ==> {
            &&& n.size == normalized_size(size)
            &&& n.align == normalized_align(align)
            &&& n.wf()
        },
{
    match Request::new(size, align) {
        None => None,
        Some(req) => align_layout(req),
    }
}

proof fn lemma_cache_line_is_pow2()
    ensures
        is_pow2(CACHE_LINE_SIZE as int),
{
    reveal_with_fuel(is_pow2, 8);
}

/// `round_up(n, m)` is a multiple of `m`, at least `n`, and less than `n + m`.
pub proof fn lemma_round_up(n: int, m: int)
    requires
        n >= 0,
        m > 0,
    ensures
        round_up(n, m) % m == 0,
        n <= round_up(n, m) < n + m,
{
    lemma_fundamental_div_mod(n, m);
    if n % m != 0 {
        assert(round_up(n, m) == m * (n / m + 1)) by (nonlinear_arith)
            requires
                n == m * (n / m) + n % m,
                round_up(n, m) == n - n % m + m,
        ;
        lemma_mod_multiples_basic(n / m + 1, m);
    }
}

/// For every request of positive size and power-of-two alignment, the
/// normalised size is a whole number of cache lines and no smaller than the
/// requested size, and the normalised alignment is the larger of the
/// requested alignment and the cache-line size, itself a power of two.
pub proof fn lemma_normalized_request(size: usize, align: usize)
    requires
        size > 0,
        is_pow2(align as int),
    ensures
        normalized_size(size) % (CACHE_LINE_SIZE as int) == 0,
        size <= normalized_size(size) < size + CACHE_LINE_SIZE,
        normalized_align(align) == vstd::math::max(align as int, CACHE_LINE_SIZE as int),
        normalized_align(align) >= CACHE_LINE_SIZE,
        is_pow2(normalized_align(align)),
{
    lemma_round_up(size as int, CACHE_LINE_SIZE as int);
    lemma_cache_line_is_pow2();
}

} // verus!
