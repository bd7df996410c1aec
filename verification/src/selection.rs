//! Moving a selection through a list of rows, and what committing one means.

use crate::text::same_text;
use vstd::prelude::*;

verus! {

/// The row `steps` rows from `from` in a list of `len`, stopping at both ends.
pub open spec fn clamped(from: int, steps: int, len: int) -> int {
    if from + steps < 0 || len == 0 {
        0
    } else if from + steps >= len {
        len - 1
    } else {
        from + steps
    }
}

/// The row `steps` rows from `from` in a list of `len`, going round at both
/// ends.
pub open spec fn wrapped(from: int, steps: int, len: int) -> int {
    if len == 0 {
        0
    } else {
        (from + steps) % len
    }
}

/// Move a selection `steps` rows through a list of `len` rows. Clamped at both
/// ends: the wheel stops at the first and last workspace instead of wrapping,
/// so spinning it never takes the user somewhere they were not aiming for.
pub fn clamp_step(from: usize, steps: i32, len: usize) -> (r: usize)
    ensures
        r == clamped(from as int, steps as int, len as int),
{
    if len == 0 {
        return 0;
    }
    let to: i128 = from as i128 + steps as i128;
    if to < 0 {
        0
    } else if to >= len as i128 {
        len - 1
    } else {
        to as usize
    }
}

/// Move a selection `steps` rows through a list of `len` rows, going round at
/// both ends: a key that is tapped repeatedly is a cycle, and stopping dead at
/// the last workspace would put half the list out of reach.
pub fn wrap_step(from: usize, steps: i32, len: usize) -> (r: usize)
    ensures
        r == wrapped(from as int, steps as int, len as int),
{
    if len == 0 {
        return 0;
    }
    let n: i128 = len as i128;
    let to: i128 = from as i128 + steps as i128;
    if to >= 0 {
        (to % n) as usize
    } else {
        // `%` goes towards zero: what is left below it counts back from `n`.
        let back: i128 = (0 - to) % n;
        proof {
            lemma_remainder_of_a_negative(to as int, n as int);
        }
        if back == 0 {
            0
        } else {
            (n - back) as usize
        }
    }
}

proof fn lemma_remainder_of_a_negative(to: int, n: int)
    requires
        to < 0,
        n > 0,
    ensures
        to % n == if (-to) % n == 0 {
            0
        } else {
            n - (-to) % n
        },
{
    let q = (-to) / n;
    let r = (-to) % n;
    vstd::arithmetic::div_mod::lemma_fundamental_div_mod(-to, n);
    vstd::arithmetic::div_mod::lemma_mod_bound(-to, n);
    assert(n * q == q * n) by (nonlinear_arith);
    if r == 0 {
        assert((-q) * n == -(q * n)) by (nonlinear_arith);
        vstd::arithmetic::div_mod::lemma_fundamental_div_mod_converse(to, n, -q, 0);
    } else {
        assert((-q - 1) * n == -(q * n) - n) by (nonlinear_arith);
        vstd::arithmetic::div_mod::lemma_fundamental_div_mod_converse(to, n, -q - 1, n - r);
    }
}

/// Whether committing `target` has nowhere to go.
pub open spec fn nowhere_to_go(
    target: Option<Seq<char>>,
    previewed: Option<Seq<char>>,
    origin: Option<Seq<char>>,
    pending: bool,
) -> bool {
    !pending && target is Some && target == previewed && target == origin
}

fn same_optional_str(a: Option<&str>, b: Option<&str>) -> (r: bool)
    ensures
        r == (a.deep_view() == b.deep_view()),
{
    match (a, b) {
        (Some(x), Some(y)) => same_text(x, y),
        (None, None) => true,
        _ => false,
    }
}

/// Whether committing `target` has nowhere to go, so hiding the panel is the
/// whole of it.
///
/// True only when all three agree that nothing has moved since the panel was
/// shown: the commit names the origin, that is also what is being previewed,
/// and no preview is waiting out its debounce. Anything else is a real switch,
/// a commit of the origin after a preview included: that is how the user comes
/// back.
pub fn commit_is_a_plain_hide(
    target: Option<&str>,
    previewed: Option<&str>,
    origin: Option<&str>,
    pending: bool,
) -> (r: bool)
    ensures
        r == nowhere_to_go(
            target.deep_view(),
            previewed.deep_view(),
            origin.deep_view(),
            pending,
        ),
{
    !pending && target.is_some() && same_optional_str(target, previewed) && same_optional_str(
        target,
        origin,
    )
}

// -------------------------------------------------------------------- laws --

/// A step lands on a row, whichever way it is counted.
pub proof fn law_steps_land_on_a_row(from: int, steps: int, len: int)
    requires
        len > 0,
    ensures
        0 <= clamped(from, steps, len) < len,
        0 <= wrapped(from, steps, len) < len,
{
    vstd::arithmetic::div_mod::lemma_mod_bound(from + steps, len);
}

/// The wheel never goes past where it was aimed, nor the other way.
pub proof fn law_the_wheel_never_overshoots(from: int, steps: int, len: int)
    requires
        0 <= from < len,
    ensures
        steps >= 0 ==> from <= clamped(from, steps, len) <= from + steps,
        steps <= 0 ==> from + steps <= clamped(from, steps, len) <= from,
        0 <= from + steps < len ==> clamped(from, steps, len) == from + steps,
{
}

/// Two explicit steps one after the other are one step of both lengths, so
/// stepping back undoes stepping on, and as many single steps as there are rows
/// come back to the start.
pub proof fn law_explicit_steps_are_a_cycle(from: int, a: int, b: int, len: int)
    requires
        0 <= from < len,
    ensures
        wrapped(wrapped(from, a, len), b, len) == wrapped(from, a + b, len),
        wrapped(wrapped(from, a, len), -a, len) == from,
        wrapped(from, len, len) == from,
{
    vstd::arithmetic::div_mod::lemma_add_mod_noop(from + a, b, len);
    vstd::arithmetic::div_mod::lemma_mod_twice(from + a, len);
    vstd::arithmetic::div_mod::lemma_add_mod_noop((from + a) % len, b, len);
    vstd::arithmetic::div_mod::lemma_add_mod_noop(from + a, -a, len);
    vstd::arithmetic::div_mod::lemma_add_mod_noop((from + a) % len, -a, len);
    vstd::arithmetic::div_mod::lemma_small_mod(from as nat, len as nat);
    vstd::arithmetic::div_mod::lemma_mod_add_multiples_vanish(from, len);
}

/// Explicit steps in one direction reach every row.
pub proof fn law_every_row_is_within_reach(from: int, to: int, len: int)
    requires
        0 <= from < len,
        0 <= to < len,
    ensures
        exists|n: int| 0 <= n < len && #[trigger] wrapped(from, n, len) == to,
{
    let n = if to >= from {
        to - from
    } else {
        to - from + len
    };
    vstd::arithmetic::div_mod::lemma_small_mod(to as nat, len as nat);
    vstd::arithmetic::div_mod::lemma_mod_add_multiples_vanish(to, len);
    assert(wrapped(from, n, len) == to);
}

/// A step goes as far as it says and in its direction: the wheel to the end of
/// the list at most, an explicit one as often round as it takes. Without rows
/// there is nowhere to go.
pub proof fn law_steps_go_as_far_as_they_say(from: int, steps: int, len: int)
    requires
        len >= 0,
    ensures
        len == 0 ==> clamped(from, steps, len) == 0 && wrapped(from, steps, len) == 0,
        0 <= from + steps < len ==> clamped(from, steps, len) == from + steps && wrapped(
            from,
            steps,
            len,
        ) == from + steps,
        len > 0 && from + steps < 0 ==> clamped(from, steps, len) == 0,
        len > 0 && from + steps >= len ==> clamped(from, steps, len) == len - 1,
        len > 0 ==> (from + steps - wrapped(from, steps, len)) % len == 0,
{
    if len > 0 {
        let n = from + steps;
        if 0 <= n < len {
            vstd::arithmetic::div_mod::lemma_small_mod(n as nat, len as nat);
        }
        vstd::arithmetic::div_mod::lemma_fundamental_div_mod(n, len);
        let q = n / len;
        assert(n - n % len == q * len + 0) by (nonlinear_arith)
            requires
                n == len * q + n % len,
        ;
        vstd::arithmetic::div_mod::lemma_fundamental_div_mod_converse(n - n % len, len, q, 0);
    }
}

/// A commit has nowhere to go exactly if it names the origin, that is what is
/// being previewed, and nothing is pending: a commit of anything else, or of the
/// origin after a preview, is a switch.
pub proof fn law_only_home_has_nowhere_to_go(
    target: Seq<char>,
    previewed: Option<Seq<char>>,
    origin: Option<Seq<char>>,
    pending: bool,
)
    ensures
        nowhere_to_go(Some(target), previewed, origin, pending) <==> !pending && previewed == Some(
            target,
        ) && origin == Some(target),
        !nowhere_to_go(None, previewed, origin, pending),
{
}

} // verus!
