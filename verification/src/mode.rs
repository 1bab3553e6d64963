use vstd::prelude::*;

use crate::text::{find_char, find_perms, get_perm_number, perm_bits, perm_letters};

verus! {

/// The nine permission bits (user, group, other; read, write, execute each).
pub const PERMISSION_MASK: u32 = 0o777;

pub open spec fn is_octal_digit(c: char) -> bool {
    '0' <= c && c <= '7'
}

pub open spec fn octal_digit_value(c: char) -> int {
    c as int - '0' as int
}

/// The number that a string of octal digits denotes.
pub open spec fn octal_value(s: Seq<char>) -> int
    decreases s.len(),
{
    if s.len() == 0 {
        0
    } else {
        octal_value(s.drop_last()) * 8 + octal_digit_value(s.last())
    }
}

pub open spec fn all_octal_digits(s: Seq<char>) -> bool {
    forall|i: int| 0 <= i < s.len() ==> is_octal_digit(#[trigger] s[i])
}

/// An octal number: one or more octal digits whose value fits in a `u32`.
pub open spec fn octal_number(s: Seq<char>) -> Option<u32> {
    if s.len() > 0 && all_octal_digits(s) && octal_value(s) <= u32::MAX {
        Some(octal_value(s) as u32)
    } else {
        None
    }
}

/// The value of octal digits is never negative.
proof fn lemma_octal_value_nonneg(s: Seq<char>)
    requires
        all_octal_digits(s),
    ensures
        octal_value(s) >= 0,
    decreases s.len(),
{
    if s.len() > 0 {
        assert(is_octal_digit(s[s.len() - 1]));
        lemma_octal_value_nonneg(s.drop_last());
    }
}

/// Octal numbers read digit by digit: a single digit is its own value, and
/// one more digit at the end multiplies the value by eight and adds the
/// digit. An empty string, or one with a character other than `0`..`7`
/// anywhere, is no number.
pub proof fn law_octal_digits(s: Seq<char>, d: char)
    ensures
        is_octal_digit(d) ==> octal_number(seq![d]) == Some((d as int - '0' as int) as u32),
        all_octal_digits(s) && is_octal_digit(d) ==> octal_value(s.push(d)) == 8 * octal_value(s)
            + (d as int - '0' as int),
        octal_number(Seq::<char>::empty()) is None,
        !is_octal_digit(d) ==> octal_number(s.push(d)) is None,
{
    assert(seq![d].drop_last() =~= Seq::<char>::empty());
    assert(s.push(d).drop_last() =~= s);
    if is_octal_digit(d) {
        assert(seq![d].last() == d);
        assert(octal_value(Seq::<char>::empty()) == 0);
        assert(octal_value(seq![d]) == d as int - '0' as int);
        assert(all_octal_digits(seq![d]));
    }
    if !is_octal_digit(d) {
        assert(s.push(d)[s.len() as int] == d);
    }
}

/// Reads an unsigned octal number such as `755`; `None` where the string is
/// empty, holds a character other than `0`..`7`, or denotes a value above
/// `u32::MAX`.
pub fn parse_octal(s: &str) -> (value: Option<u32>)
    ensures
        value == octal_number(s@),
{
    let n = s.unicode_len();
    // saturates at `cap`, which is already out of range
    let cap: u64 = 0x1_0000_0000;
    let mut acc: u64 = 0;
    let mut i: usize = 0;
    while i < n
        invariant
            n == s@.len(),
            i <= n,
            all_octal_digits(s@.take(i as int)),
            cap == 0x1_0000_0000,
            acc <= cap,
            acc < cap ==> acc == octal_value(s@.take(i as int)),
            acc == cap ==> octal_value(s@.take(i as int)) >= cap,
        decreases n - i,
    {
        let c = s.get_char(i);
        assert(s@.take(i + 1).drop_last() =~= s@.take(i as int));
        if c < '0' || c > '7' {
            assert(!is_octal_digit(s@[i as int]));
            assert(!all_octal_digits(s@));
            return None;
        }
        let d = (c as u64) - ('0' as u64);
        assert(d <= 7 && d == octal_digit_value(c));
        proof {
            lemma_octal_value_nonneg(s@.take(i as int));
        }
        if acc == cap || acc * 8 + d >= cap {
            acc = cap;
        } else {
            acc = acc * 8 + d;
        }
        i += 1;
        assert(all_octal_digits(s@.take(i as int)));
    }
    assert(s@.take(n as int) =~= s@);
    if n == 0 || acc == cap {
        None
    } else {
        Some(acc as u32)
    }
}

/// The bits moved by the user, group and other classes: the permission bits
/// themselves, or, once `a` has spread them over all three classes, the bits
/// as they stand at the user position.
pub open spec fn working_bits(p: u32, all: bool) -> u32 {
    if all {
        p << 6
    } else {
        p
    }
}

/// `a`: the permission bits in all three classes.
pub open spec fn all_bits(p: u32, all: bool) -> u32 {
    if all {
        p | (p << 3) | (p << 6)
    } else {
        0
    }
}

/// `u`: the working bits moved to the user position.
pub open spec fn user_bits(p: u32, all: bool, user: bool) -> u32 {
    if user {
        working_bits(p, all) << 6
    } else {
        0
    }
}

/// `g`: the working bits moved to the group position.
pub open spec fn group_bits(p: u32, all: bool, group: bool) -> u32 {
    if group {
        working_bits(p, all) << 3
    } else {
        0
    }
}

/// `o`: the working bits at the other position.
pub open spec fn other_bits(p: u32, all: bool, other: bool) -> u32 {
    if other {
        working_bits(p, all)
    } else {
        0
    }
}

/// `+`: every class named gets its bits set.
pub open spec fn granted(base: u32, p: u32, a: bool, u: bool, g: bool, o: bool) -> u32 {
    base | all_bits(p, a) | user_bits(p, a, u) | group_bits(p, a, g) | other_bits(p, a, o)
}

/// `-`: every class named gets its bits flipped.
pub open spec fn toggled(base: u32, p: u32, a: bool, u: bool, g: bool, o: bool) -> u32 {
    base ^ all_bits(p, a) ^ user_bits(p, a, u) ^ group_bits(p, a, g) ^ other_bits(p, a, o)
}

/// The mode that a mode string gives a file whose mode is `current`.
/// A string holding `+` sets, one holding `-` (and no `+`) flips, the bits
/// of the permission letters (see `perm_letters` and `perm_bits`) in the
/// classes whose letters (`a`, `u`, `g`, `o`) occur anywhere in the string,
/// starting from the nine permission bits of `current`. Any other string is
/// an octal mode, which replaces the mode.
pub open spec fn mode_after(s: Seq<char>, current: u32) -> u32
    recommends
        accepted_mode(s),
{
    let base = current & PERMISSION_MASK;
    let p = perm_bits(perm_letters(s));
    let a = s.contains('a');
    let u = s.contains('u');
    let g = s.contains('g');
    let o = s.contains('o');
    if s.contains('+') {
        granted(base, p, a, u, g, o)
    } else if s.contains('-') {
        toggled(base, p, a, u, g, o)
    } else {
        octal_value(s) as u32
    }
}

/// A mode string that holds `+` or `-`, or is an octal number.
pub open spec fn accepted_mode(s: Seq<char>) -> bool {
    s.contains('+') || s.contains('-') || octal_number(s) is Some
}

/// Whether `spec` is a mode string that `new_mode` takes.
pub fn mode_accepted(spec: &String) -> (accepted: bool)
    ensures
        accepted == accepted_mode(spec@),
{
    let s = spec.as_str();
    find_char(s, '+') || find_char(s, '-') || parse_octal(s).is_some()
}

/// Computes the mode that the mode string `spec` gives a file whose current
/// mode is `current`.
pub fn new_mode(spec: &String, current: u32) -> (mode: u32)
    requires
        accepted_mode(spec@),
    ensures
        mode == mode_after(spec@, current),
{
    let s = spec.as_str();
    let base = current & PERMISSION_MASK;
    let perms = find_perms(spec);
    let p = get_perm_number(perms);
    let a = find_char(s, 'a');
    let u = find_char(s, 'u');
    let g = find_char(s, 'g');
    let o = find_char(s, 'o');
    if find_char(s, '+') {
        grant_bits(base, p, a, u, g, o)
    } else if find_char(s, '-') {
        toggle_bits(base, p, a, u, g, o)
    } else {
        parse_octal(s).unwrap()
    }
}

/// Sets the bits class by class, moving the permission bits to each class's
/// position and back.
fn grant_bits(base: u32, p: u32, a: bool, u: bool, g: bool, o: bool) -> (mode: u32)
    requires
        p < 8,
    ensures
        mode == granted(base, p, a, u, g, o),
{
    let mut init_perms = base;
    let mut perm_number = p;
    if a {
        init_perms = init_perms | perm_number;
        perm_number = perm_number << 3;
        init_perms = init_perms | perm_number;
        perm_number = perm_number << 3;
        init_perms = init_perms | perm_number;
        assert(((base | p) | (p << 3u32)) | ((p << 3u32) << 3u32) == base | (p | (p << 3u32)
            | (p << 6u32))) by (bit_vector)
            requires
                p < 8u32,
        ;
        assert((p << 3u32) << 3u32 == p << 6u32) by (bit_vector)
            requires
                p < 8u32,
        ;
    } else {
        assert(base | 0u32 == base) by (bit_vector);
    }
    let ghost w = working_bits(p, a);
    let ghost s1 = base | all_bits(p, a);
    assert(init_perms == s1 && perm_number == w);
    assert(w < 512) by (bit_vector)
        requires
            p < 8u32,
            w == if a {
                p << 6u32
            } else {
                p
            },
    ;
    if u {
        perm_number = perm_number << 6;
        init_perms = init_perms | perm_number;
        perm_number = perm_number >> 6;
        assert((w << 6u32) >> 6u32 == w) by (bit_vector)
            requires
                w < 512u32,
        ;
    } else {
        assert(s1 | 0u32 == s1) by (bit_vector);
    }
    let ghost s2 = s1 | user_bits(p, a, u);
    assert(init_perms == s2 && perm_number == w);
    if g {
        perm_number = perm_number << 3;
        init_perms = init_perms | perm_number;
        perm_number = perm_number >> 3;
        assert((w << 3u32) >> 3u32 == w) by (bit_vector)
            requires
                w < 512u32,
        ;
    } else {
        assert(s2 | 0u32 == s2) by (bit_vector);
    }
    let ghost s3 = s2 | group_bits(p, a, g);
    assert(init_perms == s3 && perm_number == w);
    if o {
        init_perms = init_perms | perm_number;
    } else {
        assert(s3 | 0u32 == s3) by (bit_vector);
    }
    init_perms
}

/// Flips the bits class by class, moving the permission bits to each class's
/// position and back.
fn toggle_bits(base: u32, p: u32, a: bool, u: bool, g: bool, o: bool) -> (mode: u32)
    requires
        p < 8,
    ensures
        mode == toggled(base, p, a, u, g, o),
{
    let mut init_perms = base;
    let mut perm_number = p;
    if a {
        init_perms = init_perms ^ perm_number;
        perm_number = perm_number << 3;
        init_perms = init_perms ^ perm_number;
        perm_number = perm_number << 3;
        init_perms = init_perms ^ perm_number;
        assert(((base ^ p) ^ (p << 3u32)) ^ ((p << 3u32) << 3u32) == base ^ (p | (p << 3u32)
            | (p << 6u32))) by (bit_vector)
            requires
                p < 8u32,
        ;
        assert((p << 3u32) << 3u32 == p << 6u32) by (bit_vector)
            requires
                p < 8u32,
        ;
    } else {
        assert(base ^ 0u32 == base) by (bit_vector);
    }
    let ghost w = working_bits(p, a);
    let ghost s1 = base ^ all_bits(p, a);
    assert(init_perms == s1 && perm_number == w);
    assert(w < 512) by (bit_vector)
        requires
            p < 8u32,
            w == if a {
                p << 6u32
            } else {
                p
            },
    ;
    if u {
        perm_number = perm_number << 6;
        init_perms = init_perms ^ perm_number;
        perm_number = perm_number >> 6;
        assert((w << 6u32) >> 6u32 == w) by (bit_vector)
            requires
                w < 512u32,
        ;
    } else {
        assert(s1 ^ 0u32 == s1) by (bit_vector);
    }
    let ghost s2 = s1 ^ user_bits(p, a, u);
    assert(init_perms == s2 && perm_number == w);
    if g {
        perm_number = perm_number << 3;
        init_perms = init_perms ^ perm_number;
        perm_number = perm_number >> 3;
        assert((w << 3u32) >> 3u32 == w) by (bit_vector)
            requires
                w < 512u32,
        ;
    } else {
        assert(s2 ^ 0u32 == s2) by (bit_vector);
    }
    let ghost s3 = s2 ^ group_bits(p, a, g);
    assert(init_perms == s3 && perm_number == w);
    if o {
        init_perms = init_perms ^ perm_number;
    } else {
        assert(s3 ^ 0u32 == s3) by (bit_vector);
    }
    init_perms
}

/// The flipped bits stay among the nine permission bits unless `a` is
/// combined with `u` or `g`.
pub open spec fn stays_in_permission_bits(s: Seq<char>) -> bool {
    !(s.contains('a') && (s.contains('u') || s.contains('g')))
}

/// Without `a`, `+` sets the permission bits at the user position for `u`,
/// at the group position for `g`, and at the other position for `o`, and
/// nothing else; with `a` alone it sets them in all three positions.
pub proof fn law_grant_by_class(s: Seq<char>, current: u32)
    requires
        s.contains('+'),
    ensures
        !s.contains('a') ==> mode_after(s, current) == (current & 0o777u32) | (if s.contains('u') {
            perm_bits(perm_letters(s)) << 6u32
        } else {
            0u32
        }) | (if s.contains('g') {
            perm_bits(perm_letters(s)) << 3u32
        } else {
            0u32
        }) | (if s.contains('o') {
            perm_bits(perm_letters(s))
        } else {
            0u32
        }),
        s.contains('a') && !s.contains('u') && !s.contains('g') && !s.contains('o') ==> mode_after(
            s,
            current,
        ) == (current & 0o777u32) | perm_bits(perm_letters(s)) | (perm_bits(perm_letters(s))
            << 3u32) | (perm_bits(perm_letters(s)) << 6u32),
{
    let base = current & 0o777u32;
    let p = perm_bits(perm_letters(s));
    let u1 = if s.contains('u') {
        p << 6u32
    } else {
        0u32
    };
    let g1 = if s.contains('g') {
        p << 3u32
    } else {
        0u32
    };
    let o1 = if s.contains('o') {
        p
    } else {
        0u32
    };
    assert(base | 0u32 | u1 | g1 | o1 == base | u1 | g1 | o1) by (bit_vector);
    assert(base | (p | (p << 3u32) | (p << 6u32)) | 0u32 | 0u32 | 0u32 == base | p | (p << 3u32)
        | (p << 6u32)) by (bit_vector);
}

/// Without `a`, `-` flips exactly the permission bits at the positions of
/// the classes named: the new mode differs from the old nine bits there and
/// nowhere else.
pub proof fn law_flip_by_class(s: Seq<char>, current: u32)
    requires
        s.contains('-'),
        !s.contains('+'),
        !s.contains('a'),
    ensures
        mode_after(s, current) ^ (current & 0o777u32) == (if s.contains('u') {
            perm_bits(perm_letters(s)) << 6u32
        } else {
            0u32
        }) ^ (if s.contains('g') {
            perm_bits(perm_letters(s)) << 3u32
        } else {
            0u32
        }) ^ (if s.contains('o') {
            perm_bits(perm_letters(s))
        } else {
            0u32
        }),
{
    let base = current & 0o777u32;
    let p = perm_bits(perm_letters(s));
    let u1 = if s.contains('u') {
        p << 6u32
    } else {
        0u32
    };
    let g1 = if s.contains('g') {
        p << 3u32
    } else {
        0u32
    };
    let o1 = if s.contains('o') {
        p
    } else {
        0u32
    };
    assert((base ^ 0u32 ^ u1 ^ g1 ^ o1) ^ base == u1 ^ g1 ^ o1) by (bit_vector);
}

/// Granting never takes a permission away: every one of the nine permission
/// bits that was set is still set.
pub proof fn law_grant_keeps_permissions(s: Seq<char>, current: u32)
    requires
        s.contains('+'),
    ensures
        mode_after(s, current) & (current & PERMISSION_MASK) == current & PERMISSION_MASK,
{
    let base = current & PERMISSION_MASK;
    let a1 = all_bits(perm_bits(perm_letters(s)), s.contains('a'));
    let u1 = user_bits(perm_bits(perm_letters(s)), s.contains('a'), s.contains('u'));
    let g1 = group_bits(perm_bits(perm_letters(s)), s.contains('a'), s.contains('g'));
    let o1 = other_bits(perm_bits(perm_letters(s)), s.contains('a'), s.contains('o'));
    assert((base | a1 | u1 | g1 | o1) & base == base) by (bit_vector);
}

/// Granting to the user class (without `a`) gives the user every permission
/// named in the string.
pub proof fn law_grant_reaches_user(s: Seq<char>, current: u32)
    requires
        s.contains('+'),
        s.contains('u'),
        !s.contains('a'),
    ensures
        mode_after(s, current) & (perm_bits(perm_letters(s)) << 6) == perm_bits(
            perm_letters(s),
        ) << 6,
{
    let base = current & PERMISSION_MASK;
    let p = perm_bits(perm_letters(s));
    let g1 = group_bits(p, false, s.contains('g'));
    let o1 = other_bits(p, false, s.contains('o'));
    assert((base | 0u32 | (p << 6u32) | g1 | o1) & (p << 6u32) == p << 6u32) by (bit_vector);
}

/// Granting the same permissions a second time changes nothing.
pub proof fn law_grant_idempotent(s: Seq<char>, current: u32)
    requires
        s.contains('+'),
    ensures
        mode_after(s, mode_after(s, current)) == mode_after(s, current),
{
    let base = current & PERMISSION_MASK;
    let p = perm_bits(perm_letters(s));
    let a = s.contains('a');
    let a1 = all_bits(p, a);
    let u1 = user_bits(p, a, s.contains('u'));
    let g1 = group_bits(p, a, s.contains('g'));
    let o1 = other_bits(p, a, s.contains('o'));
    let m = base | a1 | u1 | g1 | o1;
    assert(((m & 0o777u32) | a1 | u1 | g1 | o1) == m) by (bit_vector)
        requires
            base == current & 0o777u32,
            m == base | a1 | u1 | g1 | o1,
    ;
}

/// Flipping the same permissions twice gives back the nine permission bits
/// the file started with, as long as the bits stay among them.
pub proof fn law_flip_twice_restores(s: Seq<char>, current: u32)
    requires
        s.contains('-'),
        !s.contains('+'),
        stays_in_permission_bits(s),
    ensures
        mode_after(s, mode_after(s, current)) == current & PERMISSION_MASK,
{
    let base = current & PERMISSION_MASK;
    let p = perm_bits(perm_letters(s));
    let a = s.contains('a');
    let u = s.contains('u');
    let g = s.contains('g');
    let o = s.contains('o');
    lemma_class_bits_small(p, a, u, g, o);
    let a1 = all_bits(p, a);
    let u1 = user_bits(p, a, u);
    let g1 = group_bits(p, a, g);
    let o1 = other_bits(p, a, o);
    let m = base ^ a1 ^ u1 ^ g1 ^ o1;
    assert(((m & 0o777u32) ^ a1 ^ u1 ^ g1 ^ o1) == base) by (bit_vector)
        requires
            base == current & 0o777u32,
            m == base ^ a1 ^ u1 ^ g1 ^ o1,
            a1 < 512u32,
            u1 < 512u32,
            g1 < 512u32,
            o1 < 512u32,
    ;
}

/// An octal mode sets the mode outright: the current mode plays no part.
pub proof fn law_octal_ignores_current(s: Seq<char>, current1: u32, current2: u32)
    requires
        !s.contains('+'),
        !s.contains('-'),
        accepted_mode(s),
    ensures
        mode_after(s, current1) == mode_after(s, current2),
        Some(mode_after(s, current1)) == octal_number(s),
{
}

/// The bits of each class stay below the tenth bit, unless `a` is combined
/// with `u` or `g`.
proof fn lemma_class_bits_small(p: u32, a: bool, u: bool, g: bool, o: bool)
    requires
        p < 8,
        !(a && (u || g)),
    ensures
        all_bits(p, a) < 512,
        user_bits(p, a, u) < 512,
        group_bits(p, a, g) < 512,
        other_bits(p, a, o) < 512,
{
    assert((p | (p << 3u32) | (p << 6u32)) < 512u32) by (bit_vector)
        requires
            p < 8u32,
    ;
    assert((p << 6u32) < 512u32 && (p << 3u32) < 512u32 && ((p << 6u32) < 512u32)) by (bit_vector)
        requires
            p < 8u32,
    ;
}

} // verus!
