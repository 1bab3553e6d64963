use vstd::prelude::*;

verus! {

broadcast use vstd::string::group_string_axioms;

/// Number of occurrences of `c` in `s`.
pub open spec fn char_count(s: Seq<char>, c: char) -> nat
    decreases s.len(),
{
    if s.len() == 0 {
        0
    } else {
        char_count(s.drop_last(), c) + if s.last() == c {
            1nat
        } else {
            0nat
        }
    }
}

/// A sequence holds no more occurrences of a character than it has elements.
pub proof fn lemma_char_count_le_len(s: Seq<char>, c: char)
    ensures
        char_count(s, c) <= s.len(),
    decreases s.len(),
{
    if s.len() > 0 {
        lemma_char_count_le_len(s.drop_last(), c);
    }
}

/// A character occurs in a sequence exactly when it is counted there at
/// least once: `find_char` and `find_nr_char` agree.
pub proof fn law_contains_iff_counted(s: Seq<char>, c: char)
    ensures
        s.contains(c) <==> char_count(s, c) > 0,
    decreases s.len(),
{
    if s.len() > 0 {
        law_contains_iff_counted(s.drop_last(), c);
        if s.drop_last().contains(c) {
            let i = choose|i: int| 0 <= i < s.drop_last().len() && s.drop_last()[i] == c;
            assert(s[i] == c);
        }
        if s.contains(c) && s.last() != c {
            let i = choose|i: int| 0 <= i < s.len() && s[i] == c;
            assert(s.drop_last()[i] == c);
        }
        if s.last() == c {
            assert(s[s.len() - 1] == c);
        }
    }
}

/// Counting over two sequences joined is counting over each and adding.
pub proof fn law_count_concatenation(a: Seq<char>, b: Seq<char>, c: char)
    ensures
        char_count(a + b, c) == char_count(a, c) + char_count(b, c),
    decreases b.len(),
{
    if b.len() == 0 {
        assert(a + b =~= a);
    } else {
        law_count_concatenation(a, b.drop_last(), c);
        assert((a + b).drop_last() =~= a + b.drop_last());
        assert((a + b).last() == b.last());
    }
}

/// A single character is counted once where it is the one searched for,
/// and not at all otherwise; with `law_count_concatenation` this fixes the
/// count of every sequence.
pub proof fn law_count_single(x: char, c: char)
    ensures
        char_count(seq![x], c) == if x == c {
            1nat
        } else {
            0nat
        },
        char_count(Seq::<char>::empty(), c) == 0,
{
    assert(seq![x].drop_last() =~= Seq::<char>::empty());
    assert(seq![x].last() == x);
    assert(char_count(Seq::<char>::empty(), c) == 0);
}

/// Counts the occurrences of `c` in `s`.
pub(crate) fn count_char(s: &str, c: char) -> (n: usize)
    ensures
        n == char_count(s@, c),
{
    let len = s.unicode_len();
    let mut n: usize = 0;
    for d in it: s.chars()
        invariant
            it.seq() == s@,
            len == s@.len(),
            n == char_count(s@.take(it.index() as int), c),
    {
        let ghost i = it.index() as int;
        assert(s@.take(i + 1).drop_last() =~= s@.take(i));
        assert(s@.take(i + 1).last() == d);
        proof {
            lemma_char_count_le_len(s@.take(i), c);
        }
        if d == c {
            n += 1;
        }
    }
    assert(s@.take(s@.len() as int) =~= s@);
    n
}

/// Searches `string` for the character `sign`.
pub fn find_char(string: &str, sign: char) -> (found: bool)
    ensures
        found == string@.contains(sign),
{
    for c in it: string.chars()
        invariant
            it.seq() == string@,
            forall|j: int| 0 <= j < it.index() ==> string@[j] != sign,
    {
        if c == sign {
            assert(string@[it.index() as int] == sign);
            return true;
        }
    }
    false
}

/// Counts the occurrences of `sign` in `string`.
///
/// The count is kept in an `i32`, so it must fit there.
pub fn find_nr_char(string: &str, sign: char) -> (nr: i32)
    requires
        char_count(string@, sign) <= i32::MAX,
    ensures
        nr == char_count(string@, sign),
{
    let mut nr: i32 = 0;
    for c in it: string.chars()
        invariant
            it.seq() == string@,
            char_count(string@, sign) <= i32::MAX,
            nr == char_count(string@.take(it.index() as int), sign),
    {
        let ghost i = it.index() as int;
        assert(string@.take(i + 1).drop_last() =~= string@.take(i));
        assert(string@.take(i + 1).last() == c);
        proof {
            lemma_char_count_prefix_le(string@, sign, i + 1);
        }
        if c == sign {
            nr += 1;
        }
    }
    assert(string@.take(string@.len() as int) =~= string@);
    nr
}

/// Counting over a prefix never exceeds counting over the whole sequence.
proof fn lemma_char_count_prefix_le(s: Seq<char>, c: char, k: int)
    requires
        0 <= k <= s.len(),
    ensures
        char_count(s.take(k), c) <= char_count(s, c),
    decreases s.len() - k,
{
    if k < s.len() {
        lemma_char_count_prefix_le(s, c, k + 1);
        assert(s.take(k + 1).drop_last() =~= s.take(k));
    } else {
        assert(s.take(k) =~= s);
    }
}

/// Compares two strings character by character.
pub fn str_eq(a: &str, b: &str) -> (same: bool)
    ensures
        same == (a@ == b@),
{
    let n = a.unicode_len();
    if n != b.unicode_len() {
        return false;
    }
    let mut i: usize = 0;
    while i < n
        invariant
            n == a@.len(),
            n == b@.len(),
            i <= n,
            forall|j: int| 0 <= j < i ==> a@[j] == b@[j],
        decreases n - i,
    {
        if a.get_char(i) != b.get_char(i) {
            return false;
        }
        i += 1;
    }
    assert(a@ =~= b@);
    true
}

/// Whether `c` separates the classes from the permissions in a mode string.
pub open spec fn is_sign(c: char) -> bool {
    c == '-' || c == '+'
}

/// `k` is the position of the first `-` or `+` in `s`.
pub open spec fn is_first_sign(s: Seq<char>, k: int) -> bool {
    &&& 0 <= k < s.len()
    &&& is_sign(s[k])
    &&& forall|j: int| 0 <= j < k ==> !is_sign(s[j])
}

/// What follows the first `-` or `+` of `s`, or all of `s` where it has neither.
pub open spec fn perm_letters(s: Seq<char>) -> Seq<char> {
    if exists|k: int| is_first_sign(s, k) {
        let k = choose|k: int| is_first_sign(s, k);
        s.skip(k + 1)
    } else {
        s
    }
}

/// Separates the permission letters from the rest of a mode string such as
/// `u+rw`: returns what follows the first `-` or `+`, or the whole string.
pub fn find_perms(string: &String) -> (perms: &str)
    ensures
        perms@ == perm_letters(string@),
{
    let s = string.as_str();
    let n = s.unicode_len();
    let mut i: usize = 0;
    while i < n
        invariant
            s@ == string@,
            n == s@.len(),
            i <= n,
            forall|j: int| 0 <= j < i ==> !is_sign(s@[j]),
        decreases n - i,
    {
        let c = s.get_char(i);
        if c == '-' || c == '+' {
            assert(is_first_sign(s@, i as int));
            proof {
                let k = choose|k: int| is_first_sign(s@, k);
                assert(k == i as int);
            }
            return s.substring_char(i + 1, n);
        }
        i += 1;
    }
    assert(!exists|k: int| is_first_sign(s@, k));
    s
}

/// The permission bits (read 4, write 2, execute 1) that a permission string
/// such as `rw` stands for; 0 for a string that is not one of the seven
/// accepted forms.
pub open spec fn perm_bits(s: Seq<char>) -> u32 {
    if s == "x"@ {
        1
    } else if s == "w"@ {
        2
    } else if s == "wx"@ {
        3
    } else if s == "r"@ {
        4
    } else if s == "rx"@ {
        5
    } else if s == "rw"@ {
        6
    } else if s == "rwx"@ {
        7
    } else {
        0
    }
}

/// Returns the permission bits that a permission string such as `rw` stands for.
pub fn get_perm_number(string: &str) -> (perm_number: u32)
    ensures
        perm_number == perm_bits(string@),
        perm_number < 8,
{
    if str_eq(string, "x") {
        0b001
    } else if str_eq(string, "w") {
        0b010
    } else if str_eq(string, "wx") {
        0b011
    } else if str_eq(string, "r") {
        0b100
    } else if str_eq(string, "rx") {
        0b101
    } else if str_eq(string, "rw") {
        0b110
    } else if str_eq(string, "rwx") {
        0b111
    } else {
        0b000
    }
}

/// The letters standing before the first `-` or `+` hold neither.
pub open spec fn no_sign(s: Seq<char>) -> bool {
    forall|j: int| 0 <= j < s.len() ==> !is_sign(#[trigger] s[j])
}

/// In a mode string made of class letters, one sign and permission letters,
/// the permission letters are what follows the sign.
pub proof fn law_perm_letters_follow_sign(classes: Seq<char>, sign: char, letters: Seq<char>)
    requires
        no_sign(classes),
        is_sign(sign),
    ensures
        perm_letters(classes + seq![sign] + letters) == letters,
{
    let s = classes + seq![sign] + letters;
    let k = classes.len() as int;
    assert(is_first_sign(s, k));
    let c = choose|c: int| is_first_sign(s, c);
    assert(c == k) by {
        if c < k {
            assert(s[c] == classes[c]);
        } else if c > k {
            assert(!is_sign(s[k]));
        }
    }
    assert(s.skip(k + 1) =~= letters);
}

/// The seven permission strings, each letter in its place: `r` before `w`
/// before `x`.
pub open spec fn is_perm_string(s: Seq<char>) -> bool {
    s == "x"@ || s == "w"@ || s == "wx"@ || s == "r"@ || s == "rx"@ || s == "rw"@ || s == "rwx"@
}

/// The bits of a permission string are the sum of its letters: read 4,
/// write 2, execute 1.
pub proof fn law_perm_bits_by_letter(s: Seq<char>)
    requires
        is_perm_string(s),
    ensures
        perm_bits(s) == (if s.contains('r') {
            4u32
        } else {
            0u32
        }) + (if s.contains('w') {
            2u32
        } else {
            0u32
        }) + (if s.contains('x') {
            1u32
        } else {
            0u32
        }),
{
    reveal_strlit("x");
    reveal_strlit("w");
    reveal_strlit("wx");
    reveal_strlit("r");
    reveal_strlit("rx");
    reveal_strlit("rw");
    reveal_strlit("rwx");
    if s == "x"@ {
        assert(s[0] == 'x');
    } else if s == "w"@ {
        assert(s[0] == 'w');
    } else if s == "wx"@ {
        assert(s[0] == 'w' && s[1] == 'x');
    } else if s == "r"@ {
        assert(s[0] == 'r');
    } else if s == "rx"@ {
        assert(s[0] == 'r' && s[1] == 'x');
    } else if s == "rw"@ {
        assert(s[0] == 'r' && s[1] == 'w');
    } else {
        assert(s[0] == 'r' && s[1] == 'w' && s[2] == 'x');
    }
}

} // verus!
