use vstd::prelude::*;
use vstd::std_specs::iter::IteratorSpec;

verus! {

broadcast use vstd::string::group_string_axioms;

/// The decimal digit `d` (`0 <= d < 10`) as a character.
pub open spec fn digit_char(d: nat) -> char {
    (48 + d) as char
}

/// The decimal representation of `n`, without leading zeros.
pub open spec fn decimal(n: nat) -> Seq<char>
    decreases n,
{
    if n < 10 {
        seq![digit_char(n)]
    } else {
        decimal(n / 10).push(digit_char(n % 10))
    }
}

/// The decimal representation of `i`, with a leading `-` when it is negative.
pub open spec fn signed_decimal(i: int) -> Seq<char> {
    if i < 0 {
        seq!['-'] + decimal((-i) as nat)
    } else {
        decimal(i as nat)
    }
}

/// Whether `p` occurs in `s` as a contiguous piece.
pub open spec fn occurs_in(p: Seq<char>, s: Seq<char>) -> bool {
    exists|i: int| 0 <= i && i + p.len() <= s.len() && #[trigger] s.subrange(i, i + p.len()) == p
}

/// `s` with every occurrence of the non-empty pattern `p` replaced by `w`,
/// occurrences taken from the left without overlap.
pub open spec fn replace_all(s: Seq<char>, p: Seq<char>, w: Seq<char>) -> Seq<char>
    decreases s.len(),
{
    if p.len() == 0 || s.len() < p.len() {
        s
    } else if s.subrange(0, p.len() as int) == p {
        w + replace_all(s.subrange(p.len() as int, s.len() as int), p, w)
    } else {
        seq![s[0]] + replace_all(s.subrange(1, s.len() as int), p, w)
    }
}

/// Characters with the Unicode `White_Space` property.
pub open spec fn is_white_space(c: char) -> bool {
    let u = c as u32;
    (0x09 <= u <= 0x0D) || u == 0x20 || u == 0x85 || u == 0xA0 || u == 0x1680 || (0x2000 <= u
        <= 0x200A) || u == 0x2028 || u == 0x2029 || u == 0x202F || u == 0x205F || u == 0x3000
}

/// `s` without its leading white space.
pub open spec fn trim_start(s: Seq<char>) -> Seq<char>
    decreases s.len(),
{
    if s.len() > 0 && is_white_space(s[0]) {
        trim_start(s.subrange(1, s.len() as int))
    } else {
        s
    }
}

/// `s` without its trailing white space.
pub open spec fn trim_end(s: Seq<char>) -> Seq<char>
    decreases s.len(),
{
    if s.len() > 0 && is_white_space(s[s.len() - 1]) {
        trim_end(s.subrange(0, s.len() - 1))
    } else {
        s
    }
}

/// `s` without leading and trailing white space.
pub open spec fn trimmed(s: Seq<char>) -> Seq<char> {
    trim_end(trim_start(s))
}

/// `std`'s decimal formatting of a `u16`: its contract claims that the text is
/// the number's decimal digits.
#[verifier::external_body]
pub fn u16_text(n: u16) -> (s: String)
    ensures
        s@ == decimal(n as nat),
{
    n.to_string()
}

/// `std`'s decimal formatting of an `i32`: its contract claims that the text is
/// the number's decimal digits, after a `-` when it is negative.
#[verifier::external_body]
pub fn i32_text(n: i32) -> (s: String)
    ensures
        s@ == signed_decimal(n as int),
{
    n.to_string()
}

/// `str::replace` with a non-empty pattern: its contract claims that every
/// occurrence, found from the left without overlap, is replaced.
#[verifier::external_body]
pub fn replace_text(s: &str, from: &str, to: &str) -> (r: String)
    requires
        from@.len() > 0,
    ensures
        r@ == replace_all(s@, from@, to@),
{
    s.replace(from, to)
}

/// `str::contains` with a string pattern: its contract claims that the
/// result says whether the pattern occurs in `s`.
#[verifier::external_body]
pub fn contains_text(s: &str, pattern: &str) -> (b: bool)
    ensures
        b == occurs_in(pattern@, s@),
{
    s.contains(pattern)
}

/// `str::trim`: its contract claims that leading and trailing characters with
/// the `White_Space` property are removed.
#[verifier::external_body]
pub fn trim_text(s: &str) -> (r: &str)
    ensures
        r@ == trimmed(s@),
{
    s.trim()
}

/// The text of `s` after its first line break, or all of `s` when it has none.
pub open spec fn after_first_newline(s: Seq<char>) -> Seq<char> {
    if exists|i: int| 0 <= i < s.len() && s[i] == '\n' {
        let i = choose|i: int| 0 <= i < s.len() && s[i] == '\n' && forall|j: int| 0 <= j < i ==> s[j] != '\n';
        s.subrange(i + 1, s.len() as int)
    } else {
        s
    }
}

/// Drops the text up to and including the first line break: what is left of
/// a log read from an arbitrary position then starts with a whole line.
pub fn drop_partial_first_line(buf: &str) -> (r: String)
    ensures
        r@ == after_first_newline(buf@),
{
    let n = buf.unicode_len();
    let ghost s = buf@;
    let mut it = buf.chars();
    let mut k: usize = 0;
    loop
        invariant
            n == s.len(),
            s == buf@,
            k <= s.len(),
            it.remaining() == s.subrange(k as int, s.len() as int),
            it.obeys_prophetic_iter_laws(),
            forall|j: int| 0 <= j < k ==> s[j] != '\n',
        decreases s.len() - k,
    {
        let c = it.next();
        match c {
            None => {
                assert(k == s.len());
                return buf.to_owned();
            },
            Some(c) => {
                assert(c == s[k as int]);
                if c == '\n' {
                    assert(forall|j: int| 0 <= j < k ==> s[j] != '\n');
                    let tail = buf.substring_char(k + 1, n);
                    proof {
                        let i = choose|i: int|
                            0 <= i < s.len() && s[i] == '\n' && forall|j: int| 0 <= j < i ==> s[j] != '\n';
                        assert(0 <= k < s.len() && s[k as int] == '\n');
                        if i < k {
                            assert(s[i] != '\n');
                        }
                        if k < i {
                            assert(s[k as int] != '\n');
                        }
                    }
                    return tail.to_owned();
                }
                k = k + 1;
            },
        }
    }
}

} // verus!
