//! Small text helpers shared by the caches.
use vstd::prelude::*;
use vstd::string::*;

verus! {

/// Whether two string slices hold the same characters.
pub(crate) fn same_text(a: &str, b: &str) -> (r: bool)
    ensures
        r == (a@ == b@),
{
    let n = a.unicode_len();
    if n != b.unicode_len() {
        return false;
    }
    let mut i: usize = 0;
    while i < n
        invariant
            n == a@.len(),
            n == b@.len(),
            i <= n,
            forall|j: int| 0 <= j < i ==> a@[j] == b@[j],
        decreases n - i,
    {
        if a.get_char(i) != b.get_char(i) {
            return false;
        }
        i = i + 1;
    }
    assert(a@ =~= b@);
    true
}

/// The decimal digit for a value below ten.
pub open spec fn digit_char(d: nat) -> char {
    if d == 0 { '0' }
    else if d == 1 { '1' }
    else if d == 2 { '2' }
    else if d == 3 { '3' }
    else if d == 4 { '4' }
    else if d == 5 { '5' }
    else if d == 6 { '6' }
    else if d == 7 { '7' }
    else if d == 8 { '8' }
    else { '9' }
}

/// The decimal form of a natural number, without sign or leading zeros.
pub open spec fn decimal(n: nat) -> Seq<char>
    decreases n,
{
    if n < 10 {
        seq![digit_char(n)]
    } else {
        decimal(n / 10).push(digit_char(n % 10))
    }
}

/// Relies on `u64`'s `to_string` (its `Display`): the decimal form of the value.
#[verifier::external_body]
pub(crate) fn decimal_string(n: u64) -> (r: String)
    ensures
        r@ == decimal(n as nat),
{
    n.to_string()
}

/// Distinct digits are distinct characters.
proof fn lemma_digit_char_injective(a: nat, b: nat)
    requires
        a < 10,
        b < 10,
        digit_char(a) == digit_char(b),
    ensures
        a == b,
{
}

/// The decimal form has at least one digit, and two digits or more from ten on.
proof fn lemma_decimal_len(n: nat)
    ensures
        decimal(n).len() >= 1,
        n >= 10 ==> decimal(n).len() >= 2,
    decreases n,
{
    if n >= 10 {
        lemma_decimal_len(n / 10);
    }
}

/// Distinct numbers have distinct decimal forms.
pub proof fn lemma_decimal_injective(a: nat, b: nat)
    requires
        decimal(a) == decimal(b),
    ensures
        a == b,
    decreases a,
{
    lemma_decimal_len(a);
    lemma_decimal_len(b);
    if a < 10 && b < 10 {
        assert(decimal(a) == seq![digit_char(a)]);
        assert(decimal(b) == seq![digit_char(b)]);
        assert(seq![digit_char(a)][0] == digit_char(a));
        assert(seq![digit_char(b)][0] == digit_char(b));
        lemma_digit_char_injective(a, b);
    } else if a >= 10 && b >= 10 {
        let da = decimal(a);
        let db = decimal(b);
        assert(da.last() == db.last());
        lemma_digit_char_injective(a % 10, b % 10);
        assert(da.drop_last() == decimal(a / 10));
        assert(db.drop_last() == decimal(b / 10));
        lemma_decimal_injective(a / 10, b / 10);
    } else {
        assert(decimal(a).len() != decimal(b).len());
    }
}

/// The name starts at the root: it begins with `/`.
pub open spec fn is_absolute(name: Seq<char>) -> bool {
    name.len() > 0 && name[0] == '/'
}

/// `name` joined onto the directory `base`, as `Path::join` does on Unix: an
/// absolute name replaces `base`; otherwise one `/` separates them.
pub open spec fn joined(base: Seq<char>, name: Seq<char>) -> Seq<char> {
    if is_absolute(name) {
        name
    } else if base.len() == 0 {
        name
    } else if base.last() == '/' {
        base + name
    } else {
        base + seq!['/'] + name
    }
}

/// Joins `name` onto the directory `base`.
pub fn join_path(base: &String, name: &String) -> (r: String)
    ensures
        r@ == joined(base@, name@),
{
    let m = name.as_str().unicode_len();
    if m > 0 && name.as_str().get_char(0) == '/' {
        return name.clone();
    }
    let n = base.as_str().unicode_len();
    if n == 0 {
        name.clone()
    } else {
        let last = base.as_str().get_char(n - 1);
        let mut r = base.clone();
        if last != '/' {
            r.append("/");
        }
        r.append(name.as_str());
        proof {
            reveal_strlit("/");
        }
        r
    }
}

/// Under one directory, distinct relative names give distinct paths.
pub proof fn lemma_joined_injective(base: Seq<char>, a: Seq<char>, b: Seq<char>)
    requires
        !is_absolute(a),
        !is_absolute(b),
        joined(base, a) == joined(base, b),
    ensures
        a == b,
{
    if base.len() == 0 {
    } else if base.last() == '/' {
        assert(a =~= joined(base, a).subrange(base.len() as int, joined(base, a).len() as int));
        assert(b =~= joined(base, b).subrange(base.len() as int, joined(base, b).len() as int));
    } else {
        let k = base.len() + 1;
        assert(a =~= joined(base, a).subrange(k as int, joined(base, a).len() as int));
        assert(b =~= joined(base, b).subrange(k as int, joined(base, b).len() as int));
    }
}

/// A decimal form starts with a digit, so it is a relative name.
pub proof fn lemma_decimal_relative(n: nat)
    ensures
        !is_absolute(decimal(n)),
    decreases n,
{
    lemma_decimal_len(n);
    if n < 10 {
        assert(decimal(n) == seq![digit_char(n)]);
        assert(seq![digit_char(n)][0] == digit_char(n));
    } else {
        lemma_decimal_len(n / 10);
        lemma_decimal_relative(n / 10);
        assert(decimal(n)[0] == decimal(n / 10)[0]);
    }
}

} // verus!
