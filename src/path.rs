//! Path segments and how they are joined.
//!
//! A path is the text of its segments joined by a fixed two-character
//! separator. A segment is a field name, or the decimal index of a tuple
//! element, a positional field or an array element.
use vstd::prelude::*;

verus! {

/// The separator that stands between two segments of a path: `"__"`.
pub open spec fn separator() -> Seq<char> {
    seq!['_', '_']
}

/// `prefix`, the separator, then `rest`.
pub open spec fn join(prefix: Seq<char>, rest: Seq<char>) -> Seq<char> {
    prefix + separator() + rest
}

/// The character of a decimal digit `d < 10`.
pub open spec fn digit(d: nat) -> char {
    if d == 0 {
        '0'
    } else if d == 1 {
        '1'
    } else if d == 2 {
        '2'
    } else if d == 3 {
        '3'
    } else if d == 4 {
        '4'
    } else if d == 5 {
        '5'
    } else if d == 6 {
        '6'
    } else if d == 7 {
        '7'
    } else if d == 8 {
        '8'
    } else {
        '9'
    }
}

/// The decimal text of `n`, without sign or leading zeros.
pub open spec fn decimal(n: nat) -> Seq<char>
    decreases n,
{
    if n < 10 {
        seq![digit(n)]
    } else {
        decimal(n / 10).push(digit(n % 10))
    }
}

/// Whether `p` is the path `label` or lies under it: `label` followed by
/// the separator and more.
pub open spec fn is_under(p: Seq<char>, label: Seq<char>) -> bool {
    p == label || (p.len() >= label.len() + 2 && p.take(label.len() + 2int) == label + separator())
}

/// The decimal text of a number is not empty, has at least two digits from
/// ten on, and holds no `_`.
pub proof fn decimal_is_digits(n: nat)
    ensures
        decimal(n).len() >= 1,
        n >= 10 ==> decimal(n).len() >= 2,
        forall|i: int| 0 <= i < decimal(n).len() ==> #[trigger] decimal(n)[i] != '_',
    decreases n,
{
    if n >= 10 {
        decimal_is_digits(n / 10);
        assert forall|i: int| 0 <= i < decimal(n).len() implies #[trigger] decimal(n)[i] != '_' by {
            if i < decimal(n / 10).len() {
                assert(decimal(n)[i] == decimal(n / 10)[i]);
            }
        }
    }
}

/// Distinct numbers have distinct decimal texts.
pub proof fn decimal_is_injective(a: nat, b: nat)
    requires
        decimal(a) == decimal(b),
    ensures
        a == b,
    decreases a,
{
    decimal_is_digits(a);
    decimal_is_digits(b);
    if a < 10 && b < 10 {
        assert(decimal(a)[0] == digit(a));
        assert(decimal(b)[0] == digit(b));
    } else if a >= 10 && b >= 10 {
        assert(decimal(a).drop_last() =~= decimal(a / 10));
        assert(decimal(b).drop_last() =~= decimal(b / 10));
        assert(decimal(a).last() == digit(a % 10));
        assert(decimal(b).last() == digit(b % 10));
        decimal_is_injective(a / 10, b / 10);
    }
}

/// A label, or a path under a label, that is another number's decimal text
/// does not lie under the decimal text of `j`.
pub proof fn other_index_not_under(i: nat, j: nat, rest: Seq<char>)
    requires
        i != j,
    ensures
        !is_under(decimal(i), decimal(j)),
        !is_under(join(decimal(i), rest), decimal(j)),
{
    decimal_is_digits(i);
    decimal_is_digits(j);
    let di = decimal(i);
    let dj = decimal(j);
    let lj = dj.len() as int;
    let li = di.len() as int;
    if di == dj {
        decimal_is_injective(i, j);
    }
    if is_under(di, dj) {
        assert(di.take(lj + 2)[lj] == '_');
        assert(di[lj] == '_');
    }
    let p = join(di, rest);
    assert(p[li] == '_');
    if p == dj {
        assert(dj[li] == '_');
    }
    if p.len() >= lj + 2 && p.take(lj + 2) == dj + separator() {
        if li < lj {
            assert(p.take(lj + 2)[li] == dj[li]);
        } else if li > lj {
            assert(p.take(lj + 2)[lj] == '_');
            assert(p[lj] == di[lj]);
        } else {
            assert(di =~= p.take(lj + 2).take(li));
            assert(dj =~= (dj + separator()).take(lj));
            decimal_is_injective(i, j);
        }
    }
}

/// The text of the decimal digit `d`.
fn digit_text(d: usize) -> (r: &'static str)
    requires
        d < 10,
    ensures
        r@ == seq![digit(d as nat)],
{
    if d == 0 {
        proof { reveal_strlit("0"); }
        "0"
    } else if d == 1 {
        proof { reveal_strlit("1"); }
        "1"
    } else if d == 2 {
        proof { reveal_strlit("2"); }
        "2"
    } else if d == 3 {
        proof { reveal_strlit("3"); }
        "3"
    } else if d == 4 {
        proof { reveal_strlit("4"); }
        "4"
    } else if d == 5 {
        proof { reveal_strlit("5"); }
        "5"
    } else if d == 6 {
        proof { reveal_strlit("6"); }
        "6"
    } else if d == 7 {
        proof { reveal_strlit("7"); }
        "7"
    } else if d == 8 {
        proof { reveal_strlit("8"); }
        "8"
    } else {
        proof { reveal_strlit("9"); }
        "9"
    }
}

/// The segment that names position `n`: its decimal text.
pub fn index_label(n: usize) -> (r: String)
    ensures
        r@ == decimal(n as nat),
    decreases n,
{
    if n < 10 {
        String::from_str(digit_text(n))
    } else {
        let mut s = index_label(n / 10);
        s.append(digit_text(n % 10));
        s
    }
}

/// The path made of `prefix` followed by the segments of `rest`.
pub fn join_path(prefix: &str, rest: &str) -> (r: String)
    ensures
        r@ == join(prefix@, rest@),
{
    let mut s = String::from_str(prefix);
    proof { reveal_strlit("__"); }
    s.append("__");
    s.append(rest);
    s
}

} // verus!
