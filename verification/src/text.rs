use vstd::prelude::*;

verus! {

/// The text of an optional string.
pub open spec fn opt_text(value: Option<String>) -> Option<Seq<char>> {
    match value {
        Some(text) => Some(text@),
        None => None,
    }
}

/// The texts of a list of strings.
pub open spec fn texts(values: Seq<String>) -> Seq<Seq<char>> {
    values.map_values(|value: String| value@)
}

/// The texts of an optional list of strings.
pub open spec fn opt_texts(values: Option<Vec<String>>) -> Option<Seq<Seq<char>>> {
    match values {
        Some(list) => Some(texts(list@)),
        None => None,
    }
}

/// Compares two strings by their text.
pub fn same_text(left: &String, right: &String) -> (r: bool)
    ensures
        r == (left@ == right@),
{
    *left == *right
}

/// Compares two optional strings by their text.
pub fn same_opt_text(left: &Option<String>, right: &Option<String>) -> (r: bool)
    ensures
        r == (opt_text(*left) == opt_text(*right)),
{
    match (left, right) {
        (Some(a), Some(b)) => *a == *b,
        (None, None) => true,
        _ => false,
    }
}

/// Copies an optional string.
pub fn clone_opt_text(value: &Option<String>) -> (r: Option<String>)
    ensures
        r == *value,
{
    match value {
        Some(text) => Some(text.clone()),
        None => None,
    }
}

/// Copies a list of strings.
pub fn clone_texts(values: &Vec<String>) -> (r: Vec<String>)
    ensures
        r@ == values@,
{
    let mut out: Vec<String> = Vec::new();
    let mut i: usize = 0;
    while i < values.len()
        invariant
            i <= values.len(),
            out@ == values@.take(i as int),
        decreases values.len() - i,
    {
        out.push(values[i].clone());
        proof {
            assert(values@.take(i + 1) =~= values@.take(i as int).push(values@[i as int]));
        }
        i = i + 1;
    }
    proof {
        assert(values@.take(values.len() as int) =~= values@);
    }
    out
}

/// Copies an optional list of strings.
pub fn clone_opt_texts(values: &Option<Vec<String>>) -> (r: Option<Vec<String>>)
    ensures
        opt_texts(r) == opt_texts(*values),
{
    match values {
        Some(list) => {
            let copy = clone_texts(list);
            Some(copy)
        },
        None => None,
    }
}

/// Whether `value` occurs in `values`, by text.
pub fn contains_text(values: &Vec<String>, value: &String) -> (r: bool)
    ensures
        r == texts(values@).contains(value@),
{
    let mut i: usize = 0;
    while i < values.len()
        invariant
            i <= values.len(),
            forall|j: int| 0 <= j < i ==> values@[j]@ != value@,
        decreases values.len() - i,
    {
        if values[i] == *value {
            proof {
                assert(texts(values@)[i as int] == value@);
            }
            return true;
        }
        i = i + 1;
    }
    proof {
        if texts(values@).contains(value@) {
            let k = choose|k: int| 0 <= k < texts(values@).len() && texts(values@)[k] == value@;
            assert(values@[k]@ == value@);
        }
    }
    false
}

/// The decimal digits of a natural number, most significant first.
pub open spec fn decimal(n: nat) -> Seq<char>
    decreases n,
{
    if n < 10 {
        seq![digit_char(n)]
    } else {
        decimal(n / 10) + seq![digit_char(n % 10)]
    }
}

/// The character of one decimal digit.
pub open spec fn digit_char(d: nat) -> char {
    if d == 0 {
        '0'
    } else if d == 1 {
        '1'
    } else if d == 2 {
        '2'
    } else if d == 3 {
        '3'
    } else if d == 4 {
        '4'
    } else if d == 5 {
        '5'
    } else if d == 6 {
        '6'
    } else if d == 7 {
        '7'
    } else if d == 8 {
        '8'
    } else {
        '9'
    }
}

/// The one-character string of a decimal digit.
fn digit_str(d: u64) -> (r: &'static str)
    requires
        d < 10,
    ensures
        r@ == seq![digit_char(d as nat)],
{
    proof {
        reveal_strlit("0");
        reveal_strlit("1");
        reveal_strlit("2");
        reveal_strlit("3");
        reveal_strlit("4");
        reveal_strlit("5");
        reveal_strlit("6");
        reveal_strlit("7");
        reveal_strlit("8");
        reveal_strlit("9");
    }
    if d == 0 {
        "0"
    } else if d == 1 {
        "1"
    } else if d == 2 {
        "2"
    } else if d == 3 {
        "3"
    } else if d == 4 {
        "4"
    } else if d == 5 {
        "5"
    } else if d == 6 {
        "6"
    } else if d == 7 {
        "7"
    } else if d == 8 {
        "8"
    } else {
        "9"
    }
}

/// Appends the decimal rendering of `n` to `out`.
pub fn push_decimal(out: &mut String, n: u64)
    ensures
        final(out)@ == old(out)@ + decimal(n as nat),
    decreases n,
{
    if n < 10 {
        out.append(digit_str(n));
    } else {
        push_decimal(out, n / 10);
        out.append(digit_str(n % 10));
        proof {
            assert(decimal(n as nat) == decimal((n / 10) as nat) + seq![digit_char((n % 10) as nat)]);
        }
    }
}

/// The decimal rendering of `n`.
pub fn decimal_string(n: u64) -> (r: String)
    ensures
        r@ == decimal(n as nat),
{
    let mut out = String::new();
    push_decimal(&mut out, n);
    proof {
        assert(out@ =~= Seq::<char>::empty() + decimal(n as nat));
    }
    out
}

/// Whether `a` comes no later than `b` in the byte-wise lexicographic order
/// by which `str` values compare.
pub open spec fn bytes_le(a: Seq<u8>, b: Seq<u8>) -> bool
    decreases a.len(),
{
    if a.len() == 0 {
        true
    } else if b.len() == 0 {
        false
    } else if a[0] != b[0] {
        a[0] < b[0]
    } else {
        bytes_le(a.drop_first(), b.drop_first())
    }
}

/// Any two byte strings compare one way or the other.
pub proof fn lemma_bytes_le_total(a: Seq<u8>, b: Seq<u8>)
    ensures
        bytes_le(a, b) || bytes_le(b, a),
    decreases a.len(),
{
    if a.len() > 0 && b.len() > 0 && a[0] == b[0] {
        lemma_bytes_le_total(a.drop_first(), b.drop_first());
    }
}

/// The byte-wise order is transitive.
pub proof fn lemma_bytes_le_transitive(a: Seq<u8>, b: Seq<u8>, c: Seq<u8>)
    requires
        bytes_le(a, b),
        bytes_le(b, c),
    ensures
        bytes_le(a, c),
    decreases a.len(),
{
    if a.len() > 0 && b.len() > 0 && c.len() > 0 && a[0] == b[0] && b[0] == c[0] {
        lemma_bytes_le_transitive(a.drop_first(), b.drop_first(), c.drop_first());
    }
}

/// Byte strings that compare both ways are equal.
pub proof fn lemma_bytes_le_antisymmetric(a: Seq<u8>, b: Seq<u8>)
    requires
        bytes_le(a, b),
        bytes_le(b, a),
    ensures
        a == b,
    decreases a.len(),
{
    if a.len() > 0 && b.len() > 0 {
        lemma_bytes_le_antisymmetric(a.drop_first(), b.drop_first());
        assert(a =~= seq![a[0]] + a.drop_first());
        assert(b =~= seq![b[0]] + b.drop_first());
    } else {
        assert(a =~= b);
    }
}

/// Whether the text `a` comes no later than the text `b` in the order by
/// which `str` values compare.
pub fn text_le(a: &str, b: &str) -> (r: bool)
    ensures
        r == bytes_le(vstd::utf8::encode_utf8(a@), vstd::utf8::encode_utf8(b@)),
{
    let left = a.as_bytes();
    let right = b.as_bytes();
    let ghost whole_left = left@;
    let ghost whole_right = right@;
    let mut i: usize = 0;
    proof {
        assert(whole_left.skip(0) =~= whole_left);
        assert(whole_right.skip(0) =~= whole_right);
    }
    while i < left.len() && i < right.len()
        invariant
            left@ == whole_left,
            right@ == whole_right,
            whole_left == vstd::utf8::encode_utf8(a@),
            whole_right == vstd::utf8::encode_utf8(b@),
            i <= left.len(),
            i <= right.len(),
            bytes_le(whole_left, whole_right) == bytes_le(
                whole_left.skip(i as int),
                whole_right.skip(i as int),
            ),
        decreases left.len() - i,
    {
        if left[i] != right[i] {
            proof {
                assert(whole_left.skip(i as int)[0] == whole_left[i as int]);
                assert(whole_right.skip(i as int)[0] == whole_right[i as int]);
            }
            return left[i] < right[i];
        }
        proof {
            assert(whole_left.skip(i as int).drop_first() =~= whole_left.skip(i + 1));
            assert(whole_right.skip(i as int).drop_first() =~= whole_right.skip(i + 1));
        }
        i = i + 1;
    }
    i == left.len()
}

} // verus!
