use vstd::prelude::*;
use crate::text::{chars_of, string_of};

verus! {

/// The decimal digit character for `d`.
pub open spec fn digit_char(d: nat) -> char {
    if d == 0 {
        '0'
    } else if d == 1 {
        '1'
    } else if d == 2 {
        '2'
    } else if d == 3 {
        '3'
    } else if d == 4 {
        '4'
    } else if d == 5 {
        '5'
    } else if d == 6 {
        '6'
    } else if d == 7 {
        '7'
    } else if d == 8 {
        '8'
    } else {
        '9'
    }
}

/// The decimal digits of `n`, most significant first, without leading zeros.
pub open spec fn digits_of(n: nat) -> Seq<char>
    decreases n,
{
    if n < 10 {
        seq![digit_char(n)]
    } else {
        digits_of(n / 10).push(digit_char(n % 10))
    }
}

/// Digits with a comma before each group of three counted from the right.
pub open spec fn grouped(d: Seq<char>) -> Seq<char>
    decreases d.len(),
{
    if d.len() <= 3 {
        d
    } else {
        grouped(d.subrange(0, d.len() - 3)) + seq![','] + d.subrange(d.len() - 3, d.len() as int)
    }
}

fn digit(d: usize) -> (c: char)
    requires
        d < 10,
    ensures
        c == digit_char(d as nat),
{
    match d {
        0 => '0',
        1 => '1',
        2 => '2',
        3 => '3',
        4 => '4',
        5 => '5',
        6 => '6',
        7 => '7',
        8 => '8',
        _ => '9',
    }
}

fn digits(n: usize) -> (r: Vec<char>)
    ensures
        r@ == digits_of(n as nat),
    decreases n,
{
    if n < 10 {
        let mut v: Vec<char> = Vec::new();
        v.push(digit(n));
        assert(v@ =~= seq![digit_char(n as nat)]);
        v
    } else {
        let mut v = digits(n / 10);
        v.push(digit(n % 10));
        v
    }
}

/// The first `end` characters of `d`, grouped.
fn group(d: &Vec<char>, end: usize) -> (r: Vec<char>)
    requires
        end <= d@.len(),
    ensures
        r@ == grouped(d@.subrange(0, end as int)),
    decreases end,
{
    let ghost s = d@.subrange(0, end as int);
    if end <= 3 {
        let mut v: Vec<char> = Vec::new();
        let mut i: usize = 0;
        while i < end
            invariant
                i <= end <= d@.len(),
                v@ == d@.subrange(0, i as int),
            decreases end - i,
        {
            v.push(d[i]);
            i = i + 1;
        }
        v
    } else {
        let mut v = group(d, end - 3);
        assert(s.subrange(0, s.len() - 3) =~= d@.subrange(0, end - 3));
        let ghost head = v@;
        v.push(',');
        v.push(d[end - 3]);
        v.push(d[end - 2]);
        v.push(d[end - 1]);
        assert(v@ =~= head + seq![','] + s.subrange(s.len() - 3, s.len() as int));
        v
    }
}

/// `n` in decimal with commas between groups of three digits (`1234567`
/// gives `1,234,567`).
pub fn fmt_num(n: usize) -> (r: String)
    ensures
        r@ == grouped(digits_of(n as nat)),
{
    let d = digits(n);
    let g = group(&d, d.len());
    assert(d@.subrange(0, d@.len() as int) =~= d@);
    string_of(&g)
}

/// The drive letters, in order.
pub open spec fn drive_letters() -> Seq<char> {
    "ABCDEFGHIJKLMNOPQRSTUVWXYZ"@
}

/// The root of the drive with letter `c`.
pub open spec fn drive_root(c: char) -> Seq<char> {
    seq![c, ':', '\\']
}

/// The roots of the drives whose flag is set, from index `i` on, in letter order.
pub open spec fn drives_from(present: Seq<bool>, i: int) -> Seq<Seq<char>>
    decreases 26 - i,
{
    if i < 0 || i >= 26 {
        Seq::empty()
    } else if i < present.len() && present[i] {
        seq![drive_root(drive_letters()[i])] + drives_from(present, i + 1)
    } else {
        drives_from(present, i + 1)
    }
}

/// The roots `A:\\` to `Z:\\` whose existence flag is set: `present[i]` tells
/// whether the drive with the `i`-th letter exists.
pub fn get_all_drives(present: &Vec<bool>) -> (r: Vec<String>)
    ensures
        r@.map_values(|s: String| s@) == drives_from(present@, 0),
{
    let letters_str = "ABCDEFGHIJKLMNOPQRSTUVWXYZ";
    proof {
        reveal_strlit("ABCDEFGHIJKLMNOPQRSTUVWXYZ");
    }
    let letters = chars_of(letters_str);
    assert(letters@.len() == 26);
    let mut out: Vec<String> = Vec::new();
    let mut i: usize = 0;
    while i < 26
        invariant
            letters@ == drive_letters(),
            letters@.len() == 26,
            i <= 26,
            out@.map_values(|s: String| s@) + drives_from(present@, i as int) == drives_from(
                present@,
                0,
            ),
        decreases 26 - i,
    {
        if i < present.len() && present[i] {
            let mut root: Vec<char> = Vec::new();
            root.push(letters[i]);
            root.push(':');
            root.push('\\');
            assert(root@ =~= drive_root(letters@[i as int]));
            let s = string_of(&root);
            let ghost before = out@.map_values(|s: String| s@);
            out.push(s);
            assert(out@.map_values(|s: String| s@) =~= before.push(drive_root(letters@[i as int])));
            assert(before + drives_from(present@, i as int) =~= out@.map_values(|s: String| s@)
                + drives_from(present@, i + 1));
        }
        i = i + 1;
    }
    assert(out@.map_values(|s: String| s@) + drives_from(present@, 26) =~= out@.map_values(
        |s: String| s@,
    ));
    out
}

} // verus!
