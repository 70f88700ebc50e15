use vstd::prelude::*;

verus! {

/// The lowercase hexadecimal digit for `d` (taken modulo 16).
pub open spec fn hex_char(d: nat) -> char {
    let d = d % 16;
    if d == 0 { '0' } else if d == 1 { '1' } else if d == 2 { '2' } else if d == 3 { '3' }
    else if d == 4 { '4' } else if d == 5 { '5' } else if d == 6 { '6' } else if d == 7 { '7' }
    else if d == 8 { '8' } else if d == 9 { '9' } else if d == 10 { 'a' } else if d == 11 { 'b' }
    else if d == 12 { 'c' } else if d == 13 { 'd' } else if d == 14 { 'e' } else { 'f' }
}

/// The last `width` hexadecimal digits of `n`, most significant first, zero padded.
pub open spec fn hex_digits(n: nat, width: nat) -> Seq<char>
    decreases width,
{
    if width == 0 {
        Seq::empty()
    } else {
        hex_digits(n / 16, (width - 1) as nat).push(hex_char(n % 16))
    }
}

/// `n` as a 16-digit zero-padded lowercase hexadecimal string.
pub open spec fn hex16_spec(n: nat) -> Seq<char> {
    hex_digits(n, 16)
}

/// `s` with every hyphen and underscore removed.
pub open spec fn strip_separators(s: Seq<char>) -> Seq<char>
    decreases s.len(),
{
    if s.len() == 0 {
        s
    } else {
        let rest = strip_separators(s.drop_last());
        if s.last() == '-' || s.last() == '_' {
            rest
        } else {
            rest.push(s.last())
        }
    }
}

fn hex_digit_str(d: u64) -> (r: &'static str)
    requires
        d < 16,
    ensures
        r@ == seq![hex_char(d as nat)],
{
    let digits = "0123456789abcdef";
    proof {
        reveal_strlit("0123456789abcdef");
    }
    let r = digits.substring_char(d as usize, d as usize + 1);
    assert(r@ =~= seq![digits@[d as int]]);
    r
}

/// Formats `n` as exactly sixteen lowercase hexadecimal digits.
pub fn hex16(n: u64) -> (r: String)
    ensures
        r@ == hex16_spec(n as nat),
{
    let mut acc = String::new();
    let mut m: u64 = n;
    let mut i: u64 = 0;
    while i < 16
        invariant
            i <= 16,
            hex_digits(n as nat, 16) == hex_digits(m as nat, (16 - i) as nat) + acc@,
        decreases 16 - i,
    {
        let d = hex_digit_str(m % 16);
        proof {
            let w = (16 - i - 1) as nat;
            assert(hex_digits(m as nat, (w + 1) as nat) == hex_digits((m / 16) as nat, w).push(
                hex_char((m % 16) as nat),
            ));
            assert(hex_digits((m / 16) as nat, w).push(hex_char((m % 16) as nat)) + acc@
                =~= hex_digits((m / 16) as nat, w) + (d@ + acc@));
        }
        acc = String::from_str(d).concat(acc.as_str());
        m = m / 16;
        i = i + 1;
    }
    assert(acc@ =~= hex_digits(m as nat, 0) + acc@);
    acc
}

/// Derives a trace identifier from a correlation id by removing every `-` and `_`.
pub fn normalize_trace_id(id: &str) -> (r: String)
    ensures
        r@ == strip_separators(id@),
{
    let n = id.unicode_len();
    let mut out = String::new();
    let mut i: usize = 0;
    while i < n
        invariant
            n == id@.len(),
            i <= n,
            out@ == strip_separators(id@.subrange(0, i as int)),
        decreases n - i,
    {
        let c = id.get_char(i);
        assert(id@.subrange(0, i as int + 1).drop_last() =~= id@.subrange(0, i as int));
        if c != '-' && c != '_' {
            let piece = id.substring_char(i, i + 1);
            assert(piece@ =~= seq![c]);
            out.append(piece);
            assert(out@ =~= strip_separators(id@.subrange(0, i as int + 1)));
        }
        i = i + 1;
    }
    assert(id@.subrange(0, n as int) =~= id@);
    out
}

} // verus!
