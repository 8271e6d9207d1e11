//! Dotted-quad IPv4 text: four `.`-separated decimal octets, each one to
//! three digits, no leading zero (a lone `0` is allowed), at most 255.
use vstd::prelude::*;
use crate::text::digits_value;

verus! {

/// The `.`-separated fields of `s`, left to right (an empty text is one
/// empty field).
pub open spec fn dot_fields(s: Seq<char>) -> Seq<Seq<char>>
    decreases s.len(),
{
    if s.len() == 0 {
        seq![Seq::<char>::empty()]
    } else {
        let f = dot_fields(s.drop_last());
        if s.last() == '.' {
            f.push(Seq::<char>::empty())
        } else {
            f.update(f.len() - 1, f.last().push(s.last()))
        }
    }
}

proof fn lemma_dot_fields_nonempty(s: Seq<char>)
    ensures
        dot_fields(s).len() >= 1,
    decreases s.len(),
{
    if s.len() > 0 {
        lemma_dot_fields_nonempty(s.drop_last());
    }
}

pub open spec fn is_digit(c: char) -> bool {
    '0' <= c && c <= '9'
}

/// One octet: one to three digits, no leading zero unless it is the only
/// digit, value at most 255.
pub open spec fn octet_ok(p: Seq<char>) -> bool {
    &&& 1 <= p.len() <= 3
    &&& forall|k: int| 0 <= k < p.len() ==> is_digit(#[trigger] p[k])
    &&& (p.len() == 1 || p[0] != '0')
    &&& digits_value(p) <= 255
}

/// The address's 32-bit value when `s` is dotted-quad text, else `None`.
pub open spec fn ipv4_value(s: Seq<char>) -> Option<nat> {
    let f = dot_fields(s);
    if f.len() == 4 && octet_ok(f[0]) && octet_ok(f[1]) && octet_ok(f[2]) && octet_ok(f[3]) {
        Some(
            digits_value(f[0]) * 16777216 + digits_value(f[1]) * 65536 + digits_value(f[2]) * 256
                + digits_value(f[3]),
        )
    } else {
        None
    }
}

fn octet(p: &Vec<char>) -> (r: Option<u32>)
    ensures
        r is Some <==> octet_ok(p@),
        r matches Some(v) ==> v == digits_value(p@),
{
    if p.len() < 1 || p.len() > 3 {
        return None;
    }
    if p.len() > 1 && p[0] == '0' {
        return None;
    }
    let mut v: u32 = 0;
    let mut k: usize = 0;
    while k < p.len()
        invariant
            1 <= p.len() <= 3,
            0 <= k <= p.len(),
            forall|j: int| 0 <= j < k ==> is_digit(#[trigger] p@[j]),
            v == digits_value(p@.take(k as int)),
            v < 1000,
            k == 0 ==> v == 0,
            k == 1 ==> v < 10,
            k == 2 ==> v < 100,
        decreases p.len() - k,
    {
        let c = p[k];
        if !('0' <= c && c <= '9') {
            assert(!is_digit(p@[k as int]));
            return None;
        }
        assert(p@.take(k + 1).drop_last() == p@.take(k as int));
        v = v * 10 + (c as u32 - 48);
        k = k + 1;
    }
    assert(p@.take(p.len() as int) == p@);
    if v > 255 {
        return None;
    }
    Some(v)
}

/// Reads dotted-quad text into the address's 32-bit value.
pub fn parse_ipv4(text: &str) -> (r: Option<u32>)
    ensures
        r is Some <==> ipv4_value(text@) is Some,
        r matches Some(v) ==> ipv4_value(text@) == Some(v as nat),
{
    let s = crate::text::chars_of(text);
    let mut fields: Vec<Vec<char>> = Vec::new();
    fields.push(Vec::new());
    let mut i: usize = 0;
    proof {
        assert(s@.take(0) == Seq::<char>::empty());
        assert(fields@.map_values(|f: Vec<char>| f@) == dot_fields(s@.take(0)));
    }
    while i < s.len()
        invariant
            s@ == text@,
            0 <= i <= s.len(),
            fields.len() >= 1,
            fields@.map_values(|f: Vec<char>| f@) == dot_fields(s@.take(i as int)),
        decreases s.len() - i,
    {
        let c = s[i];
        assert(s@.take(i + 1).drop_last() == s@.take(i as int));
        assert(s@.take(i + 1).last() == c);
        if c == '.' {
            fields.push(Vec::new());
        } else {
            let last = fields.len() - 1;
            let mut f = fields.pop().unwrap();
            f.push(c);
            fields.push(f);
            assert(fields@.map_values(|f: Vec<char>| f@) =~= dot_fields(s@.take(i + 1)));
        }
        i = i + 1;
    }
    assert(s@.take(s.len() as int) == s@);
    if fields.len() != 4 {
        return None;
    }
    assert(fields@[0]@ == dot_fields(text@)[0]);
    assert(fields@[1]@ == dot_fields(text@)[1]);
    assert(fields@[2]@ == dot_fields(text@)[2]);
    assert(fields@[3]@ == dot_fields(text@)[3]);
    let a = octet(&fields[0]);
    let b = octet(&fields[1]);
    let c = octet(&fields[2]);
    let d = octet(&fields[3]);
    match (a, b, c, d) {
        (Some(a), Some(b), Some(c), Some(d)) => Some(a * 16777216 + b * 65536 + c * 256 + d),
        _ => None,
    }
}

} // verus!
