//! JSON framing of the service's records.
use vstd::prelude::*;

verus! {

/// What `serde_json` writes for a string: the quoted, escaped literal.
pub uninterp spec fn json_string_of(s: Seq<char>) -> Seq<char>;

/// Relies on serde_json::to_string for a `str`: the JSON string literal
/// for `s`, which depends on the characters of `s` alone.
#[verifier::external_body]
pub(crate) fn quote(s: &str) -> (r: String)
    ensures
        r@ == json_string_of(s@),
{
    match serde_json::to_string(s) {
        Ok(t) => t,
        Err(_) => String::new(),
    }
}

/// The decimal digit for `d < 10`.
pub open spec fn digit_char(d: nat) -> char {
    (('0' as u8) + (d as u8)) as char
}

/// Decimal digits of a natural number, most significant first.
pub open spec fn digits(n: nat) -> Seq<char>
    decreases n,
{
    if n < 10 {
        seq![digit_char(n)]
    } else {
        digits(n / 10).push(digit_char(n % 10))
    }
}

/// An integer as JSON writes it: an optional minus sign, then its digits.
pub open spec fn int_text(n: int) -> Seq<char> {
    if n < 0 {
        seq!['-'] + digits((-n) as nat)
    } else {
        digits(n as nat)
    }
}

fn digit_str(d: u32) -> (r: &'static str)
    requires
        d < 10,
    ensures
        r@ == seq![digit_char(d as nat)],
{
    proof {
        reveal_strlit("0");
        reveal_strlit("1");
        reveal_strlit("2");
        reveal_strlit("3");
        reveal_strlit("4");
        reveal_strlit("5");
        reveal_strlit("6");
        reveal_strlit("7");
        reveal_strlit("8");
        reveal_strlit("9");
    }
    match d {
        0 => "0",
        1 => "1",
        2 => "2",
        3 => "3",
        4 => "4",
        5 => "5",
        6 => "6",
        7 => "7",
        8 => "8",
        _ => "9",
    }
}

fn write_digits(n: u32) -> (r: String)
    ensures
        r@ == digits(n as nat),
    decreases n,
{
    if n < 10 {
        digit_str(n).to_owned()
    } else {
        let mut s = write_digits(n / 10);
        s.append(digit_str(n % 10));
        s
    }
}

/// Renders `n` in decimal.
pub fn write_int(n: i32) -> (r: String)
    ensures
        r@ == int_text(n as int),
{
    if n < 0 {
        let m: u32 = (0 - (n as i64)) as u32;
        let mut s = "-".to_owned();
        proof {
            reveal_strlit("-");
        }
        let d = write_digits(m);
        s.append(d.as_str());
        s
    } else {
        write_digits(n as u32)
    }
}

/// Joins encoded values with commas.
pub open spec fn joined(parts: Seq<Seq<char>>) -> Seq<char>
    decreases parts.len(),
{
    if parts.len() == 0 {
        Seq::empty()
    } else if parts.len() == 1 {
        parts[0]
    } else {
        joined(parts.drop_last()) + seq![','] + parts.last()
    }
}

/// A JSON array of already-encoded values.
pub open spec fn array_of(parts: Seq<Seq<char>>) -> Seq<char> {
    seq!['['] + joined(parts) + seq![']']
}

/// Frames encoded values as a JSON array.
pub fn write_array(parts: &Vec<String>) -> (r: String)
    ensures
        r@ == array_of(parts@.map_values(|p: String| p@)),
{
    let ghost views = parts@.map_values(|p: String| p@);
    let mut s = "[".to_owned();
    proof {
        reveal_strlit("[");
        reveal_strlit(",");
        reveal_strlit("]");
    }
    let mut i: usize = 0;
    while i < parts.len()
        invariant
            i <= parts.len(),
            views == parts@.map_values(|p: String| p@),
            s@ == seq!['['] + joined(views.take(i as int)),
        decreases parts.len() - i,
    {
        let ghost before = s@;
        proof {
            reveal_strlit(",");
        }
        if i > 0 {
            s.append(",");
        }
        s.append(parts[i].as_str());
        proof {
            let t = views.take(i as int + 1);
            assert(t.drop_last() =~= views.take(i as int));
            assert(t.last() == parts@[i as int]@);
            if i == 0 {
                assert(t =~= seq![views[0]]);
                assert(views.take(0) =~= Seq::<Seq<char>>::empty());
            } else {
                let a = joined(views.take(i as int));
                assert(joined(t) == a + seq![','] + t.last());
                assert(before =~= seq!['['] + a);
                assert(s@ =~= before + seq![','] + t.last());
                assert(seq!['['] + (a + seq![','] + t.last()) =~= (seq!['['] + a) + seq![','] + t.last());
            }
            assert(s@ =~= seq!['['] + joined(t));
        }
        i = i + 1;
    }
    s.append("]");
    proof {
        assert(views.take(parts.len() as int) =~= views);
    }
    s
}

} // verus!
