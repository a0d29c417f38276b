//! Prices of issues, kept as a whole number of öre.
use crate::text::{chars_of, int_chars, parse_int, parse_int_spec, push_int};
use vstd::prelude::*;

verus! {

/// A price in Swedish crowns, as a number of öre (hundredths of a crown).
#[derive(Debug, PartialEq, Eq, Structural)]
pub struct Price {
    price: i32,
}

/// The error for a text that is not a price.
#[derive(Debug, PartialEq, Eq, Structural)]
pub struct BadPrice;

/// Whole crowns of `p` öre, rounded towards zero (as `/` on `i32`).
pub open spec fn crowns(p: int) -> int {
    if p >= 0 {
        p / 100
    } else {
        -((-p) / 100)
    }
}

/// The öre left over after `crowns(p)`, with the sign of `p` (as `%`).
pub open spec fn ore_part(p: int) -> int {
    p - crowns(p) * 100
}

/// An integer written with at least two digits (as `{:02}` writes it).
pub open spec fn two_digits(v: int) -> Seq<char> {
    if 0 <= v < 10 {
        seq!['0'] + int_chars(v)
    } else {
        int_chars(v)
    }
}

/// How a price is shown: `N öre` below one crown, `K:-` for whole
/// crowns, and `K:OO` otherwise.
pub open spec fn price_text(p: int) -> Seq<char> {
    let kr = crowns(p);
    let ore = ore_part(p);
    if kr == 0 {
        int_chars(ore) + " öre"@
    } else if ore == 0 {
        int_chars(kr) + ":-"@
    } else {
        int_chars(kr) + ":"@ + two_digits(ore)
    }
}

/// The position of the first `c` in `s`.
pub open spec fn index_of_char(s: Seq<char>, c: char) -> Option<int>
    decreases s.len(),
{
    if s.len() == 0 {
        None
    } else if s[0] == c {
        Some(0)
    } else {
        match index_of_char(s.skip(1), c) {
            Some(i) => Some(i + 1),
            None => None,
        }
    }
}

pub open spec fn fits_i32(v: int) -> bool {
    i32::MIN <= v <= i32::MAX
}

/// The öre before the decimal point: none at all, or an `i32` times 100.
pub open spec fn crowns_value(sek: Seq<char>) -> Option<int> {
    if sek.len() == 0 {
        Some(0)
    } else {
        match parse_int_spec(sek, i32::MIN as int, i32::MAX as int) {
            Some(v) => if fits_i32(v * 100) {
                Some(v * 100)
            } else {
                None
            },
            None => None,
        }
    }
}

/// The öre after the decimal point: nothing, or exactly two characters
/// that read as an `i32`.
pub open spec fn ore_value(dec: Seq<char>) -> Option<int> {
    if dec.len() == 0 {
        Some(0)
    } else if dec.len() == 2 {
        parse_int_spec(dec, i32::MIN as int, i32::MAX as int)
    } else {
        None
    }
}

/// The number of öre that a text denotes, split at its first `.`
/// into crowns and öre; `None` where `Price::parse` refuses the text.
pub open spec fn price_value(s: Seq<char>) -> Option<int> {
    let (sek, dec) = match index_of_char(s, '.') {
        Some(i) => (s.take(i), s.skip(i + 1)),
        None => (s, Seq::empty()),
    };
    match (crowns_value(sek), ore_value(dec)) {
        (Some(a), Some(b)) => if fits_i32(a + b) {
            Some(a + b)
        } else {
            None
        },
        _ => None,
    }
}

proof fn lemma_index_of_char(s: Seq<char>, c: char, i: int)
    requires
        0 <= i <= s.len(),
        forall|j: int| 0 <= j < i ==> s[j] != c,
    ensures
        i < s.len() && s[i] == c ==> index_of_char(s, c) == Some(i),
        i == s.len() ==> index_of_char(s, c) is None,
    decreases i,
{
    if i > 0 {
        lemma_index_of_char(s.skip(1), c, i - 1);
    } else if s.len() > 0 && s[0] != c {
        assert(i == s.len() ==> false);
    }
}

impl View for Price {
    type V = int;

    closed spec fn view(&self) -> int {
        self.price as int
    }
}

impl Price {
    /// A price of `ore` öre.
    pub fn from_ore(ore: i32) -> (p: Price)
        ensures
            p@ == ore,
    {
        Price { price: ore }
    }

    /// The price in öre.
    pub fn ore(&self) -> (o: i32)
        ensures
            o == self@,
    {
        self.price
    }

    /// Read a price such as `7.50`, `7` or `.50` (crowns, and optionally
    /// a point and exactly two digits of öre).
    pub fn parse(input: &str) -> (r: Result<Price, BadPrice>)
        ensures
            r matches Ok(p) ==> price_value(input@) == Some(p@),
            r is Err <==> price_value(input@) is None,
    {
        let v = chars_of(input);
        let ghost s = v@;
        let mut dot: usize = 0;
        while dot < v.len() && v[dot] != '.'
            invariant
                dot <= v.len(),
                v@ == s,
                forall|j: int| 0 <= j < dot ==> s[j] != '.',
            decreases v.len() - dot,
        {
            dot += 1;
        }
        proof {
            lemma_index_of_char(s, '.', dot as int);
        }
        let dec_from: usize = if dot < v.len() {
            dot + 1
        } else {
            v.len()
        };
        assert(s.take(dot as int) == s.subrange(0, dot as int));
        if dot < v.len() {
            assert(s.skip(dot + 1) == s.subrange(dec_from as int, s.len() as int));
        }
        if dot == v.len() {
            assert(s.subrange(dec_from as int, s.len() as int) == Seq::<char>::empty());
            assert(s.subrange(0, dot as int) == s);
        }
        let sek: i32 = if dot == 0 {
            0
        } else {
            match parse_int(&v, 0, dot, i32::MIN as i64, i32::MAX as i64) {
                Some(x) => {
                    let y = (x as i64) * 100;
                    if y < i32::MIN as i64 || y > i32::MAX as i64 {
                        return Err(BadPrice);
                    }
                    y as i32
                },
                None => {
                    return Err(BadPrice);
                },
            }
        };
        let dec_len = v.len() - dec_from;
        let dec: i32 = if dec_len == 0 {
            0
        } else if dec_len == 2 {
            match parse_int(&v, dec_from, v.len(), i32::MIN as i64, i32::MAX as i64) {
                Some(x) => x as i32,
                None => {
                    return Err(BadPrice);
                },
            }
        } else {
            return Err(BadPrice);
        };
        let total = sek as i64 + dec as i64;
        if total < i32::MIN as i64 || total > i32::MAX as i64 {
            return Err(BadPrice);
        }
        Ok(Price { price: total as i32 })
    }

    /// The price as text, as the issue listings show it.
    pub fn to_string(&self) -> (s: String)
        ensures
            s@ == price_text(self@),
    {
        let p = self.price as i64;
        let kr: i64 = if p >= 0 {
            p / 100
        } else {
            -((-p) / 100)
        };
        let ore: i64 = p - kr * 100;
        let mut out = String::new();
        if kr == 0 {
            push_int(&mut out, ore);
            out.append(" öre");
        } else if ore == 0 {
            push_int(&mut out, kr);
            out.append(":-");
        } else {
            push_int(&mut out, kr);
            out.append(":");
            if 0 <= ore && ore < 10 {
                out.push('0');
                push_int(&mut out, ore);
                assert(out@ == int_chars(kr as int) + ":"@ + (seq!['0'] + int_chars(ore as int)));
            } else {
                push_int(&mut out, ore);
            }
        }
        out
    }
}

impl std::str::FromStr for Price {
    type Err = BadPrice;

    fn from_str(input: &str) -> (r: Result<Price, BadPrice>)
        ensures
            r matches Ok(p) ==> price_value(input@) == Some(p@),
            r is Err <==> price_value(input@) is None,
    {
        Price::parse(input)
    }
}

} // verus!
