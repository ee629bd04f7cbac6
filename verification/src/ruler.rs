use vstd::prelude::*;
use vstd::arithmetic::div_mod::lemma_div_decreases;
use vstd::string::StringExecFns;

verus! {

/// The character of one decimal digit.
pub open spec fn digit_char(d: nat) -> char {
    if d == 0 {
        '0'
    } else if d == 1 {
        '1'
    } else if d == 2 {
        '2'
    } else if d == 3 {
        '3'
    } else if d == 4 {
        '4'
    } else if d == 5 {
        '5'
    } else if d == 6 {
        '6'
    } else if d == 7 {
        '7'
    } else if d == 8 {
        '8'
    } else {
        '9'
    }
}

/// The decimal representation of a number, most significant digit first.
pub open spec fn dec_rep(n: nat) -> Seq<char>
    decreases n,
{
    if n < 10 {
        seq![digit_char(n)]
    } else {
        dec_rep(n / 10).push(digit_char(n % 10))
    }
}

/// The ruler label above one slot: every even slot carries its beat number
/// (one beat spans two slots, counted from one), every odd slot the
/// off-beat mark.
pub open spec fn beat_label_spec(i: nat) -> Seq<char> {
    if i % 2 == 0 {
        dec_rep(i / 2 + 1)
    } else {
        seq!['+']
    }
}

/// The low-order digits collected so far, read back most significant first.
spec fn rev_chars(s: Seq<u8>) -> Seq<char> {
    Seq::new(s.len(), |k: int| digit_char(s[s.len() - 1 - k] as nat))
}

fn digit_str(d: u8) -> (r: &'static str)
    requires
        d < 10,
    ensures
        r@ =~= seq![digit_char(d as nat)],
{
    proof {
        reveal_strlit("0");
        reveal_strlit("1");
        reveal_strlit("2");
        reveal_strlit("3");
        reveal_strlit("4");
        reveal_strlit("5");
        reveal_strlit("6");
        reveal_strlit("7");
        reveal_strlit("8");
        reveal_strlit("9");
    }
    if d == 0 {
        "0"
    } else if d == 1 {
        "1"
    } else if d == 2 {
        "2"
    } else if d == 3 {
        "3"
    } else if d == 4 {
        "4"
    } else if d == 5 {
        "5"
    } else if d == 6 {
        "6"
    } else if d == 7 {
        "7"
    } else if d == 8 {
        "8"
    } else {
        "9"
    }
}

fn dec_string(n: usize) -> (r: String)
    ensures
        r@ == dec_rep(n as nat),
{
    let mut rev: Vec<u8> = Vec::new();
    let mut m = n;
    while m >= 10
        invariant
            forall|k: int| 0 <= k < rev@.len() ==> rev@[k] < 10,
            dec_rep(n as nat) == dec_rep(m as nat) + rev_chars(rev@),
        decreases m,
    {
        let d = (m % 10) as u8;
        let ghost prev = rev@;
        rev.push(d);
        proof {
            lemma_div_decreases(m as int, 10);
            assert(rev_chars(rev@) =~= seq![digit_char(d as nat)] + rev_chars(prev));
            assert(dec_rep(m as nat) == dec_rep((m / 10) as nat).push(digit_char(d as nat)));
            assert(dec_rep((m / 10) as nat) + rev_chars(rev@) =~= dec_rep(m as nat) + rev_chars(
                prev,
            ));
        }
        m = m / 10;
    }
    let ghost full = dec_rep(n as nat);
    proof {
        assert(dec_rep(m as nat) =~= seq![digit_char(m as nat)]);
        assert(full =~= seq![digit_char(m as nat)] + rev_chars(rev@));
    }
    let mut out = String::new();
    out.append(digit_str((m % 10) as u8));
    proof {
        assert(out@ =~= full.take(1));
    }
    let count = rev.len();
    let mut j: usize = 0;
    while j < count
        invariant
            j <= count,
            count == rev@.len(),
            forall|k: int| 0 <= k < rev@.len() ==> rev@[k] < 10,
            full == seq![digit_char(m as nat)] + rev_chars(rev@),
            out@ == full.take(1 + j as int),
        decreases count - j,
    {
        let d = rev[count - 1 - j];
        out.append(digit_str(d));
        proof {
            assert(full[1 + j as int] == rev_chars(rev@)[j as int]);
            assert(out@ =~= full.take(1 + j as int).push(full[1 + j as int]));
            assert(out@ =~= full.take(2 + j as int));
        }
        j += 1;
    }
    proof {
        assert(full.take(1 + count as int) =~= full);
    }
    out
}

/// The text above one slot of the beat-number ruler.
pub fn beat_label(i: usize) -> (r: String)
    ensures
        r@ == beat_label_spec(i as nat),
{
    if i % 2 == 0 {
        dec_string(i / 2 + 1)
    } else {
        proof {
            reveal_strlit("+");
        }
        String::from_str("+")
    }
}

} // verus!
