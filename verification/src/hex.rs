//! Fixed-width lowercase hexadecimal rendering of byte sequences, used to turn
//! a content digest into the string embedded in fingerprinted file names.

use vstd::prelude::*;

verus! {

/// The lowercase hexadecimal digit character for a value below sixteen.
pub open spec fn hex_digit(n: u8) -> char {
    if n == 0 {
        '0'
    } else if n == 1 {
        '1'
    } else if n == 2 {
        '2'
    } else if n == 3 {
        '3'
    } else if n == 4 {
        '4'
    } else if n == 5 {
        '5'
    } else if n == 6 {
        '6'
    } else if n == 7 {
        '7'
    } else if n == 8 {
        '8'
    } else if n == 9 {
        '9'
    } else if n == 10 {
        'a'
    } else if n == 11 {
        'b'
    } else if n == 12 {
        'c'
    } else if n == 13 {
        'd'
    } else if n == 14 {
        'e'
    } else {
        'f'
    }
}

/// One byte rendered as exactly two hexadecimal digits, zero-padded.
pub open spec fn hex_byte(b: u8) -> Seq<char> {
    seq![hex_digit(b / 16), hex_digit(b % 16)]
}

/// A byte sequence rendered as hexadecimal text, two digits per byte.
pub open spec fn hex_of(bytes: Seq<u8>) -> Seq<char>
    decreases bytes.len(),
{
    if bytes.len() == 0 {
        Seq::empty()
    } else {
        hex_of(bytes.drop_last()) + hex_byte(bytes.last())
    }
}

/// The rendering is two characters per byte.
pub proof fn lemma_hex_of_len(bytes: Seq<u8>)
    ensures
        hex_of(bytes).len() == 2 * bytes.len(),
    decreases bytes.len(),
{
    if bytes.len() > 0 {
        lemma_hex_of_len(bytes.drop_last());
    }
}

fn push_hex_digit(s: &mut String, n: u8)
    requires
        n < 16,
    ensures
        final(s)@ == old(s)@.push(hex_digit(n)),
{
    if n == 0 {
        proof {
            reveal_strlit("0");
        }
        s.append("0");
        proof {
            assert(s@ =~= old(s)@.push('0'));
        }
    } else if n == 1 {
        proof {
            reveal_strlit("1");
        }
        s.append("1");
        proof {
            assert(s@ =~= old(s)@.push('1'));
        }
    } else if n == 2 {
        proof {
            reveal_strlit("2");
        }
        s.append("2");
        proof {
            assert(s@ =~= old(s)@.push('2'));
        }
    } else if n == 3 {
        proof {
            reveal_strlit("3");
        }
        s.append("3");
        proof {
            assert(s@ =~= old(s)@.push('3'));
        }
    } else if n == 4 {
        proof {
            reveal_strlit("4");
        }
        s.append("4");
        proof {
            assert(s@ =~= old(s)@.push('4'));
        }
    } else if n == 5 {
        proof {
            reveal_strlit("5");
        }
        s.append("5");
        proof {
            assert(s@ =~= old(s)@.push('5'));
        }
    } else if n == 6 {
        proof {
            reveal_strlit("6");
        }
        s.append("6");
        proof {
            assert(s@ =~= old(s)@.push('6'));
        }
    } else if n == 7 {
        proof {
            reveal_strlit("7");
        }
        s.append("7");
        proof {
            assert(s@ =~= old(s)@.push('7'));
        }
    } else if n == 8 {
        proof {
            reveal_strlit("8");
        }
        s.append("8");
        proof {
            assert(s@ =~= old(s)@.push('8'));
        }
    } else if n == 9 {
        proof {
            reveal_strlit("9");
        }
        s.append("9");
        proof {
            assert(s@ =~= old(s)@.push('9'));
        }
    } else if n == 10 {
        proof {
            reveal_strlit("a");
        }
        s.append("a");
        proof {
            assert(s@ =~= old(s)@.push('a'));
        }
    } else if n == 11 {
        proof {
            reveal_strlit("b");
        }
        s.append("b");
        proof {
            assert(s@ =~= old(s)@.push('b'));
        }
    } else if n == 12 {
        proof {
            reveal_strlit("c");
        }
        s.append("c");
        proof {
            assert(s@ =~= old(s)@.push('c'));
        }
    } else if n == 13 {
        proof {
            reveal_strlit("d");
        }
        s.append("d");
        proof {
            assert(s@ =~= old(s)@.push('d'));
        }
    } else if n == 14 {
        proof {
            reveal_strlit("e");
        }
        s.append("e");
        proof {
            assert(s@ =~= old(s)@.push('e'));
        }
    } else {
        proof {
            reveal_strlit("f");
        }
        s.append("f");
        proof {
            assert(s@ =~= old(s)@.push('f'));
        }
    }
}

/// Render a byte slice as fixed-width lowercase hexadecimal text.
pub fn hex_bytes(sum: &[u8]) -> (r: String)
    ensures
        r@ == hex_of(sum@),
{
    let mut s = String::new();
    let mut i: usize = 0;
    while i < sum.len()
        invariant
            i <= sum@.len(),
            s@ == hex_of(sum@.take(i as int)),
        decreases sum@.len() - i,
    {
        let b = sum[i];
        push_hex_digit(&mut s, b / 16);
        push_hex_digit(&mut s, b % 16);
        proof {
            assert(sum@.take(i + 1).drop_last() =~= sum@.take(i as int));
            assert(sum@.take(i + 1).last() == sum@[i as int]);
            assert(s@ =~= hex_of(sum@.take(i + 1)));
        }
        i = i + 1;
    }
    proof {
        assert(sum@.take(sum@.len() as int) =~= sum@);
    }
    s
}

} // verus!
