//! Bytes as text: two lower-case hexadecimal digits for each byte.

use vstd::prelude::*;
use vstd::string::{StringExecFns, is_ascii_spec_bytes};

verus! {

/// The digit for `n`, for `n` below sixteen.
pub open spec fn hex_digit(n: int) -> char {
    if 0 <= n < 10 {
        (n + 48) as char
    } else {
        (n + 87) as char
    }
}

/// The number that the digit `c` stands for, if `c` is a digit.
pub open spec fn digit_value(c: char) -> Option<int> {
    let code = c as int;
    if 48 <= code <= 57 {
        Some(code - 48)
    } else if 97 <= code <= 102 {
        Some(code - 87)
    } else {
        None
    }
}

/// The text for `bytes`: for each byte the digit of its upper half, then
/// the digit of its lower half.
pub open spec fn hex(bytes: Seq<u8>) -> Seq<char>
    decreases bytes.len(),
{
    if bytes.len() == 0 {
        Seq::empty()
    } else {
        hex(bytes.drop_last()).push(hex_digit(bytes.last() as int / 16)).push(
            hex_digit(bytes.last() as int % 16),
        )
    }
}

/// The bytes that `text` stands for, if it is an even number of digits.
pub open spec fn unhex(text: Seq<char>) -> Option<Seq<u8>>
    decreases text.len(),
{
    if text.len() == 0 {
        Some(Seq::empty())
    } else if text.len() == 1 {
        None
    } else {
        let high = digit_value(text[text.len() - 2]);
        let low = digit_value(text[text.len() - 1]);
        match (unhex(text.subrange(0, text.len() - 2)), high, low) {
            (Some(bytes), Some(h), Some(l)) => Some(bytes.push((h * 16 + l) as u8)),
            _ => None,
        }
    }
}

/// A digit stands for the number that it was made for, and it is an ASCII
/// character.
pub proof fn lemma_digit_round_trip(n: int)
    requires
        0 <= n < 16,
    ensures
        digit_value(hex_digit(n)) == Some(n),
        hex_digit(n) as int <= 127,
{
}

/// The text has two characters for each byte.
pub proof fn lemma_hex_len(bytes: Seq<u8>)
    ensures
        hex(bytes).len() == 2 * bytes.len(),
    decreases bytes.len(),
{
    if bytes.len() > 0 {
        lemma_hex_len(bytes.drop_last());
    }
}

/// The text of bytes stands for these bytes.
pub proof fn lemma_unhex_hex(bytes: Seq<u8>)
    ensures
        unhex(hex(bytes)) == Some(bytes),
    decreases bytes.len(),
{
    if bytes.len() > 0 {
        let front = bytes.drop_last();
        let last = bytes.last() as int;
        let text = hex(bytes);
        lemma_unhex_hex(front);
        lemma_hex_len(front);
        lemma_digit_round_trip(last / 16);
        lemma_digit_round_trip(last % 16);
        assert(text.subrange(0, text.len() - 2) =~= hex(front));
        assert(front.push((last / 16 * 16 + last % 16) as u8) =~= bytes);
    }
}

/// The bytes that a text stands for have this text.
pub proof fn lemma_hex_unhex(text: Seq<char>)
    requires
        unhex(text) is Some,
    ensures
        hex(unhex(text)->Some_0) == text,
        2 * unhex(text)->Some_0.len() == text.len(),
    decreases text.len(),
{
    if text.len() > 0 {
        let front = text.subrange(0, text.len() - 2);
        let h = digit_value(text[text.len() - 2])->Some_0;
        let l = digit_value(text[text.len() - 1])->Some_0;
        let bytes = unhex(text)->Some_0;
        lemma_hex_unhex(front);
        assert(bytes.drop_last() =~= unhex(front)->Some_0);
        assert(hex_digit(h) == text[text.len() - 2]);
        assert(hex_digit(l) == text[text.len() - 1]);
        assert(hex(bytes) =~= text);
    }
}

/// The digit for `n` as a text of one character.
fn digit_text(n: u8) -> (r: &'static str)
    requires
        n < 16,
    ensures
        r@ == seq![hex_digit(n as int)],
{
    proof {
        reveal_strlit("0");
        reveal_strlit("1");
        reveal_strlit("2");
        reveal_strlit("3");
        reveal_strlit("4");
        reveal_strlit("5");
        reveal_strlit("6");
        reveal_strlit("7");
        reveal_strlit("8");
        reveal_strlit("9");
        reveal_strlit("a");
        reveal_strlit("b");
        reveal_strlit("c");
        reveal_strlit("d");
        reveal_strlit("e");
        reveal_strlit("f");
    }
    let r = if n == 0 {
        "0"
    } else if n == 1 {
        "1"
    } else if n == 2 {
        "2"
    } else if n == 3 {
        "3"
    } else if n == 4 {
        "4"
    } else if n == 5 {
        "5"
    } else if n == 6 {
        "6"
    } else if n == 7 {
        "7"
    } else if n == 8 {
        "8"
    } else if n == 9 {
        "9"
    } else if n == 10 {
        "a"
    } else if n == 11 {
        "b"
    } else if n == 12 {
        "c"
    } else if n == 13 {
        "d"
    } else if n == 14 {
        "e"
    } else {
        "f"
    };
    assert(r@ =~= seq![hex_digit(n as int)]);
    r
}

/// The number that the digit with the code `code` stands for.
fn digit_of(code: u8) -> (r: Option<u8>)
    ensures
        r is Some <==> digit_value(code as char) is Some,
        r matches Some(n) ==> n < 16 && digit_value(code as char) == Some(n as int),
{
    if 48 <= code && code <= 57 {
        Some(code - 48)
    } else if 97 <= code && code <= 102 {
        Some(code - 87)
    } else {
        None
    }
}

/// The text for `bytes`.
pub fn to_hex(bytes: &[u8]) -> (r: String)
    ensures
        r@ == hex(bytes@),
{
    let mut out = String::new();
    let mut i: usize = 0;
    assert(bytes@.take(0) =~= Seq::<u8>::empty());
    while i < bytes.len()
        invariant
            i <= bytes@.len(),
            out@ == hex(bytes@.take(i as int)),
        decreases bytes@.len() - i,
    {
        let byte = bytes[i];
        let ghost before = out@;
        out.append(digit_text(byte / 16));
        out.append(digit_text(byte % 16));
        proof {
            assert(bytes@.take(i + 1).drop_last() =~= bytes@.take(i as int));
            assert(out@ =~= before.push(hex_digit(byte as int / 16)).push(
                hex_digit(byte as int % 16),
            ));
        }
        i += 1;
    }
    assert(bytes@.take(i as int) =~= bytes@);
    out
}

/// The bytes that `text` stands for, if it is an even number of digits.
pub fn from_hex(text: &str) -> (r: Option<Vec<u8>>)
    ensures
        match r {
            Some(bytes) => unhex(text@) == Some(bytes@),
            None => unhex(text@) is None,
        },
{
    if !text.is_ascii() {
        proof {
            lemma_not_ascii_not_hex(text@);
        }
        return None;
    }
    let codes = text.as_bytes();
    proof {
        is_ascii_spec_bytes(text);
        vstd::utf8::is_ascii_chars_nat_bound(text@);
        assert forall|j: int| 0 <= j < text@.len() implies codes@[j] as char
            == #[trigger] text@[j] by {
            assert(codes@[j] == text@[j] as u8);
            assert((text@[j] as nat) < 128);
        }
    }
    let len = codes.len();
    if len % 2 != 0 {
        proof {
            lemma_odd_not_hex(text@);
        }
        return None;
    }
    let mut out: Vec<u8> = Vec::new();
    let mut i: usize = 0;
    assert(text@.subrange(0, 0) =~= Seq::<char>::empty());
    while i < len
        invariant
            i <= len,
            i % 2 == 0,
            len % 2 == 0,
            len == text@.len(),
            codes@.len() == len,
            forall|j: int| 0 <= j < len ==> codes@[j] as char == #[trigger] text@[j],
            unhex(text@.subrange(0, i as int)) == Some(out@),
        decreases len - i,
    {
        let ghost front = text@.subrange(0, i as int);
        let ghost next = text@.subrange(0, i + 2);
        proof {
            assert(next.subrange(0, next.len() - 2) =~= front);
            assert(next[next.len() - 2] == text@[i as int]);
            assert(next[next.len() - 1] == text@[i + 1]);
            assert(codes@[i as int] as char == text@[i as int]);
            assert(codes@[i + 1] as char == text@[i + 1]);
        }
        let high = match digit_of(codes[i]) {
            Some(high) => high,
            None => {
                proof {
                    lemma_prefix_not_hex(text@, i + 2);
                }
                return None;
            },
        };
        let low = match digit_of(codes[i + 1]) {
            Some(low) => low,
            None => {
                proof {
                    lemma_prefix_not_hex(text@, i + 2);
                }
                return None;
            },
        };
        out.push(high * 16 + low);
        i += 2;
    }
    assert(text@.subrange(0, i as int) =~= text@);
    Some(out)
}

/// A text with a character outside ASCII is no hexadecimal text.
pub proof fn lemma_not_ascii_not_hex(text: Seq<char>)
    requires
        !vstd::utf8::is_ascii_chars(text),
    ensures
        unhex(text) is None,
    decreases text.len(),
{
    if text.len() >= 2 {
        let front = text.subrange(0, text.len() - 2);
        if vstd::utf8::is_ascii_chars(front) {
            let j = choose|j: int|
                0 <= j < text.len() && !('\0' <= #[trigger] text[j] <= '\u{7f}');
            if j < text.len() - 2 {
                assert(front[j] == text[j]);
            }
        } else {
            lemma_not_ascii_not_hex(front);
        }
    }
}

/// A text of odd length is no hexadecimal text.
pub proof fn lemma_odd_not_hex(text: Seq<char>)
    requires
        text.len() % 2 == 1,
    ensures
        unhex(text) is None,
    decreases text.len(),
{
    if text.len() > 1 {
        lemma_odd_not_hex(text.subrange(0, text.len() - 2));
    }
}

/// A text whose first `k` characters are no hexadecimal text is none
/// either.
pub proof fn lemma_prefix_not_hex(text: Seq<char>, k: int)
    requires
        0 <= k <= text.len(),
        k % 2 == 0,
        text.len() % 2 == 0,
        unhex(text.subrange(0, k)) is None,
    ensures
        unhex(text) is None,
    decreases text.len(),
{
    if k < text.len() {
        let front = text.subrange(0, text.len() - 2);
        assert(front.subrange(0, k) =~= text.subrange(0, k));
        lemma_prefix_not_hex(front, k);
    } else {
        assert(text.subrange(0, k) =~= text);
    }
}

} // verus!
