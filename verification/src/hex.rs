//! Hex colour codes as typed into or shown by the colour picker ("#FF00FF").
use vstd::prelude::*;
use vstd::string::{StrSliceExecFns, StringExecFns};

verus! {

/// Unicode White_Space characters (what text trimming removes).
pub open spec fn is_white_space(c: char) -> bool {
    let u = c as u32;
    ||| 0x9 <= u <= 0xD
    ||| u == 0x20
    ||| u == 0x85
    ||| u == 0xA0
    ||| u == 0x1680
    ||| 0x2000 <= u <= 0x200A
    ||| u == 0x2028
    ||| u == 0x2029
    ||| u == 0x202F
    ||| u == 0x205F
    ||| u == 0x3000
}

/// Whether `c` is Unicode white space.
pub fn white_space(c: char) -> (ws: bool)
    ensures
        ws == is_white_space(c),
{
    let u = c as u32;
    (0x9 <= u && u <= 0xD) || u == 0x20 || u == 0x85 || u == 0xA0 || u == 0x1680 || (0x2000 <= u
        && u <= 0x200A) || u == 0x2028 || u == 0x2029 || u == 0x202F || u == 0x205F || u == 0x3000
}

/// `s` without its leading white space.
pub open spec fn trim_start(s: Seq<char>) -> Seq<char>
    decreases s.len(),
{
    if s.len() > 0 && is_white_space(s[0]) {
        trim_start(s.drop_first())
    } else {
        s
    }
}

/// `s` without its trailing white space.
pub open spec fn trim_end(s: Seq<char>) -> Seq<char>
    decreases s.len(),
{
    if s.len() > 0 && is_white_space(s.last()) {
        trim_end(s.drop_last())
    } else {
        s
    }
}

/// `s` without its leading '#' characters.
pub open spec fn strip_hashes(s: Seq<char>) -> Seq<char>
    decreases s.len(),
{
    if s.len() > 0 && s[0] == '#' {
        strip_hashes(s.drop_first())
    } else {
        s
    }
}

/// Value of a hexadecimal digit (either case).
pub open spec fn hex_digit(c: char) -> Option<int> {
    if '0' <= c <= '9' {
        Some(c as int - '0' as int)
    } else if 'a' <= c <= 'f' {
        Some(c as int - 'a' as int + 10)
    } else if 'A' <= c <= 'F' {
        Some(c as int - 'A' as int + 10)
    } else {
        None
    }
}

/// Every character of `s` is a hexadecimal digit.
pub open spec fn all_hex(s: Seq<char>) -> bool {
    forall|i: int| 0 <= i < s.len() ==> #[trigger] hex_digit(s[i]) is Some
}

/// The number the hexadecimal digits `s` spell, most significant first.
pub open spec fn hex_value(s: Seq<char>) -> int
    decreases s.len(),
{
    if s.len() == 0 {
        0
    } else {
        hex_value(s.drop_last()) * 16 + hex_digit(s.last())->0
    }
}

/// The colour a hex code text stands for. Surrounding white space and any
/// leading '#' are dropped; what is left must be six characters: six hex
/// digits, or a '+' and five hex digits (read as an unsigned number, as
/// `u32::from_str_radix` reads it). The number's three low bytes are red,
/// green and blue.
pub open spec fn hex_color_value(text: Seq<char>) -> Option<[u8; 3]> {
    let code = strip_hashes(trim_end(trim_start(text)));
    let digits = if code.len() > 0 && code[0] == '+' {
        code.drop_first()
    } else {
        code
    };
    if code.len() == 6 && digits.len() > 0 && all_hex(digits) {
        let v = hex_value(digits);
        Some([(v / 65536) as u8, (v / 256 % 256) as u8, (v % 256) as u8])
    } else {
        None
    }
}

/// 16 to the power `n`.
pub open spec fn pow16(n: nat) -> int
    decreases n,
{
    if n == 0 {
        1
    } else {
        16 * pow16((n - 1) as nat)
    }
}

proof fn lemma_pow16_increases(a: nat, b: nat)
    requires
        a <= b,
    ensures
        1 <= pow16(a) <= pow16(b),
    decreases b,
{
    if b > 0 {
        if a == b {
            lemma_pow16_increases((b - 1) as nat, (b - 1) as nat);
        } else {
            lemma_pow16_increases(a, (b - 1) as nat);
        }
    }
}

proof fn lemma_hex_value_bound(s: Seq<char>)
    requires
        all_hex(s),
    ensures
        0 <= hex_value(s) < pow16(s.len()),
    decreases s.len(),
{
    if s.len() > 0 {
        let p = s.drop_last();
        assert forall|i: int| 0 <= i < p.len() implies #[trigger] hex_digit(p[i]) is Some by {
            assert(p[i] == s[i]);
        }
        lemma_hex_value_bound(p);
        assert(hex_digit(s[s.len() - 1]) is Some);
        let d = hex_digit(s.last())->0;
        let q = pow16(p.len());
        assert(hex_value(p) * 16 + d < q * 16) by (nonlinear_arith)
            requires
                0 <= hex_value(p) < q,
                0 <= d < 16,
        ;
        assert(hex_value(p) * 16 + d >= 0) by (nonlinear_arith)
            requires
                0 <= hex_value(p),
                0 <= d,
        ;
    }
}

fn hex_digit_exec(c: char) -> (d: Option<u32>)
    ensures
        match hex_digit(c) {
            Some(v) => d == Some(v as u32),
            None => d is None,
        },
{
    if '0' <= c && c <= '9' {
        Some(c as u32 - '0' as u32)
    } else if 'a' <= c && c <= 'f' {
        Some(c as u32 - 'a' as u32 + 10)
    } else if 'A' <= c && c <= 'F' {
        Some(c as u32 - 'A' as u32 + 10)
    } else {
        None
    }
}

/// Reads a hex colour code as the colour picker does (see `hex_color_value`).
pub fn parse_hex_color(text: &str) -> (color: Option<[u8; 3]>)
    ensures
        color == hex_color_value(text@),
{
    let ghost s = text@;
    let n = text.unicode_len();
    // Leading white space.
    let mut start: usize = 0;
    assert(s.subrange(0, n as int) =~= s);
    while start < n && white_space(text.get_char(start))
        invariant
            n == s.len(),
            s == text@,
            start <= n,
            trim_start(s) == trim_start(s.subrange(start as int, n as int)),
        decreases n - start,
    {
        assert(s.subrange(start as int, n as int).drop_first() =~= s.subrange(start + 1, n as int));
        start = start + 1;
    }
    assert(trim_start(s) == s.subrange(start as int, n as int));
    // Trailing white space.
    let mut end: usize = n;
    while end > start && white_space(text.get_char(end - 1))
        invariant
            n == s.len(),
            s == text@,
            start <= end <= n,
            trim_end(s.subrange(start as int, n as int)) == trim_end(
                s.subrange(start as int, end as int),
            ),
        decreases end - start,
    {
        assert(s.subrange(start as int, end as int).drop_last() =~= s.subrange(
            start as int,
            end - 1,
        ));
        end = end - 1;
    }
    assert(trim_end(trim_start(s)) == s.subrange(start as int, end as int));
    // Leading '#'s.
    let mut first: usize = start;
    while first < end && text.get_char(first) == '#'
        invariant
            n == s.len(),
            s == text@,
            start <= first <= end <= n,
            strip_hashes(s.subrange(start as int, end as int)) == strip_hashes(
                s.subrange(first as int, end as int),
            ),
        decreases end - first,
    {
        assert(s.subrange(first as int, end as int).drop_first() =~= s.subrange(first + 1, end as int));
        first = first + 1;
    }
    let ghost code = s.subrange(first as int, end as int);
    assert(strip_hashes(trim_end(trim_start(s))) == code);
    if end - first != 6 {
        return None;
    }
    let mut digit_start = first;
    if text.get_char(first) == '+' {
        digit_start = first + 1;
    }
    let ghost digits = s.subrange(digit_start as int, end as int);
    assert(digits =~= if code.len() > 0 && code[0] == '+' {
        code.drop_first()
    } else {
        code
    });
    let mut value: u32 = 0;
    let mut k: usize = digit_start;
    while k < end
        invariant
            n == s.len(),
            s == text@,
            first <= digit_start <= k <= end <= n,
            end - first == 6,
            digits == s.subrange(digit_start as int, end as int),
            code == s.subrange(first as int, end as int),
            code == strip_hashes(trim_end(trim_start(s))),
            digits == (if code.len() > 0 && code[0] == '+' {
                code.drop_first()
            } else {
                code
            }),
            all_hex(s.subrange(digit_start as int, k as int)),
            value == hex_value(s.subrange(digit_start as int, k as int)),
        decreases end - k,
    {
        let d = hex_digit_exec(text.get_char(k));
        match d {
            None => {
                assert(hex_digit(digits[k - digit_start]) is None);
                assert(!all_hex(digits));
                return None;
            },
            Some(v) => {
                let ghost prefix = s.subrange(digit_start as int, k + 1);
                assert(prefix.drop_last() =~= s.subrange(digit_start as int, k as int));
                assert forall|i: int| 0 <= i < prefix.len() implies #[trigger] hex_digit(prefix[i]) is Some by {
                    if i < prefix.len() - 1 {
                        assert(prefix[i] == s.subrange(digit_start as int, k as int)[i]);
                    }
                }
                proof {
                    lemma_hex_value_bound(s.subrange(digit_start as int, k as int));
                    let len = k - digit_start;
                    assert(len < 6);
                    lemma_pow16_increases(len as nat, 5);
                    reveal_with_fuel(pow16, 6);
                }
                value = value * 16 + v;
                k = k + 1;
            },
        }
    }
    if digit_start == end {
        return None;
    }
    proof {
        lemma_hex_value_bound(digits);
        lemma_pow16_increases(digits.len(), 6);
        reveal_with_fuel(pow16, 7);
    }
    Some([(value / 65536) as u8, (value / 256 % 256) as u8, (value % 256) as u8])
}

/// Upper-case hexadecimal digit of a value below 16.
pub open spec fn hex_char(v: int) -> char {
    if v < 10 {
        ('0' as int + v) as char
    } else {
        ('A' as int + v - 10) as char
    }
}

/// A byte as two upper-case hex digits.
pub open spec fn hex_byte(b: u8) -> Seq<char> {
    seq![hex_char(b as int / 16), hex_char(b as int % 16)]
}

/// The first `n` channels of a colour as hex digits, two per channel.
spec fn hex_channels(rgb: [u8; 3], n: int) -> Seq<char>
    decreases n,
{
    if n <= 0 {
        Seq::empty()
    } else {
        hex_channels(rgb, n - 1) + hex_byte(rgb[n - 1])
    }
}

/// The hex code shown for a colour: '#' and two upper-case digits each for
/// red, green and blue.
pub open spec fn hex_color_text(rgb: [u8; 3]) -> Seq<char> {
    seq!['#'] + hex_byte(rgb[0]) + hex_byte(rgb[1]) + hex_byte(rgb[2])
}

/// The upper-case hexadecimal digit of a value below 16, as text.
fn hex_digit_text(v: u8) -> (text: &'static str)
    requires
        v < 16,
    ensures
        text@ == seq![hex_char(v as int)],
{
    proof {
        reveal_strlit("0");
        reveal_strlit("1");
        reveal_strlit("2");
        reveal_strlit("3");
        reveal_strlit("4");
        reveal_strlit("5");
        reveal_strlit("6");
        reveal_strlit("7");
        reveal_strlit("8");
        reveal_strlit("9");
        reveal_strlit("A");
        reveal_strlit("B");
        reveal_strlit("C");
        reveal_strlit("D");
        reveal_strlit("E");
        reveal_strlit("F");
    }
    if v == 0 {
        "0"
    } else if v == 1 {
        "1"
    } else if v == 2 {
        "2"
    } else if v == 3 {
        "3"
    } else if v == 4 {
        "4"
    } else if v == 5 {
        "5"
    } else if v == 6 {
        "6"
    } else if v == 7 {
        "7"
    } else if v == 8 {
        "8"
    } else if v == 9 {
        "9"
    } else if v == 10 {
        "A"
    } else if v == 11 {
        "B"
    } else if v == 12 {
        "C"
    } else if v == 13 {
        "D"
    } else if v == 14 {
        "E"
    } else {
        "F"
    }
}

/// Formats a colour as its hex code, "#RRGGBB" in upper case.
pub fn format_hex_color(rgb: [u8; 3]) -> (text: String)
    ensures
        text@ == hex_color_text(rgb),
{
    let mut text = String::new();
    text.append("#");
    proof {
        reveal_strlit("#");
    }
    let mut i: usize = 0;
    while i < 3
        invariant
            i <= 3,
            text@ == seq!['#'] + hex_channels(rgb, i as int),
        decreases 3 - i,
    {
        let byte = rgb[i];
        text.append(hex_digit_text(byte / 16));
        text.append(hex_digit_text(byte % 16));
        assert(hex_channels(rgb, i + 1) =~= hex_channels(rgb, i as int) + hex_byte(byte));
        i = i + 1;
    }
    assert(hex_channels(rgb, 3) =~= hex_byte(rgb[0]) + hex_byte(rgb[1]) + hex_byte(rgb[2])) by {
        reveal_with_fuel(hex_channels, 4);
    }
    assert(text@ =~= hex_color_text(rgb));
    text
}

proof fn lemma_hex_char_digit(v: int)
    requires
        0 <= v < 16,
    ensures
        hex_digit(hex_char(v)) == Some(v),
        !is_white_space(hex_char(v)),
        hex_char(v) != '#',
        hex_char(v) != '+',
{
}

/// Reading back the hex code shown for a colour gives that colour.
pub proof fn lemma_hex_color_round_trip(rgb: [u8; 3])
    ensures
        hex_color_value(hex_color_text(rgb)) == Some(rgb),
{
    let t = hex_color_text(rgb);
    let r = rgb[0] as int;
    let g = rgb[1] as int;
    let b = rgb[2] as int;
    let d = seq![r / 16, r % 16, g / 16, g % 16, b / 16, b % 16];
    assert forall|i: int| 0 <= i < 6 implies 0 <= #[trigger] d[i] < 16 by {}
    lemma_hex_char_digit(r / 16);
    lemma_hex_char_digit(r % 16);
    lemma_hex_char_digit(g / 16);
    lemma_hex_char_digit(g % 16);
    lemma_hex_char_digit(b / 16);
    lemma_hex_char_digit(b % 16);
    let code = t.drop_first();
    assert(t.len() == 7);
    assert(trim_start(t) == t);
    assert(trim_end(t) == t);
    assert(code[0] == hex_char(r / 16));
    assert(strip_hashes(code) == code);
    assert(strip_hashes(t) == code);
    assert(all_hex(code));
    reveal_with_fuel(hex_value, 7);
    assert(code.drop_last().drop_last().drop_last().drop_last().drop_last().drop_last()
        =~= Seq::<char>::empty());
    let v = hex_value(code);
    assert(v == (((((r / 16) * 16 + r % 16) * 16 + g / 16) * 16 + g % 16) * 16 + b / 16) * 16 + b
        % 16);
    assert(v == r * 65536 + g * 256 + b) by (nonlinear_arith)
        requires
            v == (((((r / 16) * 16 + r % 16) * 16 + g / 16) * 16 + g % 16) * 16 + b / 16) * 16 + b
                % 16,
            0 <= r < 256,
            0 <= g < 256,
            0 <= b < 256,
    ;
    assert(v / 65536 == r && v / 256 % 256 == g && v % 256 == b) by (nonlinear_arith)
        requires
            v == r * 65536 + g * 256 + b,
            0 <= r < 256,
            0 <= g < 256,
            0 <= b < 256,
    ;
    assert(hex_color_value(t) =~= Some([r as u8, g as u8, b as u8]));
    assert([r as u8, g as u8, b as u8] =~= rgb);
}

} // verus!
