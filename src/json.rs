use vstd::prelude::*;
use vstd::utf8::{char_is_scalar, char_u32_cast, is_scalar};

use crate::text::occurs_at;

verus! {

/// JSON whitespace.
pub open spec fn is_ws(c: char) -> bool {
    c == ' ' || c == '\t' || c == '\n' || c == '\r'
}

/// The first index at or after `i` that holds no whitespace.
pub open spec fn skip_ws(s: Seq<char>, i: int) -> int
    decreases s.len() - i,
{
    if 0 <= i < s.len() && is_ws(s[i]) {
        skip_ws(s, i + 1)
    } else {
        i
    }
}

/// The lowercase hexadecimal digit of `d`, for `d` below 16.
pub open spec fn hex_char(d: int) -> char {
    seq!['0', '1', '2', '3', '4', '5', '6', '7', '8', '9', 'a', 'b', 'c', 'd', 'e', 'f'][d]
}

/// The value of a hexadecimal digit in either case, or -1.
pub open spec fn hex_value(c: char) -> int {
    if '0' <= c && c <= '9' {
        c as u32 - '0' as u32
    } else if 'a' <= c && c <= 'f' {
        c as u32 - 'a' as u32 + 10
    } else if 'A' <= c && c <= 'F' {
        c as u32 - 'A' as u32 + 10
    } else {
        -1
    }
}

/// The number written by the four hexadecimal digits at `i`, or -1.
pub open spec fn hex4(s: Seq<char>, i: int) -> int {
    let a = hex_value(s[i]);
    let b = hex_value(s[i + 1]);
    let c = hex_value(s[i + 2]);
    let d = hex_value(s[i + 3]);
    if a < 0 || b < 0 || c < 0 || d < 0 {
        -1
    } else {
        4096 * a + 256 * b + 16 * c + d
    }
}

/// The character that a one-letter escape `\e` stands for.
pub open spec fn short_escape(e: char) -> Option<char> {
    if e == '"' {
        Some('"')
    } else if e == '\\' {
        Some('\\')
    } else if e == '/' {
        Some('/')
    } else if e == 'b' {
        Some('\u{8}')
    } else if e == 'f' {
        Some('\u{c}')
    } else if e == 'n' {
        Some('\n')
    } else if e == 'r' {
        Some('\r')
    } else if e == 't' {
        Some('\t')
    } else {
        None
    }
}

/// Prefixes a text to the text of a parse result.
pub open spec fn prepend(a: Seq<char>, r: Option<(Seq<char>, int)>) -> Option<(Seq<char>, int)> {
    match r {
        Some((t, e)) => Some((a + t, e)),
        None => None,
    }
}

/// Reads the rest of a JSON string whose opening quote stands before `i`:
/// its text with escapes resolved, and the index after its closing quote.
/// Control characters must be escaped; a `\u` escape must name a scalar
/// value on its own (surrogate pairs are not read).
pub open spec fn string_from(s: Seq<char>, i: int) -> Option<(Seq<char>, int)>
    decreases s.len() - i,
{
    if i < 0 || i >= s.len() {
        None
    } else if s[i] == '"' {
        Some((Seq::empty(), i + 1))
    } else if s[i] == '\\' {
        if i + 1 >= s.len() {
            None
        } else if s[i + 1] == 'u' {
            if i + 6 <= s.len() && hex4(s, i + 2) >= 0 && is_scalar(hex4(s, i + 2) as u32) {
                prepend(seq![(hex4(s, i + 2) as u32) as char], string_from(s, i + 6))
            } else {
                None
            }
        } else {
            match short_escape(s[i + 1]) {
                Some(c) => prepend(seq![c], string_from(s, i + 2)),
                None => None,
            }
        }
    } else if (s[i] as u32) < 0x20 {
        None
    } else {
        prepend(seq![s[i]], string_from(s, i + 1))
    }
}

/// How a character is written inside a JSON string: quote, backslash and
/// control characters escaped, any other character as it is.
pub open spec fn escape_char(c: char) -> Seq<char> {
    if c == '"' {
        seq!['\\', '"']
    } else if c == '\\' {
        seq!['\\', '\\']
    } else if (c as u32) < 0x20 {
        seq!['\\', 'u', '0', '0', hex_char(((c as u32) / 16) as int), hex_char(((c as u32) % 16) as int)]
    } else {
        seq![c]
    }
}

/// A text as written inside a JSON string.
pub open spec fn escape_text(x: Seq<char>) -> Seq<char>
    decreases x.len(),
{
    if x.len() == 0 {
        Seq::empty()
    } else {
        escape_char(x[0]) + escape_text(x.drop_first())
    }
}

pub proof fn lemma_escape_text_append(a: Seq<char>, b: Seq<char>)
    ensures
        escape_text(a + b) == escape_text(a) + escape_text(b),
    decreases a.len(),
{
    if a.len() == 0 {
        assert(a + b =~= b);
        assert(escape_text(a) =~= Seq::<char>::empty());
    } else {
        assert((a + b).drop_first() =~= a.drop_first() + b);
        assert((a + b)[0] == a[0]);
        lemma_escape_text_append(a.drop_first(), b);
        assert(escape_text(a + b) =~= escape_text(a) + escape_text(b));
    }
}

/// Whether a text is written unchanged inside a JSON string.
pub open spec fn plain_text(x: Seq<char>) -> bool {
    forall|i: int|
        0 <= i < x.len() ==> x[i] != '"' && x[i] != '\\' && (#[trigger] x[i] as u32) >= 0x20
}

pub proof fn lemma_plain_escape(x: Seq<char>)
    requires
        plain_text(x),
    ensures
        escape_text(x) == x,
    decreases x.len(),
{
    if x.len() > 0 {
        assert(plain_text(x.drop_first())) by {
            assert forall|i: int| 0 <= i < x.drop_first().len() implies x.drop_first()[i] != '"'
                && x.drop_first()[i] != '\\' && (#[trigger] x.drop_first()[i] as u32) >= 0x20 by {
                assert(x.drop_first()[i] == x[i + 1]);
            }
        }
        lemma_plain_escape(x.drop_first());
        assert(x[0] as u32 >= 0x20);
        assert(escape_text(x) =~= x);
    }
}

/// A string written with `escape_text` and closed by a quote reads back.
pub proof fn lemma_string_round_trip(s: Seq<char>, i: int, x: Seq<char>)
    requires
        0 <= i,
        i + escape_text(x).len() < s.len(),
        s.subrange(i, i + escape_text(x).len()) == escape_text(x),
        s[i + escape_text(x).len()] == '"',
    ensures
        string_from(s, i) == Some((x, i + escape_text(x).len() + 1)),
    decreases x.len(),
{
    if x.len() == 0 {
        assert(escape_text(x).len() == 0);
        assert(x =~= Seq::<char>::empty());
    } else {
        let c = x[0];
        let rest = x.drop_first();
        let ec = escape_char(c);
        let n = ec.len() as int;
        assert(escape_text(x) == ec + escape_text(rest));
        assert(s.subrange(i, i + n) =~= ec) by {
            assert(s.subrange(i, i + n) =~= s.subrange(i, i + escape_text(x).len()).subrange(0, n));
        }
        assert(s.subrange(i + n, i + n + escape_text(rest).len()) =~= escape_text(rest)) by {
            assert(s.subrange(i + n, i + n + escape_text(rest).len()) =~= s.subrange(
                i,
                i + escape_text(x).len(),
            ).subrange(n, escape_text(x).len() as int));
        }
        lemma_string_round_trip(s, i + n, rest);
        assert(x =~= seq![c] + rest);
        assert(s[i] == ec[0]);
        if c == '"' || c == '\\' {
            assert(s[i + 1] == ec[1]);
        } else if (c as u32) < 0x20 {
            let u = c as u32;
            assert(s[i + 1] == ec[1]);
            assert(s[i + 2] == ec[2] && s[i + 3] == ec[3]);
            assert(s[i + 4] == ec[4] && s[i + 5] == ec[5]);
            assert(u / 16 < 2);
            assert(hex_value(hex_char(0)) == 0);
            assert(hex_value(hex_char((u / 16) as int)) == u / 16);
            assert(hex_value(hex_char((u % 16) as int)) == u % 16);
            assert(hex4(s, i + 2) == u);
            char_is_scalar(c);
            char_u32_cast(c, u);
        }
    }
}

/// Whether `c` may continue a JSON number.
pub open spec fn number_char(c: char) -> bool {
    ('0' <= c && c <= '9') || c == '-' || c == '+' || c == '.' || c == 'e' || c == 'E'
}

/// The index after the run of number characters from `i`.
pub open spec fn number_end(s: Seq<char>, i: int) -> int
    decreases s.len() - i,
{
    if 0 <= i < s.len() && number_char(s[i]) {
        number_end(s, i + 1)
    } else {
        i
    }
}

/// The index after a scalar JSON value at `i`: a string, `true`, `false`,
/// `null` or a number. Arrays and objects are not read.
pub open spec fn scalar_end(s: Seq<char>, i: int) -> Option<int> {
    if !(0 <= i < s.len()) {
        None
    } else if s[i] == '"' {
        match string_from(s, i + 1) {
            Some((_, e)) => Some(e),
            None => None,
        }
    } else if occurs_at(s, seq!['t', 'r', 'u', 'e'], i) {
        Some(i + 4)
    } else if occurs_at(s, seq!['f', 'a', 'l', 's', 'e'], i) {
        Some(i + 5)
    } else if occurs_at(s, seq!['n', 'u', 'l', 'l'], i) {
        Some(i + 4)
    } else if number_char(s[i]) {
        Some(number_end(s, i))
    } else {
        None
    }
}

/// Relies on `String::push`, which appends one character.
#[verifier::external_body]
pub(crate) fn push_char(s: &mut String, c: char)
    ensures
        final(s)@ == old(s)@.push(c),
{
    s.push(c);
}

/// Relies on `char::from_u32`, which gives the character of a Unicode
/// scalar value and `None` for any other number.
#[verifier::external_body]
fn char_from_code(u: u32) -> (r: Option<char>)
    ensures
        r is Some <==> is_scalar(u),
        r matches Some(c) ==> c as u32 == u,
{
    char::from_u32(u)
}

/// The first index at or after `i` that holds no whitespace.
pub fn skip_whitespace(v: &Vec<char>, i: usize) -> (r: usize)
    requires
        i <= v.len(),
    ensures
        r == skip_ws(v@, i as int),
        i <= r <= v.len(),
{
    let mut j = i;
    while j < v.len() && (v[j] == ' ' || v[j] == '\t' || v[j] == '\n' || v[j] == '\r')
        invariant
            i <= j <= v.len(),
            skip_ws(v@, j as int) == skip_ws(v@, i as int),
        decreases v.len() - j,
    {
        j = j + 1;
    }
    j
}

fn hex_digit(c: char) -> (r: Option<u32>)
    ensures
        match r {
            Some(d) => hex_value(c) == d,
            None => hex_value(c) == -1,
        },
{
    if '0' <= c && c <= '9' {
        Some(c as u32 - '0' as u32)
    } else if 'a' <= c && c <= 'f' {
        Some(c as u32 - 'a' as u32 + 10)
    } else if 'A' <= c && c <= 'F' {
        Some(c as u32 - 'A' as u32 + 10)
    } else {
        None
    }
}

/// Reads the escape sequence at `j`: the character it stands for and the
/// index after it.
fn read_escape(v: &Vec<char>, j: usize) -> (r: Option<(char, usize)>)
    requires
        j < v.len(),
        v@[j as int] == '\\',
    ensures
        match r {
            Some((ch, n)) => string_from(v@, j as int) == prepend(
                seq![ch],
                string_from(v@, n as int),
            ) && j < n <= v.len(),
            None => string_from(v@, j as int) is None,
        },
{
    if j + 1 >= v.len() {
        return None;
    }
    let e = v[j + 1];
    if e == 'u' {
        if v.len() - j < 6 {
            return None;
        }
        let code = match (
            hex_digit(v[j + 2]),
            hex_digit(v[j + 3]),
            hex_digit(v[j + 4]),
            hex_digit(v[j + 5]),
        ) {
            (Some(a), Some(b), Some(c), Some(d)) => 4096 * a + 256 * b + 16 * c + d,
            _ => {
                return None;
            },
        };
        assert(hex4(v@, j + 2) == code);
        match char_from_code(code) {
            Some(ch) => {
                proof {
                    char_u32_cast(ch, code);
                }
                Some((ch, j + 6))
            },
            None => None,
        }
    } else {
        let ch = if e == '"' {
            '"'
        } else if e == '\\' {
            '\\'
        } else if e == '/' {
            '/'
        } else if e == 'b' {
            '\u{8}'
        } else if e == 'f' {
            '\u{c}'
        } else if e == 'n' {
            '\n'
        } else if e == 'r' {
            '\r'
        } else if e == 't' {
            '\t'
        } else {
            return None;
        };
        assert(short_escape(e) == Some(ch));
        Some((ch, j + 2))
    }
}

proof fn lemma_prepend_push(acc: Seq<char>, ch: char, r: Option<(Seq<char>, int)>)
    ensures
        prepend(acc, prepend(seq![ch], r)) == prepend(acc.push(ch), r),
{
    if let Some((t, e)) = r {
        assert(acc + (seq![ch] + t) =~= acc.push(ch) + t);
    }
}

/// Reads the rest of a JSON string whose opening quote stands before `i`.
pub fn parse_string(v: &Vec<char>, i: usize) -> (r: Option<(String, usize)>)
    ensures
        match r {
            Some((t, e)) => string_from(v@, i as int) == Some((t@, e as int)) && i < e <= v.len(),
            None => string_from(v@, i as int) is None,
        },
{
    let mut acc = String::new();
    let mut j = i;
    while j < v.len()
        invariant
            i <= j,
            string_from(v@, i as int) == prepend(acc@, string_from(v@, j as int)),
        decreases v.len() - j,
    {
        let c = v[j];
        if c == '"' {
            assert(acc@ + Seq::<char>::empty() =~= acc@);
            return Some((acc, j + 1));
        }
        let (ch, next) = if c == '\\' {
            match read_escape(v, j) {
                Some(x) => x,
                None => {
                    return None;
                },
            }
        } else if (c as u32) < 0x20 {
            return None;
        } else {
            (c, j + 1)
        };
        proof {
            lemma_prepend_push(acc@, ch, string_from(v@, next as int));
        }
        push_char(&mut acc, ch);
        j = next;
    }
    None
}

/// The index after a scalar JSON value at `i`.
pub fn skip_scalar(v: &Vec<char>, i: usize) -> (r: Option<usize>)
    ensures
        match r {
            Some(e) => scalar_end(v@, i as int) == Some(e as int) && i < e <= v.len(),
            None => scalar_end(v@, i as int) is None,
        },
{
    if i >= v.len() {
        return None;
    }
    let t: Vec<char> = vec!['t', 'r', 'u', 'e'];
    let f: Vec<char> = vec!['f', 'a', 'l', 's', 'e'];
    let n: Vec<char> = vec!['n', 'u', 'l', 'l'];
    assert(t@ =~= seq!['t', 'r', 'u', 'e']);
    assert(f@ =~= seq!['f', 'a', 'l', 's', 'e']);
    assert(n@ =~= seq!['n', 'u', 'l', 'l']);
    let c = v[i];
    if c == '"' {
        match parse_string(v, i + 1) {
            Some((_, e)) => Some(e),
            None => None,
        }
    } else if crate::text::matches_at(v, &t, i) {
        Some(i + 4)
    } else if crate::text::matches_at(v, &f, i) {
        Some(i + 5)
    } else if crate::text::matches_at(v, &n, i) {
        Some(i + 4)
    } else if ('0' <= c && c <= '9') || c == '-' || c == '+' || c == '.' || c == 'e' || c == 'E' {
        let mut j = i;
        while j < v.len() && (('0' <= v[j] && v[j] <= '9') || v[j] == '-' || v[j] == '+' || v[j]
            == '.' || v[j] == 'e' || v[j] == 'E')
            invariant
                i <= j <= v.len(),
                number_end(v@, j as int) == number_end(v@, i as int),
            decreases v.len() - j,
        {
            j = j + 1;
        }
        Some(j)
    } else {
        None
    }
}

/// Appends a text as it is written inside a JSON string.
pub fn push_escaped(out: &mut String, x: &str)
    ensures
        final(out)@ == old(out)@ + escape_text(x@),
{
    let hex: Vec<char> = vec![
        '0', '1', '2', '3', '4', '5', '6', '7', '8', '9', 'a', 'b', 'c', 'd', 'e', 'f',
    ];
    assert(forall|d: int| 0 <= d < 16 ==> hex@[d] == hex_char(d));
    let ghost start = out@;
    let chars = crate::text::chars_of(x);
    let mut i: usize = 0;
    while i < chars.len()
        invariant
            i <= chars.len(),
            chars@ == x@,
            hex@.len() == 16,
            forall|d: int| 0 <= d < 16 ==> hex@[d] == hex_char(d),
            out@ == start + escape_text(chars@.take(i as int)),
        decreases chars.len() - i,
    {
        let c = chars[i];
        let ghost before = out@;
        if c == '"' {
            push_char(out, '\\');
            push_char(out, '"');
        } else if c == '\\' {
            push_char(out, '\\');
            push_char(out, '\\');
        } else if (c as u32) < 0x20 {
            let u = c as u32;
            push_char(out, '\\');
            push_char(out, 'u');
            push_char(out, '0');
            push_char(out, '0');
            push_char(out, hex[(u / 16) as usize]);
            push_char(out, hex[(u % 16) as usize]);
        } else {
            push_char(out, c);
        }
        proof {
            assert(out@ =~= before + escape_char(c));
            assert(chars@.take(i + 1) =~= chars@.take(i as int) + seq![c]);
            lemma_escape_text_append(chars@.take(i as int), seq![c]);
            assert(escape_text(seq![c]) =~= escape_char(c) + escape_text(seq![c].drop_first()));
            assert(seq![c].drop_first() =~= Seq::<char>::empty());
            assert(escape_text(seq![c]) =~= escape_char(c));
        }
        i = i + 1;
    }
    assert(chars@.take(i as int) =~= x@);
}

} // verus!
