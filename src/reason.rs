use vstd::prelude::*;

use vstd::string::StringSliceAdditionalSpecFns;
use vstd::utf8::{encode_utf8, is_char_boundary};

use crate::model::AgreementError;

verus! {

pub open spec fn is_ws(b: u8) -> bool {
    b == 0x20 || b == 0x09 || b == 0x0a || b == 0x0d
}

pub open spec fn is_digit(b: u8) -> bool {
    0x30 <= b <= 0x39
}

pub open spec fn is_hex(b: u8) -> bool {
    is_digit(b) || (0x41 <= b <= 0x46) || (0x61 <= b <= 0x66)
}

/// The first position at or after `i` that is not JSON whitespace.
pub open spec fn skip_ws(s: Seq<u8>, i: int) -> int
    decreases s.len() - i,
{
    if 0 <= i < s.len() && is_ws(s[i]) {
        skip_ws(s, i + 1)
    } else {
        i
    }
}

/// The first position at or after `i` that is not a decimal digit.
pub open spec fn digits_end(s: Seq<u8>, i: int) -> int
    decreases s.len() - i,
{
    if 0 <= i < s.len() && is_digit(s[i]) {
        digits_end(s, i + 1)
    } else {
        i
    }
}

pub open spec fn at(s: Seq<u8>, i: int, b: u8) -> bool {
    0 <= i < s.len() && s[i] == b
}

/// End of the exponent part of a number starting at `c`, if any.
pub open spec fn exponent_end(s: Seq<u8>, c: int) -> Option<int> {
    if at(s, c, 0x65) || at(s, c, 0x45) {
        let d = if at(s, c + 1, 0x2b) || at(s, c + 1, 0x2d) {
            c + 2
        } else {
            c + 1
        };
        if 0 <= d < s.len() && is_digit(s[d]) {
            Some(digits_end(s, d))
        } else {
            None
        }
    } else {
        Some(c)
    }
}

/// End of a JSON number starting at `i`.
pub open spec fn number_end(s: Seq<u8>, i: int) -> Option<int> {
    let a = if at(s, i, 0x2d) {
        i + 1
    } else {
        i
    };
    if at(s, a, 0x30) {
        fraction_end(s, a + 1)
    } else if 0 <= a < s.len() && is_digit(s[a]) {
        fraction_end(s, digits_end(s, a))
    } else {
        None
    }
}

pub open spec fn fraction_end(s: Seq<u8>, b: int) -> Option<int> {
    if at(s, b, 0x2e) {
        if 0 <= b + 1 < s.len() && is_digit(s[b + 1]) {
            exponent_end(s, digits_end(s, b + 1))
        } else {
            None
        }
    } else {
        exponent_end(s, b)
    }
}

pub open spec fn is_simple_escape(b: u8) -> bool {
    b == 0x22 || b == 0x5c || b == 0x2f || b == 0x62 || b == 0x66 || b == 0x6e || b == 0x72
        || b == 0x74
}

/// End of the rest of a JSON string whose opening quote lies before `j`:
/// the position after the closing quote.
pub open spec fn string_rest_end(s: Seq<u8>, j: int) -> Option<int>
    decreases s.len() - j,
{
    if j < 0 || j >= s.len() {
        None
    } else if s[j] == 0x22 {
        Some(j + 1)
    } else if s[j] == 0x5c {
        if 0 <= j + 1 < s.len() && is_simple_escape(s[j + 1]) {
            string_rest_end(s, j + 2)
        } else if j + 5 < s.len() && s[j + 1] == 0x75 && is_hex(s[j + 2]) && is_hex(s[j + 3])
            && is_hex(s[j + 4]) && is_hex(s[j + 5]) {
            string_rest_end(s, j + 6)
        } else {
            None
        }
    } else if s[j] < 0x20 {
        None
    } else {
        string_rest_end(s, j + 1)
    }
}

pub open spec fn string_end(s: Seq<u8>, i: int) -> Option<int> {
    if at(s, i, 0x22) {
        string_rest_end(s, i + 1)
    } else {
        None
    }
}

/// End of `true`, `false` or `null` at `i`.
pub open spec fn literal_end(s: Seq<u8>, i: int) -> Option<int> {
    if at(s, i, 0x74) && at(s, i + 1, 0x72) && at(s, i + 2, 0x75) && at(s, i + 3, 0x65) {
        Some(i + 4)
    } else if at(s, i, 0x66) && at(s, i + 1, 0x61) && at(s, i + 2, 0x6c) && at(s, i + 3, 0x73)
        && at(s, i + 4, 0x65) {
        Some(i + 5)
    } else if at(s, i, 0x6e) && at(s, i + 1, 0x75) && at(s, i + 2, 0x6c) && at(s, i + 3, 0x6c) {
        Some(i + 4)
    } else {
        None
    }
}

/// How deeply arrays and objects may nest in a reason.
pub const MAX_DEPTH: usize = 128;

/// End of the JSON value at `i`, with arrays and objects nested at most
/// `depth` deep. Each call consumes at least one byte and one unit of
/// `fuel`, so a fuel of `s.len()` is never the limit.
pub open spec fn value_end(s: Seq<u8>, i: int, fuel: nat, depth: nat) -> Option<int>
    decreases fuel, 2nat,
{
    if fuel == 0 {
        None
    } else if at(s, i, 0x7b) {
        let j = skip_ws(s, i + 1);
        if depth == 0 {
            None
        } else if at(s, j, 0x7d) {
            Some(j + 1)
        } else {
            members_end(s, j, (fuel - 1) as nat, (depth - 1) as nat)
        }
    } else if at(s, i, 0x5b) {
        let j = skip_ws(s, i + 1);
        if depth == 0 {
            None
        } else if at(s, j, 0x5d) {
            Some(j + 1)
        } else {
            elements_end(s, j, (fuel - 1) as nat, (depth - 1) as nat)
        }
    } else if at(s, i, 0x22) {
        string_end(s, i)
    } else if at(s, i, 0x2d) || (0 <= i < s.len() && is_digit(s[i])) {
        number_end(s, i)
    } else {
        literal_end(s, i)
    }
}

/// End of the members of an object from `j` on, closing brace included.
pub open spec fn members_end(s: Seq<u8>, j: int, fuel: nat, depth: nat) -> Option<int>
    decreases fuel, 1nat,
{
    if fuel == 0 {
        None
    } else {
        match string_end(s, j) {
            None => None,
            Some(k) => {
                let c = skip_ws(s, k);
                if !at(s, c, 0x3a) {
                    None
                } else {
                    match value_end(s, skip_ws(s, c + 1), (fuel - 1) as nat, depth) {
                        None => None,
                        Some(v) => {
                            let d = skip_ws(s, v);
                            if at(s, d, 0x2c) {
                                members_end(s, skip_ws(s, d + 1), (fuel - 1) as nat, depth)
                            } else if at(s, d, 0x7d) {
                                Some(d + 1)
                            } else {
                                None
                            }
                        },
                    }
                }
            },
        }
    }
}

/// End of the elements of an array from `j` on, closing bracket included.
pub open spec fn elements_end(s: Seq<u8>, j: int, fuel: nat, depth: nat) -> Option<int>
    decreases fuel, 1nat,
{
    if fuel == 0 {
        None
    } else {
        match value_end(s, j, (fuel - 1) as nat, depth) {
            None => None,
            Some(v) => {
                let d = skip_ws(s, v);
                if at(s, d, 0x2c) {
                    elements_end(s, skip_ws(s, d + 1), (fuel - 1) as nat, depth)
                } else if at(s, d, 0x5d) {
                    Some(d + 1)
                } else {
                    None
                }
            },
        }
    }
}

pub open spec fn as_int(r: Option<usize>) -> Option<int> {
    match r {
        Some(k) => Some(k as int),
        None => None,
    }
}

fn is_ws_byte(b: u8) -> (r: bool)
    ensures
        r == is_ws(b),
{
    b == 0x20 || b == 0x09 || b == 0x0a || b == 0x0d
}

fn is_digit_byte(b: u8) -> (r: bool)
    ensures
        r == is_digit(b),
{
    0x30 <= b && b <= 0x39
}

fn is_hex_byte(b: u8) -> (r: bool)
    ensures
        r == is_hex(b),
{
    is_digit_byte(b) || (0x41 <= b && b <= 0x46) || (0x61 <= b && b <= 0x66)
}

fn byte_at(s: &[u8], i: usize, b: u8) -> (r: bool)
    ensures
        r == at(s@, i as int, b),
{
    i < s.len() && s[i] == b
}

fn skip_ws_exec(s: &[u8], i: usize) -> (r: usize)
    requires
        i <= s.len(),
    ensures
        r as int == skip_ws(s@, i as int),
        i <= r <= s.len(),
{
    let mut j = i;
    while j < s.len() && is_ws_byte(s[j])
        invariant
            i <= j <= s.len(),
            skip_ws(s@, j as int) == skip_ws(s@, i as int),
        decreases s.len() - j,
    {
        j += 1;
    }
    j
}

fn digits_end_exec(s: &[u8], i: usize) -> (r: usize)
    requires
        i <= s.len(),
    ensures
        r as int == digits_end(s@, i as int),
        i <= r <= s.len(),
{
    let mut j = i;
    while j < s.len() && is_digit_byte(s[j])
        invariant
            i <= j <= s.len(),
            digits_end(s@, j as int) == digits_end(s@, i as int),
        decreases s.len() - j,
    {
        j += 1;
    }
    j
}

fn exponent_end_exec(s: &[u8], c: usize) -> (r: Option<usize>)
    requires
        c <= s.len(),
    ensures
        as_int(r) == exponent_end(s@, c as int),
        r matches Some(k) ==> c <= k <= s.len(),
{
    if byte_at(s, c, 0x65) || byte_at(s, c, 0x45) {
        let d = if byte_at(s, c + 1, 0x2b) || byte_at(s, c + 1, 0x2d) {
            c + 2
        } else {
            c + 1
        };
        if d < s.len() && is_digit_byte(s[d]) {
            Some(digits_end_exec(s, d))
        } else {
            None
        }
    } else {
        Some(c)
    }
}

fn fraction_end_exec(s: &[u8], b: usize) -> (r: Option<usize>)
    requires
        b <= s.len(),
    ensures
        as_int(r) == fraction_end(s@, b as int),
        r matches Some(k) ==> b <= k <= s.len(),
{
    if byte_at(s, b, 0x2e) {
        if b + 1 < s.len() && is_digit_byte(s[b + 1]) {
            let e = digits_end_exec(s, b + 1);
            exponent_end_exec(s, e)
        } else {
            None
        }
    } else {
        exponent_end_exec(s, b)
    }
}

fn number_end_exec(s: &[u8], i: usize) -> (r: Option<usize>)
    requires
        i <= s.len(),
    ensures
        as_int(r) == number_end(s@, i as int),
        r matches Some(k) ==> i <= k <= s.len(),
{
    let a = if byte_at(s, i, 0x2d) {
        i + 1
    } else {
        i
    };
    if byte_at(s, a, 0x30) {
        fraction_end_exec(s, a + 1)
    } else if a < s.len() && is_digit_byte(s[a]) {
        let e = digits_end_exec(s, a);
        fraction_end_exec(s, e)
    } else {
        None
    }
}

fn is_simple_escape_byte(b: u8) -> (r: bool)
    ensures
        r == is_simple_escape(b),
{
    b == 0x22 || b == 0x5c || b == 0x2f || b == 0x62 || b == 0x66 || b == 0x6e || b == 0x72
        || b == 0x74
}

fn string_end_exec(s: &[u8], i: usize) -> (r: Option<usize>)
    requires
        i <= s.len(),
    ensures
        as_int(r) == string_end(s@, i as int),
        r matches Some(k) ==> i + 2 <= k <= s.len(),
{
    if !byte_at(s, i, 0x22) {
        return None;
    }
    let mut j = i + 1;
    while j < s.len()
        invariant
            i < j <= s.len() + 1,
            string_rest_end(s@, j as int) == string_end(s@, i as int),
        decreases s.len() + 1 - j,
    {
        let b = s[j];
        if b == 0x22 {
            return Some(j + 1);
        } else if b == 0x5c {
            if j + 1 < s.len() && is_simple_escape_byte(s[j + 1]) {
                j = j + 2;
            } else if s.len() - j > 5 && s[j + 1] == 0x75 && is_hex_byte(s[j + 2]) && is_hex_byte(
                s[j + 3],
            ) && is_hex_byte(s[j + 4]) && is_hex_byte(s[j + 5]) {
                j = j + 6;
            } else {
                return None;
            }
        } else if b < 0x20 {
            return None;
        } else {
            j = j + 1;
        }
    }
    None
}

fn literal_end_exec(s: &[u8], i: usize) -> (r: Option<usize>)
    requires
        i <= s.len(),
    ensures
        as_int(r) == literal_end(s@, i as int),
        r matches Some(k) ==> i <= k <= s.len(),
{
    if byte_at(s, i, 0x74) && byte_at(s, i + 1, 0x72) && byte_at(s, i + 2, 0x75) && byte_at(
        s,
        i + 3,
        0x65,
    ) {
        Some(i + 4)
    } else if byte_at(s, i, 0x66) && byte_at(s, i + 1, 0x61) && byte_at(s, i + 2, 0x6c)
        && byte_at(s, i + 3, 0x73) && byte_at(s, i + 4, 0x65) {
        Some(i + 5)
    } else if byte_at(s, i, 0x6e) && byte_at(s, i + 1, 0x75) && byte_at(s, i + 2, 0x6c)
        && byte_at(s, i + 3, 0x6c) {
        Some(i + 4)
    } else {
        None
    }
}

fn value_end_exec(s: &[u8], i: usize, fuel: usize, depth: usize) -> (r: Option<usize>)
    requires
        i <= s.len(),
    ensures
        as_int(r) == value_end(s@, i as int, fuel as nat, depth as nat),
        r matches Some(k) ==> i <= k <= s.len(),
    decreases fuel, 2nat,
{
    if fuel == 0 {
        None
    } else if byte_at(s, i, 0x7b) {
        let j = skip_ws_exec(s, i + 1);
        if depth == 0 {
            None
        } else if byte_at(s, j, 0x7d) {
            Some(j + 1)
        } else {
            members_end_exec(s, j, fuel - 1, depth - 1)
        }
    } else if byte_at(s, i, 0x5b) {
        let j = skip_ws_exec(s, i + 1);
        if depth == 0 {
            None
        } else if byte_at(s, j, 0x5d) {
            Some(j + 1)
        } else {
            elements_end_exec(s, j, fuel - 1, depth - 1)
        }
    } else if byte_at(s, i, 0x22) {
        string_end_exec(s, i)
    } else if byte_at(s, i, 0x2d) || (i < s.len() && is_digit_byte(s[i])) {
        number_end_exec(s, i)
    } else {
        literal_end_exec(s, i)
    }
}

fn members_end_exec(s: &[u8], j: usize, fuel: usize, depth: usize) -> (r: Option<usize>)
    requires
        j <= s.len(),
    ensures
        as_int(r) == members_end(s@, j as int, fuel as nat, depth as nat),
        r matches Some(k) ==> j <= k <= s.len(),
    decreases fuel, 1nat,
{
    let mut pos = j;
    let mut f = fuel;
    loop
        invariant
            j <= pos <= s.len(),
            f <= fuel,
            members_end(s@, pos as int, f as nat, depth as nat) == members_end(
                s@,
                j as int,
                fuel as nat,
                depth as nat,
            ),
        decreases f,
    {
        if f == 0 {
            return None;
        }
        let k = match string_end_exec(s, pos) {
            None => return None,
            Some(k) => k,
        };
        let c = skip_ws_exec(s, k);
        if !byte_at(s, c, 0x3a) {
            return None;
        }
        let vs = skip_ws_exec(s, c + 1);
        let v = match value_end_exec(s, vs, f - 1, depth) {
            None => return None,
            Some(v) => v,
        };
        let d = skip_ws_exec(s, v);
        if byte_at(s, d, 0x2c) {
            pos = skip_ws_exec(s, d + 1);
            f = f - 1;
        } else if byte_at(s, d, 0x7d) {
            return Some(d + 1);
        } else {
            return None;
        }
    }
}

fn elements_end_exec(s: &[u8], j: usize, fuel: usize, depth: usize) -> (r: Option<usize>)
    requires
        j <= s.len(),
    ensures
        as_int(r) == elements_end(s@, j as int, fuel as nat, depth as nat),
        r matches Some(k) ==> j <= k <= s.len(),
    decreases fuel, 1nat,
{
    let mut pos = j;
    let mut f = fuel;
    loop
        invariant
            j <= pos <= s.len(),
            f <= fuel,
            elements_end(s@, pos as int, f as nat, depth as nat) == elements_end(
                s@,
                j as int,
                fuel as nat,
                depth as nat,
            ),
        decreases f,
    {
        if f == 0 {
            return None;
        }
        let v = match value_end_exec(s, pos, f - 1, depth) {
            None => return None,
            Some(v) => v,
        };
        let d = skip_ws_exec(s, v);
        if byte_at(s, d, 0x2c) {
            pos = skip_ws_exec(s, d + 1);
            f = f - 1;
        } else if byte_at(s, d, 0x5d) {
            return Some(d + 1);
        } else {
            return None;
        }
    }
}

/// The key string at `j` is exactly `"message"`.
pub open spec fn names_message(s: Seq<u8>, j: int) -> bool {
    &&& at(s, j, 0x22)
    &&& at(s, j + 1, 0x6d)
    &&& at(s, j + 2, 0x65)
    &&& at(s, j + 3, 0x73)
    &&& at(s, j + 4, 0x73)
    &&& at(s, j + 5, 0x61)
    &&& at(s, j + 6, 0x67)
    &&& at(s, j + 7, 0x65)
    &&& at(s, j + 8, 0x22)
}

/// Among the members of an object from `j` on, the first one named
/// `message`: the span of its string value between the quotes; `None` where
/// there is no such member or its value is no string.
pub open spec fn message_span(s: Seq<u8>, j: int, fuel: nat, depth: nat) -> Option<(int, int)>
    decreases fuel,
{
    if fuel == 0 {
        None
    } else {
        match string_end(s, j) {
            None => None,
            Some(k) => {
                let c = skip_ws(s, k);
                if !at(s, c, 0x3a) {
                    None
                } else {
                    let vs = skip_ws(s, c + 1);
                    match value_end(s, vs, (fuel - 1) as nat, depth) {
                        None => None,
                        Some(v) => if names_message(s, j) {
                            if at(s, vs, 0x22) {
                                Some((vs + 1, v - 1))
                            } else {
                                None
                            }
                        } else {
                            let d = skip_ws(s, v);
                            if at(s, d, 0x2c) {
                                message_span(s, skip_ws(s, d + 1), (fuel - 1) as nat, depth)
                            } else {
                                None
                            }
                        },
                    }
                }
            },
        }
    }
}

/// `s` is one JSON object, with whitespace around it, nesting at most
/// `MAX_DEPTH` deep.
pub open spec fn is_json_object(s: Seq<u8>) -> bool {
    let w = skip_ws(s, 0);
    &&& at(s, w, 0x7b)
    &&& value_end(s, w, s.len(), MAX_DEPTH as nat) matches Some(e)
    &&& skip_ws(s, e) == s.len()
}

/// The span of the `message` string of the object `s`.
pub open spec fn reason_message(s: Seq<u8>) -> Option<(int, int)> {
    message_span(s, skip_ws(s, skip_ws(s, 0) + 1), s.len(), (MAX_DEPTH - 1) as nat)
}

/// `s` is a termination reason: a JSON object with a string member `message`.
pub open spec fn is_reason(s: Seq<u8>) -> bool {
    is_json_object(s) && reason_message(s) is Some
}

fn names_message_exec(s: &[u8], j: usize) -> (r: bool)
    ensures
        r == names_message(s@, j as int),
{
    s.len() >= 9 && j <= s.len() - 9 && s[j] == 0x22 && s[j + 1] == 0x6d && s[j + 2] == 0x65
        && s[j + 3] == 0x73 && s[j + 4] == 0x73 && s[j + 5] == 0x61 && s[j + 6] == 0x67 && s[j
        + 7] == 0x65 && s[j + 8] == 0x22
}

fn message_span_exec(s: &[u8], j: usize, fuel: usize, depth: usize) -> (r: Option<(usize, usize)>)
    requires
        j <= s.len(),
    ensures
        match r {
            Some((a, b)) => message_span(s@, j as int, fuel as nat, depth as nat) == Some(
                (a as int, b as int),
            ) && a <= b <= s.len(),
            None => message_span(s@, j as int, fuel as nat, depth as nat) is None,
        },
{
    let mut pos = j;
    let mut f = fuel;
    loop
        invariant
            pos <= s.len(),
            message_span(s@, pos as int, f as nat, depth as nat) == message_span(
                s@,
                j as int,
                fuel as nat,
                depth as nat,
            ),
        decreases f,
    {
        if f == 0 {
            return None;
        }
        let k = match string_end_exec(s, pos) {
            None => return None,
            Some(k) => k,
        };
        let c = skip_ws_exec(s, k);
        if !byte_at(s, c, 0x3a) {
            return None;
        }
        let vs = skip_ws_exec(s, c + 1);
        let v = match value_end_exec(s, vs, f - 1, depth) {
            None => return None,
            Some(v) => v,
        };
        if names_message_exec(s, pos) {
            if byte_at(s, vs, 0x22) {
                return match string_end_exec(s, vs) {
                    Some(e) => Some((vs + 1, e - 1)),
                    None => None,
                };
            } else {
                return None;
            }
        }
        let d = skip_ws_exec(s, v);
        if byte_at(s, d, 0x2c) {
            pos = skip_ws_exec(s, d + 1);
            f = f - 1;
        } else {
            return None;
        }
    }
}

/// The reason can be cut out of `s` at the two ends of its message span.
pub open spec fn splits_at(s: Seq<u8>, a: int, b: int) -> bool {
    is_char_boundary(s, a) && is_char_boundary(s.subrange(a, s.len() as int), b - a)
}

/// `s` is a reason that `Reason::from_json` accepts.
pub open spec fn reason_text_ok(s: Seq<u8>) -> bool {
    is_reason(s) && splits_at(s, reason_message(s).unwrap().0, reason_message(s).unwrap().1)
}

/// Why an agreement was terminated: a JSON object with a string member
/// `message`, kept as it was given.
pub struct Reason {
    message: String,
    json: String,
}

impl Reason {
    /// The object as given.
    pub closed spec fn json_text(&self) -> Seq<char> {
        self.json@
    }

    /// The `message` string as written in the object, escapes kept.
    pub closed spec fn message_text(&self) -> Seq<char> {
        self.message@
    }

    #[verifier::type_invariant]
    pub open spec fn inv(&self) -> bool {
        self.wf()
    }

    pub open spec fn wf(&self) -> bool {
        let s = encode_utf8(self.json_text());
        &&& is_reason(s)
        &&& encode_utf8(self.message_text()) == s.subrange(
            reason_message(s).unwrap().0,
            reason_message(s).unwrap().1,
        )
    }

    /// Reads a termination reason; text that is not a JSON object with a
    /// string member `message`, or that nests deeper than `MAX_DEPTH`, is
    /// refused with `BadReason`.
    pub fn from_json(text: &str) -> (r: Result<Reason, AgreementError>)
        ensures
            r is Ok <==> reason_text_ok(text.spec_bytes()),
            match r {
                Ok(reason) => reason.wf() && reason.json_text() == text@,
                Err(e) => e == AgreementError::BadReason,
            },
    {
        let s = text.as_bytes();
        let w = skip_ws_exec(s, 0);
        if !byte_at(s, w, 0x7b) {
            return Err(AgreementError::BadReason);
        }
        match value_end_exec(s, w, s.len(), MAX_DEPTH) {
            Some(e) => {
                if skip_ws_exec(s, e) != s.len() {
                    return Err(AgreementError::BadReason);
                }
            },
            None => return Err(AgreementError::BadReason),
        }
        let j = skip_ws_exec(s, w + 1);
        let (a, b) = match message_span_exec(s, j, s.len(), MAX_DEPTH - 1) {
            Some(span) => span,
            None => return Err(AgreementError::BadReason),
        };
        if !text.is_char_boundary(a) {
            return Err(AgreementError::BadReason);
        }
        let (_, tail) = text.split_at(a);
        if !tail.is_char_boundary(b - a) {
            return Err(AgreementError::BadReason);
        }
        let (m, _) = tail.split_at(b - a);
        let message = m.to_owned();
        let json = text.to_owned();
        proof {
            assert(s@.subrange(a as int, s@.len() as int).subrange(0, (b - a) as int) =~= s@.subrange(
                a as int,
                b as int,
            ));
        }
        Ok(Reason { message, json })
    }

    /// The `message` string as written in the object, escapes kept.
    pub fn message(&self) -> (r: String)
        ensures
            r@ == self.message_text(),
    {
        self.message.clone()
    }

    /// The object as given.
    pub fn json(&self) -> (r: String)
        ensures
            r@ == self.json_text(),
    {
        self.json.clone()
    }

    pub fn duplicate(&self) -> (r: Reason)
        ensures
            r == *self,
    {
        proof {
            use_type_invariant(self);
        }
        Reason { message: self.message.clone(), json: self.json.clone() }
    }
}

} // verus!
