//! The plugin's data model: safe-area insets and keyboard information.
//!
//! Numeric fields hold the decimal text of the number exactly as it stands on
//! the wire (`"0.0"`, `"1.5"`, `"-2e-3"`): the plugin never computes with the
//! values, it only carries them between the host and the native side, so the
//! wire token is the value. A host that wants machine numbers converts the
//! tokens at its own boundary.

use vstd::prelude::*;
use vstd::string::*;

verus! {

/// Whether `c` may occur in the decimal text of a number.
pub open spec fn is_num_char(c: char) -> bool {
    ('0' <= c && c <= '9') || c == '-' || c == '+' || c == '.' || c == 'e' || c == 'E'
}

/// Whether `c` is a decimal digit.
pub open spec fn is_digit(c: char) -> bool {
    '0' <= c && c <= '9'
}

/// Where the run of digits that starts at `i` stops.
pub open spec fn digits_end(s: Seq<char>, i: int) -> int
    decreases s.len() - i,
{
    if 0 <= i < s.len() && is_digit(s[i]) {
        digits_end(s, i + 1)
    } else {
        i
    }
}

/// The digit run from `i` spans exactly `[i, digits_end(s, i))`.
pub proof fn lemma_digits_end(s: Seq<char>, i: int)
    requires
        0 <= i <= s.len(),
    ensures
        i <= digits_end(s, i) <= s.len(),
        forall|k: int| i <= k < digits_end(s, i) ==> is_digit(#[trigger] s[k]),
        digits_end(s, i) == s.len() || !is_digit(s[digits_end(s, i)]),
    decreases s.len() - i,
{
    if i < s.len() && is_digit(s[i]) {
        lemma_digits_end(s, i + 1);
    }
}

/// Where the optional leading minus sign ends.
pub open spec fn sign_end(s: Seq<char>) -> int {
    if s.len() > 0 && s[0] == '-' {
        1
    } else {
        0
    }
}

/// Where the integer part ends: one `0`, or a digit run not starting with
/// `0`. Yields -1 when there is no integer part.
pub open spec fn after_int(s: Seq<char>) -> int {
    let i = sign_end(s);
    if i < s.len() && is_digit(s[i]) {
        if s[i] == '0' {
            i + 1
        } else {
            digits_end(s, i)
        }
    } else {
        -1
    }
}

/// Where the optional fraction ends: a point followed by at least one
/// digit. Yields -1 when the text up to here is no number.
pub open spec fn after_frac(s: Seq<char>) -> int {
    let i = after_int(s);
    if i == -1 {
        -1
    } else if i < s.len() && s[i] == '.' {
        if digits_end(s, i + 1) > i + 1 {
            digits_end(s, i + 1)
        } else {
            -1
        }
    } else {
        i
    }
}

/// Where the optional exponent ends: `e` or `E`, an optional sign, and at
/// least one digit. Yields -1 when the text up to here is no number.
pub open spec fn after_exp(s: Seq<char>) -> int {
    let i = after_frac(s);
    if i == -1 {
        -1
    } else if i < s.len() && (s[i] == 'e' || s[i] == 'E') {
        let j = if i + 1 < s.len() && (s[i + 1] == '+' || s[i + 1] == '-') {
            i + 2
        } else {
            i + 1
        };
        if digits_end(s, j) > j {
            digits_end(s, j)
        } else {
            -1
        }
    } else {
        i
    }
}

/// Whether `s` is a number token: the JSON text of a number — an optional
/// minus sign, an integer part without leading zeroes, an optional fraction
/// and an optional exponent, and nothing after them.
pub open spec fn is_number_token(s: Seq<char>) -> bool {
    after_exp(s) == s.len()
}

/// A number token is non-empty, made of number characters only, starts with
/// a digit or a minus sign, and ends with a digit.
pub proof fn lemma_number_token_shape(s: Seq<char>)
    requires
        is_number_token(s),
    ensures
        s.len() > 0,
        is_digit(s[0]) || s[0] == '-',
        is_digit(s[s.len() - 1]),
        forall|k: int| 0 <= k < s.len() ==> is_num_char(#[trigger] s[k]),
{
    let i = sign_end(s);
    let int_end = after_int(s);
    let frac_end = after_frac(s);
    lemma_digits_end(s, i);
    if int_end != -1 && int_end < s.len() && s[int_end] == '.' {
        lemma_digits_end(s, int_end + 1);
    }
    if frac_end != -1 && frac_end < s.len() && (s[frac_end] == 'e' || s[frac_end] == 'E') {
        if frac_end + 1 < s.len() && (s[frac_end + 1] == '+' || s[frac_end + 1] == '-') {
            lemma_digits_end(s, frac_end + 2);
        } else {
            lemma_digits_end(s, frac_end + 1);
        }
    }
    assert forall|k: int| 0 <= k < s.len() implies is_num_char(#[trigger] s[k]) by {}
}

/// Finds where the run of digits that starts at `i` stops.
fn scan_digits(s: &str, i: usize) -> (j: usize)
    requires
        i <= s@.len(),
    ensures
        i <= j <= s@.len(),
        j == digits_end(s@, i as int),
{
    let n = s.unicode_len();
    let mut j: usize = i;
    while j < n
        invariant
            n == s@.len(),
            i <= j <= n,
            digits_end(s@, i as int) == digits_end(s@, j as int),
        decreases n - j,
    {
        let c = s.get_char(j);
        if !('0' <= c && c <= '9') {
            return j;
        }
        j += 1;
    }
    j
}

/// Decides `is_number_token` for a given string.
pub fn check_number_token(s: &str) -> (b: bool)
    ensures
        b == is_number_token(s@),
{
    let n = s.unicode_len();
    let mut i: usize = 0;
    if n > 0 && s.get_char(0) == '-' {
        i = 1;
    }
    if i >= n {
        return false;
    }
    let c = s.get_char(i);
    if !('0' <= c && c <= '9') {
        return false;
    }
    let int_end = if c == '0' {
        i + 1
    } else {
        scan_digits(s, i)
    };
    let frac_end = if int_end < n && s.get_char(int_end) == '.' {
        let fe = scan_digits(s, int_end + 1);
        if fe == int_end + 1 {
            return false;
        }
        fe
    } else {
        int_end
    };
    if frac_end < n {
        let e = s.get_char(frac_end);
        if e == 'e' || e == 'E' {
            let mut j = frac_end + 1;
            if j < n {
                let sc = s.get_char(j);
                if sc == '+' || sc == '-' {
                    j = j + 1;
                }
            }
            let exp_end = scan_digits(s, j);
            if exp_end == j {
                return false;
            }
            return exp_end == n;
        }
    }
    frac_end == n
}

/// The token that stands for the number zero on the wire.
pub open spec fn zero_token() -> Seq<char> {
    "0.0"@
}

/// The zero token is a well-formed number token.
pub proof fn lemma_zero_token_wf()
    ensures
        is_number_token(zero_token()),
{
    reveal_strlit("0.0");
    let s = zero_token();
    assert(s.len() == 3 && s[0] == '0' && s[1] == '.' && s[2] == '0');
    assert(digits_end(s, 3) == 3);
    assert(digits_end(s, 2) == 3);
    assert(after_int(s) == 1);
    assert(after_frac(s) == 3);
    assert(after_exp(s) == 3);
}

/// Per-edge distances, in logical pixels, of the screen regions obstructed by
/// device hardware. A fresh snapshot is produced for every query.
#[derive(Clone, Debug)]
pub struct SafeAreaInsets {
    pub top: String,
    pub right: String,
    pub bottom: String,
    pub left: String,
}

impl SafeAreaInsets {
    /// Every field holds a well-formed number token.
    pub open spec fn wf(&self) -> bool {
        &&& is_number_token(self.top@)
        &&& is_number_token(self.right@)
        &&& is_number_token(self.bottom@)
        &&& is_number_token(self.left@)
    }

    /// Whether every field holds the zero token.
    pub open spec fn is_zero(&self) -> bool {
        &&& self.top@ == zero_token()
        &&& self.right@ == zero_token()
        &&& self.bottom@ == zero_token()
        &&& self.left@ == zero_token()
    }
}

impl Default for SafeAreaInsets {
    /// The all-zero insets record.
    fn default() -> (d: Self)
        ensures
            d.is_zero(),
            d.wf(),
    {
        proof {
            lemma_zero_token_wf();
        }
        SafeAreaInsets {
            top: String::from_str("0.0"),
            right: String::from_str("0.0"),
            bottom: String::from_str("0.0"),
            left: String::from_str("0.0"),
        }
    }
}

/// The height, in logical pixels, of the on-screen keyboard, and whether it
/// is currently shown. A fresh snapshot is produced for every query.
#[derive(Clone, Debug)]
pub struct KeyboardInfo {
    pub keyboard_height: String,
    pub is_visible: bool,
}

impl KeyboardInfo {
    /// The height field holds a well-formed number token.
    pub open spec fn wf(&self) -> bool {
        is_number_token(self.keyboard_height@)
    }

    /// Whether this is the resting state: zero height, not visible.
    pub open spec fn is_zero(&self) -> bool {
        &&& self.keyboard_height@ == zero_token()
        &&& !self.is_visible
    }
}

impl Default for KeyboardInfo {
    /// Zero height, not visible.
    fn default() -> (d: Self)
        ensures
            d.is_zero(),
            d.wf(),
    {
        proof {
            lemma_zero_token_wf();
        }
        KeyboardInfo { keyboard_height: String::from_str("0.0"), is_visible: false }
    }
}

} // verus!
