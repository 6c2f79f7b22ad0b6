//! The wire encoding of the data model: the JSON object text, with
//! lower-camel-case keys, that the host's UI layer and the platform-native
//! side exchange. Encoding and decoding are exact inverses on well-formed
//! records: the encoder emits the one canonical text of a record, and the
//! decoder accepts exactly those texts.

use vstd::prelude::*;
use vstd::string::*;

use crate::error::Error;
use crate::models::KeyboardInfo;
use crate::models::SafeAreaInsets;
use crate::models::check_number_token;
use crate::models::is_num_char;
use crate::models::lemma_number_token_shape;

verus! {

/// The opening of the insets object, up to the first value.
pub open spec fn key_top() -> Seq<char> {
    "{\"top\":"@
}

/// The separator between the top value and the right value.
pub open spec fn key_right() -> Seq<char> {
    ",\"right\":"@
}

/// The separator between the right value and the bottom value.
pub open spec fn key_bottom() -> Seq<char> {
    ",\"bottom\":"@
}

/// The separator between the bottom value and the left value.
pub open spec fn key_left() -> Seq<char> {
    ",\"left\":"@
}

/// The opening of the keyboard object, up to the height value.
pub open spec fn key_keyboard_height() -> Seq<char> {
    "{\"keyboardHeight\":"@
}

/// The separator between the height value and the visibility value.
pub open spec fn key_is_visible() -> Seq<char> {
    ",\"isVisible\":"@
}

/// The closing brace of either object.
pub open spec fn close_brace() -> Seq<char> {
    "}"@
}

/// The wire text of a boolean.
pub open spec fn bool_token(b: bool) -> Seq<char> {
    if b {
        "true"@
    } else {
        "false"@
    }
}

/// The one wire text of an insets record: a JSON object with the keys
/// `top`, `right`, `bottom`, `left`, in that order, each holding the
/// record's number token for that edge.
pub open spec fn spec_encode_insets(v: SafeAreaInsets) -> Seq<char> {
    key_top() + v.top@ + key_right() + v.right@ + key_bottom() + v.bottom@ + key_left()
        + v.left@ + close_brace()
}

/// The one wire text of a keyboard record: a JSON object with the keys
/// `keyboardHeight` and `isVisible`, in that order.
pub open spec fn spec_encode_keyboard(v: KeyboardInfo) -> Seq<char> {
    key_keyboard_height() + v.keyboard_height@ + key_is_visible() + bool_token(v.is_visible)
        + close_brace()
}

/// `end` is where the run of number characters that starts at `start` stops:
/// everything before it from `start` on is a number character, and it is the
/// end of the text or a character no number contains.
pub open spec fn run_ends_at(s: Seq<char>, start: int, end: int) -> bool {
    &&& start <= end <= s.len()
    &&& forall|k: int| start <= k < end ==> is_num_char(#[trigger] s[k])
    &&& (end == s.len() || !is_num_char(s[end]))
}

/// A run of number characters has exactly one end.
proof fn lemma_run_end_unique(s: Seq<char>, start: int, e1: int, e2: int)
    requires
        run_ends_at(s, start, e1),
        run_ends_at(s, start, e2),
    ensures
        e1 == e2,
{
    if e1 < e2 {
        assert(is_num_char(s[e1]));
    }
    if e2 < e1 {
        assert(is_num_char(s[e2]));
    }
}

/// Where the top token starts in an insets text.
pub open spec fn top_start() -> int {
    key_top().len() as int
}

/// Where the top token ends in the text of `v`.
pub open spec fn top_end(v: SafeAreaInsets) -> int {
    top_start() + v.top@.len()
}

/// Where the right token starts in the text of `v`.
pub open spec fn right_start(v: SafeAreaInsets) -> int {
    top_end(v) + key_right().len()
}

/// Where the right token ends in the text of `v`.
pub open spec fn right_end(v: SafeAreaInsets) -> int {
    right_start(v) + v.right@.len()
}

/// Where the bottom token starts in the text of `v`.
pub open spec fn bottom_start(v: SafeAreaInsets) -> int {
    right_end(v) + key_bottom().len()
}

/// Where the bottom token ends in the text of `v`.
pub open spec fn bottom_end(v: SafeAreaInsets) -> int {
    bottom_start(v) + v.bottom@.len()
}

/// Where the left token starts in the text of `v`.
pub open spec fn left_start(v: SafeAreaInsets) -> int {
    bottom_end(v) + key_left().len()
}

/// Where the left token ends in the text of `v`.
pub open spec fn left_end(v: SafeAreaInsets) -> int {
    left_start(v) + v.left@.len()
}

/// How the wire text of a well-formed insets record falls into pieces:
/// each key and token stands at its computed position, and each token is a
/// full run of number characters, stopped by the separator after it.
proof fn lemma_insets_parts(v: SafeAreaInsets, s: Seq<char>)
    requires
        v.wf(),
        s == spec_encode_insets(v),
    ensures
        s.len() == left_end(v) + close_brace().len(),
        s.subrange(0, top_start()) == key_top(),
        s.subrange(top_start(), top_end(v)) == v.top@,
        run_ends_at(s, top_start(), top_end(v)),
        s.subrange(top_end(v), right_start(v)) == key_right(),
        s.subrange(right_start(v), right_end(v)) == v.right@,
        run_ends_at(s, right_start(v), right_end(v)),
        s.subrange(right_end(v), bottom_start(v)) == key_bottom(),
        s.subrange(bottom_start(v), bottom_end(v)) == v.bottom@,
        run_ends_at(s, bottom_start(v), bottom_end(v)),
        s.subrange(bottom_end(v), left_start(v)) == key_left(),
        s.subrange(left_start(v), left_end(v)) == v.left@,
        run_ends_at(s, left_start(v), left_end(v)),
        s.subrange(left_end(v), s.len() as int) == close_brace(),
{
    reveal_strlit("{\"top\":");
    reveal_strlit(",\"right\":");
    reveal_strlit(",\"bottom\":");
    reveal_strlit(",\"left\":");
    reveal_strlit("}");
    lemma_number_token_shape(v.top@);
    lemma_number_token_shape(v.right@);
    lemma_number_token_shape(v.bottom@);
    lemma_number_token_shape(v.left@);
    assert(s.subrange(0, top_start()) =~= key_top());
    assert(s.subrange(top_start(), top_end(v)) =~= v.top@);
    assert(s.subrange(top_end(v), right_start(v)) =~= key_right());
    assert(s.subrange(right_start(v), right_end(v)) =~= v.right@);
    assert(s.subrange(right_end(v), bottom_start(v)) =~= key_bottom());
    assert(s.subrange(bottom_start(v), bottom_end(v)) =~= v.bottom@);
    assert(s.subrange(bottom_end(v), left_start(v)) =~= key_left());
    assert(s.subrange(left_start(v), left_end(v)) =~= v.left@);
    assert(s.subrange(left_end(v), s.len() as int) =~= close_brace());
    assert forall|k: int| top_start() <= k < top_end(v) implies is_num_char(
        #[trigger] s[k],
    ) by {
        assert(s.subrange(top_start(), top_end(v))[k - top_start()] == s[k]);
    }
    assert forall|k: int| right_start(v) <= k < right_end(v) implies is_num_char(
        #[trigger] s[k],
    ) by {
        assert(s.subrange(right_start(v), right_end(v))[k - right_start(v)] == s[k]);
    }
    assert forall|k: int| bottom_start(v) <= k < bottom_end(v) implies is_num_char(
        #[trigger] s[k],
    ) by {
        assert(s.subrange(bottom_start(v), bottom_end(v))[k - bottom_start(v)] == s[k]);
    }
    assert forall|k: int| left_start(v) <= k < left_end(v) implies is_num_char(
        #[trigger] s[k],
    ) by {
        assert(s.subrange(left_start(v), left_end(v))[k - left_start(v)] == s[k]);
    }
    assert(s.subrange(top_end(v), right_start(v))[0] == s[top_end(v)]);
    assert(s.subrange(right_end(v), bottom_start(v))[0] == s[right_end(v)]);
    assert(s.subrange(bottom_end(v), left_start(v))[0] == s[bottom_end(v)]);
    assert(s.subrange(left_end(v), s.len() as int)[0] == s[left_end(v)]);
    assert(!is_num_char(s[top_end(v)]));
    assert(!is_num_char(s[right_end(v)]));
    assert(!is_num_char(s[bottom_end(v)]));
    assert(!is_num_char(s[left_end(v)]));
}

/// Where the height token starts in a keyboard text.
pub open spec fn height_start() -> int {
    key_keyboard_height().len() as int
}

/// Where the height token ends in the text of `v`.
pub open spec fn height_end(v: KeyboardInfo) -> int {
    height_start() + v.keyboard_height@.len()
}

/// Where the visibility token starts in the text of `v`.
pub open spec fn visible_start(v: KeyboardInfo) -> int {
    height_end(v) + key_is_visible().len()
}

/// Where the visibility token ends in the text of `v`.
pub open spec fn visible_end(v: KeyboardInfo) -> int {
    visible_start(v) + bool_token(v.is_visible).len()
}

/// How the wire text of a well-formed keyboard record falls into pieces.
proof fn lemma_keyboard_parts(v: KeyboardInfo, s: Seq<char>)
    requires
        v.wf(),
        s == spec_encode_keyboard(v),
    ensures
        s.len() == visible_end(v) + close_brace().len(),
        s.subrange(0, height_start()) == key_keyboard_height(),
        s.subrange(height_start(), height_end(v)) == v.keyboard_height@,
        run_ends_at(s, height_start(), height_end(v)),
        s.subrange(height_end(v), visible_start(v)) == key_is_visible(),
        s.subrange(visible_start(v), visible_end(v)) == bool_token(v.is_visible),
        s.subrange(visible_end(v), s.len() as int) == close_brace(),
{
    reveal_strlit("{\"keyboardHeight\":");
    reveal_strlit(",\"isVisible\":");
    reveal_strlit("true");
    reveal_strlit("false");
    reveal_strlit("}");
    lemma_number_token_shape(v.keyboard_height@);
    assert(s.subrange(0, height_start()) =~= key_keyboard_height());
    assert(s.subrange(height_start(), height_end(v)) =~= v.keyboard_height@);
    assert(s.subrange(height_end(v), visible_start(v)) =~= key_is_visible());
    assert(s.subrange(visible_start(v), visible_end(v)) =~= bool_token(v.is_visible));
    assert(s.subrange(visible_end(v), s.len() as int) =~= close_brace());
    assert forall|k: int| height_start() <= k < height_end(v) implies is_num_char(
        #[trigger] s[k],
    ) by {
        assert(s.subrange(height_start(), height_end(v))[k - height_start()] == s[k]);
    }
    assert(s.subrange(height_end(v), visible_start(v))[0] == s[height_end(v)]);
    assert(!is_num_char(s[height_end(v)]));
}

/// Reports whether `lit` stands in `s` at position `i`, and if so where it
/// ends.
fn expect_lit(s: &str, i: usize, lit: &str) -> (r: Option<usize>)
    requires
        i <= s@.len(),
    ensures
        r matches Some(j) ==> i + lit@.len() == j && j <= s@.len() && s@.subrange(
            i as int,
            j as int,
        ) == lit@,
        r is None ==> !(i + lit@.len() <= s@.len() && s@.subrange(
            i as int,
            i + lit@.len(),
        ) == lit@),
{
    let n = s.unicode_len();
    let m = lit.unicode_len();
    if m > n - i {
        return None;
    }
    let mut k: usize = 0;
    while k < m
        invariant
            n == s@.len(),
            m == lit@.len(),
            i + m <= n,
            k <= m,
            forall|t: int| 0 <= t < k ==> s@[i + t] == #[trigger] lit@[t],
        decreases m - k,
    {
        if s.get_char(i + k) != lit.get_char(k) {
            proof {
                assert(s@.subrange(i as int, i + m)[k as int] == s@[i + k]);
            }
            return None;
        }
        k += 1;
    }
    proof {
        assert(s@.subrange(i as int, i + m) =~= lit@);
    }
    Some(i + m)
}

/// Finds where the run of number characters that starts at `i` stops.
fn scan_run(s: &str, i: usize) -> (j: usize)
    requires
        i <= s@.len(),
    ensures
        i <= j <= s@.len(),
        run_ends_at(s@, i as int, j as int),
{
    let n = s.unicode_len();
    let mut j: usize = i;
    while j < n
        invariant
            n == s@.len(),
            i <= j <= n,
            forall|k: int| i <= k < j ==> is_num_char(#[trigger] s@[k]),
        decreases n - j,
    {
        let c = s.get_char(j);
        if !(('0' <= c && c <= '9') || c == '-' || c == '+' || c == '.' || c == 'e' || c
            == 'E') {
            return j;
        }
        j += 1;
    }
    j
}

/// The error returned whenever a record cannot be put on or read off the
/// wire.
fn serialization_error(what: &str) -> (e: Error)
    ensures
        e is Serialization,
{
    Error::Serialization { message: String::from_str(what) }
}

/// Writes the wire text of an insets record. Fails, and only fails, when a
/// field does not hold a number token.
pub fn encode_safe_area_insets(v: &SafeAreaInsets) -> (r: Result<String, Error>)
    ensures
        v.wf() ==> (r matches Ok(out) && out@ == spec_encode_insets(*v)),
        !v.wf() ==> (r matches Err(e) && e is Serialization),
{
    if !check_number_token(v.top.as_str()) || !check_number_token(v.right.as_str())
        || !check_number_token(v.bottom.as_str()) || !check_number_token(v.left.as_str()) {
        return Err(serialization_error("insets field is not a number token"));
    }
    let mut out = String::from_str("{\"top\":");
    out.append(v.top.as_str());
    out.append(",\"right\":");
    out.append(v.right.as_str());
    out.append(",\"bottom\":");
    out.append(v.bottom.as_str());
    out.append(",\"left\":");
    out.append(v.left.as_str());
    out.append("}");
    Ok(out)
}

/// Writes the wire text of a keyboard record. Fails, and only fails, when
/// the height field does not hold a number token.
pub fn encode_keyboard_info(v: &KeyboardInfo) -> (r: Result<String, Error>)
    ensures
        v.wf() ==> (r matches Ok(out) && out@ == spec_encode_keyboard(*v)),
        !v.wf() ==> (r matches Err(e) && e is Serialization),
{
    if !check_number_token(v.keyboard_height.as_str()) {
        return Err(serialization_error("keyboard height is not a number token"));
    }
    let mut out = String::from_str("{\"keyboardHeight\":");
    out.append(v.keyboard_height.as_str());
    out.append(",\"isVisible\":");
    if v.is_visible {
        out.append("true");
    } else {
        out.append("false");
    }
    out.append("}");
    Ok(out)
}

/// Reads an insets record off the wire. Returns the record whose wire text
/// `s` is, and an error exactly when `s` is the wire text of no well-formed
/// record.
#[verifier::rlimit(80)]
pub fn decode_safe_area_insets(s: &str) -> (r: Result<SafeAreaInsets, Error>)
    ensures
        r matches Ok(v) ==> v.wf() && s@ == spec_encode_insets(v),
        r is Err ==> forall|v: SafeAreaInsets| v.wf() ==> s@ != spec_encode_insets(v),
        r matches Err(e) ==> e is Serialization,
{
    let n = s.unicode_len();
    let p1 = match expect_lit(s, 0, "{\"top\":") {
        Some(j) => j,
        None => {
            proof {
                assert forall|v: SafeAreaInsets| v.wf() implies s@ != spec_encode_insets(
                    v,
                ) by {
                    if s@ == spec_encode_insets(v) {
                        lemma_insets_parts(v, s@);
                    }
                }
            }
            return Err(serialization_error("expected an insets object"));
        },
    };
    let e1 = scan_run(s, p1);
    let p2 = match expect_lit(s, e1, ",\"right\":") {
        Some(j) => j,
        None => {
            proof {
                assert forall|v: SafeAreaInsets| v.wf() implies s@ != spec_encode_insets(
                    v,
                ) by {
                    if s@ == spec_encode_insets(v) {
                        lemma_insets_parts(v, s@);
                        lemma_run_end_unique(s@, top_start(), e1 as int, top_end(v));
                    }
                }
            }
            return Err(serialization_error("expected a right inset"));
        },
    };
    let e2 = scan_run(s, p2);
    let p3 = match expect_lit(s, e2, ",\"bottom\":") {
        Some(j) => j,
        None => {
            proof {
                assert forall|v: SafeAreaInsets| v.wf() implies s@ != spec_encode_insets(
                    v,
                ) by {
                    if s@ == spec_encode_insets(v) {
                        lemma_insets_parts(v, s@);
                        lemma_run_end_unique(s@, top_start(), e1 as int, top_end(v));
                        lemma_run_end_unique(s@, right_start(v), e2 as int, right_end(v));
                    }
                }
            }
            return Err(serialization_error("expected a bottom inset"));
        },
    };
    let e3 = scan_run(s, p3);
    let p4 = match expect_lit(s, e3, ",\"left\":") {
        Some(j) => j,
        None => {
            proof {
                assert forall|v: SafeAreaInsets| v.wf() implies s@ != spec_encode_insets(
                    v,
                ) by {
                    if s@ == spec_encode_insets(v) {
                        lemma_insets_parts(v, s@);
                        lemma_run_end_unique(s@, top_start(), e1 as int, top_end(v));
                        lemma_run_end_unique(s@, right_start(v), e2 as int, right_end(v));
                        lemma_run_end_unique(s@, bottom_start(v), e3 as int, bottom_end(v));
                    }
                }
            }
            return Err(serialization_error("expected a left inset"));
        },
    };
    let e4 = scan_run(s, p4);
    let p5 = match expect_lit(s, e4, "}") {
        Some(j) => j,
        None => {
            proof {
                assert forall|v: SafeAreaInsets| v.wf() implies s@ != spec_encode_insets(
                    v,
                ) by {
                    if s@ == spec_encode_insets(v) {
                        lemma_insets_parts(v, s@);
                        lemma_run_end_unique(s@, top_start(), e1 as int, top_end(v));
                        lemma_run_end_unique(s@, right_start(v), e2 as int, right_end(v));
                        lemma_run_end_unique(s@, bottom_start(v), e3 as int, bottom_end(v));
                        lemma_run_end_unique(s@, left_start(v), e4 as int, left_end(v));
                    }
                }
            }
            return Err(serialization_error("expected a closing brace"));
        },
    };
    if p5 != n {
        proof {
            assert forall|v: SafeAreaInsets| v.wf() implies s@ != spec_encode_insets(v) by {
                if s@ == spec_encode_insets(v) {
                    lemma_insets_parts(v, s@);
                    lemma_run_end_unique(s@, top_start(), e1 as int, top_end(v));
                    lemma_run_end_unique(s@, right_start(v), e2 as int, right_end(v));
                    lemma_run_end_unique(s@, bottom_start(v), e3 as int, bottom_end(v));
                    lemma_run_end_unique(s@, left_start(v), e4 as int, left_end(v));
                }
            }
        }
        return Err(serialization_error("text after the insets object"));
    }
    let t_top = s.substring_char(p1, e1);
    let t_right = s.substring_char(p2, e2);
    let t_bottom = s.substring_char(p3, e3);
    let t_left = s.substring_char(p4, e4);
    if !check_number_token(t_top) || !check_number_token(t_right) || !check_number_token(
        t_bottom,
    ) || !check_number_token(t_left) {
        proof {
            assert forall|v: SafeAreaInsets| v.wf() implies s@ != spec_encode_insets(v) by {
                if s@ == spec_encode_insets(v) {
                    lemma_insets_parts(v, s@);
                    lemma_run_end_unique(s@, top_start(), e1 as int, top_end(v));
                    lemma_run_end_unique(s@, right_start(v), e2 as int, right_end(v));
                    lemma_run_end_unique(s@, bottom_start(v), e3 as int, bottom_end(v));
                    lemma_run_end_unique(s@, left_start(v), e4 as int, left_end(v));
                }
            }
        }
        return Err(serialization_error("an inset is not a number token"));
    }
    let v = SafeAreaInsets {
        top: String::from_str(t_top),
        right: String::from_str(t_right),
        bottom: String::from_str(t_bottom),
        left: String::from_str(t_left),
    };
    proof {
        assert(s@ =~= key_top() + v.top@ + key_right() + v.right@ + key_bottom() + v.bottom@
            + key_left() + v.left@ + close_brace());
    }
    Ok(v)
}

/// Reads a keyboard record off the wire. Returns the record whose wire text
/// `s` is, and an error exactly when `s` is the wire text of no well-formed
/// record.
#[verifier::rlimit(80)]
pub fn decode_keyboard_info(s: &str) -> (r: Result<KeyboardInfo, Error>)
    ensures
        r matches Ok(v) ==> v.wf() && s@ == spec_encode_keyboard(v),
        r is Err ==> forall|v: KeyboardInfo| v.wf() ==> s@ != spec_encode_keyboard(v),
        r matches Err(e) ==> e is Serialization,
{
    let n = s.unicode_len();
    let p1 = match expect_lit(s, 0, "{\"keyboardHeight\":") {
        Some(j) => j,
        None => {
            proof {
                assert forall|v: KeyboardInfo| v.wf() implies s@ != spec_encode_keyboard(
                    v,
                ) by {
                    if s@ == spec_encode_keyboard(v) {
                        lemma_keyboard_parts(v, s@);
                    }
                }
            }
            return Err(serialization_error("expected a keyboard object"));
        },
    };
    let e1 = scan_run(s, p1);
    let p2 = match expect_lit(s, e1, ",\"isVisible\":") {
        Some(j) => j,
        None => {
            proof {
                assert forall|v: KeyboardInfo| v.wf() implies s@ != spec_encode_keyboard(
                    v,
                ) by {
                    if s@ == spec_encode_keyboard(v) {
                        lemma_keyboard_parts(v, s@);
                        lemma_run_end_unique(s@, height_start(), e1 as int, height_end(v));
                    }
                }
            }
            return Err(serialization_error("expected a visibility flag"));
        },
    };
    let (visible, p3) = match expect_lit(s, p2, "true") {
        Some(j) => (true, j),
        None => match expect_lit(s, p2, "false") {
            Some(j) => (false, j),
            None => {
                proof {
                    assert forall|v: KeyboardInfo| v.wf() implies s@ != spec_encode_keyboard(
                        v,
                    ) by {
                        if s@ == spec_encode_keyboard(v) {
                            lemma_keyboard_parts(v, s@);
                            lemma_run_end_unique(
                                s@,
                                height_start(),
                                e1 as int,
                                height_end(v),
                            );
                        }
                    }
                }
                return Err(serialization_error("expected true or false"));
            },
        },
    };
    let p4 = match expect_lit(s, p3, "}") {
        Some(j) => j,
        None => {
            proof {
                assert forall|v: KeyboardInfo| v.wf() implies s@ != spec_encode_keyboard(
                    v,
                ) by {
                    if s@ == spec_encode_keyboard(v) {
                        lemma_keyboard_parts(v, s@);
                        lemma_run_end_unique(s@, height_start(), e1 as int, height_end(v));
                        lemma_visibility_agrees(v, s@, visible, p2 as int, p3 as int);
                    }
                }
            }
            return Err(serialization_error("expected a closing brace"));
        },
    };
    if p4 != n {
        proof {
            assert forall|v: KeyboardInfo| v.wf() implies s@ != spec_encode_keyboard(v) by {
                if s@ == spec_encode_keyboard(v) {
                    lemma_keyboard_parts(v, s@);
                    lemma_run_end_unique(s@, height_start(), e1 as int, height_end(v));
                    lemma_visibility_agrees(v, s@, visible, p2 as int, p3 as int);
                }
            }
        }
        return Err(serialization_error("text after the keyboard object"));
    }
    let t_height = s.substring_char(p1, e1);
    if !check_number_token(t_height) {
        proof {
            assert forall|v: KeyboardInfo| v.wf() implies s@ != spec_encode_keyboard(v) by {
                if s@ == spec_encode_keyboard(v) {
                    lemma_keyboard_parts(v, s@);
                    lemma_run_end_unique(s@, height_start(), e1 as int, height_end(v));
                }
            }
        }
        return Err(serialization_error("the height is not a number token"));
    }
    let v = KeyboardInfo { keyboard_height: String::from_str(t_height), is_visible: visible };
    proof {
        assert(s@ =~= key_keyboard_height() + v.keyboard_height@ + key_is_visible()
            + bool_token(visible) + close_brace());
    }
    Ok(v)
}

/// In a keyboard text whose visibility token starts at `p2`, a literal
/// `true` or `false` read there agrees with the record's flag, and ends
/// where the record's visibility token ends.
proof fn lemma_visibility_agrees(v: KeyboardInfo, s: Seq<char>, visible: bool, p2: int, p3: int)
    requires
        v.wf(),
        s == spec_encode_keyboard(v),
        p2 == visible_start(v),
        p3 == p2 + bool_token(visible).len(),
        s.subrange(p2, p3) == bool_token(visible),
    ensures
        v.is_visible == visible,
        p3 == visible_end(v),
{
    lemma_keyboard_parts(v, s);
    reveal_strlit("true");
    reveal_strlit("false");
    reveal_strlit("}");
    if v.is_visible != visible {
        assert(p3 <= s.len());
        assert(s.subrange(visible_start(v), visible_end(v))[0] == s[p2]);
        assert(s.subrange(p2, p3)[0] == s[p2]);
        assert(bool_token(v.is_visible)[0] == bool_token(visible)[0]);
        assert(false);
    }
}

/// The wire text of a well-formed insets record determines the record: two
/// records with the same text carry the same four tokens. Together with the
/// encoder's and decoder's contracts this is the round trip: decoding the
/// encoder's output yields the record that was encoded.
pub proof fn lemma_insets_encoding_injective(v1: SafeAreaInsets, v2: SafeAreaInsets)
    requires
        v1.wf(),
        v2.wf(),
        spec_encode_insets(v1) == spec_encode_insets(v2),
    ensures
        v1.top@ == v2.top@,
        v1.right@ == v2.right@,
        v1.bottom@ == v2.bottom@,
        v1.left@ == v2.left@,
{
    let s = spec_encode_insets(v1);
    lemma_insets_parts(v1, s);
    lemma_insets_parts(v2, s);
    lemma_run_end_unique(s, top_start(), top_end(v1), top_end(v2));
    lemma_run_end_unique(s, right_start(v1), right_end(v1), right_end(v2));
    lemma_run_end_unique(s, bottom_start(v1), bottom_end(v1), bottom_end(v2));
    lemma_run_end_unique(s, left_start(v1), left_end(v1), left_end(v2));
}

/// The wire text of a well-formed keyboard record determines the record.
/// Together with the encoder's and decoder's contracts this is the round
/// trip for keyboard records.
pub proof fn lemma_keyboard_encoding_injective(v1: KeyboardInfo, v2: KeyboardInfo)
    requires
        v1.wf(),
        v2.wf(),
        spec_encode_keyboard(v1) == spec_encode_keyboard(v2),
    ensures
        v1.keyboard_height@ == v2.keyboard_height@,
        v1.is_visible == v2.is_visible,
{
    let s = spec_encode_keyboard(v1);
    lemma_keyboard_parts(v1, s);
    lemma_keyboard_parts(v2, s);
    lemma_run_end_unique(s, height_start(), height_end(v1), height_end(v2));
    lemma_visibility_agrees(v2, s, v1.is_visible, visible_start(v1), visible_end(v1));
}

} // verus!
